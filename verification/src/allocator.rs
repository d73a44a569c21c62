//! Physical page allocator.
//!
//! The allocator owns a page-aligned physical range and tracks a used/free
//! flag per page. The flags themselves live in the leading pages of the
//! managed range, so those pages are marked used from the start and are
//! never handed out. Pages are never returned: once allocated they stay
//! allocated for the life of the system.

use vstd::prelude::*;
use vstd::arithmetic::div_mod::{lemma_fundamental_div_mod, lemma_div_is_ordered};
use crate::utils::{align_down, align_up, is_power_of_two, spec_align_down, spec_align_up};

verus! {

/// Size of one physical page: 4 MiB.
pub const PAGE_SIZE: usize = 0x40_0000;

/// A single allocated page, identified by its physical start address.
pub struct Page {
    addr: usize,
}

impl Page {
    /// Physical start address of the page.
    pub fn addr(&self) -> (r: usize)
        ensures
            r == self.view(),
    {
        self.addr
    }
}

impl View for Page {
    type V = int;

    closed spec fn view(&self) -> int {
        self.addr as int
    }
}

/// Tracks which pages of a physical range are in use.
pub struct PageAllocator {
    start: usize,
    num_pages: usize,
    page_used: Vec<bool>,
}

/// `true` at every index of `[from, from + n)`.
pub open spec fn window_used(pages: Seq<bool>, from: int, n: int) -> bool {
    forall|j: int| from <= j < from + n ==> pages[j]
}

/// `false` at every index of `[from, from + n)`.
pub open spec fn window_free(pages: Seq<bool>, from: int, n: int) -> bool {
    forall|j: int| from <= j < from + n ==> !pages[j]
}

/// Index of the first free page at or after `from`, if any.
pub open spec fn first_free(pages: Seq<bool>, from: int) -> Option<int>
    decreases pages.len() - from,
{
    if from < 0 || from >= pages.len() {
        None
    } else if !pages[from] {
        Some(from)
    } else {
        first_free(pages, from + 1)
    }
}

/// Index of the first window of `n` consecutive free pages at or after
/// `from`, if any window fits inside `pages`.
pub open spec fn first_free_window(pages: Seq<bool>, n: int, from: int) -> Option<int>
    decreases pages.len() - from,
{
    if from < 0 || n < 0 || from + n > pages.len() {
        None
    } else if window_free(pages, from, n) {
        Some(from)
    } else {
        first_free_window(pages, n, from + 1)
    }
}

/// The used set only grows: same range, and no page goes back to free.
pub open spec fn used_monotone(a: &PageAllocator, b: &PageAllocator) -> bool {
    &&& b.start_spec() == a.start_spec()
    &&& b.pages().len() == a.pages().len()
    &&& forall|i: int| 0 <= i < a.pages().len() && a.pages()[i] ==> b.pages()[i]
}

impl PageAllocator {
    /// Start address of the managed (page-aligned) range.
    pub closed spec fn start_spec(&self) -> int {
        self.start as int
    }

    /// Per-page used flags; index `i` covers
    /// `[start + i * PAGE_SIZE, start + (i + 1) * PAGE_SIZE)`.
    pub closed spec fn pages(&self) -> Seq<bool> {
        self.page_used@
    }

    /// Number of managed pages.
    pub closed spec fn num_pages_spec(&self) -> int {
        self.num_pages as int
    }

    /// Number of leading pages reserved for the used flags themselves:
    /// one byte-sized flag per page, rounded up to whole pages.
    pub open spec fn reserved_pages(&self) -> int {
        (self.num_pages_spec() + PAGE_SIZE - 1) / (PAGE_SIZE as int)
    }

    /// Structural invariant: bitmap matches the page count, the range is
    /// page-aligned and fits in the address space, and the pages that back
    /// the bitmap are marked used.
    pub open spec fn wf(&self) -> bool {
        &&& self.pages().len() == self.num_pages_spec()
        &&& self.start_spec() % (PAGE_SIZE as int) == 0
        &&& self.start_spec() + self.num_pages_spec() * (PAGE_SIZE as int) <= usize::MAX
        &&& window_used(self.pages(), 0, self.reserved_pages())
    }

    /// Address of the `n`-th managed page.
    pub open spec fn page_addr_spec(&self, n: int) -> int {
        self.start_spec() + n * (PAGE_SIZE as int)
    }

    /// Creates an allocator over the physical range `[start, start + size)`.
    /// The range is shrunk to page boundaries; the leading pages that hold
    /// the used flags are pre-marked used.
    pub fn new(start: usize, size: usize) -> (r: PageAllocator)
        requires
            start + size <= usize::MAX,
            size >= PAGE_SIZE,
        ensures
            r.wf(),
            r.start_spec() == spec_align_up(start as int, PAGE_SIZE as int),
            r.num_pages_spec() == (spec_align_down(start + size, PAGE_SIZE as int)
                - spec_align_up(start as int, PAGE_SIZE as int)) / (PAGE_SIZE as int),
            forall|i: int| 0 <= i < r.num_pages_spec()
                ==> r.pages()[i] == (i < r.reserved_pages()),
    {
        proof {
            lemma_page_size_pow2();
        }
        let end: usize = start + size;
        let astart: usize = align_up(start, PAGE_SIZE);
        let aend: usize = align_down(end, PAGE_SIZE);
        proof {
            // size >= PAGE_SIZE leaves the aligned start no higher than the
            // aligned end: both bounds move by less than one page, and two
            // distinct multiples of PAGE_SIZE are at least PAGE_SIZE apart.
            if aend < astart {
                lemma_multiple_gap(aend as int, astart as int, PAGE_SIZE as int);
            }
            assert(aend >= astart);
        }
        let num_pages: usize = (aend - astart) / PAGE_SIZE;
        proof {
            lemma_fundamental_div_mod((aend - astart) as int, PAGE_SIZE as int);
            lemma_div_is_ordered((aend - astart) as int, usize::MAX as int, PAGE_SIZE as int);
            assert(num_pages + PAGE_SIZE <= usize::MAX);
            lemma_reserved_le_num(num_pages as int);
        }
        let reserved: usize = (num_pages + (PAGE_SIZE - 1)) / PAGE_SIZE;
        let mut page_used: Vec<bool> = Vec::new();
        let mut i: usize = 0;
        while i < num_pages
            invariant
                i <= num_pages,
                page_used@.len() == i,
                forall|j: int| 0 <= j < i ==> page_used@[j] == (j < reserved),
            decreases num_pages - i,
        {
            page_used.push(i < reserved);
            i = i + 1;
        }
        proof {
            assert(astart as int + num_pages * (PAGE_SIZE as int) <= aend as int) by {
                lemma_fundamental_div_mod((aend - astart) as int, PAGE_SIZE as int);
            }
        }
        PageAllocator { start: astart, num_pages, page_used }
    }

    /// Address of the `n`-th page of the managed range.
    pub fn page_addr(&self, n: usize) -> (r: usize)
        requires
            self.wf(),
            n <= self.num_pages_spec(),
        ensures
            r == self.page_addr_spec(n as int),
    {
        proof {
            vstd::arithmetic::mul::lemma_mul_inequality(
                n as int,
                self.num_pages_spec(),
                PAGE_SIZE as int,
            );
        }
        self.start + n * PAGE_SIZE
    }

    /// Hands out the lowest-addressed free page, marking it used, or
    /// returns `None` when every page is used.
    pub fn get_page(&mut self) -> (r: Option<Page>)
        requires
            old(self).wf(),
        ensures
            final(self).wf(),
            used_monotone(old(self), final(self)),
            match r {
                Some(p) => {
                    &&& first_free(old(self).pages(), 0) is Some
                    &&& {
                        let i = first_free(old(self).pages(), 0)->0;
                        &&& p@ == old(self).page_addr_spec(i)
                        &&& !old(self).pages()[i]
                        &&& final(self).pages() == old(self).pages().update(i, true)
                    }
                },
                None => {
                    &&& final(self).pages() == old(self).pages()
                    &&& window_used(old(self).pages(), 0, old(self).pages().len() as int)
                },
            },
    {
        let mut i: usize = 0;
        while i < self.num_pages
            invariant
                *self == *old(self),
                self.wf(),
                i <= self.num_pages_spec(),
                window_used(self.pages(), 0, i as int),
                first_free(self.pages(), 0) == first_free(self.pages(), i as int),
            decreases self.num_pages - i,
        {
            if !self.page_used[i] {
                proof {
                    assert(first_free(self.pages(), i as int) == Some(i as int));
                }
                let addr = self.page_addr(i);
                let ghost before = self.pages();
                self.page_used[i] = true;
                proof {
                    assert(self.pages() =~= before.update(i as int, true));
                    assert(first_free(before, 0) == Some(i as int));
                }
                return Some(Page { addr });
            }
            i = i + 1;
        }
        None
    }

    /// Hands out the lowest-addressed window of `n` consecutive free pages,
    /// marking the whole window used, or returns `None` when no such window
    /// exists.
    pub fn get_n_pages(&mut self, n: usize) -> (r: Option<usize>)
        requires
            old(self).wf(),
        ensures
            final(self).wf(),
            used_monotone(old(self), final(self)),
            match r {
                Some(a) => {
                    &&& first_free_window(old(self).pages(), n as int, 0) is Some
                    &&& {
                        let i = first_free_window(old(self).pages(), n as int, 0)->0;
                        &&& a == old(self).page_addr_spec(i)
                        &&& window_free(old(self).pages(), i, n as int)
                        &&& final(self).pages().len() == old(self).pages().len()
                        &&& forall|j: int| 0 <= j < old(self).pages().len()
                            ==> final(self).pages()[j]
                                == (old(self).pages()[j] || (i <= j < i + n))
                    }
                },
                None => {
                    &&& final(self).pages() == old(self).pages()
                    &&& first_free_window(old(self).pages(), n as int, 0) is None
                },
            },
    {
        if self.num_pages < n {
            proof {
                lemma_no_window_beyond_len(self.pages(), n as int, 0);
            }
            return None;
        }
        let end: usize = self.num_pages - n;
        let mut i: usize = 0;
        loop
            invariant
                *self == *old(self),
                self.wf(),
                n <= self.num_pages_spec(),
                end == self.num_pages_spec() - n,
                i <= end + 1,
                first_free_window(self.pages(), n as int, 0)
                    == first_free_window(self.pages(), n as int, i as int),
            decreases end + 1 - i,
        {
            if i > end {
                proof {
                    lemma_no_window_beyond_len(self.pages(), n as int, i as int);
                }
                return None;
            }
            if self.window_is_free(i, n) {
                let addr = self.page_addr(i);
                self.mark_window_used(i, n);
                return Some(addr);
            }
            i = i + 1;
        }
    }

    /// Checks whether the `n` pages starting at index `i` are all free.
    fn window_is_free(&self, i: usize, n: usize) -> (r: bool)
        requires
            self.wf(),
            i + n <= self.num_pages_spec(),
        ensures
            r == window_free(self.pages(), i as int, n as int),
    {
        let mut j: usize = i;
        while j < i + n
            invariant
                self.wf(),
                i <= j <= i + n,
                i + n <= self.pages().len(),
                window_free(self.pages(), i as int, j - i),
            decreases i + n - j,
        {
            if self.page_used[j] {
                return false;
            }
            j = j + 1;
        }
        true
    }

    /// Marks the `n` pages starting at index `i` used.
    fn mark_window_used(&mut self, i: usize, n: usize)
        requires
            old(self).wf(),
            i + n <= old(self).num_pages_spec(),
        ensures
            final(self).wf(),
            final(self).start_spec() == old(self).start_spec(),
            final(self).num_pages_spec() == old(self).num_pages_spec(),
            final(self).pages().len() == old(self).pages().len(),
            forall|j: int| 0 <= j < old(self).pages().len()
                ==> final(self).pages()[j] == (old(self).pages()[j] || (i <= j < i + n)),
    {
        let mut j: usize = i;
        while j < i + n
            invariant
                self.start == old(self).start,
                self.num_pages == old(self).num_pages,
                self.wf(),
                i <= j <= i + n,
                i + n <= self.pages().len(),
                self.pages().len() == old(self).pages().len(),
                forall|k: int| 0 <= k < old(self).pages().len()
                    ==> self.pages()[k] == (old(self).pages()[k] || (i <= k < j)),
            decreases i + n - j,
        {
            let ghost before = self.pages();
            self.page_used[j] = true;
            proof {
                assert(self.pages() =~= before.update(j as int, true));
            }
            j = j + 1;
        }
    }
}

/// PAGE_SIZE is a power of two.
pub proof fn lemma_page_size_pow2()
    ensures
        is_power_of_two(PAGE_SIZE as int),
{
    reveal_with_fuel(is_power_of_two, 30);
    assert(is_power_of_two(0x40_0000));
}

/// The flag storage never needs more pages than it describes.
proof fn lemma_reserved_le_num(n: int)
    requires
        n >= 0,
    ensures
        0 <= (n + PAGE_SIZE - 1) / (PAGE_SIZE as int) <= n,
{
    let ps = PAGE_SIZE as int;
    vstd::arithmetic::div_mod::lemma_div_pos_is_pos(n + ps - 1, ps);
    vstd::arithmetic::mul::lemma_mul_inequality(1, ps, n);
    assert(n + ps - 1 <= ps * n + ps - 1);
    lemma_div_is_ordered(n + ps - 1, ps * n + ps - 1, ps);
    vstd::arithmetic::div_mod::lemma_div_multiples_vanish_fancy(n, ps - 1, ps);
}

/// Two distinct multiples of `m` differ by at least `m`.
proof fn lemma_multiple_gap(a: int, b: int, m: int)
    requires
        m > 0,
        a % m == 0,
        b % m == 0,
        a < b,
    ensures
        b - a >= m,
{
    lemma_fundamental_div_mod(a, m);
    lemma_fundamental_div_mod(b, m);
    let qa = a / m;
    let qb = b / m;
    assert(m * qa == qa * m) by {
        vstd::arithmetic::mul::lemma_mul_is_commutative(m, qa);
    }
    assert(m * qb == qb * m) by {
        vstd::arithmetic::mul::lemma_mul_is_commutative(m, qb);
    }
    assert(qa < qb) by {
        vstd::arithmetic::mul::lemma_mul_strict_inequality_converse(qa, qb, m);
    }
    vstd::arithmetic::mul::lemma_mul_inequality(qa + 1, qb, m);
    assert((qa + 1) * m == qa * m + m) by {
        vstd::arithmetic::mul::lemma_mul_is_distributive_add_other_way(m, qa, 1);
    }
    assert(b - a >= m);
}

/// No window of `n` pages fits at or after `from` when `from + n` runs past
/// the end of the bitmap.
proof fn lemma_no_window_beyond_len(pages: Seq<bool>, n: int, from: int)
    requires
        from + n > pages.len() || from < 0 || n < 0,
    ensures
        first_free_window(pages, n, from) is None,
    decreases pages.len() - from,
{
    if !(from < 0 || n < 0 || from + n > pages.len()) {
        lemma_no_window_beyond_len(pages, n, from + 1);
    }
}

/// `first_free` finds a free index, skips only used ones, and fails only
/// when everything from `from` on is used.
pub proof fn lemma_first_free_props(pages: Seq<bool>, from: int)
    requires
        0 <= from <= pages.len(),
    ensures
        match first_free(pages, from) {
            Some(i) => from <= i < pages.len() && !pages[i] && window_used(pages, from, i - from),
            None => window_used(pages, from, pages.len() - from),
        },
    decreases pages.len() - from,
{
    if from < pages.len() && pages[from] {
        lemma_first_free_props(pages, from + 1);
    }
}

/// `first_free_window` finds the lowest fully free window inside the
/// bitmap, and fails only when no window of that width is free at all.
pub proof fn lemma_first_free_window_props(pages: Seq<bool>, n: int, from: int)
    requires
        0 <= from,
        0 <= n,
    ensures
        match first_free_window(pages, n, from) {
            Some(i) => {
                &&& from <= i && i + n <= pages.len()
                &&& window_free(pages, i, n)
                &&& forall|j: int| from <= j < i ==> !window_free(pages, j, n)
            },
            None => forall|j: int|
                from <= j && j + n <= pages.len() ==> !window_free(pages, j, n),
        },
    decreases pages.len() - from,
{
    if !(from + n > pages.len()) && !window_free(pages, from, n) {
        lemma_first_free_window_props(pages, n, from + 1);
    }
}

/// Growth of the used set is transitive, so it spans any sequence of
/// allocation calls.
pub proof fn lemma_used_monotone_trans(a: &PageAllocator, b: &PageAllocator, c: &PageAllocator)
    requires
        used_monotone(a, b),
        used_monotone(b, c),
    ensures
        used_monotone(a, c),
{
}

/// The pages that store the used flags are never handed out: any page that
/// `get_page` can return lies at or above the end of the reserved prefix.
pub proof fn lemma_reserved_pages_never_allocated(pa: &PageAllocator, i: int)
    requires
        pa.wf(),
        first_free(pa.pages(), 0) == Some(i),
    ensures
        i >= pa.reserved_pages(),
        pa.page_addr_spec(i)
            >= pa.start_spec() + pa.reserved_pages() * (PAGE_SIZE as int),
{
    lemma_first_free_props(pa.pages(), 0);
    vstd::arithmetic::mul::lemma_mul_inequality(pa.reserved_pages(), i, PAGE_SIZE as int);
}

/// Likewise for contiguous allocation: a returned window of at least one
/// page starts past the reserved prefix.
pub proof fn lemma_reserved_pages_never_in_window(pa: &PageAllocator, n: int, i: int)
    requires
        pa.wf(),
        n >= 1,
        first_free_window(pa.pages(), n, 0) == Some(i),
    ensures
        i >= pa.reserved_pages(),
        pa.page_addr_spec(i)
            >= pa.start_spec() + pa.reserved_pages() * (PAGE_SIZE as int),
{
    lemma_first_free_window_props(pa.pages(), n, 0);
    assert(!pa.pages()[i]);
    vstd::arithmetic::mul::lemma_mul_inequality(pa.reserved_pages(), i, PAGE_SIZE as int);
}

/// No double allocation: two successful `get_page` calls on the same
/// allocator, in any order and with any monotone use of the allocator in
/// between, return different page addresses. `p0` steps to `p1` by the
/// first call, which hands out page `i1`; after any further allocation
/// activity (`p2`), a second successful call hands out page `i2`.
pub proof fn lemma_no_double_allocation(
    p0: &PageAllocator,
    p1: &PageAllocator,
    p2: &PageAllocator,
    i1: int,
    i2: int,
)
    requires
        p0.wf(),
        first_free(p0.pages(), 0) == Some(i1),
        p1.start_spec() == p0.start_spec(),
        p1.pages() == p0.pages().update(i1, true),
        used_monotone(p1, p2),
        first_free(p2.pages(), 0) == Some(i2),
    ensures
        i1 != i2,
        p0.page_addr_spec(i1) != p2.page_addr_spec(i2),
{
    lemma_first_free_props(p0.pages(), 0);
    lemma_first_free_props(p2.pages(), 0);
    assert(p1.pages()[i1]);
    assert(p2.pages()[i1]);
    assert(!p2.pages()[i2]);
    if i1 < i2 {
        vstd::arithmetic::mul::lemma_mul_strict_inequality(i1, i2, PAGE_SIZE as int);
    } else {
        vstd::arithmetic::mul::lemma_mul_strict_inequality(i2, i1, PAGE_SIZE as int);
    }
}

} // verus!
