//! General-purpose heap allocator.
//!
//! The heap manages a byte range obtained from the page allocator as a
//! free list of regions, most recently freed first. Allocation is
//! first-fit: the list is scanned front to back and the first region whose
//! aligned span accommodates the request is taken. When the tail left over
//! by an allocation is large enough to be described by a free-list node it
//! is reinserted at the front of the list; a smaller, nonzero tail is fused
//! into the allocation as accepted internal fragmentation. Freed blocks are
//! pushed to the front; adjacent free regions are never coalesced.

use vstd::prelude::*;
use crate::allocator::{first_free_window, PageAllocator, PAGE_SIZE};
use crate::utils::{
    align_down, align_up, is_power_of_two, lemma_align_up_of_multiple, lemma_align_up_props,
    spec_align_down, spec_align_up,
};

verus! {

/// Bytes a free-list node needs: a size word and a link word.
pub const FREE_NODE_SIZE: usize = 16;

/// Alignment a free-list node needs.
pub const FREE_NODE_ALIGN: usize = 8;

/// One region of free heap memory: the byte range `[addr, addr + size)`.
#[derive(Clone, Copy, PartialEq, Eq, Structural)]
pub struct FreeRegion {
    pub addr: usize,
    pub size: usize,
}

impl FreeRegion {
    /// A region of `size` bytes starting at `addr`.
    pub fn new(addr: usize, size: usize) -> (r: FreeRegion)
        ensures
            r.addr == addr,
            r.size == size,
    {
        FreeRegion { addr, size }
    }

    /// First byte address of the region.
    pub fn start_addr(&self) -> (r: usize)
        ensures
            r == self.addr,
    {
        self.addr
    }

    /// One past the last byte address of the region.
    pub fn end_addr(&self) -> (r: usize)
        requires
            self.addr + self.size <= usize::MAX,
        ensures
            r == self.addr + self.size,
    {
        self.addr + self.size
    }
}

/// A region whose bounds fit the address space and that is large enough to
/// carry a free-list node.
pub open spec fn region_wf(r: FreeRegion) -> bool {
    &&& r.addr + r.size <= usize::MAX
    &&& r.size >= FREE_NODE_SIZE
}

/// Whether an allocation of `size` bytes at alignment `align` fits in `r`:
/// the aligned start must be computable and the allocation must end inside
/// the region.
pub open spec fn region_fits(r: FreeRegion, size: int, align: int) -> bool {
    &&& r.addr + align - 1 <= usize::MAX
    &&& spec_align_up(r.addr as int, align) + size <= r.addr + r.size
}

/// Index of the first region at or after `from` that fits the request.
pub open spec fn find_from(regions: Seq<FreeRegion>, size: int, align: int, from: int) -> Option<
    int,
>
    decreases regions.len() - from,
{
    if from < 0 || from >= regions.len() {
        None
    } else if region_fits(regions[from], size, align) {
        Some(from)
    } else {
        find_from(regions, size, align, from + 1)
    }
}

/// Index of the first-fit region for the request, if any.
pub open spec fn spec_find_region(regions: Seq<FreeRegion>, size: int, align: int) -> Option<int> {
    find_from(regions, size, align, 0)
}

/// The request as the allocator actually serves it: alignment raised to
/// what a free-list node needs, size padded to a multiple of that
/// alignment and to at least a node, so that any allocated block can later
/// be freed and carry a node.
pub open spec fn spec_size_align(size: int, align: int) -> (int, int) {
    let a2 = if align >= FREE_NODE_ALIGN {
        align
    } else {
        FREE_NODE_ALIGN as int
    };
    let padded = spec_align_up(size, a2);
    let s2 = if padded >= FREE_NODE_SIZE {
        padded
    } else {
        FREE_NODE_SIZE as int
    };
    (s2, a2)
}

/// What one allocation does to the free list: the first-fit region is
/// removed; the tail left past the allocated block comes back to the front
/// of the list when a node fits in it, and is fused into the allocation
/// otherwise. Returns the allocated address and the new list.
pub open spec fn spec_allocate(regions: Seq<FreeRegion>, size: int, align: int) -> Option<
    (int, Seq<FreeRegion>),
> {
    let (s2, a2) = spec_size_align(size, align);
    match spec_find_region(regions, s2, a2) {
        None => None,
        Some(i) => {
            let reg = regions[i];
            let a = spec_align_up(reg.addr as int, a2);
            let excess = reg.addr + reg.size - (a + s2);
            let rest = regions.remove(i);
            if excess >= FREE_NODE_SIZE {
                Some(
                    (
                        a,
                        rest.insert(
                            0,
                            (FreeRegion { addr: (a + s2) as usize, size: excess as usize }),
                        ),
                    ),
                )
            } else {
                Some((a, rest))
            }
        },
    }
}

/// What one deallocation does to the free list: the freed block, at the
/// size the allocator served it with, is pushed to the front.
pub open spec fn spec_deallocate(regions: Seq<FreeRegion>, ptr: int, size: int, align: int) -> Seq<
    FreeRegion,
> {
    let (s2, a2) = spec_size_align(size, align);
    regions.insert(0, (FreeRegion { addr: ptr as usize, size: s2 as usize }))
}

/// Adjusts a requested layout so the allocated block can host a free-list
/// node if later freed. Returns the adjusted size and alignment.
pub fn size_align(size: usize, align: usize) -> (r: (usize, usize))
    requires
        is_power_of_two(align as int),
        size + align + FREE_NODE_ALIGN <= usize::MAX,
    ensures
        (r.0 as int, r.1 as int) == spec_size_align(size as int, align as int),
        is_power_of_two(r.1 as int),
        r.0 >= FREE_NODE_SIZE,
        r.1 >= FREE_NODE_ALIGN,
{
    let a2: usize = if align >= FREE_NODE_ALIGN {
        align
    } else {
        proof {
            reveal_with_fuel(is_power_of_two, 5);
            assert(is_power_of_two(FREE_NODE_ALIGN as int));
        }
        FREE_NODE_ALIGN
    };
    let padded: usize = align_up(size, a2);
    let s2: usize = if padded >= FREE_NODE_SIZE {
        padded
    } else {
        FREE_NODE_SIZE
    };
    (s2, a2)
}

/// Tries to place an allocation of `size` bytes at alignment `align` in
/// `region`. Returns the allocation start address on success, and an error
/// when the region is too small.
pub fn alloc_from_region(region: &FreeRegion, size: usize, align: usize) -> (r: Result<usize, ()>)
    requires
        is_power_of_two(align as int),
        region.addr + region.size <= usize::MAX,
    ensures
        r is Ok <==> region_fits(*region, size as int, align as int),
        r is Ok ==> r->Ok_0 == spec_align_up(region.addr as int, align as int),
{
    if align - 1 > usize::MAX - region.addr {
        return Err(());
    }
    let alloc_start = align_up(region.addr, align);
    let end = region.addr + region.size;
    if alloc_start > end || size > end - alloc_start {
        return Err(());
    }
    Ok(alloc_start)
}

/// The free list behind the heap allocator.
pub struct AllocatorInner {
    regions: Vec<FreeRegion>,
}

impl AllocatorInner {
    /// The free regions, front of the list first.
    pub closed spec fn free_list(&self) -> Seq<FreeRegion> {
        self.regions@
    }

    /// Every region on the list is well formed.
    pub open spec fn wf(&self) -> bool {
        forall|i: int| 0 <= i < self.free_list().len() ==> region_wf(#[trigger] self.free_list()[i])
    }

    /// An empty free list: nothing to allocate from yet.
    pub fn new() -> (r: AllocatorInner)
        ensures
            r.wf(),
            r.free_list().len() == 0,
    {
        AllocatorInner { regions: Vec::new() }
    }

    /// Adds the memory region `[addr, addr + size)` to the front of the
    /// free list.
    pub fn add_free_region(&mut self, addr: usize, size: usize)
        requires
            old(self).wf(),
            addr + size <= usize::MAX,
            size >= FREE_NODE_SIZE,
        ensures
            final(self).wf(),
            final(self).free_list() == old(self).free_list().insert(
                0,
                (FreeRegion { addr, size }),
            ),
    {
        self.regions.insert(0, FreeRegion { addr, size });
        proof {
            assert forall|i: int| 0 <= i < self.free_list().len() implies region_wf(
                #[trigger] self.free_list()[i],
            ) by {
                if i > 0 {
                    assert(self.free_list()[i] == old(self).free_list()[i - 1]);
                    assert(region_wf(old(self).free_list()[i - 1]));
                }
            }
        }
    }

    /// Looks for the first free region that fits the given size and
    /// alignment and removes it from the list. Returns the region and the
    /// start address of the allocation inside it.
    pub fn find_region(&mut self, size: usize, align: usize) -> (r: Option<(FreeRegion, usize)>)
        requires
            old(self).wf(),
            is_power_of_two(align as int),
        ensures
            final(self).wf(),
            match spec_find_region(old(self).free_list(), size as int, align as int) {
                Some(i) => {
                    &&& r is Some
                    &&& (r->0).0 == old(self).free_list()[i]
                    &&& (r->0).1 == spec_align_up(old(self).free_list()[i].addr as int, align as int)
                    &&& final(self).free_list() == old(self).free_list().remove(i)
                },
                None => {
                    &&& r is None
                    &&& final(self).free_list() == old(self).free_list()
                },
            },
    {
        let mut i: usize = 0;
        loop
            invariant
                *self == *old(self),
                self.wf(),
                is_power_of_two(align as int),
                i <= self.free_list().len(),
                find_from(self.free_list(), size as int, align as int, 0) == find_from(
                    self.free_list(),
                    size as int,
                    align as int,
                    i as int,
                ),
            decreases self.free_list().len() - i,
        {
            if i >= self.regions.len() {
                return None;
            }
            let region = self.regions[i];
            match alloc_from_region(&region, size, align) {
                Ok(alloc_start) => {
                    let removed = self.regions.remove(i);
                    return Some((removed, alloc_start));
                },
                Err(()) => {
                    i = i + 1;
                },
            }
        }
    }
}

/// The heap allocator: a free list plus the allocation policy around it.
pub struct Allocator {
    inner: AllocatorInner,
}

impl Allocator {
    /// The free regions, front of the list first.
    pub closed spec fn free_list(&self) -> Seq<FreeRegion> {
        self.inner.free_list()
    }

    /// Every region on the list is well formed.
    pub open spec fn wf(&self) -> bool {
        forall|i: int| 0 <= i < self.free_list().len() ==> region_wf(#[trigger] self.free_list()[i])
    }

    /// The two views of well-formedness, outer and inner, agree.
    proof fn lemma_wf_inner(&self)
        requires
            self.wf(),
        ensures
            self.inner.wf(),
    {
        assert forall|i: int| 0 <= i < self.inner.free_list().len() implies region_wf(
            #[trigger] self.inner.free_list()[i],
        ) by {
            assert(region_wf(self.free_list()[i]));
        }
    }

    /// And back: a well-formed free list makes a well-formed allocator.
    proof fn lemma_inner_wf(&self)
        requires
            self.inner.wf(),
        ensures
            self.wf(),
    {
        assert forall|i: int| 0 <= i < self.free_list().len() implies region_wf(
            #[trigger] self.free_list()[i],
        ) by {
            assert(region_wf(self.inner.free_list()[i]));
        }
    }

    /// Creates an empty heap allocator.
    pub fn new() -> (r: Allocator)
        ensures
            r.wf(),
            r.free_list().len() == 0,
    {
        Allocator { inner: AllocatorInner::new() }
    }

    /// Initialize the allocator with the given heap bounds. Must be called
    /// on a heap that has no memory yet; the whole range becomes the single
    /// free region.
    pub fn init(&mut self, heap_start: usize, heap_size: usize)
        requires
            old(self).wf(),
            old(self).free_list().len() == 0,
            heap_start + heap_size <= usize::MAX,
            heap_size >= FREE_NODE_SIZE,
        ensures
            final(self).wf(),
            final(self).free_list() == Seq::empty().push(
                (FreeRegion { addr: heap_start, size: heap_size }),
            ),
    {
        proof {
            old(self).lemma_wf_inner();
        }
        self.inner.add_free_region(heap_start, heap_size);
        proof {
            self.lemma_inner_wf();
            assert(self.free_list() =~= Seq::empty().push(
                (FreeRegion { addr: heap_start, size: heap_size }),
            ));
        }
    }

    /// Allocates `size` bytes at alignment `align`, first-fit. Returns the
    /// address of the allocated block, or `None` when no free region fits
    /// the adjusted request.
    pub fn allocate(&mut self, size: usize, align: usize) -> (r: Option<usize>)
        requires
            old(self).wf(),
            is_power_of_two(align as int),
            size + align + FREE_NODE_ALIGN <= usize::MAX,
        ensures
            final(self).wf(),
            match spec_allocate(old(self).free_list(), size as int, align as int) {
                Some((a, regs)) => r == Some(a as usize) && final(self).free_list() == regs,
                None => r is None && final(self).free_list() == old(self).free_list(),
            },
    {
        proof {
            old(self).lemma_wf_inner();
        }
        let (size2, align2) = size_align(size, align);
        let ghost list0 = self.free_list();
        match self.inner.find_region(size2, align2) {
            Some((region, alloc_start)) => {
                proof {
                    let i = spec_find_region(list0, size2 as int, align2 as int)->0;
                    lemma_find_from_props(list0, size2 as int, align2 as int, 0);
                    assert(region_wf(list0[i]));
                }
                let alloc_end = alloc_start + size2;
                let excess = region.end_addr() - alloc_end;
                if excess >= FREE_NODE_SIZE {
                    self.inner.add_free_region(alloc_end, excess);
                }
                proof {
                    self.lemma_inner_wf();
                }
                Some(alloc_start)
            },
            None => {
                proof {
                    self.lemma_inner_wf();
                }
                None
            },
        }
    }

    /// Returns the block at `ptr`, allocated with the given size and
    /// alignment, to the heap: the block is pushed to the front of the free
    /// list at the size the allocator served it with. No check relates
    /// `ptr` to an earlier allocation; that is the caller's contract.
    pub fn deallocate(&mut self, ptr: usize, size: usize, align: usize)
        requires
            old(self).wf(),
            is_power_of_two(align as int),
            size + align + FREE_NODE_ALIGN <= usize::MAX,
            ptr + spec_size_align(size as int, align as int).0 <= usize::MAX,
        ensures
            final(self).wf(),
            final(self).free_list() == spec_deallocate(
                old(self).free_list(),
                ptr as int,
                size as int,
                align as int,
            ),
    {
        proof {
            old(self).lemma_wf_inner();
        }
        let (size2, _align2) = size_align(size, align);
        self.inner.add_free_region(ptr, size2);
        proof {
            self.lemma_inner_wf();
        }
    }
}

/// Rounds `size` down to whole pages, claims that many contiguous pages
/// from the page allocator, and seeds the heap with the obtained range as
/// its single free region. Returns whether the pages were available; a
/// caller that cannot run without a heap escalates `false` to a fatal
/// error.
pub fn heap_init(pa: &mut PageAllocator, heap: &mut Allocator, size: usize) -> (ok: bool)
    requires
        old(pa).wf(),
        old(heap).wf(),
        old(heap).free_list().len() == 0,
        size >= PAGE_SIZE,
    ensures
        final(pa).wf(),
        final(heap).wf(),
        crate::allocator::used_monotone(old(pa), final(pa)),
        ({
            let s2 = spec_align_down(size as int, PAGE_SIZE as int);
            match first_free_window(old(pa).pages(), s2 / (PAGE_SIZE as int), 0) {
                Some(i) => {
                    &&& ok
                    &&& final(heap).free_list() == Seq::empty().push(
                        (FreeRegion {
                            addr: old(pa).page_addr_spec(i) as usize,
                            size: s2 as usize,
                        }),
                    )
                },
                None => {
                    &&& !ok
                    &&& final(heap).free_list() == old(heap).free_list()
                    &&& final(pa).pages() == old(pa).pages()
                },
            }
        }),
{
    proof {
        crate::allocator::lemma_page_size_pow2();
    }
    let size2 = align_down(size, PAGE_SIZE);
    let n = size2 / PAGE_SIZE;
    proof {
        // size2 is a positive multiple of the page size, so at least one
        // whole page is requested and the heap gets at least a node's worth
        // of memory.
        vstd::arithmetic::div_mod::lemma_fundamental_div_mod(size2 as int, PAGE_SIZE as int);
        assert(size2 as int == (PAGE_SIZE as int) * (n as int));
        assert(n >= 1);
        vstd::arithmetic::mul::lemma_mul_inequality(1, n as int, PAGE_SIZE as int);
        vstd::arithmetic::mul::lemma_mul_is_commutative(1, PAGE_SIZE as int);
        vstd::arithmetic::mul::lemma_mul_is_commutative(n as int, PAGE_SIZE as int);
        assert(size2 >= PAGE_SIZE);
    }
    match pa.get_n_pages(n) {
        Some(heap_start) => {
            proof {
                let i = first_free_window(old(pa).pages(), n as int, 0)->0;
                crate::allocator::lemma_first_free_window_props(old(pa).pages(), n as int, 0);
                vstd::arithmetic::mul::lemma_mul_inequality(
                    i + n,
                    old(pa).pages().len() as int,
                    PAGE_SIZE as int,
                );
                vstd::arithmetic::mul::lemma_mul_is_distributive_add_other_way(
                    PAGE_SIZE as int,
                    i,
                    n as int,
                );
                vstd::arithmetic::mul::lemma_mul_is_commutative(n as int, PAGE_SIZE as int);
            }
            heap.init(heap_start, size2);
            true
        },
        None => false,
    }
}

/// A positive multiple of `align` is at least `align`.
proof fn lemma_positive_multiple_at_least(m: int, align: int)
    requires
        align > 0,
        m >= 1,
        m % align == 0,
    ensures
        m >= align,
{
    vstd::arithmetic::div_mod::lemma_fundamental_div_mod(m, align);
    let q = m / align;
    vstd::arithmetic::div_mod::lemma_div_pos_is_pos(m, align);
    if q == 0 {
        assert(m == align * 0 + m % align);
    }
    vstd::arithmetic::mul::lemma_mul_inequality(1, q, align);
    vstd::arithmetic::mul::lemma_mul_is_commutative(align, q);
    vstd::arithmetic::mul::lemma_mul_is_commutative(align, 1);
}

/// The adjusted size covers at least one stretch of the adjusted
/// alignment, as long as anything at all was asked for.
proof fn lemma_adjusted_size_at_least_align(size: int, align: int)
    requires
        align >= 1,
        size >= 1,
    ensures
        spec_size_align(size, align).0 >= spec_size_align(size, align).1,
{
    let (s2, a2) = spec_size_align(size, align);
    lemma_align_up_props(size, a2);
    lemma_positive_multiple_at_least(spec_align_up(size, a2), a2);
}

/// Round trip: freeing an allocated block and asking for the same layout
/// again gives the same address back and restores the free list to what it
/// was after the first allocation. The freed block lands at the front of
/// the list, fits the repeated request exactly, and first-fit takes it
/// before looking anywhere else.
pub proof fn lemma_allocate_deallocate_allocate(
    regions: Seq<FreeRegion>,
    size: int,
    align: int,
    a: int,
    list1: Seq<FreeRegion>,
)
    requires
        align >= 1,
        size >= 1,
        forall|i: int| 0 <= i < regions.len() ==> region_wf(#[trigger] regions[i]),
        spec_allocate(regions, size, align) == Some((a, list1)),
    ensures
        spec_allocate(spec_deallocate(list1, a, size, align), size, align) == Some((a, list1)),
{
    let (s2, a2) = spec_size_align(size, align);
    lemma_adjusted_size_at_least_align(size, align);
    lemma_find_from_props(regions, s2, a2, 0);
    let i = spec_find_region(regions, s2, a2)->0;
    let reg = regions[i];
    assert(region_wf(reg));
    lemma_align_up_props(reg.addr as int, a2);
    assert(a == spec_align_up(reg.addr as int, a2));
    assert(a % a2 == 0);
    assert(a + s2 <= reg.addr + reg.size);
    let front = FreeRegion { addr: a as usize, size: s2 as usize };
    let list2 = spec_deallocate(list1, a, size, align);
    assert(list2 == list1.insert(0, front));
    assert(list2[0] == front);
    lemma_align_up_of_multiple(front.addr as int, a2);
    assert(region_fits(front, s2, a2));
    assert(find_from(list2, s2, a2, 0) == Some(0int));
    assert(list2[0].addr + list2[0].size - (spec_align_up(list2[0].addr as int, a2) + s2) == 0);
    assert(list2.remove(0) =~= list1);
}

/// The region `find_from` picks is the first that fits: it fits, and no
/// region earlier in the list does.
pub proof fn lemma_find_from_props(regions: Seq<FreeRegion>, size: int, align: int, from: int)
    requires
        0 <= from <= regions.len(),
    ensures
        match find_from(regions, size, align, from) {
            Some(i) => {
                &&& from <= i < regions.len()
                &&& region_fits(regions[i], size, align)
                &&& forall|j: int| from <= j < i ==> !region_fits(#[trigger] regions[j], size, align)
            },
            None => forall|j: int|
                from <= j < regions.len() ==> !region_fits(#[trigger] regions[j], size, align),
        },
    decreases regions.len() - from,
{
    if from < regions.len() && !region_fits(regions[from], size, align) {
        lemma_find_from_props(regions, size, align, from + 1);
    }
}

} // verus!
