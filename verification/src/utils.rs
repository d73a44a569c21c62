//! Alignment arithmetic shared by the page and heap allocators.

use vstd::prelude::*;
use vstd::arithmetic::div_mod::{lemma_fundamental_div_mod, lemma_mod_multiples_basic};

verus! {

/// The alignments the allocators accept: the positive powers of two.
pub open spec fn is_power_of_two(a: int) -> bool
    decreases a,
{
    if a <= 0 {
        false
    } else if a == 1 {
        true
    } else {
        a % 2 == 0 && is_power_of_two(a / 2)
    }
}

/// `addr` rounded down to the nearest multiple of `align`.
pub open spec fn spec_align_down(addr: int, align: int) -> int
    recommends
        align > 0,
{
    addr - addr % align
}

/// `addr` rounded up to the nearest multiple of `align`.
pub open spec fn spec_align_up(addr: int, align: int) -> int
    recommends
        align > 0,
{
    if addr % align == 0 {
        addr
    } else {
        addr + align - addr % align
    }
}

/// Every power of two is at least one.
pub proof fn lemma_pow2_pos(a: int)
    requires
        is_power_of_two(a),
    ensures
        a >= 1,
{
}

/// What rounding down gives: a multiple of `align` at most `align - 1`
/// below `addr`.
pub proof fn lemma_align_down_props(addr: int, align: int)
    requires
        align > 0,
        addr >= 0,
    ensures
        spec_align_down(addr, align) % align == 0,
        spec_align_down(addr, align) <= addr,
        addr - spec_align_down(addr, align) < align,
{
    lemma_fundamental_div_mod(addr, align);
    vstd::arithmetic::mul::lemma_mul_is_commutative(align, addr / align);
    lemma_mod_multiples_basic(addr / align, align);
}

/// What rounding up gives: a multiple of `align` at most `align - 1`
/// above `addr`.
pub proof fn lemma_align_up_props(addr: int, align: int)
    requires
        align > 0,
        addr >= 0,
    ensures
        spec_align_up(addr, align) % align == 0,
        spec_align_up(addr, align) >= addr,
        spec_align_up(addr, align) - addr < align,
{
    lemma_fundamental_div_mod(addr, align);
    let q = addr / align;
    vstd::arithmetic::mul::lemma_mul_is_commutative(align, q);
    lemma_mod_multiples_basic(q, align);
    lemma_mod_multiples_basic(q + 1, align);
    if addr % align != 0 {
        assert(addr - addr % align + align == (q + 1) * align) by {
            assert(addr == q * align + addr % align);
            assert((q + 1) * align == q * align + align) by (nonlinear_arith);
        }
    }
}

/// Rounding up a value that is already a multiple of `align` changes
/// nothing.
pub proof fn lemma_align_up_of_multiple(addr: int, align: int)
    requires
        align > 0,
        addr % align == 0,
    ensures
        spec_align_up(addr, align) == addr,
{
}

/// Returns the value of `addr` aligned down to `align`.
pub fn align_down(addr: usize, align: usize) -> (r: usize)
    requires
        is_power_of_two(align as int),
    ensures
        r == spec_align_down(addr as int, align as int),
        r <= addr,
        r % align == 0,
        addr - r < align,
{
    proof {
        lemma_pow2_pos(align as int);
        lemma_fundamental_div_mod(addr as int, align as int);
        lemma_mod_multiples_basic(addr as int / align as int, align as int);
    }
    addr - addr % align
}

/// Returns the value of `addr` aligned up to `align`.
pub fn align_up(addr: usize, align: usize) -> (r: usize)
    requires
        is_power_of_two(align as int),
        addr + align - 1 <= usize::MAX,
    ensures
        r == spec_align_up(addr as int, align as int),
        addr <= r,
        r % align == 0,
        r - addr < align,
{
    proof {
        lemma_pow2_pos(align as int);
        lemma_fundamental_div_mod(addr as int, align as int);
        let q = addr as int / align as int;
        let m = align as int;
        lemma_mod_multiples_basic(q + 1, m);
        assert(addr as int - addr as int % m + m == (q + 1) * m) by {
            assert(addr as int == q * m + addr as int % m);
            assert((q + 1) * m == q * m + m) by (nonlinear_arith);
        }
    }
    let rem: usize = addr % align;
    if rem == 0 {
        addr
    } else {
        addr - rem + align
    }
}

} // verus!
