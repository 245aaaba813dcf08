//! Offset arithmetic shared by the tagged pointer and the pools: rounding a
//! byte offset up to an alignment boundary, and the 48-bit offset limits.

use vstd::prelude::*;

verus! {

/// The first value that no longer fits in a 48-bit pool offset (`2^48`).
pub const OFFSET_LIMIT: u64 = 0x1_0000_0000_0000;

/// The all-ones 48-bit offset, reserved to mean "null".
pub const NULL_OFFSET: u64 = 0xFFFF_FFFF_FFFF;

/// `x` rounded up to the next multiple of `a`.
pub open spec fn round_up(x: int, a: int) -> int
    recommends
        a > 0,
{
    ((x + a - 1) / a) * a
}

/// Rounding as the pools apply it: an alignment of zero leaves the offset
/// untouched.
pub open spec fn align_up(x: int, a: int) -> int {
    if a == 0 {
        x
    } else {
        round_up(x, a)
    }
}

/// `a` is a power of two, by the usual bit trick.
pub open spec fn spec_is_pow2(a: u64) -> bool {
    a > 0 && a & (a - 1) as u64 == 0
}

/// A 64-bit power of two is at most `2^63`.
pub proof fn lemma_pow2_bound(a: u64)
    requires
        spec_is_pow2(a),
    ensures
        a <= 0x8000_0000_0000_0000,
{
    assert(a & (a - 1) as u64 == 0 && a > 0 ==> a <= 0x8000_0000_0000_0000) by (bit_vector);
}

/// Rounding up never moves an offset backwards, moves it by less than one
/// boundary, and lands on a multiple of the boundary.
pub proof fn lemma_round_up_bounds(x: int, a: int)
    requires
        0 <= x,
        0 < a,
    ensures
        x <= round_up(x, a) < x + a,
        round_up(x, a) % a == 0,
{
    assert(x <= ((x + a - 1) / a) * a < x + a && (((x + a - 1) / a) * a) % a == 0)
        by (nonlinear_arith)
        requires
            0 <= x,
            0 < a,
    ;
}

/// A zero offset is aligned to every boundary.
pub proof fn lemma_round_up_zero(a: int)
    requires
        0 < a,
    ensures
        round_up(0, a) == 0,
{
    assert(((0 + a - 1) / a) * a == 0) by (nonlinear_arith)
        requires
            0 < a,
    ;
}



/// The same bounds for `align_up`, which also admits a zero alignment.
pub proof fn lemma_align_up_bounds(x: int, a: int)
    requires
        0 <= x,
        0 <= a,
    ensures
        x <= align_up(x, a),
        a > 0 ==> align_up(x, a) < x + a && align_up(x, a) % a == 0,
        a == 0 ==> align_up(x, a) == x,
{
    if a > 0 {
        lemma_round_up_bounds(x, a);
    }
}

/// Rounds `x` up to the next multiple of `a`.
pub fn round_up_u64(x: u64, a: u64) -> (r: u64)
    requires
        a >= 1,
        x + a - 1 <= u64::MAX,
    ensures
        r == round_up(x as int, a as int),
{
    proof {
        lemma_round_up_bounds(x as int, a as int);
    }
    ((x + (a - 1)) / a) * a
}

/// Applies `align_up`: an alignment of zero is a no-op, any other rounds up.
pub fn align_up_u64(x: u64, a: u64) -> (r: u64)
    requires
        a == 0 || x + a - 1 <= u64::MAX,
    ensures
        r == align_up(x as int, a as int),
{
    if a == 0 {
        x
    } else {
        round_up_u64(x, a)
    }
}

/// Reports whether `a` is a power of two.
pub fn is_pow2(a: u64) -> (r: bool)
    ensures
        r == spec_is_pow2(a),
{
    a > 0 && a & (a - 1) == 0
}

} // verus!
