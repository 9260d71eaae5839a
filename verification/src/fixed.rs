//! Milli-scaled fixed-point arithmetic.
//!
//! A quantity `q` is stored as the integer `q * 1000`.  Multiplying two
//! quantities therefore multiplies the raw integers and divides by 1000,
//! truncating toward zero.  Integer arithmetic makes every computation
//! bit-for-bit reproducible, which the rollback engine requires.

use vstd::prelude::*;
use vstd::arithmetic::div_mod::lemma_div_is_ordered;

verus! {

/// The fixed-point scale: one unit is 1000 raw steps.
pub const MILLI: i64 = 1000;

/// The product of two milli-scaled values, rescaled, truncated toward zero.
pub open spec fn milli(a: int, b: int) -> int {
    if a * b >= 0 {
        (a * b) / 1000
    } else {
        -((-(a * b)) / 1000)
    }
}

/// `x` forced into the interval `[lo, hi]`.
pub open spec fn clamp_spec(x: int, lo: int, hi: int) -> int {
    if x < lo {
        lo
    } else if x > hi {
        hi
    } else {
        x
    }
}

/// Multiplies two milli-scaled values and rescales the product.
pub fn scale_milli(a: i64, b: i64) -> (r: i64)
    requires
        -0x7fff_ffff_ffff_ffff <= a as int * b as int <= 0x7fff_ffff_ffff_ffff,
    ensures
        r as int == milli(a as int, b as int),
{
    let p: i64 = a * b;
    if p >= 0 {
        p / 1000
    } else {
        -((-p) / 1000)
    }
}

/// Forces `x` into the interval `[lo, hi]`.
pub fn clamp_i64(x: i64, lo: i64, hi: i64) -> (r: i64)
    requires
        lo <= hi,
    ensures
        r as int == clamp_spec(x as int, lo as int, hi as int),
{
    if x < lo {
        lo
    } else if x > hi {
        hi
    } else {
        x
    }
}

/// Bounds on two factors bound their product.
pub proof fn lemma_mul_bound(a: int, b: int, ma: int, mb: int)
    requires
        -ma <= a <= ma,
        -mb <= b <= mb,
        0 <= ma,
        0 <= mb,
    ensures
        -(ma * mb) <= a * b <= ma * mb,
{
    assert(-(ma * mb) <= a * b <= ma * mb) by (nonlinear_arith)
        requires
            -ma <= a <= ma,
            -mb <= b <= mb,
            0 <= ma,
            0 <= mb,
    ;
}

/// Bounds on the factors bound the rescaled product.
pub proof fn lemma_milli_bound_general(a: int, b: int, ma: int, mb: int)
    requires
        -ma <= a <= ma,
        -mb <= b <= mb,
        0 <= ma,
        0 <= mb,
    ensures
        -((ma * mb) / 1000) <= milli(a, b) <= (ma * mb) / 1000,
{
    lemma_mul_bound(a, b, ma, mb);
    if a * b >= 0 {
        lemma_div_is_ordered(0, a * b, 1000);
        lemma_div_is_ordered(a * b, ma * mb, 1000);
        lemma_div_is_ordered(0, ma * mb, 1000);
    } else {
        lemma_div_is_ordered(0, -(a * b), 1000);
        lemma_div_is_ordered(-(a * b), ma * mb, 1000);
        lemma_div_is_ordered(0, ma * mb, 1000);
    }
}

/// Scaling by a factor in `[0, 1000]` (at most one) cannot grow a value's
/// magnitude beyond `m`.
pub proof fn lemma_milli_bound(a: int, b: int, m: int)
    requires
        -m <= a <= m,
        0 <= b <= 1000,
        0 <= m,
    ensures
        -m <= milli(a, b) <= m,
{
    if a * b >= 0 {
        assert(a * b <= m * 1000) by (nonlinear_arith)
            requires
                -m <= a <= m,
                0 <= b <= 1000,
                0 <= m,
        ;
        lemma_div_is_ordered(0, a * b, 1000);
        lemma_div_is_ordered(a * b, m * 1000, 1000);
        assert((m * 1000) / 1000 == m) by (nonlinear_arith);
    } else {
        assert(-(a * b) <= m * 1000) by (nonlinear_arith)
            requires
                -m <= a <= m,
                0 <= b <= 1000,
                0 <= m,
        ;
        lemma_div_is_ordered(0, -(a * b), 1000);
        lemma_div_is_ordered(-(a * b), m * 1000, 1000);
        assert((m * 1000) / 1000 == m) by (nonlinear_arith);
    }
}

} // verus!
