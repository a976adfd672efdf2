//! Fixed-point plane arithmetic.
//!
//! A coordinate in the complex plane is stored as an `i64` holding the real
//! value multiplied by [`SCALE`]. Products of two coordinates are formed in
//! `i128` (giving a value in `SCALE * SCALE` units) and brought back to
//! coordinate units with [`scale_down`], which divides by `SCALE` rounding
//! toward zero.

use vstd::prelude::*;

verus! {

/// Fixed-point units per 1.0 of plane distance.
pub const SCALE: i64 = 65536;

/// Division of `a` by `b` rounding toward zero, for positive `b`.
///
/// Spec-level `/` is Euclidean; this wraps it into the symmetric form the
/// executable code computes, so that the iteration treats positive and
/// negative coordinates alike.
pub open spec fn div_trunc(a: int, b: int) -> int {
    if a >= 0 {
        a / b
    } else {
        -((-a) / b)
    }
}

/// `div_trunc` by a positive divisor never grows magnitude past `bound / b`.
pub proof fn lemma_div_trunc_bound(a: int, b: int, bound: int)
    requires
        b >= 1,
        -bound <= a <= bound,
        0 <= bound,
    ensures
        -(bound / b) <= div_trunc(a, b) <= bound / b,
{
    if a >= 0 {
        vstd::arithmetic::div_mod::lemma_div_is_ordered(a, bound, b);
        vstd::arithmetic::div_mod::lemma_div_pos_is_pos(a, b);
    } else {
        vstd::arithmetic::div_mod::lemma_div_is_ordered(-a, bound, b);
        vstd::arithmetic::div_mod::lemma_div_pos_is_pos(-a, b);
    }
}

/// Bring a product of two fixed-point values back to fixed-point units,
/// rounding toward zero.
pub fn scale_down(a: i128) -> (r: i64)
    requires
        -(i64::MAX as int) * (SCALE as int) <= a <= (i64::MAX as int) * (SCALE as int),
    ensures
        r == div_trunc(a as int, SCALE as int),
{
    if a >= 0 {
        let q: u128 = (a as u128) / 65536;
        q as i64
    } else {
        let n: u128 = ((-a) as u128) / 65536;
        proof {
            vstd::arithmetic::div_mod::lemma_div_is_ordered(
                -(a as int),
                (i64::MAX as int) * (SCALE as int),
                SCALE as int,
            );
        }
        -(n as i64)
    }
}

} // verus!
