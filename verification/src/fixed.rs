//! Fixed-point representation of signal values, and the small arithmetic
//! helpers (truncating division, saturation) that the codec's rescaling uses.

use vstd::prelude::*;

verus! {

/// Number of fixed-point ticks in one unit of signal value: values are held
/// with twelve decimal places, so a tick is 10^-12 of a unit.
pub const VALUE_SCALE: i64 = 1_000_000_000_000;

/// Largest magnitude, in ticks, accepted for an amplitude bound. This is a
/// machine limit: it keeps the rescaling products within `i128`.
pub const AMP_LIMIT: i64 = 1_000_000_000_000_000_000;

/// Largest nanosecond count accepted for a base time or a draw offset. This
/// is a machine limit: it keeps `base + offset` within `i64`.
pub const TIME_LIMIT: i64 = 4_000_000_000_000_000_000;

/// Division that rounds toward zero, for a positive divisor.
pub open spec fn tdiv(a: int, b: int) -> int {
    if a >= 0 {
        a / b
    } else {
        -((-a) / b)
    }
}

/// `x` clamped into `i64`'s range.
pub open spec fn sat64(x: int) -> int {
    if x > i64::MAX as int {
        i64::MAX as int
    } else if x < i64::MIN as int {
        i64::MIN as int
    } else {
        x
    }
}

/// Truncating division on `i128`, matching [`tdiv`].
pub fn tdiv128(num: i128, den: i128) -> (r: i128)
    requires
        den > 0,
        num > i128::MIN as int,
    ensures
        r == tdiv(num as int, den as int),
        num >= 0 ==> 0 <= r <= num,
        num < 0 ==> num <= r <= 0,
{
    if num >= 0 {
        let q: u128 = (num as u128) / (den as u128);
        proof {
            vstd::arithmetic::div_mod::lemma_div_is_ordered_by_denominator(num as int, 1, den as int);
            vstd::arithmetic::div_mod::lemma_div_basics(num as int);
        }
        q as i128
    } else {
        let q: u128 = ((-num) as u128) / (den as u128);
        proof {
            vstd::arithmetic::div_mod::lemma_div_is_ordered_by_denominator(-(num as int), 1, den as int);
            vstd::arithmetic::div_mod::lemma_div_basics(-(num as int));
        }
        -(q as i128)
    }
}

/// A product of two bounded factors is bounded by the product of the bounds.
pub proof fn lemma_mul_abs_bound(a: int, b: int, ab: int, bb: int)
    by (nonlinear_arith)
    requires
        -ab <= a <= ab,
        -bb <= b <= bb,
        0 <= ab,
        0 <= bb,
    ensures
        -(ab * bb) <= a * b <= ab * bb,
{
}

/// Saturating conversion from `i128` to `i64`, matching [`sat64`].
pub fn sat_to_i64(x: i128) -> (r: i64)
    ensures
        r as int == sat64(x as int),
{
    if x > i64::MAX as i128 {
        i64::MAX
    } else if x < i64::MIN as i128 {
        i64::MIN
    } else {
        x as i64
    }
}

} // verus!
