//! Fixed-point arithmetic used throughout the crate.
//!
//! A quantity, price, rate or percentage is stored as an integer number of
//! micro-units: one whole unit is `SCALE` (1 000 000).  A percentage of
//! 2.5 % is stored as `2_500_000`.  Multiplying two scaled values therefore
//! divides by `SCALE` afterwards, and a ratio expressed in percent
//! multiplies by `PCT_SCALE` (100 × `SCALE`) before dividing.

use vstd::prelude::*;

verus! {

/// Number of micro-units in one whole unit.
pub const SCALE: u128 = 1_000_000;

/// Number of micro-percent units in 100 %: used when a ratio of two
/// amounts is expressed as a percentage.
pub const PCT_SCALE: u128 = 100_000_000;

/// `a * b / d` over the unbounded integers (floor division).
pub open spec fn spec_mul_div(a: int, b: int, d: int) -> int {
    (a * b) / d
}

/// `a * m / d` with the magnitude divided and the sign of `a` kept
/// (truncation toward zero, as the quotient of two amounts behaves).
pub open spec fn spec_mul_div_signed(a: int, m: int, d: int) -> int {
    if a >= 0 {
        (a * m) / d
    } else {
        -(((-a) * m) / d)
    }
}

/// Floor of `a * b / d` on unsigned fixed-point values.
pub fn mul_div(a: u128, b: u128, d: u128) -> (r: u128)
    requires
        1 <= d,
        a * b <= u128::MAX,
    ensures
        r == spec_mul_div(a as int, b as int, d as int),
        r <= a * b,
{
    let p: u128 = a * b;
    proof {
        vstd::arithmetic::div_mod::lemma_div_nonincreasing(p as int, d as int);
        vstd::arithmetic::div_mod::lemma_div_pos_is_pos(p as int, d as int);
    }
    p / d
}

/// `a * m / d` on a signed amount: the magnitude is divided and the sign
/// of `a` is kept.
pub fn mul_div_signed(a: i128, m: u128, d: u128) -> (r: i128)
    requires
        1 <= d,
        i128::MIN < a,
        (if a >= 0 { a as int } else { -(a as int) }) * m <= i128::MAX,
    ensures
        r == spec_mul_div_signed(a as int, m as int, d as int),
{
    if a >= 0 {
        let q: u128 = mul_div(a as u128, m, d);
        q as i128
    } else {
        let n: u128 = (-a) as u128;
        let q: u128 = mul_div(n, m, d);
        -(q as i128)
    }
}

/// The product of two values bounded by `xb` and `yb` is bounded by
/// `xb * yb`.
pub proof fn lemma_mul_le(x: int, xb: int, y: int, yb: int)
    by (nonlinear_arith)
    requires
        0 <= x <= xb,
        0 <= y <= yb,
    ensures
        x * y <= xb * yb,
{
}

} // verus!
