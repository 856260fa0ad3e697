//! Fixed-point trigonometry in thousandths of a degree.
//!
//! The sine of an angle is approximated by Bhaskara's rational formula
//! `sin(x deg) ~ 4x(180 - x) / (40500 - x(180 - x))` on the half turn
//! `[0, 180]`, extended to all angles by wrapping and sign.  The formula
//! is exact at every multiple of 30 degrees, in particular at 0, 90 and
//! 180 degrees, and stays within a few thousandths of the true sine in
//! between, which is ample for a distance-shaded renderer.  Results are
//! scaled by `SCALE`: a return value of `1000` means `1.0`.

use crate::geom::SCALE;
use vstd::arithmetic::div_mod::{
    lemma_div_by_multiple, lemma_div_is_ordered, lemma_fundamental_div_mod,
    lemma_fundamental_div_mod_converse,
};
use vstd::prelude::*;

verus! {

/// Thousandths of a degree in a full turn.
pub const FULL_TURN: i64 = 360_000;

/// Thousandths of a degree in a half turn.
pub const HALF_TURN: i64 = 180_000;

/// Thousandths of a degree in a quarter turn.
pub const QUARTER_TURN: i64 = 90_000;

/// The constant term of Bhaskara's denominator, scaled twice:
/// `40500 * SCALE * SCALE`.
pub const SINE_DENOM: i64 = 40_500_000_000;

/// Largest angle magnitude the trigonometric functions accept, leaving
/// headroom for negation and quarter-turn shifts inside an `i64`.
pub const MAX_ANGLE: i64 = 3_900_000_000;

/// The angle `a` wrapped into `[0, FULL_TURN)` (Euclidean remainder).
pub open spec fn wrap_angle(a: int) -> int {
    a % (FULL_TURN as int)
}

/// Bhaskara's sine approximation on `[0, HALF_TURN]`, scaled by `SCALE`.
pub open spec fn half_sine(x: int) -> int {
    let p = x * (HALF_TURN - x);
    (4 * p * SCALE) / (SINE_DENOM - p)
}

/// The sine of `a` thousandths of a degree, scaled by `SCALE`.
pub open spec fn sin_milli(a: int) -> int {
    let w = wrap_angle(a);
    if w <= HALF_TURN {
        half_sine(w)
    } else {
        -half_sine(w - HALF_TURN)
    }
}

/// The cosine of `a` thousandths of a degree, scaled by `SCALE`: the sine
/// shifted by a quarter turn.
pub open spec fn cos_milli(a: int) -> int {
    sin_milli(a + QUARTER_TURN)
}

/// Wrap an angle into `[0, FULL_TURN)`.
pub fn wrap_deg(a: i64) -> (r: i64)
    requires
        -4_000_000_000 <= a <= 4_000_000_000,
    ensures
        r == wrap_angle(a as int),
        0 <= r < FULL_TURN,
{
    let full: i64 = FULL_TURN;
    if a >= 0 {
        let r = (a as u64 % full as u64) as i64;
        r
    } else {
        let na: i64 = -a;
        let m = (na as u64 % full as u64) as i64;
        proof {
            let q = (na as int) / (full as int);
            lemma_fundamental_div_mod(na as int, full as int);
            if m == 0 {
                assert(a as int == (-q) * (full as int) + 0);
                lemma_fundamental_div_mod_converse(a as int, full as int, -q, 0);
            } else {
                assert(a as int == (-q - 1) * (full as int) + (full - m));
                lemma_fundamental_div_mod_converse(a as int, full as int, -q - 1, full - m);
            }
        }
        if m == 0 {
            0
        } else {
            full - m
        }
    }
}

/// Bhaskara's sine approximation on `[0, HALF_TURN]`.
pub fn half_sine_milli(x: i64) -> (r: i64)
    requires
        0 <= x <= HALF_TURN,
    ensures
        r == half_sine(x as int),
        0 <= r <= SCALE,
{
    let xu: u64 = x as u64;
    assert(xu * (180_000 - xu) <= 8_100_000_000) by (nonlinear_arith)
        requires
            xu <= 180_000u64,
    {
    }
    let p: u64 = xu * (180_000 - xu);
    let num: u64 = 4 * p * 1000;
    let den: u64 = 40_500_000_000 - p;
    let r: u64 = num / den;
    proof {
        let pi = p as int;
        let numi = num as int;
        let deni = den as int;
        assert(numi <= 1000 * deni);
        lemma_div_is_ordered(numi, 1000 * deni, deni);
        lemma_div_by_multiple(1000, deni);
        lemma_div_by_multiple(0, deni);
        lemma_div_is_ordered(0, numi, deni);
    }
    r as i64
}

/// The sine of `a` thousandths of a degree, scaled by `SCALE`.
pub fn sin_deg_milli(a: i64) -> (r: i64)
    requires
        -4_000_000_000 <= a <= 4_000_000_000,
    ensures
        r == sin_milli(a as int),
        -SCALE <= r <= SCALE,
{
    let w = wrap_deg(a);
    if w <= HALF_TURN {
        half_sine_milli(w)
    } else {
        let s = half_sine_milli(w - HALF_TURN);
        -s
    }
}

/// The cosine of `a` thousandths of a degree, scaled by `SCALE`.
pub fn cos_deg_milli(a: i64) -> (r: i64)
    requires
        -MAX_ANGLE <= a <= MAX_ANGLE,
    ensures
        r == cos_milli(a as int),
        -SCALE <= r <= SCALE,
{
    sin_deg_milli(a + QUARTER_TURN)
}

/// The sine of zero is exactly zero.
pub proof fn lemma_sin_milli_zero()
    ensures
        sin_milli(0) == 0,
{
    assert(wrap_angle(0) == 0) by {
        vstd::arithmetic::div_mod::lemma_small_mod(0nat, FULL_TURN as nat);
    }
    assert(half_sine(0) == 0) by {
        lemma_div_by_multiple(0, SINE_DENOM as int);
    }
}

} // verus!
