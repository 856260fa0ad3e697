//! Fixed-point three-dimensional geometry: points, bounds, squared
//! distances, and the scaled multiplication used to advance along a ray.

use crate::sqrt::{isqrt, sqrt_floor};
use vstd::arithmetic::div_mod::{lemma_div_by_multiple, lemma_div_is_ordered};
use vstd::prelude::*;

verus! {

/// Fixed-point sub-units per world unit: a coordinate of `1000` is one
/// world unit.
pub const SCALE: i64 = 1000;

/// Largest coordinate magnitude the renderer works with, in sub-units
/// (one hundred thousand world units).  Keeping every point inside this
/// cube keeps every squared distance inside an `i64`.
pub const MAX_COORD: i64 = 100_000_000;

/// Largest squared distance between two in-bounds points:
/// `3 * (2 * MAX_COORD)^2`.
pub const MAX_DSQ: i64 = 120_000_000_000_000_000;

/// Mathematical model of a point: three unbounded integer coordinates in
/// sub-units.
pub ghost struct Pt3 {
    pub x: int,
    pub y: int,
    pub z: int,
}

/// A point or direction in space, with fixed-point coordinates in
/// sub-units.
#[derive(Clone, Copy, PartialEq, Eq, Structural, Debug)]
pub struct Vec3 {
    pub x: i64,
    pub y: i64,
    pub z: i64,
}

impl View for Vec3 {
    type V = Pt3;

    open spec fn view(&self) -> Pt3 {
        Pt3 { x: self.x as int, y: self.y as int, z: self.z as int }
    }
}

/// Every coordinate of `p` lies in `[-b, b]`.
pub open spec fn in_bounds(p: Pt3, b: int) -> bool {
    &&& -b <= p.x <= b
    &&& -b <= p.y <= b
    &&& -b <= p.z <= b
}

/// `v` clamped into the interval `[lo, hi]` (for `lo <= hi`).
pub open spec fn clamp_int(v: int, lo: int, hi: int) -> int {
    if v < lo {
        lo
    } else if v > hi {
        hi
    } else {
        v
    }
}

/// Squared Euclidean distance between two points.
pub open spec fn dist_sq(a: Pt3, b: Pt3) -> int {
    (a.x - b.x) * (a.x - b.x) + (a.y - b.y) * (a.y - b.y) + (a.z - b.z) * (a.z - b.z)
}

/// A squared distance is never negative.
pub proof fn lemma_dist_sq_nonneg(a: Pt3, b: Pt3)
    ensures
        dist_sq(a, b) >= 0,
{
    assert(dist_sq(a, b) >= 0) by (nonlinear_arith);
}

/// Squared Euclidean distance between two points.
pub fn distance_squared(vec1: Vec3, vec2: Vec3) -> (r: i64)
    requires
        in_bounds(vec1@, MAX_COORD as int),
        in_bounds(vec2@, MAX_COORD as int),
    ensures
        r == dist_sq(vec1@, vec2@),
        0 <= r <= MAX_DSQ,
{
    let dx: i64 = vec1.x - vec2.x;
    let dy: i64 = vec1.y - vec2.y;
    let dz: i64 = vec1.z - vec2.z;
    assert(0 <= dx * dx <= 40_000_000_000_000_000 && 0 <= dy * dy <= 40_000_000_000_000_000
        && 0 <= dz * dz <= 40_000_000_000_000_000) by (nonlinear_arith)
        requires
            -200_000_000 <= dx <= 200_000_000,
            -200_000_000 <= dy <= 200_000_000,
            -200_000_000 <= dz <= 200_000_000,
    {
    }
    dx * dx + dy * dy + dz * dz
}

/// Euclidean distance between two points, rounded down to whole
/// sub-units.
pub fn distance(vec1: Vec3, vec2: Vec3) -> (r: i64)
    requires
        in_bounds(vec1@, MAX_COORD as int),
        in_bounds(vec2@, MAX_COORD as int),
    ensures
        r == sqrt_floor(dist_sq(vec1@, vec2@)),
        0 <= r <= 350_000_000,
{
    let dsq = distance_squared(vec1, vec2);
    let root: u64 = isqrt(dsq as u64);
    proof {
        if root > 350_000_000u64 {
            assert(350_000_001 * 350_000_001 > MAX_DSQ as int) by (nonlinear_arith);
            assert(root * root >= 350_000_001 * 350_000_001) by (nonlinear_arith)
                requires
                    root >= 350_000_001u64,
            {
            }
        }
    }
    root as i64
}

/// `a * d / SCALE`, rounded toward zero, as Rust's own integer division
/// would round it.
pub open spec fn scale_mul(a: int, d: int) -> int {
    if a >= 0 {
        (a * d) / (SCALE as int)
    } else {
        -(((-a) * d) / (SCALE as int))
    }
}

/// For `|a| <= SCALE` and `d >= 0`, the scaled product stays within
/// `[-d, d]`: advancing a ray by `d` along a unit-or-shorter direction
/// component moves no coordinate by more than `d`.
pub proof fn lemma_scale_mul_bound(a: int, d: int)
    requires
        -(SCALE as int) <= a <= SCALE as int,
        0 <= d,
    ensures
        -d <= scale_mul(a, d) <= d,
{
    let s = SCALE as int;
    if a >= 0 {
        assert(0 <= a * d <= d * s) by (nonlinear_arith)
            requires
                0 <= a <= s,
                0 <= d,
        {
        }
        lemma_div_is_ordered(a * d, d * s, s);
        lemma_div_by_multiple(d, s);
        lemma_div_is_ordered(0, a * d, s);
    } else {
        assert(0 <= (-a) * d <= d * s) by (nonlinear_arith)
            requires
                0 < -a <= s,
                0 <= d,
        {
        }
        lemma_div_is_ordered((-a) * d, d * s, s);
        lemma_div_by_multiple(d, s);
        lemma_div_is_ordered(0, (-a) * d, s);
    }
}

/// `a * b / SCALE` rounded toward zero: the product of a unit-scaled
/// factor with another unit-scaled factor, of either sign.
pub open spec fn unit_mul(a: int, b: int) -> int {
    let p = a * b;
    if p >= 0 {
        p / (SCALE as int)
    } else {
        -((-p) / (SCALE as int))
    }
}

/// The product of two unit-or-shorter scaled factors is itself
/// unit-or-shorter.
pub proof fn lemma_unit_mul_bound(a: int, b: int)
    requires
        -(SCALE as int) <= a <= SCALE as int,
        -(SCALE as int) <= b <= SCALE as int,
    ensures
        -(SCALE as int) <= unit_mul(a, b) <= SCALE as int,
{
    let s = SCALE as int;
    assert(-(1_000_000int) <= a * b && a * b <= 1_000_000int) by (nonlinear_arith)
        requires
            -1000 <= a <= 1000,
            -1000 <= b <= 1000,
    {
    }
    let p = a * b;
    lemma_div_by_multiple(SCALE as int, s);
    if p >= 0 {
        lemma_div_is_ordered(p, s * s, s);
        lemma_div_is_ordered(0, p, s);
        lemma_div_by_multiple(0, s);
    } else {
        lemma_div_is_ordered(-p, s * s, s);
        lemma_div_is_ordered(0, -p, s);
        lemma_div_by_multiple(0, s);
    }
}

/// `a * b / SCALE` rounded toward zero, for two unit-scaled factors.
pub fn unit_mul_exec(a: i64, b: i64) -> (r: i64)
    requires
        -SCALE <= a <= SCALE,
        -SCALE <= b <= SCALE,
    ensures
        r == unit_mul(a as int, b as int),
        -SCALE <= r <= SCALE,
{
    proof {
        lemma_unit_mul_bound(a as int, b as int);
        assert(-1_000_000 <= a * b <= 1_000_000) by (nonlinear_arith)
            requires
                -1000 <= a <= 1000,
                -1000 <= b <= 1000,
        {
        }
    }
    let p: i64 = a * b;
    if p >= 0 {
        let m: u64 = (p as u64) / 1000;
        proof {
            lemma_div_is_ordered(p as int, 1_000_000, 1000);
            lemma_div_by_multiple(1000, 1000);
        }
        m as i64
    } else {
        let np: i64 = -p;
        let m: u64 = (np as u64) / 1000;
        proof {
            lemma_div_is_ordered(np as int, 1_000_000, 1000);
            lemma_div_by_multiple(1000, 1000);
        }
        -(m as i64)
    }
}

/// One scaled coordinate of a marching step: `a * d / SCALE`, rounded
/// toward zero.
pub fn scaled_component(a: i64, d: i64) -> (r: i64)
    requires
        -SCALE <= a <= SCALE,
        0 <= d <= 400_000_000,
    ensures
        r == scale_mul(a as int, d as int),
        -d <= r <= d,
{
    proof {
        lemma_scale_mul_bound(a as int, d as int);
    }
    if a >= 0 {
        let m: u64 = (a as u64) * (d as u64) / 1000;
        m as i64
    } else {
        let neg: i64 = -a;
        let m: u64 = (neg as u64) * (d as u64) / 1000;
        -(m as i64)
    }
}

} // verus!
