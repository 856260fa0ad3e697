//! The sphere tracer: ray directions from angles, the marching
//! recursion that models a trace, the marching loop itself, and the
//! laws that hold of every trace.

use crate::geom::{
    in_bounds, lemma_dist_sq_nonneg, scale_mul, scaled_component, unit_mul, unit_mul_exec, Pt3,
    Vec3, MAX_COORD, SCALE,
};
use crate::shapes::{
    lemma_nearest_characterization, nearest_distance, nearest_dsq, scene_wf, shape_closest,
    Angle3D, Shape,
};
use crate::sqrt::{lemma_sqrt_floor_bounds, sqrt_floor};
use crate::trig::{cos_milli, lemma_sin_milli_zero, sin_milli, QUARTER_TURN};
use vstd::arithmetic::div_mod::lemma_div_by_multiple;
use vstd::prelude::*;

verus! {

/// Distance below which a marching step counts as a surface hit:
/// one hundredth of a world unit, in sub-units.
pub const EPSILON: i64 = 10;

/// Largest angle magnitude a ray may be fired at, leaving headroom for
/// negation and the trigonometric range inside an `i64`.
pub const MAX_RAY_ANGLE: i64 = 2_000_000_000;

/// The unit direction of a ray fired at the given yaw and pitch, scaled
/// by `SCALE`.  Both angles are negated and mapped to Cartesian
/// coordinates the standard spherical way, each component derived from
/// its own axis's terms:
/// `(cos yaw * cos pitch, cos yaw * sin pitch, sin yaw)`.
pub open spec fn direction_of(yaw: int, pitch: int) -> Pt3 {
    let cy = cos_milli(-yaw);
    let sy = sin_milli(-yaw);
    let cp = cos_milli(-pitch);
    let sp = sin_milli(-pitch);
    Pt3 { x: unit_mul(cy, cp), y: unit_mul(cy, sp), z: sy }
}

/// The length of the marching step taken from `p`: the distance to the
/// nearest shape of the scene, rounded down to whole sub-units.
pub open spec fn step_of(s: Seq<Shape>, p: Pt3) -> int {
    sqrt_floor(nearest_dsq(s, p))
}

/// The position one marching step of length `d` further along `dir`.
pub open spec fn advance(p: Pt3, dir: Pt3, d: int) -> Pt3 {
    Pt3 {
        x: p.x + scale_mul(dir.x, d),
        y: p.y + scale_mul(dir.y, d),
        z: p.z + scale_mul(dir.z, d),
    }
}

/// The distance a trace accumulates marching from `pos` with `total`
/// already travelled: each step advances by the nearest-shape distance
/// until that distance falls below `EPSILON` (a hit, returning the
/// accumulated total) or the total reaches `limit` (a miss, returning
/// exactly `limit`).
pub open spec fn march_from(s: Seq<Shape>, pos: Pt3, dir: Pt3, total: int, limit: int) -> int
    decreases limit - total,
        when 0 <= total <= limit
{
    let d = step_of(s, pos);
    if d < EPSILON {
        total
    } else if total + d >= limit {
        limit
    } else {
        march_from(s, advance(pos, dir, d), dir, total + d, limit)
    }
}

/// Whether the trace converges on a surface before its total reaches
/// `limit`.
pub open spec fn march_hits(s: Seq<Shape>, pos: Pt3, dir: Pt3, total: int, limit: int) -> bool
    decreases limit - total,
        when 0 <= total <= limit
{
    let d = step_of(s, pos);
    if d < EPSILON {
        true
    } else if total + d >= limit {
        false
    } else {
        march_hits(s, advance(pos, dir, d), dir, total + d, limit)
    }
}

/// A trace never travels backwards and never reports more than its
/// limit: the marched distance lies in `[total, limit]`.
pub proof fn lemma_march_within_limit(s: Seq<Shape>, pos: Pt3, dir: Pt3, total: int, limit: int)
    requires
        0 <= total <= limit,
    ensures
        total <= march_from(s, pos, dir, total, limit) <= limit,
    decreases limit - total,
{
    let d = step_of(s, pos);
    if d < EPSILON {
    } else if total + d >= limit {
    } else {
        lemma_march_within_limit(s, advance(pos, dir, d), dir, total + d, limit);
    }
}

/// A trace that never converges on a surface returns exactly its
/// distance limit, not some overshot accumulation.
pub proof fn lemma_miss_returns_exactly_limit(
    s: Seq<Shape>,
    pos: Pt3,
    dir: Pt3,
    total: int,
    limit: int,
)
    requires
        0 <= total <= limit,
        !march_hits(s, pos, dir, total, limit),
    ensures
        march_from(s, pos, dir, total, limit) == limit,
    decreases limit - total,
{
    let d = step_of(s, pos);
    if d < EPSILON {
    } else if total + d >= limit {
    } else {
        lemma_miss_returns_exactly_limit(s, advance(pos, dir, d), dir, total + d, limit);
    }
}

/// No marching step overshoots: the step taken from any position is
/// never longer than the distance to the nearest surface there, since
/// its square never exceeds the squared nearest distance.
pub proof fn lemma_step_never_overshoots(s: Seq<Shape>, p: Pt3)
    requires
        s.len() > 0,
    ensures
        0 <= step_of(s, p),
        step_of(s, p) * step_of(s, p) <= nearest_dsq(s, p),
{
    lemma_nearest_characterization(s, p);
    let i = crate::shapes::nearest_idx(s, p);
    lemma_dist_sq_nonneg(p, shape_closest(s[i], p));
    lemma_sqrt_floor_bounds(nearest_dsq(s, p));
}

/// A yaw of a quarter turn flattens the direction: its x and y
/// components vanish exactly, whatever the pitch, because the cosine of
/// a quarter turn is exactly zero.
pub proof fn lemma_quarter_turn_yaw_flattens(pitch: int)
    ensures
        direction_of(QUARTER_TURN as int, pitch).x == 0,
        direction_of(QUARTER_TURN as int, pitch).y == 0,
{
    lemma_sin_milli_zero();
    assert(cos_milli(-(QUARTER_TURN as int)) == sin_milli(0));
    lemma_div_by_multiple(0, SCALE as int);
}

/// The unit direction of a ray fired at the given angles, scaled by
/// `SCALE`.  The roll is carried by `Angle3D` but plays no part.
pub fn direction_from_angles(angle: &Angle3D) -> (dir: Vec3)
    requires
        -MAX_RAY_ANGLE <= angle.yaw <= MAX_RAY_ANGLE,
        -MAX_RAY_ANGLE <= angle.pitch <= MAX_RAY_ANGLE,
    ensures
        dir@ == direction_of(angle.yaw as int, angle.pitch as int),
        -SCALE <= dir.x <= SCALE,
        -SCALE <= dir.y <= SCALE,
        -SCALE <= dir.z <= SCALE,
{
    let ny: i64 = -angle.yaw;
    let np: i64 = -angle.pitch;
    let cy = crate::trig::cos_deg_milli(ny);
    let sy = crate::trig::sin_deg_milli(ny);
    let cp = crate::trig::cos_deg_milli(np);
    let sp = crate::trig::sin_deg_milli(np);
    Vec3 { x: unit_mul_exec(cy, cp), y: unit_mul_exec(cy, sp), z: sy }
}

/// March a ray from `start` at the given angles through the scene's
/// distance field.  Returns the distance travelled before converging on
/// a surface, or exactly `limit` for a miss; the result always lies in
/// `[0, limit]`, and every step advances by exactly the nearest-shape
/// distance, so no step overshoots a surface.
pub fn fire_ray(start: Vec3, angle: Angle3D, limit: i64, root: &Vec<Shape>) -> (total: i64)
    requires
        root.len() > 0,
        scene_wf(root@),
        0 <= limit <= MAX_COORD,
        in_bounds(start@, MAX_COORD - limit),
        -MAX_RAY_ANGLE <= angle.yaw <= MAX_RAY_ANGLE,
        -MAX_RAY_ANGLE <= angle.pitch <= MAX_RAY_ANGLE,
    ensures
        total == march_from(
            root@,
            start@,
            direction_of(angle.yaw as int, angle.pitch as int),
            0,
            limit as int,
        ),
        0 <= total <= limit,
{
    let dir = direction_from_angles(&angle);
    let ghost dirp = dir@;
    let ghost target = march_from(root@, start@, dirp, 0, limit as int);
    let mut total: i64 = 0;
    let mut position: Vec3 = start;
    loop
        invariant
            root.len() > 0,
            scene_wf(root@),
            0 <= total <= limit,
            limit <= MAX_COORD,
            dirp == dir@,
            dirp == direction_of(angle.yaw as int, angle.pitch as int),
            target == march_from(root@, start@, dirp, 0, limit as int),
            -SCALE <= dir.x <= SCALE,
            -SCALE <= dir.y <= SCALE,
            -SCALE <= dir.z <= SCALE,
            in_bounds(position@, MAX_COORD - limit + total),
            march_from(root@, position@, dirp, total as int, limit as int) == target,
        decreases limit - total,
    {
        assert(in_bounds(position@, MAX_COORD as int));
        let (d, _nearest) = nearest_distance(root, position);
        if d < EPSILON {
            assert(march_from(root@, position@, dirp, total as int, limit as int) == total);
            return total;
        }
        if total >= limit - d {
            assert(march_from(root@, position@, dirp, total as int, limit as int) == limit);
            return limit;
        }
        let step_x = scaled_component(dir.x, d);
        let step_y = scaled_component(dir.y, d);
        let step_z = scaled_component(dir.z, d);
        let next = Vec3 { x: position.x + step_x, y: position.y + step_y, z: position.z + step_z };
        assert(next@ == advance(position@, dirp, d as int));
        position = next;
        total = total + d;
    }
}

} // verus!
