//! Scene primitives: the axis-aligned box, its unsigned distance field,
//! and the nearest-primitive scan over a scene.

use crate::geom::{
    clamp_int, dist_sq, distance_squared, in_bounds, Pt3, Vec3, MAX_COORD, MAX_DSQ,
};
use crate::sqrt::{isqrt, sqrt_floor};
use vstd::prelude::*;

verus! {

/// Largest nearest-surface distance between in-bounds points, in
/// sub-units: the floor of the square root of `MAX_DSQ` is below it.
pub const MAX_DIST: i64 = 350_000_000;

/// A color with four 8-bit channels.
#[derive(Clone, Copy, PartialEq, Eq, Structural, Debug)]
pub struct Color {
    pub r: u8,
    pub g: u8,
    pub b: u8,
    pub a: u8,
}

/// An orientation in thousandths of a degree.  Roll is carried but unused
/// by the tracing core; it is reserved for future shading work.
#[derive(Clone, Copy, PartialEq, Eq, Structural, Debug)]
pub struct Angle3D {
    pub roll: i64,
    pub yaw: i64,
    pub pitch: i64,
}

/// An axis-aligned box: `position` is its minimum corner and
/// `dimensions` its non-negative extent along each axis.
#[derive(Clone, Copy, PartialEq, Eq, Structural, Debug)]
pub struct Cube {
    pub position: Vec3,
    pub dimensions: Vec3,
    pub color: Color,
}

/// A traceable primitive.  The tracer is written against this closed
/// union so that further primitive kinds can be added beside the box.
#[derive(Clone, Copy, PartialEq, Eq, Structural, Debug)]
pub enum Shape {
    Cube(Cube),
}

impl Cube {
    /// The box sits inside the world cube and its extents are
    /// non-negative, so both corners are in bounds.
    pub open spec fn wf(self) -> bool {
        &&& in_bounds(self.position@, MAX_COORD as int)
        &&& 0 <= self.dimensions.x && self.position.x + self.dimensions.x <= MAX_COORD
        &&& 0 <= self.dimensions.y && self.position.y + self.dimensions.y <= MAX_COORD
        &&& 0 <= self.dimensions.z && self.position.z + self.dimensions.z <= MAX_COORD
    }

    /// The point of the (solid) box nearest to `p`: each coordinate of
    /// `p` clamped into the box's extent along that axis.
    pub open spec fn closest_point(self, p: Pt3) -> Pt3 {
        Pt3 {
            x: clamp_int(p.x, self.position.x as int, self.position.x + self.dimensions.x),
            y: clamp_int(p.y, self.position.y as int, self.position.y + self.dimensions.y),
            z: clamp_int(p.z, self.position.z as int, self.position.z + self.dimensions.z),
        }
    }

    /// `p` lies strictly inside the box along every axis.
    pub open spec fn strictly_inside(self, p: Pt3) -> bool {
        &&& self.position.x < p.x < self.position.x + self.dimensions.x
        &&& self.position.y < p.y < self.position.y + self.dimensions.y
        &&& self.position.z < p.z < self.position.z + self.dimensions.z
    }

    /// Build a box as a scene shape from its minimum corner and extents.
    pub fn new(x: i64, y: i64, z: i64, width: i64, height: i64, depth: i64, color: Color) -> (s:
        Shape)
        requires
            -MAX_COORD <= x && -MAX_COORD <= y && -MAX_COORD <= z,
            0 <= width && x + width <= MAX_COORD,
            0 <= height && y + height <= MAX_COORD,
            0 <= depth && z + depth <= MAX_COORD,
        ensures
            s == Shape::Cube(
                Cube {
                    position: Vec3 { x, y, z },
                    dimensions: Vec3 { x: width, y: height, z: depth },
                    color,
                },
            ),
            shape_wf(s),
    {
        Shape::Cube(
            Cube {
                position: Vec3 { x, y, z },
                dimensions: Vec3 { x: width, y: height, z: depth },
                color,
            },
        )
    }

    /// The point of the box nearest to `to`, by clamping each coordinate
    /// independently.  A query point inside the box is its own closest
    /// point: this is an unsigned distance-to-box field, and points
    /// inside register distance zero rather than a negative depth.
    pub fn closest_point_on_cube(&self, to: Vec3) -> (r: Vec3)
        requires
            self.wf(),
            in_bounds(to@, MAX_COORD as int),
        ensures
            r@ == self.closest_point(to@),
            in_bounds(r@, MAX_COORD as int),
    {
        let final_x: i64 = if to.x >= self.position.x && to.x <= self.position.x
            + self.dimensions.x {
            to.x
        } else if to.x < self.position.x {
            self.position.x
        } else {
            self.position.x + self.dimensions.x
        };
        let final_y: i64 = if to.y >= self.position.y && to.y <= self.position.y
            + self.dimensions.y {
            to.y
        } else if to.y < self.position.y {
            self.position.y
        } else {
            self.position.y + self.dimensions.y
        };
        let final_z: i64 = if to.z >= self.position.z && to.z <= self.position.z
            + self.dimensions.z {
            to.z
        } else if to.z < self.position.z {
            self.position.z
        } else {
            self.position.z + self.dimensions.z
        };
        Vec3 { x: final_x, y: final_y, z: final_z }
    }

    /// Whether the box is well-formed.
    pub fn check_wf(&self) -> (b: bool)
        ensures
            b == self.wf(),
    {
        if !(-MAX_COORD <= self.position.x && self.position.x <= MAX_COORD && -MAX_COORD
            <= self.position.y && self.position.y <= MAX_COORD && -MAX_COORD <= self.position.z
            && self.position.z <= MAX_COORD) {
            return false;
        }
        0 <= self.dimensions.x && self.dimensions.x <= MAX_COORD - self.position.x
            && 0 <= self.dimensions.y && self.dimensions.y <= MAX_COORD - self.position.y
            && 0 <= self.dimensions.z && self.dimensions.z <= MAX_COORD - self.position.z
    }
}

/// A point strictly inside a box is its own closest surface point, so
/// its nearest distance is zero.  This pins the unsigned-distance
/// contract of the box field: the interior is not signed negative.
pub proof fn lemma_inside_point_is_closest(c: Cube, p: Pt3)
    requires
        c.strictly_inside(p),
    ensures
        c.closest_point(p) == p,
        dist_sq(p, c.closest_point(p)) == 0,
{
    assert(c.closest_point(p) == p);
    assert(dist_sq(p, p) == 0) by (nonlinear_arith);
}

/// The shape is well-formed.
pub open spec fn shape_wf(s: Shape) -> bool {
    match s {
        Shape::Cube(c) => c.wf(),
    }
}

/// The point of the shape nearest to `p`.
pub open spec fn shape_closest(s: Shape, p: Pt3) -> Pt3 {
    match s {
        Shape::Cube(c) => c.closest_point(p),
    }
}

/// Squared distance from `p` to the shape's nearest point.
pub open spec fn shape_dsq(s: Shape, p: Pt3) -> int {
    dist_sq(p, shape_closest(s, p))
}

/// Every shape of the scene is well-formed.
pub open spec fn scene_wf(s: Seq<Shape>) -> bool {
    forall|i: int| 0 <= i < s.len() ==> shape_wf(#[trigger] s[i])
}

/// Minimum squared shape distance over the first `n` shapes.
pub open spec fn min_dsq_upto(s: Seq<Shape>, p: Pt3, n: int) -> int
    decreases n,
{
    if n <= 1 {
        shape_dsq(s[0], p)
    } else {
        let m = min_dsq_upto(s, p, n - 1);
        let d = shape_dsq(s[n - 1], p);
        if d < m {
            d
        } else {
            m
        }
    }
}

/// Index of the first shape attaining the minimum over the first `n`
/// shapes: a later shape displaces the running minimum only when it is
/// strictly nearer.
pub open spec fn min_idx_upto(s: Seq<Shape>, p: Pt3, n: int) -> int
    decreases n,
{
    if n <= 1 {
        0
    } else {
        let i = min_idx_upto(s, p, n - 1);
        let d = shape_dsq(s[n - 1], p);
        if d < min_dsq_upto(s, p, n - 1) {
            n - 1
        } else {
            i
        }
    }
}

/// Minimum squared shape distance over the whole scene.
pub open spec fn nearest_dsq(s: Seq<Shape>, p: Pt3) -> int {
    min_dsq_upto(s, p, s.len() as int)
}

/// Index of the first nearest shape of the scene.
pub open spec fn nearest_idx(s: Seq<Shape>, p: Pt3) -> int {
    min_idx_upto(s, p, s.len() as int)
}

proof fn lemma_min_upto_characterization(s: Seq<Shape>, p: Pt3, n: int)
    requires
        1 <= n <= s.len(),
    ensures
        0 <= min_idx_upto(s, p, n) < n,
        min_dsq_upto(s, p, n) == shape_dsq(s[min_idx_upto(s, p, n)], p),
        forall|i: int| 0 <= i < n ==> min_dsq_upto(s, p, n) <= #[trigger] shape_dsq(s[i], p),
        forall|i: int|
            0 <= i < min_idx_upto(s, p, n) ==> #[trigger] shape_dsq(s[i], p) > min_dsq_upto(
                s,
                p,
                n,
            ),
    decreases n,
{
    if n > 1 {
        lemma_min_upto_characterization(s, p, n - 1);
    }
}

/// The nearest-shape scan finds the least squared distance over the
/// scene, attained at its index; the index is the first one attaining
/// it, so ties break toward the earlier shape in scene order.
pub proof fn lemma_nearest_characterization(s: Seq<Shape>, p: Pt3)
    requires
        s.len() > 0,
    ensures
        0 <= nearest_idx(s, p) < s.len(),
        nearest_dsq(s, p) == shape_dsq(s[nearest_idx(s, p)], p),
        forall|i: int| 0 <= i < s.len() ==> nearest_dsq(s, p) <= #[trigger] shape_dsq(s[i], p),
        forall|i: int|
            0 <= i < nearest_idx(s, p) ==> #[trigger] shape_dsq(s[i], p) > nearest_dsq(s, p),
{
    lemma_min_upto_characterization(s, p, s.len() as int);
}

/// Whether every shape of the scene is well-formed.
pub fn check_scene(root: &Vec<Shape>) -> (b: bool)
    ensures
        b == scene_wf(root@),
{
    let mut i: usize = 0;
    while i < root.len()
        invariant
            i <= root.len(),
            forall|j: int| 0 <= j < i ==> shape_wf(#[trigger] root@[j]),
        decreases root.len() - i,
    {
        let ok = match &root[i] {
            Shape::Cube(c) => c.check_wf(),
        };
        if !ok {
            return false;
        }
        i += 1;
    }
    true
}

/// Squared distance from `point` to the shape's nearest point.
fn shape_distance_squared(s: &Shape, point: Vec3) -> (r: i64)
    requires
        shape_wf(*s),
        in_bounds(point@, MAX_COORD as int),
    ensures
        r == shape_dsq(*s, point@),
        0 <= r <= MAX_DSQ,
{
    match s {
        Shape::Cube(cube) => {
            let cp = cube.closest_point_on_cube(point);
            distance_squared(point, cp)
        },
    }
}

/// Distance from `point` to the nearest shape of the scene, and the
/// index of the first shape attaining it.  Squared distances are
/// compared across the scan; the square root is taken once, of the
/// final minimum.
pub fn nearest_distance(root: &Vec<Shape>, point: Vec3) -> (res: (i64, usize))
    requires
        root.len() > 0,
        scene_wf(root@),
        in_bounds(point@, MAX_COORD as int),
    ensures
        res.0 == sqrt_floor(nearest_dsq(root@, point@)),
        res.1 == nearest_idx(root@, point@),
        res.1 < root.len(),
        0 <= res.0 <= MAX_DIST,
{
    let ghost s = root@;
    let mut best: i64 = shape_distance_squared(&root[0], point);
    let mut best_idx: usize = 0;
    let mut i: usize = 1;
    while i < root.len()
        invariant
            1 <= i <= root.len(),
            root.len() >= 1,
            scene_wf(s),
            in_bounds(point@, MAX_COORD as int),
            s == root@,
            best == min_dsq_upto(s, point@, i as int),
            best_idx == min_idx_upto(s, point@, i as int),
            best_idx < i,
            0 <= best <= MAX_DSQ,
        decreases root.len() - i,
    {
        let d = shape_distance_squared(&root[i], point);
        if d < best {
            best = d;
            best_idx = i;
        }
        i += 1;
    }
    let dist: u64 = isqrt(best as u64);
    proof {
        if dist > MAX_DIST as u64 {
            assert(350_000_001 * 350_000_001 > MAX_DSQ as int) by (nonlinear_arith);
            assert(dist * dist >= 350_000_001 * 350_000_001) by (nonlinear_arith)
                requires
                    dist >= 350_000_001u64,
            {
            }
        }
    }
    (dist as i64, best_idx)
}

} // verus!
