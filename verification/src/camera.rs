//! The pinhole camera: per-pixel ray angles from a linear angular
//! spread of the field of view, distance-to-shade conversion, and the
//! frame renderer.

use crate::geom::{in_bounds, Vec3, MAX_COORD};
use crate::march::{direction_of, fire_ray, march_from, MAX_RAY_ANGLE};
use crate::shapes::{check_scene, scene_wf, Angle3D, Color, Shape};
use vstd::arithmetic::div_mod::{
    lemma_div_by_multiple, lemma_div_by_multiple_is_strongly_ordered, lemma_div_is_ordered,
    lemma_fundamental_div_mod_converse,
};
use vstd::prelude::*;

verus! {

/// The distance limit every camera ray is traced with, in sub-units:
/// 127 world units, tuned to the scale of the scenes this renderer
/// draws.
pub const DIST_LIMIT: i64 = 127_000;

/// Largest image width or height, a machine limit keeping pixel counts
/// and index arithmetic comfortably inside the native integer types.
pub const MAX_IMAGE_DIM: u32 = 65_535;

/// Largest base-orientation angle magnitude, in thousandths of a
/// degree, leaving room for the field-of-view spread below the
/// trigonometric range.
pub const MAX_BASE_ANGLE: i64 = 1_000_000_000;

/// One pixel-write event of a rendered frame.
#[derive(Clone, Copy, PartialEq, Eq, Structural, Debug)]
pub struct Pixel {
    pub x: u32,
    pub y: u32,
    pub color: Color,
}

/// A configuration fault detected before any ray is fired.
#[derive(Clone, Copy, PartialEq, Eq, Structural, Debug)]
pub enum ConfigError {
    /// The scene holds no primitive at all.
    EmptyScene,
    /// An image dimension is zero, or beyond `MAX_IMAGE_DIM`.
    InvalidImageDimensions,
    /// The field of view, position or base orientation is out of range.
    InvalidCameraParameters,
    /// A primitive of the scene is out of bounds or has a negative
    /// extent.
    InvalidPrimitive,
}

/// A pinhole camera with a linear angular spread: pixel offsets map to
/// ray angles linearly in the field of view, not through a tangent.
#[derive(Clone, Copy, PartialEq, Eq, Structural, Debug)]
pub struct Camera {
    pub pos: Vec3,
    pub fov: i32,
    pub angle: Angle3D,
    pub width: u32,
    pub height: u32,
}

impl Camera {
    /// The image dimensions are positive and within the machine limit.
    pub open spec fn dims_ok(self) -> bool {
        &&& 0 < self.width <= MAX_IMAGE_DIM
        &&& 0 < self.height <= MAX_IMAGE_DIM
    }

    /// Field of view, position and base orientation are in range: the
    /// position leaves `DIST_LIMIT` of marching headroom inside the
    /// world bounds.
    pub open spec fn params_ok(self) -> bool {
        &&& 0 <= self.fov <= 360
        &&& in_bounds(self.pos@, MAX_COORD - DIST_LIMIT)
        &&& -MAX_BASE_ANGLE <= self.angle.yaw <= MAX_BASE_ANGLE
        &&& -MAX_BASE_ANGLE <= self.angle.pitch <= MAX_BASE_ANGLE
        &&& -MAX_BASE_ANGLE <= self.angle.roll <= MAX_BASE_ANGLE
    }

    /// The camera is well-formed.
    pub open spec fn wf(self) -> bool {
        self.dims_ok() && self.params_ok()
    }

    /// The yaw of the ray through pixel column `x`: the base yaw plus a
    /// spread linear in the pixel's offset from the image centre,
    /// `((x - width / 2) / width) * fov`, in thousandths of a degree.
    pub open spec fn pixel_yaw(self, x: int) -> int {
        self.angle.yaw + (x * self.fov * 1000) / (self.width as int) - self.fov * 500
    }

    /// The pitch of the ray through pixel row `y`, spread like the yaw.
    pub open spec fn pixel_pitch(self, y: int) -> int {
        self.angle.pitch + (y * self.fov * 1000) / (self.height as int) - self.fov * 500
    }

    /// Build a camera from its position, integer field of view in
    /// degrees, base orientation and image dimensions.
    pub fn new(pos: Vec3, fov: i32, angle: Angle3D, width: u32, height: u32) -> (c: Camera)
        ensures
            c == (Camera { pos, fov, angle, width, height }),
    {
        Camera { pos, fov, angle, width, height }
    }

    /// The yaw of the ray through pixel column `x`.
    fn pixel_yaw_exec(&self, x: u32) -> (r: i64)
        requires
            self.wf(),
            x < self.width,
        ensures
            r == self.pixel_yaw(x as int),
            -MAX_RAY_ANGLE <= r <= MAX_RAY_ANGLE,
    {
        let spread = fov_spread(x, self.width, self.fov);
        self.angle.yaw + spread - (self.fov as i64) * 500
    }

    /// The pitch of the ray through pixel row `y`.
    fn pixel_pitch_exec(&self, y: u32) -> (r: i64)
        requires
            self.wf(),
            y < self.height,
        ensures
            r == self.pixel_pitch(y as int),
            -MAX_RAY_ANGLE <= r <= MAX_RAY_ANGLE,
    {
        let spread = fov_spread(y, self.height, self.fov);
        self.angle.pitch + spread - (self.fov as i64) * 500
    }
}

/// `(c * fov * 1000) / extent`: the non-negative part of the linear
/// angular spread for pixel `c` of an image `extent` pixels across.
fn fov_spread(c: u32, extent: u32, fov: i32) -> (r: i64)
    requires
        0 < extent <= MAX_IMAGE_DIM,
        c < extent,
        0 <= fov <= 360,
    ensures
        r == (c as int * fov as int * 1000) / (extent as int),
        0 <= r <= 360_000,
{
    proof {
        assert(0 <= c as int * (fov as int) && c as int * (fov as int) <= 23_592_600)
            by (nonlinear_arith)
            requires
                c <= 65_535u32,
                0 <= fov <= 360,
        {
        }
    }
    let num: u64 = (c as u64) * (fov as u64) * 1000;
    proof {
        assert(num as int <= (fov as int * 1000) * (extent as int)) by (nonlinear_arith)
            requires
                num as int == c as int * (fov as int) * 1000,
                c < extent,
                0 <= fov,
        {
        }
        lemma_div_is_ordered(num as int, (fov as int * 1000) * (extent as int), extent as int);
        lemma_div_by_multiple(fov as int * 1000, extent as int);
        lemma_div_is_ordered(0, num as int, extent as int);
        lemma_div_by_multiple(0, extent as int);
    }
    let q: u64 = num / (extent as u64);
    q as i64
}

/// The shading value of a marched distance: `(distance * 2) mod 255`
/// in whole world units, a banded grayscale depth visualization.
pub open spec fn shade(d: int) -> int {
    ((2 * d) % 255_000) / 1000
}

/// The shading value of a marched distance.
pub fn shade_distance(d: i64) -> (v: u8)
    requires
        0 <= d <= MAX_COORD,
    ensures
        v as int == shade(d as int),
{
    let m: u64 = (2 * (d as u64)) % 255_000;
    let q: u64 = m / 1000;
    proof {
        lemma_div_by_multiple_is_strongly_ordered(m as int, 255_000, 255, 1000);
        lemma_div_by_multiple(255, 1000);
        lemma_div_is_ordered(0, m as int, 1000);
        lemma_div_by_multiple(0, 1000);
    }
    q as u8
}

/// The color of pixel `(x, y)`: the ray through it is marched to
/// `DIST_LIMIT` and the distance shaded into an opaque gray.
pub open spec fn pixel_color(cam: Camera, s: Seq<Shape>, x: int, y: int) -> Color {
    let d = march_from(
        s,
        cam.pos@,
        direction_of(cam.pixel_yaw(x), cam.pixel_pitch(y)),
        0,
        DIST_LIMIT as int,
    );
    let v = shade(d);
    Color { r: v as u8, g: v as u8, b: v as u8, a: 255 }
}

/// The whole frame as a sequence of pixel-write events, one per pixel,
/// columns outermost: entry `i` carries pixel `(i / height, i % height)`.
/// A frame is a function of the camera and the scene alone, so
/// rendering the same configuration twice yields identical output.
pub open spec fn render_spec(cam: Camera, s: Seq<Shape>) -> Seq<Pixel> {
    Seq::new(
        (cam.width * cam.height) as nat,
        |i: int|
            Pixel {
                x: (i / (cam.height as int)) as u32,
                y: (i % (cam.height as int)) as u32,
                color: pixel_color(cam, s, i / (cam.height as int), i % (cam.height as int)),
            },
    )
}

/// The configuration fault a camera and scene would be rejected with,
/// if any: an empty scene first, then the image dimensions, the camera
/// parameters, and the primitives, in that order.
pub open spec fn config_error_of(cam: Camera, s: Seq<Shape>) -> Option<ConfigError> {
    if s.len() == 0 {
        Option::Some(ConfigError::EmptyScene)
    } else if !cam.dims_ok() {
        Option::Some(ConfigError::InvalidImageDimensions)
    } else if !cam.params_ok() {
        Option::Some(ConfigError::InvalidCameraParameters)
    } else if !scene_wf(s) {
        Option::Some(ConfigError::InvalidPrimitive)
    } else {
        Option::None
    }
}

impl Camera {
    /// Render one frame: every pixel of the image, columns outermost,
    /// each shaded by the distance its ray marched.  The configuration
    /// is validated before any ray is fired; a fault aborts the frame
    /// with the exact error `config_error_of` names.
    pub fn draw(&self, root: &Vec<Shape>) -> (res: Result<Vec<Pixel>, ConfigError>)
        ensures
            match res {
                Result::Ok(pixels) => config_error_of(*self, root@) is None && pixels@
                    == render_spec(*self, root@),
                Result::Err(e) => config_error_of(*self, root@) == Option::Some(e),
            },
    {
        if root.len() == 0 {
            return Result::Err(ConfigError::EmptyScene);
        }
        if !(1 <= self.width && self.width <= MAX_IMAGE_DIM && 1 <= self.height && self.height
            <= MAX_IMAGE_DIM) {
            return Result::Err(ConfigError::InvalidImageDimensions);
        }
        let coord_bound: i64 = MAX_COORD - DIST_LIMIT;
        if !(0 <= self.fov && self.fov <= 360 && -coord_bound <= self.pos.x && self.pos.x
            <= coord_bound && -coord_bound <= self.pos.y && self.pos.y <= coord_bound
            && -coord_bound <= self.pos.z && self.pos.z <= coord_bound && -MAX_BASE_ANGLE
            <= self.angle.yaw && self.angle.yaw <= MAX_BASE_ANGLE && -MAX_BASE_ANGLE
            <= self.angle.pitch && self.angle.pitch <= MAX_BASE_ANGLE && -MAX_BASE_ANGLE
            <= self.angle.roll && self.angle.roll <= MAX_BASE_ANGLE) {
            return Result::Err(ConfigError::InvalidCameraParameters);
        }
        if !check_scene(root) {
            return Result::Err(ConfigError::InvalidPrimitive);
        }
        let ghost frame = render_spec(*self, root@);
        let mut out: Vec<Pixel> = Vec::new();
        let mut x: u32 = 0;
        while x < self.width
            invariant
                self.wf(),
                root.len() > 0,
                scene_wf(root@),
                config_error_of(*self, root@) is None,
                frame == render_spec(*self, root@),
                x <= self.width,
                out@.len() == x * self.height,
                forall|i: int| 0 <= i < out@.len() ==> out@[i] == frame[i],
            decreases self.width - x,
        {
            let mut y: u32 = 0;
            while y < self.height
                invariant
                    self.wf(),
                    root.len() > 0,
                    scene_wf(root@),
                    frame == render_spec(*self, root@),
                    x < self.width,
                    y <= self.height,
                    out@.len() == x * self.height + y,
                    forall|i: int| 0 <= i < out@.len() ==> out@[i] == frame[i],
                decreases self.height - y,
            {
                let yaw = self.pixel_yaw_exec(x);
                let pitch = self.pixel_pitch_exec(y);
                let d = fire_ray(self.pos, Angle3D { roll: 0, yaw, pitch }, DIST_LIMIT, root);
                let v = shade_distance(d);
                let px = Pixel { x, y, color: Color { r: v, g: v, b: v, a: 255 } };
                proof {
                    let h = self.height as int;
                    let i = x as int * h + y as int;
                    lemma_fundamental_div_mod_converse(i, h, x as int, y as int);
                    assert(i < frame.len() as int) by (nonlinear_arith)
                        requires
                            i == x as int * h + y as int,
                            frame.len() == (self.width * self.height) as nat,
                            h == self.height as int,
                            0 <= x as int,
                            (x as int) < (self.width as int),
                            0 <= y as int,
                            (y as int) < h,
                    {
                    }
                    assert(px == frame[i]);
                }
                out.push(px);
                y = y + 1;
            }
            proof {
                assert(x as int * self.height as int + self.height as int == (x as int + 1)
                    * self.height as int) by (nonlinear_arith);
            }
            x = x + 1;
        }
        proof {
            assert(out@ =~= frame);
        }
        Result::Ok(out)
    }
}

} // verus!
