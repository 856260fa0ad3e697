//! A verified sphere-marching renderer core.
//!
//! The renderer traces camera rays through a scene of axis-aligned boxes
//! described by an unsigned distance field, and shades each pixel by the
//! distance the ray travelled before converging on a surface or reaching a
//! distance limit.
//!
//! All geometry is carried in fixed-point integers: a coordinate is a count
//! of thousandths of a world unit, an angle a count of thousandths of a
//! degree.  This keeps every computation exact enough to state and prove
//! contracts about it, while the presentation layer around the library is
//! free to convert from whatever units it prefers.

pub mod camera;
pub mod geom;
pub mod march;
pub mod shapes;
pub mod sqrt;
pub mod trig;
