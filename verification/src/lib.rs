use vstd::prelude::*;

pub mod color;
pub mod math;
pub mod ray;
pub mod scene;
pub mod sphere;
pub mod stl_model;
pub mod triangle;
pub mod vec3;

verus! {

/// Number of fixed-point units per world unit.  All geometric coordinates,
/// radii and ray parameters in this crate are integers counting millionths
/// of a world unit.
pub const SCALE: i128 = 1_000_000;

/// Largest magnitude (in fixed-point units, i.e. 500 world units) allowed
/// for scene geometry: coordinates of centers, vertices, the camera
/// viewpoint and projection plane, and sphere radii.  The bound is what
/// makes every intermediate product of the intersection arithmetic fit
/// in an `i128`.
pub const MAX_COORD: i128 = 500_000_000;

/// A sphere root below this ray-parameter value (1e-5 world units) is
/// treated as a self-intersection at the ray's own origin.
pub const SPHERE_T_EPS: i128 = 10;

/// A triangle determinant below this magnitude means the ray is parallel
/// to the triangle's plane.  The determinant carries three coordinate
/// factors, so 1e-4 in world units is 1e-4 * SCALE^3.
pub const PARALLEL_EPS: i128 = 100_000_000_000_000;

/// A triangle hit must lie further than this ray-parameter value
/// (1e-4 world units) along the ray.
pub const TRIANGLE_T_EPS: i128 = 100;

/// Every normal an intersection reports has its components within this
/// bound; the shader's products then fit in an `i128`.
pub const NORM_BOUND: i128 = 5_000_000_000_000_000_000_000_000_000_000_000;

/// Every ray parameter an intersection reports is within this bound;
/// evaluating a ray at such a parameter then fits in an `i128`.
pub const TPARAM_BOUND: i128 = 10_000_000_000_000_000_000_000_000;

} // verus!
