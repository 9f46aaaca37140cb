//! A CPU ray tracer with a verified rendering core.
//!
//! All geometry is carried out in fixed-point arithmetic: a coordinate is a
//! `Scalar`, an `i64` count of billionths.  Every arithmetic step is pinned
//! down exactly by the contracts in `scalar`, so each stage of the pipeline
//! (tuple algebra, matrix transforms, ray/shape intersection, Phong shading,
//! recursive reflection) states precisely which number it produces.

use vstd::prelude::*;

pub mod camera;
pub mod canvas;
pub mod colors;
pub mod intersections;
pub mod lighting;
pub mod materials;
pub mod matrices;
pub mod patterns;
pub mod rays;
pub mod scalar;
pub mod shapes;
pub mod transforms;
pub mod tuples;
pub mod world;

use crate::scalar::Scalar;

verus! {

/// Geometric tolerance, in scaled units: two coordinates closer than this are
/// treated as equal.  This is 0.001 in world units; the same constant is used
/// as the `over_point` offset that keeps secondary rays off their own surface.
pub const EPSILON: i64 = 1_000_000;

/// Bounce budget for recursive specular reflection.
pub const REFLECTION_RECURSION_LIMIT: i32 = 5;

/// Tolerance-based comparison shared by every approximate equality in the
/// crate: true exactly when the two values are within `EPSILON` of each other.
pub fn float_eq(left: Scalar, right: Scalar) -> (r: bool)
    ensures
        r == (vstd::math::abs(left.v - right.v) < EPSILON),
{
    let d: i128 = left.v as i128 - right.v as i128;
    let m: i128 = if d < 0 {
        -d
    } else {
        d
    };
    m < EPSILON as i128
}

} // verus!
