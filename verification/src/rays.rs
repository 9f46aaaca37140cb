//! Rays: an origin point and a direction vector.
//!
//! A ray never mutates; transforming one builds a new ray.  Intersection
//! logic lives on `Shape`, which pulls the ray into its local frame first;
//! the `intersect` method here hands the work to the shape.

use crate::intersections::Intersection;
use crate::matrices::{is_invertible_m, mul_tuple_m, Matrix4};
use crate::scalar::Scalar;
use crate::shapes::{intersect_spec, Shape};
use crate::tuples::{add_t, scale_t, Tuple};
use vstd::prelude::*;

verus! {

/// A ray: origin point plus direction vector.
#[derive(Clone, Copy, Debug)]
pub struct Ray {
    pub origin: Tuple,
    pub direction: Tuple,
}

/// The point a parameter `t` (raw value) along the ray.
pub open spec fn position_r(r: Ray, t: int) -> Tuple {
    add_t(r.origin, scale_t(r.direction, t))
}

/// The ray carried through a transform: both origin and direction mapped.
pub open spec fn transform_r(r: Ray, m: Matrix4) -> Ray {
    Ray { origin: mul_tuple_m(m, r.origin), direction: mul_tuple_m(m, r.direction) }
}

impl Ray {
    /// A ray from its origin and direction.
    pub fn new(origin: Tuple, direction: Tuple) -> (r: Ray)
        ensures
            r == (Ray { origin, direction }),
    {
        Ray { origin, direction }
    }

    /// The point `t` units along the ray.
    pub fn position(&self, t: Scalar) -> (r: Tuple)
        ensures
            r == position_r(*self, t.v as int),
    {
        self.origin.plus(self.direction.scaled(t))
    }

    /// The candidate hits of this ray against a shape.
    pub fn intersect(&self, shape: Shape) -> (r: Vec<Intersection>)
        requires
            is_invertible_m(shape.transform),
        ensures
            r@ == intersect_spec(shape, *self),
    {
        shape.intersect(self)
    }

    /// A new ray carried through the transform `m`.
    pub fn transform(&self, m: Matrix4) -> (r: Ray)
        ensures
            r == transform_r(*self, m),
    {
        Ray::new(m.mul_tuple(self.origin), m.mul_tuple(self.direction))
    }
}

} // verus!
