//! Geometric primitives.
//!
//! A `Shape` is a canonical surface (unit sphere at the origin, or the x/z
//! plane) placed in the scene by an invertible transform and dressed with a
//! material.  Intersection and normal computation happen in the shape's
//! local frame: the ray or point is pulled back through the inverse
//! transform, the canonical formula runs, and normals return to world space
//! through the inverse transpose.

use crate::intersections::{inter, Intersection};
use crate::materials::{approx_material, default_material, Material};
use crate::matrices::{
    approx4, identity_m, inverse_m, is_invertible_m, mul_tuple_m, transpose_m, Matrix4,
};
use crate::rays::{transform_r, Ray};
use crate::scalar::{div_v, mul_v, neg_v, sub_v, Scalar, SCALE};
use vstd::math::abs;
use crate::tuples::{
    dot_t, normalize_total_t, sub_t, tup, Tuple,
};
use crate::EPSILON;
use vstd::prelude::*;

verus! {

/// Which canonical surface a shape is.
#[derive(Clone, Copy, Debug, PartialEq, Eq, Structural)]
pub enum ShapeKind {
    Sphere,
    Plane,
}

/// A placed primitive: canonical geometry, placement transform, material.
#[derive(Clone, Copy, Debug)]
pub struct Shape {
    pub transform: Matrix4,
    pub material: Material,
    pub shape_kind: ShapeKind,
}

/// A shape is renderable when its placement transform is invertible, and so
/// is its pattern's transform if the material carries one.
pub open spec fn shape_wf(s: Shape) -> bool {
    is_invertible_m(s.transform) && match s.material.pattern {
        Option::Some(p) => is_invertible_m(p.transform),
        Option::None => true,
    }
}

/// The canonical-frame normal: for a sphere the point minus the origin, for
/// a plane the constant y axis.
pub open spec fn local_normal_spec(s: Shape, point: Tuple) -> Tuple {
    match s.shape_kind {
        ShapeKind::Plane => tup(0, SCALE as int, 0, 0),
        ShapeKind::Sphere => sub_t(point, tup(0, 0, 0, SCALE as int)),
    }
}

/// The world-space normal: local normal of the pulled-back point, pushed
/// through the inverse transpose, with `w` cleared, normalized.
pub open spec fn normal_at_spec(s: Shape, world_point: Tuple) -> Tuple {
    let inv = inverse_m(s.transform);
    let local_point = mul_tuple_m(inv, world_point);
    let local_normal = local_normal_spec(s, local_point);
    let world_normal = mul_tuple_m(transpose_m(inv), local_normal);
    normalize_total_t(Tuple { w: Scalar { v: 0 }, ..world_normal })
}

/// The candidate hits of a ray already in the shape's local frame.
///
/// A plane is hit once unless the ray runs parallel to it (a `y` direction
/// within tolerance of zero).  A sphere is hit where the quadratic
/// `|O + tD|^2 = 1` has roots: none when the discriminant is negative, else
/// the two roots in ascending order.  A ray whose direction rounds to zero
/// has no well-defined line and yields no hits.
pub open spec fn local_intersect_spec(s: Shape, ray: Ray) -> Seq<Intersection> {
    match s.shape_kind {
        ShapeKind::Plane => {
            if abs(ray.direction.y.v as int) < EPSILON {
                Seq::empty()
            } else {
                seq![inter(div_v(neg_v(ray.origin.y.v as int), ray.direction.y.v as int), s)]
            }
        },
        ShapeKind::Sphere => {
            let sphere_to_ray = sub_t(ray.origin, tup(0, 0, 0, SCALE as int));
            let a = dot_t(ray.direction, ray.direction);
            let b = mul_v(2 * SCALE, dot_t(ray.direction, sphere_to_ray));
            let c = sub_v(dot_t(sphere_to_ray, sphere_to_ray), SCALE as int);
            let discriminant = sub_v(mul_v(b, b), mul_v(mul_v(4 * SCALE, a), c));
            let two_a = mul_v(2 * SCALE, a);
            if discriminant < 0 || two_a == 0 {
                Seq::empty()
            } else {
                let root = crate::scalar::sqrt_v(discriminant);
                let t1 = div_v(sub_v(neg_v(b), root), two_a);
                let t2 = div_v(crate::scalar::add_v(neg_v(b), root), two_a);
                if t1 > t2 {
                    seq![inter(t2, s), inter(t1, s)]
                } else {
                    seq![inter(t1, s), inter(t2, s)]
                }
            }
        },
    }
}

/// The candidate hits of a world-space ray: the ray pulled back into the
/// local frame, then intersected there.
pub open spec fn intersect_spec(s: Shape, ray: Ray) -> Seq<Intersection> {
    local_intersect_spec(s, transform_r(ray, inverse_m(s.transform)))
}

/// Tolerance equality of shapes: same kind, transform and material within
/// tolerance.
pub open spec fn approx_shape(a: Shape, b: Shape) -> bool {
    a.shape_kind == b.shape_kind && approx4(a.transform, b.transform) && approx_material(
        a.material,
        b.material,
    )
}

impl Shape {
    /// The world-space surface normal at a world-space point.
    pub fn normal_at(&self, point: Tuple) -> (r: Tuple)
        requires
            is_invertible_m(self.transform),
        ensures
            r == normal_at_spec(*self, point),
    {
        let inv = self.transform.inverse();
        let local_point = inv.mul_tuple(point);
        let local_normal = self.local_normal_at(local_point);
        let world_normal = inv.transpose().mul_tuple(local_normal);
        let clipped = Tuple {
            x: world_normal.x,
            y: world_normal.y,
            z: world_normal.z,
            w: Scalar { v: 0 },
        };
        clipped.normalize()
    }

    /// The canonical-frame normal.
    pub fn local_normal_at(&self, point: Tuple) -> (r: Tuple)
        ensures
            r == local_normal_spec(*self, point),
    {
        match self.shape_kind {
            ShapeKind::Plane => Tuple::vector(
                Scalar { v: 0 },
                Scalar { v: SCALE },
                Scalar { v: 0 },
            ),
            ShapeKind::Sphere => point.minus(
                Tuple::point(Scalar { v: 0 }, Scalar { v: 0 }, Scalar { v: 0 }),
            ),
        }
    }

    /// Candidate hits at the given parameters, each carrying this shape.
    pub fn intersections(&self, ts: Vec<Scalar>) -> (r: Vec<Intersection>)
        ensures
            r@.len() == ts@.len(),
            forall|i: int| 0 <= i < ts@.len() ==> r@[i] == inter(ts@[i].v as int, *self),
    {
        let mut out: Vec<Intersection> = Vec::new();
        let mut i: usize = 0;
        while i < ts.len()
            invariant
                i <= ts@.len(),
                out@.len() == i,
                forall|j: int| 0 <= j < i ==> out@[j] == inter(ts@[j].v as int, *self),
            decreases ts@.len() - i,
        {
            out.push(Intersection::new(ts[i], *self));
            i = i + 1;
        }
        out
    }

    /// The candidate hits of a world-space ray against this shape.
    pub fn intersect(&self, ray: &Ray) -> (r: Vec<Intersection>)
        requires
            is_invertible_m(self.transform),
        ensures
            r@ == intersect_spec(*self, *ray),
    {
        let local_ray = ray.transform(self.transform.inverse());
        self.local_intersect(local_ray)
    }

    /// The candidate hits of a ray already in this shape's local frame.
    pub fn local_intersect(&self, ray: Ray) -> (r: Vec<Intersection>)
        ensures
            r@ == local_intersect_spec(*self, ray),
    {
        match self.shape_kind {
            ShapeKind::Plane => {
                if crate::float_eq(ray.direction.y, Scalar { v: 0 }) {
                    let r: Vec<Intersection> = Vec::new();
                    proof {
                        assert(r@ =~= local_intersect_spec(*self, ray));
                    }
                    r
                } else {
                    let t = ray.origin.y.negated().over(ray.direction.y);
                    let mut r: Vec<Intersection> = Vec::new();
                    r.push(Intersection::new(t, *self));
                    proof {
                        assert(r@ =~= local_intersect_spec(*self, ray));
                    }
                    r
                }
            },
            ShapeKind::Sphere => {
                let origin = Tuple::point(Scalar { v: 0 }, Scalar { v: 0 }, Scalar { v: 0 });
                let sphere_to_ray = ray.origin.minus(origin);
                let a = ray.direction.dot(ray.direction);
                let b = Scalar { v: 2 * SCALE }.times(ray.direction.dot(sphere_to_ray));
                let c = sphere_to_ray.dot(sphere_to_ray).minus(Scalar { v: SCALE });
                let four = Scalar { v: 4 * SCALE };
                let discriminant = b.times(b).minus(four.times(a).times(c));
                let two_a = Scalar { v: 2 * SCALE }.times(a);
                if discriminant.v < 0 || two_a.v == 0 {
                    let r: Vec<Intersection> = Vec::new();
                    proof {
                        assert(r@ =~= local_intersect_spec(*self, ray));
                    }
                    r
                } else {
                    let root = discriminant.sqrt();
                    let t1 = b.negated().minus(root).over(two_a);
                    let t2 = b.negated().plus(root).over(two_a);
                    let i1 = Intersection::new(t1, *self);
                    let i2 = Intersection::new(t2, *self);
                    let mut r: Vec<Intersection> = Vec::new();
                    if t1.v > t2.v {
                        r.push(i2);
                        r.push(i1);
                    } else {
                        r.push(i1);
                        r.push(i2);
                    }
                    proof {
                        assert(r@ =~= local_intersect_spec(*self, ray));
                    }
                    r
                }
            },
        }
    }
}

impl Default for Shape {
    /// A unit sphere at the origin with the default material.
    fn default() -> (r: Shape)
        ensures
            r.transform == identity_m(),
            r.material == default_material(),
            r.shape_kind == ShapeKind::Sphere,
    {
        Shape {
            transform: Matrix4::identity(),
            material: Material::default(),
            shape_kind: ShapeKind::Sphere,
        }
    }
}

impl PartialEq for Shape {
    /// Tolerance equality: same kind, transform and material within
    /// tolerance.
    fn eq(&self, other: &Shape) -> (r: bool) {
        let kinds_match = match (self.shape_kind, other.shape_kind) {
            (ShapeKind::Sphere, ShapeKind::Sphere) => true,
            (ShapeKind::Plane, ShapeKind::Plane) => true,
            _ => false,
        };
        kinds_match && self.transform == other.transform && self.material == other.material
    }
}

impl vstd::std_specs::cmp::PartialEqSpecImpl for Shape {
    open spec fn obeys_eq_spec() -> bool {
        true
    }

    open spec fn eq_spec(&self, other: &Shape) -> bool {
        approx_shape(*self, *other)
    }
}

/// The sphere primitive's constructor.
pub struct Sphere {}

impl Sphere {
    /// A unit sphere at the origin with the default material.
    pub fn new() -> (r: Shape)
        ensures
            r.transform == identity_m(),
            r.material == default_material(),
            r.shape_kind == ShapeKind::Sphere,
    {
        Shape {
            transform: Matrix4::identity(),
            material: Material::default(),
            shape_kind: ShapeKind::Sphere,
        }
    }
}

/// The plane primitive's constructor.
pub struct Plane {}

impl Plane {
    /// The x/z plane through the origin with the default material.
    pub fn new() -> (r: Shape)
        ensures
            r.transform == identity_m(),
            r.material == default_material(),
            r.shape_kind == ShapeKind::Plane,
    {
        Shape {
            transform: Matrix4::identity(),
            material: Material::default(),
            shape_kind: ShapeKind::Plane,
        }
    }
}

} // verus!
