//! Points, vectors and colors.
//!
//! A `Tuple` is a 4-component homogeneous value: `w` equal to one marks a
//! point, `w` equal to zero marks a vector.  Colors reuse the same type with
//! red, green and blue aliased to `x`, `y` and `z`.  Every operation's
//! contract names the exact fixed-point result through the spec constructors
//! below, so callers can compute with tuples symbolically.

use crate::scalar::{
    add_v, div_v, mul_v, neg_v, sqrt_v, sub_v, within, Scalar, SCALE,
};
use crate::{float_eq, EPSILON};
use vstd::prelude::*;

verus! {

/// A scalar from an already-saturated raw value.
pub open spec fn sc(x: int) -> Scalar {
    Scalar { v: x as i64 }
}

/// A tuple from four raw component values.
pub open spec fn tup(x: int, y: int, z: int, w: int) -> Tuple {
    Tuple { x: sc(x), y: sc(y), z: sc(z), w: sc(w) }
}

/// Four scaled coordinates; `w` distinguishes points from vectors.
#[derive(Clone, Copy, Debug)]
pub struct Tuple {
    pub x: Scalar,
    pub y: Scalar,
    pub z: Scalar,
    pub w: Scalar,
}

/// Component-wise sum.
pub open spec fn add_t(a: Tuple, b: Tuple) -> Tuple {
    tup(
        add_v(a.x.v as int, b.x.v as int),
        add_v(a.y.v as int, b.y.v as int),
        add_v(a.z.v as int, b.z.v as int),
        add_v(a.w.v as int, b.w.v as int),
    )
}

/// Component-wise difference.
pub open spec fn sub_t(a: Tuple, b: Tuple) -> Tuple {
    tup(
        sub_v(a.x.v as int, b.x.v as int),
        sub_v(a.y.v as int, b.y.v as int),
        sub_v(a.z.v as int, b.z.v as int),
        sub_v(a.w.v as int, b.w.v as int),
    )
}

/// Component-wise negation.
pub open spec fn neg_t(a: Tuple) -> Tuple {
    tup(neg_v(a.x.v as int), neg_v(a.y.v as int), neg_v(a.z.v as int), neg_v(a.w.v as int))
}

/// Every component multiplied by the scalar `k` (raw value).
pub open spec fn scale_t(a: Tuple, k: int) -> Tuple {
    tup(mul_v(a.x.v as int, k), mul_v(a.y.v as int, k), mul_v(a.z.v as int, k), mul_v(a.w.v as int, k))
}

/// Component-wise product, used for color blending.
pub open spec fn hadamard_t(a: Tuple, b: Tuple) -> Tuple {
    tup(
        mul_v(a.x.v as int, b.x.v as int),
        mul_v(a.y.v as int, b.y.v as int),
        mul_v(a.z.v as int, b.z.v as int),
        mul_v(a.w.v as int, b.w.v as int),
    )
}

/// Every component divided by the scalar `k` (raw value, nonzero).
pub open spec fn div_t(a: Tuple, k: int) -> Tuple {
    tup(div_v(a.x.v as int, k), div_v(a.y.v as int, k), div_v(a.z.v as int, k), div_v(a.w.v as int, k))
}

/// Raw value of the 4-component dot product, folded left to right exactly as
/// the executable code sums it.
pub open spec fn dot_t(a: Tuple, b: Tuple) -> int {
    add_v(
        add_v(
            add_v(mul_v(a.x.v as int, b.x.v as int), mul_v(a.y.v as int, b.y.v as int)),
            mul_v(a.z.v as int, b.z.v as int),
        ),
        mul_v(a.w.v as int, b.w.v as int),
    )
}

/// Raw value of the magnitude: square root of the dot product with itself.
pub open spec fn magnitude_t(a: Tuple) -> int {
    sqrt_v(dot_t(a, a))
}

/// The normalized tuple, defined when the magnitude is nonzero.
pub open spec fn normalize_t(a: Tuple) -> Tuple {
    div_t(a, magnitude_t(a))
}

/// Normalization as the executable code performs it: a tuple whose magnitude
/// rounds to zero has no direction and comes back unchanged.
pub open spec fn normalize_total_t(a: Tuple) -> Tuple {
    if magnitude_t(a) == 0 {
        a
    } else {
        normalize_t(a)
    }
}

/// The 3-component cross product (vectors only; `w` is zero).
pub open spec fn cross_t(a: Tuple, b: Tuple) -> Tuple {
    tup(
        sub_v(mul_v(a.y.v as int, b.z.v as int), mul_v(a.z.v as int, b.y.v as int)),
        sub_v(mul_v(a.z.v as int, b.x.v as int), mul_v(a.x.v as int, b.z.v as int)),
        sub_v(mul_v(a.x.v as int, b.y.v as int), mul_v(a.y.v as int, b.x.v as int)),
        0,
    )
}

/// Reflection of `a` about the normal `n`, computed as the executable code
/// does: `a - (n * 2) * dot(a, n)`.
pub open spec fn reflect_t(a: Tuple, n: Tuple) -> Tuple {
    sub_t(a, scale_t(scale_t(n, 2 * SCALE), dot_t(a, n)))
}

/// A point has `w` equal to one.
pub open spec fn is_point_t(a: Tuple) -> bool {
    a.w.v == SCALE
}

/// A vector has `w` equal to zero.
pub open spec fn is_vector_t(a: Tuple) -> bool {
    a.w.v == 0
}

/// Tolerance equality: all four components within `EPSILON`.
pub open spec fn approx_t(a: Tuple, b: Tuple) -> bool {
    within(a.x.v as int, b.x.v as int, EPSILON as int) && within(
        a.y.v as int,
        b.y.v as int,
        EPSILON as int,
    ) && within(a.z.v as int, b.z.v as int, EPSILON as int) && within(
        a.w.v as int,
        b.w.v as int,
        EPSILON as int,
    )
}

impl Tuple {
    /// A tuple from its four components.
    pub fn new(x: Scalar, y: Scalar, z: Scalar, w: Scalar) -> (r: Tuple)
        ensures
            r == (Tuple { x, y, z, w }),
    {
        Tuple { x, y, z, w }
    }

    /// A point: `w` fixed to one.
    pub fn point(x: Scalar, y: Scalar, z: Scalar) -> (r: Tuple)
        ensures
            r == (Tuple { x, y, z, w: Scalar { v: SCALE } }),
            is_point_t(r),
    {
        Tuple { x, y, z, w: Scalar { v: SCALE } }
    }

    /// A vector: `w` fixed to zero.
    pub fn vector(x: Scalar, y: Scalar, z: Scalar) -> (r: Tuple)
        ensures
            r == (Tuple { x, y, z, w: Scalar { v: 0 } }),
            is_vector_t(r),
    {
        Tuple { x, y, z, w: Scalar { v: 0 } }
    }

    /// A color: red, green and blue stored in `x`, `y` and `z`.
    pub fn color(red: Scalar, green: Scalar, blue: Scalar) -> (r: Tuple)
        ensures
            r == (Tuple { x: red, y: green, z: blue, w: Scalar { v: 0 } }),
    {
        Tuple { x: red, y: green, z: blue, w: Scalar { v: 0 } }
    }

    /// The red channel of a color.
    pub fn red(&self) -> (r: Scalar)
        ensures
            r == self.x,
    {
        self.x
    }

    /// The green channel of a color.
    pub fn green(&self) -> (r: Scalar)
        ensures
            r == self.y,
    {
        self.y
    }

    /// The blue channel of a color.
    pub fn blue(&self) -> (r: Scalar)
        ensures
            r == self.z,
    {
        self.z
    }

    /// Whether `w` marks this tuple as a point.
    pub fn is_point(&self) -> (r: bool)
        ensures
            r == is_point_t(*self),
    {
        self.w.v == SCALE
    }

    /// Whether `w` marks this tuple as a vector.
    pub fn is_vector(&self) -> (r: bool)
        ensures
            r == is_vector_t(*self),
    {
        self.w.v == 0
    }

    /// Component-wise sum.
    pub fn plus(self, other: Tuple) -> (r: Tuple)
        ensures
            r == add_t(self, other),
    {
        Tuple {
            x: self.x.plus(other.x),
            y: self.y.plus(other.y),
            z: self.z.plus(other.z),
            w: self.w.plus(other.w),
        }
    }

    /// Component-wise difference.
    pub fn minus(self, other: Tuple) -> (r: Tuple)
        ensures
            r == sub_t(self, other),
    {
        Tuple {
            x: self.x.minus(other.x),
            y: self.y.minus(other.y),
            z: self.z.minus(other.z),
            w: self.w.minus(other.w),
        }
    }

    /// Component-wise negation.
    pub fn negated(self) -> (r: Tuple)
        ensures
            r == neg_t(self),
    {
        Tuple {
            x: self.x.negated(),
            y: self.y.negated(),
            z: self.z.negated(),
            w: self.w.negated(),
        }
    }

    /// Every component multiplied by `k`.
    pub fn scaled(self, k: Scalar) -> (r: Tuple)
        ensures
            r == scale_t(self, k.v as int),
    {
        Tuple {
            x: self.x.times(k),
            y: self.y.times(k),
            z: self.z.times(k),
            w: self.w.times(k),
        }
    }

    /// Component-wise product; blends two colors.
    pub fn hadamard(self, other: Tuple) -> (r: Tuple)
        ensures
            r == hadamard_t(self, other),
    {
        Tuple {
            x: self.x.times(other.x),
            y: self.y.times(other.y),
            z: self.z.times(other.z),
            w: self.w.times(other.w),
        }
    }

    /// Every component divided by `k`, which must be nonzero.
    pub fn divided_by(self, k: Scalar) -> (r: Tuple)
        requires
            k.v != 0,
        ensures
            r == div_t(self, k.v as int),
    {
        Tuple {
            x: self.x.over(k),
            y: self.y.over(k),
            z: self.z.over(k),
            w: self.w.over(k),
        }
    }

    /// The 4-component dot product.
    pub fn dot(&self, other: Tuple) -> (r: Scalar)
        ensures
            r.v == dot_t(*self, other),
    {
        self.x.times(other.x).plus(self.y.times(other.y)).plus(self.z.times(other.z)).plus(
            self.w.times(other.w),
        )
    }

    /// Length of the tuple: square root of the dot product with itself.
    pub fn magnitude(&self) -> (r: Scalar)
        ensures
            r.v == magnitude_t(*self),
            r.v >= 0,
    {
        let d = self.dot(*self);
        proof {
            lemma_self_dot_nonneg(*self);
        }
        d.sqrt()
    }

    /// The unit tuple in the same direction.  A tuple whose magnitude rounds
    /// to zero has no direction to give back and is returned unchanged.
    pub fn normalize(&self) -> (r: Tuple)
        ensures
            r == normalize_total_t(*self),
    {
        let m = self.magnitude();
        if m.v == 0 {
            *self
        } else {
            self.divided_by(m)
        }
    }

    /// The cross product of two vectors, over `x`, `y` and `z` only.
    pub fn cross(&self, other: Tuple) -> (r: Tuple)
        ensures
            r == cross_t(*self, other),
    {
        Tuple::vector(
            self.y.times(other.z).minus(self.z.times(other.y)),
            self.z.times(other.x).minus(self.x.times(other.z)),
            self.x.times(other.y).minus(self.y.times(other.x)),
        )
    }

    /// Reflection about a surface normal: `self - normal * 2 * dot`.
    pub fn reflect(&self, normal: Tuple) -> (r: Tuple)
        ensures
            r == reflect_t(*self, normal),
    {
        let d = self.dot(normal);
        let two = Scalar { v: 2 * SCALE };
        self.minus(normal.scaled(two).scaled(d))
    }
}

/// The dot product of a tuple with itself is never negative: each square is
/// nonnegative and neither saturating addition nor rescaling changes that.
proof fn lemma_self_dot_nonneg(a: Tuple)
    ensures
        dot_t(a, a) >= 0,
{
    crate::scalar::lemma_square_nonneg(a.x.v as int);
    crate::scalar::lemma_square_nonneg(a.y.v as int);
    crate::scalar::lemma_square_nonneg(a.z.v as int);
    crate::scalar::lemma_square_nonneg(a.w.v as int);
}

/// The point/vector algebra of the `w` component: adding a vector to a
/// point gives a point, the sum or difference of two vectors is a vector,
/// the difference of two points is a vector, and a point less a vector is
/// a point.
pub proof fn lemma_point_vector_algebra(p1: Tuple, p2: Tuple, v1: Tuple, v2: Tuple)
    requires
        is_point_t(p1),
        is_point_t(p2),
        is_vector_t(v1),
        is_vector_t(v2),
    ensures
        is_point_t(add_t(p1, v1)),
        is_vector_t(add_t(v1, v2)),
        is_vector_t(sub_t(p1, p2)),
        is_point_t(sub_t(p1, v1)),
        is_vector_t(sub_t(v1, v2)),
{
}

impl Default for Tuple {
    /// The zero tuple.
    fn default() -> (r: Tuple)
        ensures
            r == tup(0, 0, 0, 0),
    {
        Tuple { x: Scalar { v: 0 }, y: Scalar { v: 0 }, z: Scalar { v: 0 }, w: Scalar { v: 0 } }
    }
}

impl PartialEq for Tuple {
    /// Tolerance equality, component by component.
    fn eq(&self, other: &Tuple) -> (r: bool) {
        float_eq(self.x, other.x) && float_eq(self.y, other.y) && float_eq(self.z, other.z)
            && float_eq(self.w, other.w)
    }
}

impl vstd::std_specs::cmp::PartialEqSpecImpl for Tuple {
    open spec fn obeys_eq_spec() -> bool {
        true
    }

    open spec fn eq_spec(&self, other: &Tuple) -> bool {
        approx_t(*self, *other)
    }
}

} // verus!
