//! Procedural surface patterns.
//!
//! A pattern is a color rule evaluated in its own local frame: the shaded
//! world point is mapped through the inverse of the shape's transform and
//! then the inverse of the pattern's transform before the rule runs.
//! Stripes and rings alternate on the parity of a floor; the gradient blends
//! linearly across each unit cell.

use crate::matrices::{identity_m, inverse_m, is_invertible_m, Matrix4};
use crate::scalar::{add_v, floor_units, floor_v, mul_v, sqrt_v, sub_v, SCALE};
use crate::shapes::Shape;
use crate::tuples::{add_t, approx_t, scale_t, sub_t, tup, Tuple};
use vstd::prelude::*;

verus! {

/// The color rule of a pattern.  `TestPattern` reports the pattern-space
/// point itself, which makes the frame mapping visible to callers.
#[derive(Clone, Copy, Debug)]
pub enum PatternKind {
    Stripe(Tuple, Tuple),
    Gradient(Tuple, Tuple),
    Ring(Tuple, Tuple),
    TestPattern,
}

/// A color rule together with the transform that places it on a shape.
#[derive(Clone, Copy, Debug)]
pub struct Pattern {
    pub transform: Matrix4,
    pub kind: PatternKind,
}

/// Stripe rule: the first color on even unit cells of `x`, the second on odd.
pub open spec fn stripe_at(a: Tuple, b: Tuple, x: int) -> Tuple {
    if floor_units(x) % 2 == 0 {
        a
    } else {
        b
    }
}

/// Gradient rule: linear blend by the fractional part of `x`.
pub open spec fn gradient_at(a: Tuple, b: Tuple, x: int) -> Tuple {
    add_t(a, scale_t(sub_t(b, a), sub_v(x, floor_v(x))))
}

/// Ring rule: stripes of the radial distance in the x/z plane.
pub open spec fn ring_at(a: Tuple, b: Tuple, x: int, z: int) -> Tuple {
    if floor_units(sqrt_v(add_v(mul_v(x, x), mul_v(z, z)))) % 2 == 0 {
        a
    } else {
        b
    }
}

/// The color a pattern yields at a pattern-space point.
pub open spec fn pattern_color(p: Pattern, point: Tuple) -> Tuple {
    match p.kind {
        PatternKind::Stripe(a, b) => stripe_at(a, b, point.x.v as int),
        PatternKind::Gradient(a, b) => gradient_at(a, b, point.x.v as int),
        PatternKind::Ring(a, b) => ring_at(a, b, point.x.v as int, point.z.v as int),
        PatternKind::TestPattern => tup(point.x.v as int, point.y.v as int, point.z.v as int, 0),
    }
}

/// The color a pattern yields at a world point on a shape: the point mapped
/// to object space, then to pattern space, then through the color rule.
pub open spec fn pattern_at_shape_spec(p: Pattern, object: Shape, point: Tuple) -> Tuple {
    pattern_color(
        p,
        crate::matrices::mul_tuple_m(
            inverse_m(p.transform),
            crate::matrices::mul_tuple_m(inverse_m(object.transform), point),
        ),
    )
}

/// Tolerance equality of pattern kinds: the same rule with colors within
/// tolerance.
pub open spec fn approx_kind(a: PatternKind, b: PatternKind) -> bool {
    match (a, b) {
        (PatternKind::Stripe(a1, b1), PatternKind::Stripe(a2, b2)) => approx_t(a1, a2) && approx_t(
            b1,
            b2,
        ),
        (PatternKind::Gradient(a1, b1), PatternKind::Gradient(a2, b2)) => approx_t(a1, a2)
            && approx_t(b1, b2),
        (PatternKind::Ring(a1, b1), PatternKind::Ring(a2, b2)) => approx_t(a1, a2) && approx_t(
            b1,
            b2,
        ),
        (PatternKind::TestPattern, PatternKind::TestPattern) => true,
        _ => false,
    }
}

/// Tolerance equality of patterns: same rule, colors and transform within
/// tolerance.
pub open spec fn approx_pattern(a: Pattern, b: Pattern) -> bool {
    approx_kind(a.kind, b.kind) && crate::matrices::approx4(a.transform, b.transform)
}

impl Pattern {
    /// A stripe pattern with the identity transform.
    pub fn stripe(a: Tuple, b: Tuple) -> (r: Pattern)
        ensures
            r.kind == PatternKind::Stripe(a, b),
            r.transform == identity_m(),
    {
        Pattern { transform: Matrix4::identity(), kind: PatternKind::Stripe(a, b) }
    }

    /// A gradient pattern with the identity transform.
    pub fn gradient(a: Tuple, b: Tuple) -> (r: Pattern)
        ensures
            r.kind == PatternKind::Gradient(a, b),
            r.transform == identity_m(),
    {
        Pattern { transform: Matrix4::identity(), kind: PatternKind::Gradient(a, b) }
    }

    /// A ring pattern with the identity transform.
    pub fn ring(a: Tuple, b: Tuple) -> (r: Pattern)
        ensures
            r.kind == PatternKind::Ring(a, b),
            r.transform == identity_m(),
    {
        Pattern { transform: Matrix4::identity(), kind: PatternKind::Ring(a, b) }
    }

    /// The color this pattern yields at a pattern-space point.
    pub fn color_at(&self, point: Tuple) -> (r: Tuple)
        ensures
            r == pattern_color(*self, point),
    {
        match self.kind {
            PatternKind::Stripe(a, b) => {
                if point.x.floor_whole_even() {
                    a
                } else {
                    b
                }
            },
            PatternKind::Gradient(a, b) => {
                let frac = point.x.minus(point.x.floor());
                a.plus(b.minus(a).scaled(frac))
            },
            PatternKind::Ring(a, b) => {
                let rad_sq = point.x.times(point.x).plus(point.z.times(point.z));
                proof {
                    crate::scalar::lemma_square_nonneg(point.x.v as int);
                    crate::scalar::lemma_square_nonneg(point.z.v as int);
                }
                let rad = rad_sq.sqrt();
                if rad.floor_whole_even() {
                    a
                } else {
                    b
                }
            },
            PatternKind::TestPattern => Tuple::color(point.x, point.y, point.z),
        }
    }
}

/// The color a pattern yields at a world point on a shape.  Both transforms
/// must be invertible to map the point into pattern space.
pub fn pattern_at_shape(pattern: Pattern, object: Shape, point: Tuple) -> (r: Tuple)
    requires
        is_invertible_m(object.transform),
        is_invertible_m(pattern.transform),
    ensures
        r == pattern_at_shape_spec(pattern, object, point),
{
    let object_space = object.transform.inverse().mul_tuple(point);
    let pattern_space = pattern.transform.inverse().mul_tuple(object_space);
    pattern.color_at(pattern_space)
}

/// Stripes alternate exactly at whole-unit boundaries: moving one unit
/// along `x` swaps the two colors, and moving two units returns the first.
pub proof fn lemma_stripe_alternates(a: Tuple, b: Tuple, x: int)
    ensures
        stripe_at(a, b, x + SCALE) == stripe_at(b, a, x),
        stripe_at(a, b, x + 2 * SCALE) == stripe_at(a, b, x),
{
    let s = SCALE as int;
    let n = floor_units(x);
    assert(floor_units(x + s) == n + 1) by {
        vstd::arithmetic::div_mod::lemma_fundamental_div_mod(x, s);
        lemma_div_unique_local(x + s, s, n + 1, x % s);
    }
    assert(floor_units(x + 2 * s) == n + 2) by {
        vstd::arithmetic::div_mod::lemma_fundamental_div_mod(x, s);
        lemma_div_unique_local(x + 2 * s, s, n + 2, x % s);
    }
    assert(((n + 1) % 2 == 0) == (n % 2 != 0)) by (nonlinear_arith);
    assert(((n + 2) % 2 == 0) == (n % 2 == 0)) by (nonlinear_arith);
}

/// Euclidean quotients are unique.
proof fn lemma_div_unique_local(a: int, d: int, q: int, r: int)
    requires
        d > 0,
        a == d * q + r,
        0 <= r < d,
    ensures
        a / d == q,
{
    vstd::arithmetic::div_mod::lemma_fundamental_div_mod(a, d);
    assert(a / d == q) by (nonlinear_arith)
        requires
            d > 0,
            a == d * q + r,
            0 <= r < d,
            a == d * (a / d) + (a % d),
            0 <= a % d < d,
    ;
}

impl Default for PatternKind {
    /// A stripe of two zero colors.
    fn default() -> (r: PatternKind)
        ensures
            r == PatternKind::Stripe(tup(0, 0, 0, 0), tup(0, 0, 0, 0)),
    {
        PatternKind::Stripe(Tuple::default(), Tuple::default())
    }
}

impl Default for Pattern {
    /// The default kind under the identity transform.
    fn default() -> (r: Pattern)
        ensures
            r.kind == PatternKind::Stripe(tup(0, 0, 0, 0), tup(0, 0, 0, 0)),
            r.transform == identity_m(),
    {
        Pattern { transform: Matrix4::identity(), kind: PatternKind::default() }
    }
}

impl PartialEq for PatternKind {
    /// Tolerance equality: same rule, colors within tolerance.
    fn eq(&self, other: &PatternKind) -> (r: bool) {
        match (self, other) {
            (PatternKind::Stripe(a1, b1), PatternKind::Stripe(a2, b2)) => *a1 == *a2 && *b1 == *b2,
            (PatternKind::Gradient(a1, b1), PatternKind::Gradient(a2, b2)) => *a1 == *a2 && *b1
                == *b2,
            (PatternKind::Ring(a1, b1), PatternKind::Ring(a2, b2)) => *a1 == *a2 && *b1 == *b2,
            (PatternKind::TestPattern, PatternKind::TestPattern) => true,
            _ => false,
        }
    }
}

impl vstd::std_specs::cmp::PartialEqSpecImpl for PatternKind {
    open spec fn obeys_eq_spec() -> bool {
        true
    }

    open spec fn eq_spec(&self, other: &PatternKind) -> bool {
        approx_kind(*self, *other)
    }
}

impl PartialEq for Pattern {
    /// Tolerance equality: same rule, colors and transform within tolerance.
    fn eq(&self, other: &Pattern) -> (r: bool) {
        self.kind == other.kind && self.transform == other.transform
    }
}

impl vstd::std_specs::cmp::PartialEqSpecImpl for Pattern {
    open spec fn obeys_eq_spec() -> bool {
        true
    }

    open spec fn eq_spec(&self, other: &Pattern) -> bool {
        approx_pattern(*self, *other)
    }
}

} // verus!
