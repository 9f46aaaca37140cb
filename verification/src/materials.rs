//! Surface materials for the Phong model.
//!
//! A material carries a flat color (or a pattern), the four Phong weights
//! and a reflectivity.  The defaults are the classic white matte surface:
//! ambient 0.1, diffuse 0.9, specular 0.9, shininess 200, no reflection.

use crate::patterns::{approx_pattern, Pattern};
use crate::scalar::{within, Scalar, SCALE};
use crate::tuples::{approx_t, tup, Tuple};
use crate::{float_eq, EPSILON};
use vstd::prelude::*;

verus! {

/// A Phong material: base color or pattern, shading weights, reflectivity.
#[derive(Clone, Copy, Debug)]
pub struct Material {
    pub color: Tuple,
    pub ambient: Scalar,
    pub diffuse: Scalar,
    pub specular: Scalar,
    pub shininess: Scalar,
    pub pattern: Option<Pattern>,
    pub reflective: Scalar,
}

/// The default material: white, ambient 0.1, diffuse 0.9, specular 0.9,
/// shininess 200, no pattern, no reflection.
pub open spec fn default_material() -> Material {
    Material {
        color: tup(SCALE as int, SCALE as int, SCALE as int, 0),
        ambient: Scalar { v: 100_000_000 },
        diffuse: Scalar { v: 900_000_000 },
        specular: Scalar { v: 900_000_000 },
        shininess: Scalar { v: 200_000_000_000 },
        pattern: None,
        reflective: Scalar { v: 0 },
    }
}

/// Tolerance equality of materials: every weight within tolerance, colors
/// and patterns within tolerance.
pub open spec fn approx_material(a: Material, b: Material) -> bool {
    approx_t(a.color, b.color) && within(a.ambient.v as int, b.ambient.v as int, EPSILON as int)
        && within(a.diffuse.v as int, b.diffuse.v as int, EPSILON as int) && within(
        a.specular.v as int,
        b.specular.v as int,
        EPSILON as int,
    ) && within(a.shininess.v as int, b.shininess.v as int, EPSILON as int) && within(
        a.reflective.v as int,
        b.reflective.v as int,
        EPSILON as int,
    ) && match (a.pattern, b.pattern) {
        (Option::None, Option::None) => true,
        (Option::Some(pa), Option::Some(pb)) => approx_pattern(pa, pb),
        _ => false,
    }
}

impl Material {
    /// A material from its color and weights, with no pattern.
    pub fn new(
        color: Tuple,
        ambient: Scalar,
        diffuse: Scalar,
        specular: Scalar,
        shininess: Scalar,
        reflective: Scalar,
    ) -> (r: Material)
        ensures
            r == (Material {
                color,
                ambient,
                diffuse,
                specular,
                shininess,
                pattern: None,
                reflective,
            }),
    {
        Material { color, ambient, diffuse, specular, shininess, pattern: None, reflective }
    }
}

impl Default for Material {
    /// The default white matte material.
    fn default() -> (r: Material)
        ensures
            r == default_material(),
    {
        Material {
            color: Tuple::color(
                Scalar { v: SCALE },
                Scalar { v: SCALE },
                Scalar { v: SCALE },
            ),
            ambient: Scalar { v: 100_000_000 },
            diffuse: Scalar { v: 900_000_000 },
            specular: Scalar { v: 900_000_000 },
            shininess: Scalar { v: 200_000_000_000 },
            pattern: None,
            reflective: Scalar { v: 0 },
        }
    }
}

impl PartialEq for Material {
    /// Tolerance equality over every field.
    fn eq(&self, other: &Material) -> (r: bool) {
        let patterns_match = match (&self.pattern, &other.pattern) {
            (Option::None, Option::None) => true,
            (Option::Some(pa), Option::Some(pb)) => *pa == *pb,
            _ => false,
        };
        self.color == other.color && float_eq(self.ambient, other.ambient) && float_eq(
            self.diffuse,
            other.diffuse,
        ) && float_eq(self.specular, other.specular) && float_eq(self.shininess, other.shininess)
            && patterns_match && float_eq(self.reflective, other.reflective)
    }
}

impl vstd::std_specs::cmp::PartialEqSpecImpl for Material {
    open spec fn obeys_eq_spec() -> bool {
        true
    }

    open spec fn eq_spec(&self, other: &Material) -> bool {
        approx_material(*self, *other)
    }
}

} // verus!
