//! The Phong illumination model and point lights.
//!
//! `lighting` combines three terms at a surface point: ambient (always
//! present), diffuse (scaled by how squarely the light faces the surface)
//! and specular (the light's glint, sharpened by shininess).  A shadowed
//! point keeps only the ambient term.

use crate::materials::Material;
use crate::patterns::pattern_at_shape_spec;
use crate::scalar::{floor_units, pow_v, Scalar};
use crate::shapes::{shape_wf, Shape};
use crate::tuples::{
    add_t, approx_t, dot_t, hadamard_t, neg_t, normalize_total_t, reflect_t, scale_t, sub_t, tup,
    Tuple,
};
use vstd::prelude::*;

verus! {

/// A point light: a position and an intensity color.
#[derive(Clone, Copy, Debug)]
pub struct PointLight {
    pub position: Tuple,
    pub intensity: Tuple,
}

/// Tolerance equality of lights.
pub open spec fn approx_light(a: PointLight, b: PointLight) -> bool {
    approx_t(a.position, b.position) && approx_t(a.intensity, b.intensity)
}

impl PointLight {
    /// A light from its position and intensity.
    pub fn new(position: Tuple, intensity: Tuple) -> (r: PointLight)
        ensures
            r == (PointLight { position, intensity }),
    {
        PointLight { position, intensity }
    }
}

impl PartialEq for PointLight {
    /// Tolerance equality of position and intensity.
    fn eq(&self, other: &PointLight) -> (r: bool) {
        self.position == other.position && self.intensity == other.intensity
    }
}

impl vstd::std_specs::cmp::PartialEqSpecImpl for PointLight {
    open spec fn obeys_eq_spec() -> bool {
        true
    }

    open spec fn eq_spec(&self, other: &PointLight) -> bool {
        approx_light(*self, *other)
    }
}

/// The specular exponent: the material's shininess as a whole number,
/// clamped to a machine-width count of multiplications.
pub open spec fn exp_of(shininess: int) -> nat {
    let u = floor_units(shininess);
    if u < 0 {
        0
    } else if u > u32::MAX as int {
        u32::MAX as nat
    } else {
        u as nat
    }
}

/// The surface's base color: the pattern evaluated at the point when the
/// material has one, else the flat color.
pub open spec fn base_color_spec(m: Material, object: Shape, point: Tuple) -> Tuple {
    match m.pattern {
        Option::Some(p) => pattern_at_shape_spec(p, object, point),
        Option::None => m.color,
    }
}

/// The ambient term: base color blended with the light, scaled by the
/// material's ambient weight.
pub open spec fn ambient_spec(m: Material, object: Shape, light: PointLight, point: Tuple) -> Tuple {
    scale_t(hadamard_t(base_color_spec(m, object, point), light.intensity), m.ambient.v as int)
}

/// The full Phong result at a point: ambient alone when shadowed, else
/// ambient plus diffuse plus specular.  Both reflected terms are black when
/// the light is behind the surface, and the specular term is black when the
/// reflection points away from the eye; otherwise the reflection-eye dot is
/// raised to the shininess exponent.
pub open spec fn lighting_spec(
    m: Material,
    object: Shape,
    light: PointLight,
    point: Tuple,
    eyev: Tuple,
    normalv: Tuple,
    in_shadow: bool,
) -> Tuple {
    let black = tup(0, 0, 0, 0);
    let effective = hadamard_t(base_color_spec(m, object, point), light.intensity);
    let lightv = normalize_total_t(sub_t(light.position, point));
    let ambient = scale_t(effective, m.ambient.v as int);
    let light_dot_normal = dot_t(lightv, normalv);
    if in_shadow {
        ambient
    } else if light_dot_normal < 0 {
        add_t(add_t(ambient, black), black)
    } else {
        let diffuse = scale_t(scale_t(effective, m.diffuse.v as int), light_dot_normal);
        let reflectv = neg_t(reflect_t(lightv, normalv));
        let reflect_dot_eye = dot_t(reflectv, eyev);
        let specular = if reflect_dot_eye <= 0 {
            black
        } else {
            scale_t(
                scale_t(light.intensity, m.specular.v as int),
                pow_v(reflect_dot_eye, exp_of(m.shininess.v as int)),
            )
        };
        add_t(add_t(ambient, diffuse), specular)
    }
}

/// Phong shading at a point.  A shadowed point receives the ambient term
/// alone; otherwise the diffuse and specular terms are added when the light
/// faces the surface, the specular one only when the reflected light also
/// reaches the eye.
pub fn lighting(
    material: Material,
    object: Shape,
    light: PointLight,
    point: Tuple,
    eyev: Tuple,
    normalv: Tuple,
    in_shadow: bool,
) -> (r: Tuple)
    requires
        material.pattern is Some ==> shape_wf(object) && crate::matrices::is_invertible_m(
            material.pattern->0.transform,
        ),
    ensures
        r == lighting_spec(material, object, light, point, eyev, normalv, in_shadow),
        in_shadow ==> r == ambient_spec(material, object, light, point),
{
    let black = Tuple::color(Scalar { v: 0 }, Scalar { v: 0 }, Scalar { v: 0 });
    let color = match material.pattern {
        Option::Some(pattern) => crate::patterns::pattern_at_shape(pattern, object, point),
        Option::None => material.color,
    };
    let effective_color = color.hadamard(light.intensity);
    let lightv = light.position.minus(point).normalize();
    let ambient = effective_color.scaled(material.ambient);
    let light_dot_normal = lightv.dot(normalv);
    let diffuse;
    let specular;
    if light_dot_normal.v < 0 {
        diffuse = black;
        specular = black;
    } else {
        diffuse = effective_color.scaled(material.diffuse).scaled(light_dot_normal);
        let reflectv = lightv.reflect(normalv).negated();
        let reflect_dot_eye = reflectv.dot(eyev);
        specular = if reflect_dot_eye.v <= 0 {
            black
        } else {
            let exponent = shininess_exponent(material.shininess);
            light.intensity.scaled(material.specular).scaled(reflect_dot_eye.powi(exponent))
        };
    }
    if in_shadow {
        ambient
    } else {
        ambient.plus(diffuse).plus(specular)
    }
}

/// The shininess weight as a whole exponent, clamped to `u32`.
fn shininess_exponent(shininess: Scalar) -> (r: u32)
    ensures
        r as nat == exp_of(shininess.v as int),
{
    let u: i64 = shininess.floor_whole();
    if u < 0 {
        0
    } else if u > u32::MAX as i64 {
        u32::MAX
    } else {
        u as u32
    }
}

/// A shadowed point keeps the ambient contribution alone: the full Phong
/// result under `in_shadow` is exactly the ambient term, whatever the eye,
/// normal and light geometry.
pub proof fn lemma_lighting_in_shadow(
    m: Material,
    object: Shape,
    light: PointLight,
    point: Tuple,
    eyev: Tuple,
    normalv: Tuple,
)
    ensures
        lighting_spec(m, object, light, point, eyev, normalv, true) == ambient_spec(
            m,
            object,
            light,
            point,
        ),
{
}

} // verus!
