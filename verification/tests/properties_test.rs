//! Scenario checks for the library's stated properties, on concrete values.

use ray_tracer_challenge::float_eq;
use ray_tracer_challenge::intersections::{find_hit, Intersection};
use ray_tracer_challenge::lighting::PointLight;
use ray_tracer_challenge::matrices::Matrix4;
use ray_tracer_challenge::patterns::Pattern;
use ray_tracer_challenge::rays::Ray;
use ray_tracer_challenge::scalar::Scalar;
use ray_tracer_challenge::shapes::{Plane, Sphere};
use ray_tracer_challenge::tuples::Tuple;
use ray_tracer_challenge::world::World;
use ray_tracer_challenge::REFLECTION_RECURSION_LIMIT;

fn s(x: f64) -> Scalar {
    Scalar::from_raw((x * 1_000_000_000.0).round() as i64)
}

fn point(x: f64, y: f64, z: f64) -> Tuple {
    Tuple::point(s(x), s(y), s(z))
}

fn vector(x: f64, y: f64, z: f64) -> Tuple {
    Tuple::vector(s(x), s(y), s(z))
}

fn color(r: f64, g: f64, b: f64) -> Tuple {
    Tuple::color(s(r), s(g), s(b))
}

#[test]
fn test_point_and_vector_algebra_on_w() {
    let p1 = point(3.0, -2.0, 5.0);
    let p2 = point(1.0, 1.0, 1.0);
    let v1 = vector(-2.0, 3.0, 1.0);
    let v2 = vector(4.0, 0.0, -1.0);
    assert!(p1.plus(v1).is_point());
    assert!(v1.plus(v2).is_vector());
    assert!(p1.minus(p2).is_vector());
    assert!(p1.minus(v1).is_point());
    assert!(v1.minus(v2).is_vector());
}

#[test]
fn test_matrix_inverse_round_trip() {
    let matrix = Matrix4::from_rows([
        [s(-5.0), s(2.0), s(6.0), s(-8.0)],
        [s(1.0), s(-5.0), s(1.0), s(8.0)],
        [s(7.0), s(7.0), s(-6.0), s(-7.0)],
        [s(1.0), s(-3.0), s(7.0), s(4.0)],
    ]);
    let inverse = matrix.inverse();
    assert!(inverse.is_invertible());
    assert_eq!(inverse.inverse(), matrix);
    assert_eq!(matrix.matmul(inverse), Matrix4::identity());
}

#[test]
fn test_a_sphere_normal_has_unit_magnitude() {
    let sphere = Sphere::new();
    let n = sphere.normal_at(point(0.3, 0.4, 0.866));
    assert!(float_eq(n.magnitude(), s(1.0)));
    assert_eq!(n, n.normalize());
}

#[test]
fn test_normalizing_the_zero_vector_gives_it_back() {
    let zero = vector(0.0, 0.0, 0.0);
    assert_eq!(zero.normalize(), zero);
}

#[test]
fn test_the_hit_prefers_the_first_of_equally_close_candidates() {
    let first = Sphere::new();
    let mut second = Sphere::new();
    second.transform = Matrix4::translation(s(3.0), s(0.0), s(0.0));
    let xs = vec![
        Intersection::new(s(2.0), first),
        Intersection::new(s(2.0), second),
    ];
    let h = find_hit(&xs).unwrap();
    assert_eq!(h.t, s(2.0));
    assert_eq!(h.object, first);
}

#[test]
fn test_a_world_with_no_shapes_shades_to_black() {
    let mut world = World::new();
    world.light_source = Some(PointLight::new(point(0.0, 0.0, -10.0), color(1.0, 1.0, 1.0)));
    let ray = Ray::new(point(0.0, 0.0, -5.0), vector(0.0, 0.0, 1.0));
    assert_eq!(world.color_at(&ray, REFLECTION_RECURSION_LIMIT), color(0.0, 0.0, 0.0));
}

#[test]
fn test_stripes_swap_colors_at_each_unit_boundary() {
    let pattern = Pattern::stripe(color(1.0, 1.0, 1.0), color(0.0, 0.0, 0.0));
    assert_eq!(pattern.color_at(point(0.5, 0.0, 0.0)), color(1.0, 1.0, 1.0));
    assert_eq!(pattern.color_at(point(1.5, 0.0, 0.0)), color(0.0, 0.0, 0.0));
    assert_eq!(pattern.color_at(point(2.5, 0.0, 0.0)), color(1.0, 1.0, 1.0));
}

#[test]
fn test_a_gradient_starts_at_its_first_color() {
    let pattern = Pattern::gradient(color(1.0, 0.0, 0.0), color(0.0, 0.0, 1.0));
    assert_eq!(pattern.color_at(point(0.0, 0.0, 0.0)), color(1.0, 0.0, 0.0));
    assert_eq!(pattern.color_at(point(2.0, 0.0, 0.0)), color(1.0, 0.0, 0.0));
}

#[test]
fn test_reflection_between_parallel_mirrors_stops_at_the_bounce_budget() {
    let mut world = World::new();
    world.light_source = Some(PointLight::new(point(0.0, 0.0, 0.0), color(1.0, 1.0, 1.0)));
    let mut lower = Plane::new();
    lower.material.reflective = s(1.0);
    lower.transform = Matrix4::translation(s(0.0), s(-1.0), s(0.0));
    world.add_shape(lower);
    let mut upper = Plane::new();
    upper.material.reflective = s(1.0);
    upper.transform = Matrix4::translation(s(0.0), s(1.0), s(0.0));
    world.add_shape(upper);
    let ray = Ray::new(point(0.0, 0.0, 0.0), vector(0.0, 1.0, 0.0));
    let _ = world.color_at(&ray, REFLECTION_RECURSION_LIMIT);
    let mut hit = Intersection::new(s(1.0), upper);
    hit.prepare_hit(&ray);
    assert_eq!(hit.reflected_color(&world, 0), color(0.0, 0.0, 0.0));
}

#[test]
fn test_a_scene_with_a_flattened_shape_is_not_renderable() {
    let mut world = World::new();
    let mut squashed = Sphere::new();
    squashed.transform = Matrix4::scaling(s(1.0), s(0.0), s(1.0));
    world.add_shape(squashed);
    assert!(!world.is_renderable());
    let mut fine = World::new();
    fine.add_shape(Sphere::new());
    assert!(fine.is_renderable());
}

#[test]
fn test_specular_is_black_when_the_reflection_points_away_from_the_eye() {
    let object = ray_tracer_challenge::shapes::Shape::default();
    let mut m = ray_tracer_challenge::materials::Material::default();
    m.shininess = s(2.0);
    let light = PointLight::new(point(0.0, 0.0, -10.0), color(1.0, 1.0, 1.0));
    let eyev = vector(0.0, 0.0, 1.0);
    let normalv = vector(0.0, 0.0, -1.0);
    let result = ray_tracer_challenge::lighting::lighting(
        m,
        object,
        light,
        point(0.0, 0.0, 0.0),
        eyev,
        normalv,
        false,
    );
    assert_eq!(result, color(1.0, 1.0, 1.0));
}

#[test]
fn test_prepare_hit_stores_the_exact_position_and_offsets_over_point() {
    let ray = Ray::new(point(0.0, 0.0, -5.0), vector(0.0, 0.0, 1.0));
    let mut hit = Intersection::new(s(4.0), Sphere::new());
    hit.prepare_hit(&ray);
    let stored = hit.point.unwrap();
    assert_eq!(stored.z, s(-1.0));
    assert!(hit.over_point.unwrap().z.v < stored.z.v);
}
