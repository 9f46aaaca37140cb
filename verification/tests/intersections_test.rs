use ray_tracer_challenge::intersections::{find_hit, Intersection};
use ray_tracer_challenge::lighting::PointLight;
use ray_tracer_challenge::matrices::Matrix4;
use ray_tracer_challenge::rays::Ray;
use ray_tracer_challenge::scalar::Scalar;
use ray_tracer_challenge::shapes::{Plane, Sphere};
use ray_tracer_challenge::tuples::Tuple;
use ray_tracer_challenge::world::World;
use ray_tracer_challenge::{EPSILON, REFLECTION_RECURSION_LIMIT};

fn s(x: f64) -> Scalar {
    Scalar::from_raw((x * 1_000_000_000.0).round() as i64)
}

fn point(x: f64, y: f64, z: f64) -> Tuple {
    Tuple::point(s(x), s(y), s(z))
}

fn vector(x: f64, y: f64, z: f64) -> Tuple {
    Tuple::vector(s(x), s(y), s(z))
}

fn color(r: f64, g: f64, b: f64) -> Tuple {
    Tuple::color(s(r), s(g), s(b))
}

#[test]
fn test_precomputing_the_state_of_an_intersection() {
    let ray = Ray::new(point(0.0, 0.0, -5.0), vector(0.0, 0.0, 1.0));
    let shape = Sphere::new();
    let mut hit = Intersection::new(s(4.0), shape);
    hit.prepare_hit(&ray);
    assert_eq!(hit.point, Some(point(0.0, 0.0, -1.0001)));
    assert_eq!(hit.eyev, Some(vector(0.0, 0.0, -1.0)));
    assert_eq!(hit.normalv, Some(vector(0.0, 0.0, -1.0)));
}

#[test]
fn test_an_intersection_occurs_on_the_outside() {
    let ray = Ray::new(point(0.0, 0.0, -5.0), vector(0.0, 0.0, 1.0));
    let shape = Sphere::new();
    let mut hit = Intersection::new(s(4.0), shape);
    hit.prepare_hit(&ray);
    assert_eq!(hit.inside, Some(false));
}

#[test]
fn test_an_intersection_occurs_on_the_inside() {
    let ray = Ray::new(point(0.0, 0.0, 0.0), vector(0.0, 0.0, 1.0));
    let shape = Sphere::new();
    let mut hit = Intersection::new(s(1.0), shape);
    hit.prepare_hit(&ray);
    assert_eq!(hit.point, Some(point(0.0, 0.0, 1.0001)));
    assert_eq!(hit.eyev, Some(vector(0.0, 0.0, -1.0)));
    assert_eq!(hit.inside, Some(true));
    assert_eq!(hit.normalv, Some(vector(0.0, 0.0, -1.0)));
}

#[test]
fn test_the_point_is_offset() {
    let ray = Ray::new(point(0.0, 0.0, -5.0), vector(0.0, 0.0, 1.0));
    let mut shape = Sphere::new();
    shape.transform = Matrix4::translation(s(0.0), s(0.0), s(1.0));
    let mut hit = Intersection::new(s(5.0), shape);
    hit.prepare_hit(&ray);
    assert!(hit.over_point.unwrap().z.v < -EPSILON / 2);
    assert!(hit.point.unwrap().z.v > hit.over_point.unwrap().z.v);
}

#[test]
fn test_precomputing_the_reflection_vector() {
    let shape = Plane::new();
    let ray = Ray::new(
        point(0.0, 1.0, -1.0),
        vector(0.0, -(2f64.sqrt()) / 2.0, 2f64.sqrt() / 2.0),
    );
    let mut hit = Intersection::new(s(2f64.sqrt()), shape);
    hit.prepare_hit(&ray);
    assert_eq!(
        hit.reflectv,
        Some(vector(0.0, 2f64.sqrt() / 2.0, 2f64.sqrt() / 2.0))
    );
}

#[test]
fn test_the_reflected_color_for_a_non_reflective_material() {
    let world = World::default();
    let ray = Ray::new(point(0.0, 0.0, 0.0), vector(0.0, 0.0, 1.0));
    let mut shape = world.objects[1].clone();
    shape.material.ambient = s(1.0);
    let mut hit = Intersection::new(s(1.0), shape);
    hit.prepare_hit(&ray);
    assert_eq!(
        hit.reflected_color(&world, REFLECTION_RECURSION_LIMIT),
        color(0.0, 0.0, 0.0)
    );
}

#[test]
fn test_the_reflected_color_for_a_reflective_material() {
    let mut world = World::default();
    let mut shape = Plane::new();
    shape.material.reflective = s(0.5);
    shape.transform = Matrix4::translation(s(0.0), s(-1.0), s(0.0));
    world.add_shape(shape);
    let ray = Ray::new(
        point(0.0, 0.0, -3.0),
        vector(0.0, -(2f64.sqrt()) / 2.0, 2f64.sqrt() / 2.0),
    );
    let mut hit = Intersection::new(s(2f64.sqrt()), shape);
    hit.prepare_hit(&ray);
    assert_eq!(
        hit.reflected_color(&world, REFLECTION_RECURSION_LIMIT),
        color(0.19034, 0.23793, 0.14276)
    );
}

#[test]
fn test_the_reflected_color_at_the_maximum_recursive_depth() {
    let mut world = World::default();
    let mut shape = Plane::new();
    shape.material.reflective = s(0.5);
    shape.transform = Matrix4::translation(s(0.0), s(-1.0), s(0.0));
    world.add_shape(shape);
    let ray = Ray::new(
        point(0.0, 0.0, -3.0),
        vector(0.0, -(2f64.sqrt()) / 2.0, 2f64.sqrt() / 2.0),
    );
    let mut hit = Intersection::new(s(2f64.sqrt()), shape);
    hit.prepare_hit(&ray);
    assert_eq!(hit.reflected_color(&world, 0), color(0.0, 0.0, 0.0));
}

#[test]
fn test_shade_hit_with_a_reflective_material() {
    let mut world = World::default();
    let mut shape = Plane::new();
    shape.material.reflective = s(0.5);
    shape.transform = Matrix4::translation(s(0.0), s(-1.0), s(0.0));
    world.add_shape(shape);
    let ray = Ray::new(
        point(0.0, 0.0, -3.0),
        vector(0.0, -(2f64.sqrt()) / 2.0, 2f64.sqrt() / 2.0),
    );
    let mut hit = Intersection::new(s(2f64.sqrt()), shape);
    hit.prepare_hit(&ray);
    let c = hit.shade_hit(&world, REFLECTION_RECURSION_LIMIT);
    assert_eq!(c, color(0.87677, 0.92436, 0.82918));
}

#[test]
fn test_shading_an_intersection() {
    let world = World::default();
    let ray = Ray::new(point(0.0, 0.0, -5.0), vector(0.0, 0.0, 1.0));
    let shape = world.objects[0].clone();
    let mut hit = Intersection::new(s(4.0), shape);
    hit.prepare_hit(&ray);
    let c = hit.shade_hit(&world, REFLECTION_RECURSION_LIMIT);
    assert_eq!(c, color(0.38066, 0.47583, 0.2855));
}

#[test]
fn test_shading_an_intersection_from_the_inside() {
    let mut world = World::default();
    world.light_source = Some(PointLight::new(point(0.0, 0.25, 0.0), color(1.0, 1.0, 1.0)));
    let ray = Ray::new(point(0.0, 0.0, 0.0), vector(0.0, 0.0, 1.0));
    let shape = world.objects[1].clone();
    let mut hit = Intersection::new(s(0.5), shape);
    hit.prepare_hit(&ray);
    let c = hit.shade_hit(&world, REFLECTION_RECURSION_LIMIT);
    assert_eq!(c, color(0.90502, 0.90502, 0.90502));
}

#[test]
fn test_when_shade_hit_is_given_an_intersection_in_shadow() {
    let mut world = World::new();
    world.light_source = Some(PointLight::new(point(0.0, 0.0, -10.0), color(1.0, 1.0, 1.0)));
    let s1 = Sphere::new();
    world.objects.push(s1);
    let mut s2 = Sphere::new();
    s2.transform = Matrix4::translation(s(0.0), s(0.0), s(10.0));
    world.objects.push(s2);
    let ray = Ray::new(point(0.0, 0.0, 5.0), vector(0.0, 0.0, 1.0));
    let mut hit = Intersection::new(s(4.0), s2);
    hit.prepare_hit(&ray);
    let c = hit.shade_hit(&world, REFLECTION_RECURSION_LIMIT);
    assert_eq!(c, color(0.1, 0.1, 0.1));
}

#[test]
fn test_an_intersection_encapsulates_t_and_object() {
    let sphere = Sphere::new();
    let i = Intersection::new(s(3.5), sphere.clone());
    assert_eq!(i.t, s(3.5));
    assert_eq!(i.object, sphere);
}

#[test]
fn test_aggregating_intersections() {
    let sphere = Sphere::new();
    let xs = sphere.intersections(vec![s(1.0), s(2.0)]);
    assert_eq!(xs.len(), 2);
    assert_eq!(xs[0].t, s(1.0));
    assert_eq!(xs[1].t, s(2.0));
}

#[test]
fn test_the_hit_when_all_intersections_have_positive_t() {
    let sphere = Sphere::new();
    let xs = sphere.intersections(vec![s(1.0), s(2.0)]);
    let h = find_hit(&xs);
    assert!(h.is_some());
    assert_eq!(h.unwrap().t, s(1.0));
}

#[test]
fn test_the_hit_when_some_intersections_have_negative_t() {
    let sphere = Sphere::new();
    let xs = sphere.intersections(vec![s(1.0), s(-1.0)]);
    let h = find_hit(&xs);
    assert!(h.is_some());
    assert_eq!(h.unwrap().t, s(1.0));
}

#[test]
fn test_the_hit_when_all_intersections_have_negative_t() {
    let sphere = Sphere::new();
    let xs = sphere.intersections(vec![s(-2.0), s(-1.0)]);
    let h = find_hit(&xs);
    assert!(h.is_none());
}

#[test]
fn test_the_hit_is_always_the_lowest_non_negative_intersection() {
    let sphere = Sphere::new();
    let xs = sphere.intersections(vec![s(5.0), s(7.0), s(-3.0), s(2.0)]);
    let h = find_hit(&xs);
    assert!(h.is_some());
    assert_eq!(h.unwrap().t, s(2.0));
}
