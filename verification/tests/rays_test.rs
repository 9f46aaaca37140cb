use ray_tracer_challenge::matrices::Matrix4;
use ray_tracer_challenge::rays::Ray;
use ray_tracer_challenge::scalar::Scalar;
use ray_tracer_challenge::shapes::Sphere;
use ray_tracer_challenge::tuples::Tuple;

fn s(x: f64) -> Scalar {
    Scalar::from_raw((x * 1_000_000_000.0).round() as i64)
}

fn point(x: f64, y: f64, z: f64) -> Tuple {
    Tuple::point(s(x), s(y), s(z))
}

fn vector(x: f64, y: f64, z: f64) -> Tuple {
    Tuple::vector(s(x), s(y), s(z))
}

#[test]
fn test_creating_and_querying_a_ray() {
    let origin = point(1.0, 2.0, 3.0);
    let direction = vector(4.0, 5.0, 6.0);
    let r = Ray::new(origin, direction);
    assert_eq!(r.origin, origin);
    assert_eq!(r.direction, direction);
}

#[test]
fn test_computing_a_point_from_a_distance() {
    let r = Ray::new(point(2.0, 3.0, 4.0), vector(1.0, 0.0, 0.0));
    assert_eq!(r.position(s(0.0)), point(2.0, 3.0, 4.0));
    assert_eq!(r.position(s(1.0)), point(3.0, 3.0, 4.0));
    assert_eq!(r.position(s(-1.0)), point(1.0, 3.0, 4.0));
    assert_eq!(r.position(s(2.5)), point(4.5, 3.0, 4.0));
}

#[test]
fn rays_test_a_ray_intersects_a_sphere_at_two_points() {
    let r = Ray::new(point(0.0, 0.0, -5.0), vector(0.0, 0.0, 1.0));
    let sphere = Sphere::new();
    let xs = r.intersect(sphere);
    assert_eq!(xs.len(), 2);
    assert_eq!(xs[0].t, s(4.0));
    assert_eq!(xs[1].t, s(6.0));
}

#[test]
fn rays_test_a_ray_intersects_a_sphere_at_a_tangent() {
    let r = Ray::new(point(0.0, 1.0, -5.0), vector(0.0, 0.0, 1.0));
    let sphere = Sphere::new();
    let xs = r.intersect(sphere);
    assert_eq!(xs.len(), 2);
    assert_eq!(xs[0].t, s(5.0));
    assert_eq!(xs[1].t, s(5.0));
}

#[test]
fn rays_test_a_ray_misses_a_sphere() {
    let r = Ray::new(point(0.0, 2.0, -5.0), vector(0.0, 0.0, 1.0));
    let sphere = Sphere::new();
    let xs = r.intersect(sphere);
    assert_eq!(xs.len(), 0);
}

#[test]
fn rays_test_a_ray_originates_inside_a_sphere() {
    let r = Ray::new(point(0.0, 0.0, 0.0), vector(0.0, 0.0, 1.0));
    let sphere = Sphere::new();
    let xs = r.intersect(sphere);
    assert_eq!(xs.len(), 2);
    assert_eq!(xs[0].t, s(-1.0));
    assert_eq!(xs[1].t, s(1.0));
}

#[test]
fn rays_test_a_sphere_is_behind_a_ray() {
    let r = Ray::new(point(0.0, 0.0, 5.0), vector(0.0, 0.0, 1.0));
    let sphere = Sphere::new();
    let xs = r.intersect(sphere);
    assert_eq!(xs.len(), 2);
    assert_eq!(xs[0].t, s(-6.0));
    assert_eq!(xs[1].t, s(-4.0));
}

#[test]
fn rays_test_intersect_sets_the_object_on_the_intersection() {
    let r = Ray::new(point(0.0, 0.0, -5.0), vector(0.0, 0.0, 1.0));
    let sphere = Sphere::new();
    let xs = r.intersect(sphere);
    assert_eq!(xs.len(), 2);
    assert_eq!(xs[0].object, sphere.clone());
    assert_eq!(xs[1].object, sphere.clone());
}

#[test]
fn test_translating_a_ray() {
    let r = Ray::new(point(1.0, 2.0, 3.0), vector(0.0, 1.0, 0.0));
    let m = Matrix4::translation(s(3.0), s(4.0), s(5.0));
    let r2 = r.transform(m);
    assert_eq!(r2.origin, point(4.0, 6.0, 8.0));
    assert_eq!(r2.direction, vector(0.0, 1.0, 0.0));
}

#[test]
fn test_scaling_a_ray() {
    let r = Ray::new(point(1.0, 2.0, 3.0), vector(0.0, 1.0, 0.0));
    let m = Matrix4::scaling(s(2.0), s(3.0), s(4.0));
    let r2 = r.transform(m);
    assert_eq!(r2.origin, point(2.0, 6.0, 12.0));
    assert_eq!(r2.direction, vector(0.0, 3.0, 0.0));
}

#[test]
fn rays_test_intersecting_a_scaled_sphere_with_a_ray() {
    let r = Ray::new(point(0.0, 0.0, -5.0), vector(0.0, 0.0, 1.0));
    let mut sphere = Sphere::new();
    sphere.transform = Matrix4::scaling(s(2.0), s(2.0), s(2.0));
    let xs = r.intersect(sphere);
    assert_eq!(xs.len(), 2);
    assert_eq!(xs[0].t, s(3.0));
    assert_eq!(xs[1].t, s(7.0));
}

#[test]
fn rays_test_intersecting_a_translated_sphere_with_a_ray() {
    let r = Ray::new(point(0.0, 0.0, -5.0), vector(0.0, 0.0, 1.0));
    let mut sphere = Sphere::new();
    sphere.transform = Matrix4::translation(s(5.0), s(0.0), s(0.0));
    let xs = r.intersect(sphere);
    assert_eq!(xs.len(), 0);
}
