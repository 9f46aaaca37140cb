use ray_tracer_challenge::materials::Material;
use ray_tracer_challenge::matrices::Matrix4;
use ray_tracer_challenge::rays::Ray;
use ray_tracer_challenge::scalar::Scalar;
use ray_tracer_challenge::shapes::{Plane, Shape, Sphere};
use ray_tracer_challenge::tuples::Tuple;

fn s(x: f64) -> Scalar {
    Scalar::from_raw((x * 1_000_000_000.0).round() as i64)
}

fn point(x: f64, y: f64, z: f64) -> Tuple {
    Tuple::point(s(x), s(y), s(z))
}

fn vector(x: f64, y: f64, z: f64) -> Tuple {
    Tuple::vector(s(x), s(y), s(z))
}

#[test]
fn test_the_default_transformation() {
    let shape = Shape::default();
    assert_eq!(shape.transform, Matrix4::default());
}

#[test]
fn shapes_test_assigning_a_transformation() {
    let mut shape = Shape::default();
    shape.transform = Matrix4::translation(s(2.0), s(3.0), s(4.0));
    assert_eq!(shape.transform, Matrix4::translation(s(2.0), s(3.0), s(4.0)));
}

#[test]
fn shapes_test_the_default_material() {
    let shape = Shape::default();
    assert_eq!(shape.material, Material::default());
}

#[test]
fn test_assigning_a_material() {
    let mut shape = Shape::default();
    let mut m = Material::default();
    m.ambient = s(1.0);
    shape.material = m;
    assert_eq!(shape.material, m);
}

#[test]
fn shapes_test_a_spheres_default_transformation() {
    let sphere = Sphere::new();
    assert_eq!(sphere.transform, Matrix4::default());
}

#[test]
fn shapes_test_changing_a_spheres_transformation() {
    let mut sphere = Sphere::new();
    let t = Matrix4::translation(s(2.0), s(3.0), s(4.0));
    sphere.transform = t;
    assert_eq!(sphere.transform, t);
}

#[test]
fn shapes_test_a_sphere_has_a_default_material() {
    let sphere = Sphere::new();
    assert_eq!(sphere.material, Material::default());
}

#[test]
fn shapes_test_a_sphere_may_be_assigned_a_material() {
    let mut sphere = Sphere::new();
    let m = Material::new(
        Tuple::color(s(2.0), s(0.0), s(5.0)),
        s(2.0),
        s(3.0),
        s(4.0),
        s(5.0),
        s(0.0),
    );
    sphere.material = m;
    assert_eq!(sphere.material, m);
}

#[test]
fn shapes_test_the_normal_on_a_sphere_at_a_point_on_the_x_axis() {
    let sphere = Sphere::new();
    let n = sphere.normal_at(point(1.0, 0.0, 0.0));
    assert_eq!(n, vector(1.0, 0.0, 0.0));
}

#[test]
fn shapes_test_the_normal_on_a_sphere_at_a_point_on_the_y_axis() {
    let sphere = Sphere::new();
    let n = sphere.normal_at(point(0.0, 1.0, 0.0));
    assert_eq!(n, vector(0.0, 1.0, 0.0));
}

#[test]
fn shapes_test_the_normal_on_a_sphere_at_a_point_onn_the_z_axis() {
    let sphere = Sphere::new();
    let n = sphere.normal_at(point(0.0, 0.0, 1.0));
    assert_eq!(n, vector(0.0, 0.0, 1.0));
}

#[test]
fn shapes_test_the_normal_on_a_sphere_at_a_non_axial_point() {
    let sphere = Sphere::new();
    let c = 3f64.sqrt() / 3.0;
    let n = sphere.normal_at(point(c, c, c));
    assert_eq!(n, vector(c, c, c))
}

#[test]
fn shapes_test_the_normal_is_a_normalized_vector() {
    let sphere = Sphere::new();
    let c = 3f64.sqrt() / 3.0;
    let n = sphere.normal_at(point(c, c, c));
    assert_eq!(n, n.normalize());
}

#[test]
fn shapes_test_computing_the_normal_on_a_translated_sphere() {
    let mut sphere = Sphere::new();
    sphere.transform = Matrix4::translation(s(0.0), s(1.0), s(0.0));
    let n = sphere.normal_at(point(0.0, 1.70711, -0.70711));
    assert_eq!(n, vector(0.0, 0.70711, -0.70711))
}

#[test]
fn shapes_test_computing_the_normal_on_a_scaled_sphere() {
    let mut sphere = Sphere::new();
    sphere.transform = Matrix4::scaling(s(1.0), s(0.5), s(1.0));
    let n = sphere.normal_at(point(0.0, 2f64.sqrt() / 2.0, -(2f64.sqrt()) / 2.0));
    assert_eq!(n, vector(0.0, 0.97014, -0.24254));
}

#[test]
fn shapes_test_a_ray_intersects_a_sphere_at_two_points() {
    let r = Ray::new(point(0.0, 0.0, -5.0), vector(0.0, 0.0, 1.0));
    let sphere = Sphere::new();
    let xs = sphere.intersect(&r);
    assert_eq!(xs.len(), 2);
    assert_eq!(xs[0].t, s(4.0));
    assert_eq!(xs[1].t, s(6.0));
}

#[test]
fn shapes_test_a_ray_intersects_a_sphere_at_a_tangent() {
    let r = Ray::new(point(0.0, 1.0, -5.0), vector(0.0, 0.0, 1.0));
    let sphere = Sphere::new();
    let xs = sphere.intersect(&r);
    assert_eq!(xs.len(), 2);
    assert_eq!(xs[0].t, s(5.0));
    assert_eq!(xs[1].t, s(5.0));
}

#[test]
fn shapes_test_a_ray_misses_a_sphere() {
    let r = Ray::new(point(0.0, 2.0, -5.0), vector(0.0, 0.0, 1.0));
    let sphere = Sphere::new();
    let xs = sphere.intersect(&r);
    assert_eq!(xs.len(), 0);
}

#[test]
fn shapes_test_a_ray_originates_inside_a_sphere() {
    let r = Ray::new(point(0.0, 0.0, 0.0), vector(0.0, 0.0, 1.0));
    let sphere = Sphere::new();
    let xs = sphere.intersect(&r);
    assert_eq!(xs.len(), 2);
    assert_eq!(xs[0].t, s(-1.0));
    assert_eq!(xs[1].t, s(1.0));
}

#[test]
fn shapes_test_a_sphere_is_behind_a_ray() {
    let r = Ray::new(point(0.0, 0.0, 5.0), vector(0.0, 0.0, 1.0));
    let sphere = Sphere::new();
    let xs = sphere.intersect(&r);
    assert_eq!(xs.len(), 2);
    assert_eq!(xs[0].t, s(-6.0));
    assert_eq!(xs[1].t, s(-4.0));
}

#[test]
fn shapes_test_intersect_sets_the_object_on_the_intersection() {
    let r = Ray::new(point(0.0, 0.0, -5.0), vector(0.0, 0.0, 1.0));
    let sphere = Sphere::new();
    let xs = sphere.intersect(&r);
    assert_eq!(xs.len(), 2);
    assert_eq!(xs[0].object, sphere.clone());
    assert_eq!(xs[1].object, sphere.clone());
}

#[test]
fn shapes_test_intersecting_a_scaled_sphere_with_a_ray() {
    let r = Ray::new(point(0.0, 0.0, -5.0), vector(0.0, 0.0, 1.0));
    let mut sphere = Sphere::new();
    sphere.transform = Matrix4::scaling(s(2.0), s(2.0), s(2.0));
    let xs = sphere.intersect(&r);
    assert_eq!(xs.len(), 2);
    assert_eq!(xs[0].t, s(3.0));
    assert_eq!(xs[1].t, s(7.0));
}

#[test]
fn shapes_test_intersecting_a_translated_sphere_with_a_ray() {
    let r = Ray::new(point(0.0, 0.0, -5.0), vector(0.0, 0.0, 1.0));
    let mut sphere = Sphere::new();
    sphere.transform = Matrix4::translation(s(5.0), s(0.0), s(0.0));
    let xs = sphere.intersect(&r);
    assert_eq!(xs.len(), 0);
}

#[test]
fn test_the_normal_of_a_plane_is_constant_everywhere() {
    let p = Plane::new();
    let normal = vector(0.0, 1.0, 0.0);
    assert_eq!(p.local_normal_at(point(0.0, 0.0, 0.0)), normal);
    assert_eq!(p.local_normal_at(point(10.0, 0.0, -10.0)), normal);
    assert_eq!(p.local_normal_at(point(-5.0, 0.0, 150.0)), normal);
}

#[test]
fn test_intersect_with_a_ray_parallel_to_the_plane() {
    let p = Plane::new();
    let r = Ray::new(point(0.0, 10.0, 0.0), vector(0.0, 0.0, 1.0));
    let xs = p.local_intersect(r);
    assert!(xs.is_empty());
}

#[test]
fn test_intersect_with_a_coplanar_ray() {
    let p = Plane::new();
    let r = Ray::new(point(0.0, 0.0, 0.0), vector(0.0, 0.0, 1.0));
    let xs = p.local_intersect(r);
    assert!(xs.is_empty());
}

#[test]
fn test_a_ray_intersecting_a_plane_from_above() {
    let p = Plane::new();
    let r = Ray::new(point(0.0, 1.0, 0.0), vector(0.0, -1.0, 0.0));
    let xs = p.local_intersect(r);
    assert_eq!(xs.len(), 1);
    assert_eq!(xs[0].t, s(1.0));
    assert_eq!(xs[0].object, p);
}

#[test]
fn test_a_ray_intersecting_a_plane_from_below() {
    let p = Plane::new();
    let r = Ray::new(point(0.0, -1.0, 0.0), vector(0.0, 1.0, 0.0));
    let xs = p.local_intersect(r);
    assert_eq!(xs.len(), 1);
    assert_eq!(xs[0].t, s(1.0));
    assert_eq!(xs[0].object, p);
}
