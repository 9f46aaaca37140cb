use ray_tracer_challenge::materials::Material;
use ray_tracer_challenge::matrices::Matrix4;
use ray_tracer_challenge::scalar::Scalar;
use ray_tracer_challenge::shapes::Sphere;
use ray_tracer_challenge::tuples::Tuple;

fn s(x: f64) -> Scalar {
    Scalar::from_raw((x * 1_000_000_000.0).round() as i64)
}

fn point(x: f64, y: f64, z: f64) -> Tuple {
    Tuple::point(s(x), s(y), s(z))
}

fn vector(x: f64, y: f64, z: f64) -> Tuple {
    Tuple::vector(s(x), s(y), s(z))
}

#[test]
fn spheres_test_a_spheres_default_transformation() {
    let sphere = Sphere::new();
    assert_eq!(sphere.transform, Matrix4::default());
}

#[test]
fn spheres_test_changing_a_spheres_transformation() {
    let mut sphere = Sphere::new();
    let t = Matrix4::translation(s(2.0), s(3.0), s(4.0));
    sphere.transform = t;
    assert_eq!(sphere.transform, t);
}

#[test]
fn spheres_test_a_sphere_has_a_default_material() {
    let sphere = Sphere::new();
    assert_eq!(sphere.material, Material::default());
}

#[test]
fn spheres_test_a_sphere_may_be_assigned_a_material() {
    let mut sphere = Sphere::new();
    let m = Material::new(
        Tuple::color(s(2.0), s(0.0), s(5.0)),
        s(2.0),
        s(3.0),
        s(4.0),
        s(5.0),
        s(0.0),
    );
    sphere.material = m;
    assert_eq!(sphere.material, m);
}

#[test]
fn spheres_test_the_normal_on_a_sphere_at_a_point_on_the_x_axis() {
    let sphere = Sphere::new();
    let n = sphere.normal_at(point(1.0, 0.0, 0.0));
    assert_eq!(n, vector(1.0, 0.0, 0.0));
}

#[test]
fn spheres_test_the_normal_on_a_sphere_at_a_point_on_the_y_axis() {
    let sphere = Sphere::new();
    let n = sphere.normal_at(point(0.0, 1.0, 0.0));
    assert_eq!(n, vector(0.0, 1.0, 0.0));
}

#[test]
fn spheres_test_the_normal_on_a_sphere_at_a_point_onn_the_z_axis() {
    let sphere = Sphere::new();
    let n = sphere.normal_at(point(0.0, 0.0, 1.0));
    assert_eq!(n, vector(0.0, 0.0, 1.0));
}

#[test]
fn spheres_test_the_normal_on_a_sphere_at_a_non_axial_point() {
    let sphere = Sphere::new();
    let c = 3f64.sqrt() / 3.0;
    let n = sphere.normal_at(point(c, c, c));
    assert_eq!(n, vector(c, c, c))
}

#[test]
fn spheres_test_the_normal_is_a_normalized_vector() {
    let sphere = Sphere::new();
    let c = 3f64.sqrt() / 3.0;
    let n = sphere.normal_at(point(c, c, c));
    assert_eq!(n, n.normalize());
}

#[test]
fn spheres_test_computing_the_normal_on_a_translated_sphere() {
    let mut sphere = Sphere::new();
    sphere.transform = Matrix4::translation(s(0.0), s(1.0), s(0.0));
    let n = sphere.normal_at(point(0.0, 1.70711, -0.70711));
    assert_eq!(n, vector(0.0, 0.70711, -0.70711))
}

#[test]
fn spheres_test_computing_the_normal_on_a_scaled_sphere() {
    let mut sphere = Sphere::new();
    sphere.transform = Matrix4::scaling(s(1.0), s(0.5), s(1.0));
    let n = sphere.normal_at(point(0.0, 2f64.sqrt() / 2.0, -(2f64.sqrt()) / 2.0));
    assert_eq!(n, vector(0.0, 0.97014, -0.24254));
}
