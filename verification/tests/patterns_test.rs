use ray_tracer_challenge::matrices::Matrix4;
use ray_tracer_challenge::patterns::{pattern_at_shape, Pattern, PatternKind};
use ray_tracer_challenge::scalar::Scalar;
use ray_tracer_challenge::shapes::Shape;
use ray_tracer_challenge::tuples::Tuple;

fn s(x: f64) -> Scalar {
    Scalar::from_raw((x * 1_000_000_000.0).round() as i64)
}

fn point(x: f64, y: f64, z: f64) -> Tuple {
    Tuple::point(s(x), s(y), s(z))
}

fn white() -> Tuple {
    Tuple::color(s(1.0), s(1.0), s(1.0))
}

fn black() -> Tuple {
    Tuple::color(s(0.0), s(0.0), s(0.0))
}

fn test_pattern() -> Pattern {
    Pattern { kind: PatternKind::TestPattern, ..Pattern::default() }
}

#[test]
fn test_creating_a_stripe_pattern() {
    let pattern = Pattern::stripe(white(), black());
    match pattern.kind {
        PatternKind::Stripe(a, b) => {
            assert_eq!(a, white());
            assert_eq!(b, black());
        }
        _ => assert!(false),
    }
}

#[test]
fn test_a_stripe_pattern_is_constant_in_y() {
    let pattern = Pattern::stripe(white(), black());
    assert_eq!(pattern.color_at(point(0.0, 0.0, 0.0)), white());
    assert_eq!(pattern.color_at(point(0.0, 1.0, 0.0)), white());
    assert_eq!(pattern.color_at(point(0.0, 2.0, 0.0)), white());
}

#[test]
fn test_a_stripe_pattern_is_constant_in_z() {
    let pattern = Pattern::stripe(white(), black());
    assert_eq!(pattern.color_at(point(0.0, 0.0, 0.0)), white());
    assert_eq!(pattern.color_at(point(0.0, 0.0, 1.0)), white());
    assert_eq!(pattern.color_at(point(0.0, 0.0, 2.0)), white());
}

#[test]
fn test_a_stripe_pattern_alternates_in_x() {
    let pattern = Pattern::stripe(white(), black());
    assert_eq!(pattern.color_at(point(0.0, 0.0, 0.0)), white());
    assert_eq!(pattern.color_at(point(0.9, 0.0, 0.0)), white());
    assert_eq!(pattern.color_at(point(1.0, 0.0, 0.0)), black());
    assert_eq!(pattern.color_at(point(-0.1, 0.0, 0.0)), black());
    assert_eq!(pattern.color_at(point(-1.0, 0.0, 0.0)), black());
    assert_eq!(pattern.color_at(point(-1.1, 0.0, 0.0)), white());
}

#[test]
fn test_a_pattern_with_an_object_transform() {
    let mut shape = Shape::default();
    shape.transform = Matrix4::scaling(s(2.0), s(2.0), s(2.0));
    let pattern = test_pattern();
    assert_eq!(
        pattern_at_shape(pattern, shape, point(2.0, 3.0, 4.0)),
        Tuple::color(s(1.0), s(1.5), s(2.0))
    );
}

#[test]
fn test_a_pattern_with_a_pattern_transformation() {
    let shape = Shape::default();
    let mut pattern = test_pattern();
    pattern.transform = Matrix4::scaling(s(2.0), s(2.0), s(2.0));
    assert_eq!(
        pattern_at_shape(pattern, shape, point(2.0, 3.0, 4.0)),
        Tuple::color(s(1.0), s(1.5), s(2.0))
    );
}

#[test]
fn test_a_pattern_with_both_an_object_and_a_pattern_transformation() {
    let mut shape = Shape::default();
    shape.transform = Matrix4::scaling(s(2.0), s(2.0), s(2.0));
    let mut pattern = test_pattern();
    pattern.transform = Matrix4::translation(s(0.5), s(1.0), s(1.5));
    assert_eq!(
        pattern_at_shape(pattern, shape, point(2.5, 3.0, 3.5)),
        Tuple::color(s(0.75), s(0.5), s(0.25))
    );
}

#[test]
fn test_default_pattern_transform() {
    let stripe = Pattern::default();
    assert_eq!(Matrix4::default(), stripe.transform);
}

#[test]
fn patterns_test_assigning_a_transformation() {
    let mut stripe = Pattern::default();
    stripe.transform = Matrix4::translation(s(1.0), s(2.0), s(3.0));
    assert_eq!(Matrix4::translation(s(1.0), s(2.0), s(3.0)), stripe.transform);
}

#[test]
fn test_a_gradient_linearly_interpolates_between_colors() {
    let pattern = Pattern::gradient(white(), black());
    assert_eq!(white(), pattern.color_at(point(0.0, 0.0, 0.0)));
    assert_eq!(
        Tuple::color(s(0.75), s(0.75), s(0.75)),
        pattern.color_at(point(0.25, 0.0, 0.0))
    );
    assert_eq!(
        Tuple::color(s(0.5), s(0.5), s(0.5)),
        pattern.color_at(point(0.5, 0.0, 0.0))
    );
    assert_eq!(
        Tuple::color(s(0.25), s(0.25), s(0.25)),
        pattern.color_at(point(0.75, 0.0, 0.0))
    );
}

#[test]
fn test_a_ring_should_extend_in_both_x_and_z() {
    let pattern = Pattern::ring(white(), black());
    assert_eq!(white(), pattern.color_at(point(0.0, 0.0, 0.0)));
    assert_eq!(black(), pattern.color_at(point(1.0, 0.0, 0.0)));
    assert_eq!(black(), pattern.color_at(point(0.0, 0.0, 1.0)));
    assert_eq!(black(), pattern.color_at(point(0.708, 0.0, 0.708)));
}
