use tracer::color::Color;
use tracer::fx::Scalar;
use tracer::matrix::Matrix4;
use tracer::patternable::Patternable;
use tracer::point::{point, Point};
use tracer::shape::Shape;

const U: i64 = 1_000_000;

fn s(v: i64) -> Scalar {
    Scalar::from_micros(v)
}

fn pt(x: i64, y: i64, z: i64) -> Point {
    point(s(x), s(y), s(z))
}

fn color(r: i64, g: i64, b: i64) -> Color {
    Color::new(s(r), s(g), s(b))
}

#[test]
fn test_color_at_stripe() {
    let p = Patternable::stripe(Color::white(), Color::black());
    assert_eq!(p.color_at(&pt(0, 0, 0)), Color::white());
    assert_eq!(p.color_at(&pt(0, U, 0)), Color::white());
    assert_eq!(p.color_at(&pt(0, 2 * U, 0)), Color::white());
    assert_eq!(p.color_at(&pt(0, 0, U)), Color::white());
    assert_eq!(p.color_at(&pt(U, 0, 0)), Color::black());
    assert_eq!(p.color_at(&pt(2 * U, 0, 0)), Color::white());
    assert_eq!(p.color_at(&pt(-100_000, 0, 0)), Color::black());
    assert_eq!(p.color_at(&pt(-U, 0, 0)), Color::black());
    assert_eq!(p.color_at(&pt(-2 * U, 0, 0)), Color::white());
}

#[test]
fn test_color_at_object() {
    let mut sphere = Shape::sphere();
    sphere.transform = Matrix4::translation(s(2 * U), s(2 * U), s(2 * U));
    let pattern = Patternable::stripe(Color::black(), Color::white());
    let c = pattern.color_at_object(&sphere, &pt(1_500_000, 0, 0));
    assert_eq!(c, Color::white());
}

#[test]
fn test_color_at_object_with_pattern_transform() {
    let sphere = Shape::sphere();
    let mut pattern = Patternable::stripe(Color::black(), Color::white());
    pattern.transform = Matrix4::translation(s(2 * U), s(2 * U), s(2 * U));
    let c = pattern.color_at_object(&sphere, &pt(1_500_000, 0, 0));
    assert_eq!(c, Color::white());
}

#[test]
fn test_color_at_object_with_both_transforms() {
    let mut sphere = Shape::sphere();
    sphere.transform = Matrix4::translation(s(2 * U), s(2 * U), s(2 * U));
    let mut pattern = Patternable::stripe(Color::black(), Color::white());
    pattern.transform = Matrix4::translation(s(500_000), s(0), s(0));
    let c = pattern.color_at_object(&sphere, &pt(2_500_000, 0, 0));
    assert_eq!(c, Color::black());
}

#[test]
fn test_color_at_gradient() {
    let p = Patternable::gradient(Color::white(), Color::black());
    assert_eq!(p.color_at(&pt(250_000, 0, 0)), color(750_000, 750_000, 750_000));
    assert_eq!(p.color_at(&pt(500_000, 0, 0)), color(500_000, 500_000, 500_000));
    assert_eq!(p.color_at(&pt(750_000, 0, 0)), color(250_000, 250_000, 250_000));
}

#[test]
fn test_color_at_ring() {
    let p = Patternable::ring(Color::white(), Color::black());
    assert_eq!(p.color_at(&pt(0, 0, 0)), Color::white());
    assert_eq!(p.color_at(&pt(U, 0, 0)), Color::black());
    assert_eq!(p.color_at(&pt(0, 0, U)), Color::black());
    assert_eq!(p.color_at(&pt(708_000, 0, 708_000)), Color::black());
}

#[test]
fn test_color_at_checker() {
    // checkers alternate on the nearest whole coordinates
    let p = Patternable::checker(Color::white(), Color::black());
    assert_eq!(p.color_at(&pt(0, 0, 0)), Color::white());
    assert_eq!(p.color_at(&pt(400_000, 0, 0)), Color::white());
    assert_eq!(p.color_at(&pt(600_000, 0, 0)), Color::black());
    assert_eq!(p.color_at(&pt(600_000, 600_000, 0)), Color::white());
}

#[test]
fn test_color_at_blended() {
    let a = Patternable::solid(Color::white());
    let b = Patternable::solid(Color::black());
    let p = Patternable::blended(a, b);
    assert_eq!(p.color_at(&pt(0, 0, 0)), color(500_000, 500_000, 500_000));
}
