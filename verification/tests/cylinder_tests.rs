use tracer::fx::Scalar;
use tracer::point::{point, vector, Point};
use tracer::ray::Ray;
use tracer::shape::Shape;
use tracer::world::World;

const U: i64 = 1_000_000;

fn s(v: i64) -> Scalar {
    Scalar::from_micros(v)
}

fn pt(x: i64, y: i64, z: i64) -> Point {
    point(s(x), s(y), s(z))
}

fn vc(x: i64, y: i64, z: i64) -> Point {
    vector(s(x), s(y), s(z))
}

fn lone_cylinder() -> World {
    let mut world = World::empty();
    world.add_shape(Shape::cylinder());
    world
}

#[test]
fn test_cylinder_misses() {
    let world = lone_cylinder();
    let ray1 = Ray { origin: pt(U, 0, 0), direction: vc(0, U, 0) };
    let ray2 = Ray { origin: pt(0, 0, 0), direction: vc(0, U, 0) };
    let ray3 = Ray { origin: pt(0, 0, -5 * U), direction: vc(U, U, U) };
    assert_eq!(ray1.intersect(&world, 0).len(), 0);
    assert_eq!(ray2.intersect(&world, 0).len(), 0);
    assert_eq!(ray3.intersect(&world, 0).len(), 0);
}

#[test]
fn test_cylinder_hits() {
    let world = lone_cylinder();
    let tangent = Ray { origin: pt(U, 0, -5 * U), direction: vc(0, 0, U) };
    let xs = tangent.intersect(&world, 0);
    assert_eq!(xs.len(), 2);
    assert_eq!(xs[0].t, s(5 * U));
    assert_eq!(xs[1].t, s(5 * U));

    let through = Ray { origin: pt(0, 0, -5 * U), direction: vc(0, 0, U) };
    let xs = through.intersect(&world, 0);
    assert_eq!(xs.len(), 2);
    assert_eq!(xs[0].t, s(4 * U));
    assert_eq!(xs[1].t, s(6 * U));
}

#[test]
fn test_cylinder_truncated() {
    let mut world = World::empty();
    let mut cylinder = Shape::cylinder();
    cylinder.intersectable.minimum = s(U);
    cylinder.intersectable.maximum = s(2 * U);
    world.add_shape(cylinder);

    let above = Ray { origin: pt(0, 3 * U, -5 * U), direction: vc(0, 0, U) };
    assert_eq!(above.intersect(&world, 0).len(), 0);
    let below = Ray { origin: pt(0, 0, -5 * U), direction: vc(0, 0, U) };
    assert_eq!(below.intersect(&world, 0).len(), 0);
    let within = Ray { origin: pt(0, 1_500_000, -2 * U), direction: vc(0, 0, U) };
    let xs = within.intersect(&world, 0);
    assert_eq!(xs.len(), 2);
    assert_eq!(xs[0].t, s(U));
    assert_eq!(xs[1].t, s(3 * U));
}

#[test]
fn test_cylinder_capped() {
    let mut world = World::empty();
    let mut cylinder = Shape::cylinder();
    cylinder.intersectable.minimum = s(U);
    cylinder.intersectable.maximum = s(2 * U);
    cylinder.intersectable.closed = true;
    world.add_shape(cylinder);

    let through_caps = Ray { origin: pt(0, 3 * U, 0), direction: vc(0, -U, 0) };
    let xs = through_caps.intersect(&world, 0);
    assert_eq!(xs.len(), 2);
    assert_eq!(xs[0].t, s(2 * U));
    assert_eq!(xs[1].t, s(U));
}

#[test]
fn test_cylinder_normals() {
    let mut world = World::empty();
    world.add_shape(Shape::cylinder());
    assert!(world.normal_at(0, &pt(U, 0, 0)).equal(&vc(U, 0, 0)));
    assert!(world.normal_at(0, &pt(0, 5 * U, -U)).equal(&vc(0, 0, -U)));

    let mut capped = Shape::cylinder();
    capped.intersectable.minimum = s(U);
    capped.intersectable.maximum = s(2 * U);
    capped.intersectable.closed = true;
    let idx = world.add_shape(capped);
    assert!(world.normal_at(idx, &pt(0, U, 0)).equal(&vc(0, -U, 0)));
    assert!(world.normal_at(idx, &pt(500_000, 2 * U, 0)).equal(&vc(0, U, 0)));
}
