use tracer::fx::Scalar;
use tracer::matrix::Matrix4;
use tracer::point::{point, vector, Point};
use tracer::ray::Ray;
use tracer::shape::Shape;
use tracer::world::World;

const U: i64 = 1_000_000;

fn s(v: i64) -> Scalar {
    Scalar::from_micros(v)
}

fn pt(x: i64, y: i64, z: i64) -> Point {
    point(s(x), s(y), s(z))
}

fn vc(x: i64, y: i64, z: i64) -> Point {
    vector(s(x), s(y), s(z))
}

fn lone_sphere() -> World {
    let mut world = World::empty();
    world.add_shape(Shape::sphere());
    world
}

#[test]
fn test_ray_creation() {
    let ray = Ray { origin: pt(U, 2 * U, 3 * U), direction: vc(4 * U, 5 * U, 6 * U) };
    assert!(ray.origin.equal(&pt(U, 2 * U, 3 * U)));
    assert!(ray.direction.equal(&vc(4 * U, 5 * U, 6 * U)));
}

#[test]
fn test_ray_position() {
    let ray = Ray { origin: pt(2 * U, 3 * U, 4 * U), direction: vc(U, 0, 0) };
    assert!(ray.position(s(0)).equal(&ray.origin));
    assert!(ray.position(s(U)).equal(&pt(3 * U, 3 * U, 4 * U)));
    assert!(ray.position(s(-U)).equal(&pt(U, 3 * U, 4 * U)));
    assert!(ray.position(s(2_500_000)).equal(&pt(4_500_000, 3 * U, 4 * U)));
}

#[test]
fn test_ray_intersects_shape() {
    // a sphere at the origin: intersections at four and six units, in order
    let ray = Ray { origin: pt(0, 0, -5 * U), direction: vc(0, 0, U) };
    let world = lone_sphere();
    let xs = ray.intersect(&world, 0);
    assert_eq!(xs.len(), 2);
    assert_eq!(xs[0].t, s(4 * U));
    assert_eq!(xs[1].t, s(6 * U));
}

#[test]
fn test_ray_intersects_shape_tangent() {
    let ray = Ray { origin: pt(0, U, -5 * U), direction: vc(0, 0, U) };
    let world = lone_sphere();
    let xs = ray.intersect(&world, 0);
    assert_eq!(xs.len(), 2);
    assert_eq!(xs[0].t, s(5 * U));
    assert_eq!(xs[1].t, s(5 * U));
}

#[test]
fn test_ray_misses_shape() {
    let ray = Ray { origin: pt(0, 2 * U, -5 * U), direction: vc(0, 0, U) };
    let world = lone_sphere();
    let xs = ray.intersect(&world, 0);
    assert_eq!(xs.len(), 0);
}

#[test]
fn test_ray_originates_inside_of_shape() {
    let ray = Ray { origin: pt(0, 0, 0), direction: vc(0, 0, U) };
    let world = lone_sphere();
    let xs = ray.intersect(&world, 0);
    assert_eq!(xs.len(), 2);
    assert_eq!(xs[0].t, s(-U));
    assert_eq!(xs[1].t, s(U));
}

#[test]
fn test_ray_ahead_of_shape() {
    let ray = Ray { origin: pt(0, 0, 5 * U), direction: vc(0, 0, U) };
    let world = lone_sphere();
    let xs = ray.intersect(&world, 0);
    assert_eq!(xs.len(), 2);
    assert_eq!(xs[0].t, s(-6 * U));
    assert_eq!(xs[1].t, s(-4 * U));
}

#[test]
fn test_ray_transform() {
    let r = Ray { origin: pt(U, 2 * U, 3 * U), direction: vc(0, U, 0) };
    let m = Matrix4::translation(s(3 * U), s(4 * U), s(5 * U));
    let r2 = r.transform(&m);
    assert!(r2.origin.equal(&pt(4 * U, 6 * U, 8 * U)));
    assert!(r2.direction.equal(&vc(0, U, 0)));
}

#[test]
fn test_ray_scale() {
    let r = Ray { origin: pt(U, 2 * U, 3 * U), direction: vc(0, U, 0) };
    let m = Matrix4::scaling(s(2 * U), s(3 * U), s(4 * U));
    let r2 = r.transform(&m);
    assert!(r2.origin.equal(&pt(2 * U, 6 * U, 12 * U)));
    assert!(r2.direction.equal(&vc(0, 3 * U, 0)));
}

#[test]
fn test_ray_intersects_scaled_shape() {
    let r = Ray { origin: pt(0, 0, -5 * U), direction: vc(0, 0, U) };
    let mut world = World::empty();
    let mut shape = Shape::sphere();
    shape.transform = Matrix4::scaling(s(2 * U), s(2 * U), s(2 * U));
    world.add_shape(shape);
    let xs = r.intersect(&world, 0);
    assert_eq!(xs.len(), 2);
    assert_eq!(xs[0].t, s(3 * U));
    assert_eq!(xs[1].t, s(7 * U));
}

#[test]
fn test_ray_misses_translated_shape() {
    // a sphere pushed five units along x is out of this ray's path
    let r = Ray { origin: pt(0, 0, -5 * U), direction: vc(0, 0, U) };
    let mut world = World::empty();
    let mut shape = Shape::sphere();
    shape.transform = Matrix4::translation(s(5 * U), s(0), s(0));
    world.add_shape(shape);
    let xs = r.intersect(&world, 0);
    assert_eq!(xs.len(), 0);
}

#[test]
fn test_ray_intersect_world() {
    let r = Ray { origin: pt(0, 0, -5 * U), direction: vc(0, 0, U) };
    let world = World::new();
    let intersections = r.intersect_world(&world);
    assert_eq!(intersections.len(), 4);
    assert_eq!(intersections[0].t, s(4 * U));
    assert_eq!(intersections[1].t, s(4_500_000));
    assert_eq!(intersections[2].t, s(5_500_000));
    assert_eq!(intersections[3].t, s(6 * U));
}
