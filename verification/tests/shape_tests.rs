use tracer::fx::Scalar;
use tracer::matrix::Matrix4;
use tracer::point::{point, vector, Point};
use tracer::ray::Ray;
use tracer::shape::Shape;
use tracer::world::World;

const U: i64 = 1_000_000;

fn s(v: i64) -> Scalar {
    Scalar::from_micros(v)
}

fn pt(x: i64, y: i64, z: i64) -> Point {
    point(s(x), s(y), s(z))
}

fn vc(x: i64, y: i64, z: i64) -> Point {
    vector(s(x), s(y), s(z))
}

#[test]
fn test_shape() {
    let shape = Shape::sphere();
    assert!(shape.transform.equal(&Matrix4::identity()));
}

#[test]
fn test_shape_with_non_default_transform() {
    let t = Matrix4::translation(s(2 * U), s(3 * U), s(4 * U));
    let mut shape = Shape::sphere();
    shape.transform = Matrix4::translation(s(2 * U), s(3 * U), s(4 * U));
    assert!(shape.transform.equal(&t));
}

#[test]
fn test_shape_normal_at() {
    let mut world = World::empty();
    world.add_shape(Shape::sphere());
    assert!(world.normal_at(0, &pt(U, 0, 0)).equal(&vc(U, 0, 0)));
    assert!(world.normal_at(0, &pt(0, U, 0)).equal(&vc(0, U, 0)));
    assert!(world.normal_at(0, &pt(0, 0, U)).equal(&vc(0, 0, U)));
    // sqrt(3)/3 of a unit in each component stays unit length
    let sqrt_3_over_3 = 577_350;
    let p = pt(sqrt_3_over_3, sqrt_3_over_3, sqrt_3_over_3);
    let v = vc(sqrt_3_over_3, sqrt_3_over_3, sqrt_3_over_3);
    assert!(world.normal_at(0, &p).equal(&v));
    assert!(v.equal(&v.normalize()));
}

#[test]
fn test_shape_normal_at_with_transformation() {
    let mut world = World::empty();
    let mut shape = Shape::sphere();
    shape.transform = Matrix4::translation(s(0), s(U), s(0));
    world.add_shape(shape);
    assert!(world.normal_at(0, &pt(0, 1_707_110, -707_110)).equal(&vc(0, 707_107, -707_107)));

    let mut world2 = World::empty();
    let mut shape2 = Shape::sphere();
    // scaling by (1, 1/2, 1) after a rotation about z by a tenth of a turn
    shape2.transform = Matrix4::scaling(s(U), s(500_000), s(U)).multiply(&Matrix4::rotation_z(
        s(809_017),
        s(587_785),
    ));
    world2.add_shape(shape2);
    assert!(world2.normal_at(0, &pt(0, 707_107, -707_107)).equal(&vc(0, 970_140, -242_540)));
}

#[test]
fn test_plane_normal_at() {
    let mut world = World::empty();
    world.add_shape(Shape::plane());
    assert!(world.normal_at(0, &pt(0, 0, 0)).equal(&vc(0, U, 0)));
}

#[test]
fn test_plane_intersection() {
    let mut world = World::empty();
    world.add_shape(Shape::plane());
    let r = Ray { origin: pt(0, 10 * U, 0), direction: vc(0, 0, U) };
    assert_eq!(r.intersect(&world, 0).len(), 0);
}

#[test]
fn test_plane_coplanar() {
    let mut world = World::empty();
    world.add_shape(Shape::plane());
    let r = Ray { origin: pt(0, 0, 0), direction: vc(0, 0, U) };
    assert_eq!(r.intersect(&world, 0).len(), 0);
}

#[test]
fn test_plane_does_intersect() {
    let mut world = World::empty();
    world.add_shape(Shape::plane());
    let r = Ray { origin: pt(0, U, 0), direction: vc(0, -U, 0) };
    let xs = r.intersect(&world, 0);
    assert_eq!(xs.len(), 1);
    assert_eq!(xs[0].t, s(U));
    assert_eq!(xs[0].object, 0);
}

#[test]
fn test_cube_intersection() {
    let mut world = World::empty();
    world.add_shape(Shape::cube());
    let cases: [(i64, i64, i64, i64, i64, i64); 6] = [
        (5 * U, 500_000, 0, -U, 0, 0),
        (-5 * U, 500_000, 0, U, 0, 0),
        (500_000, -5 * U, 0, 0, U, 0),
        (500_000, 5 * U, 0, 0, -U, 0),
        (500_000, 0, -5 * U, 0, 0, U),
        (500_000, 0, 5 * U, 0, 0, -U),
    ];
    for (ox, oy, oz, dx, dy, dz) in cases.iter() {
        let ray = Ray { origin: pt(*ox, *oy, *oz), direction: vc(*dx, *dy, *dz) };
        let xs = ray.intersect(&world, 0);
        assert_eq!(xs.len(), 2);
        assert_eq!(xs[0].t, s(4 * U));
        assert_eq!(xs[0].object, 0);
        assert_eq!(xs[1].t, s(6 * U));
        assert_eq!(xs[1].object, 0);
    }
    let inside = Ray { origin: pt(0, 500_000, 0), direction: vc(0, 0, U) };
    let xs = inside.intersect(&world, 0);
    assert_eq!(xs.len(), 2);
    assert_eq!(xs[0].t, s(-U));
    assert_eq!(xs[1].t, s(U));
}

#[test]
fn test_cube_intersection_misses() {
    let mut world = World::empty();
    world.add_shape(Shape::cube());
    let ray = Ray { origin: pt(-2 * U, 0, 0), direction: vc(267_300, 534_500, 801_800) };
    assert_eq!(ray.intersect(&world, 0).len(), 0);
}

#[test]
fn test_new_triangle() {
    let shape = Shape::triangle(pt(0, U, 0), pt(-U, 0, 0), pt(U, 0, 0));
    assert!(shape.intersectable.e1.equal(&vc(-U, -U, 0)));
    assert!(shape.intersectable.e2.equal(&vc(U, -U, 0)));
    assert!(shape.intersectable.normal.equal(&vc(0, 0, U)));
}

#[test]
fn test_triangle_intersection_misses() {
    let mut world = World::empty();
    world.add_shape(Shape::triangle(pt(0, U, 0), pt(-U, 0, 0), pt(U, 0, 0)));
    let ray1 = Ray { origin: pt(0, -U, -2 * U), direction: vc(0, U, 0) };
    let ray2 = Ray { origin: pt(U, U, -2 * U), direction: vc(0, 0, U) };
    let ray3 = Ray { origin: pt(0, -U, -2 * U), direction: vc(0, 0, U) };
    assert_eq!(ray1.intersect(&world, 0).len(), 0);
    assert_eq!(ray2.intersect(&world, 0).len(), 0);
    assert_eq!(ray3.intersect(&world, 0).len(), 0);
}

#[test]
fn test_triangle_intersection_hits() {
    let mut world = World::empty();
    world.add_shape(Shape::triangle(pt(0, U, 0), pt(-U, 0, 0), pt(U, 0, 0)));
    let ray = Ray { origin: pt(0, 500_000, -2 * U), direction: vc(0, 0, U) };
    let xs = ray.intersect(&world, 0);
    assert_eq!(xs.len(), 1);
    assert_eq!(xs[0].t, s(2 * U));
}

#[test]
fn test_group_intersect_misses() {
    let mut world = World::empty();
    world.add_shape(Shape::group());
    let ray = Ray { origin: pt(0, 0, 0), direction: vc(0, 0, U) };
    assert_eq!(ray.intersect(&world, 0).len(), 0);
}

#[test]
fn test_group_intersect_hits() {
    let mut world = World::empty();
    let g = world.add_shape(Shape::group());
    world.add_group(g, Shape::sphere());
    let mut s2 = Shape::sphere();
    s2.transform = Matrix4::translation(s(0), s(0), s(-3 * U));
    world.add_group(g, s2);
    let mut s3 = Shape::sphere();
    s3.transform = Matrix4::translation(s(5 * U), s(0), s(0));
    world.add_group(g, s3);
    let ray = Ray { origin: pt(0, 0, -5 * U), direction: vc(0, 0, U) };
    assert_eq!(ray.intersect(&world, g).len(), 4);
}

#[test]
fn test_group_local_to_world_space() {
    let mut world = World::empty();
    let mut g2 = Shape::group();
    g2.transform = Matrix4::scaling(s(2 * U), s(2 * U), s(2 * U));
    let g2_idx = world.add_shape(g2);
    let mut g1 = Shape::group();
    g1.transform = Matrix4::rotation_y(s(0), s(U));
    let g1_idx = world.add_group(g2_idx, g1);
    let mut sphere = Shape::sphere();
    sphere.transform = Matrix4::translation(s(5 * U), s(0), s(0));
    let s_idx = world.add_group(g1_idx, sphere);
    assert!(world.world_to_object(s_idx, &pt(-2 * U, 0, -10 * U)).equal(&pt(0, 0, -U)));
}

#[test]
fn test_group_local_to_world_normal() {
    let mut world = World::empty();
    let mut g1 = Shape::group();
    g1.transform = Matrix4::rotation_y(s(0), s(U));
    let g1_idx = world.add_shape(g1);
    let mut g2 = Shape::group();
    g2.transform = Matrix4::scaling(s(U), s(2 * U), s(3 * U));
    let g2_idx = world.add_group(g1_idx, g2);
    let mut sphere = Shape::sphere();
    sphere.transform = Matrix4::translation(s(5 * U), s(0), s(0));
    let s_idx = world.add_group(g2_idx, sphere);
    let sqrt_3_over_3 = 577_350;
    let v = vc(sqrt_3_over_3, sqrt_3_over_3, sqrt_3_over_3);
    assert!(world.normal_to_world(s_idx, &v).equal(&vc(285_710, 428_570, -857_140)));
}

#[test]
fn test_glass_sphere_material() {
    let shape = Shape::glass_sphere();
    assert_eq!(shape.material.transparency, s(U));
    assert_eq!(shape.material.refractive_index, s(U));
    assert_eq!(shape.material.shininess, 300);
    assert_eq!(shape.material.diffuse, s(0));
}
