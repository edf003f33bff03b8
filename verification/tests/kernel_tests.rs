use tracer::fx::Scalar;
use tracer::matrix::Matrix4;
use tracer::obj_parser::ObjParser;
use tracer::point::{point, vector, Point};
use tracer::shape::{IntersectableType, Shape};
use tracer::world::World;
use tracer::transformation_matrix::TransformationMatrix;
use tracer::utilities::{clamp, equal, max, min};

const U: i64 = 1_000_000;

fn s(v: i64) -> Scalar {
    Scalar::from_micros(v)
}

fn pt(x: i64, y: i64, z: i64) -> Point {
    point(s(x), s(y), s(z))
}

fn vc(x: i64, y: i64, z: i64) -> Point {
    vector(s(x), s(y), s(z))
}

#[test]
fn test_min() {
    assert_eq!(min(&[s(0), s(U)]), s(0));
}

#[test]
fn test_max() {
    assert_eq!(max(&[s(U), s(2 * U)]), s(2 * U));
}

#[test]
fn test_clamp() {
    assert_eq!(clamp(s(3 * U), s(0), s(U)), s(U));
    assert_eq!(clamp(s(-U), s(0), s(U)), s(0));
    assert_eq!(clamp(s(500_000), s(0), s(U)), s(500_000));
}

#[test]
fn test_scalar_sqrt_exact() {
    assert_eq!(s(4 * U).sqrt(), s(2 * U));
    assert_eq!(s(2 * U).sqrt(), s(1_414_213));
    assert_eq!(s(0).sqrt(), s(0));
    assert_eq!(s(-U).sqrt(), s(0));
}

#[test]
fn test_scalar_saturating_division() {
    // division by zero saturates with the dividend's sign
    assert_eq!(s(U).div(s(0)), Scalar::from_micros(i64::MAX));
    assert_eq!(s(-U).div(s(0)), Scalar::from_micros(-i64::MAX));
    assert_eq!(s(0).div(s(0)), s(0));
}

#[test]
fn test_transformation_matrix_new_1() {
    let from = pt(0, 0, 0);
    let to = pt(0, 0, -U);
    let up = vc(0, U, 0);
    let transformation_matrix = TransformationMatrix::new(&from, &to, &up);
    assert!(Matrix4::identity().equal(&transformation_matrix));
}

#[test]
fn test_transformation_matrix_new_2() {
    let from = pt(0, 0, 0);
    let to = pt(0, 0, U);
    let up = vc(0, U, 0);
    let transformation_matrix = TransformationMatrix::new(&from, &to, &up);
    assert!(Matrix4::scaling(s(-U), s(U), s(-U)).equal(&transformation_matrix));
}

#[test]
fn test_transformation_matrix_new_3() {
    let from = pt(0, 0, 8 * U);
    let to = pt(0, 0, 0);
    let up = vc(0, U, 0);
    let transformation_matrix = TransformationMatrix::new(&from, &to, &up);
    assert!(Matrix4::translation(s(0), s(0), s(-8 * U)).equal(&transformation_matrix));
}

#[test]
fn test_ignoring_unrecognized_lines() {
    let text = "There was a young lady named Bright\nwho traveled much faster than light.\nShe set out one day\nin a relative way,\nand came back the previous night.\n";
    assert_eq!(ObjParser::parse(text).vertices.len(), 0);
}

#[test]
fn test_parsing_vertex_data() {
    let text = "v -1 1 0\nv -1.0000 0.5000 0.0000\nv 1 0 0\nv 1 1 0\n";
    let parser = ObjParser::parse(text);
    assert_eq!(parser.vertices.len(), 4);
    assert!(parser.vertices[0].equal(&pt(-U, U, 0)));
    assert!(parser.vertices[1].equal(&pt(-U, 500_000, 0)));
    assert!(parser.vertices[2].equal(&pt(U, 0, 0)));
    assert!(parser.vertices[3].equal(&pt(U, U, 0)));
}

#[test]
fn test_parsing_incomplete_data() {
    let text = "v -1 1";
    let parser = ObjParser::parse(text);
    assert_eq!(parser.vertices.len(), 0);
}

#[test]
fn test_parsing_faces() {
    let text = "v -1 1 0\nv -1 0 0\nv 1 0 0\nv 1 1 0\nf 1 2 3\nf 1 3 4\n";
    let parser = ObjParser::parse(text);
    assert_eq!(parser.vertices.len(), 4);
    assert_eq!(parser.world.shapes.len(), 3);
    assert_eq!(
        parser.world.shapes[1].intersectable.intersectable_type,
        IntersectableType::Triangle
    );
    assert!(parser.world.shapes[1].intersectable.p1.equal(&pt(-U, U, 0)));
    assert!(parser.world.shapes[1].intersectable.p2.equal(&pt(-U, 0, 0)));
    assert!(parser.world.shapes[1].intersectable.p3.equal(&pt(U, 0, 0)));
    assert_eq!(parser.world.shapes[1].parent, Some(0));
    assert_eq!(parser.world.shapes[0].intersectable.children.len(), 2);
}

#[test]
fn test_parsing_face_with_slash_references() {
    let text = "v -1 1 0\nv -1 0 0\nv 1 0 0\nf 1/7/9 2/8/9 3/9/9\n";
    let parser = ObjParser::parse(text);
    assert_eq!(parser.world.shapes.len(), 2);
    assert!(parser.world.shapes[1].intersectable.p1.equal(&pt(-U, U, 0)));
}

#[test]
fn test_parsing_negative_fraction() {
    let text = "v -0.25 0 1.5\n";
    let parser = ObjParser::parse(text);
    assert_eq!(parser.vertices.len(), 1);
    assert!(parser.vertices[0].equal(&pt(-250_000, 0, 1_500_000)));
}

#[test]
fn test_unit_normal_on_transformed_shapes() {
    // every surface normal comes back unit length, within tolerance
    let mut world = World::empty();
    let mut a = Shape::sphere();
    a.transform = Matrix4::scaling(s(U), s(500_000), s(U));
    world.add_shape(a);
    let mut b = Shape::cube();
    b.transform = Matrix4::translation(s(2 * U), s(-U), s(3 * U));
    world.add_shape(b);
    let n1 = world.normal_at(0, &pt(0, 707_107, -707_107));
    assert!(equal(n1.magnitude(), s(U)));
    assert!(equal(n1.w, s(0)));
    let n2 = world.normal_at(1, &pt(2_400_000, -900_000, 2_500_000));
    assert!(equal(n2.magnitude(), s(U)));
    assert!(equal(n2.w, s(0)));
}

#[test]
fn test_world_to_object_translation_round_trip() {
    // a pure translation carried in and back out returns the point
    let mut world = World::empty();
    let mut shape = Shape::sphere();
    shape.transform = Matrix4::translation(s(5 * U), s(-3 * U), s(2 * U));
    world.add_shape(shape);
    let p = pt(1_234_567, -987_654, 42);
    let local = world.world_to_object(0, &p);
    let back = world.shapes[0].transform.multiply_point(&local);
    assert_eq!(back, p);
}

#[test]
fn test_scalar_floor_and_round() {
    assert_eq!(s(2_500_000).floor(), s(2 * U));
    assert_eq!(s(-2_500_000).floor(), s(-3 * U));
    assert_eq!(s(2_500_000).floor_units(), 2);
    assert_eq!(s(-2_500_000).floor_units(), -3);
    assert_eq!(s(2_500_000).round_units(), 3);
    assert_eq!(s(-2_500_000).round_units(), -3);
    assert_eq!(s(2_400_000).frac(), s(400_000));
    assert_eq!(s(-2_400_000).frac(), s(600_000));
    assert_eq!(Scalar::from_units(3), s(3 * U));
}
