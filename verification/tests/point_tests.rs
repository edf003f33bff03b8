use tracer::fx::Scalar;
use tracer::point::{empty_point, empty_vector, point, vector, Point};
use tracer::utilities::equal;

const U: i64 = 1_000_000;

fn s(v: i64) -> Scalar {
    Scalar::from_micros(v)
}

fn pt(x: i64, y: i64, z: i64) -> Point {
    point(s(x), s(y), s(z))
}

fn vc(x: i64, y: i64, z: i64) -> Point {
    vector(s(x), s(y), s(z))
}

#[test]
fn test_point() {
    let a = Point { x: s(4_300_000), y: s(-4_200_000), z: s(3_100_000), w: s(U) };
    assert!(equal(a.x, s(4_300_000)));
    assert!(equal(a.y, s(-4_200_000)));
    assert!(equal(a.z, s(3_100_000)));
    assert!(equal(a.w, s(U)));
    assert!(a.is_point());
    assert!(!a.is_vector());
}

#[test]
fn test_vector() {
    let a = Point { x: s(4_300_000), y: s(-4_200_000), z: s(3_100_000), w: s(0) };
    assert!(equal(a.x, s(4_300_000)));
    assert!(equal(a.y, s(-4_200_000)));
    assert!(equal(a.z, s(3_100_000)));
    assert!(equal(a.w, s(0)));
    assert!(!a.is_point());
    assert!(a.is_vector());
}

#[test]
fn test_new_point() {
    let a = empty_point();
    assert!(equal(a.x, s(0)));
    assert!(equal(a.y, s(0)));
    assert!(equal(a.z, s(0)));
    assert!(equal(a.w, s(U)));
    assert!(a.is_point());
    assert!(!a.is_vector());
}

#[test]
fn test_new_vector() {
    let a = empty_vector();
    assert!(equal(a.x, s(0)));
    assert!(equal(a.y, s(0)));
    assert!(equal(a.z, s(0)));
    assert!(equal(a.w, s(0)));
    assert!(!a.is_point());
    assert!(a.is_vector());
}

#[test]
fn test_vector_equality() {
    let a = empty_vector();
    let b = empty_vector();
    assert!(a.equal(&b));
}

#[test]
fn test_point_equality() {
    let a = empty_point();
    let b = empty_point();
    assert!(a.equal(&b));
}

#[test]
fn test_add_vector_to_vector() {
    let a = vc(3 * U, -2 * U, 5 * U);
    let b = vc(-2 * U, 3 * U, U);
    let sum = a.add(&b);
    assert!(sum.equal(&vc(U, U, 6 * U)));
    assert!(equal(sum.w, s(0)));
}

#[test]
fn test_add_vector_to_point() {
    let a = vc(3 * U, -2 * U, 5 * U);
    let b = pt(-2 * U, 3 * U, U);
    let sum = a.add(&b);
    assert!(sum.equal(&pt(U, U, 6 * U)));
    assert!(equal(sum.w, s(U)));
}

#[test]
fn test_subtract_point_from_point() {
    let a = pt(3 * U, 2 * U, U);
    let b = pt(5 * U, 6 * U, 7 * U);
    let diff = a.sub(&b);
    assert!(diff.equal(&vc(-2 * U, -4 * U, -6 * U)));
    assert!(equal(diff.w, s(0)));
}

#[test]
fn test_subtract_vector_from_point() {
    let a = pt(3 * U, 2 * U, U);
    let b = vc(5 * U, 6 * U, 7 * U);
    let diff = a.sub(&b);
    assert!(diff.equal(&pt(-2 * U, -4 * U, -6 * U)));
    assert!(equal(diff.w, s(U)));
}

#[test]
fn test_negative() {
    let v = vc(U, -2 * U, 3 * U);
    assert!(v.negative().equal(&vc(-U, 2 * U, -3 * U)));
}

#[test]
fn test_vector_multiply_scalar() {
    let a = vc(3 * U, 2 * U, U);
    let product = a.multiply_scalar(s(2 * U));
    assert!(product.equal(&vc(6 * U, 4 * U, 2 * U)));
}

#[test]
fn test_vector_divide_scalar() {
    let a = vc(3 * U, 2 * U, U);
    let product = a.divide_scalar(s(2 * U));
    assert!(product.equal(&vc(1_500_000, U, 500_000)));
}

#[test]
fn test_magnitude() {
    let a = vc(-U, -2 * U, -3 * U);
    // sqrt(14) = 3.741657...
    assert!(equal(a.magnitude(), s(3_741_657)));
}

#[test]
fn test_normalize() {
    let a = vc(U, 2 * U, 3 * U);
    let n = a.normalize();
    // 1/sqrt(14), 2/sqrt(14), 3/sqrt(14)
    assert!(n.equal(&vc(267_261, 534_522, 801_783)));
}

#[test]
fn test_dot_product() {
    let a = vc(U, 2 * U, 3 * U);
    let b = vc(2 * U, 3 * U, 4 * U);
    assert!(equal(a.dot(&b), s(20 * U)));
}

#[test]
fn test_cross_product() {
    let a = vc(U, 2 * U, 3 * U);
    let b = vc(2 * U, 3 * U, 4 * U);
    assert!(a.cross(&b).equal(&vc(-U, 2 * U, -U)));
    assert!(b.cross(&a).equal(&vc(U, -2 * U, U)));
}

#[test]
fn test_reflect_flat_surface() {
    let v = vc(U, -U, 0);
    let n = vc(0, U, 0);
    assert!(v.reflect(&n).equal(&vc(U, U, 0)));
}
