use tracer::fx::Scalar;
use tracer::matrix::{Matrix2, Matrix3, Matrix4};
use tracer::point::{point, vector};
use tracer::utilities::equal;

const U: i64 = 1_000_000;

fn s(v: i64) -> Scalar {
    Scalar::from_micros(v)
}

fn m4(a: [i64; 16]) -> Matrix4 {
    let mut v: Vec<Scalar> = Vec::new();
    for x in a.iter() {
        v.push(s(*x));
    }
    Matrix4::new(v)
}

fn m3(a: [i64; 9]) -> Matrix3 {
    let mut v: Vec<Scalar> = Vec::new();
    for x in a.iter() {
        v.push(s(*x));
    }
    Matrix3::new(v)
}

fn m2(a: [i64; 4]) -> Matrix2 {
    let mut v: Vec<Scalar> = Vec::new();
    for x in a.iter() {
        v.push(s(*x));
    }
    Matrix2::new(v)
}

#[test]
fn test_matrix_new() {
    let mat2 = m2([-3 * U, 5 * U, U, -2 * U]);
    assert!(equal(mat2.m[0], s(-3 * U)));
    assert!(equal(mat2.m[1], s(5 * U)));
    assert!(equal(mat2.m[2], s(U)));
    assert!(equal(mat2.m[3], s(-2 * U)));

    let mat3 = m3([-3 * U, 5 * U, 0, U, -2 * U, -7 * U, 0, U, U]);
    assert!(equal(mat3.at(0, 0), s(-3 * U)));
    assert!(equal(mat3.at(1, 1), s(-2 * U)));
    assert!(equal(mat3.at(2, 2), s(U)));

    let mat4 = m4([
        U, 2 * U, 3 * U, 4 * U,
        5_500_000, 6_500_000, 7_500_000, 8_500_000,
        9 * U, 10 * U, 11 * U, 12 * U,
        13_500_000, 14_500_000, 15_500_000, 16_500_000,
    ]);
    assert!(equal(mat4.at(0, 0), s(U)));
    assert!(equal(mat4.at(1, 0), s(5_500_000)));
    assert!(equal(mat4.at(3, 2), s(15_500_000)));
}

#[test]
fn test_matrix_equals() {
    let a = m2([U, 2 * U, 3 * U, 4 * U]);
    let b = m2([U, 2 * U, 3 * U, 4 * U]);
    assert!(a.equal(&b));

    let a = m2([2 * U, 2 * U, 3 * U, 4 * U]);
    assert!(!a.equal(&b));

    let a = m4([
        U, 2 * U, 3 * U, 4 * U,
        5 * U, 6 * U, 7 * U, 8 * U,
        9 * U, 10 * U, 11 * U, 12 * U,
        13 * U, 14 * U, 15 * U, 16 * U,
    ]);
    let b = m4([
        U, 2 * U, 3 * U, 4 * U,
        5 * U, 6 * U, 7 * U, 8 * U,
        9 * U, 10 * U, 11 * U, 12 * U,
        13 * U, 14 * U, 15 * U, 16 * U,
    ]);
    assert!(a.equal(&b));
    let c = m4([
        2 * U, 2 * U, 3 * U, 4 * U,
        5 * U, 6 * U, 7 * U, 8 * U,
        9 * U, 10 * U, 11 * U, 12 * U,
        13 * U, 14 * U, 15 * U, 16 * U,
    ]);
    assert!(!c.equal(&b));
}

#[test]
fn test_matrix_multiply() {
    let a = m4([
        U, 2 * U, 3 * U, 4 * U,
        5 * U, 6 * U, 7 * U, 8 * U,
        9 * U, 8 * U, 7 * U, 6 * U,
        5 * U, 4 * U, 3 * U, 2 * U,
    ]);
    let b = m4([
        -2 * U, U, 2 * U, 3 * U,
        3 * U, 2 * U, U, -U,
        4 * U, 3 * U, 6 * U, 5 * U,
        U, 2 * U, 7 * U, 8 * U,
    ]);
    let c = m4([
        20 * U, 22 * U, 50 * U, 48 * U,
        44 * U, 54 * U, 114 * U, 108 * U,
        40 * U, 58 * U, 110 * U, 102 * U,
        16 * U, 26 * U, 46 * U, 42 * U,
    ]);
    assert!(a.multiply(&b).equal(&c));
}

#[test]
fn test_matrix_multiply_point() {
    let a = m4([
        U, 2 * U, 3 * U, 4 * U,
        2 * U, 4 * U, 4 * U, 2 * U,
        8 * U, 6 * U, 4 * U, U,
        0, 0, 0, U,
    ]);
    let b = point(s(U), s(2 * U), s(3 * U));
    let c = point(s(18 * U), s(24 * U), s(33 * U));
    assert!(a.multiply_point(&b).equal(&c));
}

#[test]
fn test_matrix_multiply_identity() {
    let a = m4([
        U, 2 * U, 3 * U, 4 * U,
        2 * U, 4 * U, 4 * U, 2 * U,
        8 * U, 6 * U, 4 * U, U,
        0, 0, 0, U,
    ]);
    assert!(a.multiply(&Matrix4::identity()).equal(&a));
}

#[test]
fn test_matrix_transpose() {
    let a = m4([
        U, 2 * U, 3 * U, 4 * U,
        5 * U, 6 * U, 7 * U, 8 * U,
        9 * U, 10 * U, 11 * U, 12 * U,
        13 * U, 14 * U, 15 * U, 16 * U,
    ]);
    let b = m4([
        U, 5 * U, 9 * U, 13 * U,
        2 * U, 6 * U, 10 * U, 14 * U,
        3 * U, 7 * U, 11 * U, 15 * U,
        4 * U, 8 * U, 12 * U, 16 * U,
    ]);
    assert!(a.transpose().equal(&b));
    assert!(Matrix4::identity().transpose().equal(&Matrix4::identity()));
}

#[test]
fn test_matrix_determinant() {
    let a = m2([U, 5 * U, -3 * U, 2 * U]);
    assert!(equal(a.determinant(), s(17 * U)));
}

#[test]
fn test_matrix_submatrix() {
    let a = m3([U, 5 * U, 0, -3 * U, 2 * U, 7 * U, 0, 6 * U, -3 * U]);
    let b = m2([-3 * U, 2 * U, 0, 6 * U]);
    assert!(a.submatrix(0, 2).equal(&b));

    let a = m4([
        -6 * U, U, U, 6 * U,
        -8 * U, 5 * U, 8 * U, 6 * U,
        -U, 0, 8 * U, 2 * U,
        -7 * U, U, -U, U,
    ]);
    let b = m3([-6 * U, U, 6 * U, -8 * U, 8 * U, 6 * U, -7 * U, -U, U]);
    assert!(a.submatrix(2, 1).equal(&b));
}

#[test]
fn test_matrix_minor() {
    let a = m3([3 * U, 5 * U, 0, 2 * U, -U, -7 * U, 6 * U, -U, 5 * U]);
    assert!(equal(a.minor(1, 0), s(25 * U)));
}

#[test]
fn test_matrix_3_cofactor() {
    let a = m3([3 * U, 5 * U, 0, 2 * U, -U, -7 * U, 6 * U, -U, 5 * U]);
    assert!(equal(a.cofactor(0, 0), s(-12 * U)));
    assert!(equal(a.cofactor(1, 0), s(-25 * U)));
}

#[test]
fn test_matrix_4_cofactor() {
    let a = m4([
        -2 * U, -8 * U, 3 * U, 5 * U,
        -3 * U, U, 7 * U, 3 * U,
        U, 2 * U, -9 * U, 6 * U,
        -6 * U, 7 * U, 7 * U, -9 * U,
    ]);
    assert!(equal(a.cofactor(0, 0), s(690 * U)));
    assert!(equal(a.cofactor(0, 1), s(447 * U)));
    assert!(equal(a.determinant(), s(-4071 * U)));
}

#[test]
fn test_matrix_3_determinant() {
    let a = m3([U, 2 * U, 6 * U, -5 * U, 8 * U, -4 * U, 2 * U, 6 * U, 4 * U]);
    assert!(equal(a.determinant(), s(-196 * U)));
}

#[test]
fn test_matrix_4_invertible() {
    let a = m4([
        -2 * U, -8 * U, 3 * U, 5 * U,
        -3 * U, U, 7 * U, 3 * U,
        U, 2 * U, -9 * U, 6 * U,
        -6 * U, 7 * U, 7 * U, -9 * U,
    ]);
    assert!(a.invertible());

    let b = m4([
        -4 * U, 2 * U, -2 * U, -3 * U,
        9 * U, 6 * U, 2 * U, 6 * U,
        0, -5 * U, U, -5 * U,
        0, 0, 0, 0,
    ]);
    assert!(!b.invertible());
}

#[test]
fn test_matrix_4_inverse() {
    let a = m4([
        -5 * U, 2 * U, 6 * U, -8 * U,
        U, -5 * U, U, 8 * U,
        7 * U, 7 * U, -6 * U, -7 * U,
        U, -3 * U, 7 * U, 4 * U,
    ]);
    let inverse = m4([
        218_050, 451_130, 240_600, -45_110,
        -808_270, -1_456_770, -443_610, 520_680,
        -78_950, -223_680, -52_630, 197_370,
        -522_560, -813_910, -300_750, 306_390,
    ]);
    assert!(equal(a.determinant(), s(532 * U)));
    assert!(equal(a.cofactor(2, 3), s(-160 * U)));
    assert!(a.inverse().equal(&inverse));
}

#[test]
fn test_translation_inverse_multiplies_back_to_identity() {
    // a translation times its inverse is the identity, exactly
    let a = Matrix4::translation(s(5 * U), s(-3 * U), s(2 * U));
    assert!(a.multiply(&a.inverse()).equal(&Matrix4::identity()));
}

#[test]
fn test_translation() {
    let transform = Matrix4::translation(s(5 * U), s(-3 * U), s(2 * U));
    let p = point(s(-3 * U), s(4 * U), s(5 * U));
    let v = vector(s(-3 * U), s(4 * U), s(5 * U));
    assert!(transform.multiply_point(&p).equal(&point(s(2 * U), s(U), s(7 * U))));
    assert!(transform.inverse().multiply_point(&transform.multiply_point(&p)).equal(&p));
    assert!(transform.multiply_point(&v).equal(&v));
}

#[test]
fn test_scaling() {
    let transform = Matrix4::scaling(s(2 * U), s(3 * U), s(4 * U));
    let v = vector(s(-4 * U), s(6 * U), s(8 * U));
    assert!(transform.multiply_point(&v).equal(&vector(s(-8 * U), s(18 * U), s(32 * U))));
    assert!(transform.inverse().multiply_point(&v).equal(&vector(s(-2 * U), s(2 * U), s(2 * U))));
}

#[test]
fn test_reflection() {
    let transform = Matrix4::scaling(s(-U), s(U), s(U));
    let v = vector(s(2 * U), s(3 * U), s(4 * U));
    assert!(transform.multiply_point(&v).equal(&vector(s(-2 * U), s(3 * U), s(4 * U))));
}

#[test]
fn test_rotation_x() {
    // cos and sin of one eighth and one quarter turn, in millionths
    let half_quarter = Matrix4::rotation_x(s(707_107), s(707_107));
    let full_quarter = Matrix4::rotation_x(s(0), s(U));
    let p = point(s(0), s(U), s(0));
    assert!(half_quarter.multiply_point(&p).equal(&point(s(0), s(707_107), s(707_107))));
    assert!(full_quarter.multiply_point(&p).equal(&point(s(0), s(0), s(U))));
}

#[test]
fn test_rotation_y() {
    let half_quarter = Matrix4::rotation_y(s(707_107), s(707_107));
    let full_quarter = Matrix4::rotation_y(s(0), s(U));
    let p = point(s(0), s(0), s(U));
    assert!(half_quarter.multiply_point(&p).equal(&point(s(707_107), s(0), s(707_107))));
    assert!(full_quarter.multiply_point(&p).equal(&point(s(U), s(0), s(0))));
}

#[test]
fn test_rotation_z() {
    let half_quarter = Matrix4::rotation_z(s(707_107), s(707_107));
    let full_quarter = Matrix4::rotation_z(s(0), s(U));
    let p = point(s(0), s(U), s(0));
    assert!(half_quarter.multiply_point(&p).equal(&point(s(-707_107), s(707_107), s(0))));
    assert!(full_quarter.multiply_point(&p).equal(&point(s(-U), s(0), s(0))));
}

#[test]
fn test_shearing() {
    let p = point(s(2 * U), s(3 * U), s(4 * U));
    let transform = Matrix4::shearing(s(U), s(0), s(0), s(0), s(0), s(0));
    assert!(transform.multiply_point(&p).equal(&point(s(5 * U), s(3 * U), s(4 * U))));
    let transform = Matrix4::shearing(s(0), s(U), s(0), s(0), s(0), s(0));
    assert!(transform.multiply_point(&p).equal(&point(s(6 * U), s(3 * U), s(4 * U))));
    let transform = Matrix4::shearing(s(0), s(0), s(U), s(0), s(0), s(0));
    assert!(transform.multiply_point(&p).equal(&point(s(2 * U), s(5 * U), s(4 * U))));
    let transform = Matrix4::shearing(s(0), s(0), s(0), s(U), s(0), s(0));
    assert!(transform.multiply_point(&p).equal(&point(s(2 * U), s(7 * U), s(4 * U))));
    let transform = Matrix4::shearing(s(0), s(0), s(0), s(0), s(U), s(0));
    assert!(transform.multiply_point(&p).equal(&point(s(2 * U), s(3 * U), s(6 * U))));
    let transform = Matrix4::shearing(s(0), s(0), s(0), s(0), s(0), s(U));
    assert!(transform.multiply_point(&p).equal(&point(s(2 * U), s(3 * U), s(7 * U))));
}

#[test]
fn test_chaining_transformations() {
    let p = point(s(U), s(0), s(U));
    let a = Matrix4::rotation_x(s(0), s(U));
    let b = Matrix4::scaling(s(5 * U), s(5 * U), s(5 * U));
    let c = Matrix4::translation(s(10 * U), s(5 * U), s(7 * U));

    let p2 = a.multiply_point(&p);
    assert!(p2.equal(&point(s(U), s(-U), s(0))));
    let p3 = b.multiply_point(&p2);
    assert!(p3.equal(&point(s(5 * U), s(-5 * U), s(0))));
    let p4 = c.multiply_point(&p3);
    assert!(p4.equal(&point(s(15 * U), s(0), s(7 * U))));
    assert!(c.multiply(&b).multiply(&a).multiply_point(&p).equal(&p4));
}
