//! Points and vectors: four fixed-point components, `w` one unit for a
//! point and zero for a vector, so translations move points and leave
//! directions alone.

use vstd::prelude::*;

verus! {

use crate::fx::{fx_add, fx_div, fx_mul, fx_near, fx_neg, fx_sqrt, fx_sub, Scalar, SCALE};

/// Two whole units, in millionths; used by the reflection formula.
pub const TWO_UNITS: i64 = 2_000_000;

#[derive(Clone, Copy, Debug, PartialEq, Eq, Structural)]
pub struct Point {
    pub x: Scalar,
    pub y: Scalar,
    pub z: Scalar,
    pub w: Scalar,
}

/// The ghost view of a tuple: its four components in millionths.
pub ghost struct V4 {
    pub x: int,
    pub y: int,
    pub z: int,
    pub w: int,
}

/// View of a tuple.
pub open spec fn pv(p: Point) -> V4 {
    V4 { x: p.x@, y: p.y@, z: p.z@, w: p.w@ }
}

pub open spec fn v4_add(a: V4, b: V4) -> V4 {
    V4 { x: fx_add(a.x, b.x), y: fx_add(a.y, b.y), z: fx_add(a.z, b.z), w: fx_add(a.w, b.w) }
}

pub open spec fn v4_sub(a: V4, b: V4) -> V4 {
    V4 { x: fx_sub(a.x, b.x), y: fx_sub(a.y, b.y), z: fx_sub(a.z, b.z), w: fx_sub(a.w, b.w) }
}

pub open spec fn v4_scale(a: V4, k: int) -> V4 {
    V4 { x: fx_mul(a.x, k), y: fx_mul(a.y, k), z: fx_mul(a.z, k), w: fx_mul(a.w, k) }
}

pub open spec fn v4_div(a: V4, k: int) -> V4 {
    V4 { x: fx_div(a.x, k), y: fx_div(a.y, k), z: fx_div(a.z, k), w: fx_div(a.w, k) }
}

pub open spec fn v4_neg(a: V4) -> V4 {
    V4 { x: fx_neg(a.x), y: fx_neg(a.y), z: fx_neg(a.z), w: fx_neg(a.w) }
}

/// Dot product of the four component pairs, folded left with saturating adds.
pub open spec fn v4_dot(a: V4, b: V4) -> int {
    fx_add(
        fx_add(fx_add(fx_mul(a.x, b.x), fx_mul(a.y, b.y)), fx_mul(a.z, b.z)),
        fx_mul(a.w, b.w),
    )
}

/// Length of the tuple: square root of its dot product with itself.
pub open spec fn v4_magnitude(a: V4) -> int {
    fx_sqrt(v4_dot(a, a))
}

/// The tuple scaled down by its own length.
pub open spec fn v4_normalize(a: V4) -> V4 {
    v4_div(a, v4_magnitude(a))
}

pub open spec fn v4_cross(a: V4, b: V4) -> V4 {
    V4 {
        x: fx_sub(fx_mul(a.y, b.z), fx_mul(a.z, b.y)),
        y: fx_sub(fx_mul(a.z, b.x), fx_mul(a.x, b.z)),
        z: fx_sub(fx_mul(a.x, b.y), fx_mul(a.y, b.x)),
        w: 0,
    }
}

/// Mirror reflection of `v` about `n`: `v - n * 2 * dot(v, n)`.
pub open spec fn v4_reflect(v: V4, n: V4) -> V4 {
    v4_sub(v, v4_scale(v4_scale(n, TWO_UNITS as int), v4_dot(v, n)))
}

/// Componentwise nearness within the geometric tolerance.
pub open spec fn v4_near(a: V4, b: V4) -> bool {
    fx_near(a.x, b.x) && fx_near(a.y, b.y) && fx_near(a.z, b.z) && fx_near(a.w, b.w)
}

/// A point: `w` is one unit.
pub fn point(x: Scalar, y: Scalar, z: Scalar) -> (r: Point)
    ensures
        r.x == x && r.y == y && r.z == z && r.w@ == SCALE as int,
{
    Point { x, y, z, w: Scalar { v: SCALE } }
}

/// A vector: `w` is zero.
pub fn vector(x: Scalar, y: Scalar, z: Scalar) -> (r: Point)
    ensures
        r.x == x && r.y == y && r.z == z && r.w@ == 0,
{
    Point { x, y, z, w: Scalar { v: 0 } }
}

/// The origin point.
pub fn empty_point() -> (r: Point)
    ensures
        r.x@ == 0 && r.y@ == 0 && r.z@ == 0 && r.w@ == SCALE as int,
{
    point(Scalar { v: 0 }, Scalar { v: 0 }, Scalar { v: 0 })
}

/// The zero vector.
pub fn empty_vector() -> (r: Point)
    ensures
        r.x@ == 0 && r.y@ == 0 && r.z@ == 0 && r.w@ == 0,
{
    vector(Scalar { v: 0 }, Scalar { v: 0 }, Scalar { v: 0 })
}

impl Point {
    /// True when `w` is within tolerance of one unit.
    pub fn is_point(&self) -> (r: bool)
        ensures
            r == fx_near(self.w@, SCALE as int),
    {
        self.w.near(Scalar { v: SCALE })
    }

    /// True when `w` is within tolerance of zero.
    pub fn is_vector(&self) -> (r: bool)
        ensures
            r == fx_near(self.w@, 0),
    {
        self.w.near(Scalar { v: 0 })
    }

    /// Componentwise equality within the geometric tolerance.
    pub fn equal(&self, other: &Point) -> (r: bool)
        ensures
            r == v4_near(pv(*self), pv(*other)),
    {
        self.x.near(other.x) && self.y.near(other.y) && self.z.near(other.z)
            && self.w.near(other.w)
    }

    pub fn add(&self, other: &Point) -> (r: Point)
        ensures
            pv(r) == v4_add(pv(*self), pv(*other)),
    {
        Point {
            x: self.x.add(other.x),
            y: self.y.add(other.y),
            z: self.z.add(other.z),
            w: self.w.add(other.w),
        }
    }

    pub fn sub(&self, other: &Point) -> (r: Point)
        ensures
            pv(r) == v4_sub(pv(*self), pv(*other)),
    {
        Point {
            x: self.x.sub(other.x),
            y: self.y.sub(other.y),
            z: self.z.sub(other.z),
            w: self.w.sub(other.w),
        }
    }

    pub fn multiply_scalar(&self, other: Scalar) -> (r: Point)
        ensures
            pv(r) == v4_scale(pv(*self), other@),
    {
        Point {
            x: self.x.mul(other),
            y: self.y.mul(other),
            z: self.z.mul(other),
            w: self.w.mul(other),
        }
    }

    pub fn divide_scalar(&self, other: Scalar) -> (r: Point)
        ensures
            pv(r) == v4_div(pv(*self), other@),
    {
        Point {
            x: self.x.div(other),
            y: self.y.div(other),
            z: self.z.div(other),
            w: self.w.div(other),
        }
    }

    pub fn negative(&self) -> (r: Point)
        ensures
            pv(r) == v4_neg(pv(*self)),
    {
        Point { x: self.x.neg(), y: self.y.neg(), z: self.z.neg(), w: self.w.neg() }
    }

    pub fn magnitude(&self) -> (r: Scalar)
        ensures
            r@ == v4_magnitude(pv(*self)),
    {
        self.dot(self).sqrt()
    }

    /// The tuple scaled down by its own length.
    pub fn normalize(&self) -> (r: Point)
        ensures
            pv(r) == v4_normalize(pv(*self)),
    {
        let m = self.magnitude();
        self.divide_scalar(m)
    }

    pub fn dot(&self, other: &Point) -> (r: Scalar)
        ensures
            r@ == v4_dot(pv(*self), pv(*other)),
    {
        self.x.mul(other.x).add(self.y.mul(other.y)).add(self.z.mul(other.z)).add(
            self.w.mul(other.w),
        )
    }

    /// Cross product of the spatial components; the result is a vector.
    pub fn cross(&self, other: &Point) -> (r: Point)
        ensures
            pv(r) == v4_cross(pv(*self), pv(*other)),
    {
        Point {
            x: self.y.mul(other.z).sub(self.z.mul(other.y)),
            y: self.z.mul(other.x).sub(self.x.mul(other.z)),
            z: self.x.mul(other.y).sub(self.y.mul(other.x)),
            w: Scalar { v: 0 },
        }
    }

    /// Mirror reflection of this tuple about `normal`.
    pub fn reflect(&self, normal: &Point) -> (r: Point)
        ensures
            pv(r) == v4_reflect(pv(*self), pv(*normal)),
    {
        let d = self.dot(normal);
        let scaled = normal.multiply_scalar(Scalar { v: TWO_UNITS }).multiply_scalar(d);
        self.sub(&scaled)
    }
}

} // verus!
