//! Procedural patterns: pure color functions of a point, composable by
//! nesting, each with its own transform applied when sampled on an
//! object.
//!
//! Conventions, chosen explicitly: stripes and rings alternate on the
//! floor of the governing coordinate, checkers on the sum of the three
//! coordinates rounded to the nearest whole unit. A noise-perturbed
//! pattern is not part of the verified kernel: a caller wanting one
//! displaces the sample point before asking for a color here.

use vstd::prelude::*;

verus! {

use vstd::math::abs;

use crate::color::{cv, cv_add, cv_div, cv_scale, cv_sub, Color, ColorV};
use crate::fx::{fx_add, fx_floor_units, fx_frac, fx_mul, fx_round_units, fx_sqrt, Scalar};
use crate::matrix::{det4, inv4, lemma_identity_invertible, m4v, mp_v, Matrix4};
use crate::point::{pv, Point, TWO_UNITS, V4};
use crate::shape::Shape;

#[derive(Debug)]
pub enum PatternableType {
    Blended(Box<Patternable>, Box<Patternable>),
    Checker(Box<Patternable>, Box<Patternable>),
    Gradient(Box<Patternable>, Box<Patternable>),
    Ring(Box<Patternable>, Box<Patternable>),
    Solid(Color),
    Stripe(Box<Patternable>, Box<Patternable>),
}

#[derive(Debug)]
pub struct Patternable {
    pub patternable_type: PatternableType,
    pub transform: Matrix4,
}

/// Stripes pick their first color where the floor of `x` is even.
pub open spec fn stripe_even(x: int) -> bool {
    abs(fx_floor_units(x)) % 2 == 0
}

/// Rings pick their first color where the floor of the radial distance
/// in the x-z plane is even.
pub open spec fn ring_even(x: int, z: int) -> bool {
    fx_floor_units(fx_sqrt(fx_add(fx_mul(x, x), fx_mul(z, z)))) % 2 == 0
}

/// Checkers pick their first color where the rounded coordinates sum to
/// an even number.
pub open spec fn checker_even(x: int, y: int, z: int) -> bool {
    abs(fx_round_units(x) + fx_round_units(y) + fx_round_units(z)) % 2 == 0
}

/// The color a pattern yields at a point of its own local space.
pub open spec fn spec_pattern_at(p: Patternable, pt: V4) -> ColorV
    decreases p,
{
    match p.patternable_type {
        PatternableType::Solid(c) => cv(c),
        PatternableType::Stripe(a, b) => if stripe_even(pt.x) {
            spec_pattern_at(*a, pt)
        } else {
            spec_pattern_at(*b, pt)
        },
        PatternableType::Gradient(a, b) => {
            let ca = spec_pattern_at(*a, pt);
            let cb = spec_pattern_at(*b, pt);
            cv_add(ca, cv_scale(cv_sub(cb, ca), fx_frac(pt.x)))
        },
        PatternableType::Ring(a, b) => if ring_even(pt.x, pt.z) {
            spec_pattern_at(*a, pt)
        } else {
            spec_pattern_at(*b, pt)
        },
        PatternableType::Checker(a, b) => if checker_even(pt.x, pt.y, pt.z) {
            spec_pattern_at(*a, pt)
        } else {
            spec_pattern_at(*b, pt)
        },
        PatternableType::Blended(a, b) => cv_div(
            cv_add(spec_pattern_at(*a, pt), spec_pattern_at(*b, pt)),
            TWO_UNITS as int,
        ),
    }
}

/// The color a pattern yields at a world point on a shape: the point is
/// carried into the shape's space, then into the pattern's own space,
/// and sampled there.
pub open spec fn spec_color_at_object(p: Patternable, shape_transform: Seq<int>, pt: V4) -> ColorV {
    spec_pattern_at(p, mp_v(inv4(m4v(p.transform)), mp_v(inv4(shape_transform), pt)))
}

/// True when the whole-unit count `n` is even in magnitude.
fn parity_even(n: i64) -> (r: bool)
    ensures
        r == (abs(n as int) % 2 == 0),
{
    let m: u128 = if n < 0 {
        (-(n as i128)) as u128
    } else {
        n as u128
    };
    m % 2 == 0
}

impl Patternable {
    /// The transform must stay invertible: sampling inverts it.
    pub open spec fn wf(&self) -> bool {
        self.transform.wf() && det4(m4v(self.transform)) != 0
    }

    pub fn solid(color: Color) -> (r: Patternable)
        ensures
            r.wf(),
            r.patternable_type == PatternableType::Solid(color),
            m4v(r.transform) =~= crate::matrix::identity_v(),
    {
        proof {
            lemma_identity_invertible();
        }
        Patternable { patternable_type: PatternableType::Solid(color), transform: Matrix4::identity() }
    }

    pub fn stripe(color: Color, secondary: Color) -> (r: Patternable)
        ensures
            r.wf(),
            r.patternable_type matches PatternableType::Stripe(a, b)
                && a.patternable_type == PatternableType::Solid(color)
                && b.patternable_type == PatternableType::Solid(secondary),
            m4v(r.transform) =~= crate::matrix::identity_v(),
    {
        proof {
            lemma_identity_invertible();
        }
        Patternable {
            patternable_type: PatternableType::Stripe(
                Box::new(Patternable::solid(color)),
                Box::new(Patternable::solid(secondary)),
            ),
            transform: Matrix4::identity(),
        }
    }

    pub fn gradient(color: Color, secondary: Color) -> (r: Patternable)
        ensures
            r.wf(),
            r.patternable_type matches PatternableType::Gradient(a, b)
                && a.patternable_type == PatternableType::Solid(color)
                && b.patternable_type == PatternableType::Solid(secondary),
            m4v(r.transform) =~= crate::matrix::identity_v(),
    {
        proof {
            lemma_identity_invertible();
        }
        Patternable {
            patternable_type: PatternableType::Gradient(
                Box::new(Patternable::solid(color)),
                Box::new(Patternable::solid(secondary)),
            ),
            transform: Matrix4::identity(),
        }
    }

    pub fn ring(color: Color, secondary: Color) -> (r: Patternable)
        ensures
            r.wf(),
            r.patternable_type matches PatternableType::Ring(a, b)
                && a.patternable_type == PatternableType::Solid(color)
                && b.patternable_type == PatternableType::Solid(secondary),
            m4v(r.transform) =~= crate::matrix::identity_v(),
    {
        proof {
            lemma_identity_invertible();
        }
        Patternable {
            patternable_type: PatternableType::Ring(
                Box::new(Patternable::solid(color)),
                Box::new(Patternable::solid(secondary)),
            ),
            transform: Matrix4::identity(),
        }
    }

    pub fn checker(color: Color, secondary: Color) -> (r: Patternable)
        ensures
            r.wf(),
            r.patternable_type matches PatternableType::Checker(a, b)
                && a.patternable_type == PatternableType::Solid(color)
                && b.patternable_type == PatternableType::Solid(secondary),
            m4v(r.transform) =~= crate::matrix::identity_v(),
    {
        proof {
            lemma_identity_invertible();
        }
        Patternable {
            patternable_type: PatternableType::Checker(
                Box::new(Patternable::solid(color)),
                Box::new(Patternable::solid(secondary)),
            ),
            transform: Matrix4::identity(),
        }
    }

    pub fn blended(primary: Patternable, secondary: Patternable) -> (r: Patternable)
        ensures
            r.wf(),
            r.patternable_type == PatternableType::Blended(Box::new(primary), Box::new(secondary)),
            m4v(r.transform) =~= crate::matrix::identity_v(),
    {
        proof {
            lemma_identity_invertible();
        }
        Patternable {
            patternable_type: PatternableType::Blended(Box::new(primary), Box::new(secondary)),
            transform: Matrix4::identity(),
        }
    }

    /// The pattern's color at a point of its own local space.
    pub fn color_at(&self, point: &Point) -> (r: Color)
        ensures
            cv(r) == spec_pattern_at(*self, pv(*point)),
        decreases *self,
    {
        match &self.patternable_type {
            PatternableType::Solid(c) => *c,
            PatternableType::Stripe(a, b) => {
                let ca = a.color_at(point);
                let cb = b.color_at(point);
                if parity_even(point.x.floor_units()) {
                    ca
                } else {
                    cb
                }
            },
            PatternableType::Gradient(a, b) => {
                let ca = a.color_at(point);
                let cb = b.color_at(point);
                ca.add(&cb.sub(&ca).multiply_scalar(point.x.frac()))
            },
            PatternableType::Ring(a, b) => {
                let ca = a.color_at(point);
                let cb = b.color_at(point);
                let radial = point.x.mul(point.x).add(point.z.mul(point.z)).sqrt();
                if parity_even(radial.floor_units()) {
                    ca
                } else {
                    cb
                }
            },
            PatternableType::Checker(a, b) => {
                let ca = a.color_at(point);
                let cb = b.color_at(point);
                let rx = point.x.round_units();
                let ry = point.y.round_units();
                let rz = point.z.round_units();
                let sum = rx as i128 + ry as i128 + rz as i128;
                let m: u128 = if sum < 0 {
                    (-sum) as u128
                } else {
                    sum as u128
                };
                if m % 2 == 0 {
                    ca
                } else {
                    cb
                }
            },
            PatternableType::Blended(a, b) => {
                let ca = a.color_at(point);
                let cb = b.color_at(point);
                ca.add(&cb).divide(Scalar { v: TWO_UNITS })
            },
        }
    }

    /// The pattern's color at a world point on a shape.
    pub fn color_at_object(&self, object: &Shape, point: &Point) -> (r: Color)
        requires
            self.wf(),
            object.wf(),
        ensures
            cv(r) == spec_color_at_object(*self, m4v(object.transform), pv(*point)),
    {
        let local = object.transform.inverse().multiply_point(point);
        let pattern_local = self.transform.inverse().multiply_point(&local);
        self.color_at(&pattern_local)
    }
}

} // verus!
