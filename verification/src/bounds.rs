//! Axis-aligned bounding boxes, used only to let a group skip its
//! children when a ray misses all of them. An unbounded extent is
//! carried as the saturated scalar, which the slab test treats the way
//! an infinity would be.

use vstd::prelude::*;

verus! {

use vstd::math::{max, min};

use crate::fx::{fx_abs, fx_div, fx_mul, fx_sub, Scalar, EPSILON, FX_MAX, SCALE};
use crate::point::{point, pv, Point, V4};
use crate::ray::{rv, Ray, RayV};

#[derive(Clone, Copy, Debug)]
pub struct Bounds {
    pub max: Point,
    pub min: Point,
}

/// The ghost view of a bounding box.
pub ghost struct BoundsV {
    pub min: V4,
    pub max: V4,
}

/// View of a bounding box.
pub open spec fn bv(b: Bounds) -> BoundsV {
    BoundsV { min: pv(b.min), max: pv(b.max) }
}

/// Views of a list of points.
pub open spec fn pvs(s: Seq<Point>) -> Seq<V4> {
    Seq::new(s.len(), |i: int| pv(s[i]))
}

/// Componentwise minimum of a non-empty list of tuples; the result is a
/// point.
pub open spec fn v4s_min(s: Seq<V4>) -> V4
    decreases s.len(),
{
    if s.len() <= 1 {
        V4 { x: s[0].x, y: s[0].y, z: s[0].z, w: SCALE as int }
    } else {
        let m = v4s_min(s.drop_last());
        let l = s.last();
        V4 { x: min(m.x, l.x), y: min(m.y, l.y), z: min(m.z, l.z), w: SCALE as int }
    }
}

/// Componentwise maximum of a non-empty list of tuples; the result is a
/// point.
pub open spec fn v4s_max(s: Seq<V4>) -> V4
    decreases s.len(),
{
    if s.len() <= 1 {
        V4 { x: s[0].x, y: s[0].y, z: s[0].z, w: SCALE as int }
    } else {
        let m = v4s_max(s.drop_last());
        let l = s.last();
        V4 { x: max(m.x, l.x), y: max(m.y, l.y), z: max(m.z, l.z), w: SCALE as int }
    }
}

/// Entry and exit parameters of a ray against the slab `[lo, hi]` on one
/// axis, ordered. A direction component within tolerance of zero turns
/// the quotient into a saturated product, keeping the interval ordered
/// where a true division would blow up.
pub open spec fn spec_check_axis(o: int, d: int, lo: int, hi: int) -> (int, int) {
    let tmin_numerator = fx_sub(lo, o);
    let tmax_numerator = fx_sub(hi, o);
    let tmin = if fx_abs(d) >= EPSILON as int {
        fx_div(tmin_numerator, d)
    } else {
        fx_mul(tmin_numerator, FX_MAX as int)
    };
    let tmax = if fx_abs(d) >= EPSILON as int {
        fx_div(tmax_numerator, d)
    } else {
        fx_mul(tmax_numerator, FX_MAX as int)
    };
    if tmin > tmax {
        (tmax, tmin)
    } else {
        (tmin, tmax)
    }
}

/// Whether the ray passes through the box: the latest slab entry must
/// come strictly before the earliest slab exit.
pub open spec fn spec_bounds_hits(b: BoundsV, r: RayV) -> bool {
    let (xmin, xmax) = spec_check_axis(r.origin.x, r.direction.x, b.min.x, b.max.x);
    let (ymin, ymax) = spec_check_axis(r.origin.y, r.direction.y, b.min.y, b.max.y);
    let (zmin, zmax) = spec_check_axis(r.origin.z, r.direction.z, b.min.z, b.max.z);
    max(max(xmin, ymin), zmin) < min(min(xmax, ymax), zmax)
}

/// Entry and exit parameters of a ray against one axis slab.
pub fn check_axis(origin: Scalar, direction: Scalar, lo: Scalar, hi: Scalar) -> (r: (
    Scalar,
    Scalar,
))
    ensures
        (r.0@, r.1@) == spec_check_axis(origin@, direction@, lo@, hi@),
{
    let tmin_numerator = lo.sub(origin);
    let tmax_numerator = hi.sub(origin);
    let tmin: Scalar;
    let tmax: Scalar;
    if direction.abs().ge(Scalar { v: EPSILON }) {
        tmin = tmin_numerator.div(direction);
        tmax = tmax_numerator.div(direction);
    } else {
        tmin = tmin_numerator.mul(Scalar { v: FX_MAX });
        tmax = tmax_numerator.mul(Scalar { v: FX_MAX });
    }
    if tmin.gt(tmax) {
        (tmax, tmin)
    } else {
        (tmin, tmax)
    }
}

/// The smallest box holding every point of a non-empty list.
pub fn bounds(points: &Vec<Point>) -> (r: Bounds)
    requires
        points@.len() > 0,
    ensures
        pv(r.min) == v4s_min(pvs(points@)),
        pv(r.max) == v4s_max(pvs(points@)),
{
    let first = points[0];
    let mut lo = point(first.x, first.y, first.z);
    let mut hi = point(first.x, first.y, first.z);
    let mut k: usize = 1;
    proof {
        assert(pvs(points@).subrange(0, 1)[0] == pv(points@[0]));
        assert(pv(lo) == v4s_min(pvs(points@).subrange(0, 1)));
        assert(pv(hi) == v4s_max(pvs(points@).subrange(0, 1)));
    }
    while k < points.len()
        invariant
            1 <= k <= points@.len(),
            pv(lo) == v4s_min(pvs(points@).subrange(0, k as int)),
            pv(hi) == v4s_max(pvs(points@).subrange(0, k as int)),
        decreases points@.len() - k,
    {
        let p = points[k];
        let ghost prefix = pvs(points@).subrange(0, k as int);
        let ghost next = pvs(points@).subrange(0, k as int + 1);
        lo = point(lo.x.min(p.x), lo.y.min(p.y), lo.z.min(p.z));
        hi = point(hi.x.max(p.x), hi.y.max(p.y), hi.z.max(p.z));
        proof {
            assert(next.drop_last() =~= prefix);
            assert(next.last() == pv(points@[k as int]));
        }
        k = k + 1;
    }
    proof {
        assert(pvs(points@).subrange(0, points@.len() as int) =~= pvs(points@));
    }
    Bounds { min: lo, max: hi }
}

impl Bounds {
    pub fn new(xmin: Scalar, xmax: Scalar, ymin: Scalar, ymax: Scalar, zmin: Scalar, zmax: Scalar)
        -> (r: Bounds)
        ensures
            pv(r.min) == (V4 { x: xmin@, y: ymin@, z: zmin@, w: SCALE as int }),
            pv(r.max) == (V4 { x: xmax@, y: ymax@, z: zmax@, w: SCALE as int }),
    {
        Bounds { min: point(xmin, ymin, zmin), max: point(xmax, ymax, zmax) }
    }

    /// Whether the ray passes through this box.
    pub fn hits(&self, ray: &Ray) -> (r: bool)
        ensures
            r == spec_bounds_hits(bv(*self), rv(*ray)),
    {
        let (xmin, xmax) = check_axis(ray.origin.x, ray.direction.x, self.min.x, self.max.x);
        let (ymin, ymax) = check_axis(ray.origin.y, ray.direction.y, self.min.y, self.max.y);
        let (zmin, zmax) = check_axis(ray.origin.z, ray.direction.z, self.min.z, self.max.z);
        let tmin = xmin.max(ymin).max(zmin);
        let tmax = xmax.min(ymax).min(zmax);
        tmin.lt(tmax)
    }
}

} // verus!
