//! Rays: an origin point and a direction vector, immutable per cast.

use vstd::prelude::*;

verus! {

use crate::fx::Scalar;
use crate::matrix::{inv4, m4v, mp_v, Matrix4};
use crate::point::{pv, v4_add, v4_scale, Point, V4};

#[derive(Clone, Copy, Debug)]
pub struct Ray {
    pub origin: Point,
    pub direction: Point,
}

/// The ghost view of a ray.
pub ghost struct RayV {
    pub origin: V4,
    pub direction: V4,
}

/// View of a ray.
pub open spec fn rv(r: Ray) -> RayV {
    RayV { origin: pv(r.origin), direction: pv(r.direction) }
}

/// The point `t` units along the ray.
pub open spec fn spec_position(r: RayV, t: int) -> V4 {
    v4_add(r.origin, v4_scale(r.direction, t))
}

/// The ray carried through a transform.
pub open spec fn spec_ray_transform(r: RayV, s: Seq<int>) -> RayV {
    RayV { origin: mp_v(s, r.origin), direction: mp_v(s, r.direction) }
}

/// The ray carried into a shape's local space by the inverse of its
/// transform.
pub open spec fn spec_local_ray(r: RayV, transform: Seq<int>) -> RayV {
    spec_ray_transform(r, inv4(transform))
}

impl Ray {
    /// The point `t` units along the ray.
    pub fn position(&self, t: Scalar) -> (out: Point)
        ensures
            pv(out) == spec_position(rv(*self), t@),
    {
        self.origin.add(&self.direction.multiply_scalar(t))
    }

    /// Both origin and direction carried through `transformation`.
    pub fn transform(&self, transformation: &Matrix4) -> (out: Ray)
        requires
            transformation.wf(),
        ensures
            rv(out) == spec_ray_transform(rv(*self), m4v(*transformation)),
    {
        Ray {
            origin: transformation.multiply_point(&self.origin),
            direction: transformation.multiply_point(&self.direction),
        }
    }
}

} // verus!
