//! The view transform: orients the world so the eye sits at the origin
//! looking down the negative z axis.

use vstd::prelude::*;

verus! {

use crate::fx::{Scalar, SCALE};
use crate::matrix::{m4v, mul4, Matrix4};
use crate::point::{pv, v4_cross, v4_normalize, v4_scale, v4_sub, Point, V4};

pub struct TransformationMatrix {}

/// The view transform's entries: an orientation from the forward, true
/// up and left directions, multiplied by the translation that moves the
/// eye to the origin.
pub open spec fn spec_view_transform(from: V4, to: V4, up: V4) -> Seq<int> {
    let forward = v4_normalize(v4_sub(to, from));
    let up_normal = v4_normalize(up);
    let left = v4_cross(forward, up_normal);
    let true_up = v4_cross(left, forward);
    let backward = v4_scale(forward, -(SCALE as int));
    let negative_from = v4_scale(from, -(SCALE as int));
    let orientation = seq![
        left.x, left.y, left.z, 0,
        true_up.x, true_up.y, true_up.z, 0,
        backward.x, backward.y, backward.z, 0,
        0, 0, 0, SCALE as int,
    ];
    let translation = seq![
        SCALE as int, 0, 0, negative_from.x,
        0, SCALE as int, 0, negative_from.y,
        0, 0, SCALE as int, negative_from.z,
        0, 0, 0, SCALE as int,
    ];
    mul4(orientation, translation)
}

impl TransformationMatrix {
    /// The transform that looks from `from` toward `to` with `up`
    /// roughly upward.
    pub fn new(from: &Point, to: &Point, up: &Point) -> (r: Matrix4)
        ensures
            r.wf(),
            m4v(r) =~= spec_view_transform(pv(*from), pv(*to), pv(*up)),
    {
        let forward = to.sub(from).normalize();
        let up_normal = up.normalize();
        let left = forward.cross(&up_normal);
        let true_up = left.cross(&forward);
        let backward = forward.multiply_scalar(Scalar { v: -SCALE });
        let negative_from = from.multiply_scalar(Scalar { v: -SCALE });
        let zero = Scalar { v: 0 };
        let one = Scalar { v: SCALE };
        let orientation = Matrix4::new(
            vec![
                left.x, left.y, left.z, zero,
                true_up.x, true_up.y, true_up.z, zero,
                backward.x, backward.y, backward.z, zero,
                zero, zero, zero, one,
            ],
        );
        let translation = Matrix4::translation(negative_from.x, negative_from.y, negative_from.z);
        orientation.multiply(&translation)
    }
}

} // verus!
