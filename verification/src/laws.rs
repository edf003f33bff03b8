//! Laws the kernel keeps, stated and proved over the same spec
//! functions its contracts use.
//!
//! Fixed-point rounding keeps the fully general inverse law out of
//! reach — a cofactor inverse truncates, so a product with it only
//! approximates the identity — but for translations every step is
//! exact, and those exact laws are proved here.

use vstd::prelude::*;

verus! {

use crate::fx::{
    fx_add, fx_div, fx_mul, lemma_fx_div_one, lemma_fx_div_zero, lemma_fx_mul_one,
    lemma_fx_mul_zero, FX_MAX, SCALE,
};
use crate::matrix::{
    cof3, cof4, det2, det3, det4, identity_v, inv4, inv_e, m4v, mp_v, mul4, mul_e, sub3, sub4,
};
use crate::point::V4;
use crate::shape::Shape;
use crate::world::{spec_normal_at, spec_normal_to_world, spec_world_to_object};

/// The entries of the transform that moves points by `(x, y, z)`.
pub open spec fn translation_v(x: int, y: int, z: int) -> Seq<int> {
    seq![
        SCALE as int, 0, 0, x,
        0, SCALE as int, 0, y,
        0, 0, SCALE as int, z,
        0, 0, 0, SCALE as int,
    ]
}

/// The ambient fixed-point facts the matrix computations below lean on.
proof fn ambient_fx_facts()
    ensures
        forall|v: int| #[trigger] fx_mul(0, v) == 0,
        forall|v: int| #[trigger] fx_mul(v, 0) == 0,
        forall|v: int|
            -(FX_MAX as int) <= v <= FX_MAX as int ==> #[trigger] fx_mul(SCALE as int, v) == v,
        forall|v: int|
            -(FX_MAX as int) <= v <= FX_MAX as int ==> #[trigger] fx_mul(v, SCALE as int) == v,
        forall|v: int|
            -(FX_MAX as int) <= v <= FX_MAX as int ==> #[trigger] fx_div(v, SCALE as int) == v,
{
    assert forall|v: int| #[trigger] fx_mul(0, v) == 0 by {
        lemma_fx_mul_zero(v);
    }
    assert forall|v: int| #[trigger] fx_mul(v, 0) == 0 by {
        lemma_fx_mul_zero(v);
    }
    assert forall|v: int|
        -(FX_MAX as int) <= v <= FX_MAX as int implies #[trigger] fx_mul(SCALE as int, v) == v by {
        lemma_fx_mul_one(v);
    }
    assert forall|v: int|
        -(FX_MAX as int) <= v <= FX_MAX as int implies #[trigger] fx_mul(v, SCALE as int) == v by {
        lemma_fx_mul_one(v);
    }
    assert forall|v: int|
        -(FX_MAX as int) <= v <= FX_MAX as int implies #[trigger] fx_div(v, SCALE as int) == v by {
        lemma_fx_div_one(v);
    }
}

/// The determinant of a translation is exactly one unit.
pub proof fn lemma_translation_det(x: int, y: int, z: int)
    requires
        -(FX_MAX as int) <= x <= FX_MAX as int,
        -(FX_MAX as int) <= y <= FX_MAX as int,
        -(FX_MAX as int) <= z <= FX_MAX as int,
    ensures
        det4(translation_v(x, y, z)) == SCALE as int,
{
    ambient_fx_facts();
    let t = translation_v(x, y, z);
    let one = SCALE as int;
    reveal(det3);
    reveal(det4);
    assert(sub4(t, 0, 0) =~= seq![one, 0, y, 0, one, z, 0, 0, one]);
    assert(sub3(seq![one, 0, y, 0, one, z, 0, 0, one], 0, 0) =~= seq![one, z, 0, one]);
    assert(sub3(seq![one, 0, y, 0, one, z, 0, 0, one], 0, 2) =~= seq![0, one, 0, 0]);
    assert(det3(sub4(t, 0, 0)) == one);
    assert(sub4(t, 0, 3) =~= seq![0, one, 0, 0, 0, one, 0, 0, 0]);
    assert(sub3(seq![0, one, 0, 0, 0, one, 0, 0, 0], 0, 1) =~= seq![0, one, 0, 0]);
    assert(det3(sub4(t, 0, 3)) == 0);
    assert(det4(t) == one);
}

/// Law: the cofactor inverse of a translation is the opposite
/// translation, exactly.
#[verifier::rlimit(100)]
pub proof fn lemma_translation_inverse(x: int, y: int, z: int)
    requires
        -(FX_MAX as int) <= x <= FX_MAX as int,
        -(FX_MAX as int) <= y <= FX_MAX as int,
        -(FX_MAX as int) <= z <= FX_MAX as int,
    ensures
        inv4(translation_v(x, y, z)) =~= translation_v(-x, -y, -z),
{
    ambient_fx_facts();
    lemma_translation_det(x, y, z);
    let t = translation_v(x, y, z);
    let one = SCALE as int;
    reveal(det3);
    reveal(det4);
    // the cofactors that feed the sixteen inverse entries
    assert(sub4(t, 0, 0) =~= seq![one, 0, y, 0, one, z, 0, 0, one]);
    assert(sub3(seq![one, 0, y, 0, one, z, 0, 0, one], 0, 0) =~= seq![one, z, 0, one]);
    assert(sub3(seq![one, 0, y, 0, one, z, 0, 0, one], 0, 2) =~= seq![0, one, 0, 0]);
    assert(cof4(t, 0, 0) == one);
    assert(sub4(t, 0, 1) =~= seq![0, 0, y, 0, one, z, 0, 0, one]);
    assert(sub3(seq![0, 0, y, 0, one, z, 0, 0, one], 0, 2) =~= seq![0, one, 0, 0]);
    assert(cof4(t, 0, 1) == 0);
    assert(sub4(t, 0, 2) =~= seq![0, one, y, 0, 0, z, 0, 0, one]);
    assert(sub3(seq![0, one, y, 0, 0, z, 0, 0, one], 0, 1) =~= seq![0, z, 0, one]);
    assert(sub3(seq![0, one, y, 0, 0, z, 0, 0, one], 0, 2) =~= seq![0, 0, 0, 0]);
    assert(cof4(t, 0, 2) == 0);
    assert(sub4(t, 0, 3) =~= seq![0, one, 0, 0, 0, one, 0, 0, 0]);
    assert(sub3(seq![0, one, 0, 0, 0, one, 0, 0, 0], 0, 1) =~= seq![0, one, 0, 0]);
    assert(cof4(t, 0, 3) == 0);
    assert(sub4(t, 1, 0) =~= seq![0, 0, x, 0, one, z, 0, 0, one]);
    assert(sub3(seq![0, 0, x, 0, one, z, 0, 0, one], 0, 2) =~= seq![0, one, 0, 0]);
    assert(cof4(t, 1, 0) == 0);
    assert(sub4(t, 1, 1) =~= seq![one, 0, x, 0, one, z, 0, 0, one]);
    assert(sub3(seq![one, 0, x, 0, one, z, 0, 0, one], 0, 0) =~= seq![one, z, 0, one]);
    assert(sub3(seq![one, 0, x, 0, one, z, 0, 0, one], 0, 2) =~= seq![0, one, 0, 0]);
    assert(cof4(t, 1, 1) == one);
    assert(sub4(t, 1, 2) =~= seq![one, 0, x, 0, 0, z, 0, 0, one]);
    assert(sub3(seq![one, 0, x, 0, 0, z, 0, 0, one], 0, 0) =~= seq![0, z, 0, one]);
    assert(sub3(seq![one, 0, x, 0, 0, z, 0, 0, one], 0, 2) =~= seq![0, 0, 0, 0]);
    assert(cof4(t, 1, 2) == 0);
    assert(sub4(t, 1, 3) =~= seq![one, 0, 0, 0, 0, one, 0, 0, 0]);
    assert(sub3(seq![one, 0, 0, 0, 0, one, 0, 0, 0], 0, 0) =~= seq![0, one, 0, 0]);
    assert(cof4(t, 1, 3) == 0);
    assert(sub4(t, 2, 0) =~= seq![0, 0, x, one, 0, y, 0, 0, one]);
    assert(sub3(seq![0, 0, x, one, 0, y, 0, 0, one], 0, 2) =~= seq![one, 0, 0, 0]);
    assert(cof4(t, 2, 0) == 0);
    assert(sub4(t, 2, 1) =~= seq![one, 0, x, 0, 0, y, 0, 0, one]);
    assert(sub3(seq![one, 0, x, 0, 0, y, 0, 0, one], 0, 0) =~= seq![0, y, 0, one]);
    assert(sub3(seq![one, 0, x, 0, 0, y, 0, 0, one], 0, 2) =~= seq![0, 0, 0, 0]);
    assert(cof4(t, 2, 1) == 0);
    assert(sub4(t, 2, 2) =~= seq![one, 0, x, 0, one, y, 0, 0, one]);
    assert(sub3(seq![one, 0, x, 0, one, y, 0, 0, one], 0, 0) =~= seq![one, y, 0, one]);
    assert(sub3(seq![one, 0, x, 0, one, y, 0, 0, one], 0, 2) =~= seq![0, one, 0, 0]);
    assert(cof4(t, 2, 2) == one);
    assert(sub4(t, 2, 3) =~= seq![one, 0, 0, 0, one, 0, 0, 0, 0]);
    assert(sub3(seq![one, 0, 0, 0, one, 0, 0, 0, 0], 0, 0) =~= seq![one, 0, 0, 0]);
    assert(cof4(t, 2, 3) == 0);
    assert(sub4(t, 3, 0) =~= seq![0, 0, x, one, 0, y, 0, one, z]);
    assert(sub3(seq![0, 0, x, one, 0, y, 0, one, z], 0, 2) =~= seq![one, 0, 0, one]);
    assert(det2(seq![one, 0, 0, one]) == one);
    assert(cof3(seq![0, 0, x, one, 0, y, 0, one, z], 0, 2) == one);
    assert(det3(sub4(t, 3, 0)) == x);
    assert(cof4(t, 3, 0) == -x);
    assert(sub4(t, 3, 1) =~= seq![one, 0, x, 0, 0, y, 0, one, z]);
    assert(sub3(seq![one, 0, x, 0, 0, y, 0, one, z], 0, 0) =~= seq![0, y, one, z]);
    assert(sub3(seq![one, 0, x, 0, 0, y, 0, one, z], 0, 2) =~= seq![0, 0, 0, one]);
    assert(det2(seq![0, y, one, z]) == -y);
    assert(cof4(t, 3, 1) == -y);
    assert(sub4(t, 3, 2) =~= seq![one, 0, x, 0, one, y, 0, 0, z]);
    assert(sub3(seq![one, 0, x, 0, one, y, 0, 0, z], 0, 0) =~= seq![one, y, 0, z]);
    assert(sub3(seq![one, 0, x, 0, one, y, 0, 0, z], 0, 2) =~= seq![0, one, 0, 0]);
    assert(det2(seq![one, y, 0, z]) == z);
    assert(cof4(t, 3, 2) == -z);
    assert(sub4(t, 3, 3) =~= seq![one, 0, 0, 0, one, 0, 0, 0, one]);
    assert(sub3(seq![one, 0, 0, 0, one, 0, 0, 0, one], 0, 0) =~= seq![one, 0, 0, one]);
    assert(cof4(t, 3, 3) == one);
    // the sixteen entries of the inverse
    assert forall|i: int| 0 <= i < 16 implies inv4(t)[i] == translation_v(-x, -y, -z)[i] by {
        assert(inv4(t)[i] == inv_e(t, i / 4, i % 4));
    }
}

/// Law: a translation times its cofactor inverse is exactly the
/// identity transform. (With general entries the cofactor inverse
/// truncates and only approximates this; a translation inverts
/// exactly.)
#[verifier::rlimit(100)]
pub proof fn lemma_translation_times_inverse_is_identity(x: int, y: int, z: int)
    requires
        -(FX_MAX as int) <= x <= FX_MAX as int,
        -(FX_MAX as int) <= y <= FX_MAX as int,
        -(FX_MAX as int) <= z <= FX_MAX as int,
    ensures
        mul4(translation_v(x, y, z), inv4(translation_v(x, y, z))) =~= identity_v(),
{
    ambient_fx_facts();
    lemma_translation_inverse(x, y, z);
    let t = translation_v(x, y, z);
    let ti = translation_v(-x, -y, -z);
    assert(inv4(t) == ti);
    assert forall|i: int| 0 <= i < 16 implies mul4(t, ti)[i] == identity_v()[i] by {
        assert(mul4(t, ti)[i] == mul_e(t, ti, i / 4, i % 4));
    }
    assert(mul4(t, inv4(t)) =~= mul4(t, ti));
}

/// Law: carrying a world point into the space of a purely translated,
/// parentless shape and back returns the original point, exactly, as
/// long as neither step saturates.
pub proof fn lemma_translation_round_trip(shapes: Seq<Shape>, i: int, x: int, y: int, z: int, p: V4)
    requires
        0 <= i < shapes.len(),
        shapes[i].parent is None,
        m4v(shapes[i].transform) == translation_v(x, y, z),
        -(FX_MAX as int) <= x <= FX_MAX as int,
        -(FX_MAX as int) <= y <= FX_MAX as int,
        -(FX_MAX as int) <= z <= FX_MAX as int,
        -(FX_MAX as int) <= p.x - x <= FX_MAX as int,
        -(FX_MAX as int) <= p.y - y <= FX_MAX as int,
        -(FX_MAX as int) <= p.z - z <= FX_MAX as int,
        -(FX_MAX as int) <= p.x <= FX_MAX as int,
        -(FX_MAX as int) <= p.y <= FX_MAX as int,
        -(FX_MAX as int) <= p.z <= FX_MAX as int,
        p.w == SCALE as int,
    ensures
        mp_v(m4v(shapes[i].transform), spec_world_to_object(shapes, i, p)) == p,
{
    ambient_fx_facts();
    lemma_translation_inverse(x, y, z);
    let t = translation_v(x, y, z);
    let ti = translation_v(-x, -y, -z);
    assert(spec_world_to_object(shapes, i, p) == mp_v(ti, p));
    let q = mp_v(ti, p);
    assert(q.x == fx_add(fx_add(fx_add(fx_mul(SCALE as int, p.x), 0), 0), fx_mul(-x, p.w)));
    assert(q.x == p.x - x);
    assert(q.y == p.y - y);
    assert(q.z == p.z - z);
    assert(q.w == SCALE as int);
    let back = mp_v(t, q);
    assert(back.x == fx_add(fx_add(fx_add(fx_mul(SCALE as int, q.x), 0), 0), fx_mul(x, q.w)));
    assert(back.x == p.x);
    assert(back.y == p.y);
    assert(back.z == p.z);
    assert(back.w == SCALE as int);
}

/// Law: a surface normal carried to world space is always a direction:
/// its `w` component is exactly zero, at every depth of the scene
/// graph.
pub proof fn lemma_normal_is_direction(shapes: Seq<Shape>, i: int, n: V4)
    ensures
        spec_normal_to_world(shapes, i, n).w == 0,
    decreases i,
{
    let ln = mp_v(crate::matrix::transpose4(inv4(m4v(shapes[i].transform))), n);
    let zn = V4 { x: ln.x, y: ln.y, z: ln.z, w: 0 };
    match shapes[i].parent {
        Some(par) => {
            if 0 <= par < i {
                lemma_normal_is_direction(shapes, par as int, zn);
                lemma_normalize_keeps_zero_w(spec_normal_to_world(shapes, par as int, zn));
            } else {
                lemma_normalize_keeps_zero_w(zn);
            }
        },
        None => {
            lemma_normalize_keeps_zero_w(zn);
        },
    }
}

/// Law: the normal the kernel reports at any world point of any shape
/// is a direction, never a point.
pub proof fn lemma_normal_at_is_direction(shapes: Seq<Shape>, i: int, world_point: V4)
    ensures
        spec_normal_at(shapes, i, world_point).w == 0,
{
    let local_point = mp_v(inv4(m4v(shapes[i].transform)), world_point);
    let local_normal = crate::intersectable::spec_local_normal(
        shapes[i].intersectable,
        local_point,
    );
    lemma_normal_is_direction(shapes, i, local_normal);
}

/// Normalizing a tuple whose `w` is zero keeps `w` exactly zero.
proof fn lemma_normalize_keeps_zero_w(v: V4)
    requires
        v.w == 0,
    ensures
        crate::point::v4_normalize(v).w == 0,
{
    lemma_fx_div_zero(crate::point::v4_magnitude(v));
}

} // verus!
