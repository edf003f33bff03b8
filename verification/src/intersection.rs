//! Intersections: a ray parameter `t` tagged with the shape it struck,
//! hit selection, and the sort that orders a ray's intersections.
//!
//! A raw intersection list carries no order; [`sort_by_t`] imposes the
//! ascending order by `t`, stably, and [`Intersection::hit`] picks the
//! nearest strictly positive intersection — whatever lies at a negative
//! parameter is behind the ray's origin and never visible.

use vstd::prelude::*;

verus! {

use crate::fx::{fx_add, fx_div, fx_mul, fx_pow, fx_sqrt, fx_sub, Scalar, SCALE, SURFACE_BIAS};
use crate::point::{
    pv, v4_add, v4_dot, v4_reflect, v4_scale, v4_sub, Point, V4,
};
use crate::ray::{rv, spec_position, Ray, RayV};
use crate::shape::Shape;
use crate::world::{spec_normal_at, World};

#[derive(Clone, Copy, Debug, PartialEq, Eq, Structural)]
pub struct Intersection {
    /// Index of the struck shape in its world's arena.
    pub object: usize,
    pub t: Scalar,
}

/// An intersection keeps a strictly positive ray parameter.
pub open spec fn is_positive(x: Intersection) -> bool {
    x.t@ > 0
}

/// The sublist of intersections in front of the ray origin, in order.
pub open spec fn positives(s: Seq<Intersection>) -> Seq<Intersection> {
    s.filter(|x: Intersection| is_positive(x))
}

/// The earliest element with the smallest `t` of a non-empty list.
pub open spec fn first_min(s: Seq<Intersection>) -> Intersection
    decreases s.len(),
{
    if s.len() <= 1 {
        s[0]
    } else {
        let m = first_min(s.drop_last());
        if s.last().t@ < m.t@ {
            s.last()
        } else {
            m
        }
    }
}

/// Stable insertion of `e` into a list sorted ascending by `t`: `e` goes
/// after every element it does not strictly precede.
pub open spec fn insert_sorted(s: Seq<Intersection>, e: Intersection) -> Seq<Intersection>
    decreases s.len(),
{
    if s.len() == 0 {
        seq![e]
    } else if s.last().t@ <= e.t@ {
        s.push(e)
    } else {
        insert_sorted(s.drop_last(), e).push(s.last())
    }
}

/// The list sorted ascending by `t`, stably.
pub open spec fn sort_by_t(s: Seq<Intersection>) -> Seq<Intersection>
    decreases s.len(),
{
    if s.len() == 0 {
        Seq::empty()
    } else {
        insert_sorted(sort_by_t(s.drop_last()), s.last())
    }
}

/// Ascending by `t`.
pub open spec fn sorted_by_t(s: Seq<Intersection>) -> bool {
    forall|i: int, j: int| 0 <= i <= j < s.len() ==> s[i].t@ <= s[j].t@
}

proof fn lemma_insert_sorted_at(s: Seq<Intersection>, e: Intersection, j: int)
    requires
        0 <= j <= s.len(),
        forall|k: int| j <= k < s.len() ==> s[k].t@ > e.t@,
        j > 0 ==> s[j - 1].t@ <= e.t@,
    ensures
        insert_sorted(s, e) =~= s.insert(j, e),
    decreases s.len(),
{
    if j == s.len() {
        if s.len() == 0 {
            assert(insert_sorted(s, e) =~= s.insert(j, e));
        } else {
            assert(s.last().t@ <= e.t@);
            assert(insert_sorted(s, e) =~= s.insert(j, e));
        }
    } else {
        assert(s.last().t@ > e.t@);
        lemma_insert_sorted_at(s.drop_last(), e, j);
        assert(insert_sorted(s.drop_last(), e).push(s.last()) =~= s.insert(j, e));
    }
}

proof fn lemma_insert_sorted_keeps_order(s: Seq<Intersection>, e: Intersection)
    requires
        sorted_by_t(s),
    ensures
        sorted_by_t(insert_sorted(s, e)),
    decreases s.len(),
{
    if s.len() == 0 {
    } else if s.last().t@ <= e.t@ {
    } else {
        assert(sorted_by_t(s.drop_last()));
        lemma_insert_sorted_keeps_order(s.drop_last(), e);
        let inner = insert_sorted(s.drop_last(), e);
        assert(forall|k: int| 0 <= k < inner.len() ==> inner[k].t@ <= s.last().t@) by {
            lemma_insert_sorted_bounds(s.drop_last(), e, s.last().t@);
        }
    }
}

proof fn lemma_insert_sorted_bounds(s: Seq<Intersection>, e: Intersection, bound: int)
    requires
        forall|k: int| 0 <= k < s.len() ==> s[k].t@ <= bound,
        e.t@ <= bound,
    ensures
        forall|k: int|
            0 <= k < insert_sorted(s, e).len() ==> insert_sorted(s, e)[k].t@ <= bound,
    decreases s.len(),
{
    if s.len() == 0 {
    } else if s.last().t@ <= e.t@ {
    } else {
        assert(forall|k: int| 0 <= k < s.drop_last().len() ==> s.drop_last()[k].t@ <= bound);
        lemma_insert_sorted_bounds(s.drop_last(), e, bound);
        let inner = insert_sorted(s.drop_last(), e);
        assert(s[s.len() - 1].t@ <= bound);
        assert forall|k: int| 0 <= k < inner.push(s.last()).len() implies inner.push(
            s.last(),
        )[k].t@ <= bound by {
            if k < inner.len() {
                assert(inner[k].t@ <= bound);
            }
        }
    }
}

/// The sort orders its result ascending by `t`.
pub proof fn lemma_sort_by_t_sorted(s: Seq<Intersection>)
    ensures
        sorted_by_t(sort_by_t(s)),
    decreases s.len(),
{
    if s.len() > 0 {
        lemma_sort_by_t_sorted(s.drop_last());
        lemma_insert_sorted_keeps_order(sort_by_t(s.drop_last()), s.last());
    }
}

/// The sort keeps exactly the elements it was given.
pub proof fn lemma_sort_by_t_multiset(s: Seq<Intersection>)
    ensures
        sort_by_t(s).to_multiset() == s.to_multiset(),
    decreases s.len(),
{
    broadcast use vstd::seq_lib::group_to_multiset_ensures;

    if s.len() > 0 {
        lemma_sort_by_t_multiset(s.drop_last());
        lemma_insert_sorted_multiset(sort_by_t(s.drop_last()), s.last());
        assert(s =~= s.drop_last().push(s.last()));
    }
}

proof fn lemma_insert_sorted_multiset(s: Seq<Intersection>, e: Intersection)
    ensures
        insert_sorted(s, e).to_multiset() == s.push(e).to_multiset(),
    decreases s.len(),
{
    broadcast use vstd::seq_lib::group_to_multiset_ensures;

    if s.len() == 0 {
        assert(insert_sorted(s, e) =~= s.push(e));
    } else if s.last().t@ <= e.t@ {
    } else {
        lemma_insert_sorted_multiset(s.drop_last(), e);
        assert(s =~= s.drop_last().push(s.last()));
        assert(insert_sorted(s.drop_last(), e).push(s.last()).to_multiset()
            == insert_sorted(s.drop_last(), e).to_multiset().insert(s.last()));
        assert(s.drop_last().push(e).to_multiset().insert(s.last())
            == s.drop_last().push(e).push(s.last()).to_multiset());
        assert(s.drop_last().push(e).push(s.last()).to_multiset()
            == s.push(e).to_multiset()) by {
            lemma_push_swap_multiset(s.drop_last(), e, s.last());
        }
    }
}

proof fn lemma_push_swap_multiset(s: Seq<Intersection>, a: Intersection, b: Intersection)
    ensures
        s.push(a).push(b).to_multiset() == s.push(b).push(a).to_multiset(),
{
    broadcast use vstd::seq_lib::group_to_multiset_ensures;

    broadcast use vstd::multiset::group_multiset_axioms;

    assert(s.push(a).push(b).to_multiset() == s.to_multiset().insert(a).insert(b));
    assert(s.push(b).push(a).to_multiset() == s.to_multiset().insert(b).insert(a));
    assert(s.to_multiset().insert(a).insert(b) =~= s.to_multiset().insert(b).insert(a));
}


/// The earliest-minimum element of a non-empty list is in the list.
pub proof fn lemma_first_min_in(s: Seq<Intersection>)
    requires
        s.len() > 0,
    ensures
        s.contains(first_min(s)),
    decreases s.len(),
{
    if s.len() <= 1 {
        assert(s[0] == first_min(s));
    } else {
        lemma_first_min_in(s.drop_last());
        if s.last().t@ < first_min(s.drop_last()).t@ {
            assert(s[s.len() - 1] == first_min(s));
        } else {
            let j = choose|j: int|
                0 <= j < s.drop_last().len() && s.drop_last()[j] == first_min(s.drop_last());
            assert(s[j] == first_min(s));
        }
    }
}

/// Law: the earliest-minimum element is no later than any element: what
/// `hit` returns lies at the smallest surviving ray parameter.
pub proof fn lemma_first_min_minimal(s: Seq<Intersection>)
    requires
        s.len() > 0,
    ensures
        forall|j: int| 0 <= j < s.len() ==> first_min(s).t@ <= s[j].t@,
    decreases s.len(),
{
    if s.len() > 1 {
        lemma_first_min_minimal(s.drop_last());
        assert forall|j: int| 0 <= j < s.len() implies first_min(s).t@ <= s[j].t@ by {
            if j < s.len() - 1 {
                assert(s.drop_last()[j] == s[j]);
            }
        }
    }
}

/// Every intersection that survives the positivity filter came from the
/// original list.
pub proof fn lemma_positives_subset(s: Seq<Intersection>)
    ensures
        forall|i: int| 0 <= i < positives(s).len() ==> s.contains(#[trigger] positives(s)[i]),
    decreases s.len(),
{
    reveal(Seq::filter);
    if s.len() > 0 {
        lemma_positives_subset(s.drop_last());
        let inner = positives(s.drop_last());
        let out = positives(s);
        assert forall|i: int| 0 <= i < out.len() implies s.contains(#[trigger] out[i]) by {
            if s.last().t@ > 0 && i == out.len() - 1 {
                assert(out[i] == s[s.len() - 1]);
            } else {
                assert(out[i] == inner[i]);
                assert(s.drop_last().contains(inner[i]));
                let j = choose|j: int|
                    0 <= j < s.drop_last().len() && s.drop_last()[j] == inner[i];
                assert(s[j] == inner[i]);
            }
        }
    }
}

/// Sort a list of intersections ascending by `t`, stably.
pub fn sort_intersections(xs: Vec<Intersection>) -> (r: Vec<Intersection>)
    ensures
        r@ == sort_by_t(xs@),
{
    let mut out: Vec<Intersection> = Vec::new();
    let mut k: usize = 0;
    proof {
        assert(xs@.subrange(0, 0) =~= Seq::<Intersection>::empty());
    }
    while k < xs.len()
        invariant
            k <= xs@.len(),
            out@ == sort_by_t(xs@.subrange(0, k as int)),
        decreases xs@.len() - k,
    {
        let e = xs[k];
        let mut j: usize = out.len();
        while j > 0 && out[j - 1].t.gt(e.t)
            invariant
                j <= out@.len(),
                forall|i: int| j <= i < out@.len() ==> out@[i].t@ > e.t@,
            decreases j,
        {
            j = j - 1;
        }
        proof {
            lemma_insert_sorted_at(out@, e, j as int);
        }
        out.insert(j, e);
        proof {
            assert(xs@.subrange(0, k as int + 1).drop_last() =~= xs@.subrange(0, k as int));
            assert(xs@.subrange(0, k as int + 1).last() == xs@[k as int]);
        }
        k = k + 1;
    }
    proof {
        assert(xs@.subrange(0, xs@.len() as int) =~= xs@);
    }
    out
}

impl Intersection {
    /// The two intersections as a list.
    pub fn intersections(i1: Intersection, i2: Intersection) -> (r: Vec<Intersection>)
        ensures
            r@ =~= seq![i1, i2],
    {
        let mut v = Vec::new();
        v.push(i1);
        v.push(i2);
        v
    }

    /// Drop the intersections at or behind the ray origin, and return the
    /// nearest of what remains: the earliest intersection with the
    /// smallest strictly positive `t`, or nothing when every `t` is
    /// non-positive.
    pub fn hit(hits: &mut Vec<Intersection>) -> (r: Option<Intersection>)
        ensures
            final(hits)@ == positives(old(hits)@),
            final(hits)@.len() == 0 ==> r.is_none(),
            final(hits)@.len() > 0 ==> r == Some(first_min(final(hits)@)),
    {
        let ghost orig = hits@;
        let mut kept: Vec<Intersection> = Vec::new();
        let mut k: usize = 0;
        proof {
            reveal(Seq::filter);
            assert(orig.subrange(0, 0) =~= Seq::<Intersection>::empty());
        }
        while k < hits.len()
            invariant
                k <= orig.len(),
                hits@ == orig,
                kept@ == positives(orig.subrange(0, k as int)),
            decreases orig.len() - k,
        {
            let x = hits[k];
            proof {
                reveal(Seq::filter);
                assert(orig.subrange(0, k as int + 1).drop_last() =~= orig.subrange(0, k as int));
                assert(orig.subrange(0, k as int + 1).last() == orig[k as int]);
            }
            if x.t.gt(Scalar { v: 0 }) {
                kept.push(x);
            }
            k = k + 1;
        }
        proof {
            assert(orig.subrange(0, orig.len() as int) =~= orig);
        }
        if kept.len() == 0 {
            *hits = kept;
            return None;
        }
        let mut best = kept[0];
        let mut i: usize = 1;
        proof {
            assert(kept@.subrange(0, 1)[0] == kept@[0]);
            assert(best == first_min(kept@.subrange(0, 1)));
        }
        while i < kept.len()
            invariant
                1 <= i <= kept@.len(),
                best == first_min(kept@.subrange(0, i as int)),
            decreases kept@.len() - i,
        {
            let h = kept[i];
            proof {
                assert(kept@.subrange(0, i as int + 1).drop_last() =~= kept@.subrange(0, i as int));
                assert(kept@.subrange(0, i as int + 1).last() == kept@[i as int]);
            }
            if h.t.lt(best.t) {
                best = h;
            }
            i = i + 1;
        }
        proof {
            assert(kept@.subrange(0, kept@.len() as int) =~= kept@);
        }
        *hits = kept;
        Some(best)
    }
}


/// The per-hit shading record: the hit point, the eye and surface
/// vectors, whether the ray struck from inside, the refractive indices
/// on both sides of the surface, the two bias-nudged points that keep
/// secondary rays off the surface, and the mirror reflection direction.
#[derive(Debug)]
pub struct Precompute {
    pub eyev: Point,
    pub inside: bool,
    pub normalv: Point,
    pub object: usize,
    pub n1: Scalar,
    pub n2: Scalar,
    pub over_point: Point,
    pub under_point: Point,
    pub point: Point,
    pub reflectv: Point,
    pub t: Scalar,
}

/// The ghost view of a shading record.
pub ghost struct PrecomputeV {
    pub eyev: V4,
    pub inside: bool,
    pub normalv: V4,
    pub object: int,
    pub n1: int,
    pub n2: int,
    pub over_point: V4,
    pub under_point: V4,
    pub point: V4,
    pub reflectv: V4,
    pub t: int,
}

/// View of a shading record.
pub open spec fn pcv(p: Precompute) -> PrecomputeV {
    PrecomputeV {
        eyev: pv(p.eyev),
        inside: p.inside,
        normalv: pv(p.normalv),
        object: p.object as int,
        n1: p.n1@,
        n2: p.n2@,
        over_point: pv(p.over_point),
        under_point: pv(p.under_point),
        point: pv(p.point),
        reflectv: pv(p.reflectv),
        t: p.t@,
    }
}

/// The refractive index of a shape of the arena; outside the arena the
/// surrounding medium's one unit stands in.
pub open spec fn spec_refractive_index(shapes: Seq<Shape>, o: usize) -> int {
    shapes[o as int].material.refractive_index@
}

/// The containment list without every record of shape `obj`.
pub open spec fn spec_containers_without(cs: Seq<usize>, obj: usize) -> Seq<usize> {
    cs.filter(|o: usize| o != obj)
}

/// One step of the containment replay: a shape already recorded leaves
/// the list, a new one is appended.
pub open spec fn spec_containers_step(cs: Seq<usize>, obj: usize) -> Seq<usize> {
    if cs.contains(obj) {
        spec_containers_without(cs, obj)
    } else {
        cs.push(obj)
    }
}

/// The containment replay after the first `k` intersections of the list:
/// the shapes the ray is currently inside, with the refractive indices
/// recorded at the moment the target intersection was reached — the
/// medium being left just before the target's shape was toggled, and the
/// medium being entered just after.
pub open spec fn spec_refraction_state(
    shapes: Seq<Shape>,
    xs: Seq<Intersection>,
    target: Intersection,
    k: int,
) -> (Seq<usize>, int, int)
    decreases k,
{
    if k <= 0 {
        (Seq::empty(), SCALE as int, SCALE as int)
    } else {
        let prev = spec_refraction_state(shapes, xs, target, k - 1);
        let cs = prev.0;
        let x = xs[k - 1];
        let n1 = if x == target {
            if cs.len() > 0 {
                spec_refractive_index(shapes, cs.last())
            } else {
                SCALE as int
            }
        } else {
            prev.1
        };
        let cs2 = spec_containers_step(cs, x.object);
        let n2 = if x == target {
            if cs2.len() > 0 {
                spec_refractive_index(shapes, cs2.last())
            } else {
                SCALE as int
            }
        } else {
            prev.2
        };
        (cs2, n1, n2)
    }
}

/// The index of the medium the ray leaves at the target intersection.
pub open spec fn spec_n1(shapes: Seq<Shape>, xs: Seq<Intersection>, target: Intersection) -> int {
    spec_refraction_state(shapes, xs, target, xs.len() as int).1
}

/// The index of the medium the ray enters at the target intersection.
pub open spec fn spec_n2(shapes: Seq<Shape>, xs: Seq<Intersection>, target: Intersection) -> int {
    spec_refraction_state(shapes, xs, target, xs.len() as int).2
}

/// The shading record of one intersection: the hit point along the ray,
/// the surface normal there (flipped when the ray strikes from inside),
/// the eye vector opposite the ray, the bias points nudged along the
/// flipped normal, the mirror reflection of the ray direction about it,
/// and the refractive transition found by replaying the full
/// intersection list.
pub open spec fn spec_precompute(
    shapes: Seq<Shape>,
    target: Intersection,
    r: RayV,
    xs: Seq<Intersection>,
) -> PrecomputeV {
    let position = spec_position(r, target.t@);
    let normal0 = spec_normal_at(shapes, target.object as int, position);
    let eyev = v4_scale(r.direction, -(SCALE as int));
    let inside = v4_dot(normal0, eyev) < 0;
    let normalv = if inside {
        v4_scale(normal0, -(SCALE as int))
    } else {
        normal0
    };
    PrecomputeV {
        eyev,
        inside,
        normalv,
        object: target.object as int,
        n1: spec_n1(shapes, xs, target),
        n2: spec_n2(shapes, xs, target),
        over_point: v4_add(position, v4_scale(normalv, SURFACE_BIAS as int)),
        under_point: v4_sub(position, v4_scale(normalv, SURFACE_BIAS as int)),
        point: position,
        reflectv: v4_reflect(r.direction, normalv),
        t: target.t@,
    }
}

/// The Schlick approximation to the Fresnel reflectance at a shading
/// record: total internal reflection reflects everything; otherwise a
/// polynomial in the grazing angle blends between the normal-incidence
/// reflectance and one.
pub open spec fn spec_schlick(c: PrecomputeV) -> int {
    let q = fx_div(fx_sub(c.n1, c.n2), fx_add(c.n1, c.n2));
    let r0 = fx_mul(q, q);
    let cos0 = v4_dot(c.eyev, c.normalv);
    if c.n1 > c.n2 {
        let n = fx_div(c.n1, c.n2);
        let sin2_t = fx_mul(fx_mul(n, n), fx_sub(SCALE as int, fx_mul(cos0, cos0)));
        if sin2_t > SCALE as int {
            SCALE as int
        } else {
            let cos_t = fx_sqrt(fx_sub(SCALE as int, sin2_t));
            fx_add(r0, fx_mul(fx_sub(SCALE as int, r0), fx_pow(fx_sub(SCALE as int, cos_t), 5)))
        }
    } else {
        fx_add(r0, fx_mul(fx_sub(SCALE as int, r0), fx_pow(fx_sub(SCALE as int, cos0), 5)))
    }
}

/// Whether the list records shape `x`.
fn contains_idx(v: &Vec<usize>, x: usize) -> (r: bool)
    ensures
        r == v@.contains(x),
{
    let mut k: usize = 0;
    while k < v.len()
        invariant
            k <= v@.len(),
            forall|i: int| 0 <= i < k ==> v@[i] != x,
        decreases v@.len() - k,
    {
        if v[k] == x {
            return true;
        }
        k = k + 1;
    }
    false
}

/// The list without every record of shape `x`.
fn remove_idx(v: &Vec<usize>, x: usize) -> (r: Vec<usize>)
    ensures
        r@ == spec_containers_without(v@, x),
{
    let mut out: Vec<usize> = Vec::new();
    let mut k: usize = 0;
    proof {
        reveal(Seq::filter);
        assert(v@.subrange(0, 0) =~= Seq::<usize>::empty());
    }
    while k < v.len()
        invariant
            k <= v@.len(),
            out@ == spec_containers_without(v@.subrange(0, k as int), x),
        decreases v@.len() - k,
    {
        proof {
            reveal(Seq::filter);
            assert(v@.subrange(0, k as int + 1).drop_last() =~= v@.subrange(0, k as int));
            assert(v@.subrange(0, k as int + 1).last() == v@[k as int]);
        }
        if v[k] != x {
            out.push(v[k]);
        }
        k = k + 1;
    }
    proof {
        assert(v@.subrange(0, v@.len() as int) =~= v@);
    }
    out
}

impl Intersection {
    /// The shading record of this intersection of `ray`, replaying the
    /// full intersection list `xs` of the same ray for the refractive
    /// transition.
    pub fn precompute(&self, ray: &Ray, xs: &Vec<Intersection>, world: &World) -> (r: Precompute)
        requires
            world.wf(),
            self.object < world.shapes@.len(),
            forall|j: int|
                0 <= j < xs@.len() ==> (#[trigger] xs@[j]).object < world.shapes@.len(),
        ensures
            pcv(r) == spec_precompute(world.shapes@, *self, rv(*ray), xs@),
    {
        let position = ray.position(self.t);
        let normal0 = world.normal_at(self.object, &position);
        let eyev = ray.direction.multiply_scalar(Scalar { v: -SCALE });
        let mut inside = false;
        let mut normalv = normal0;
        if normal0.dot(&eyev).lt(Scalar { v: 0 }) {
            inside = true;
            normalv = normal0.multiply_scalar(Scalar { v: -SCALE });
        }
        let over_point = position.add(&normalv.multiply_scalar(Scalar { v: SURFACE_BIAS }));
        let under_point = position.sub(&normalv.multiply_scalar(Scalar { v: SURFACE_BIAS }));
        let reflectv = ray.direction.reflect(&normalv);

        let mut containers: Vec<usize> = Vec::new();
        let mut n1 = Scalar { v: SCALE };
        let mut n2 = Scalar { v: SCALE };
        let mut k: usize = 0;
        while k < xs.len()
            invariant
                world.wf(),
                k <= xs@.len(),
                forall|j: int|
                    0 <= j < xs@.len() ==> (#[trigger] xs@[j]).object < world.shapes@.len(),
                forall|j: int|
                    0 <= j < containers@.len() ==> (#[trigger] containers@[j])
                        < world.shapes@.len(),
                containers@ == spec_refraction_state(world.shapes@, xs@, *self, k as int).0,
                n1@ == spec_refraction_state(world.shapes@, xs@, *self, k as int).1,
                n2@ == spec_refraction_state(world.shapes@, xs@, *self, k as int).2,
            decreases xs@.len() - k,
        {
            let x = xs[k];
            if x == *self {
                if containers.len() > 0 {
                    let last = containers[containers.len() - 1];
                    n1 = world.shapes[last].material.refractive_index;
                } else {
                    n1 = Scalar { v: SCALE };
                }
            }
            let ghost cs_before = containers@;
            if contains_idx(&containers, x.object) {
                containers = remove_idx(&containers, x.object);
                proof {
                    lemma_filter_keeps_range(cs_before, x.object, world.shapes@.len() as int);
                }
            } else {
                containers.push(x.object);
            }
            if x == *self {
                if containers.len() > 0 {
                    let last = containers[containers.len() - 1];
                    n2 = world.shapes[last].material.refractive_index;
                } else {
                    n2 = Scalar { v: SCALE };
                }
            }
            k = k + 1;
        }

        Precompute {
            eyev,
            inside,
            normalv,
            object: self.object,
            n1,
            n2,
            over_point,
            under_point,
            point: position,
            reflectv,
            t: self.t,
        }
    }

    /// The Schlick reflectance of a shading record.
    pub fn schlick(precompute: &Precompute) -> (r: Scalar)
        ensures
            r@ == spec_schlick(pcv(*precompute)),
    {
        let q = precompute.n1.sub(precompute.n2).div(precompute.n1.add(precompute.n2));
        let r0 = q.mul(q);
        let mut cos = precompute.eyev.dot(&precompute.normalv);
        if precompute.n1.gt(precompute.n2) {
            let n = precompute.n1.div(precompute.n2);
            let sin2_t = n.mul(n).mul(Scalar { v: SCALE }.sub(cos.mul(cos)));
            if sin2_t.gt(Scalar { v: SCALE }) {
                return Scalar { v: SCALE };
            }
            cos = Scalar { v: SCALE }.sub(sin2_t).sqrt();
        }
        r0.add(Scalar { v: SCALE }.sub(r0).mul(Scalar { v: SCALE }.sub(cos).pow(5)))
    }
}

/// Filtering a list of arena indices keeps every survivor in range.
proof fn lemma_filter_keeps_range(cs: Seq<usize>, obj: usize, len: int)
    requires
        forall|j: int| 0 <= j < cs.len() ==> (#[trigger] cs[j]) < len,
    ensures
        forall|j: int|
            0 <= j < spec_containers_without(cs, obj).len() ==> (
            #[trigger] spec_containers_without(cs, obj)[j]) < len,
    decreases cs.len(),
{
    reveal(Seq::filter);
    if cs.len() > 0 {
        assert(forall|j: int| 0 <= j < cs.drop_last().len() ==> (#[trigger] cs.drop_last()[j]) < len);
        lemma_filter_keeps_range(cs.drop_last(), obj, len);
        let inner = spec_containers_without(cs.drop_last(), obj);
        let out = spec_containers_without(cs, obj);
        assert forall|j: int| 0 <= j < out.len() implies (#[trigger] out[j]) < len by {
            if cs.last() != obj {
                assert(out == inner.push(cs.last()));
                if j < inner.len() {
                    assert(out[j] == inner[j]);
                } else {
                    assert(out[j] == cs.last());
                    assert(cs[cs.len() - 1] < len);
                }
            } else {
                assert(out == inner);
            }
        }
    }
}

} // verus!
