//! The world: an arena of scene-graph nodes, the indices of its
//! top-level objects, and one point light.
//!
//! A node's parent always has a smaller index and a group's children
//! always have larger ones, so walks up the parent chain and down the
//! children terminate and a reference cycle cannot be built.

use vstd::prelude::*;

verus! {

use crate::color::{cv, cv_add, cv_black, cv_scale, Color, ColorV};
use crate::fx::{fx_div, fx_mul, fx_sqrt, fx_sub, Scalar, SCALE};
use crate::intersectable::{spec_intersect_world, lemma_intersect_world_in_range};
use crate::intersection::{
    first_min, pcv, positives, spec_precompute, spec_schlick, Intersection, Precompute,
    PrecomputeV,
};
use crate::material::{spec_lighting, Material};
use crate::matrix::{inv4, m4v, mp_v, transpose4, Matrix4};
use crate::point::{
    point, pv, v4_dot, v4_magnitude, v4_normalize, v4_scale, v4_sub, Point, V4,
};
use crate::point_light::PointLight;
use crate::ray::{rv, Ray, RayV};
use crate::shape::{IntersectableType, Shape};

pub struct World {
    pub shapes: Vec<Shape>,
    pub objects: Vec<usize>,
    pub light_source: PointLight,
}

/// One node is sound: it is itself well formed, its parent (if any)
/// comes earlier in the arena, and its children (if any) come later.
pub open spec fn node_wf(shapes: Seq<Shape>, i: int) -> bool {
    &&& shapes[i].wf()
    &&& (shapes[i].parent matches Some(p) ==> p < i)
    &&& (forall|k: int|
        0 <= k < shapes[i].intersectable.children@.len() ==> i < (
        #[trigger] shapes[i].intersectable.children@[k]) < shapes.len())
}

/// Every node of the arena is sound.
pub open spec fn arena_wf(shapes: Seq<Shape>) -> bool {
    forall|i: int| 0 <= i < shapes.len() ==> #[trigger] node_wf(shapes, i)
}

/// A world point carried into the local space of node `i`: first through
/// the parent chain, then through this node's own inverse transform.
pub open spec fn spec_world_to_object(shapes: Seq<Shape>, i: int, p: V4) -> V4
    decreases i,
{
    let q = match shapes[i].parent {
        Some(par) => if 0 <= par < i {
            spec_world_to_object(shapes, par as int, p)
        } else {
            p
        },
        None => p,
    };
    mp_v(inv4(m4v(shapes[i].transform)), q)
}

/// A local normal carried out to world space: the inverse-transpose of
/// this node's transform, `w` zeroed, normalized, and handed up the
/// parent chain, renormalizing at each level.
pub open spec fn spec_normal_to_world(shapes: Seq<Shape>, i: int, n: V4) -> V4
    decreases i,
{
    let ln = mp_v(transpose4(inv4(m4v(shapes[i].transform))), n);
    let zn = V4 { x: ln.x, y: ln.y, z: ln.z, w: 0 };
    match shapes[i].parent {
        Some(par) => if 0 <= par < i {
            v4_normalize(spec_normal_to_world(shapes, par as int, zn))
        } else {
            v4_normalize(zn)
        },
        None => v4_normalize(zn),
    }
}

/// The surface normal in world space at a world point of node `i`: the
/// point is carried into the node's local space, the primitive's
/// analytic normal is taken there, and carried back out.
pub open spec fn spec_normal_at(shapes: Seq<Shape>, i: int, world_point: V4) -> V4 {
    let local_point = mp_v(inv4(m4v(shapes[i].transform)), world_point);
    let local_normal = crate::intersectable::spec_local_normal(
        shapes[i].intersectable,
        local_point,
    );
    spec_normal_to_world(shapes, i, local_normal)
}

impl World {
    pub open spec fn wf(&self) -> bool {
        &&& arena_wf(self.shapes@)
        &&& (forall|k: int|
            0 <= k < self.objects@.len() ==> (#[trigger] self.objects@[k]) < self.shapes@.len())
    }

    /// A world with no objects, lit by a white light at the origin.
    pub fn empty() -> (r: World)
        ensures
            r.wf(),
            r.shapes@.len() == 0,
            r.objects@.len() == 0,
    {
        World {
            shapes: Vec::new(),
            objects: Vec::new(),
            light_source: PointLight {
                intensity: Color::white(),
                position: point(Scalar { v: 0 }, Scalar { v: 0 }, Scalar { v: 0 }),
            },
        }
    }

    /// The default world: an outer sphere with a green-tinted material
    /// around a half-scale inner sphere, lit from the upper left front.
    pub fn new() -> (r: World)
        ensures
            r.wf(),
            r.shapes@.len() == 2,
            r.objects@ =~= seq![0usize, 1usize],
            r.shapes@[0].intersectable.intersectable_type == IntersectableType::Sphere,
            r.shapes@[1].intersectable.intersectable_type == IntersectableType::Sphere,
            r.shapes@[0].parent.is_none() && r.shapes@[1].parent.is_none(),
            m4v(r.shapes@[0].transform) =~= crate::matrix::identity_v(),
            m4v(r.shapes@[1].transform) =~= seq![
                500_000int, 0, 0, 0,
                0, 500_000int, 0, 0,
                0, 0, 500_000int, 0,
                0, 0, 0, SCALE as int,
            ],
            r.shapes@[0].material.ambient@ == 100_000,
            r.shapes@[0].material.diffuse@ == 700_000,
            r.shapes@[0].material.specular@ == 200_000,
            r.shapes@[0].material.reflective@ == 0,
            r.shapes@[0].material.transparency@ == 0,
            r.shapes@[0].material.refractive_index@ == SCALE as int,
            r.shapes@[0].material.shininess == 200u32,
            r.shapes@[0].material.pattern.patternable_type matches
                crate::patternable::PatternableType::Solid(c) && c.red@ == 800_000 && c.green@
                == SCALE as int && c.blue@ == 600_000,
            crate::material::is_default_material(r.shapes@[1].material),
            pv(r.light_source.position) == (V4 {
                x: -10_000_000,
                y: 10_000_000,
                z: -10_000_000,
                w: SCALE as int,
            }),
            cv_is_white(r.light_source.intensity),
    {
        let mut outer = Shape::sphere();
        let mut m = Material::new();
        m.diffuse = Scalar { v: 700_000 };
        m.specular = Scalar { v: 200_000 };
        m.pattern = crate::patternable::Patternable::solid(
            Color::new(Scalar { v: 800_000 }, Scalar { v: SCALE }, Scalar { v: 600_000 }),
        );
        outer.material = m;
        let mut inner = Shape::sphere();
        let half = Scalar { v: 500_000 };
        inner.transform = Matrix4::scaling(half, half, half);
        proof {
            lemma_scaling_invertible(500_000);
        }
        let mut shapes: Vec<Shape> = Vec::new();
        let mut objects: Vec<usize> = Vec::new();
        shapes.push(outer);
        shapes.push(inner);
        objects.push(0);
        objects.push(1);
        World {
            shapes,
            objects,
            light_source: PointLight {
                intensity: Color::white(),
                position: point(
                    Scalar { v: -10_000_000 },
                    Scalar { v: 10_000_000 },
                    Scalar { v: -10_000_000 },
                ),
            },
        }
    }

    /// Add a top-level shape; its index is returned.
    pub fn add_shape(&mut self, shape: Shape) -> (idx: usize)
        requires
            old(self).wf(),
            shape.wf(),
            shape.parent.is_none(),
            shape.intersectable.children@.len() == 0,
        ensures
            final(self).wf(),
            idx == old(self).shapes@.len(),
            final(self).shapes@ == old(self).shapes@.push(shape),
            final(self).objects@ == old(self).objects@.push(idx),
            final(self).light_source == old(self).light_source,
    {
        let idx = self.shapes.len();
        self.shapes.push(shape);
        self.objects.push(idx);
        proof {
            lemma_arena_push(old(self).shapes@, shape);
        }
        idx
    }

    /// Add a shape as a child of the group at `group`; the child's index
    /// is returned. The child records its parent and the group records
    /// the child.
    pub fn add_group(&mut self, group: usize, shape: Shape) -> (idx: usize)
        requires
            old(self).wf(),
            group < old(self).shapes@.len(),
            shape.wf(),
            shape.parent.is_none(),
            shape.intersectable.children@.len() == 0,
        ensures
            final(self).wf(),
            idx == old(self).shapes@.len(),
            final(self).shapes@.len() == old(self).shapes@.len() + 1,
            final(self).shapes@[idx as int].parent == Some(group),
            final(self).shapes@[idx as int].transform == shape.transform,
            final(self).shapes@[idx as int].intersectable.intersectable_type
                == shape.intersectable.intersectable_type,
            old(self).shapes@[group as int].intersectable.intersectable_type
                == IntersectableType::Group ==> final(self).shapes@[group as int]
                .intersectable.children@ == old(self).shapes@[group as int]
                .intersectable.children@.push(idx),
            final(self).shapes@[group as int].intersectable.intersectable_type == old(
                self,
            ).shapes@[group as int].intersectable.intersectable_type,
            final(self).shapes@[group as int].parent == old(self).shapes@[group as int].parent,
            final(self).shapes@[group as int].transform == old(self).shapes@[group as int].transform,
            forall|j: int|
                0 <= j < old(self).shapes@.len() && j != group ==> final(self).shapes@[j] == old(
                self,
            ).shapes@[j],
            final(self).objects@ == old(self).objects@,
            final(self).light_source == old(self).light_source,
    {
        let idx = self.shapes.len();
        let mut child = shape;
        child.parent = Some(group);
        self.shapes.push(child);
        let shapes_len = self.shapes.len();
        proof {
            lemma_arena_push_child(old(self).shapes@, child, group as int);
        }
        let group_node = &mut self.shapes[group];
        group_node.intersectable.add(idx);
        proof {
            lemma_arena_update_children(old(self).shapes@.push(child), self.shapes@, group, idx);
        }
        idx
    }
}


/// Whether the light is blocked at a point: a shadow ray toward the
/// light hits something strictly closer than the light itself.
pub open spec fn spec_is_shadowed(
    shapes: Seq<Shape>,
    objects: Seq<usize>,
    light: PointLight,
    p: V4,
) -> bool {
    let toward = v4_sub(pv(light.position), p);
    let distance = v4_magnitude(toward);
    let r = RayV { origin: p, direction: v4_normalize(toward) };
    let f = positives(spec_intersect_world(shapes, objects, r));
    if f.len() == 0 {
        false
    } else {
        first_min(f).t@ < distance
    }
}

/// The color a ray sees: black where it hits nothing, and otherwise the
/// shading of the nearest visible hit, with `remaining` bounding the
/// depth of reflective and refractive recursion.
pub open spec fn spec_color_at(
    shapes: Seq<Shape>,
    objects: Seq<usize>,
    light: PointLight,
    r: RayV,
    remaining: int,
) -> ColorV
    decreases remaining, 3int,
{
    let sorted = spec_intersect_world(shapes, objects, r);
    let f = positives(sorted);
    if f.len() == 0 {
        cv_black()
    } else {
        spec_shade_hit(
            shapes,
            objects,
            light,
            spec_precompute(shapes, first_min(f), r, sorted),
            remaining,
        )
    }
}

/// The shading of one hit: the Phong surface term, plus the reflected
/// and refracted contributions, blended by the Schlick reflectance when
/// the material both reflects and transmits.
pub open spec fn spec_shade_hit(
    shapes: Seq<Shape>,
    objects: Seq<usize>,
    light: PointLight,
    c: PrecomputeV,
    remaining: int,
) -> ColorV
    decreases remaining, 2int,
{
    let m = shapes[c.object].material;
    let in_shadow = spec_is_shadowed(shapes, objects, light, c.over_point);
    let surface = spec_lighting(
        m,
        light,
        c.point,
        c.eyev,
        c.normalv,
        in_shadow,
        m4v(shapes[c.object].transform),
    );
    let reflected = spec_reflected_color(shapes, objects, light, c, remaining);
    let refracted = spec_refracted_color(shapes, objects, light, c, remaining);
    if m.transparency@ > 0 && m.reflective@ > 0 {
        let reflectance = spec_schlick(c);
        cv_add(
            cv_add(surface, cv_scale(reflected, reflectance)),
            cv_scale(refracted, fx_sub(SCALE as int, reflectance)),
        )
    } else {
        cv_add(cv_add(surface, reflected), refracted)
    }
}

/// The reflected contribution at a hit: black for a non-reflective
/// material or an exhausted recursion bound; otherwise the color seen by
/// the mirror ray from the over point, scaled by the reflectivity.
pub open spec fn spec_reflected_color(
    shapes: Seq<Shape>,
    objects: Seq<usize>,
    light: PointLight,
    c: PrecomputeV,
    remaining: int,
) -> ColorV
    decreases remaining, 1int,
{
    if shapes[c.object].material.reflective@ == 0 || remaining <= 0 {
        cv_black()
    } else {
        cv_scale(
            spec_color_at(
                shapes,
                objects,
                light,
                RayV { origin: c.over_point, direction: c.reflectv },
                remaining - 1,
            ),
            shapes[c.object].material.reflective@,
        )
    }
}

/// The refracted contribution at a hit: black for an opaque material, an
/// exhausted bound, or total internal reflection; otherwise Snell's law
/// bends the ray, which continues from the under point, scaled by the
/// transparency.
pub open spec fn spec_refracted_color(
    shapes: Seq<Shape>,
    objects: Seq<usize>,
    light: PointLight,
    c: PrecomputeV,
    remaining: int,
) -> ColorV
    decreases remaining, 1int,
{
    if remaining <= 0 {
        cv_black()
    } else if shapes[c.object].material.transparency@ == 0 {
        cv_black()
    } else {
        let n_ratio = fx_div(c.n1, c.n2);
        let cos_i = v4_dot(c.normalv, c.eyev);
        let sin2_t = fx_mul(fx_mul(n_ratio, n_ratio), fx_sub(SCALE as int, fx_mul(cos_i, cos_i)));
        if sin2_t > SCALE as int {
            cv_black()
        } else {
            let cos_t = fx_sqrt(fx_sub(SCALE as int, sin2_t));
            let direction = v4_sub(
                v4_scale(c.normalv, fx_sub(fx_mul(n_ratio, cos_i), cos_t)),
                v4_scale(c.eyev, n_ratio),
            );
            cv_scale(
                spec_color_at(
                    shapes,
                    objects,
                    light,
                    RayV { origin: c.under_point, direction },
                    remaining - 1,
                ),
                shapes[c.object].material.transparency@,
            )
        }
    }
}

/// Copy an intersection list.
fn duplicate_hits(xs: &Vec<Intersection>) -> (r: Vec<Intersection>)
    ensures
        r@ == xs@,
{
    let mut out: Vec<Intersection> = Vec::new();
    let mut k: usize = 0;
    while k < xs.len()
        invariant
            k <= xs@.len(),
            out@ == xs@.subrange(0, k as int),
        decreases xs@.len() - k,
    {
        out.push(xs[k]);
        proof {
            assert(xs@.subrange(0, k as int + 1) =~= xs@.subrange(0, k as int).push(xs@[k as int]));
        }
        k = k + 1;
    }
    proof {
        assert(xs@.subrange(0, xs@.len() as int) =~= xs@);
    }
    out
}

impl World {
    /// Whether the light is blocked at `point` by something strictly
    /// nearer than the light.
    pub fn is_shadowed(&self, point: &Point) -> (r: bool)
        requires
            self.wf(),
        ensures
            r == spec_is_shadowed(self.shapes@, self.objects@, self.light_source, pv(*point)),
    {
        let from_object_to_light_source = self.light_source.position.sub(point);
        let distance = from_object_to_light_source.magnitude();
        let ray = Ray { direction: from_object_to_light_source.normalize(), origin: *point };
        let mut hits = ray.intersect_world(self);
        match Intersection::hit(&mut hits) {
            Some(hit) => hit.t.lt(distance),
            None => false,
        }
    }

    /// The color seen by a ray cast into the world, recursion bounded by
    /// `remaining`.
    pub fn color_at(&self, ray: &Ray, remaining: i32) -> (r: Color)
        requires
            self.wf(),
            remaining >= 0,
        ensures
            cv(r) == spec_color_at(self.shapes@, self.objects@, self.light_source, rv(*ray), remaining as int),
        decreases remaining, 3int,
    {
        let sorted = ray.intersect_world(self);
        let mut working = duplicate_hits(&sorted);
        match Intersection::hit(&mut working) {
            None => Color::black(),
            Some(h) => {
                proof {
                    lemma_intersect_world_in_range(self.shapes@, self.objects@, rv(*ray));
                    crate::intersection::lemma_first_min_in(positives(sorted@));
                    crate::intersection::lemma_positives_subset(sorted@);
                    let j = choose|j: int| 0 <= j < sorted@.len() && sorted@[j] == h;
                    assert(sorted@[j].object < self.shapes@.len());
                }
                let comps = h.precompute(ray, &sorted, self);
                self.shade_hit(comps, remaining)
            },
        }
    }

    /// The shading of one precomputed hit.
    pub fn shade_hit(&self, precompute: Precompute, remaining: i32) -> (r: Color)
        requires
            self.wf(),
            remaining >= 0,
            precompute.object < self.shapes@.len(),
        ensures
            cv(r) == spec_shade_hit(
                self.shapes@,
                self.objects@,
                self.light_source,
                pcv(precompute),
                remaining as int,
            ),
        decreases remaining, 2int,
    {
        proof {
            assert(node_wf(self.shapes@, precompute.object as int));
        }
        let is_shadowed = self.is_shadowed(&precompute.over_point);
        let surface_color = self.shapes[precompute.object].material.lighting(
            &self.light_source,
            &precompute.point,
            &precompute.eyev,
            &precompute.normalv,
            is_shadowed,
            &self.shapes[precompute.object],
        );
        let reflected_color = self.reflected_color(&precompute, remaining);
        let refracted_color = self.refracted_color(&precompute, remaining);
        let material = &self.shapes[precompute.object].material;
        if material.transparency.gt(Scalar { v: 0 }) && material.reflective.gt(Scalar { v: 0 }) {
            let reflectance = Intersection::schlick(&precompute);
            surface_color.add(&reflected_color.multiply_scalar(reflectance)).add(
                &refracted_color.multiply_scalar(Scalar { v: SCALE }.sub(reflectance)),
            )
        } else {
            surface_color.add(&reflected_color).add(&refracted_color)
        }
    }

    /// The reflected contribution at a precomputed hit.
    pub fn reflected_color(&self, precompute: &Precompute, remaining: i32) -> (r: Color)
        requires
            self.wf(),
            remaining >= 0,
            precompute.object < self.shapes@.len(),
        ensures
            cv(r) == spec_reflected_color(
                self.shapes@,
                self.objects@,
                self.light_source,
                pcv(*precompute),
                remaining as int,
            ),
        decreases remaining, 1int,
    {
        if self.shapes[precompute.object].material.reflective.is_zero() || remaining == 0 {
            Color::black()
        } else {
            let ray = Ray { origin: precompute.over_point, direction: precompute.reflectv };
            let color = self.color_at(&ray, remaining - 1);
            color.multiply_scalar(self.shapes[precompute.object].material.reflective)
        }
    }

    /// The refracted contribution at a precomputed hit.
    pub fn refracted_color(&self, precompute: &Precompute, remaining: i32) -> (r: Color)
        requires
            self.wf(),
            remaining >= 0,
            precompute.object < self.shapes@.len(),
        ensures
            cv(r) == spec_refracted_color(
                self.shapes@,
                self.objects@,
                self.light_source,
                pcv(*precompute),
                remaining as int,
            ),
        decreases remaining, 1int,
    {
        if remaining == 0 {
            return Color::black();
        }
        if self.shapes[precompute.object].material.transparency.is_zero() {
            return Color::black();
        }
        let n_ratio = precompute.n1.div(precompute.n2);
        let cos_i = precompute.normalv.dot(&precompute.eyev);
        let sin2_t = n_ratio.mul(n_ratio).mul(Scalar { v: SCALE }.sub(cos_i.mul(cos_i)));
        if sin2_t.gt(Scalar { v: SCALE }) {
            return Color::black();
        }
        let cos_t = Scalar { v: SCALE }.sub(sin2_t).sqrt();
        let direction = precompute.normalv.multiply_scalar(n_ratio.mul(cos_i).sub(cos_t)).sub(
            &precompute.eyev.multiply_scalar(n_ratio),
        );
        let color = self.color_at(
            &Ray { origin: precompute.under_point, direction },
            remaining - 1,
        );
        color.multiply_scalar(self.shapes[precompute.object].material.transparency)
    }
}

/// Whether a color is white within the geometric tolerance.
pub open spec fn cv_is_white(c: Color) -> bool {
    c.red@ == SCALE as int && c.green@ == SCALE as int && c.blue@ == SCALE as int
}

/// A uniform scaling by one half keeps a non-zero determinant.
proof fn lemma_scaling_invertible(k: int)
    requires
        k == 500_000,
    ensures
        crate::matrix::det4(
            seq![
                k, 0, 0, 0,
                0, k, 0, 0,
                0, 0, k, 0,
                0, 0, 0, SCALE as int,
            ],
        ) != 0,
{
    let s = seq![k, 0, 0, 0, 0, k, 0, 0, 0, 0, k, 0, 0, 0, 0, SCALE as int];
    let d3 = seq![k, 0, 0, 0, k, 0, 0, 0, SCALE as int];
    assert(crate::matrix::sub4(s, 0, 0) =~= d3);
    assert(crate::matrix::sub3(d3, 0, 0) =~= seq![k, 0, 0, SCALE as int]);
    crate::fx::lemma_fx_mul_one(k);
    crate::fx::lemma_fx_mul_zero(k);
    crate::fx::lemma_fx_mul_zero(0);
    assert(crate::matrix::det2(seq![k, 0, 0, SCALE as int]) == k);
    crate::fx::lemma_fx_mul_zero(crate::matrix::cof3(d3, 0, 1));
    crate::fx::lemma_fx_mul_zero(crate::matrix::cof3(d3, 0, 2));
    assert(crate::fx::fx_mul(k, k) == 250_000);
    assert(crate::matrix::det3(d3) == 250_000) by {
        reveal(crate::matrix::det3);
    }
    crate::fx::lemma_fx_mul_zero(crate::matrix::cof4(s, 0, 1));
    crate::fx::lemma_fx_mul_zero(crate::matrix::cof4(s, 0, 2));
    crate::fx::lemma_fx_mul_zero(crate::matrix::cof4(s, 0, 3));
    assert(crate::fx::fx_mul(k, 250_000) == 125_000);
    assert(crate::matrix::det4(s) == 125_000) by {
        reveal(crate::matrix::det4);
    }
}

/// Appending a parentless, childless, well-formed node keeps the arena
/// sound.
proof fn lemma_arena_push(shapes: Seq<Shape>, shape: Shape)
    requires
        arena_wf(shapes),
        shape.wf(),
        shape.parent.is_none(),
        shape.intersectable.children@.len() == 0,
    ensures
        arena_wf(shapes.push(shape)),
{
    let out = shapes.push(shape);
    assert forall|i: int| 0 <= i < out.len() implies #[trigger] node_wf(out, i) by {
        if i < shapes.len() {
            assert(node_wf(shapes, i));
            assert(out[i] == shapes[i]);
        } else {
            assert(out[i] == shape);
        }
    }
}

/// Appending a childless node whose parent is an earlier index keeps the
/// arena sound.
proof fn lemma_arena_push_child(shapes: Seq<Shape>, shape: Shape, parent: int)
    requires
        arena_wf(shapes),
        shape.wf(),
        shape.parent == Some(parent as usize),
        0 <= parent < shapes.len(),
        shape.intersectable.children@.len() == 0,
    ensures
        arena_wf(shapes.push(shape)),
{
    let out = shapes.push(shape);
    assert forall|i: int| 0 <= i < out.len() implies #[trigger] node_wf(out, i) by {
        if i < shapes.len() {
            assert(node_wf(shapes, i));
            assert(out[i] == shapes[i]);
        } else {
            assert(out[i] == shape);
        }
    }
}

/// Recording a fresh, larger child index at a group keeps the arena
/// sound, as long as nothing else changed.
proof fn lemma_arena_update_children(
    before: Seq<Shape>,
    after: Seq<Shape>,
    group: usize,
    child: usize,
)
    requires
        arena_wf(before),
        before.len() == after.len(),
        group < before.len(),
        group < child < before.len(),
        forall|j: int| 0 <= j < before.len() && j != group ==> after[j] == before[j],
        after[group as int].transform == before[group as int].transform,
        after[group as int].material == before[group as int].material,
        after[group as int].parent == before[group as int].parent,
        after[group as int].intersectable.children@ == before[group as int].intersectable.children@.push(
            child,
        ) || after[group as int].intersectable.children@ == before[group as int].intersectable.children@,
    ensures
        arena_wf(after),
{
    assert forall|i: int| 0 <= i < after.len() implies #[trigger] node_wf(after, i) by {
        assert(node_wf(before, i));
        if i == group {
            assert(after[i].wf());
            let bc = before[group as int].intersectable.children@;
            let ac = after[group as int].intersectable.children@;
            assert forall|k: int|
                0 <= k < ac.len() implies i < (#[trigger] ac[k]) < after.len() by {
                if ac == bc.push(child) {
                    if k < bc.len() {
                        assert(ac[k] == bc[k]);
                    } else {
                        assert(ac[k] == child);
                    }
                } else {
                    assert(ac[k] == bc[k]);
                }
            }
        }
    }
}

} // verus!
