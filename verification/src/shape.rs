//! Scene-graph nodes. A shape owns a transform, a material and a
//! shape-kind payload; nesting is expressed through an arena of nodes
//! held by the world, where a parent is always created before its
//! children and is referenced by index, so cycles cannot exist.

use vstd::prelude::*;

verus! {

use crate::fx::Scalar;
use crate::material::{is_default_material, Material};
use crate::matrix::{det4, identity_v, lemma_identity_invertible, m4v, Matrix4};
use crate::point::{pv, v4_cross, v4_normalize, v4_sub, Point};

#[derive(Clone, Copy, Debug, PartialEq, Eq, Structural)]
pub enum IntersectableType {
    Cube,
    Cylinder,
    Group,
    Plane,
    Sphere,
    Triangle,
}

/// The shape-kind payload: which primitive a node is, the precomputed
/// triangle data where the kind is a triangle, a cylinder's truncation
/// interval and caps, and the child indices where the kind is a group.
#[derive(Debug)]
pub struct Intersectable {
    pub intersectable_type: IntersectableType,
    pub e1: Point,
    pub e2: Point,
    pub normal: Point,
    pub p1: Point,
    pub p2: Point,
    pub p3: Point,
    pub minimum: Scalar,
    pub maximum: Scalar,
    pub closed: bool,
    pub children: Vec<usize>,
}

#[derive(Debug)]
pub struct Shape {
    pub parent: Option<usize>,
    pub transform: Matrix4,
    pub material: Material,
    pub intersectable: Intersectable,
}

impl Intersectable {
    pub fn sphere() -> (r: Intersectable)
        ensures
            r.intersectable_type == IntersectableType::Sphere,
            r.children@.len() == 0,
    {
        let origin = crate::point::empty_point();
        Intersectable {
            children: Vec::new(),
            e1: origin,
            e2: origin,
            intersectable_type: IntersectableType::Sphere,
            normal: origin,
            p1: origin,
            p2: origin,
            p3: origin,
            minimum: Scalar { v: -crate::fx::FX_MAX },
            maximum: Scalar { v: crate::fx::FX_MAX },
            closed: false,
        }
    }

    pub fn plane() -> (r: Intersectable)
        ensures
            r.intersectable_type == IntersectableType::Plane,
            r.children@.len() == 0,
    {
        let origin = crate::point::empty_point();
        Intersectable {
            children: Vec::new(),
            e1: origin,
            e2: origin,
            intersectable_type: IntersectableType::Plane,
            normal: origin,
            p1: origin,
            p2: origin,
            p3: origin,
            minimum: Scalar { v: -crate::fx::FX_MAX },
            maximum: Scalar { v: crate::fx::FX_MAX },
            closed: false,
        }
    }

    pub fn cube() -> (r: Intersectable)
        ensures
            r.intersectable_type == IntersectableType::Cube,
            r.children@.len() == 0,
    {
        let origin = crate::point::empty_point();
        Intersectable {
            children: Vec::new(),
            e1: origin,
            e2: origin,
            intersectable_type: IntersectableType::Cube,
            normal: origin,
            p1: origin,
            p2: origin,
            p3: origin,
            minimum: Scalar { v: -crate::fx::FX_MAX },
            maximum: Scalar { v: crate::fx::FX_MAX },
            closed: false,
        }
    }

    /// A cylinder of unit radius about the y axis, unbounded and open
    /// until truncated or capped.
    pub fn cylinder() -> (r: Intersectable)
        ensures
            r.intersectable_type == IntersectableType::Cylinder,
            r.children@.len() == 0,
            r.minimum@ == -(crate::fx::FX_MAX as int),
            r.maximum@ == crate::fx::FX_MAX as int,
            !r.closed,
    {
        let origin = crate::point::empty_point();
        Intersectable {
            children: Vec::new(),
            e1: origin,
            e2: origin,
            intersectable_type: IntersectableType::Cylinder,
            normal: origin,
            p1: origin,
            p2: origin,
            p3: origin,
            minimum: Scalar { v: -crate::fx::FX_MAX },
            maximum: Scalar { v: crate::fx::FX_MAX },
            closed: false,
        }
    }

    pub fn group() -> (r: Intersectable)
        ensures
            r.intersectable_type == IntersectableType::Group,
            r.children@.len() == 0,
    {
        let origin = crate::point::empty_point();
        Intersectable {
            children: Vec::new(),
            e1: origin,
            e2: origin,
            intersectable_type: IntersectableType::Group,
            normal: origin,
            p1: origin,
            p2: origin,
            p3: origin,
            minimum: Scalar { v: -crate::fx::FX_MAX },
            maximum: Scalar { v: crate::fx::FX_MAX },
            closed: false,
        }
    }

    /// A triangle with its edge vectors and face normal precomputed.
    pub fn triangle(p1: Point, p2: Point, p3: Point) -> (r: Intersectable)
        ensures
            r.intersectable_type == IntersectableType::Triangle,
            r.children@.len() == 0,
            r.p1 == p1 && r.p2 == p2 && r.p3 == p3,
            pv(r.e1) == v4_sub(pv(p2), pv(p1)),
            pv(r.e2) == v4_sub(pv(p3), pv(p1)),
            pv(r.normal) == v4_normalize(v4_cross(v4_sub(pv(p2), pv(p1)), v4_sub(pv(p3), pv(p1)))),
    {
        let e1 = p2.sub(&p1);
        let e2 = p3.sub(&p1);
        let normal = e1.cross(&e2).normalize();
        Intersectable {
            children: Vec::new(),
            p1,
            p2,
            p3,
            e1,
            e2,
            normal,
            minimum: Scalar { v: -crate::fx::FX_MAX },
            maximum: Scalar { v: crate::fx::FX_MAX },
            closed: false,
            intersectable_type: IntersectableType::Triangle,
        }
    }

    /// Record a child index; only a group holds children.
    pub fn add(&mut self, child: usize)
        ensures
            old(self).intersectable_type == IntersectableType::Group ==> final(self).children@
                == old(self).children@.push(child),
            old(self).intersectable_type != IntersectableType::Group ==> final(self).children@
                == old(self).children@,
            final(self).intersectable_type == old(self).intersectable_type,
            final(self).e1 == old(self).e1 && final(self).e2 == old(self).e2,
            final(self).normal == old(self).normal,
            final(self).p1 == old(self).p1 && final(self).p2 == old(self).p2 && final(self).p3
                == old(self).p3,
    {
        match self.intersectable_type {
            IntersectableType::Group => self.children.push(child),
            _ => (),
        }
    }
}

impl Shape {
    /// A shape is sound when its transform can be inverted and its
    /// material's pattern can be sampled.
    pub open spec fn wf(&self) -> bool {
        &&& self.transform.wf()
        &&& det4(m4v(self.transform)) != 0
        &&& self.material.wf()
    }

    pub fn sphere() -> (r: Shape)
        ensures
            r.wf(),
            r.parent.is_none(),
            m4v(r.transform) =~= identity_v(),
            is_default_material(r.material),
            r.intersectable.intersectable_type == IntersectableType::Sphere,
            r.intersectable.children@.len() == 0,
    {
        proof {
            lemma_identity_invertible();
        }
        Shape {
            parent: None,
            transform: Matrix4::identity(),
            material: Material::new(),
            intersectable: Intersectable::sphere(),
        }
    }

    /// A unit sphere whose material transmits all light.
    pub fn glass_sphere() -> (r: Shape)
        ensures
            r.wf(),
            r.parent.is_none(),
            m4v(r.transform) =~= identity_v(),
            r.intersectable.intersectable_type == IntersectableType::Sphere,
            r.intersectable.children@.len() == 0,
            r.material.refractive_index@ == crate::fx::SCALE as int,
            r.material.transparency@ == crate::fx::SCALE as int,
            r.material.specular@ == crate::fx::SCALE as int,
            r.material.shininess == 300u32,
            r.material.diffuse@ == 0,
            r.material.ambient@ == 100_000,
            r.material.reflective@ == 0,
    {
        proof {
            lemma_identity_invertible();
        }
        let mut material = Material::new();
        material.refractive_index = Scalar { v: crate::fx::SCALE };
        material.transparency = Scalar { v: crate::fx::SCALE };
        material.specular = Scalar { v: crate::fx::SCALE };
        material.shininess = 300;
        material.diffuse = Scalar { v: 0 };
        material.pattern = crate::patternable::Patternable::solid(crate::color::Color::white());
        Shape {
            parent: None,
            transform: Matrix4::identity(),
            material,
            intersectable: Intersectable::sphere(),
        }
    }

    pub fn plane() -> (r: Shape)
        ensures
            r.wf(),
            r.parent.is_none(),
            m4v(r.transform) =~= identity_v(),
            is_default_material(r.material),
            r.intersectable.intersectable_type == IntersectableType::Plane,
            r.intersectable.children@.len() == 0,
    {
        proof {
            lemma_identity_invertible();
        }
        Shape {
            parent: None,
            transform: Matrix4::identity(),
            material: Material::new(),
            intersectable: Intersectable::plane(),
        }
    }

    pub fn cube() -> (r: Shape)
        ensures
            r.wf(),
            r.parent.is_none(),
            m4v(r.transform) =~= identity_v(),
            is_default_material(r.material),
            r.intersectable.intersectable_type == IntersectableType::Cube,
            r.intersectable.children@.len() == 0,
    {
        proof {
            lemma_identity_invertible();
        }
        Shape {
            parent: None,
            transform: Matrix4::identity(),
            material: Material::new(),
            intersectable: Intersectable::cube(),
        }
    }

    pub fn cylinder() -> (r: Shape)
        ensures
            r.wf(),
            r.parent.is_none(),
            m4v(r.transform) =~= identity_v(),
            is_default_material(r.material),
            r.intersectable.intersectable_type == IntersectableType::Cylinder,
            r.intersectable.children@.len() == 0,
            r.intersectable.minimum@ == -(crate::fx::FX_MAX as int),
            r.intersectable.maximum@ == crate::fx::FX_MAX as int,
            !r.intersectable.closed,
    {
        proof {
            lemma_identity_invertible();
        }
        Shape {
            parent: None,
            transform: Matrix4::identity(),
            material: Material::new(),
            intersectable: Intersectable::cylinder(),
        }
    }

    pub fn triangle(a: Point, b: Point, c: Point) -> (r: Shape)
        ensures
            r.wf(),
            r.parent.is_none(),
            m4v(r.transform) =~= identity_v(),
            is_default_material(r.material),
            r.intersectable.intersectable_type == IntersectableType::Triangle,
            r.intersectable.children@.len() == 0,
            r.intersectable.p1 == a && r.intersectable.p2 == b && r.intersectable.p3 == c,
            pv(r.intersectable.e1) == v4_sub(pv(b), pv(a)),
            pv(r.intersectable.e2) == v4_sub(pv(c), pv(a)),
            pv(r.intersectable.normal) == v4_normalize(
                v4_cross(v4_sub(pv(b), pv(a)), v4_sub(pv(c), pv(a))),
            ),
    {
        proof {
            lemma_identity_invertible();
        }
        Shape {
            parent: None,
            transform: Matrix4::identity(),
            material: Material::new(),
            intersectable: Intersectable::triangle(a, b, c),
        }
    }

    pub fn group() -> (r: Shape)
        ensures
            r.wf(),
            r.parent.is_none(),
            m4v(r.transform) =~= identity_v(),
            is_default_material(r.material),
            r.intersectable.intersectable_type == IntersectableType::Group,
            r.intersectable.children@.len() == 0,
    {
        proof {
            lemma_identity_invertible();
        }
        Shape {
            parent: None,
            transform: Matrix4::identity(),
            material: Material::new(),
            intersectable: Intersectable::group(),
        }
    }
}

} // verus!
