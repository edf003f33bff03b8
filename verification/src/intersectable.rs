//! Ray–primitive intersection and shape bounds.
//!
//! Each primitive intersects and takes its normal in its own local
//! space; a group's intersection first tests the ray against the group's
//! bounding box and otherwise concatenates its children's intersections.
//! Every function mirrors a spec function exactly, so the whole pipeline
//! from a world ray to a sorted intersection list is pinned.

use vstd::prelude::*;

verus! {

use crate::bounds::{
    bounds, bv, pvs, spec_bounds_hits, spec_check_axis, v4s_max, v4s_min, Bounds, BoundsV,
};
use crate::fx::{
    fx_abs, fx_add, fx_div, fx_mul, fx_neg, fx_sqrt, fx_sub, Scalar, EPSILON, FX_MAX, SCALE,
};
use crate::intersection::{sort_by_t, sort_intersections, Intersection};
use crate::matrix::{inv4, m4v, mp_v};
use crate::point::{pv, v4_cross, v4_dot, v4_sub, vector, Point, V4, TWO_UNITS};
use crate::ray::{rv, spec_local_ray, Ray, RayV};
use crate::shape::{Intersectable, IntersectableType};
use crate::world::{node_wf, spec_normal_to_world, World};

/// Four whole units, in millionths; the sphere quadratic's constant.
pub const FOUR_UNITS: i64 = 4_000_000;

/// An intersection at parameter `t` (in millionths) on shape `object`.
pub open spec fn mk_hit(object: int, t: int) -> Intersection {
    Intersection { object: object as usize, t: Scalar { v: t as i64 } }
}

/// The analytic local-space normal of a primitive at a local point: a
/// sphere's points away from the origin, a plane's is the fixed up
/// direction, a cube's follows its largest-magnitude coordinate, a
/// triangle's is its precomputed face normal, and a group has none.
pub open spec fn spec_local_normal(inter: Intersectable, p: V4) -> V4 {
    match inter.intersectable_type {
        IntersectableType::Sphere => v4_sub(p, V4 { x: 0, y: 0, z: 0, w: SCALE as int }),
        IntersectableType::Plane => V4 { x: 0, y: SCALE as int, z: 0, w: SCALE as int },
        IntersectableType::Cube => {
            let ax = fx_abs(p.x);
            let ay = fx_abs(p.y);
            let az = fx_abs(p.z);
            let m = vstd::math::max(vstd::math::max(ax, ay), az);
            if m == ax {
                V4 { x: p.x, y: 0, z: 0, w: 0 }
            } else if m == ay {
                V4 { x: 0, y: p.y, z: 0, w: 0 }
            } else {
                V4 { x: 0, y: 0, z: p.z, w: 0 }
            }
        },
        IntersectableType::Cylinder => {
            let dist = fx_add(fx_mul(p.x, p.x), fx_mul(p.z, p.z));
            if dist < SCALE as int && p.y >= fx_sub(inter.maximum@, EPSILON as int) {
                V4 { x: 0, y: SCALE as int, z: 0, w: 0 }
            } else if dist < SCALE as int && p.y <= fx_add(inter.minimum@, EPSILON as int) {
                V4 { x: 0, y: -(SCALE as int), z: 0, w: 0 }
            } else {
                V4 { x: p.x, y: 0, z: p.z, w: 0 }
            }
        },
        IntersectableType::Triangle => pv(inter.normal),
        IntersectableType::Group => V4 { x: 0, y: 0, z: 0, w: 0 },
    }
}

/// A unit sphere's intersections: the quadratic formula on the ray, two
/// parameters when the discriminant allows, none otherwise.
pub open spec fn spec_sphere_hits(r: RayV, object: int) -> Seq<Intersection> {
    let shape_to_ray = v4_sub(r.origin, V4 { x: 0, y: 0, z: 0, w: SCALE as int });
    let a = v4_dot(r.direction, r.direction);
    let b = fx_mul(v4_dot(r.direction, shape_to_ray), TWO_UNITS as int);
    let c = fx_sub(v4_dot(shape_to_ray, shape_to_ray), SCALE as int);
    let discriminant = fx_sub(fx_mul(b, b), fx_mul(fx_mul(FOUR_UNITS as int, a), c));
    if discriminant < 0 {
        Seq::empty()
    } else {
        seq![
            mk_hit(
                object,
                fx_div(fx_sub(fx_neg(b), fx_sqrt(discriminant)), fx_mul(TWO_UNITS as int, a)),
            ),
            mk_hit(
                object,
                fx_div(fx_add(fx_neg(b), fx_sqrt(discriminant)), fx_mul(TWO_UNITS as int, a)),
            ),
        ]
    }
}

/// The local x-z plane's intersections: one parameter, unless the ray
/// runs parallel within tolerance.
pub open spec fn spec_plane_hits(r: RayV, object: int) -> Seq<Intersection> {
    if fx_abs(r.direction.y) < EPSILON as int {
        Seq::empty()
    } else {
        seq![mk_hit(object, fx_div(fx_neg(r.origin.y), r.direction.y))]
    }
}

/// The unit cube's intersections: the slab test per axis; the entry is
/// the latest per-axis entry and the exit the earliest per-axis exit.
pub open spec fn spec_cube_hits(r: RayV, object: int) -> Seq<Intersection> {
    let (xmin, xmax) = spec_check_axis(r.origin.x, r.direction.x, -(SCALE as int), SCALE as int);
    let (ymin, ymax) = spec_check_axis(r.origin.y, r.direction.y, -(SCALE as int), SCALE as int);
    let (zmin, zmax) = spec_check_axis(r.origin.z, r.direction.z, -(SCALE as int), SCALE as int);
    let tmin = vstd::math::max(vstd::math::max(xmin, ymin), zmin);
    let tmax = vstd::math::min(vstd::math::min(xmax, ymax), zmax);
    if tmin > tmax {
        Seq::empty()
    } else {
        seq![mk_hit(object, tmin), mk_hit(object, tmax)]
    }
}

/// A triangle's intersections: the barycentric test on the precomputed
/// edges; a determinant within tolerance of zero means the ray runs
/// parallel to the triangle's plane, and a barycentric coordinate
/// outside its range means a miss.
pub open spec fn spec_triangle_hits(inter: Intersectable, r: RayV, object: int) -> Seq<
    Intersection,
> {
    let dir_cross_e2 = v4_cross(r.direction, pv(inter.e2));
    let det = v4_dot(pv(inter.e1), dir_cross_e2);
    if fx_abs(det) < EPSILON as int {
        Seq::empty()
    } else {
        let f = fx_div(SCALE as int, det);
        let p1_to_origin = v4_sub(r.origin, pv(inter.p1));
        let u = fx_mul(f, v4_dot(p1_to_origin, dir_cross_e2));
        if u < 0 || u > SCALE as int {
            Seq::empty()
        } else {
            let origin_cross_e1 = v4_cross(p1_to_origin, pv(inter.e1));
            let v = fx_mul(f, v4_dot(r.direction, origin_cross_e1));
            if v < 0 || fx_add(u, v) > SCALE as int {
                Seq::empty()
            } else {
                seq![mk_hit(object, fx_mul(f, v4_dot(pv(inter.e2), origin_cross_e1)))]
            }
        }
    }
}

/// One cap of a closed cylinder: where the ray meets the plane of the
/// cap within the unit circle. A ray running within tolerance of
/// parallel to the cap cannot strike it.
#[verifier::opaque]
pub open spec fn spec_cap_hit(r: RayV, object: int, plane_y: int) -> Seq<Intersection> {
    if fx_abs(r.direction.y) < EPSILON as int {
        Seq::empty()
    } else {
        let t = fx_div(fx_sub(plane_y, r.origin.y), r.direction.y);
        let x = fx_add(r.origin.x, fx_mul(r.direction.x, t));
        let z = fx_add(r.origin.z, fx_mul(r.direction.z, t));
        if fx_add(fx_mul(x, x), fx_mul(z, z)) <= SCALE as int {
            seq![mk_hit(object, t)]
        } else {
            Seq::empty()
        }
    }
}

/// A cylinder's intersections: the quadratic in x and z for the side
/// surface, each root kept only where the hit's height lies strictly
/// inside the truncation interval, followed by the two cap tests when
/// the cylinder is closed. A ray parallel to the axis meets no side.
#[verifier::opaque]
pub open spec fn spec_cylinder_hits(inter: Intersectable, r: RayV, object: int) -> Seq<
    Intersection,
> {
    let a = fx_add(fx_mul(r.direction.x, r.direction.x), fx_mul(r.direction.z, r.direction.z));
    let sides: Seq<Intersection> = if fx_abs(a) < EPSILON as int {
        Seq::empty()
    } else {
        let b = fx_mul(
            fx_add(fx_mul(r.origin.x, r.direction.x), fx_mul(r.origin.z, r.direction.z)),
            TWO_UNITS as int,
        );
        let c = fx_sub(
            fx_add(fx_mul(r.origin.x, r.origin.x), fx_mul(r.origin.z, r.origin.z)),
            SCALE as int,
        );
        let discriminant = fx_sub(fx_mul(b, b), fx_mul(fx_mul(FOUR_UNITS as int, a), c));
        if discriminant < 0 {
            Seq::empty()
        } else {
            let t0 = fx_div(fx_sub(fx_neg(b), fx_sqrt(discriminant)), fx_mul(TWO_UNITS as int, a));
            let t1 = fx_div(fx_add(fx_neg(b), fx_sqrt(discriminant)), fx_mul(TWO_UNITS as int, a));
            let y0 = fx_add(r.origin.y, fx_mul(r.direction.y, t0));
            let y1 = fx_add(r.origin.y, fx_mul(r.direction.y, t1));
            let first: Seq<Intersection> = if inter.minimum@ < y0 < inter.maximum@ {
                seq![mk_hit(object, t0)]
            } else {
                Seq::empty()
            };
            let second: Seq<Intersection> = if inter.minimum@ < y1 < inter.maximum@ {
                seq![mk_hit(object, t1)]
            } else {
                Seq::empty()
            };
            first + second
        }
    };
    if inter.closed {
        sides + spec_cap_hit(r, object, inter.minimum@) + spec_cap_hit(r, object, inter.maximum@)
    } else {
        sides
    }
}

/// The bounding box of node `i`, in its own local space. A unit sphere
/// or cube fills the unit box; a plane is unbounded along x and z; a
/// triangle spans its vertices; a group takes the union of its
/// children's boxes carried through the children's transforms and pulled
/// back through its own inverse, or a degenerate box when it has no
/// children.
pub open spec fn spec_shape_bounds(shapes: Seq<Shape>, i: int) -> BoundsV
    decreases shapes.len() - i, 1int, 0int,
{
    match shapes[i].intersectable.intersectable_type {
        IntersectableType::Sphere | IntersectableType::Cube => BoundsV {
            min: V4 { x: -(SCALE as int), y: -(SCALE as int), z: -(SCALE as int), w: SCALE as int },
            max: V4 { x: SCALE as int, y: SCALE as int, z: SCALE as int, w: SCALE as int },
        },
        IntersectableType::Plane => BoundsV {
            min: V4 { x: -(FX_MAX as int), y: 0, z: -(FX_MAX as int), w: SCALE as int },
            max: V4 { x: FX_MAX as int, y: 0, z: FX_MAX as int, w: SCALE as int },
        },
        IntersectableType::Cylinder => BoundsV {
            min: V4 {
                x: -(SCALE as int),
                y: shapes[i].intersectable.minimum@,
                z: -(SCALE as int),
                w: SCALE as int,
            },
            max: V4 {
                x: SCALE as int,
                y: shapes[i].intersectable.maximum@,
                z: SCALE as int,
                w: SCALE as int,
            },
        },
        IntersectableType::Triangle => {
            let pts = seq![
                pv(shapes[i].intersectable.p1),
                pv(shapes[i].intersectable.p2),
                pv(shapes[i].intersectable.p3),
            ];
            BoundsV { min: v4s_min(pts), max: v4s_max(pts) }
        },
        IntersectableType::Group => {
            let pts = spec_group_child_pts(shapes, shapes[i].intersectable.children@, i);
            if pts.len() == 0 {
                BoundsV {
                    min: V4 { x: 0, y: 0, z: 0, w: SCALE as int },
                    max: V4 { x: 0, y: 0, z: 0, w: SCALE as int },
                }
            } else {
                let own_inverse = inv4(m4v(shapes[i].transform));
                let m1 = mp_v(own_inverse, v4s_min(pts));
                let m2 = mp_v(own_inverse, v4s_max(pts));
                BoundsV { min: v4s_min(seq![m1, m2]), max: v4s_max(seq![m1, m2]) }
            }
        },
    }
}

/// The corners of the children's boxes, carried through each child's own
/// transform, two points per child in order.
pub open spec fn spec_group_child_pts(shapes: Seq<Shape>, cs: Seq<usize>, parent: int) -> Seq<V4>
    decreases shapes.len() - parent, 0int, cs.len(),
{
    if cs.len() == 0 {
        Seq::empty()
    } else {
        let rest = spec_group_child_pts(shapes, cs.drop_last(), parent);
        let c = cs.last() as int;
        if parent < c < shapes.len() {
            let b = spec_shape_bounds(shapes, c);
            rest.push(mp_v(m4v(shapes[c].transform), b.min)).push(
                mp_v(m4v(shapes[c].transform), b.max),
            )
        } else {
            rest
        }
    }
}

/// The intersections of a ray with node `i`: the ray is carried into the
/// node's local space and handed to its primitive's test; a group whose
/// bounding box the local ray misses contributes nothing, and otherwise
/// its children's intersections are concatenated in order.
pub open spec fn spec_intersect(shapes: Seq<Shape>, r: RayV, i: int) -> Seq<Intersection>
    decreases shapes.len() - i, 2int, 0int,
{
    if !(0 <= i < shapes.len()) {
        Seq::empty()
    } else {
        let lray = spec_local_ray(r, m4v(shapes[i].transform));
        match shapes[i].intersectable.intersectable_type {
            IntersectableType::Sphere => spec_sphere_hits(lray, i),
            IntersectableType::Plane => spec_plane_hits(lray, i),
            IntersectableType::Cube => spec_cube_hits(lray, i),
            IntersectableType::Cylinder => spec_cylinder_hits(shapes[i].intersectable, lray, i),
            IntersectableType::Triangle => spec_triangle_hits(shapes[i].intersectable, lray, i),
            IntersectableType::Group => if spec_bounds_hits(spec_shape_bounds(shapes, i), lray) {
                spec_intersect_children(shapes, lray, shapes[i].intersectable.children@, i)
            } else {
                Seq::empty()
            },
        }
    }
}

/// The concatenated intersections of a group's children with the group's
/// local ray, in child order.
pub open spec fn spec_intersect_children(
    shapes: Seq<Shape>,
    lray: RayV,
    cs: Seq<usize>,
    parent: int,
) -> Seq<Intersection>
    decreases shapes.len() - parent, 1int, cs.len(),
{
    if cs.len() == 0 {
        Seq::empty()
    } else {
        let rest = spec_intersect_children(shapes, lray, cs.drop_last(), parent);
        let c = cs.last() as int;
        if parent < c < shapes.len() {
            rest + spec_intersect(shapes, lray, c)
        } else {
            rest
        }
    }
}

/// The intersections of a ray with every top-level object, concatenated
/// in object order.
pub open spec fn spec_all_hits(shapes: Seq<Shape>, objects: Seq<usize>, r: RayV) -> Seq<
    Intersection,
>
    decreases objects.len(),
{
    if objects.len() == 0 {
        Seq::empty()
    } else {
        spec_all_hits(shapes, objects.drop_last(), r) + spec_intersect(
            shapes,
            r,
            objects.last() as int,
        )
    }
}

/// Every intersection of a ray with the world, sorted ascending by `t`.
pub open spec fn spec_intersect_world(shapes: Seq<Shape>, objects: Seq<usize>, r: RayV) -> Seq<
    Intersection,
> {
    sort_by_t(spec_all_hits(shapes, objects, r))
}

use crate::shape::Shape;

/// Every intersection a cylinder yields is tagged with the cylinder.
#[verifier::rlimit(100)]
proof fn lemma_cylinder_hits_tagged(inter: Intersectable, lray: RayV, i: int)
    requires
        0 <= i,
    ensures
        forall|j: int|
            0 <= j < spec_cylinder_hits(inter, lray, i).len() ==> (#[trigger] spec_cylinder_hits(
                inter,
                lray,
                i,
            )[j]).object == i as usize,
{
    reveal(spec_cylinder_hits);
    reveal(spec_cap_hit);
    let out = spec_cylinder_hits(inter, lray, i);
    assert forall|j: int| 0 <= j < out.len() implies (#[trigger] out[j]).object == i as usize by {
        assert(out[j] == mk_hit(i, out[j].t@));
    }
}

/// Every intersection a node yields references a shape of the arena.
#[verifier::rlimit(100)]
pub proof fn lemma_intersect_in_range(shapes: Seq<Shape>, r: RayV, i: int)
    ensures
        forall|j: int|
            0 <= j < spec_intersect(shapes, r, i).len() ==> (#[trigger] spec_intersect(
                shapes,
                r,
                i,
            )[j]).object < shapes.len(),
    decreases shapes.len() - i, 2int, 0int,
{
    let out = spec_intersect(shapes, r, i);
    if 0 <= i < shapes.len() {
        let lray = spec_local_ray(r, m4v(shapes[i].transform));
        match shapes[i].intersectable.intersectable_type {
            IntersectableType::Group => {
                if spec_bounds_hits(spec_shape_bounds(shapes, i), lray) {
                    lemma_intersect_children_in_range(
                        shapes,
                        lray,
                        shapes[i].intersectable.children@,
                        i,
                    );
                    let ch = spec_intersect_children(
                        shapes,
                        lray,
                        shapes[i].intersectable.children@,
                        i,
                    );
                    assert forall|j: int| 0 <= j < out.len() implies (#[trigger] out[j]).object
                        < shapes.len() by {
                        assert(out[j] == ch[j]);
                    }
                }
            },
            IntersectableType::Cylinder => {
                lemma_cylinder_hits_tagged(shapes[i].intersectable, lray, i);
                assert forall|j: int| 0 <= j < out.len() implies (#[trigger] out[j]).object
                    < shapes.len() by {
                    assert(spec_cylinder_hits(shapes[i].intersectable, lray, i)[j].object == i as usize);
                }
            },
            _ => {
                assert forall|j: int| 0 <= j < out.len() implies (#[trigger] out[j]).object
                    < shapes.len() by {
                    assert(out[j] == mk_hit(i, out[j].t@));
                }
            },
        }
    }
}

proof fn lemma_intersect_children_in_range(
    shapes: Seq<Shape>,
    lray: RayV,
    cs: Seq<usize>,
    parent: int,
)
    ensures
        forall|j: int|
            0 <= j < spec_intersect_children(shapes, lray, cs, parent).len() ==> (
            #[trigger] spec_intersect_children(shapes, lray, cs, parent)[j]).object
                < shapes.len(),
    decreases shapes.len() - parent, 1int, cs.len(),
{
    if cs.len() > 0 {
        lemma_intersect_children_in_range(shapes, lray, cs.drop_last(), parent);
        let rest = spec_intersect_children(shapes, lray, cs.drop_last(), parent);
        let out = spec_intersect_children(shapes, lray, cs, parent);
        let c = cs.last() as int;
        if parent < c < shapes.len() {
            lemma_intersect_in_range(shapes, lray, c);
            let tail = spec_intersect(shapes, lray, c);
            assert forall|j: int| 0 <= j < out.len() implies (#[trigger] out[j]).object
                < shapes.len() by {
                if j < rest.len() {
                    assert(out[j] == rest[j]);
                } else {
                    assert(out[j] == tail[j - rest.len()]);
                }
            }
        }
    }
}

/// Every intersection of a ray with the world's objects references a
/// shape of the arena.
pub proof fn lemma_all_hits_in_range(shapes: Seq<Shape>, objects: Seq<usize>, r: RayV)
    ensures
        forall|j: int|
            0 <= j < spec_all_hits(shapes, objects, r).len() ==> (#[trigger] spec_all_hits(
                shapes,
                objects,
                r,
            )[j]).object < shapes.len(),
    decreases objects.len(),
{
    if objects.len() > 0 {
        lemma_all_hits_in_range(shapes, objects.drop_last(), r);
        lemma_intersect_in_range(shapes, r, objects.last() as int);
        let rest = spec_all_hits(shapes, objects.drop_last(), r);
        let tail = spec_intersect(shapes, r, objects.last() as int);
        let out = spec_all_hits(shapes, objects, r);
        assert forall|j: int| 0 <= j < out.len() implies (#[trigger] out[j]).object
            < shapes.len() by {
            if j < rest.len() {
                assert(out[j] == rest[j]);
            } else {
                assert(out[j] == tail[j - rest.len()]);
            }
        }
    }
}

/// Law: a ray's intersections with the world always come back ordered
/// ascending by their ray parameter.
pub proof fn lemma_intersect_world_sorted(shapes: Seq<Shape>, objects: Seq<usize>, r: RayV)
    ensures
        crate::intersection::sorted_by_t(spec_intersect_world(shapes, objects, r)),
{
    crate::intersection::lemma_sort_by_t_sorted(spec_all_hits(shapes, objects, r));
}

/// The sorted intersection list references only shapes of the arena.
pub proof fn lemma_intersect_world_in_range(shapes: Seq<Shape>, objects: Seq<usize>, r: RayV)
    ensures
        forall|j: int|
            0 <= j < spec_intersect_world(shapes, objects, r).len() ==> (
            #[trigger] spec_intersect_world(shapes, objects, r)[j]).object < shapes.len(),
{
    broadcast use vstd::seq_lib::group_to_multiset_ensures;

    let raw = spec_all_hits(shapes, objects, r);
    let sorted = spec_intersect_world(shapes, objects, r);
    lemma_all_hits_in_range(shapes, objects, r);
    crate::intersection::lemma_sort_by_t_multiset(raw);
    assert forall|j: int| 0 <= j < sorted.len() implies (#[trigger] sorted[j]).object
        < shapes.len() by {
        assert(sorted.to_multiset().count(sorted[j]) > 0);
        assert(raw.to_multiset().count(sorted[j]) > 0);
        assert(raw.contains(sorted[j]));
        let w = choose|w: int| 0 <= w < raw.len() && raw[w] == sorted[j];
        assert(raw[w].object < shapes.len());
    }
}

impl Intersectable {
    /// The primitive's analytic normal at a local point.
    pub fn local_normal_at(&self, point: &Point) -> (r: Point)
        ensures
            pv(r) == spec_local_normal(*self, pv(*point)),
    {
        match self.intersectable_type {
            IntersectableType::Sphere => point.sub(&crate::point::empty_point()),
            IntersectableType::Plane => crate::point::point(
                Scalar { v: 0 },
                Scalar { v: SCALE },
                Scalar { v: 0 },
            ),
            IntersectableType::Cube => {
                let ax = point.x.abs();
                let ay = point.y.abs();
                let az = point.z.abs();
                let maxc = ax.max(ay).max(az);
                if maxc == ax {
                    vector(point.x, Scalar { v: 0 }, Scalar { v: 0 })
                } else if maxc == ay {
                    vector(Scalar { v: 0 }, point.y, Scalar { v: 0 })
                } else {
                    vector(Scalar { v: 0 }, Scalar { v: 0 }, point.z)
                }
            },
            IntersectableType::Cylinder => {
                let dist = point.x.mul(point.x).add(point.z.mul(point.z));
                if dist.lt(Scalar { v: SCALE }) && point.y.ge(
                    self.maximum.sub(Scalar { v: EPSILON }),
                ) {
                    vector(Scalar { v: 0 }, Scalar { v: SCALE }, Scalar { v: 0 })
                } else if dist.lt(Scalar { v: SCALE }) && point.y.le(
                    self.minimum.add(Scalar { v: EPSILON }),
                ) {
                    vector(Scalar { v: 0 }, Scalar { v: -SCALE }, Scalar { v: 0 })
                } else {
                    vector(point.x, Scalar { v: 0 }, point.z)
                }
            },
            IntersectableType::Triangle => self.normal,
            IntersectableType::Group => vector(Scalar { v: 0 }, Scalar { v: 0 }, Scalar { v: 0 }),
        }
    }

    fn local_intersect_sphere(&self, ray: &Ray, object: usize) -> (r: Vec<Intersection>)
        ensures
            r@ == spec_sphere_hits(rv(*ray), object as int),
    {
        let shape_to_ray = ray.origin.sub(&crate::point::empty_point());
        let a = ray.direction.dot(&ray.direction);
        let b = ray.direction.dot(&shape_to_ray).mul(Scalar { v: TWO_UNITS });
        let c = shape_to_ray.dot(&shape_to_ray).sub(Scalar { v: SCALE });
        let discriminant = b.mul(b).sub(Scalar { v: FOUR_UNITS }.mul(a).mul(c));
        if discriminant.lt(Scalar { v: 0 }) {
            Vec::new()
        } else {
            let root = discriminant.sqrt();
            let denom = Scalar { v: TWO_UNITS }.mul(a);
            let t1 = b.neg().sub(root).div(denom);
            let t2 = b.neg().add(root).div(denom);
            Intersection::intersections(
                Intersection { t: t1, object },
                Intersection { t: t2, object },
            )
        }
    }

    fn local_intersect_plane(&self, ray: &Ray, object: usize) -> (r: Vec<Intersection>)
        ensures
            r@ == spec_plane_hits(rv(*ray), object as int),
    {
        if ray.direction.y.abs().lt(Scalar { v: EPSILON }) {
            return Vec::new();
        }
        let mut v = Vec::new();
        v.push(Intersection { object, t: ray.origin.y.neg().div(ray.direction.y) });
        v
    }

    fn local_intersect_cube(&self, ray: &Ray, object: usize) -> (r: Vec<Intersection>)
        ensures
            r@ == spec_cube_hits(rv(*ray), object as int),
    {
        let lo = Scalar { v: -SCALE };
        let hi = Scalar { v: SCALE };
        let (xmin, xmax) = crate::bounds::check_axis(ray.origin.x, ray.direction.x, lo, hi);
        let (ymin, ymax) = crate::bounds::check_axis(ray.origin.y, ray.direction.y, lo, hi);
        let (zmin, zmax) = crate::bounds::check_axis(ray.origin.z, ray.direction.z, lo, hi);
        let tmin = xmin.max(ymin).max(zmin);
        let tmax = xmax.min(ymax).min(zmax);
        if tmin.gt(tmax) {
            return Vec::new();
        }
        Intersection::intersections(
            Intersection { t: tmin, object },
            Intersection { t: tmax, object },
        )
    }

    /// One cap test of a closed cylinder against the local ray.
    fn intersect_cap(&self, ray: &Ray, object: usize, plane_y: Scalar, out: &mut Vec<Intersection>)
        ensures
            final(out)@ == old(out)@ + spec_cap_hit(rv(*ray), object as int, plane_y@),
    {
        proof {
            reveal(spec_cap_hit);
        }
        let ghost before = out@;
        if ray.direction.y.abs().lt(Scalar { v: EPSILON }) {
            proof {
                assert(before + spec_cap_hit(rv(*ray), object as int, plane_y@) =~= before);
            }
            return;
        }
        let t = plane_y.sub(ray.origin.y).div(ray.direction.y);
        let x = ray.origin.x.add(ray.direction.x.mul(t));
        let z = ray.origin.z.add(ray.direction.z.mul(t));
        if x.mul(x).add(z.mul(z)).le(Scalar { v: SCALE }) {
            out.push(Intersection { object, t });
            proof {
                assert(out@ =~= before + spec_cap_hit(rv(*ray), object as int, plane_y@));
            }
        } else {
            proof {
                assert(before + spec_cap_hit(rv(*ray), object as int, plane_y@) =~= before);
            }
        }
    }

    fn local_intersect_cylinder(&self, ray: &Ray, object: usize) -> (r: Vec<Intersection>)
        ensures
            r@ == spec_cylinder_hits(*self, rv(*ray), object as int),
    {
        proof {
            reveal(spec_cylinder_hits);
        }
        let mut out: Vec<Intersection> = Vec::new();
        let a = ray.direction.x.mul(ray.direction.x).add(ray.direction.z.mul(ray.direction.z));
        if !a.abs().lt(Scalar { v: EPSILON }) {
            let b = ray.origin.x.mul(ray.direction.x).add(ray.origin.z.mul(ray.direction.z)).mul(
                Scalar { v: TWO_UNITS },
            );
            let c = ray.origin.x.mul(ray.origin.x).add(ray.origin.z.mul(ray.origin.z)).sub(
                Scalar { v: SCALE },
            );
            let discriminant = b.mul(b).sub(Scalar { v: FOUR_UNITS }.mul(a).mul(c));
            if !discriminant.lt(Scalar { v: 0 }) {
                let root = discriminant.sqrt();
                let denom = Scalar { v: TWO_UNITS }.mul(a);
                let t0 = b.neg().sub(root).div(denom);
                let t1 = b.neg().add(root).div(denom);
                let y0 = ray.origin.y.add(ray.direction.y.mul(t0));
                if self.minimum.lt(y0) && y0.lt(self.maximum) {
                    out.push(Intersection { object, t: t0 });
                }
                let y1 = ray.origin.y.add(ray.direction.y.mul(t1));
                if self.minimum.lt(y1) && y1.lt(self.maximum) {
                    out.push(Intersection { object, t: t1 });
                }
            }
        }
        let ghost sides = out@;
        if self.closed {
            self.intersect_cap(ray, object, self.minimum, &mut out);
            self.intersect_cap(ray, object, self.maximum, &mut out);
        }
        proof {
            assert(out@ =~= spec_cylinder_hits(*self, rv(*ray), object as int));
        }
        out
    }

    fn local_intersect_triangle(&self, ray: &Ray, object: usize) -> (r: Vec<Intersection>)
        ensures
            r@ == spec_triangle_hits(*self, rv(*ray), object as int),
    {
        let dir_cross_e2 = ray.direction.cross(&self.e2);
        let det = self.e1.dot(&dir_cross_e2);
        if det.abs().lt(Scalar { v: EPSILON }) {
            return Vec::new();
        }
        let f = Scalar { v: SCALE }.div(det);
        let p1_to_origin = ray.origin.sub(&self.p1);
        let u = f.mul(p1_to_origin.dot(&dir_cross_e2));
        if u.lt(Scalar { v: 0 }) || u.gt(Scalar { v: SCALE }) {
            return Vec::new();
        }
        let origin_cross_e1 = p1_to_origin.cross(&self.e1);
        let v = f.mul(ray.direction.dot(&origin_cross_e1));
        if v.lt(Scalar { v: 0 }) || u.add(v).gt(Scalar { v: SCALE }) {
            return Vec::new();
        }
        let t = f.mul(self.e2.dot(&origin_cross_e1));
        let mut out = Vec::new();
        out.push(Intersection { object, t });
        out
    }
}

impl World {
    /// The bounding box of node `i` in its local space.
    #[verifier::rlimit(60)]
    pub fn bounds(&self, i: usize) -> (r: Bounds)
        requires
            self.wf(),
            i < self.shapes@.len(),
        ensures
            bv(r) == spec_shape_bounds(self.shapes@, i as int),
        decreases self.shapes@.len() - i,
    {
        match self.shapes[i].intersectable.intersectable_type {
            IntersectableType::Sphere | IntersectableType::Cube => Bounds::new(
                Scalar { v: -SCALE },
                Scalar { v: SCALE },
                Scalar { v: -SCALE },
                Scalar { v: SCALE },
                Scalar { v: -SCALE },
                Scalar { v: SCALE },
            ),
            IntersectableType::Plane => Bounds::new(
                Scalar { v: -FX_MAX },
                Scalar { v: FX_MAX },
                Scalar { v: 0 },
                Scalar { v: 0 },
                Scalar { v: -FX_MAX },
                Scalar { v: FX_MAX },
            ),
            IntersectableType::Cylinder => Bounds::new(
                Scalar { v: -SCALE },
                Scalar { v: SCALE },
                self.shapes[i].intersectable.minimum,
                self.shapes[i].intersectable.maximum,
                Scalar { v: -SCALE },
                Scalar { v: SCALE },
            ),
            IntersectableType::Triangle => {
                let mut pts: Vec<Point> = Vec::new();
                pts.push(self.shapes[i].intersectable.p1);
                pts.push(self.shapes[i].intersectable.p2);
                pts.push(self.shapes[i].intersectable.p3);
                proof {
                    assert(pvs(pts@) =~= seq![
                        pv(self.shapes@[i as int].intersectable.p1),
                        pv(self.shapes@[i as int].intersectable.p2),
                        pv(self.shapes@[i as int].intersectable.p3),
                    ]);
                }
                bounds(&pts)
            },
            IntersectableType::Group => {
                let ghost shapes = self.shapes@;
                let ghost cs = self.shapes@[i as int].intersectable.children@;
                let mut pts: Vec<Point> = Vec::new();
                let mut k: usize = 0;
                proof {
                    assert(node_wf(shapes, i as int));
                    assert(cs.subrange(0, 0) =~= Seq::<usize>::empty());
                    assert(pvs(pts@) =~= Seq::<V4>::empty());
                }
                let n = self.shapes[i].intersectable.children.len();
                while k < n
                    invariant
                        self.wf(),
                        i < self.shapes@.len(),
                        shapes == self.shapes@,
                        cs == self.shapes@[i as int].intersectable.children@,
                        n == cs.len(),
                        k <= n,
                        pvs(pts@) == spec_group_child_pts(shapes, cs.subrange(0, k as int), i as int),
                    decreases n - k,
                {
                    proof {
                        assert(node_wf(shapes, i as int));
                    }
                    let c = self.shapes[i].intersectable.children[k];
                    proof {
                        assert(i < c < shapes.len());
                        assert(node_wf(shapes, c as int));
                    }
                    let b = self.bounds(c);
                    let ghost before = pts@;
                    pts.push(self.shapes[c].transform.multiply_point(&b.min));
                    pts.push(self.shapes[c].transform.multiply_point(&b.max));
                    proof {
                        let sub1 = cs.subrange(0, k as int + 1);
                        assert(sub1.drop_last() =~= cs.subrange(0, k as int));
                        assert(sub1.last() == cs[k as int]);
                        assert(pvs(pts@) =~= pvs(before).push(
                            mp_v(m4v(shapes[c as int].transform), spec_shape_bounds(shapes, c as int).min),
                        ).push(
                            mp_v(m4v(shapes[c as int].transform), spec_shape_bounds(shapes, c as int).max),
                        ));
                    }
                    k = k + 1;
                }
                proof {
                    assert(cs.subrange(0, cs.len() as int) =~= cs);
                }
                if pts.len() == 0 {
                    let z = Scalar { v: 0 };
                    Bounds::new(z, z, z, z, z, z)
                } else {
                    let local = bounds(&pts);
                    let own_inverse = self.shapes[i].transform.inverse();
                    let m1 = own_inverse.multiply_point(&local.min);
                    let m2 = own_inverse.multiply_point(&local.max);
                    let mut corners: Vec<Point> = Vec::new();
                    corners.push(m1);
                    corners.push(m2);
                    proof {
                        assert(pvs(corners@) =~= seq![pv(m1), pv(m2)]);
                    }
                    bounds(&corners)
                }
            },
        }
    }

    /// The intersections of `ray` with node `i`, each tagged with the
    /// index of the primitive it struck.
    pub fn intersect(&self, ray: &Ray, i: usize) -> (r: Vec<Intersection>)
        requires
            self.wf(),
            i < self.shapes@.len(),
        ensures
            r@ == spec_intersect(self.shapes@, rv(*ray), i as int),
        decreases self.shapes@.len() - i,
    {
        proof {
            assert(node_wf(self.shapes@, i as int));
        }
        let inverse = self.shapes[i].transform.inverse();
        let local_ray = ray.transform(&inverse);
        match self.shapes[i].intersectable.intersectable_type {
            IntersectableType::Sphere => self.shapes[i].intersectable.local_intersect_sphere(
                &local_ray,
                i,
            ),
            IntersectableType::Plane => self.shapes[i].intersectable.local_intersect_plane(
                &local_ray,
                i,
            ),
            IntersectableType::Cube => self.shapes[i].intersectable.local_intersect_cube(
                &local_ray,
                i,
            ),
            IntersectableType::Cylinder => self.shapes[i].intersectable.local_intersect_cylinder(
                &local_ray,
                i,
            ),
            IntersectableType::Triangle => self.shapes[i].intersectable.local_intersect_triangle(
                &local_ray,
                i,
            ),
            IntersectableType::Group => {
                let ghost shapes = self.shapes@;
                let ghost cs = self.shapes@[i as int].intersectable.children@;
                let b = self.bounds(i);
                if !b.hits(&local_ray) {
                    return Vec::new();
                }
                let mut out: Vec<Intersection> = Vec::new();
                let mut k: usize = 0;
                proof {
                    assert(cs.subrange(0, 0) =~= Seq::<usize>::empty());
                }
                let n = self.shapes[i].intersectable.children.len();
                while k < n
                    invariant
                        self.wf(),
                        i < self.shapes@.len(),
                        shapes == self.shapes@,
                        cs == self.shapes@[i as int].intersectable.children@,
                        n == cs.len(),
                        k <= n,
                        rv(local_ray) == spec_local_ray(rv(*ray), m4v(shapes[i as int].transform)),
                        out@ == spec_intersect_children(
                            shapes,
                            rv(local_ray),
                            cs.subrange(0, k as int),
                            i as int,
                        ),
                    decreases n - k,
                {
                    proof {
                        assert(node_wf(shapes, i as int));
                    }
                    let c = self.shapes[i].intersectable.children[k];
                    let mut part = self.intersect(&local_ray, c);
                    out.append(&mut part);
                    proof {
                        let sub1 = cs.subrange(0, k as int + 1);
                        assert(sub1.drop_last() =~= cs.subrange(0, k as int));
                        assert(sub1.last() == cs[k as int]);
                    }
                    k = k + 1;
                }
                proof {
                    assert(cs.subrange(0, cs.len() as int) =~= cs);
                }
                out
            },
        }
    }

    /// A world point carried into the local space of node `i`.
    pub fn world_to_object(&self, i: usize, world_point: &Point) -> (r: Point)
        requires
            self.wf(),
            i < self.shapes@.len(),
        ensures
            pv(r) == crate::world::spec_world_to_object(self.shapes@, i as int, pv(*world_point)),
        decreases i,
    {
        proof {
            assert(node_wf(self.shapes@, i as int));
        }
        let p = match self.shapes[i].parent {
            Some(par) => self.world_to_object(par, world_point),
            None => *world_point,
        };
        self.shapes[i].transform.inverse().multiply_point(&p)
    }

    /// A local normal of node `i` carried out to world space.
    pub fn normal_to_world(&self, i: usize, normal: &Point) -> (r: Point)
        requires
            self.wf(),
            i < self.shapes@.len(),
        ensures
            pv(r) == spec_normal_to_world(self.shapes@, i as int, pv(*normal)),
        decreases i,
    {
        proof {
            assert(node_wf(self.shapes@, i as int));
        }
        let mut local_normal = self.shapes[i].transform.inverse().transpose().multiply_point(
            normal,
        );
        local_normal.w = Scalar { v: 0 };
        match self.shapes[i].parent {
            Some(par) => self.normal_to_world(par, &local_normal).normalize(),
            None => local_normal.normalize(),
        }
    }

    /// The world-space surface normal of node `i` at a world point.
    pub fn normal_at(&self, i: usize, world_point: &Point) -> (r: Point)
        requires
            self.wf(),
            i < self.shapes@.len(),
        ensures
            pv(r) == crate::world::spec_normal_at(self.shapes@, i as int, pv(*world_point)),
    {
        proof {
            assert(node_wf(self.shapes@, i as int));
        }
        let local_point = self.shapes[i].transform.inverse().multiply_point(world_point);
        let local_normal = self.shapes[i].intersectable.local_normal_at(&local_point);
        self.normal_to_world(i, &local_normal)
    }
}

impl Ray {
    /// The intersections of this ray with the shape at index `shape` of
    /// `world`.
    pub fn intersect(&self, world: &World, shape: usize) -> (r: Vec<Intersection>)
        requires
            world.wf(),
            shape < world.shapes@.len(),
        ensures
            r@ == spec_intersect(world.shapes@, rv(*self), shape as int),
    {
        world.intersect(self, shape)
    }

    /// Every intersection of this ray with the world's top-level objects,
    /// sorted ascending by `t`.
    pub fn intersect_world(&self, world: &World) -> (r: Vec<Intersection>)
        requires
            world.wf(),
        ensures
            r@ == spec_intersect_world(world.shapes@, world.objects@, rv(*self)),
    {
        let ghost objects = world.objects@;
        let mut acc: Vec<Intersection> = Vec::new();
        let mut k: usize = 0;
        proof {
            assert(objects.subrange(0, 0) =~= Seq::<usize>::empty());
        }
        while k < world.objects.len()
            invariant
                world.wf(),
                objects == world.objects@,
                k <= objects.len(),
                acc@ == spec_all_hits(world.shapes@, objects.subrange(0, k as int), rv(*self)),
            decreases objects.len() - k,
        {
            let o = world.objects[k];
            let mut part = world.intersect(self, o);
            acc.append(&mut part);
            proof {
                let sub1 = objects.subrange(0, k as int + 1);
                assert(sub1.drop_last() =~= objects.subrange(0, k as int));
                assert(sub1.last() == objects[k as int]);
            }
            k = k + 1;
        }
        proof {
            assert(objects.subrange(0, objects.len() as int) =~= objects);
        }
        sort_intersections(acc)
    }
}

} // verus!
