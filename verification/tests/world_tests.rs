use tracer::color::Color;
use tracer::fx::Scalar;
use tracer::intersection::Intersection;
use tracer::matrix::Matrix4;
use tracer::point::{point, vector, Point};
use tracer::point_light::PointLight;
use tracer::ray::Ray;
use tracer::shape::Shape;
use tracer::world::World;

const U: i64 = 1_000_000;

fn s(v: i64) -> Scalar {
    Scalar::from_micros(v)
}

fn pt(x: i64, y: i64, z: i64) -> Point {
    point(s(x), s(y), s(z))
}

fn vc(x: i64, y: i64, z: i64) -> Point {
    vector(s(x), s(y), s(z))
}

fn color(r: i64, g: i64, b: i64) -> Color {
    Color::new(s(r), s(g), s(b))
}

#[test]
fn test_default_world() {
    let default_world = World::new();
    assert_eq!(default_world.light_source.intensity, color(U, U, U));
    assert!(default_world.light_source.position.equal(&pt(-10 * U, 10 * U, -10 * U)));
    assert_eq!(default_world.objects.len(), 2);
}

#[test]
fn test_shade_color() {
    let default_world = World::new();
    let r = Ray { origin: pt(0, 0, -5 * U), direction: vc(0, 0, U) };
    let i = Intersection { object: 0, t: s(4 * U) };
    let comps = i.precompute(&r, &Vec::new(), &default_world);
    let c = default_world.shade_hit(comps, 10);
    assert_eq!(c, color(380_660, 475_830, 285_500));
}

#[test]
fn test_shade_color_2() {
    let mut world = World::new();
    world.light_source = PointLight { position: pt(0, 250_000, 0), intensity: color(U, U, U) };
    let r = Ray { origin: pt(0, 0, 0), direction: vc(0, 0, U) };
    let i = Intersection { object: 1, t: s(500_000) };
    let comps = i.precompute(&r, &Vec::new(), &world);
    let c = world.shade_hit(comps, 10);
    assert_eq!(c, color(904_984, 904_984, 904_984));
}

#[test]
fn test_world_color_at() {
    let world = World::new();
    let r = Ray { origin: pt(0, 0, -5 * U), direction: vc(0, U, 0) };
    assert_eq!(world.color_at(&r, 10), color(0, 0, 0));
}

#[test]
fn test_world_color_at_2() {
    // the default world seen head on: the canonical shaded green
    let world = World::new();
    let r = Ray { origin: pt(0, 0, -5 * U), direction: vc(0, 0, U) };
    assert_eq!(world.color_at(&r, 10), color(380_660, 475_830, 285_500));
}

#[test]
fn test_world_in_shadow() {
    let world = World::new();
    assert!(!world.is_shadowed(&pt(0, 10 * U, 0)));
}

#[test]
fn test_world_in_shadow_2() {
    let world = World::new();
    assert!(world.is_shadowed(&pt(10 * U, -10 * U, 10 * U)));
}

#[test]
fn test_world_in_shadow_3() {
    let world = World::new();
    assert!(!world.is_shadowed(&pt(-20 * U, 20 * U, -20 * U)));
}

#[test]
fn test_world_in_shadow_4() {
    let world = World::new();
    assert!(!world.is_shadowed(&pt(-2 * U, 2 * U, -2 * U)));
}

#[test]
fn test_world_reflected_color_for_non_reflective_material() {
    let mut world = World::new();
    let ray = Ray { origin: pt(0, 0, 0), direction: vc(0, 0, U) };
    world.shapes[1].material.ambient = s(U);
    let intersection = ray.intersect_world(&world)[0];
    let comps = intersection.precompute(&ray, &Vec::new(), &world);
    let c = world.reflected_color(&comps, 10);
    assert_eq!(c, Color::black());
}

#[test]
fn test_world_reflected_color_for_reflective_material() {
    let mut world = World::new();
    let mut plane = Shape::plane();
    plane.transform = Matrix4::translation(s(0), s(-U), s(0));
    plane.material.reflective = s(500_000);
    let plane_idx = world.add_shape(plane);
    let sqrt_two_over_two = 707_107;
    let ray = Ray {
        origin: pt(0, 0, -3 * U),
        direction: vc(0, -sqrt_two_over_two, sqrt_two_over_two),
    };
    let intersection = Intersection { object: plane_idx, t: s(1_414_214) };
    let comps = intersection.precompute(&ray, &Vec::new(), &world);
    let c = world.reflected_color(&comps, 10);
    // the float reference is (0.19033, 0.23791, 0.14275); the fixed-point
    // kernel lands within a couple hundredths of a thousandth of it
    assert_eq!(c, color(190_347, 237_934, 142_760));
}

#[test]
fn test_world_reflected_color_infinite_recursion() {
    // two facing mirrors: the recursion bound must end the bouncing
    let mut world = World::new();
    world.objects = Vec::new();
    world.light_source = PointLight { position: pt(0, 0, 0), intensity: color(U, U, U) };
    let mut lower = Shape::plane();
    lower.material.reflective = s(U);
    lower.transform = Matrix4::translation(s(0), s(-U), s(0));
    world.add_shape(lower);
    let mut upper = Shape::plane();
    upper.material.reflective = s(U);
    upper.transform = Matrix4::translation(s(0), s(U), s(0));
    world.add_shape(upper);
    let ray = Ray { origin: pt(0, 0, 0), direction: vc(0, U, 0) };
    // each of the eleven bounces the depth bound allows adds the fully
    // lit mirror surface, 1.9 per bounce; the recursion then stops
    assert_eq!(world.color_at(&ray, 10), color(20_900_000, 20_900_000, 20_900_000));
}

#[test]
fn test_refracted_color_of_opaque_object() {
    let w = World::new();
    let ray = Ray { origin: pt(0, 0, -5 * U), direction: vc(0, 0, U) };
    let xs = vec![
        Intersection { object: 0, t: s(4 * U) },
        Intersection { object: 0, t: s(6 * U) },
    ];
    let comps = xs[0].precompute(&ray, &xs, &w);
    let c = w.refracted_color(&comps, 5);
    assert_eq!(c, Color::black());
}

#[test]
fn test_refracted_color_of_maximum_depth() {
    let mut w = World::new();
    w.shapes[0].material.transparency = s(U);
    w.shapes[0].material.refractive_index = s(1_500_000);
    let ray = Ray { origin: pt(0, 0, -5 * U), direction: vc(0, 0, U) };
    let xs = vec![
        Intersection { object: 0, t: s(4 * U) },
        Intersection { object: 0, t: s(6 * U) },
    ];
    let comps = xs[0].precompute(&ray, &xs, &w);
    let c = w.refracted_color(&comps, 0);
    assert_eq!(c, Color::black());
}

#[test]
fn test_refracted_color_total_internal_reflection() {
    let mut w = World::new();
    w.shapes[0].material.transparency = s(U);
    w.shapes[0].material.refractive_index = s(1_500_000);
    let sqrt_two_over_two = 707_107;
    let ray = Ray { origin: pt(0, 0, sqrt_two_over_two), direction: vc(0, U, 0) };
    let xs = vec![
        Intersection { object: 0, t: s(-sqrt_two_over_two) },
        Intersection { object: 0, t: s(sqrt_two_over_two) },
    ];
    let comps = xs[1].precompute(&ray, &xs, &w);
    let c = w.refracted_color(&comps, 5);
    assert_eq!(c, Color::black());
}

#[test]
fn test_shade_hit_blends_by_schlick_reflectance() {
    // a floor both reflective and transparent: the surface color plus the
    // reflected part weighted by the Schlick reflectance and the
    // refracted part by its complement
    let mut world = World::new();
    let mut floor = Shape::plane();
    floor.transform = Matrix4::translation(s(0), s(-U), s(0));
    floor.material.reflective = s(500_000);
    floor.material.transparency = s(500_000);
    floor.material.refractive_index = s(1_500_000);
    let floor_idx = world.add_shape(floor);
    let sqrt_two_over_two = 707_107;
    let ray = Ray {
        origin: pt(0, 0, -3 * U),
        direction: vc(0, -sqrt_two_over_two, sqrt_two_over_two),
    };
    let xs = vec![Intersection { object: floor_idx, t: s(1_414_214) }];
    let comps = xs[0].precompute(&ray, &xs, &world);
    let shaded = world.shade_hit(comps, 5);

    let comps2 = xs[0].precompute(&ray, &xs, &world);
    let surface = world.shapes[floor_idx].material.lighting(
        &world.light_source,
        &comps2.point,
        &comps2.eyev,
        &comps2.normalv,
        world.is_shadowed(&comps2.over_point),
        &world.shapes[floor_idx],
    );
    let reflected = world.reflected_color(&comps2, 5);
    let refracted = world.refracted_color(&comps2, 5);
    let reflectance = Intersection::schlick(&comps2);
    let expected = surface.add(&reflected.multiply_scalar(reflectance)).add(
        &refracted.multiply_scalar(s(U).sub(reflectance)),
    );
    assert_eq!(shaded, expected);
    assert!(reflectance.gt(s(0)) && reflectance.lt(s(U)));
}
