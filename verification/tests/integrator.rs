use pathtrace::color::Color;
use pathtrace::hit::{Crossings, HitRecord, Hittable, HittableList};
use pathtrace::integrator::{
    after_scatter, after_trace, bounce, brightness_percent, clearance, horizon, trace, Bounce, Trace, DEPTH_LIMIT,
};
use pathtrace::material::{Material, Scattering};
use pathtrace::ray::Ray;
use pathtrace::rect::{PlaneCrossing, XYRect};
use pathtrace::sampling::{fallback, judge, Verdict, MAX_DRAWS};
use pathtrace::scalar::Scalar;
use pathtrace::vec3::Vec3;

fn s(x: f64) -> Scalar {
    Scalar::from_bits(x.to_bits())
}

fn v(x: f64, y: f64, z: f64) -> Vec3 {
    Vec3::new(s(x), s(y), s(z))
}

fn some_hit(material: Material) -> HitRecord {
    HitRecord { t: s(2.0), point: v(0.0, 0.0, -2.0), normal: v(0.0, 0.0, -1.0), u: s(0.5), v: s(0.5), material }
}

fn matte() -> Material {
    Material::Lambertian { albedo: Color::new(s(0.5), s(0.25), s(0.125)) }
}

// The light of the background along a direction.
fn background(d: (f64, f64, f64)) -> (f64, f64, f64) {
    let length = (d.0 * d.0 + d.1 * d.1 + d.2 * d.2).sqrt();
    let t = 0.5 * (d.1 / length + 1.0);
    let f = |x: Scalar| f64::from_bits(x.to_bits());
    let (low, high) = (Color::white(), Color::sky());
    (
        f(low.r()) * (1.0 - t) + f(high.r()) * t,
        f(low.g()) * (1.0 - t) + f(high.g()) * t,
        f(low.b()) * (1.0 - t) + f(high.b()) * t,
    )
}

#[test]
fn depth_limit_is_fifty() {
    assert_eq!(DEPTH_LIMIT, 50);
}

#[test]
fn search_runs_from_just_above_zero_to_infinity() {
    assert_eq!(clearance().to_bits(), 0.001f64.to_bits());
    assert_eq!(horizon().to_bits(), f64::INFINITY.to_bits());
}

#[test]
fn a_miss_shows_the_background() {
    for depth in [i32::MIN, 0, 1, 49, 50, 51, i32::MAX] {
        assert!(matches!(after_trace(None, depth), Trace::Background));
    }
}

#[test]
fn an_empty_scene_shows_the_background() {
    let world = HittableList::new(Vec::new());
    let none: Vec<Crossings> = Vec::new();
    for depth in [0, 1, 49, 50, 1000] {
        assert!(matches!(trace(&world, &none, depth), Trace::Background));
    }
}

#[test]
fn background_is_sky_straight_up_and_white_straight_down() {
    assert_eq!(background((0.0, 1.0, 0.0)), (0.5, 0.7, 1.0));
    assert_eq!(background((0.0, -1.0, 0.0)), (1.0, 1.0, 1.0));
}

#[test]
fn a_hit_below_the_depth_limit_is_scattered() {
    for depth in [i32::MIN, -1, 0, 1, 48, 49] {
        match after_trace(Some(some_hit(matte())), depth) {
            Trace::Scatter(rec) => {
                assert_eq!(rec.t, s(2.0));
                assert_eq!(rec.point, v(0.0, 0.0, -2.0));
            }
            other => panic!("{other:?}"),
        }
    }
}

#[test]
fn a_hit_at_the_depth_limit_is_black() {
    for depth in [50, 51, 1000, i32::MAX] {
        assert!(matches!(after_trace(Some(some_hit(matte())), depth), Trace::Black));
    }
}

#[test]
fn trace_searches_the_scene() {
    let wall = XYRect::new(s(-1.0), s(1.0), s(-1.0), s(1.0), s(-2.0), matte());
    let world = HittableList::new(vec![Hittable::XYRect(wall)]);
    let at = |t: f64| {
        vec![Crossings::Plane(PlaneCrossing { t: s(t), point: v(0.0, 0.0, -2.0), a: s(0.0), b: s(0.0), u: s(0.5), v: s(0.5), facing: s(-1.0) })]
    };
    assert!(matches!(trace(&world, &at(2.0), 1), Trace::Scatter(rec) if rec.t == s(2.0)));
    assert!(matches!(trace(&world, &at(2.0), 50), Trace::Black));
    assert!(matches!(trace(&world, &at(0.001), 1), Trace::Background));
    assert!(matches!(trace(&world, &at(0.0011), 1), Trace::Scatter(_)));
    assert!(matches!(trace(&world, &at(0.0), 1), Trace::Background));
    assert!(matches!(trace(&world, &at(-2.0), 1), Trace::Background));
    assert!(matches!(trace(&world, &at(f64::MAX), 1), Trace::Scatter(_)));
    assert!(matches!(trace(&world, &at(f64::INFINITY), 1), Trace::Background));
    assert!(matches!(trace(&world, &at(f64::NAN), 1), Trace::Background));
    assert!(matches!(trace(&world, &Vec::new(), 1), Trace::Background));
}

#[test]
fn a_scattered_path_goes_one_deeper() {
    let ray = Ray::new(v(0.0, 0.0, -2.0), v(0.0, 1.0, 0.0));
    let tint = Color::new(s(0.5), s(0.25), s(0.125));
    for depth in [-3, 0, 1, 48, 49] {
        match after_scatter(Some((tint, ray)), depth) {
            Bounce::Continue { attenuation, ray, depth: next } => {
                assert_eq!(attenuation, tint);
                assert_eq!(ray.origin, v(0.0, 0.0, -2.0));
                assert_eq!(ray.direction, v(0.0, 1.0, 0.0));
                assert_eq!(next, depth + 1);
            }
            other => panic!("{other:?}"),
        }
    }
}

#[test]
fn an_absorbed_path_is_black() {
    for depth in [0, 1, 49, 50] {
        assert!(matches!(after_scatter(None, depth), Bounce::Black));
    }
}

#[test]
fn a_path_at_the_depth_limit_goes_no_further() {
    let ray = Ray::new(v(0.0, 0.0, -2.0), v(0.0, 1.0, 0.0));
    for depth in [50, 51, i32::MAX] {
        assert!(matches!(after_scatter(Some((Color::white(), ray)), depth), Bounce::Black));
    }
}

#[test]
fn a_path_ends_within_the_depth_limit() {
    let rec = some_hit(matte());
    let sc = Scattering { diffuse: v(0.0, 0.0, -1.0), ..Scattering::default() };
    let mut depth = 1;
    let mut bounces = 0;
    loop {
        match after_trace(Some(rec), depth) {
            Trace::Scatter(rec) => match bounce(&rec, &sc, depth) {
                Bounce::Continue { depth: next, .. } => {
                    depth = next;
                    bounces += 1;
                }
                Bounce::Black => panic!("a matte surface absorbed"),
            },
            Trace::Black => break,
            Trace::Background => panic!("a hit was taken for a miss"),
        }
    }
    assert_eq!(bounces, 49);
    assert_eq!(depth, 50);
}

#[test]
fn bounce_scatters_by_the_material_of_the_hit() {
    let sc = Scattering { diffuse: v(1.0, 0.0, 0.0), reflected: v(0.0, 1.0, 0.0), reflected_facing: s(-1.0), ..Scattering::default() };
    match bounce(&some_hit(matte()), &sc, 7) {
        Bounce::Continue { attenuation, ray, depth } => {
            assert_eq!(attenuation, Color::new(s(0.5), s(0.25), s(0.125)));
            assert_eq!(ray.origin, v(0.0, 0.0, -2.0));
            assert_eq!(ray.direction, v(1.0, 0.0, 0.0));
            assert_eq!(depth, 8);
        }
        other => panic!("{other:?}"),
    }
    let metal = Material::Metal { albedo: Color::white() };
    assert!(matches!(bounce(&some_hit(metal), &sc, 7), Bounce::Black));
    let shiny = Scattering { reflected_facing: s(1.0), ..sc };
    assert!(matches!(bounce(&some_hit(metal), &shiny, 7), Bounce::Continue { ray, depth: 8, .. } if ray.direction == v(0.0, 1.0, 0.0)));
}

#[test]
fn brightness_is_the_level_from_one_to_a_hundred() {
    assert_eq!(brightness_percent(1), 1);
    assert_eq!(brightness_percent(50), 50);
    assert_eq!(brightness_percent(100), 100);
}

#[test]
fn brightness_is_full_for_every_other_level() {
    for light in [0, -1, 101, 1000, i32::MIN, i32::MAX] {
        assert_eq!(brightness_percent(light), 100);
    }
}

#[test]
fn a_candidate_inside_is_accepted() {
    for draws in [1, 50, MAX_DRAWS, MAX_DRAWS + 1, u32::MAX] {
        assert_eq!(judge(s(0.0), draws), Verdict::Accept);
        assert_eq!(judge(s(0.25), draws), Verdict::Accept);
        assert_eq!(judge(s(1.0 - f64::EPSILON), draws), Verdict::Accept);
    }
}

#[test]
fn a_candidate_outside_is_drawn_again_until_the_draws_run_out() {
    for outside in [1.0, 1.5, 3.0, f64::INFINITY, f64::NAN] {
        assert_eq!(judge(s(outside), 1), Verdict::Retry);
        assert_eq!(judge(s(outside), MAX_DRAWS - 1), Verdict::Retry);
        assert_eq!(judge(s(outside), MAX_DRAWS), Verdict::GiveUp);
        assert_eq!(judge(s(outside), u32::MAX), Verdict::GiveUp);
    }
    assert_eq!(MAX_DRAWS, 100);
}

#[test]
fn a_search_that_never_accepts_ends_with_the_fallback() {
    let mut draws = 0;
    let point = loop {
        draws += 1;
        match judge(s(2.0), draws) {
            Verdict::Accept => panic!("a point outside was accepted"),
            Verdict::Retry => continue,
            Verdict::GiveUp => break fallback(),
        }
    };
    assert_eq!(draws, MAX_DRAWS);
    assert_eq!(point, Vec3::zero());
}
