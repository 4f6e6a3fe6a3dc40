//! How a light path runs and where it ends.
//!
//! A path starts at the camera. At every step the scene is searched along
//! the current ray. A ray that hits nothing sees the background. A ray that
//! hits a surface is scattered there, and the path goes on along the
//! scattered ray with its light dimmed by the surface, unless the surface
//! absorbs it or the path has reached its depth limit: then it carries no
//! light. The light of a path is the light at its end times every factor on
//! the way.

use vstd::prelude::*;
use crate::color::Color;
use crate::hit::{
    lemma_empty_list_misses, members_candidates, Crossings, HitRecord, Hittable, HittableList,
};
use crate::material::{scatter, spec_scatter, Scattering};
use crate::nearest::nearest;
use crate::ray::Ray;
use crate::scalar::Scalar;

verus! {

/// The depth at which a path is cut off.
pub const DEPTH_LIMIT: i32 = 50;

/// The bit pattern of the binary64 value nearest to one thousandth.
pub const CLEARANCE_BITS: u64 = 0x3f50_624d_d2f1_a9fc;

/// What to do with a ray once the scene has been searched along it.
#[derive(Clone, Copy, Debug)]
pub enum Trace {
    /// The ray hit nothing: the path ends with the light of the background
    /// in the ray's direction.
    Background,
    /// The path has reached the depth limit: it ends without light.
    Black,
    /// The ray hit a surface at this record: scatter it there.
    Scatter(HitRecord),
}

/// What to do with a path once the surface has scattered, or has not.
#[derive(Clone, Copy, Debug)]
pub enum Bounce {
    /// The surface absorbed the light: the path ends without light.
    Black,
    /// The path goes on, one deeper, along `ray`; its light is dimmed by
    /// `attenuation`.
    Continue { attenuation: Color, ray: Ray, depth: i32 },
}

/// How many more times a path at `depth` can scatter.
pub open spec fn bounces_left(depth: i32) -> nat {
    if depth < DEPTH_LIMIT {
        (DEPTH_LIMIT - depth) as nat
    } else {
        0
    }
}

/// What to do with a ray at `depth` for which the search of the scene gave
/// `hit`.
pub open spec fn spec_after_trace(hit: Option<HitRecord>, depth: i32) -> Trace {
    match hit {
        None => Trace::Background,
        Some(rec) => if depth < DEPTH_LIMIT {
            Trace::Scatter(rec)
        } else {
            Trace::Black
        },
    }
}

/// Decides what to do with a ray at `depth` for which the search of the
/// scene gave `hit`.
#[verifier::when_used_as_spec(spec_after_trace)]
pub fn after_trace(hit: Option<HitRecord>, depth: i32) -> (r: Trace)
    ensures
        r == spec_after_trace(hit, depth),
        r is Scatter ==> bounces_left(depth) > 0,
{
    match hit {
        None => Trace::Background,
        Some(rec) => {
            if depth < DEPTH_LIMIT {
                Trace::Scatter(rec)
            } else {
                Trace::Black
            }
        },
    }
}

/// The least parameter at which a ray can hit: a little above zero, so that a
/// scattered ray does not hit the surface it starts from.
pub open spec fn spec_clearance() -> Scalar {
    Scalar { bits: CLEARANCE_BITS }
}

/// The bound below which every hit lies: infinity.
pub open spec fn spec_horizon() -> Scalar {
    Scalar { bits: crate::scalar::INFINITY_BITS }
}

#[verifier::when_used_as_spec(spec_clearance)]
pub fn clearance() -> (r: Scalar)
    ensures
        r == spec_clearance(),
{
    Scalar::from_bits(CLEARANCE_BITS)
}

#[verifier::when_used_as_spec(spec_horizon)]
pub fn horizon() -> (r: Scalar)
    ensures
        r == spec_horizon(),
{
    Scalar::from_bits(crate::scalar::INFINITY_BITS)
}

/// Searches the scene along a ray, from the clearance out to the horizon,
/// and decides what to do with the ray at `depth`.
pub fn trace(world: &HittableList, crossings: &Vec<Crossings>, depth: i32) -> (r: Trace)
    ensures
        r == spec_after_trace(
            nearest(members_candidates(world@, crossings@), spec_clearance(), spec_horizon()),
            depth,
        ),
        r is Scatter ==> bounces_left(depth) > 0,
{
    after_trace(world.hit(crossings, clearance(), horizon()), depth)
}

/// What to do with a path at `depth` whose ray was scattered, or absorbed,
/// at the surface it hit. A path that is already at the depth limit goes no
/// further.
pub open spec fn spec_after_scatter(scattered: Option<(Color, Ray)>, depth: i32) -> Bounce {
    match scattered {
        Some((attenuation, ray)) => if depth < DEPTH_LIMIT {
            Bounce::Continue { attenuation, ray, depth: (depth + 1) as i32 }
        } else {
            Bounce::Black
        },
        None => Bounce::Black,
    }
}

/// Decides what to do with a path at `depth` whose ray was scattered, or
/// absorbed, at the surface it hit.
#[verifier::when_used_as_spec(spec_after_scatter)]
pub fn after_scatter(scattered: Option<(Color, Ray)>, depth: i32) -> (r: Bounce)
    ensures
        r == spec_after_scatter(scattered, depth),
        r matches Bounce::Continue { depth: next, .. } ==> bounces_left(next) + 1 == bounces_left(depth),
{
    match scattered {
        Some((attenuation, ray)) => {
            if depth < DEPTH_LIMIT {
                Bounce::Continue { attenuation, ray, depth: depth + 1 }
            } else {
                Bounce::Black
            }
        },
        None => Bounce::Black,
    }
}

/// Scatters a ray at the surface it hit and decides what to do with the path
/// at `depth`.
pub fn bounce(rec: &HitRecord, s: &Scattering, depth: i32) -> (r: Bounce)
    ensures
        r == spec_after_scatter(spec_scatter(rec.material, *rec, *s), depth),
        r matches Bounce::Continue { depth: next, .. } ==> bounces_left(next) + 1 == bounces_left(depth),
{
    after_scatter(scatter(&rec.material, rec, s), depth)
}

/// The share of full brightness, in hundredths, for a light level from a
/// scene description: the level itself from 1 to 100, and full brightness for
/// every other level.
pub fn brightness_percent(light: i32) -> (p: i32)
    ensures
        p == if 0 < light <= 100 {
            light
        } else {
            100
        },
        0 < p <= 100,
{
    if light > 0 && light <= 100 {
        light
    } else {
        100
    }
}

/// A scene with nothing in it is never hit, so a path through it ends at
/// once with the light of the background, whatever the ray and the depth.
pub proof fn lemma_empty_scene_shows_background(cs: Seq<Crossings>, t_min: Scalar, t_max: Scalar, depth: i32)
    ensures
        nearest(members_candidates(Seq::<Hittable>::empty(), cs), t_min, t_max) is None,
        spec_after_trace(nearest(members_candidates(Seq::<Hittable>::empty(), cs), t_min, t_max), depth)
            == Trace::Background,
{
    lemma_empty_list_misses(cs, t_min, t_max);
}

/// A path at or beyond the depth limit that hits a surface ends without
/// light.
pub proof fn lemma_depth_limit_ends_black(rec: HitRecord, depth: i32)
    requires
        depth >= DEPTH_LIMIT,
    ensures
        spec_after_trace(Some(rec), depth) == Trace::Black,
{
}

} // verus!
