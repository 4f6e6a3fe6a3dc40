//! Rejection sampling with a bound.
//!
//! A random point inside the unit disk or the unit sphere is found by drawing
//! candidates from the square or cube around it until one lies inside. The
//! draws are the caller's; whether to take a candidate, draw again or give up
//! is decided here.

use vstd::prelude::*;
use crate::scalar::Scalar;
use crate::vec3::Vec3;

verus! {

/// The number of candidates after which the search gives up.
pub const MAX_DRAWS: u32 = 100;

/// What to do with a candidate.
#[derive(Clone, Copy, Debug, PartialEq, Eq, Structural)]
pub enum Verdict {
    /// The candidate lies inside: take it.
    Accept,
    /// The candidate lies outside: draw another.
    Retry,
    /// The candidate lies outside and no draw is left: take the fallback.
    GiveUp,
}

/// The candidate lies inside the unit disk or sphere: its squared length is
/// below one.
pub open spec fn accepted(squared_length: Scalar) -> bool {
    squared_length.spec_lt(Scalar::spec_one())
}

/// Judges the candidate that was drawn as number `draws`, counted from 1, by
/// its squared length. A search that draws again only on `Retry` ends with
/// draw number `MAX_DRAWS` at the latest.
pub fn judge(squared_length: Scalar, draws: u32) -> (v: Verdict)
    ensures
        v == if accepted(squared_length) {
            Verdict::Accept
        } else if draws < MAX_DRAWS {
            Verdict::Retry
        } else {
            Verdict::GiveUp
        },
        draws >= MAX_DRAWS ==> v != Verdict::Retry,
{
    if squared_length.lt(Scalar::one()) {
        Verdict::Accept
    } else if draws < MAX_DRAWS {
        Verdict::Retry
    } else {
        Verdict::GiveUp
    }
}

/// The point to take where the search gave up: the centre, which lies inside
/// the disk and the sphere.
pub fn fallback() -> (p: Vec3)
    ensures
        p == Vec3::spec_zero(),
{
    Vec3::zero()
}

} // verus!
