//! Spheres.

use vstd::prelude::*;
use crate::hit::{spec_inside, Crossing, HitRecord};
use crate::material::Material;
use crate::nearest::{
    any_inside, first_least, lemma_nearest_at, lemma_nearest_empty, lemma_nearest_is_least, lemma_nearest_push,
    nearest, take_closer,
};
use crate::scalar::Scalar;
use crate::vec3::Vec3;

verus! {

/// The points at distance `radius` from `center`.
#[derive(Clone, Copy, Debug)]
pub struct Sphere {
    pub center: Vec3,
    pub radius: Scalar,
    pub material: Material,
}

/// What a ray does to a sphere. With `oc` for the ray's origin minus the
/// centre and `d` for its direction, the ray meets the sphere where
/// `a t^2 + 2 b t + c = 0` for `a = d.d`, `b = oc.d`, `c = oc.oc - radius^2`.
#[derive(Clone, Copy, Debug)]
pub struct SphereCrossings {
    /// `b^2 - a c`.
    pub discriminant: Scalar,
    /// The crossing at the root `(-b - sqrt(discriminant)) / a`.
    pub near: Crossing,
    /// The crossing at the root `(-b + sqrt(discriminant)) / a`.
    pub far: Crossing,
}

impl Sphere {
    /// The ray crosses the sphere twice exactly where the discriminant is
    /// above zero. A ray that only touches the sphere does not count.
    pub open spec fn candidates(self, c: SphereCrossings) -> Seq<HitRecord> {
        if c.discriminant.spec_gt(Scalar::spec_zero()) {
            seq![c.near.spec_record(self.material), c.far.spec_record(self.material)]
        } else {
            Seq::empty()
        }
    }

    pub fn new(center: Vec3, radius: Scalar, material: Material) -> (s: Sphere)
        ensures
            s == (Sphere { center, radius, material }),
    {
        Sphere { center, radius, material }
    }

    /// The nearest place inside the interval where the ray enters or leaves
    /// the sphere.
    pub fn hit(&self, c: &SphereCrossings, t_min: Scalar, t_max: Scalar) -> (r: Option<HitRecord>)
        ensures
            r == nearest(self.candidates(*c), t_min, t_max),
            r is Some <==> c.discriminant.spec_gt(Scalar::spec_zero()) && (spec_inside(c.near.t, t_min, t_max)
                || spec_inside(c.far.t, t_min, t_max)),
            r matches Some(h) ==> spec_inside(h.t, t_min, t_max),
    {
        let ghost none = Seq::<HitRecord>::empty();
        proof {
            lemma_nearest_empty(t_min, t_max);
            lemma_nearest_is_least(self.candidates(*c), t_min, t_max);
            let cands = self.candidates(*c);
            if c.discriminant.spec_gt(Scalar::spec_zero()) {
                assert(cands[0].t == c.near.t && cands[1].t == c.far.t);
                if any_inside(cands, t_min, t_max) {
                    let i = choose|i: int|
                        #![trigger cands[i]]
                        0 <= i < cands.len() && spec_inside(cands[i].t, t_min, t_max);
                    assert(i == 0 || i == 1);
                }
            }
        }
        if !c.discriminant.gt(Scalar::zero()) {
            return None;
        }
        let near = c.near.record(self.material);
        let far = c.far.record(self.material);
        let first = take_closer(None, near, t_min, t_max);
        let best = take_closer(first, far, t_min, t_max);
        proof {
            lemma_nearest_push(none, near, t_min, t_max);
            lemma_nearest_push(none.push(near), far, t_min, t_max);
            assert(self.candidates(*c) =~= none.push(near).push(far));
        }
        best
    }
}

/// Where the near root is not above the far root, the sphere reports the near
/// root if it lies inside the interval, else the far root if that one does,
/// else nothing.
pub proof fn lemma_sphere_prefers_near(s: Sphere, c: SphereCrossings, t_min: Scalar, t_max: Scalar)
    requires
        c.discriminant.spec_gt(Scalar::spec_zero()),
        c.near.t.spec_le(c.far.t),
    ensures
        nearest(s.candidates(c), t_min, t_max) == if spec_inside(c.near.t, t_min, t_max) {
            Some(c.near.spec_record(s.material))
        } else if spec_inside(c.far.t, t_min, t_max) {
            Some(c.far.spec_record(s.material))
        } else {
            None
        },
{
    let cands = s.candidates(c);
    lemma_nearest_is_least(cands, t_min, t_max);
    if spec_inside(c.near.t, t_min, t_max) {
        assert(first_least(cands, t_min, t_max, 0));
        lemma_nearest_at(cands, t_min, t_max, 0);
    } else if spec_inside(c.far.t, t_min, t_max) {
        assert(first_least(cands, t_min, t_max, 1));
        lemma_nearest_at(cands, t_min, t_max, 1);
    } else {
        if any_inside(cands, t_min, t_max) {
            let i = choose|i: int|
                #![trigger cands[i]]
                0 <= i < cands.len() && spec_inside(cands[i].t, t_min, t_max);
            assert(i == 0 || i == 1);
        }
    }
}

} // verus!
