//! Upright cylinders.

use vstd::prelude::*;
use crate::hit::{oriented, spec_inside, Crossing, HitRecord};
use crate::material::Material;
use crate::nearest::{
    any_inside, lemma_nearest_empty, lemma_nearest_is_least, lemma_nearest_push, nearest, take_closer,
};
use crate::scalar::Scalar;
use crate::vec3::Vec3;

verus! {

/// A finite cylinder around a vertical axis: a side, and a flat cap at each
/// end. `center` is the middle of the lower cap; the upper cap lies `height`
/// above it.
#[derive(Clone, Copy, Debug)]
pub struct Cylinder {
    pub center: Vec3,
    pub radius: Scalar,
    pub height: Scalar,
    pub material: Material,
}

/// Where a ray crosses the endless tube that the side is cut from.
#[derive(Clone, Copy, Debug)]
pub struct SideCrossing {
    /// The crossing; its outward normal is the point minus the point of the
    /// axis at the same height, divided by the radius.
    pub at: Crossing,
    /// How far the point lies above the plane of the lower cap.
    pub rise: Scalar,
}

/// Where a ray crosses the plane of a cap.
#[derive(Clone, Copy, Debug)]
pub struct CapCrossing {
    /// The parameter of the ray at the crossing.
    pub t: Scalar,
    /// The point of the ray at `t`.
    pub point: Vec3,
    /// The horizontal distance of that point from the axis.
    pub axis_distance: Scalar,
    /// The dot product of the ray's direction with the cap's outward normal:
    /// straight down for the lower cap, straight up for the upper one.
    pub facing: Scalar,
}

/// What a ray does to a cylinder. Seen from above, the side is a circle: with
/// `oc` for the ray's origin minus the centre and `d` for its direction, both
/// without their vertical parts, the ray crosses the tube where
/// `a t^2 + 2 b t + c = 0` for `a = d.d`, `b = oc.d`, `c = oc.oc - radius^2`.
#[derive(Clone, Copy, Debug)]
pub struct CylinderCrossings {
    /// `b^2 - a c`.
    pub discriminant: Scalar,
    /// The crossing of the tube at the root `(-b - sqrt(discriminant)) / a`.
    pub side_near: SideCrossing,
    /// The crossing of the tube at the root `(-b + sqrt(discriminant)) / a`.
    pub side_far: SideCrossing,
    /// The crossing of the plane of the lower cap.
    pub base: CapCrossing,
    /// The crossing of the plane of the upper cap.
    pub top: CapCrossing,
}

/// A sequence of one candidate, or of none.
pub open spec fn offered(valid: bool, h: HitRecord) -> Seq<HitRecord> {
    if valid {
        seq![h]
    } else {
        Seq::empty()
    }
}

impl Cylinder {
    /// A crossing of the tube lies on the side where the ray crosses the tube
    /// at all and the point is no lower than the lower cap and no higher than
    /// the upper one.
    pub open spec fn on_side(self, c: CylinderCrossings, s: SideCrossing) -> bool {
        &&& c.discriminant.spec_gt(Scalar::spec_zero())
        &&& s.rise.spec_ge(Scalar::spec_zero())
        &&& s.rise.spec_le(self.height)
    }

    /// A crossing of a cap's plane lies on the cap where the point is nearer
    /// to the axis than the radius.
    pub open spec fn on_cap(self, c: CapCrossing) -> bool {
        c.axis_distance.spec_lt(self.radius)
    }

    /// The hit at a crossing of a cap whose outward normal is `outward`.
    pub open spec fn cap_record(self, c: CapCrossing, outward: Vec3) -> HitRecord {
        HitRecord {
            t: c.t,
            point: c.point,
            normal: oriented(c.facing, outward),
            u: Scalar::spec_zero(),
            v: Scalar::spec_zero(),
            material: self.material,
        }
    }

    /// Up to four candidates: the two crossings of the side, then the lower
    /// cap, then the upper cap.
    pub open spec fn candidates(self, c: CylinderCrossings) -> Seq<HitRecord> {
        offered(self.on_side(c, c.side_near), c.side_near.at.spec_record(self.material)) + offered(
            self.on_side(c, c.side_far),
            c.side_far.at.spec_record(self.material),
        ) + offered(self.on_cap(c.base), self.cap_record(c.base, Vec3::spec_unit_y().negated()))
            + offered(self.on_cap(c.top), self.cap_record(c.top, Vec3::spec_unit_y()))
    }

    pub fn new(center: Vec3, radius: Scalar, height: Scalar, material: Material) -> (c: Cylinder)
        ensures
            c == (Cylinder { center, radius, height, material }),
    {
        Cylinder { center, radius, height, material }
    }

    fn side_valid(&self, c: &CylinderCrossings, s: &SideCrossing) -> (r: bool)
        ensures
            r == self.on_side(*c, *s),
    {
        c.discriminant.gt(Scalar::zero()) && s.rise.ge(Scalar::zero()) && s.rise.le(self.height)
    }

    fn cap_hit(&self, c: &CapCrossing, outward: Vec3) -> (r: HitRecord)
        ensures
            r == self.cap_record(*c, outward),
    {
        let mut r = HitRecord {
            t: c.t,
            point: c.point,
            normal: outward,
            u: Scalar::zero(),
            v: Scalar::zero(),
            material: self.material,
        };
        r.set_face_normal(c.facing, &outward);
        r
    }

    /// The nearest place inside the interval where the ray crosses the side
    /// or a cap.
    pub fn hit(&self, c: &CylinderCrossings, t_min: Scalar, t_max: Scalar) -> (r: Option<HitRecord>)
        ensures
            r == nearest(self.candidates(*c), t_min, t_max),
            r is Some <==> any_inside(self.candidates(*c), t_min, t_max),
            r matches Some(h) ==> spec_inside(h.t, t_min, t_max),
    {
        proof {
            lemma_nearest_is_least(self.candidates(*c), t_min, t_max);
        }
        let ghost mut seen = Seq::<HitRecord>::empty();
        let mut best: Option<HitRecord> = None;
        proof {
            lemma_nearest_empty(t_min, t_max);
        }
        if self.side_valid(c, &c.side_near) {
            let h = c.side_near.at.record(self.material);
            best = take_closer(best, h, t_min, t_max);
            proof {
                lemma_nearest_push(seen, h, t_min, t_max);
                seen = seen.push(h);
            }
        }
        if self.side_valid(c, &c.side_far) {
            let h = c.side_far.at.record(self.material);
            best = take_closer(best, h, t_min, t_max);
            proof {
                lemma_nearest_push(seen, h, t_min, t_max);
                seen = seen.push(h);
            }
        }
        if c.base.axis_distance.lt(self.radius) {
            let h = self.cap_hit(&c.base, core::ops::Neg::neg(Vec3::unit_y()));
            best = take_closer(best, h, t_min, t_max);
            proof {
                lemma_nearest_push(seen, h, t_min, t_max);
                seen = seen.push(h);
            }
        }
        if c.top.axis_distance.lt(self.radius) {
            let h = self.cap_hit(&c.top, Vec3::unit_y());
            best = take_closer(best, h, t_min, t_max);
            proof {
                lemma_nearest_push(seen, h, t_min, t_max);
                seen = seen.push(h);
            }
        }
        proof {
            assert(seen =~= self.candidates(*c));
        }
        best
    }
}

} // verus!
