//! Boxes with their edges along the axes.

use vstd::prelude::*;
use crate::material::Material;
use crate::rect::{XYRect, XZRect, YZRect};
use crate::hit::{members_candidates, spec_inside, Crossings, HitRecord, Hittable, HittableList};
use crate::nearest::{any_inside, nearest};
use crate::scalar::Scalar;
use crate::vec3::Vec3;

verus! {

/// The box between two opposite corners: six rectangles that close a volume.
#[derive(Debug)]
pub struct Cube {
    pub minimum: Vec3,
    pub maximum: Vec3,
    pub sides: HittableList,
}

/// The six faces of the box between `low` and `high`, two for each axis: first
/// the one through `high`, then the one through `low`.
pub open spec fn faces(low: Vec3, high: Vec3, mat: Material) -> Seq<Hittable> {
    seq![
        Hittable::XYRect(XYRect { x0: low.0, x1: high.0, y0: low.1, y1: high.1, k: high.2, mat }),
        Hittable::XYRect(XYRect { x0: low.0, x1: high.0, y0: low.1, y1: high.1, k: low.2, mat }),
        Hittable::XZRect(XZRect { x0: low.0, x1: high.0, z0: low.2, z1: high.2, k: high.1, mat }),
        Hittable::XZRect(XZRect { x0: low.0, x1: high.0, z0: low.2, z1: high.2, k: low.1, mat }),
        Hittable::YZRect(YZRect { y0: low.1, y1: high.1, z0: low.2, z1: high.2, k: high.0, mat }),
        Hittable::YZRect(YZRect { y0: low.1, y1: high.1, z0: low.2, z1: high.2, k: low.0, mat }),
    ]
}

impl Cube {
    pub fn new(low: Vec3, high: Vec3, mat: Material) -> (c: Cube)
        ensures
            c.minimum == low,
            c.maximum == high,
            c.sides@ == faces(low, high, mat),
    {
        let mut list: Vec<Hittable> = Vec::new();
        list.push(Hittable::XYRect(XYRect::new(low.x(), high.x(), low.y(), high.y(), high.z(), mat)));
        list.push(Hittable::XYRect(XYRect::new(low.x(), high.x(), low.y(), high.y(), low.z(), mat)));
        list.push(Hittable::XZRect(XZRect::new(low.x(), high.x(), low.z(), high.z(), high.y(), mat)));
        list.push(Hittable::XZRect(XZRect::new(low.x(), high.x(), low.z(), high.z(), low.y(), mat)));
        list.push(Hittable::YZRect(YZRect::new(low.y(), high.y(), low.z(), high.z(), high.x(), mat)));
        list.push(Hittable::YZRect(YZRect::new(low.y(), high.y(), low.z(), high.z(), low.x(), mat)));
        proof {
            assert(list@ =~= faces(low, high, mat));
        }
        let sides = HittableList::new(list);
        Cube { minimum: low, maximum: high, sides }
    }

    /// The nearest hit inside the interval among the sides, found as a list
    /// finds it.
    pub fn hit(&self, c: &Vec<Crossings>, t_min: Scalar, t_max: Scalar) -> (r: Option<HitRecord>)
        ensures
            r == nearest(members_candidates(self.sides@, c@), t_min, t_max),
            r is Some <==> any_inside(members_candidates(self.sides@, c@), t_min, t_max),
            r matches Some(h) ==> spec_inside(h.t, t_min, t_max),
    {
        self.sides.hit(c, t_min, t_max)
    }
}

} // verus!
