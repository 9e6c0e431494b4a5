//! Rays: an origin and a direction.
use vstd::prelude::*;
use crate::fixed::bounded;
use crate::vector::{v_add, v_scale, Vec3};

verus! {

#[derive(Clone, Copy, Debug, PartialEq, Eq, Structural)]
pub struct Ray {
    pub origin: Vec3,
    pub direction: Vec3,
}

/// The point `origin + t * direction`.
pub open spec fn ray_at(r: Ray, t: int) -> Vec3 {
    v_add(r.origin, v_scale(r.direction, t))
}

impl Default for Ray {
    fn default() -> (r: Ray)
        ensures
            r == (Ray { origin: Vec3 { x: 0, y: 0, z: 0 }, direction: Vec3 { x: 0, y: 0, z: 0 } }),
    {
        Ray { origin: Vec3 { x: 0, y: 0, z: 0 }, direction: Vec3 { x: 0, y: 0, z: 0 } }
    }
}

impl Ray {
    pub open spec fn wf(&self) -> bool {
        self.origin.wf() && self.direction.wf()
    }

    pub fn new(orig: Vec3, dir: Vec3) -> (r: Ray)
        ensures
            r == (Ray { origin: orig, direction: dir }),
    {
        Ray { origin: orig, direction: dir }
    }

    pub fn at(&self, t: i64) -> (r: Vec3)
        requires
            self.wf(),
            bounded(t as int),
        ensures
            r == ray_at(*self, t as int),
            r.wf(),
    {
        self.origin.add(&self.direction.scale(t))
    }
}

} // verus!
