//! The record of a ray meeting a surface.
use vstd::prelude::*;
use crate::color::grey;
use crate::fixed::SCALE;
use crate::material::{Lambertian, Material};
use crate::ray::Ray;
use crate::vector::{dot_raw, v_neg, Vec3};

verus! {

#[derive(Clone, Copy, Debug, PartialEq, Eq, Structural)]
pub struct HitRecord {
    pub point: Vec3,
    /// Unit normal, turned against the incoming ray.
    pub normal: Vec3,
    pub t: i64,
    pub material: Material,
    /// Whether the ray meets the surface from outside.
    pub front_face: bool,
}

/// The ray meets the surface from outside: it runs against the outward normal.
pub open spec fn faces_front(direction: Vec3, outward: Vec3) -> bool {
    dot_raw(direction, outward) < 0
}

/// The outward normal when the ray comes from outside, its negation otherwise.
pub open spec fn facing_normal(direction: Vec3, outward: Vec3) -> Vec3 {
    if faces_front(direction, outward) {
        outward
    } else {
        v_neg(outward)
    }
}

impl Default for HitRecord {
    /// An empty record: at the origin, with a mid-grey matte material.
    fn default() -> (r: HitRecord)
        ensures
            r.point == (Vec3 { x: 0, y: 0, z: 0 }),
            r.normal == (Vec3 { x: 0, y: 0, z: 0 }),
            r.t == 0,
            r.material == Material::Lambertian(Lambertian { albedo: grey(SCALE / 2) }),
            !r.front_face,
            r.wf(),
    {
        HitRecord {
            point: Vec3 { x: 0, y: 0, z: 0 },
            normal: Vec3 { x: 0, y: 0, z: 0 },
            t: 0,
            material: Material::Lambertian(Lambertian::default_material()),
            front_face: false,
        }
    }
}

impl HitRecord {
    pub open spec fn wf(&self) -> bool {
        self.point.wf() && self.normal.wf() && self.material.wf()
    }

    pub fn new(point: Vec3, normal: Vec3, t: i64, material: Material, front_face: bool) -> (r: HitRecord)
        ensures
            r == (HitRecord { point, normal, t, material, front_face }),
    {
        HitRecord { point, normal, t, material, front_face }
    }

    /// Orients the normal against the ray and records which side was hit.
    #[allow(non_snake_case)]
    pub fn SetFaceNormal(&mut self, ray: &Ray, outward_normal: Vec3)
        requires
            ray.wf(),
            outward_normal.wf(),
        ensures
            final(self).front_face == faces_front(ray.direction, outward_normal),
            final(self).normal == facing_normal(ray.direction, outward_normal),
            final(self).point == old(self).point,
            final(self).t == old(self).t,
            final(self).material == old(self).material,
    {
        self.front_face = ray.direction.dot_wide(&outward_normal) < 0;
        if self.front_face {
            self.normal = outward_normal;
        } else {
            self.normal = outward_normal.neg();
        }
    }
}

} // verus!
