//! Spheres and the ray–sphere intersection test.
use vstd::prelude::*;
use crate::fixed::{bounded, floor_div_wide, int_sqrt, isqrt, lemma_root_exists, LIMIT, SCALE};
use crate::hit::{faces_front, facing_normal, HitRecord};
use crate::color::grey;
use crate::material::{Lambertian, Material};
use crate::ray::{ray_at, Ray};
use crate::vector::{dot_raw, lemma_products, v_div, v_sub, Vec3};
use vstd::arithmetic::div_mod::lemma_div_is_ordered;

verus! {

#[derive(Clone, Copy, Debug, PartialEq, Eq, Structural)]
pub struct Sphere {
    pub radius: i64,
    pub center: Vec3,
    pub material: Material,
}

impl Sphere {
    pub open spec fn wf(&self) -> bool {
        0 < self.radius <= LIMIT && self.center.wf() && self.material.wf()
    }
}

/// The coefficients `(a, half_b, c)` of `a t^2 + 2 half_b t + c = 0`, whose
/// roots are where the ray meets the sphere.
pub open spec fn quadratic(s: Sphere, ray: Ray) -> (int, int, int) {
    let oc = v_sub(ray.origin, s.center);
    (
        dot_raw(ray.direction, ray.direction),
        dot_raw(oc, ray.direction),
        dot_raw(oc, oc) - s.radius * s.radius,
    )
}

pub open spec fn discriminant(s: Sphere, ray: Ray) -> int {
    let (a, half_b, c) = quadratic(s, ray);
    half_b * half_b - a * c
}

/// The nearer root, as a fixed-point parameter rounded down.
pub open spec fn near_root(s: Sphere, ray: Ray) -> int {
    let (a, half_b, c) = quadratic(s, ray);
    (-half_b - int_sqrt(discriminant(s, ray))) * SCALE / a
}

/// The farther root, as a fixed-point parameter rounded down.
pub open spec fn far_root(s: Sphere, ray: Ray) -> int {
    let (a, half_b, c) = quadratic(s, ray);
    (-half_b + int_sqrt(discriminant(s, ray))) * SCALE / a
}

/// The parameter of the hit: the nearer root if it lies in `[t_min, t_max]`,
/// else the farther one if it does; none for a ray that misses or a zero direction.
pub open spec fn hit_param(s: Sphere, ray: Ray, t_min: int, t_max: int) -> Option<int> {
    if quadratic(s, ray).0 == 0 || discriminant(s, ray) < 0 {
        None
    } else if t_min <= near_root(s, ray) <= t_max {
        Some(near_root(s, ray))
    } else if t_min <= far_root(s, ray) <= t_max {
        Some(far_root(s, ray))
    } else {
        None
    }
}

/// The record of the hit at parameter `t`.
pub open spec fn record_at(s: Sphere, ray: Ray, t: int) -> HitRecord {
    let point = ray_at(ray, t);
    let outward = v_div(v_sub(point, s.center), s.radius as int);
    HitRecord {
        point,
        normal: facing_normal(ray.direction, outward),
        t: t as i64,
        material: s.material,
        front_face: faces_front(ray.direction, outward),
    }
}

pub open spec fn sphere_hit(s: Sphere, ray: Ray, t_min: int, t_max: int) -> Option<HitRecord> {
    match hit_param(s, ray, t_min, t_max) {
        Some(t) => Some(record_at(s, ray, t)),
        None => None,
    }
}

/// Lowering the upper bound keeps a hit that lies below the new bound and
/// drops any other.
pub proof fn lemma_hit_lower_bound(s: Sphere, ray: Ray, t_min: int, t_max: int, bound: int)
    requires
        bounded(t_min),
        bounded(t_max),
        bound <= t_max,
    ensures
        match sphere_hit(s, ray, t_min, t_max) {
            Some(h) => if h.t <= bound {
                sphere_hit(s, ray, t_min, bound) == Some(h)
            } else {
                sphere_hit(s, ray, t_min, bound) is None
            },
            None => sphere_hit(s, ray, t_min, bound) is None,
        },
        sphere_hit(s, ray, t_min, t_max) is Some ==> t_min <= sphere_hit(s, ray, t_min, t_max)->Some_0.t
            <= t_max,
{
    let (a, half_b, c) = quadratic(s, ray);
    let d = ray.direction;
    assert(a >= 0) by (nonlinear_arith)
        requires
            a == d.x * d.x + d.y * d.y + d.z * d.z,
    ;
    if a != 0 && discriminant(s, ray) >= 0 {
        let sq = int_sqrt(discriminant(s, ray));
        lemma_root_exists(discriminant(s, ray));
        if a > 0 {
            assert((-half_b - sq) * SCALE <= (-half_b + sq) * SCALE) by (nonlinear_arith)
                requires
                    sq >= 0,
            ;
            lemma_div_is_ordered((-half_b - sq) * SCALE, (-half_b + sq) * SCALE, a);
        }
    }
}

impl Default for Sphere {
    /// The unit sphere at the origin, mid-grey and matte.
    fn default() -> (r: Sphere)
        ensures
            r.radius == SCALE,
            r.center == (Vec3 { x: 0, y: 0, z: 0 }),
            r.material == Material::Lambertian(Lambertian { albedo: grey(SCALE / 2) }),
            r.wf(),
    {
        Sphere {
            radius: SCALE,
            center: Vec3 { x: 0, y: 0, z: 0 },
            material: Material::Lambertian(Lambertian::default_material()),
        }
    }
}

impl Sphere {
    /// A sphere; a radius that is not positive, or that does not fit the
    /// scalar range, is refused.
    pub fn new(r: i64, position: Vec3, mat: Material) -> (res: Option<Sphere>)
        requires
            position.wf(),
            mat.wf(),
        ensures
            res is Some <==> 0 < r <= LIMIT,
            res is Some ==> res->Some_0 == (Sphere { radius: r, center: position, material: mat }),
            res is Some ==> res->Some_0.wf(),
    {
        if 0 < r && r <= LIMIT {
            Some(Sphere { radius: r, center: position, material: mat })
        } else {
            None
        }
    }

    #[allow(non_snake_case)]
    pub fn getRadius(&self) -> (r: i64)
        ensures
            r == self.radius,
    {
        self.radius
    }

    #[allow(non_snake_case)]
    pub fn setRadius(&mut self, radius: i64)
        requires
            0 < radius <= LIMIT,
        ensures
            *final(self) == (Sphere { radius, ..*old(self) }),
    {
        self.radius = radius;
    }

    /// Where the ray meets the sphere within `[t_min, t_max]`, if it does:
    /// on a hit the record is overwritten whole, on a miss it is left as it was.
    #[allow(non_snake_case)]
    pub fn testIntersection(&self, ray: &Ray, t_min: i64, t_max: i64, rec: &mut HitRecord) -> (r: bool)
        requires
            self.wf(),
            ray.wf(),
            bounded(t_min as int),
            bounded(t_max as int),
        ensures
            r == sphere_hit(*self, *ray, t_min as int, t_max as int) is Some,
            r ==> *final(rec) == sphere_hit(*self, *ray, t_min as int, t_max as int)->Some_0,
            !r ==> *final(rec) == *old(rec),
    {
        match self.hit(ray, t_min, t_max) {
            Some(h) => {
                *rec = h;
                true
            },
            None => false,
        }
    }

    /// The intersection test, giving the record of the hit.
    pub fn hit(&self, ray: &Ray, t_min: i64, t_max: i64) -> (res: Option<HitRecord>)
        requires
            self.wf(),
            ray.wf(),
            bounded(t_min as int),
            bounded(t_max as int),
        ensures
            res == sphere_hit(*self, *ray, t_min as int, t_max as int),
            res is Some ==> res->Some_0.wf(),
    {
        let oc: Vec3 = ray.origin.sub(&self.center);
        let a: i64 = ray.direction.dot_wide(&ray.direction);
        let half_b: i64 = oc.dot_wide(&ray.direction);
        let oc2: i64 = oc.dot_wide(&oc);
        proof {
            lemma_products(self.radius as int, self.radius as int, 0, 0);
            assert(a >= 0) by (nonlinear_arith)
                requires
                    a == ray.direction.x * ray.direction.x + ray.direction.y * ray.direction.y
                        + ray.direction.z * ray.direction.z,
            ;
            assert(oc2 >= 0) by (nonlinear_arith)
                requires
                    oc2 == oc.x * oc.x + oc.y * oc.y + oc.z * oc.z,
            ;
        }
        let c: i64 = oc2 - self.radius * self.radius;
        if a == 0 {
            return None;
        }
        proof {
            assert(half_b * half_b <= 0x9000000000000000000000000000000) by (nonlinear_arith)
                requires
                    -0x3000000000000000 <= half_b <= 0x3000000000000000,
            ;
            assert(-0x3000000000000000000000000000000 <= a * c <= 0x9000000000000000000000000000000)
                by (nonlinear_arith)
                requires
                    0 <= a <= 0x3000000000000000,
                    -0x1000000000000000 <= c <= 0x3000000000000000,
            ;
            assert(half_b * half_b >= 0) by (nonlinear_arith);
        }
        let disc: i128 = (half_b as i128) * (half_b as i128) - (a as i128) * (c as i128);
        if disc < 0 {
            return None;
        }
        let sq: u128 = isqrt(disc as u128);
        proof {
            assert(sq <= 0x4000000000000000) by (nonlinear_arith)
                requires
                    sq * sq <= disc,
                    disc <= 0xC000000000000000000000000000000,
                    sq >= 0,
            ;
        }
        let sqi: i128 = sq as i128;
        assert(-0x8000000000000000 <= -half_b - sqi <= 0x8000000000000000);
        assert(-0x8000000000000000 <= -half_b + sqi <= 0x8000000000000000);
        let near: i128 = floor_div_wide((-(half_b as i128) - sqi) * (SCALE as i128), a as i128);
        let t: i64;
        if t_min as i128 <= near && near <= t_max as i128 {
            t = near as i64;
        } else {
            let far: i128 = floor_div_wide((-(half_b as i128) + sqi) * (SCALE as i128), a as i128);
            if t_min as i128 <= far && far <= t_max as i128 {
                t = far as i64;
            } else {
                return None;
            }
        }
        let point: Vec3 = ray.at(t);
        let outward: Vec3 = point.sub(&self.center).div(self.radius);
        let mut rec: HitRecord = HitRecord {
            point,
            normal: outward,
            t,
            material: self.material,
            front_face: false,
        };
        rec.SetFaceNormal(ray, outward);
        Some(rec)
    }
}

} // verus!
