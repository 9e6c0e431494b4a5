//! Surface materials and how each scatters light.
use vstd::prelude::*;
use vstd::arithmetic::div_mod::lemma_div_is_ordered;
use rand::rngs::StdRng;
use crate::color::{clamp_unit, grey, VColor};
use crate::fixed::{
    bounded, fadd, fdiv, fmin, fmul, fsqrt, fsub, fx_add, fx_div, fx_min, fx_mul, fx_sqrt, fx_sub,
    LIMIT, SCALE,
};
use crate::hit::HitRecord;
use crate::random::{in_unit_ball, randomInUnitSphere, random_fraction};
use crate::ray::Ray;
use crate::vector::{
    dot_raw, isNearlyZero_Vec3, mk, near_zero, reflect, refract, v_add, v_normalize, v_reflect,
    v_refract, v_scale, Vec3,
};

verus! {

/// A matte surface that scatters light in random directions.
#[derive(Clone, Copy, Debug, PartialEq, Eq, Structural)]
pub struct Lambertian {
    pub albedo: VColor,
}

/// A mirror-like surface; `fuzz` roughens the reflection.
#[derive(Clone, Copy, Debug, PartialEq, Eq, Structural)]
pub struct Metal {
    pub albedo: VColor,
    pub fuzz: i64,
}

/// A clear surface that refracts or reflects.
#[derive(Clone, Copy, Debug, PartialEq, Eq, Structural)]
pub struct Dielectric {
    pub index_of_refraction: i64,
}

#[derive(Clone, Copy, Debug, PartialEq, Eq, Structural)]
pub enum Material {
    Lambertian(Lambertian),
    Metal(Metal),
    Dielectric(Dielectric),
}

impl Material {
    pub open spec fn wf(&self) -> bool {
        match *self {
            Material::Lambertian(l) => l.albedo.wf(),
            Material::Metal(m) => m.albedo.wf() && 0 <= m.fuzz <= SCALE,
            Material::Dielectric(d) => 0 < d.index_of_refraction <= LIMIT,
        }
    }
}

/// Diffuse scattering toward `normal + u`, or along the normal when that sum
/// is nearly zero.
pub open spec fn lambertian_dir(normal: Vec3, u: Vec3) -> Vec3 {
    if near_zero(v_add(normal, u), 1) {
        normal
    } else {
        v_add(normal, u)
    }
}

/// The mirror reflection of the unit incoming direction, perturbed by `fuzz * p`.
pub open spec fn metal_dir(m: Metal, ray: Ray, normal: Vec3, p: Vec3) -> Vec3 {
    v_add(v_reflect(v_normalize(ray.direction), normal), v_scale(p, m.fuzz as int))
}

/// `1 / ior` entering the surface, `ior` leaving it.
pub open spec fn refraction_ratio(d: Dielectric, front_face: bool) -> int {
    if front_face {
        fx_div(SCALE as int, d.index_of_refraction as int)
    } else {
        d.index_of_refraction as int
    }
}

pub open spec fn cos_theta(unit: Vec3, normal: Vec3) -> int {
    fx_min(v_dot_neg(unit, normal), SCALE as int)
}

pub open spec fn v_dot_neg(unit: Vec3, normal: Vec3) -> int {
    crate::vector::v_dot(crate::vector::v_neg(unit), normal)
}

pub open spec fn sin_theta(cos: int) -> int {
    let rest = fx_sub(SCALE as int, fx_mul(cos, cos));
    fx_sqrt(if rest < 0 { 0 } else { rest })
}

pub open spec fn pow5(x: int) -> int {
    let x2 = fx_mul(x, x);
    fx_mul(fx_mul(x2, x2), x)
}

/// `r0 = ((1 - idx) / (1 + idx))^2`, the reflectance at normal incidence.
pub open spec fn schlick_r0(ref_idx: int) -> int {
    let q = fx_div(fx_sub(SCALE as int, ref_idx), fx_add(SCALE as int, ref_idx));
    fx_mul(q, q)
}

/// Schlick's approximation `r0 + (1 - r0) (1 - cos)^5`.
pub open spec fn reflectance_spec(cos: int, ref_idx: int) -> int {
    let r0 = schlick_r0(ref_idx);
    fx_add(r0, fx_mul(fx_sub(SCALE as int, r0), pow5(fx_sub(SCALE as int, cos))))
}

/// Reflect when refraction is impossible or when the draw falls below the
/// reflectance; refract otherwise.
pub open spec fn dielectric_dir(d: Dielectric, ray: Ray, rec: HitRecord, draw: int) -> Vec3 {
    let ratio = refraction_ratio(d, rec.front_face);
    let unit = v_normalize(ray.direction);
    let cos = cos_theta(unit, rec.normal);
    let sin = sin_theta(cos);
    if fx_mul(ratio, sin) > SCALE || reflectance_spec(cos, ratio) > draw {
        v_reflect(unit, rec.normal)
    } else {
        v_refract(unit, rec.normal, ratio)
    }
}

pub proof fn lemma_fx_mul_monotone(a1: int, a2: int, b1: int, b2: int)
    requires
        0 <= a1 <= a2,
        0 <= b1 <= b2,
    ensures
        0 <= fx_mul(a1, b1) <= fx_mul(a2, b2),
{
    assert(0 <= a1 * b1 <= a2 * b2) by (nonlinear_arith)
        requires
            0 <= a1 <= a2,
            0 <= b1 <= b2,
    ;
    lemma_div_is_ordered(a1 * b1, a2 * b2, SCALE as int);
    lemma_div_is_ordered(0, a1 * b1, SCALE as int);
}

pub proof fn lemma_r0_unit(ref_idx: int)
    requires
        0 <= ref_idx <= LIMIT,
    ensures
        0 <= schlick_r0(ref_idx) <= SCALE,
{
    let num = fx_sub(SCALE as int, ref_idx);
    let den = fx_add(SCALE as int, ref_idx);
    let q = fx_div(num, den);
    assert(-den <= num <= den);
    if num >= 0 {
        assert(num * SCALE <= den * SCALE) by (nonlinear_arith)
            requires
                num <= den,
        ;
        lemma_div_is_ordered(num * SCALE, den * SCALE, den);
        lemma_div_is_ordered(0, num * SCALE, den);
        assert(den * SCALE / den == SCALE) by (nonlinear_arith)
            requires
                den > 0,
        ;
    } else {
        assert((-num) * SCALE <= den * SCALE) by (nonlinear_arith)
            requires
                -num <= den,
        ;
        assert(-(num * SCALE) == (-num) * SCALE) by (nonlinear_arith);
        lemma_div_is_ordered((-num) * SCALE, den * SCALE, den);
        lemma_div_is_ordered(0, (-num) * SCALE, den);
        assert(den * SCALE / den == SCALE) by (nonlinear_arith)
            requires
                den > 0,
        ;
    }
    assert(-SCALE <= q <= SCALE);
    let aq = if q < 0 { -q } else { q };
    assert(q * q == aq * aq) by (nonlinear_arith)
        requires
            aq == q || aq == -q,
    ;
    lemma_fx_mul_monotone(aq, SCALE as int, aq, SCALE as int);
    assert((SCALE as int) * (SCALE as int) / (SCALE as int) == SCALE as int) by (nonlinear_arith);
}

/// Schlick check at normal incidence: the reflectance is exactly `r0`.
pub proof fn lemma_reflectance_at_normal(ref_idx: int)
    requires
        0 <= ref_idx <= LIMIT,
    ensures
        reflectance_spec(SCALE as int, ref_idx) == schlick_r0(ref_idx),
{
    lemma_r0_unit(ref_idx);
    let r0 = schlick_r0(ref_idx);
    assert(fx_sub(SCALE as int, SCALE as int) == 0);
    assert(fx_mul(0, 0) == 0);
    assert(pow5(0) == 0);
    assert((SCALE - r0) * 0 == 0);
    assert(fx_mul(SCALE - r0, 0) == 0);
    assert(fx_add(r0, 0) == r0);
}

/// The reflectance grows (never shrinks) as `cos` falls from 1 toward 0.
pub proof fn lemma_reflectance_monotone(cos1: int, cos2: int, ref_idx: int)
    requires
        0 <= cos1 <= cos2 <= SCALE,
        0 <= ref_idx <= LIMIT,
    ensures
        reflectance_spec(cos2, ref_idx) <= reflectance_spec(cos1, ref_idx),
{
    lemma_r0_unit(ref_idx);
    let x1 = fx_sub(SCALE as int, cos1);
    let x2 = fx_sub(SCALE as int, cos2);
    assert(0 <= x2 <= x1);
    lemma_fx_mul_monotone(x2, x1, x2, x1);
    let y1 = fx_mul(x1, x1);
    let y2 = fx_mul(x2, x2);
    lemma_fx_mul_monotone(y2, y1, y2, y1);
    lemma_fx_mul_monotone(fx_mul(y2, y2), fx_mul(y1, y1), x2, x1);
    let r0 = schlick_r0(ref_idx);
    lemma_fx_mul_monotone(SCALE - r0, SCALE - r0, pow5(x2), pow5(x1));
}

/// A reflective material with no fuzz sends the ray along the exact mirror
/// reflection of its unit direction.
pub proof fn lemma_metal_without_fuzz(m: Metal, ray: Ray, normal: Vec3, p: Vec3)
    requires
        m.fuzz == 0,
        p.wf(),
    ensures
        metal_dir(m, ray, normal, p) == v_reflect(v_normalize(ray.direction), normal),
{
    let r = v_reflect(v_normalize(ray.direction), normal);
    assert(v_scale(p, 0) == mk(0, 0, 0));
    assert(bounded(r.x as int) && bounded(r.y as int) && bounded(r.z as int));
}

fn pow5_exec(x: i64) -> (r: i64)
    requires
        bounded(x as int),
    ensures
        r == pow5(x as int),
{
    let x2: i64 = fmul(x, x);
    fmul(fmul(x2, x2), x)
}

impl Lambertian {
    pub fn new(color: VColor) -> (r: Lambertian)
        ensures
            r == (Lambertian { albedo: color }),
    {
        Lambertian { albedo: color }
    }

    /// A mid-grey matte surface.
    pub fn default_material() -> (r: Lambertian)
        ensures
            r.albedo == grey(SCALE / 2),
            r.albedo.wf(),
    {
        Lambertian { albedo: VColor::new_sc(SCALE / 2) }
    }

    /// Scattering with the random unit vector `u` given: always succeeds, with
    /// the albedo as attenuation.
    pub fn scatter_toward(&self, rec: &HitRecord, u: &Vec3) -> (res: (bool, VColor, Ray))
        requires
            rec.wf(),
            u.wf(),
        ensures
            res == (true, self.albedo, Ray { origin: rec.point, direction: lambertian_dir(rec.normal, *u) }),
            res.2.wf(),
    {
        let mut dir: Vec3 = rec.normal.add(u);
        if isNearlyZero_Vec3(&dir, None) {
            dir = rec.normal;
        }
        (true, self.albedo, Ray::new(rec.point, dir))
    }
}

impl Metal {
    /// A reflective surface; the fuzz is clamped into `[0, 1]`.
    pub fn new(color: VColor, fuzziness: i64) -> (r: Metal)
        ensures
            r == (Metal { albedo: color, fuzz: clamp_unit(fuzziness as int) as i64 }),
    {
        let fuzz: i64 = if fuzziness < 0 {
            0
        } else if fuzziness > SCALE {
            SCALE
        } else {
            fuzziness
        };
        Metal { albedo: color, fuzz }
    }

    /// Scattering with the random point `p` of the unit ball given: succeeds
    /// exactly when the outgoing direction leaves on the side of the normal.
    pub fn scatter_with(&self, ray: &Ray, rec: &HitRecord, p: &Vec3) -> (res: (bool, VColor, Ray))
        requires
            0 <= self.fuzz <= SCALE,
            ray.wf(),
            rec.wf(),
            p.wf(),
        ensures
            res.0 == (dot_raw(metal_dir(*self, *ray, rec.normal, *p), rec.normal) > 0),
            res.1 == self.albedo,
            res.2 == (Ray { origin: rec.point, direction: metal_dir(*self, *ray, rec.normal, *p) }),
            res.2.wf(),
    {
        let reflected: Vec3 = reflect(&ray.direction.normalize(), &rec.normal);
        let dir: Vec3 = reflected.add(&p.scale(self.fuzz));
        let scattered: Ray = Ray::new(rec.point, dir);
        (dir.dot_wide(&rec.normal) > 0, self.albedo, scattered)
    }
}

impl Dielectric {
    pub fn new(index: i64) -> (r: Dielectric)
        ensures
            r == (Dielectric { index_of_refraction: index }),
    {
        Dielectric { index_of_refraction: index }
    }

    /// Schlick's approximation of the reflectance at incidence cosine `cos`.
    pub fn reflectance(cos: i64, ref_idx: i64) -> (r: i64)
        requires
            bounded(cos as int),
            0 <= ref_idx <= LIMIT,
        ensures
            r == reflectance_spec(cos as int, ref_idx as int),
    {
        proof {
            lemma_r0_unit(ref_idx as int);
        }
        let q: i64 = fdiv(fsub(SCALE, ref_idx), fadd(SCALE, ref_idx));
        let r0: i64 = fmul(q, q);
        fadd(r0, fmul(fsub(SCALE, r0), pow5_exec(fsub(SCALE, cos))))
    }

    /// Scattering with the uniform draw in `[0, 1)` given: always succeeds,
    /// with no absorption.
    pub fn scatter_with(&self, ray: &Ray, rec: &HitRecord, draw: i64) -> (res: (bool, VColor, Ray))
        requires
            0 < self.index_of_refraction <= LIMIT,
            ray.wf(),
            rec.wf(),
        ensures
            res == (true, grey(SCALE as int), Ray { origin: rec.point, direction: dielectric_dir(*self, *ray, *rec, draw as int) }),
            res.2.wf(),
    {
        let ratio: i64 = if rec.front_face {
            fdiv(SCALE, self.index_of_refraction)
        } else {
            self.index_of_refraction
        };
        proof {
            if rec.front_face {
                assert(ratio >= 0) by {
                    assert(SCALE * SCALE >= 0);
                }
            }
        }
        let unit: Vec3 = ray.direction.normalize();
        let cos: i64 = fmin(unit.neg().dot(&rec.normal), SCALE);
        let rest: i64 = fsub(SCALE, fmul(cos, cos));
        let sin: i64 = fsqrt(if rest < 0 {
            0
        } else {
            rest
        });
        let cannot_refract: bool = fmul(ratio, sin) > SCALE;
        let dir: Vec3 = if cannot_refract || Dielectric::reflectance(cos, ratio) > draw {
            reflect(&unit, &rec.normal)
        } else {
            refract(&unit, &rec.normal, ratio)
        };
        (true, VColor::new_sc(SCALE), Ray::new(rec.point, dir))
    }
}

/// A possible result `(scattered, attenuation, outgoing ray)` of scattering
/// `ray` at `rec` off material `m`, for some value of the material's random draw.
pub open spec fn scatter_outcome(m: Material, ray: Ray, rec: HitRecord, out: (bool, VColor, Ray)) -> bool {
    match m {
        Material::Lambertian(l) => exists|p: Vec3|
            #[trigger] in_unit_ball(p) && out == (true, l.albedo, Ray {
                origin: rec.point,
                direction: lambertian_dir(rec.normal, v_normalize(p)),
            }),
        Material::Metal(mt) => exists|p: Vec3|
            #[trigger] in_unit_ball(p) && out == (dot_raw(metal_dir(mt, ray, rec.normal, p), rec.normal) > 0, mt.albedo, Ray {
                origin: rec.point,
                direction: metal_dir(mt, ray, rec.normal, p),
            }),
        Material::Dielectric(d) => exists|draw: int|
            #[trigger] unit_draw(draw) && out == (true, grey(SCALE as int), Ray {
                origin: rec.point,
                direction: dielectric_dir(d, ray, rec, draw),
            }),
    }
}

/// A uniform draw in `[0, 1)`.
pub open spec fn unit_draw(draw: int) -> bool {
    0 <= draw < SCALE
}

impl Material {
    /// Scatters the incoming ray at the hit, drawing what randomness the
    /// material needs.
    pub fn scatter_ray(&self, ray: &Ray, rec: &HitRecord, rng: &mut StdRng) -> (res: (bool, VColor, Ray))
        requires
            self.wf(),
            ray.wf(),
            rec.wf(),
        ensures
            scatter_outcome(*self, *ray, *rec, res),
            res.1.wf(),
            res.2.wf(),
    {
        match self {
            Material::Lambertian(l) => {
                let p: Vec3 = randomInUnitSphere(rng);
                let u: Vec3 = p.normalize();
                let res = l.scatter_toward(rec, &u);
                assert(in_unit_ball(p));
                res
            },
            Material::Metal(m) => {
                let p: Vec3 = randomInUnitSphere(rng);
                let res = m.scatter_with(ray, rec, &p);
                assert(in_unit_ball(p));
                res
            },
            Material::Dielectric(d) => {
                let draw: i64 = random_fraction(rng);
                let res = d.scatter_with(ray, rec, draw);
                assert(unit_draw(draw as int));
                res
            },
        }
    }

    /// Scatters the incoming ray at the hit; on success the attenuation and
    /// the outgoing ray are written, on absorption they are left as they were.
    pub fn scatter(
        &self,
        ray: &Ray,
        rec: &HitRecord,
        attenuation: &mut VColor,
        scattered: &mut Ray,
        rng: &mut StdRng,
    ) -> (r: bool)
        requires
            self.wf(),
            ray.wf(),
            rec.wf(),
        ensures
            exists|out: (bool, VColor, Ray)|
                #[trigger] scatter_outcome(*self, *ray, *rec, out) && r == out.0 && (r ==> *final(attenuation)
                    == out.1 && *final(scattered) == out.2),
            r ==> final(scattered).wf() && final(attenuation).wf(),
            !r ==> *final(attenuation) == *old(attenuation) && *final(scattered) == *old(scattered),
    {
        let res: (bool, VColor, Ray) = self.scatter_ray(ray, rec, rng);
        if res.0 {
            *attenuation = res.1;
            *scattered = res.2;
        }
        res.0
    }
}

} // verus!
