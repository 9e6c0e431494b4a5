//! Three-component fixed-point vectors and the vector helpers of the tracer.
use vstd::prelude::*;
use crate::fixed::{
    bounded, clamp_limit, clamp_wide, fadd, fdiv, fmin, fmul, fsqrt, fsub, fx_add, fx_div, fx_min,
    fx_mul, fx_sqrt, fx_sub, int_sqrt, is_root, isqrt, lemma_root_exists, trunc_div, LIMIT, SCALE,
};
use vstd::arithmetic::div_mod::lemma_div_is_ordered;

verus! {

#[derive(Clone, Copy, Debug, PartialEq, Eq, Structural)]
pub struct Vec3 {
    pub x: i64,
    pub y: i64,
    pub z: i64,
}

impl Vec3 {
    /// Every component lies within the scalar range.
    pub open spec fn wf(&self) -> bool {
        bounded(self.x as int) && bounded(self.y as int) && bounded(self.z as int)
    }
}

pub open spec fn mk(x: int, y: int, z: int) -> Vec3 {
    Vec3 { x: x as i64, y: y as i64, z: z as i64 }
}

pub open spec fn v_add(a: Vec3, b: Vec3) -> Vec3 {
    mk(fx_add(a.x as int, b.x as int), fx_add(a.y as int, b.y as int), fx_add(a.z as int, b.z as int))
}

pub open spec fn v_sub(a: Vec3, b: Vec3) -> Vec3 {
    mk(fx_sub(a.x as int, b.x as int), fx_sub(a.y as int, b.y as int), fx_sub(a.z as int, b.z as int))
}

pub open spec fn v_scale(a: Vec3, k: int) -> Vec3 {
    mk(fx_mul(a.x as int, k), fx_mul(a.y as int, k), fx_mul(a.z as int, k))
}

pub open spec fn v_div(a: Vec3, k: int) -> Vec3 {
    mk(fx_div(a.x as int, k), fx_div(a.y as int, k), fx_div(a.z as int, k))
}

pub open spec fn v_neg(a: Vec3) -> Vec3 {
    mk(-a.x, -a.y, -a.z)
}

/// The exact dot product, at twice the scale (`SCALE * SCALE` stands for 1).
pub open spec fn dot_raw(a: Vec3, b: Vec3) -> int {
    a.x * b.x + a.y * b.y + a.z * b.z
}

pub open spec fn v_dot(a: Vec3, b: Vec3) -> int {
    clamp_limit(trunc_div(dot_raw(a, b), SCALE as int))
}

pub open spec fn v_cross(a: Vec3, b: Vec3) -> Vec3 {
    mk(
        clamp_limit(trunc_div(a.y * b.z - a.z * b.y, SCALE as int)),
        clamp_limit(trunc_div(a.z * b.x - a.x * b.z, SCALE as int)),
        clamp_limit(trunc_div(a.x * b.y - a.y * b.x, SCALE as int)),
    )
}

/// Euclidean length, rounded down and saturated.
pub open spec fn v_length(a: Vec3) -> int {
    clamp_limit(int_sqrt(dot_raw(a, a)))
}

/// The unit vector along `a`; the zero vector stays zero.
pub open spec fn v_normalize(a: Vec3) -> Vec3 {
    if v_length(a) == 0 {
        a
    } else {
        v_div(a, v_length(a))
    }
}

/// Mirror image of `v` about the plane with normal `n`: `v - 2 (v . n) n`.
pub open spec fn v_reflect(v: Vec3, n: Vec3) -> Vec3 {
    v_sub(v, v_scale(n, fx_add(v_dot(v, n), v_dot(v, n))))
}

pub open spec fn near_zero(v: Vec3, tol: int) -> bool {
    -tol < v.x < tol && -tol < v.y < tol && -tol < v.z < tol
}

/// Snell refraction of the unit vector `uv` through a surface with unit normal `n`.
pub open spec fn v_refract(uv: Vec3, n: Vec3, eta: int) -> Vec3 {
    let cos_theta = fx_min(v_dot(v_neg(uv), n), SCALE as int);
    let perp = v_scale(v_add(uv, v_scale(n, cos_theta)), eta);
    let rest = fx_sub(SCALE as int, v_dot(perp, perp));
    let abs_rest = if rest < 0 { -rest } else { rest };
    let parallel = v_scale(n, -fx_sqrt(abs_rest));
    v_add(parallel, perp)
}

pub proof fn lemma_products(a: int, b: int, c: int, d: int)
    requires
        bounded(a),
        bounded(b),
        bounded(c),
        bounded(d),
    ensures
        -0x1000000000000000 <= a * b <= 0x1000000000000000,
        -0x2000000000000000 <= a * b - c * d <= 0x2000000000000000,
{
    assert(-0x1000000000000000 <= a * b <= 0x1000000000000000) by (nonlinear_arith)
        requires
            bounded(a),
            bounded(b),
    ;
    assert(-0x1000000000000000 <= c * d <= 0x1000000000000000) by (nonlinear_arith)
        requires
            bounded(c),
            bounded(d),
    ;
}

/// A component no larger than the (saturated, rounded-down) length divides
/// by it to at most 1 in magnitude.
proof fn lemma_component_within_length(x: int, d: int, len: int)
    requires
        bounded(x),
        is_root(d, int_sqrt(d)),
        len == clamp_limit(int_sqrt(d)),
        len > 0,
    ensures
        x * x <= d ==> -SCALE <= fx_div(x, len) <= SCALE,
{
    if x * x <= d {
        let r = int_sqrt(d);
        let ax = if x < 0 { -x } else { x };
        assert(ax * ax == x * x) by (nonlinear_arith)
            requires
                ax == x || ax == -x,
        ;
        if ax > r {
            assert((r + 1) * (r + 1) <= ax * ax) by (nonlinear_arith)
                requires
                    0 <= r + 1 <= ax,
            ;
        }
        assert(ax <= len);
        assert(ax * SCALE <= len * SCALE) by (nonlinear_arith)
            requires
                0 <= ax <= len,
        ;
        lemma_div_is_ordered(ax * SCALE, len * SCALE, len);
        lemma_div_is_ordered(0, ax * SCALE, len);
        assert(len * SCALE / len == SCALE) by (nonlinear_arith)
            requires
                len > 0,
        ;
        assert(ax * SCALE == if x < 0 { -(x * SCALE) } else { x * SCALE }) by (nonlinear_arith)
            requires
                ax == if x < 0 { -x } else { x },
        ;
    }
}

impl Vec3 {
    pub fn new(x: i64, y: i64, z: i64) -> (r: Vec3)
        ensures
            r == (Vec3 { x, y, z }),
    {
        Vec3 { x, y, z }
    }

    pub fn zero() -> (r: Vec3)
        ensures
            r == mk(0, 0, 0),
            r.wf(),
    {
        Vec3 { x: 0, y: 0, z: 0 }
    }

    pub fn add(&self, b: &Vec3) -> (r: Vec3)
        requires
            self.wf(),
            b.wf(),
        ensures
            r == v_add(*self, *b),
            r.wf(),
    {
        Vec3 { x: fadd(self.x, b.x), y: fadd(self.y, b.y), z: fadd(self.z, b.z) }
    }

    pub fn sub(&self, b: &Vec3) -> (r: Vec3)
        requires
            self.wf(),
            b.wf(),
        ensures
            r == v_sub(*self, *b),
            r.wf(),
    {
        Vec3 { x: fsub(self.x, b.x), y: fsub(self.y, b.y), z: fsub(self.z, b.z) }
    }

    pub fn scale(&self, k: i64) -> (r: Vec3)
        requires
            self.wf(),
            bounded(k as int),
        ensures
            r == v_scale(*self, k as int),
            r.wf(),
    {
        Vec3 { x: fmul(self.x, k), y: fmul(self.y, k), z: fmul(self.z, k) }
    }

    pub fn div(&self, k: i64) -> (r: Vec3)
        requires
            self.wf(),
            bounded(k as int),
            k > 0,
        ensures
            r == v_div(*self, k as int),
            r.wf(),
    {
        Vec3 { x: fdiv(self.x, k), y: fdiv(self.y, k), z: fdiv(self.z, k) }
    }

    pub fn neg(&self) -> (r: Vec3)
        requires
            self.wf(),
        ensures
            r == v_neg(*self),
            r.wf(),
    {
        Vec3 { x: -self.x, y: -self.y, z: -self.z }
    }

    /// The exact dot product at twice the scale.
    pub fn dot_wide(&self, b: &Vec3) -> (r: i64)
        requires
            self.wf(),
            b.wf(),
        ensures
            r == dot_raw(*self, *b),
            -0x3000000000000000 <= r <= 0x3000000000000000,
    {
        proof {
            lemma_products(self.x as int, b.x as int, 0, 0);
            lemma_products(self.y as int, b.y as int, 0, 0);
            lemma_products(self.z as int, b.z as int, 0, 0);
        }
        self.x * b.x + self.y * b.y + self.z * b.z
    }

    pub fn dot(&self, b: &Vec3) -> (r: i64)
        requires
            self.wf(),
            b.wf(),
        ensures
            r == v_dot(*self, *b),
            bounded(r as int),
    {
        let d: i64 = self.dot_wide(b);
        clamp_wide((d / SCALE) as i128)
    }

    pub fn cross(&self, b: &Vec3) -> (r: Vec3)
        requires
            self.wf(),
            b.wf(),
        ensures
            r == v_cross(*self, *b),
            r.wf(),
    {
        proof {
            lemma_products(self.y as int, b.z as int, self.z as int, b.y as int);
            lemma_products(self.z as int, b.x as int, self.x as int, b.z as int);
            lemma_products(self.x as int, b.y as int, self.y as int, b.x as int);
        }
        let cx: i64 = self.y * b.z - self.z * b.y;
        let cy: i64 = self.z * b.x - self.x * b.z;
        let cz: i64 = self.x * b.y - self.y * b.x;
        Vec3 {
            x: clamp_wide((cx / SCALE) as i128),
            y: clamp_wide((cy / SCALE) as i128),
            z: clamp_wide((cz / SCALE) as i128),
        }
    }

    pub fn length(&self) -> (r: i64)
        requires
            self.wf(),
        ensures
            r == v_length(*self),
            0 <= r <= LIMIT,
    {
        let d: i64 = self.dot_wide(self);
        proof {
            assert(d >= 0) by (nonlinear_arith)
                requires
                    d == self.x * self.x + self.y * self.y + self.z * self.z,
            ;
        }
        let s: u128 = isqrt(d as u128);
        proof {
            assert(s <= 0x80000000) by (nonlinear_arith)
                requires
                    s * s <= d,
                    d <= 0x3000000000000000,
                    s >= 0,
            ;
        }
        clamp_wide(s as i128)
    }

    pub fn normalize(&self) -> (r: Vec3)
        requires
            self.wf(),
        ensures
            r == v_normalize(*self),
            r.wf(),
            v_length(*self) > 0 ==> -SCALE <= r.x <= SCALE && -SCALE <= r.y <= SCALE && -SCALE <= r.z <= SCALE,
    {
        let len: i64 = self.length();
        if len == 0 {
            *self
        } else {
            proof {
                let d = dot_raw(*self, *self);
                assert(d >= 0) by (nonlinear_arith)
                    requires
                        d == self.x * self.x + self.y * self.y + self.z * self.z,
                ;
                lemma_root_exists(d);
                lemma_component_within_length(self.x as int, d, len as int);
                lemma_component_within_length(self.y as int, d, len as int);
                lemma_component_within_length(self.z as int, d, len as int);
                assert(self.x * self.x <= d && self.y * self.y <= d && self.z * self.z <= d) by (nonlinear_arith)
                    requires
                        d == self.x * self.x + self.y * self.y + self.z * self.z,
                ;
            }
            self.div(len)
        }
    }
}

/// Mirror reflection of `v` about the normal `n`.
pub fn reflect(v: &Vec3, n: &Vec3) -> (r: Vec3)
    requires
        v.wf(),
        n.wf(),
    ensures
        r == v_reflect(*v, *n),
        r.wf(),
{
    let d: i64 = v.dot(n);
    v.sub(&n.scale(fadd(d, d)))
}

#[allow(non_snake_case)]
pub fn vectorLengthSquared(v: &Vec3) -> (r: i64)
    requires
        v.wf(),
    ensures
        r == v_dot(*v, *v),
{
    v.dot(v)
}

/// Whether every component is smaller in magnitude than the tolerance
/// (one raw unit when none is given).
#[allow(non_snake_case)]
pub fn isNearlyZero_Vec3(v: &Vec3, tolerance: Option<i64>) -> (r: bool)
    requires
        tolerance.is_some() ==> tolerance.unwrap() >= 0,
    ensures
        r == near_zero(*v, if tolerance.is_some() { tolerance.unwrap() as int } else { 1 }),
{
    let tol: i64 = match tolerance {
        Some(t) => t,
        None => 1,
    };
    (v.x < tol && v.x > -tol) && (v.y < tol && v.y > -tol) && (v.z < tol && v.z > -tol)
}

/// Refraction by Snell's law; the caller rules out total internal reflection first.
pub fn refract(uv: &Vec3, n: &Vec3, eta: i64) -> (r: Vec3)
    requires
        uv.wf(),
        n.wf(),
        bounded(eta as int),
    ensures
        r == v_refract(*uv, *n, eta as int),
        r.wf(),
{
    let cos_theta: i64 = fmin(uv.neg().dot(n), SCALE);
    let perp: Vec3 = uv.add(&n.scale(cos_theta)).scale(eta);
    let rest: i64 = fsub(SCALE, perp.dot(&perp));
    let abs_rest: i64 = if rest < 0 {
        -rest
    } else {
        rest
    };
    let parallel: Vec3 = n.scale(-fsqrt(abs_rest));
    parallel.add(&perp)
}

} // verus!
