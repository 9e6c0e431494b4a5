//! RGBA colors whose channels are fixed-point values in `[0, 1]`.
use vstd::prelude::*;
use crate::fixed::{fmul, fx_mul, SCALE};
use crate::vector::Vec3;

verus! {

#[derive(Clone, Copy, Debug, PartialEq, Eq, Structural)]
pub struct VColor {
    pub r: i64,
    pub g: i64,
    pub b: i64,
    pub a: i64,
}

pub open spec fn unit_channel(c: int) -> bool {
    0 <= c <= SCALE
}

/// A channel value clamped into `[0, 1]`.
pub open spec fn clamp_unit(c: int) -> int {
    if c < 0 {
        0
    } else if c > SCALE {
        SCALE as int
    } else {
        c
    }
}

pub open spec fn rgba(r: int, g: int, b: int, a: int) -> VColor {
    VColor { r: r as i64, g: g as i64, b: b as i64, a: a as i64 }
}

pub open spec fn c_mul(p: VColor, q: VColor) -> VColor {
    rgba(fx_mul(p.r as int, q.r as int), fx_mul(p.g as int, q.g as int), fx_mul(p.b as int, q.b as int), fx_mul(p.a as int, q.a as int))
}

pub open spec fn c_scale(p: VColor, k: int) -> VColor {
    rgba(fx_mul(p.r as int, k), fx_mul(p.g as int, k), fx_mul(p.b as int, k), fx_mul(p.a as int, k))
}

pub open spec fn c_add(p: VColor, q: VColor) -> VColor {
    rgba(clamp_unit(p.r + q.r), clamp_unit(p.g + q.g), clamp_unit(p.b + q.b), clamp_unit(p.a + q.a))
}

/// An 8-bit channel: the value times 255, rounded down.
pub open spec fn to_byte(c: int) -> int {
    c * 255 / SCALE as int
}

pub open spec fn grey(s: int) -> VColor {
    rgba(clamp_unit(s), clamp_unit(s), clamp_unit(s), SCALE as int)
}

pub open spec fn black() -> VColor {
    rgba(0, 0, 0, SCALE as int)
}

fn clamp_channel(c: i64) -> (r: i64)
    ensures
        r == clamp_unit(c as int),
{
    if c < 0 {
        0
    } else if c > SCALE {
        SCALE
    } else {
        c
    }
}

fn channel_mul(p: i64, q: i64) -> (r: i64)
    requires
        unit_channel(p as int),
        unit_channel(q as int),
    ensures
        r == fx_mul(p as int, q as int),
        unit_channel(r as int),
{
    proof {
        assert(0 <= p * q <= SCALE * SCALE) by (nonlinear_arith)
            requires
                unit_channel(p as int),
                unit_channel(q as int),
        ;
        assert((p * q) / (SCALE as int) <= SCALE) by (nonlinear_arith)
            requires
                0 <= p * q <= SCALE * SCALE,
        ;
    }
    fmul(p, q)
}

impl Default for VColor {
    /// Black and fully transparent.
    fn default() -> (r: VColor)
        ensures
            r == rgba(0, 0, 0, 0),
    {
        VColor { r: 0, g: 0, b: 0, a: 0 }
    }
}

impl VColor {
    /// All four channels lie in `[0, 1]`.
    pub open spec fn wf(&self) -> bool {
        unit_channel(self.r as int) && unit_channel(self.g as int) && unit_channel(self.b as int)
            && unit_channel(self.a as int)
    }

    /// A grey of the given level, fully opaque.
    pub fn new_sc(scalar: i64) -> (r: VColor)
        ensures
            r == grey(scalar as int),
            r.wf(),
    {
        let c: i64 = clamp_channel(scalar);
        VColor { r: c, g: c, b: c, a: SCALE }
    }

    pub fn new_rgb(r: i64, g: i64, b: i64) -> (res: VColor)
        ensures
            res == rgba(clamp_unit(r as int), clamp_unit(g as int), clamp_unit(b as int), SCALE as int),
            res.wf(),
    {
        VColor { r: clamp_channel(r), g: clamp_channel(g), b: clamp_channel(b), a: SCALE }
    }

    pub fn new_rgba(r: i64, g: i64, b: i64, a: i64) -> (res: VColor)
        ensures
            res == rgba(clamp_unit(r as int), clamp_unit(g as int), clamp_unit(b as int), clamp_unit(a as int)),
            res.wf(),
    {
        VColor { r: clamp_channel(r), g: clamp_channel(g), b: clamp_channel(b), a: clamp_channel(a) }
    }

    /// The red, green and blue channels as a vector.
    #[allow(non_snake_case)]
    pub fn getColorRGB(&self) -> (res: Vec3)
        ensures
            res == (Vec3 { x: self.r, y: self.g, z: self.b }),
    {
        Vec3 { x: self.r, y: self.g, z: self.b }
    }

    /// Channel-wise product.
    pub fn mul(&self, o: &VColor) -> (res: VColor)
        requires
            self.wf(),
            o.wf(),
        ensures
            res == c_mul(*self, *o),
            res.wf(),
    {
        VColor {
            r: channel_mul(self.r, o.r),
            g: channel_mul(self.g, o.g),
            b: channel_mul(self.b, o.b),
            a: channel_mul(self.a, o.a),
        }
    }

    /// Every channel times a factor in `[0, 1]`.
    pub fn scale(&self, k: i64) -> (res: VColor)
        requires
            self.wf(),
            unit_channel(k as int),
        ensures
            res == c_scale(*self, k as int),
            res.wf(),
    {
        VColor {
            r: channel_mul(self.r, k),
            g: channel_mul(self.g, k),
            b: channel_mul(self.b, k),
            a: channel_mul(self.a, k),
        }
    }

    /// Channel-wise sum, saturated at 1.
    pub fn add(&self, o: &VColor) -> (res: VColor)
        requires
            self.wf(),
            o.wf(),
        ensures
            res == c_add(*self, *o),
            res.wf(),
    {
        VColor {
            r: clamp_channel(self.r + o.r),
            g: clamp_channel(self.g + o.g),
            b: clamp_channel(self.b + o.b),
            a: clamp_channel(self.a + o.a),
        }
    }

    /// The color as 8-bit RGBA channels.
    pub fn to_rgba8(&self) -> (res: (u8, u8, u8, u8))
        requires
            self.wf(),
        ensures
            res.0 == to_byte(self.r as int),
            res.1 == to_byte(self.g as int),
            res.2 == to_byte(self.b as int),
            res.3 == to_byte(self.a as int),
    {
        (channel_byte(self.r), channel_byte(self.g), channel_byte(self.b), channel_byte(self.a))
    }
}

fn channel_byte(c: i64) -> (r: u8)
    requires
        unit_channel(c as int),
    ensures
        r == to_byte(c as int),
{
    proof {
        assert(c * 255 / (SCALE as int) <= 255) by (nonlinear_arith)
            requires
                unit_channel(c as int),
        ;
        assert(c * 255 / (SCALE as int) >= 0) by (nonlinear_arith)
            requires
                unit_channel(c as int),
        ;
    }
    ((c * 255) / SCALE) as u8
}

/// Whether every channel is smaller in magnitude than the tolerance
/// (one raw unit when none is given).
#[allow(non_snake_case)]
pub fn isNearlyZero_Vec4(c: &VColor, tolerance: Option<i64>) -> (r: bool)
    ensures
        ({
            let tol = if tolerance.is_some() { tolerance.unwrap() as int } else { 1 };
            r == (-tol < c.r < tol && -tol < c.g < tol && -tol < c.b < tol && -tol < c.a < tol)
        }),
{
    let tol: i64 = match tolerance {
        Some(t) => t,
        None => 1,
    };
    (c.r < tol && c.r > -tol) && (c.g < tol && c.g > -tol) && (c.b < tol && c.b > -tol) && (c.a
        < tol && c.a > -tol)
}

} // verus!
