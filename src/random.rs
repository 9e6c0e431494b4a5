//! Random sampling for the tracer, drawn from an explicit seedable generator.
use vstd::prelude::*;
use rand::rngs::StdRng;
use crate::fixed::SCALE;
use crate::vector::{dot_raw, mk, v_normalize, Vec3};

verus! {

#[verifier::external_type_specification]
#[verifier::external_body]
pub struct ExStdRng(StdRng);

/// How many candidates the rejection samplers draw before giving up.
pub const MAX_TRIES: u32 = 256;

/// Relies on rand::Rng::gen_range: a value drawn from the half-open range
/// `lo..hi`, which panics when the range is empty.
#[verifier::external_body]
fn draw_range(rng: &mut StdRng, lo: i64, hi: i64) -> (r: i64)
    requires
        lo < hi,
    ensures
        lo <= r < hi,
{
    rand::Rng::gen_range(rng, lo..hi)
}

/// A uniform fraction in `[0, 1)`.
pub fn random_fraction(rng: &mut StdRng) -> (r: i64)
    ensures
        0 <= r < SCALE,
{
    draw_range(rng, 0, SCALE)
}

/// A uniform value in `[-1, 1)`.
pub fn random_signed(rng: &mut StdRng) -> (r: i64)
    ensures
        -SCALE <= r < SCALE,
{
    draw_range(rng, -SCALE, SCALE)
}

/// Strictly inside the unit ball.
pub open spec fn in_unit_ball(p: Vec3) -> bool {
    dot_raw(p, p) < SCALE * SCALE && -SCALE <= p.x <= SCALE && -SCALE <= p.y <= SCALE && -SCALE
        <= p.z <= SCALE
}

/// The candidate `(x, y, z)` if it lies strictly inside the unit ball.
pub open spec fn ball_pick(x: int, y: int, z: int) -> Option<Vec3> {
    if dot_raw(mk(x, y, z), mk(x, y, z)) < SCALE * SCALE {
        Some(mk(x, y, z))
    } else {
        None
    }
}

/// The accept/reject test of the rejection samplers.
pub fn ball_candidate(x: i64, y: i64, z: i64) -> (r: Option<Vec3>)
    requires
        -SCALE <= x <= SCALE,
        -SCALE <= y <= SCALE,
        -SCALE <= z <= SCALE,
    ensures
        r == ball_pick(x as int, y as int, z as int),
        r is Some ==> in_unit_ball(r->Some_0) && r->Some_0.wf(),
{
    let p: Vec3 = Vec3 { x, y, z };
    if p.dot_wide(&p) < SCALE * SCALE {
        Some(p)
    } else {
        None
    }
}

/// A vector with every component in `[0, 1)`.
#[allow(non_snake_case)]
pub fn randomVec3(rng: &mut StdRng) -> (r: Vec3)
    ensures
        0 <= r.x < SCALE,
        0 <= r.y < SCALE,
        0 <= r.z < SCALE,
{
    let x: i64 = random_fraction(rng);
    let y: i64 = random_fraction(rng);
    let z: i64 = random_fraction(rng);
    Vec3 { x, y, z }
}

/// Rejection sampling of a point inside the unit ball; after `MAX_TRIES`
/// rejected candidates the centre is returned.
#[allow(non_snake_case)]
pub fn randomInUnitSphere(rng: &mut StdRng) -> (r: Vec3)
    ensures
        in_unit_ball(r),
        r.wf(),
{
    let mut tries: u32 = 0;
    while tries < MAX_TRIES
        invariant
            tries <= MAX_TRIES,
        decreases MAX_TRIES - tries,
    {
        let x: i64 = random_signed(rng);
        let y: i64 = random_signed(rng);
        let z: i64 = random_signed(rng);
        if let Some(p) = ball_candidate(x, y, z) {
            return p;
        }
        tries = tries + 1;
    }
    Vec3 { x: 0, y: 0, z: 0 }
}

/// A unit vector in a random direction: a point of the unit ball, normalized.
#[allow(non_snake_case)]
pub fn randomUnitVector3(rng: &mut StdRng) -> (r: Vec3)
    ensures
        exists|p: Vec3| in_unit_ball(p) && r == v_normalize(p),
        r.wf(),
{
    let p: Vec3 = randomInUnitSphere(rng);
    p.normalize()
}

/// Rejection sampling of a point inside the unit disk of the `z = 0` plane;
/// after `MAX_TRIES` rejected candidates the centre is returned.
#[allow(non_snake_case)]
pub fn randomInUnitDisk(rng: &mut StdRng) -> (r: Vec3)
    ensures
        in_unit_ball(r),
        r.z == 0,
        r.wf(),
{
    let mut tries: u32 = 0;
    while tries < MAX_TRIES
        invariant
            tries <= MAX_TRIES,
        decreases MAX_TRIES - tries,
    {
        let x: i64 = random_signed(rng);
        let y: i64 = random_signed(rng);
        if let Some(p) = ball_candidate(x, y, 0) {
            return p;
        }
        tries = tries + 1;
    }
    Vec3 { x: 0, y: 0, z: 0 }
}

} // verus!
