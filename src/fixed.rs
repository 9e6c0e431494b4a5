//! Fixed-point scalars: a real number `v` is held as the integer `v * SCALE`.
//! Every operation saturates at `±LIMIT`, so each result stays representable.
use vstd::prelude::*;
use vstd::arithmetic::div_mod::{lemma_fundamental_div_mod, lemma_fundamental_div_mod_converse};

verus! {

/// The raw value that stands for the real number 1.
pub const SCALE: i64 = 65536;

/// The largest magnitude a raw scalar may take.
pub const LIMIT: i64 = 1073741824;

pub open spec fn bounded(x: int) -> bool {
    -LIMIT <= x <= LIMIT
}

pub open spec fn clamp_limit(x: int) -> int {
    if x > LIMIT {
        LIMIT as int
    } else if x < -LIMIT {
        -LIMIT
    } else {
        x
    }
}

/// Division rounding toward zero, as machine division does.
pub open spec fn trunc_div(x: int, d: int) -> int {
    if x >= 0 {
        x / d
    } else {
        -((-x) / d)
    }
}

pub open spec fn fx_add(a: int, b: int) -> int {
    clamp_limit(a + b)
}

pub open spec fn fx_sub(a: int, b: int) -> int {
    clamp_limit(a - b)
}

pub open spec fn fx_mul(a: int, b: int) -> int {
    clamp_limit(trunc_div(a * b, SCALE as int))
}

pub open spec fn fx_div(a: int, b: int) -> int {
    clamp_limit(trunc_div(a * SCALE, b))
}

pub open spec fn fx_min(a: int, b: int) -> int {
    if a <= b {
        a
    } else {
        b
    }
}

/// `r` is the integer square root of `n`: the largest `r` with `r * r <= n`.
pub open spec fn is_root(n: int, r: int) -> bool {
    0 <= r && r * r <= n && n < (r + 1) * (r + 1)
}

pub open spec fn int_sqrt(n: int) -> int {
    choose|r: int| is_root(n, r)
}

/// Square root of a scalar, rounded down.
pub open spec fn fx_sqrt(a: int) -> int {
    int_sqrt(a * SCALE)
}

pub proof fn lemma_root_unique(n: int, r1: int, r2: int)
    requires
        is_root(n, r1),
        is_root(n, r2),
    ensures
        r1 == r2,
{
    if r1 < r2 {
        assert((r1 + 1) * (r1 + 1) <= r2 * r2) by (nonlinear_arith)
            requires
                0 <= r1 + 1 <= r2,
        ;
    } else if r2 < r1 {
        assert((r2 + 1) * (r2 + 1) <= r1 * r1) by (nonlinear_arith)
            requires
                0 <= r2 + 1 <= r1,
        ;
    }
}

/// Every non-negative integer has an integer square root.
pub proof fn lemma_root_exists(n: int)
    requires
        n >= 0,
    ensures
        is_root(n, int_sqrt(n)),
    decreases n,
{
    if n == 0 {
        assert(is_root(0, 0));
    } else {
        lemma_root_exists(n - 1);
        let r = int_sqrt(n - 1);
        if (r + 1) * (r + 1) <= n {
            assert(n < (r + 2) * (r + 2)) by (nonlinear_arith)
                requires
                    n - 1 < (r + 1) * (r + 1),
                    r >= 0,
            ;
            assert(is_root(n, r + 1));
        } else {
            assert(is_root(n, r));
        }
    }
}

pub proof fn lemma_int_sqrt(n: int, r: int)
    requires
        is_root(n, r),
    ensures
        int_sqrt(n) == r,
{
    assert(is_root(n, int_sqrt(n)));
    lemma_root_unique(n, r, int_sqrt(n));
}

pub fn clamp_wide(x: i128) -> (r: i64)
    ensures
        r == clamp_limit(x as int),
{
    if x > LIMIT as i128 {
        LIMIT
    } else if x < -(LIMIT as i128) {
        -LIMIT
    } else {
        x as i64
    }
}

pub fn fadd(a: i64, b: i64) -> (r: i64)
    requires
        bounded(a as int),
        bounded(b as int),
    ensures
        r == fx_add(a as int, b as int),
{
    clamp_wide((a + b) as i128)
}

pub fn fsub(a: i64, b: i64) -> (r: i64)
    requires
        bounded(a as int),
        bounded(b as int),
    ensures
        r == fx_sub(a as int, b as int),
{
    clamp_wide((a - b) as i128)
}

pub fn fmul(a: i64, b: i64) -> (r: i64)
    requires
        bounded(a as int),
        bounded(b as int),
    ensures
        r == fx_mul(a as int, b as int),
{
    proof {
        assert(-0x1000000000000000 <= a * b <= 0x1000000000000000) by (nonlinear_arith)
            requires
                bounded(a as int),
                bounded(b as int),
        ;
    }
    let p: i64 = a * b;
    clamp_wide((p / SCALE) as i128)
}

pub fn fdiv(a: i64, b: i64) -> (r: i64)
    requires
        bounded(a as int),
        bounded(b as int),
        b > 0,
    ensures
        r == fx_div(a as int, b as int),
{
    let p: i64 = a * SCALE;
    clamp_wide((p / b) as i128)
}

pub fn fmin(a: i64, b: i64) -> (r: i64)
    ensures
        r == fx_min(a as int, b as int),
{
    if a <= b {
        a
    } else {
        b
    }
}

/// Division rounding down, for a positive divisor.
pub fn floor_div_wide(x: i128, d: i128) -> (r: i128)
    requires
        d > 0,
        x > -0x40000000000000000000000000000000,
    ensures
        r == x as int / d as int,
{
    if x >= 0 {
        x / d
    } else {
        let m: i128 = -x;
        let q: i128 = m / d;
        proof {
            lemma_fundamental_div_mod(m as int, d as int);
        }
        if m % d == 0 {
            proof {
                assert(x == (-q) * d + 0) by (nonlinear_arith)
                    requires
                        m == d * q + m % d,
                        m % d == 0,
                        x == -m,
                ;
                lemma_fundamental_div_mod_converse(x as int, d as int, -q, 0);
            }
            -q
        } else {
            proof {
                let rem = m % d;
                assert(x == (-q - 1) * d + (d - rem)) by (nonlinear_arith)
                    requires
                        m == d * q + rem,
                        x == -m,
                ;
                lemma_fundamental_div_mod_converse(x as int, d as int, -q - 1, d - rem);
            }
            -q - 1
        }
    }
}

/// Integer square root by bisection.
pub fn isqrt(n: u128) -> (r: u128)
    requires
        n < 0x40000000000000000000000000000000,
    ensures
        r == int_sqrt(n as int),
        is_root(n as int, r as int),
{
    let mut lo: u128 = 0;
    let mut hi: u128 = 0x8000000000000000;
    assert(hi * hi == 0x40000000000000000000000000000000) by (nonlinear_arith)
        requires
            hi == 0x8000000000000000,
    ;
    while hi - lo > 1
        invariant
            lo < hi <= 0x8000000000000000,
            lo * lo <= n,
            n < hi * hi,
        decreases hi - lo,
    {
        let mid: u128 = lo + (hi - lo) / 2;
        assert(mid * mid <= 0x40000000000000000000000000000000) by (nonlinear_arith)
            requires
                mid <= 0x8000000000000000,
        ;
        if mid * mid <= n {
            lo = mid;
        } else {
            hi = mid;
        }
    }
    proof {
        assert(is_root(n as int, lo as int));
        lemma_int_sqrt(n as int, lo as int);
    }
    lo
}

pub fn fsqrt(a: i64) -> (r: i64)
    requires
        0 <= a <= LIMIT,
    ensures
        r == fx_sqrt(a as int),
        0 <= r <= LIMIT,
{
    assert(a * SCALE <= 0x1000000000000) by (nonlinear_arith)
        requires
            0 <= a <= LIMIT,
    ;
    let n: u128 = (a as u128) * (SCALE as u128);
    let s: u128 = isqrt(n);
    proof {
        assert(is_root(n as int, s as int));
        assert(s <= 0x1000000) by (nonlinear_arith)
            requires
                s * s <= n,
                n <= 0x1000000000000,
                s >= 0,
        ;
    }
    s as i64
}

} // verus!
