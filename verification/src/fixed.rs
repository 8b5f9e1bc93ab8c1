//! Saturating fixed-point arithmetic.
//!
//! A value represents a real number in millionths: `v` stands for
//! `v / 1_000_000`.  Every operation clips its result to the band
//! `[-LIM, LIM]`, so the operations are total and never overflow.

use vstd::prelude::*;

verus! {

/// Number of fixed-point units in `1.0`.
pub const ONE: i64 = 1_000_000;

/// Largest magnitude a fixed-point value may take.
pub const LIM: i64 = 4_000_000_000_000_000;

/// A well-formed fixed-point value lies in the band `[-LIM, LIM]`.
pub open spec fn fx_ok(v: i64) -> bool {
    -LIM <= v <= LIM
}

/// Clip an unbounded result into the fixed-point band.
pub open spec fn clip(v: int) -> int {
    if v > LIM as int {
        LIM as int
    } else if v < -(LIM as int) {
        -(LIM as int)
    } else {
        v
    }
}

/// Division truncated toward zero, for positive divisors; this is the
/// rounding rule used throughout the library.
pub open spec fn tdiv(a: int, b: int) -> int {
    if a >= 0 {
        a / b
    } else {
        -((-a) / b)
    }
}

/// Saturating fixed-point addition.
pub open spec fn fadd(a: i64, b: i64) -> int {
    clip(a + b)
}

/// Saturating fixed-point subtraction.
pub open spec fn fsub(a: i64, b: i64) -> int {
    clip(a - b)
}

/// Saturating fixed-point multiplication: the product of the reals,
/// truncated toward zero to a whole number of millionths.
pub open spec fn fmul(a: i64, b: i64) -> int {
    clip(tdiv(a * b, ONE as int))
}

/// Saturating fixed-point division; division by zero yields zero,
/// a case no caller of the library reaches.
pub open spec fn fdiv(a: i64, b: i64) -> int {
    if b == 0 {
        0
    } else if b > 0 {
        clip(tdiv(a * ONE, b as int))
    } else {
        clip(-tdiv(a * ONE, -b as int))
    }
}

pub fn fx_add(a: i64, b: i64) -> (r: i64)
    requires
        fx_ok(a),
        fx_ok(b),
    ensures
        r == fadd(a, b),
        fx_ok(r),
{
    let s: i128 = a as i128 + b as i128;
    if s > LIM as i128 {
        LIM
    } else if s < -(LIM as i128) {
        -LIM
    } else {
        s as i64
    }
}

pub fn fx_sub(a: i64, b: i64) -> (r: i64)
    requires
        fx_ok(a),
        fx_ok(b),
    ensures
        r == fsub(a, b),
        fx_ok(r),
{
    let s: i128 = a as i128 - b as i128;
    if s > LIM as i128 {
        LIM
    } else if s < -(LIM as i128) {
        -LIM
    } else {
        s as i64
    }
}

pub fn fx_mul(a: i64, b: i64) -> (r: i64)
    requires
        fx_ok(a),
        fx_ok(b),
    ensures
        r == fmul(a, b),
        fx_ok(r),
{
    proof {
        lemma_product_bound(a as int, b as int, LIM as int, LIM as int);
    }
    let p: i128 = a as i128 * b as i128;
    let q: i128 = p / (ONE as i128);
    if q > LIM as i128 {
        LIM
    } else if q < -(LIM as i128) {
        -LIM
    } else {
        q as i64
    }
}

pub fn fx_div(a: i64, b: i64) -> (r: i64)
    requires
        fx_ok(a),
        fx_ok(b),
    ensures
        r == fdiv(a, b),
        fx_ok(r),
{
    if b == 0 {
        return 0;
    }
    proof {
        lemma_product_bound(a as int, ONE as int, LIM as int, ONE as int);
    }
    let p: i128 = a as i128 * ONE as i128;
    let d: i128 = if b < 0 {
        -(b as i128)
    } else {
        b as i128
    };
    let q: i128 = p / d;
    let q: i128 = if b < 0 {
        -q
    } else {
        q
    };
    if q > LIM as i128 {
        LIM
    } else if q < -(LIM as i128) {
        -LIM
    } else {
        q as i64
    }
}

/// Magnitudes of factors bound the magnitude of the product.
proof fn lemma_product_bound(a: int, b: int, ca: int, cb: int)
    requires
        -ca <= a <= ca,
        -cb <= b <= cb,
        0 <= ca,
        0 <= cb,
    ensures
        -(ca * cb) <= a * b <= ca * cb,
{
    assert(-(ca * cb) <= a * b <= ca * cb) by (nonlinear_arith)
        requires
            -ca <= a <= ca,
            -cb <= b <= cb,
            0 <= ca,
            0 <= cb,
    ;
}

/// Clamp a value into `[lo, hi]`.
pub open spec fn clamp_spec(v: i64, lo: i64, hi: i64) -> i64 {
    if v < lo {
        lo
    } else if v > hi {
        hi
    } else {
        v
    }
}

pub fn fx_clamp(v: i64, lo: i64, hi: i64) -> (r: i64)
    requires
        lo <= hi,
    ensures
        r == clamp_spec(v, lo, hi),
        lo <= r <= hi,
{
    if v < lo {
        lo
    } else if v > hi {
        hi
    } else {
        v
    }
}

/// The whole-number square root: the largest `r` with `r * r <= n`.
pub open spec fn is_isqrt(n: int, r: int) -> bool {
    &&& r >= 0
    &&& r * r <= n
    &&& (r + 1) * (r + 1) > n
}

/// Binary search for the whole-number square root of a wide operand.
pub fn isqrt_u128(n: u128) -> (r: u128)
    requires
        n < 0x1_0000_0000_0000_0000_0000u128,
    ensures
        is_isqrt(n as int, r as int),
{
    let mut lo: u128 = 0;
    let mut hi: u128 = 0x100_0000_0000u128;
    proof {
        assert(0x100_0000_0000u128 * 0x100_0000_0000u128 == 0x1_0000_0000_0000_0000_0000u128)
            by (nonlinear_arith);
    }
    while lo + 1 < hi
        invariant
            lo < hi <= 0x100_0000_0000u128,
            lo * lo <= n,
            hi * hi > n,
        decreases hi - lo,
    {
        let mid: u128 = lo + (hi - lo) / 2;
        proof {
            assert(mid as int * mid as int <= (0x100_0000_0000u128 as int) * (0x100_0000_0000u128
                as int)) by (nonlinear_arith)
                requires
                    0 <= mid <= 0x100_0000_0000u128,
            ;
        }
        if mid * mid <= n {
            lo = mid;
        } else {
            hi = mid;
        }
    }
    lo
}

/// Fixed-point square root of a non-negative value: the result again
/// counts millionths, truncated toward zero.
pub open spec fn fsqrt(a: i64) -> int
    recommends
        a >= 0,
{
    choose|r: int| #[trigger] is_isqrt(a * ONE, r)
}

pub fn fx_sqrt(a: i64) -> (r: i64)
    requires
        fx_ok(a),
        a >= 0,
    ensures
        is_isqrt(a * ONE, r as int),
        r == fsqrt(a),
        fx_ok(r),
        r >= 0,
{
    let n: u128 = a as u128 * ONE as u128;
    let s: u128 = isqrt_u128(n);
    proof {
        assert(s as int * s as int <= LIM as int * ONE as int);
        assert(s as int <= 64_000_000_000i64 as int) by (nonlinear_arith)
            requires
                s as int >= 0,
                s as int * s as int <= LIM as int * ONE as int,
        ;
        let w = choose|r: int| #[trigger] is_isqrt(a * ONE, r);
        assert(is_isqrt(a * ONE, w));
        lemma_isqrt_unique(a as int * ONE as int, s as int, w);
    }
    s as i64
}

/// Two whole-number square roots of the same operand are equal.
proof fn lemma_isqrt_unique(n: int, r1: int, r2: int)
    requires
        is_isqrt(n, r1),
        is_isqrt(n, r2),
    ensures
        r1 == r2,
{
    if r1 < r2 {
        assert((r1 + 1) * (r1 + 1) <= r2 * r2) by (nonlinear_arith)
            requires
                0 <= r1 + 1 <= r2,
        ;
    }
    if r2 < r1 {
        assert((r2 + 1) * (r2 + 1) <= r1 * r1) by (nonlinear_arith)
            requires
                0 <= r2 + 1 <= r1,
        ;
    }
}

/// A quotient of non-negative operands is non-negative.
pub proof fn lemma_fdiv_sign(a: i64, b: i64)
    requires
        a >= 0,
        b >= 0,
    ensures
        0 <= fdiv(a, b) <= LIM,
{
    if b > 0 {
        assert(0 <= a * ONE) by (nonlinear_arith)
            requires
                a >= 0,
        ;
        assert(0 <= (a * ONE) / (b as int)) by (nonlinear_arith)
            requires
                0 <= a * ONE,
                b > 0,
        ;
    }
}

/// A product of non-negative factors stays non-negative, and within
/// the band.
pub proof fn lemma_fmul_sign(a: i64, b: i64)
    requires
        a >= 0,
        b >= 0,
    ensures
        0 <= fmul(a, b) <= LIM,
{
    assert(0 <= a * b) by (nonlinear_arith)
        requires
            a >= 0,
            b >= 0,
    ;
    assert(0 <= (a * b) / (ONE as int)) by (nonlinear_arith)
        requires
            0 <= a * b,
    ;
}

/// The elapsed time after `k` steps of size `dt`, clipped into the
/// band.
pub open spec fn elapsed(k: nat, dt: i64) -> int {
    clip(k * dt)
}

pub fn fx_elapsed(k: u64, dt: i64) -> (r: i64)
    requires
        k <= 10_000_000,
        fx_ok(dt),
    ensures
        r == elapsed(k as nat, dt),
        fx_ok(r),
{
    proof {
        assert(-(10_000_000 * (LIM as int)) <= k as int * dt <= 10_000_000 * (LIM as int))
            by (nonlinear_arith)
            requires
                0 <= k <= 10_000_000,
                -LIM <= dt <= LIM,
        ;
    }
    let p: i128 = k as i128 * dt as i128;
    if p > LIM as i128 {
        LIM
    } else if p < -(LIM as i128) {
        -LIM
    } else {
        p as i64
    }
}

} // verus!
