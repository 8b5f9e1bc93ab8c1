//! Fixed-point elementary functions: the logistic sigmoid, sine and
//! cosine, and the signed plane angle.
//!
//! Each function computes a truncated series or shift-and-add recurrence
//! over millionth units; its specification states that recurrence
//! exactly, together with the range the result lies in.

use crate::fixed::{fx_clamp, fx_ok, tdiv, LIM, ONE};
use vstd::prelude::*;

verus! {

/// One term of the exponential series: `term(f, 0) == 1`, and each
/// later term multiplies by `f` and divides by the index.
pub open spec fn exp_term(f: i64, i: nat) -> int
    decreases i,
{
    if i == 0 {
        ONE as int
    } else {
        tdiv(exp_term(f, (i - 1) as nat) * f, (i * (ONE as nat)) as int)
    }
}

/// The sum of the exponential series through term `i`.
pub open spec fn exp_psum(f: i64, i: nat) -> int
    decreases i,
{
    if i == 0 {
        ONE as int
    } else {
        exp_psum(f, (i - 1) as nat) + exp_term(f, i)
    }
}

/// Quotients by a positive divisor keep the band `[0, c]` when the
/// dividend lies in `[0, c * d]`.
pub proof fn lemma_tdiv_pos_bound(a: int, d: int, c: int)
    requires
        0 <= a,
        0 < d,
        0 <= c,
        a <= c * d,
    ensures
        0 <= tdiv(a, d) <= c,
{
    assert(0 <= a / d <= c) by (nonlinear_arith)
        requires
            0 <= a,
            0 < d,
            0 <= c,
            a <= c * d,
    ;
}

/// The exponential of a unit-interval operand, by twelve series terms;
/// the result lies in `[ONE, 3 * ONE]`.
pub fn exp_unit(f: i64) -> (r: i64)
    requires
        0 <= f <= ONE,
    ensures
        r == exp_psum(f, 12),
        ONE <= r <= 13 * ONE,
{
    let mut term: i64 = ONE;
    let mut acc: i64 = ONE;
    let mut i: u64 = 0;
    while i < 12
        invariant
            0 <= i <= 12,
            0 <= f <= ONE,
            term == exp_term(f, i as nat),
            acc == exp_psum(f, i as nat),
            0 <= term <= ONE,
            ONE <= acc <= (i + 1) * ONE,
        decreases 12 - i,
    {
        proof {
            assert(term * f <= ONE * (ONE as int)) by (nonlinear_arith)
                requires
                    0 <= term <= ONE,
                    0 <= f <= ONE,
            ;
            assert(0 <= term * f) by (nonlinear_arith)
                requires
                    0 <= term,
                    0 <= f,
            ;
        }
        let p: i64 = term * f;
        let d: i64 = (i as i64 + 1) * ONE;
        proof {
            lemma_tdiv_pos_bound(p as int, d as int, ONE as int);
        }
        term = p / d;
        acc = acc + term;
        i = i + 1;
    }
    acc
}

/// The exponential of a non-positive whole number of units, read from
/// a table; zero beyond fourteen units, where a millionth no longer
/// resolves the value.
pub open spec fn exp_neg_whole(k: int) -> int {
    if k == 0 {
        1000000
    } else if k == 1 {
        367879
    } else if k == 2 {
        135335
    } else if k == 3 {
        49787
    } else if k == 4 {
        18315
    } else if k == 5 {
        6737
    } else if k == 6 {
        2478
    } else if k == 7 {
        911
    } else if k == 8 {
        335
    } else if k == 9 {
        123
    } else if k == 10 {
        45
    } else if k == 11 {
        16
    } else if k == 12 {
        6
    } else if k == 13 {
        2
    } else {
        0
    }
}

fn exp_neg_whole_at(k: i64) -> (r: i64)
    requires
        0 <= k,
    ensures
        r == exp_neg_whole(k as int),
        0 <= r <= ONE,
{
    if k == 0 {
        1000000
    } else if k == 1 {
        367879
    } else if k == 2 {
        135335
    } else if k == 3 {
        49787
    } else if k == 4 {
        18315
    } else if k == 5 {
        6737
    } else if k == 6 {
        2478
    } else if k == 7 {
        911
    } else if k == 8 {
        335
    } else if k == 9 {
        123
    } else if k == 10 {
        45
    } else if k == 11 {
        16
    } else if k == 12 {
        6
    } else if k == 13 {
        2
    } else {
        0
    }
}

/// The exponential of `-x` for `x >= 0`: the whole-unit table entry
/// times the reciprocal of the fractional-part series.
pub open spec fn exp_neg(x: i64) -> int
    recommends
        x >= 0,
{
    let whole = exp_neg_whole(x as int / ONE as int);
    let frac = tdiv(ONE * ONE, exp_psum((x % ONE) as i64, 12));
    tdiv(whole * frac, ONE as int)
}

pub fn fx_exp_neg(x: i64) -> (r: i64)
    requires
        0 <= x,
        fx_ok(x),
    ensures
        r == exp_neg(x),
        0 <= r <= ONE,
{
    let k: i64 = x / ONE;
    let f: i64 = x % ONE;
    let whole = exp_neg_whole_at(k);
    let series = exp_unit(f);
    let frac: i64 = (ONE * ONE) / series;
    proof {
        lemma_tdiv_pos_bound((ONE * ONE) as int, series as int, ONE as int);
        assert((ONE * ONE) as int <= ONE as int * series as int) by (nonlinear_arith)
            requires
                series >= ONE,
        ;
        assert(whole * frac <= ONE * (ONE as int)) by (nonlinear_arith)
            requires
                0 <= whole <= ONE,
                0 <= frac <= ONE,
        ;
        assert(0 <= whole * frac) by (nonlinear_arith)
            requires
                0 <= whole,
                0 <= frac,
        ;
        lemma_tdiv_pos_bound((whole * frac) as int, ONE as int, ONE as int);
    }
    (whole * frac) / ONE
}

/// The logistic sigmoid in millionth units: `1 / (1 + exp(-x))`,
/// mirrored through one half for negative operands.
pub open spec fn sigmoid(x: i64) -> int {
    if x >= 0 {
        tdiv(ONE * ONE, ONE + exp_neg(x))
    } else {
        ONE - tdiv(ONE * ONE, ONE + exp_neg((-x) as i64))
    }
}

pub fn fx_sigmoid(x: i64) -> (r: i64)
    requires
        fx_ok(x),
    ensures
        r == sigmoid(x),
        0 <= r <= ONE,
{
    if x >= 0 {
        let e = fx_exp_neg(x);
        proof {
            lemma_tdiv_pos_bound((ONE * ONE) as int, (ONE + e) as int, ONE as int);
            assert((ONE * ONE) as int <= ONE as int * (ONE + e) as int) by (nonlinear_arith)
                requires
                    e >= 0,
            ;
        }
        (ONE * ONE) / (ONE + e)
    } else {
        let e = fx_exp_neg(-x);
        proof {
            lemma_tdiv_pos_bound((ONE * ONE) as int, (ONE + e) as int, ONE as int);
            assert((ONE * ONE) as int <= ONE as int * (ONE + e) as int) by (nonlinear_arith)
                requires
                    e >= 0,
            ;
        }
        ONE - (ONE * ONE) / (ONE + e)
    }
}


/// A full turn, half turn, and quarter turn in millionth radians.
pub const TAU: i64 = 6_283_185;

pub const PI_FX: i64 = 3_141_592;

pub const HALF_PI: i64 = 1_570_796;

/// Quotients by a positive divisor keep a magnitude bound when the
/// dividend's magnitude is within `c * d`.
pub proof fn lemma_tdiv_abs_bound(a: int, d: int, c: int)
    requires
        0 < d,
        0 <= c,
        -(c * d) <= a <= c * d,
    ensures
        -c <= tdiv(a, d) <= c,
{
    if a >= 0 {
        lemma_tdiv_pos_bound(a, d, c);
    } else {
        lemma_tdiv_pos_bound(-a, d, c);
    }
}

/// An angle folded into one turn centered on zero.
pub open spec fn wrap_angle(x: i64) -> int {
    let m = (x as int) % (TAU as int);
    if m > PI_FX {
        m - TAU
    } else {
        m
    }
}

fn reduce_angle(x: i64) -> (m: i64)
    requires
        fx_ok(x),
    ensures
        m == wrap_angle(x),
        -PI_FX - 1 <= m <= PI_FX,
{
    let m0: i64 = x % TAU;
    let m1: i64 = if m0 < 0 {
        m0 + TAU
    } else {
        m0
    };
    if m1 > PI_FX {
        m1 - TAU
    } else {
        m1
    }
}

/// The squared angle in millionth units.
pub open spec fn msq_of(m: i64) -> int {
    tdiv(m * m, ONE as int)
}

/// The divisor taking term `j - 1` of the sine series to term `j`:
/// the product of the two factorial indexes `2j` and `2j + 1`, scaled.
pub open spec fn sin_div(j: nat) -> int {
    if j == 1 {
        6 * ONE
    } else if j == 2 {
        20 * ONE
    } else if j == 3 {
        42 * ONE
    } else if j == 4 {
        72 * ONE
    } else if j == 5 {
        110 * ONE
    } else if j == 6 {
        156 * ONE
    } else if j == 7 {
        210 * ONE
    } else {
        272 * ONE
    }
}

/// One term of the sine series: the angle itself, then each later term
/// multiplied by the squared angle and divided by the next two indexes,
/// with alternating sign.
pub open spec fn sin_term(m: i64, j: nat) -> int
    decreases j,
{
    if j == 0 {
        m as int
    } else {
        -tdiv(sin_term(m, (j - 1) as nat) * msq_of(m), sin_div(j))
    }
}

/// The sum of the sine series through term `j`.
pub open spec fn sin_psum(m: i64, j: nat) -> int
    decreases j,
{
    if j == 0 {
        m as int
    } else {
        sin_psum(m, (j - 1) as nat) + sin_term(m, j)
    }
}

/// Clip to the unit band `[-1, 1]`.
pub open spec fn clip_unit(v: int) -> int {
    if v > ONE {
        ONE as int
    } else if v < -ONE {
        -ONE as int
    } else {
        v
    }
}

/// The divisor bringing term `j` of the sine series to term `j + 1`.
fn sin_divisor_at(j: u64) -> (d: i64)
    requires
        j < 8,
    ensures
        d as int == sin_div((j + 1) as nat),
        6 * ONE <= d <= 272 * ONE,
        j >= 1 ==> d >= 20 * ONE,
{
    if j == 0 {
        6 * ONE
    } else if j == 1 {
        20 * ONE
    } else if j == 2 {
        42 * ONE
    } else if j == 3 {
        72 * ONE
    } else if j == 4 {
        110 * ONE
    } else if j == 5 {
        156 * ONE
    } else if j == 6 {
        210 * ONE
    } else {
        272 * ONE
    }
}

/// The sine of any fixed-point angle: the series on the folded angle,
/// clipped into the unit band.
pub open spec fn sine(x: i64) -> int {
    clip_unit(sin_psum(wrap_angle(x) as i64, 8))
}

pub fn fx_sin(x: i64) -> (r: i64)
    requires
        fx_ok(x),
    ensures
        r == sine(x),
        -ONE <= r <= ONE,
{
    let m: i64 = reduce_angle(x);
    proof {
        assert(0 <= m * m <= 3_141_593i64 * 3_141_593i64) by (nonlinear_arith)
            requires
                -3_141_593 <= m <= 3_141_593,
        ;
    }
    let msq: i64 = (m * m) / ONE;
    proof {
        lemma_tdiv_pos_bound((m * m) as int, ONE as int, 9_869_612);
        assert((m * m) as int <= 9_869_612 * (ONE as int)) by (nonlinear_arith)
            requires
                0 <= m * m <= 3_141_593i64 * 3_141_593i64,
        ;
    }
    let mut term: i64 = m;
    let mut acc: i64 = m;
    let mut j: u64 = 0;
    while j < 8
        invariant
            0 <= j <= 8,
            -PI_FX - 1 <= m <= PI_FX,
            msq == msq_of(m),
            0 <= msq <= 9_869_612,
            term == sin_term(m, j as nat),
            acc == sin_psum(m, j as nat),
            -6 * ONE <= term <= 6 * ONE,
            j == 0 ==> term == m,
            -(6 * j + 4) * ONE <= acc <= (6 * j + 4) * ONE,
        decreases 8 - j,
    {
        let d: i64 = sin_divisor_at(j);
        proof {
            assert(-59_217_672_000_000 <= term * msq <= 59_217_672_000_000) by (nonlinear_arith)
                requires
                    -6 * ONE <= term <= 6 * ONE,
                    0 <= msq <= 9_869_612,
            ;
            if j == 0 {
                assert(-(6 * (ONE as int) * (d as int)) <= term * msq <= 6 * (ONE as int) * (
                d as int)) by (nonlinear_arith)
                    requires
                        -3_141_593 <= term <= 3_141_593,
                        0 <= msq <= 9_869_612,
                        d >= 6 * ONE,
                ;
            } else {
                assert(-(6 * (ONE as int) * (d as int)) <= term * msq <= 6 * (ONE as int) * (
                d as int)) by (nonlinear_arith)
                    requires
                        -6 * ONE <= term <= 6 * ONE,
                        0 <= msq <= 9_869_612,
                        d >= 20 * ONE,
                ;
            }
        }
        let p: i64 = term * msq;
        proof {
            lemma_tdiv_abs_bound(p as int, d as int, 6 * ONE as int);
        }
        term = -(p / d);
        acc = acc + term;
        j = j + 1;
    }
    fx_clamp(acc, -ONE, ONE)
}

/// The cosine as the sine advanced a quarter turn, the sum clipped into
/// the fixed-point band first.
pub open spec fn cosine(x: i64) -> int {
    sine(crate::fixed::clip(x + HALF_PI) as i64)
}

pub fn fx_cos(x: i64) -> (r: i64)
    requires
        fx_ok(x),
    ensures
        r == cosine(x),
        -ONE <= r <= ONE,
{
    let shifted = crate::fixed::fx_add(x, HALF_PI);
    fx_sin(shifted)
}

/// The angle of one shift-and-add rotation: `atan(2^-k)` in
/// millionth degrees.
pub open spec fn atan_entry(k: nat) -> int {
    if k == 0 {
        45_000_000
    } else if k == 1 {
        26_565_051
    } else if k == 2 {
        14_036_243
    } else if k == 3 {
        7_125_016
    } else if k == 4 {
        3_576_334
    } else if k == 5 {
        1_789_910
    } else if k == 6 {
        895_173
    } else if k == 7 {
        447_614
    } else if k == 8 {
        223_810
    } else if k == 9 {
        111_905
    } else if k == 10 {
        55_952
    } else if k == 11 {
        27_976
    } else if k == 12 {
        13_988
    } else if k == 13 {
        6_994
    } else if k == 14 {
        3_497
    } else if k == 15 {
        1_748
    } else if k == 16 {
        874
    } else if k == 17 {
        437
    } else if k == 18 {
        218
    } else if k == 19 {
        109
    } else {
        54
    }
}

fn atan_entry_at(k: u64) -> (r: i64)
    ensures
        r == atan_entry(k as nat),
        0 < r <= 45_000_000,
{
    if k == 0 {
        45_000_000
    } else if k == 1 {
        26_565_051
    } else if k == 2 {
        14_036_243
    } else if k == 3 {
        7_125_016
    } else if k == 4 {
        3_576_334
    } else if k == 5 {
        1_789_910
    } else if k == 6 {
        895_173
    } else if k == 7 {
        447_614
    } else if k == 8 {
        223_810
    } else if k == 9 {
        111_905
    } else if k == 10 {
        55_952
    } else if k == 11 {
        27_976
    } else if k == 12 {
        13_988
    } else if k == 13 {
        6_994
    } else if k == 14 {
        3_497
    } else if k == 15 {
        1_748
    } else if k == 16 {
        874
    } else if k == 17 {
        437
    } else if k == 18 {
        218
    } else if k == 19 {
        109
    } else {
        54
    }
}

/// Successive powers of two.
pub open spec fn two_pow(k: nat) -> int
    decreases k,
{
    if k == 0 {
        1
    } else {
        2 * two_pow((k - 1) as nat)
    }
}

/// Quotients by a divisor of at least one never grow in magnitude.
proof fn lemma_tdiv_shrinks(a: int, d: int)
    requires
        d >= 1,
    ensures
        a >= 0 ==> 0 <= tdiv(a, d) <= a,
        a < 0 ==> a <= tdiv(a, d) <= 0,
{
    if a >= 0 {
        assert(0 <= a / d <= a) by (nonlinear_arith)
            requires
                0 <= a,
                d >= 1,
        ;
    } else {
        assert(0 <= (-a) / d <= -a) by (nonlinear_arith)
            requires
                0 <= -a,
                d >= 1,
        ;
    }
}

/// Powers of two never shrink as the exponent grows.
proof fn lemma_two_pow_le(k: nat, n: nat)
    requires
        k <= n,
    ensures
        1 <= two_pow(k) <= two_pow(n),
    decreases n,
{
    if n > 0 {
        if k == n {
            lemma_two_pow_le(0, (n - 1) as nat);
        } else {
            lemma_two_pow_le(k, (n - 1) as nat);
        }
    }
}

/// The rotation state after `k` shift-and-add steps from `(x0, y0)`:
/// abscissa, ordinate, and accumulated angle in millionth degrees.
pub open spec fn cordic_state(x0: int, y0: int, k: nat) -> (int, int, int)
    decreases k,
{
    if k == 0 {
        (x0, y0, 0)
    } else {
        let s = cordic_state(x0, y0, (k - 1) as nat);
        let p = two_pow((k - 1) as nat);
        if s.1 > 0 {
            (s.0 + tdiv(s.1, p), s.1 - tdiv(s.0, p), s.2 + atan_entry((k - 1) as nat))
        } else {
            (s.0 - tdiv(s.1, p), s.1 + tdiv(s.0, p), s.2 - atan_entry((k - 1) as nat))
        }
    }
}

/// The angle the rotation has turned through after twenty-one steps:
/// the angle of `(x0, y0)` from the positive abscissa, for `x0 > 0`.
pub open spec fn cordic_angle(x0: int, y0: int) -> int {
    cordic_state(x0, y0, 21).2
}

#[verifier::rlimit(60)]
fn cordic_run(x0: i64, y0: i64) -> (z: i64)
    requires
        0 <= x0 <= LIM,
        -LIM <= y0 <= LIM,
    ensures
        z == cordic_angle(x0 as int, y0 as int),
        -945_000_000 <= z <= 945_000_000,
{
    let mut x: i128 = x0 as i128;
    let mut y: i128 = y0 as i128;
    let mut z: i64 = 0;
    let mut p: i128 = 1;
    let mut k: u64 = 0;
    while k < 21
        invariant
            0 <= k <= 21,
            p == two_pow(k as nat),
            p >= 1,
            x == cordic_state(x0 as int, y0 as int, k as nat).0,
            y == cordic_state(x0 as int, y0 as int, k as nat).1,
            z == cordic_state(x0 as int, y0 as int, k as nat).2,
            -8_000_000_000_000_000 * p <= x <= 8_000_000_000_000_000 * p,
            -8_000_000_000_000_000 * p <= y <= 8_000_000_000_000_000 * p,
            -45_000_000 * k <= z <= 45_000_000 * k,
        decreases 21 - k,
    {
        let t = atan_entry_at(k);
        proof {
            lemma_tdiv_shrinks(x as int, p as int);
            lemma_tdiv_shrinks(y as int, p as int);
            lemma_two_pow_le(k as nat, 21);
            reveal_with_fuel(two_pow, 22);
            assert(two_pow(21) == 0x20_0000);
        }
        let dx: i128 = y / p;
        let dy: i128 = x / p;
        if y > 0 {
            x = x + dx;
            y = y - dy;
            z = z + t;
        } else {
            x = x - dx;
            y = y + dy;
            z = z - t;
        }
        p = p * 2;
        k = k + 1;
    }
    z
}

/// The signed angle of the point `(x, y)` from the positive abscissa,
/// in millionth degrees, by quadrant folding around the rotation.
pub open spec fn atan2_deg(y: i64, x: i64) -> int
    recommends
        !(x == 0 && y == 0),
{
    if x > 0 {
        cordic_angle(x as int, y as int)
    } else if x == 0 {
        if y > 0 {
            90_000_000
        } else {
            -90_000_000
        }
    } else if y >= 0 {
        180_000_000 - cordic_angle(-x as int, y as int)
    } else {
        -180_000_000 + cordic_angle(-x as int, -y as int)
    }
}

/// The signed plane angle; the zero vector has none, and callers treat
/// that case as a missing measurement.
pub fn fx_atan2_deg(y: i64, x: i64) -> (r: Option<i64>)
    requires
        fx_ok(x),
        fx_ok(y),
    ensures
        (r is Some) <==> !(x == 0 && y == 0),
        r is Some ==> r->Some_0 == atan2_deg(y, x),
        r is Some ==> -1_200_000_000 <= r->Some_0 <= 1_200_000_000,
{
    if x == 0 && y == 0 {
        return None;
    }
    if x > 0 {
        Some(cordic_run(x, y))
    } else if x == 0 {
        if y > 0 {
            Some(90_000_000)
        } else {
            Some(-90_000_000)
        }
    } else if y >= 0 {
        Some(180_000_000 - cordic_run(-x, y))
    } else {
        Some(-180_000_000 + cordic_run(-x, -y))
    }
}

} // verus!
