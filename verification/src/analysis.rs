//! The analysis layer's computations: directional and gradient signals
//! derived from one simulated trajectory, and their histogram
//! statistics.
//!
//! A degenerate measurement — a displacement of zero length — yields
//! no value rather than a number, and every average skips the missing
//! entries.

use crate::env::{concentration_at, field_at, FieldMode};
use crate::fitness::{const_of, init_model, init_state, seed_after_alpha, seed_after_ci, time_of};
use crate::genetic::Ga;
use crate::report::Analysissetting;
use crate::model::{setting_ok, Setting};
use crate::neural::{circuit_step, hist_ok, model_ok, on_off_signals, osc_signal, step_model, y_on_off, y_osc, StateModel, StepState};
use crate::params::{gene_const_ok, gene_ok, gene_view_of, Gene, GeneView, GENE_COUNT};
use crate::rng::Rng64;
use crate::timing::time_new;
use crate::fixed::{
    fadd, fdiv, fmul, fsqrt, fsub, fx_add, fx_div, fx_mul, fx_ok, fx_sqrt, fx_sub, tdiv, LIM, ONE,
};
use crate::model::{const_ok, Const};
use crate::timing::{time_ok, Time};
use crate::trig::{atan2_deg, fx_atan2_deg};
use vstd::prelude::*;

verus! {

/// Every trajectory point lies in the band.
pub open spec fn traj_ok(r: Seq<(i64, i64)>) -> bool {
    forall|i: int|
        0 <= i < r.len() ==> fx_ok((#[trigger] r[i]).0) && fx_ok(r[i].1)
}

/// Every present value of an optional sequence lies in the band.
pub open spec fn opts_ok(s: Seq<Option<i64>>) -> bool {
    forall|i: int| 0 <= i < s.len() ==> ((#[trigger] s[i]) is Some ==> fx_ok(s[i]->Some_0))
}

/// The displacement of the trajectory over `span` steps from step `i`.
pub open spec fn disp(r: Seq<(i64, i64)>, span: int, i: int) -> (int, int) {
    (fsub(r[i + span].0, r[i].0), fsub(r[i + span].1, r[i].1))
}

/// The bearing at step `i`: the signed angle from the peak direction
/// to the displacement over one analysis span, in millionth degrees;
/// none when the displacement vanishes.
pub open spec fn bearing_of(c: Const, r: Seq<(i64, i64)>, span: int, i: int) -> Option<i64> {
    let d = disp(r, span, i);
    let dot = fadd(fmul(c.x_peak, d.0 as i64) as i64, fmul(c.y_peak, d.1 as i64) as i64);
    let cross = fsub(fmul(c.x_peak, d.1 as i64) as i64, fmul(c.y_peak, d.0 as i64) as i64);
    if dot == 0 && cross == 0 {
        None
    } else {
        Some((-atan2_deg(cross as i64, dot as i64)) as i64)
    }
}

/// The bearing signal of a whole trajectory.
pub open spec fn bearing_seq(c: Const, r: Seq<(i64, i64)>, span: int, len: int) -> Seq<
    Option<i64>,
> {
    Seq::new(len as nat, |i: int| bearing_of(c, r, span, i))
}

/// The signed angle between one displacement and the next, divided by
/// the two displacement lengths: the turning bias at step `i`; none
/// when either displacement vanishes.
pub open spec fn curving_of(r: Seq<(i64, i64)>, span: int, i: int) -> Option<i64> {
    let v1 = disp(r, span, i);
    let v2 = disp(r, span, i + span);
    let dot = fadd(fmul(v1.0 as i64, v2.0 as i64) as i64, fmul(v1.1 as i64, v2.1 as i64) as i64);
    let cross = fsub(fmul(v1.0 as i64, v2.1 as i64) as i64, fmul(v1.1 as i64, v2.0 as i64) as i64);
    let m1 = fsqrt(fadd(fmul(v1.0 as i64, v1.0 as i64) as i64, fmul(v1.1 as i64, v1.1 as i64) as i64) as i64);
    let m2 = fsqrt(fadd(fmul(v2.0 as i64, v2.0 as i64) as i64, fmul(v2.1 as i64, v2.1 as i64) as i64) as i64);
    let dist = fadd(m1 as i64, m2 as i64);
    if (dot == 0 && cross == 0) || dist == 0 {
        None
    } else {
        Some(fdiv(atan2_deg(cross as i64, dot as i64) as i64, dist as i64) as i64)
    }
}

/// The turning-bias signal of a whole trajectory.
pub open spec fn curving_seq(r: Seq<(i64, i64)>, span: int, len: int) -> Seq<Option<i64>> {
    Seq::new(len as nat, |i: int| curving_of(r, span, i))
}

/// The concentration change per unit length at step `i`, along either
/// the displacement itself or its normal; none when the displacement
/// vanishes.
pub open spec fn gradient_of(
    mode: FieldMode,
    c: Const,
    r: Seq<(i64, i64)>,
    span: int,
    delta: i64,
    normal: bool,
    i: int,
) -> Option<i64> {
    let d = disp(r, span, i);
    let v = if normal {
        ((-d.1) as i64, d.0 as i64)
    } else {
        (d.0 as i64, d.1 as i64)
    };
    let mag = fsqrt(fadd(fmul(v.0, v.0) as i64, fmul(v.1, v.1) as i64) as i64);
    if mag == 0 {
        None
    } else {
        let ux = fmul(fdiv(v.0, mag as i64) as i64, delta) as i64;
        let uy = fmul(fdiv(v.1, mag as i64) as i64, delta) as i64;
        let x = r[i].0;
        let y = r[i].1;
        let far = field_at(mode, c, fadd(x, ux) as i64, fadd(y, uy) as i64) as i64;
        let near = field_at(mode, c, x, y) as i64;
        Some(fdiv(fsub(far, near) as i64, delta) as i64)
    }
}

/// The gradient signal of a whole trajectory.
pub open spec fn gradient_seq(
    mode: FieldMode,
    c: Const,
    r: Seq<(i64, i64)>,
    span: int,
    delta: i64,
    normal: bool,
    len: int,
) -> Seq<Option<i64>> {
    Seq::new(len as nat, |i: int| gradient_of(mode, c, r, span, delta, normal, i))
}

/// The bearing at one step, computed.
fn bearing_at(constant: &Const, r_vec: &Vec<(i64, i64)>, span: usize, i: usize) -> (b: Option<
    i64,
>)
    requires
        const_ok(*constant),
        traj_ok(r_vec@),
        i + span < r_vec@.len(),
    ensures
        b == bearing_of(*constant, r_vec@, span as int, i as int),
        b is Some ==> fx_ok(b->Some_0),
{
    let n = r_vec.len();
    let (x0, y0) = r_vec[i];
    let (x1, y1) = r_vec[i + span];
    let dx = fx_sub(x1, x0);
    let dy = fx_sub(y1, y0);
    let dot = fx_add(fx_mul(constant.x_peak, dx), fx_mul(constant.y_peak, dy));
    let cross = fx_sub(fx_mul(constant.x_peak, dy), fx_mul(constant.y_peak, dx));
    match fx_atan2_deg(cross, dot) {
        Some(a) => Some(-a),
        None => None,
    }
}

/// The bearing signal: the signed angle from the peak direction to
/// each displacement of the trajectory over one analysis span.
pub fn bearing(r_vec: &Vec<(i64, i64)>, constant: &Const, time: &Time, periodic_number: &usize) -> (
    out: Vec<Option<i64>>)
    requires
        const_ok(*constant),
        traj_ok(r_vec@),
        r_vec@.len() == time.simulation_time,
        time_ok(*time),
        2 * (*periodic_number as int) * time.periodic_time < time.simulation_time,
    ensures
        out@.len() == time.simulation_time - 2 * (*periodic_number as int) * time.periodic_time,
        out@ == bearing_seq(
            *constant,
            r_vec@,
            (*periodic_number as int) * time.periodic_time,
            out@.len() as int,
        ),
        opts_ok(out@),
{
    proof {
        assert(2 * ((*periodic_number as int) * time.periodic_time) == 2 * (
        *periodic_number as int) * time.periodic_time) by (nonlinear_arith);
    }
    let span: usize = (*periodic_number) * (time.periodic_time as usize);
    let len: usize = r_vec.len() - 2 * span;
    let mut out: Vec<Option<i64>> = Vec::new();
    let mut i: usize = 0;
    while i < len
        invariant
            0 <= i <= len,
            const_ok(*constant),
            traj_ok(r_vec@),
            span == (*periodic_number as int) * time.periodic_time,
            len + 2 * span == r_vec@.len(),
            out@.len() == i,
            forall|q: int| 0 <= q < i ==> (#[trigger] out@[q]) == bearing_of(
                *constant,
                r_vec@,
                span as int,
                q,
            ),
            opts_ok(out@),
        decreases len - i,
    {
        let b = bearing_at(constant, r_vec, span, i);
        out.push(b);
        i = i + 1;
    }
    proof {
        assert(out@ =~= bearing_seq(*constant, r_vec@, span as int, len as int));
    }
    out
}

/// The turning-bias signal: the signed angle between each displacement
/// and the next, per unit of path length.
pub fn curving_rate_bear(r_vec: &Vec<(i64, i64)>, time: &Time, periodic_number: &usize) -> (out:
    Vec<Option<i64>>)
    requires
        traj_ok(r_vec@),
        r_vec@.len() == time.simulation_time,
        time_ok(*time),
        2 * (*periodic_number as int) * time.periodic_time < time.simulation_time,
    ensures
        out@.len() == time.simulation_time - 2 * (*periodic_number as int) * time.periodic_time,
        out@ == curving_seq(r_vec@, (*periodic_number as int) * time.periodic_time, out@.len() as int),
        opts_ok(out@),
{
    proof {
        assert(2 * ((*periodic_number as int) * time.periodic_time) == 2 * (
        *periodic_number as int) * time.periodic_time) by (nonlinear_arith);
    }
    let span: usize = (*periodic_number) * (time.periodic_time as usize);
    let len: usize = r_vec.len() - 2 * span;
    let mut out: Vec<Option<i64>> = Vec::new();
    let mut i: usize = 0;
    while i < len
        invariant
            0 <= i <= len,
            traj_ok(r_vec@),
            len + 2 * span == r_vec@.len(),
            r_vec@.len() <= usize::MAX,
            out@.len() == i,
            forall|q: int| 0 <= q < i ==> (#[trigger] out@[q]) == curving_of(
                r_vec@,
                span as int,
                q,
            ),
            opts_ok(out@),
        decreases len - i,
    {
        let (ax0, ay0) = r_vec[i];
        let (ax1, ay1) = r_vec[i + span];
        let (bx1, by1) = r_vec[i + 2 * span];
        let v1x = fx_sub(ax1, ax0);
        let v1y = fx_sub(ay1, ay0);
        let v2x = fx_sub(bx1, ax1);
        let v2y = fx_sub(by1, ay1);
        let dot = fx_add(fx_mul(v1x, v2x), fx_mul(v1y, v2y));
        let cross = fx_sub(fx_mul(v1x, v2y), fx_mul(v1y, v2x));
        proof {
            crate::env::lemma_square_nonneg(v1x);
            crate::env::lemma_square_nonneg(v1y);
            crate::env::lemma_square_nonneg(v2x);
            crate::env::lemma_square_nonneg(v2y);
        }
        let m1 = fx_sqrt(fx_add(fx_mul(v1x, v1x), fx_mul(v1y, v1y)));
        let m2 = fx_sqrt(fx_add(fx_mul(v2x, v2x), fx_mul(v2y, v2y)));
        let dist = fx_add(m1, m2);
        let entry: Option<i64> = match fx_atan2_deg(cross, dot) {
            Some(a) => {
                if dist == 0 {
                    None
                } else {
                    Some(fx_div(a, dist))
                }
            },
            None => None,
        };
        out.push(entry);
        i = i + 1;
    }
    proof {
        assert(out@ =~= curving_seq(r_vec@, span as int, len as int));
    }
    out
}

/// One gradient sample, computed.
fn gradient_at(
    mode: FieldMode,
    constant: &Const,
    r_vec: &Vec<(i64, i64)>,
    span: usize,
    delta: i64,
    normal: bool,
    i: usize,
) -> (g: Option<i64>)
    requires
        const_ok(*constant),
        traj_ok(r_vec@),
        i + span < r_vec@.len(),
        1 <= delta,
        fx_ok(delta),
    ensures
        g == gradient_of(mode, *constant, r_vec@, span as int, delta, normal, i as int),
        g is Some ==> fx_ok(g->Some_0),
{
    let n = r_vec.len();
    let (x0, y0) = r_vec[i];
    let (x1, y1) = r_vec[i + span];
    let dx = fx_sub(x1, x0);
    let dy = fx_sub(y1, y0);
    let (vx, vy) = if normal {
        (-dy, dx)
    } else {
        (dx, dy)
    };
    proof {
        crate::env::lemma_square_nonneg(vx);
        crate::env::lemma_square_nonneg(vy);
    }
    let mag = fx_sqrt(fx_add(fx_mul(vx, vx), fx_mul(vy, vy)));
    if mag == 0 {
        None
    } else {
        let ux = fx_mul(fx_div(vx, mag), delta);
        let uy = fx_mul(fx_div(vy, mag), delta);
        let far = concentration_at(mode, constant, fx_add(x0, ux), fx_add(y0, uy));
        let near = concentration_at(mode, constant, x0, y0);
        Some(fx_div(fx_sub(far, near), delta))
    }
}

/// The normal-gradient signal: the concentration change per unit
/// length, measured square across each displacement.
pub fn normal_gradient(
    r_vec: &Vec<(i64, i64)>,
    constant: &Const,
    time: &Time,
    periodic_number: &usize,
    delta: i64,
    mode: FieldMode,
) -> (out: Vec<Option<i64>>)
    requires
        const_ok(*constant),
        traj_ok(r_vec@),
        r_vec@.len() == time.simulation_time,
        time_ok(*time),
        2 * (*periodic_number as int) * time.periodic_time < time.simulation_time,
        1 <= delta,
        fx_ok(delta),
    ensures
        out@.len() == time.simulation_time - 2 * (*periodic_number as int) * time.periodic_time,
        out@ == gradient_seq(
            mode,
            *constant,
            r_vec@,
            (*periodic_number as int) * time.periodic_time,
            delta,
            true,
            out@.len() as int,
        ),
        opts_ok(out@),
{
    proof {
        assert(2 * ((*periodic_number as int) * time.periodic_time) == 2 * (
        *periodic_number as int) * time.periodic_time) by (nonlinear_arith);
    }
    let span: usize = (*periodic_number) * (time.periodic_time as usize);
    let len: usize = r_vec.len() - 2 * span;
    let mut out: Vec<Option<i64>> = Vec::new();
    let mut i: usize = 0;
    while i < len
        invariant
            0 <= i <= len,
            const_ok(*constant),
            traj_ok(r_vec@),
            len + 2 * span == r_vec@.len(),
            1 <= delta,
            fx_ok(delta),
            out@.len() == i,
            forall|q: int| 0 <= q < i ==> (#[trigger] out@[q]) == gradient_of(
                mode,
                *constant,
                r_vec@,
                span as int,
                delta,
                true,
                q,
            ),
            opts_ok(out@),
        decreases len - i,
    {
        let g = gradient_at(mode, constant, r_vec, span, delta, true, i);
        out.push(g);
        i = i + 1;
    }
    proof {
        assert(out@ =~= gradient_seq(mode, *constant, r_vec@, span as int, delta, true, len as int));
    }
    out
}

/// The translational-gradient signal: the concentration change per
/// unit length, measured along each displacement.
pub fn translational_gradient(
    r_vec: &Vec<(i64, i64)>,
    constant: &Const,
    time: &Time,
    periodic_number: &usize,
    delta: i64,
    mode: FieldMode,
) -> (out: Vec<Option<i64>>)
    requires
        const_ok(*constant),
        traj_ok(r_vec@),
        r_vec@.len() == time.simulation_time,
        time_ok(*time),
        2 * (*periodic_number as int) * time.periodic_time < time.simulation_time,
        1 <= delta,
        fx_ok(delta),
    ensures
        out@.len() == time.simulation_time - 2 * (*periodic_number as int) * time.periodic_time,
        out@ == gradient_seq(
            mode,
            *constant,
            r_vec@,
            (*periodic_number as int) * time.periodic_time,
            delta,
            false,
            out@.len() as int,
        ),
        opts_ok(out@),
{
    proof {
        assert(2 * ((*periodic_number as int) * time.periodic_time) == 2 * (
        *periodic_number as int) * time.periodic_time) by (nonlinear_arith);
    }
    let span: usize = (*periodic_number) * (time.periodic_time as usize);
    let len: usize = r_vec.len() - 2 * span;
    let mut out: Vec<Option<i64>> = Vec::new();
    let mut i: usize = 0;
    while i < len
        invariant
            0 <= i <= len,
            const_ok(*constant),
            traj_ok(r_vec@),
            len + 2 * span == r_vec@.len(),
            1 <= delta,
            fx_ok(delta),
            out@.len() == i,
            forall|q: int| 0 <= q < i ==> (#[trigger] out@[q]) == gradient_of(
                mode,
                *constant,
                r_vec@,
                span as int,
                delta,
                false,
                q,
            ),
            opts_ok(out@),
        decreases len - i,
    {
        let g = gradient_at(mode, constant, r_vec, span, delta, false, i);
        out.push(g);
        i = i + 1;
    }
    proof {
        assert(out@ =~= gradient_seq(
            mode,
            *constant,
            r_vec@,
            span as int,
            delta,
            false,
            len as int,
        ));
    }
    out
}


/// The sum and count of the present turning-bias entries over the
/// first `j` samples whose paired signal value is present and lies
/// strictly inside `(lo, hi)`; missing entries are skipped, as every
/// average over measurements is.
pub open spec fn bin_fold(
    xs: Seq<Option<i64>>,
    ys: Seq<Option<i64>>,
    lo: int,
    hi: int,
    sign: int,
    j: nat,
) -> (int, int)
    decreases j,
{
    if j == 0 {
        (0, 0)
    } else {
        let p = bin_fold(xs, ys, lo, hi, sign, (j - 1) as nat);
        if xs[j - 1] is Some && lo < xs[j - 1]->Some_0 < hi && ys[j - 1] is Some && (sign == 0 || (
        sign > 0 && ys[j - 1]->Some_0 > 0) || (sign < 0 && ys[j - 1]->Some_0 < 0)) {
            (fadd(p.0 as i64, ys[j - 1]->Some_0), p.1 + 1)
        } else {
            p
        }
    }
}

/// The mean of one bin; none when the bin is empty.
pub open spec fn bin_mean(
    xs: Seq<Option<i64>>,
    ys: Seq<Option<i64>>,
    lo: int,
    hi: int,
    sign: int,
) -> Option<i64> {
    let f = bin_fold(xs, ys, lo, hi, sign, xs.len());
    if f.1 == 0 {
        None
    } else {
        Some(tdiv(f.0, f.1) as i64)
    }
}

/// The mean of one bin, computed.
fn bin_mean_at(
    xs: &Vec<Option<i64>>,
    ys: &Vec<Option<i64>>,
    lo: i64,
    hi: i64,
    sign: i64,
) -> (r: Option<i64>)
    requires
        xs@.len() == ys@.len() <= 10_000_000,
        opts_ok(ys@),
    ensures
        r == bin_mean(xs@, ys@, lo as int, hi as int, sign as int),
        r is Some ==> fx_ok(r->Some_0),
{
    let mut sum: i64 = 0;
    let mut count: usize = 0;
    let mut j: usize = 0;
    let len = xs.len();
    while j < len
        invariant
            0 <= j <= len,
            len == xs@.len() == ys@.len() <= 10_000_000,
            opts_ok(ys@),
            sum == bin_fold(xs@, ys@, lo as int, hi as int, sign as int, j as nat).0,
            count == bin_fold(xs@, ys@, lo as int, hi as int, sign as int, j as nat).1,
            -LIM <= sum <= LIM,
            count <= j,
        decreases len - j,
    {
        let keep: bool = match (&xs[j], &ys[j]) {
            (Some(x), Some(y)) => lo < *x && *x < hi && (sign == 0 || (sign > 0 && *y > 0) || (
            sign < 0 && *y < 0)),
            _ => false,
        };
        if keep {
            let y = match &ys[j] {
                Some(y) => *y,
                None => vstd::pervasive::unreached(),
            };
            sum = fx_add(sum, y);
            count = count + 1;
        }
        j = j + 1;
    }
    if count == 0 {
        None
    } else {
        proof {
            crate::trig::lemma_tdiv_abs_bound(sum as int, count as int, LIM as int);
        }
        Some(sum / (count as i64))
    }
}

/// How many bins of a given width cover one whole turn.
pub open spec fn bin_count(range: int) -> int {
    (360 + range - 1) / range
}

/// The bearing histogram: the skip-sentinel mean turning bias in each
/// bearing bin of the configured width, over one whole turn.
pub fn histgram_count_bearing(
    bearing: &Vec<Option<i64>>,
    curving_rate: &Vec<Option<i64>>,
    bin_range: usize,
) -> (out: Vec<Option<i64>>)
    requires
        bearing@.len() == curving_rate@.len() <= 10_000_000,
        opts_ok(curving_rate@),
        1 <= bin_range <= 360,
    ensures
        out@.len() == bin_count(bin_range as int),
        out@.len() * bin_range >= 360,
        (out@.len() - 1) * bin_range < 360,
        forall|b: int|
            0 <= b < out@.len() ==> (#[trigger] out@[b]) == bin_mean(
                bearing@,
                curving_rate@,
                (-180 + b * bin_range) * (ONE as int),
                (-180 + (b + 1) * bin_range) * (ONE as int),
                0,
            ),
        opts_ok(out@),
{
    let mut out: Vec<Option<i64>> = Vec::new();
    let mut deg: i64 = -180;
    while deg < 180
        invariant
            bearing@.len() == curving_rate@.len() <= 10_000_000,
            opts_ok(curving_rate@),
            1 <= bin_range <= 360,
            -180 <= deg <= 180 + 360,
            deg == -180 + out@.len() * bin_range,
            out@.len() == 0 || deg <= 179 + bin_range,
            forall|b: int|
                0 <= b < out@.len() ==> (#[trigger] out@[b]) == bin_mean(
                    bearing@,
                    curving_rate@,
                    (-180 + b * bin_range) * (ONE as int),
                    (-180 + (b + 1) * bin_range) * (ONE as int),
                    0,
                ),
            opts_ok(out@),
        decreases 180 + 360 - deg,
    {
        let lo: i64 = deg * ONE;
        let hi: i64 = (deg + bin_range as i64) * ONE;
        let m = bin_mean_at(bearing, curving_rate, lo, hi, 0);
        out.push(m);
        deg = deg + bin_range as i64;
        proof {
            assert((out@.len() - 1) * bin_range + bin_range == out@.len() * bin_range)
                by (nonlinear_arith);
        }
    }
    proof {
        if out@.len() == 0 {
            assert(out@.len() * bin_range == 0) by (nonlinear_arith)
                requires
                    out@.len() == 0,
            ;
        }
        assert((out@.len() - 1) * bin_range < 360) by (nonlinear_arith)
            requires
                out@.len() >= 1,
                deg == -180 + out@.len() * bin_range,
                deg <= 179 + bin_range,
                bin_range >= 1,
        ;
        assert(out@.len() == (360 + bin_range - 1) / (bin_range as int)) by (nonlinear_arith)
            requires
                out@.len() >= 1,
                out@.len() * bin_range >= 360,
                (out@.len() - 1) * bin_range < 360,
                1 <= bin_range <= 360,
        ;
    }
    out
}

/// The truncated quotient scaled back by the divisor never exceeds
/// the dividend.
proof fn lemma_tdiv_mul_le(a: int, d: int)
    requires
        a >= 0,
        d > 0,
    ensures
        tdiv(a, d) * d <= a,
{
    assert((a / d) * d <= a) by (nonlinear_arith)
        requires
            a >= 0,
            d > 0,
    ;
}

/// The lower edge of gradient bin `b`.
pub open spec fn grad_bin_lo(grad_max: i64, step: int, b: int) -> int {
    -grad_max + b * step
}

/// One gradient histogram: the skip-sentinel mean turning bias in each
/// of `bin_number` equal bins spanning the configured gradient range;
/// `sign` selects all, only positive, or only negative turning biases.
fn histgram_gradient_core(
    gradient: &Vec<Option<i64>>,
    curving_rate: &Vec<Option<i64>>,
    bin_number: usize,
    concentration_gradient_max: i64,
    sign: i64,
) -> (out: Vec<Option<i64>>)
    requires
        gradient@.len() == curving_rate@.len() <= 10_000_000,
        opts_ok(curving_rate@),
        1 <= bin_number <= 1_000_000,
        0 <= concentration_gradient_max,
        fx_ok(concentration_gradient_max),
    ensures
        out@.len() == bin_number,
        forall|b: int|
            0 <= b < bin_number ==> (#[trigger] out@[b]) == bin_mean(
                gradient@,
                curving_rate@,
                grad_bin_lo(
                    concentration_gradient_max,
                    tdiv(2 * concentration_gradient_max, bin_number as int),
                    b,
                ),
                grad_bin_lo(
                    concentration_gradient_max,
                    tdiv(2 * concentration_gradient_max, bin_number as int),
                    b + 1,
                ),
                sign as int,
            ),
        opts_ok(out@),
{
    let gm = concentration_gradient_max;
    proof {
        assert((2 * gm) as int <= (2 * gm) as int * (bin_number as int)) by (nonlinear_arith)
            requires
                bin_number >= 1,
                gm >= 0,
        ;
        crate::trig::lemma_tdiv_pos_bound((2 * gm) as int, bin_number as int, (2 * gm) as int);
    }
    let step: i64 = (2 * gm) / (bin_number as i64);
    proof {
        lemma_tdiv_mul_le((2 * gm) as int, bin_number as int);
    }
    let mut out: Vec<Option<i64>> = Vec::new();
    let mut b: usize = 0;
    while b < bin_number
        invariant
            0 <= b <= bin_number <= 1_000_000,
            gradient@.len() == curving_rate@.len() <= 10_000_000,
            opts_ok(curving_rate@),
            0 <= gm,
            fx_ok(gm),
            0 <= step <= 2 * gm,
            step == tdiv(2 * gm, bin_number as int),
            step * (bin_number as int) <= 2 * gm,
            out@.len() == b,
            forall|q: int|
                0 <= q < b ==> (#[trigger] out@[q]) == bin_mean(
                    gradient@,
                    curving_rate@,
                    grad_bin_lo(gm, step as int, q),
                    grad_bin_lo(gm, step as int, q + 1),
                    sign as int,
                ),
            opts_ok(out@),
        decreases bin_number - b,
    {
        proof {
            assert(0 <= (b as int) * step <= (bin_number as int) * step && 0 <= ((b + 1) as int)
                * step <= (bin_number as int) * step + step) by (nonlinear_arith)
                requires
                    0 <= b < bin_number,
                    0 <= step,
            ;
            assert((bin_number as int) * step == step * (bin_number as int)) by (nonlinear_arith);
        }
        let lo: i64 = ((-gm) as i128 + (b as i128) * (step as i128)) as i64;
        let hi: i64 = ((-gm) as i128 + ((b + 1) as i128) * (step as i128)) as i64;
        proof {
            assert(lo as int == grad_bin_lo(gm, step as int, b as int));
            assert(hi as int == grad_bin_lo(gm, step as int, b as int + 1));
        }
        let m = bin_mean_at(gradient, curving_rate, lo, hi, sign);
        out.push(m);
        b = b + 1;
    }
    out
}

/// The normal-gradient histogram: the skip-sentinel mean turning bias
/// per gradient bin.
pub fn histgram_count_normal_gradient(
    nomal_gradient: &Vec<Option<i64>>,
    curving_rate: &Vec<Option<i64>>,
    bin_number: usize,
    concentration_gradient_max: i64,
) -> (out: Vec<Option<i64>>)
    requires
        nomal_gradient@.len() == curving_rate@.len() <= 10_000_000,
        opts_ok(curving_rate@),
        1 <= bin_number <= 1_000_000,
        0 <= concentration_gradient_max,
        fx_ok(concentration_gradient_max),
    ensures
        out@.len() == bin_number,
        forall|b: int|
            0 <= b < bin_number ==> (#[trigger] out@[b]) == bin_mean(
                nomal_gradient@,
                curving_rate@,
                grad_bin_lo(
                    concentration_gradient_max,
                    tdiv(2 * concentration_gradient_max, bin_number as int),
                    b,
                ),
                grad_bin_lo(
                    concentration_gradient_max,
                    tdiv(2 * concentration_gradient_max, bin_number as int),
                    b + 1,
                ),
                0,
            ),
        opts_ok(out@),
{
    histgram_gradient_core(nomal_gradient, curving_rate, bin_number, concentration_gradient_max, 0)
}

/// The translational-gradient histograms: the skip-sentinel mean
/// turning bias per gradient bin, over all biases, only the positive
/// ones, and only the negative ones.
pub fn histgram_count_translational_gradient(
    translational_gradient: &Vec<Option<i64>>,
    curving_rate: &Vec<Option<i64>>,
    bin_number: usize,
    concentration_gradient_max: i64,
) -> (out: (Vec<Option<i64>>, Vec<Option<i64>>, Vec<Option<i64>>))
    requires
        translational_gradient@.len() == curving_rate@.len() <= 10_000_000,
        opts_ok(curving_rate@),
        1 <= bin_number <= 1_000_000,
        0 <= concentration_gradient_max,
        fx_ok(concentration_gradient_max),
    ensures
        out.0@.len() == bin_number,
        out.1@.len() == bin_number,
        out.2@.len() == bin_number,
        forall|b: int|
            0 <= b < bin_number ==> (#[trigger] out.0@[b]) == bin_mean(
                translational_gradient@,
                curving_rate@,
                grad_bin_lo(
                    concentration_gradient_max,
                    tdiv(2 * concentration_gradient_max, bin_number as int),
                    b,
                ),
                grad_bin_lo(
                    concentration_gradient_max,
                    tdiv(2 * concentration_gradient_max, bin_number as int),
                    b + 1,
                ),
                0,
            ),
        forall|b: int|
            0 <= b < bin_number ==> (#[trigger] out.1@[b]) == bin_mean(
                translational_gradient@,
                curving_rate@,
                grad_bin_lo(
                    concentration_gradient_max,
                    tdiv(2 * concentration_gradient_max, bin_number as int),
                    b,
                ),
                grad_bin_lo(
                    concentration_gradient_max,
                    tdiv(2 * concentration_gradient_max, bin_number as int),
                    b + 1,
                ),
                1,
            ),
        forall|b: int|
            0 <= b < bin_number ==> (#[trigger] out.2@[b]) == bin_mean(
                translational_gradient@,
                curving_rate@,
                grad_bin_lo(
                    concentration_gradient_max,
                    tdiv(2 * concentration_gradient_max, bin_number as int),
                    b,
                ),
                grad_bin_lo(
                    concentration_gradient_max,
                    tdiv(2 * concentration_gradient_max, bin_number as int),
                    b + 1,
                ),
                -1,
            ),
        opts_ok(out.0@),
        opts_ok(out.1@),
        opts_ok(out.2@),
{
    let all = histgram_gradient_core(
        translational_gradient,
        curving_rate,
        bin_number,
        concentration_gradient_max,
        0,
    );
    let pos = histgram_gradient_core(
        translational_gradient,
        curving_rate,
        bin_number,
        concentration_gradient_max,
        1,
    );
    let neg = histgram_gradient_core(
        translational_gradient,
        curving_rate,
        bin_number,
        concentration_gradient_max,
        -1,
    );
    (all, pos, neg)
}


/// Which signal stands on the horizontal axis of the analysis.
#[derive(Clone, Copy, Debug, PartialEq, Eq, Structural)]
pub enum AnalysisFunction {
    Bearing,
    NormalGradient,
    TranslationalGradient,
}

impl AnalysisFunction {
    /// Decode the configuration tag; any tag beyond the three
    /// functions is a configuration error, fatal at load time.
    pub fn from_tag(tag: u64) -> (r: Result<AnalysisFunction, crate::params::ConfigError>)
        ensures
            r == if tag == 0 {
                Ok::<AnalysisFunction, crate::params::ConfigError>(AnalysisFunction::Bearing)
            } else if tag == 1 {
                Ok::<AnalysisFunction, crate::params::ConfigError>(
                    AnalysisFunction::NormalGradient,
                )
            } else if tag == 2 {
                Ok::<AnalysisFunction, crate::params::ConfigError>(
                    AnalysisFunction::TranslationalGradient,
                )
            } else {
                Err::<AnalysisFunction, crate::params::ConfigError>(
                    crate::params::ConfigError::FieldMode,
                )
            },
    {
        if tag == 0 {
            Ok(AnalysisFunction::Bearing)
        } else if tag == 1 {
            Ok(AnalysisFunction::NormalGradient)
        } else if tag == 2 {
            Ok(AnalysisFunction::TranslationalGradient)
        } else {
            Err(crate::params::ConfigError::FieldMode)
        }
    }
}

/// One trajectory run's whole evolving state: circuit state, sensory
/// history, and the recorded positions and headings.
pub ghost struct RunT {
    pub m: StateModel,
    pub hist: Seq<i64>,
    pub traj: Seq<(i64, i64)>,
    pub mus: Seq<i64>,
}

/// One trajectory step at step index `k` under the chosen field shape:
/// as one fitness step, recording the new position and heading.
pub open spec fn step_t(
    mode: FieldMode,
    c: Const,
    gv: GeneView,
    t: crate::timing::Time,
    r: RunT,
    k: nat,
) -> RunT {
    let conc = field_at(mode, c, r.m.px, r.m.py) as i64;
    let h2 = if r.hist.len() > 0 {
        r.hist.drop_first().push(conc)
    } else {
        r.hist
    };
    let sig = on_off_signals(h2, t.n_time as int, t.m_time as int);
    let osc = osc_signal(c, crate::fixed::elapsed(k, c.dt) as i64) as i64;
    let s2 = step_model(c, gv, r.m, sig.0 as i64, sig.1 as i64, osc);
    RunT { m: s2, hist: h2, traj: r.traj.push((s2.px, s2.py)), mus: r.mus.push(s2.mu) }
}

/// The trajectory run state after `k` steps.
pub open spec fn run_t(
    mode: FieldMode,
    c: Const,
    gv: GeneView,
    t: crate::timing::Time,
    r0: RunT,
    k: nat,
) -> RunT
    decreases k,
{
    if k == 0 {
        r0
    } else {
        step_t(mode, c, gv, t, run_t(mode, c, gv, t, r0, (k - 1) as nat), (k - 1) as nat)
    }
}

/// The full trajectory a genotype, configuration, field shape and seed
/// produce: the origin followed by one position per step.
pub open spec fn klin_run(mode: FieldMode, g: Seq<i64>, s: Setting, seed: u64) -> RunT {
    let c = const_of(s, seed);
    let seed1 = seed_after_alpha(s, seed);
    let gv = gene_view_of(g);
    let t = time_of(c, gv);
    let r0 = RunT {
        m: init_model(seed1),
        hist: Seq::new(
            (t.n_time + t.m_time) as nat,
            |i: int| field_at(mode, c, 0, 0) as i64,
        ),
        traj: seq![(0i64, 0i64)],
        mus: seq![0i64],
    };
    run_t(mode, c, gv, t, r0, (t.simulation_time - 1) as nat)
}

/// Run one seeded simulation and record its whole trajectory: the
/// positions and headings, one entry per step after the origin.
pub fn klinotaxis_run(gene: &Gene, setting: &Setting, mode: FieldMode, rng: &mut Rng64) -> (out: (
    Vec<(i64, i64)>,
    Vec<i64>,
))
    requires
        gene_ok(gene.gene@),
        gene.gene@.len() == GENE_COUNT,
        setting_ok(*setting),
    ensures
        out.0@ == klin_run(mode, gene.gene@, *setting, old(rng).state).traj,
        out.1@ == klin_run(mode, gene.gene@, *setting, old(rng).state).mus,
        out.0@.len() == out.1@.len(),
        out.0@.len() == time_of(
            const_of(*setting, old(rng).state),
            gene_view_of(gene.gene@),
        ).simulation_time,
        traj_ok(out.0@),
        final(rng).state == seed_after_ci(*setting, old(rng).state),
{
    let ghost seed0 = rng.state;
    let constant = setting.const_new(rng);
    let weight = match gene.scaling() {
        Ok(w) => w,
        Err(_) => {
            proof {
                assert(false);
            }
            vstd::pervasive::unreached()
        },
    };
    let time = time_new(&weight, &constant);
    proof {
        assert(time == time_of(const_of(*setting, seed0), gene_view_of(gene.gene@)));
    }

    let hist_len = (time.n_time + time.m_time) as usize;
    let origin_conc = concentration_at(mode, &constant, 0, 0);
    let mut c_vec: Vec<i64> = vec![origin_conc; hist_len];

    let mut state = init_state(rng);
    let mut traj: Vec<(i64, i64)> = Vec::new();
    traj.push((0, 0));
    let mut mus: Vec<i64> = Vec::new();
    mus.push(0);
    let ghost c = constant;
    let ghost gv = gene_view_of(gene.gene@);
    let ghost r0 = RunT { m: state@, hist: c_vec@, traj: traj@, mus: mus@ };
    proof {
        assert(r0.hist =~= Seq::new(
            (time.n_time + time.m_time) as nat,
            |i: int| field_at(mode, c, 0, 0) as i64,
        ));
        assert(r0.traj =~= seq![(0i64, 0i64)]);
        assert(r0.mus =~= seq![0i64]);
    }

    let steps = time.simulation_time - 1;
    let mut k: u64 = 0;
    while k < steps
        invariant
            0 <= k <= steps,
            steps == time.simulation_time - 1,
            const_ok(c),
            constant == c,
            gene_const_ok(weight),
            weight@ == gv,
            crate::timing::time_ok(time),
            model_ok(state@),
            hist_ok(c_vec@),
            c_vec@.len() == time.n_time + time.m_time,
            traj_ok(traj@),
            traj@.len() == k + 1,
            mus@.len() == k + 1,
            state@ == run_t(mode, c, gv, time, r0, k as nat).m,
            c_vec@ == run_t(mode, c, gv, time, r0, k as nat).hist,
            traj@ == run_t(mode, c, gv, time, r0, k as nat).traj,
            mus@ == run_t(mode, c, gv, time, r0, k as nat).mus,
        decreases steps - k,
    {
        let conc = concentration_at(mode, &constant, state.px, state.py);
        crate::fitness::shift_hist(&mut c_vec, conc);
        let sig = y_on_off(&time, &c_vec);
        let t_now = crate::fixed::fx_elapsed(k, constant.dt);
        let osc = y_osc(&constant, t_now);
        state = circuit_step(&constant, &weight, &state, sig.0, sig.1, osc);
        traj.push((state.px, state.py));
        mus.push(state.mu);
        k = k + 1;
        proof {
            assert(run_t(mode, c, gv, time, r0, k as nat) == step_t(
                mode,
                c,
                gv,
                time,
                run_t(mode, c, gv, time, r0, (k - 1) as nat),
                (k - 1) as nat,
            ));
        }
    }
    (traj, mus)
}

/// The horizontal-axis signal the analysis derives from a trajectory.
pub open spec fn x_axis_seq(
    func: AnalysisFunction,
    mode: FieldMode,
    c: Const,
    traj: Seq<(i64, i64)>,
    span: int,
    delta: i64,
    len: int,
) -> Seq<Option<i64>> {
    match func {
        AnalysisFunction::Bearing => bearing_seq(c, traj, span, len),
        AnalysisFunction::NormalGradient => gradient_seq(mode, c, traj, span, delta, true, len),
        AnalysisFunction::TranslationalGradient => gradient_seq(
            mode,
            c,
            traj,
            span,
            delta,
            false,
            len,
        ),
    }
}

/// The step counts the analysis carves a run into, from the
/// configuration alone.
pub open spec fn analysis_spans(s: Setting, periodic_number: int, drain: int) -> (int, int, int) {
    let sim = tdiv(s.simulation_time as int, s.dt as int);
    let per = tdiv(s.periodic_time as int, s.dt as int);
    (sim, per * periodic_number, per * drain)
}

/// Whether the analysis windows fit into one run: the two displacement
/// spans and the drained prefix must leave at least one sample.
pub open spec fn analysis_fits(s: Setting, periodic_number: int, drain: int) -> bool {
    let v = analysis_spans(s, periodic_number, drain);
    &&& 1 <= periodic_number
    &&& 0 <= drain
    &&& 2 * v.1 + v.2 < v.0
}

/// One whole analysis run: simulate one trajectory under the chosen
/// field shape, derive the chosen horizontal signal and the turning
/// bias, and drop the configured warm-up prefix from both.  The two
/// returned signals have equal length and come from one single
/// trajectory, aligned index for index.
#[verifier::rlimit(100)]
pub fn klinotaxis_analysis(
    gene: &Gene,
    setting: &Setting,
    mode: FieldMode,
    periodic_number: usize,
    periodic_number_drain: usize,
    delta: i64,
    analysis_use_function: AnalysisFunction,
    rng: &mut Rng64,
) -> (out: (Vec<Option<i64>>, Vec<Option<i64>>))
    requires
        gene_ok(gene.gene@),
        gene.gene@.len() == GENE_COUNT,
        setting_ok(*setting),
        analysis_fits(*setting, periodic_number as int, periodic_number_drain as int),
        1 <= delta,
        fx_ok(delta),
    ensures
        out.0@.len() == out.1@.len(),
        ({
            let c = const_of(*setting, old(rng).state);
            let traj = klin_run(mode, gene.gene@, *setting, old(rng).state).traj;
            let v = analysis_spans(*setting, periodic_number as int, periodic_number_drain as int);
            let full = v.0 - 2 * v.1;
            &&& out.0@ == x_axis_seq(
                analysis_use_function,
                mode,
                c,
                traj,
                v.1,
                delta,
                full,
            ).subrange(v.2, full)
            &&& out.1@ == curving_seq(traj, v.1, full).subrange(v.2, full)
        }),
        opts_ok(out.0@),
        opts_ok(out.1@),
        final(rng).state == seed_after_ci(*setting, old(rng).state),
{
    let ghost seed0 = rng.state;
    let constant_probe = setting.const_new(&mut Rng64::new(rng.state));
    let (traj, _mus) = klinotaxis_run(gene, setting, mode, rng);
    let weight = match gene.scaling() {
        Ok(w) => w,
        Err(_) => {
            proof {
                assert(false);
            }
            vstd::pervasive::unreached()
        },
    };
    let time = time_new(&weight, &constant_probe);
    proof {
        assert(constant_probe == const_of(*setting, seed0));
        assert(time == time_of(const_of(*setting, seed0), gene_view_of(gene.gene@)));
        let v = analysis_spans(*setting, periodic_number as int, periodic_number_drain as int);
        assert(v.1 == time.periodic_time * (periodic_number as int));
        assert(v.2 == time.periodic_time * (periodic_number_drain as int));
        assert(time.periodic_time * (periodic_number as int) == (periodic_number as int)
            * time.periodic_time) by (nonlinear_arith);
        assert(time.periodic_time * (periodic_number_drain as int) == (
        periodic_number_drain as int) * time.periodic_time) by (nonlinear_arith);
        assert(2 * ((periodic_number as int) * time.periodic_time) == 2 * (periodic_number as int)
            * time.periodic_time) by (nonlinear_arith);
        assert(v.2 >= 0) by (nonlinear_arith)
            requires
                time.periodic_time >= 1,
                periodic_number_drain >= 0,
                v.2 == time.periodic_time * (periodic_number_drain as int),
        ;
    }

    let mut x_axis = match analysis_use_function {
        AnalysisFunction::Bearing => bearing(&traj, &constant_probe, &time, &periodic_number),
        AnalysisFunction::NormalGradient => normal_gradient(
            &traj,
            &constant_probe,
            &time,
            &periodic_number,
            delta,
            mode,
        ),
        AnalysisFunction::TranslationalGradient => translational_gradient(
            &traj,
            &constant_probe,
            &time,
            &periodic_number,
            delta,
            mode,
        ),
    };
    let mut y_axis = curving_rate_bear(&traj, &time, &periodic_number);

    proof {
        assert(time.periodic_time * (periodic_number_drain as int) == (periodic_number_drain as int)
            * time.periodic_time) by (nonlinear_arith);
        assert(2 * ((periodic_number as int) * time.periodic_time) == 2 * (periodic_number as int)
            * time.periodic_time) by (nonlinear_arith);
    }
    let drain_steps: usize = periodic_number_drain * (time.periodic_time as usize);
    let x_kept = x_axis.split_off(drain_steps);
    let y_kept = y_axis.split_off(drain_steps);
    (x_kept, y_kept)
}


/// The sum and count of the present entries in one column of a row
/// collection, over the first `j` rows.
pub open spec fn col_fold(rows: Seq<Seq<Option<i64>>>, col: int, j: nat) -> (int, int)
    decreases j,
{
    if j == 0 {
        (0, 0)
    } else {
        let p = col_fold(rows, col, (j - 1) as nat);
        if rows[j - 1][col] is Some {
            (fadd(p.0 as i64, rows[j - 1][col]->Some_0), p.1 + 1)
        } else {
            p
        }
    }
}

/// The mean of one column's present entries; none when all are
/// missing.
pub open spec fn col_mean(rows: Seq<Seq<Option<i64>>>, col: int) -> Option<i64> {
    let f = col_fold(rows, col, rows.len());
    if f.1 == 0 {
        None
    } else {
        Some(tdiv(f.0, f.1) as i64)
    }
}

/// The largest present entry of one column over the first `j` rows.
pub open spec fn col_max(rows: Seq<Seq<Option<i64>>>, col: int, j: nat) -> Option<i64>
    decreases j,
{
    if j == 0 {
        None
    } else {
        let p = col_max(rows, col, (j - 1) as nat);
        match rows[j - 1][col] {
            Some(v) => match p {
                Some(m) => if v > m {
                    Some(v)
                } else {
                    Some(m)
                },
                None => Some(v),
            },
            None => p,
        }
    }
}

/// The smallest present entry of one column over the first `j` rows.
pub open spec fn col_min(rows: Seq<Seq<Option<i64>>>, col: int, j: nat) -> Option<i64>
    decreases j,
{
    if j == 0 {
        None
    } else {
        let p = col_min(rows, col, (j - 1) as nat);
        match rows[j - 1][col] {
            Some(v) => match p {
                Some(m) => if v < m {
                    Some(v)
                } else {
                    Some(m)
                },
                None => Some(v),
            },
            None => p,
        }
    }
}

/// The summed squared deviation of one column's present entries from a
/// given center, over the first `j` rows.
pub open spec fn col_sqdev(rows: Seq<Seq<Option<i64>>>, col: int, center: i64, j: nat) -> int
    decreases j,
{
    if j == 0 {
        0
    } else {
        let p = col_sqdev(rows, col, center, (j - 1) as nat);
        match rows[j - 1][col] {
            Some(v) => fadd(
                p as i64,
                fmul(fsub(v, center) as i64, fsub(v, center) as i64) as i64,
            ),
            None => p,
        }
    }
}

/// The standard deviation of one column's present entries around their
/// mean; none when all are missing.
pub open spec fn col_std(rows: Seq<Seq<Option<i64>>>, col: int) -> Option<i64> {
    let f = col_fold(rows, col, rows.len());
    match col_mean(rows, col) {
        Some(m) => Some(fsqrt(tdiv(col_sqdev(rows, col, m, rows.len()), f.1) as i64) as i64),
        None => None,
    }
}

/// Every cell of a row collection lies in the band when present.
pub open spec fn rows_ok(rows: Seq<Seq<Option<i64>>>, width: int) -> bool {
    forall|l: int|
        0 <= l < rows.len() ==> (#[trigger] rows[l]).len() == width && opts_ok(rows[l])
}

/// The fold sums stay in the band and the counts within the length.
proof fn lemma_col_fold_bounds(rows: Seq<Seq<Option<i64>>>, col: int, center: i64, j: nat)
    requires
        j <= rows.len(),
    ensures
        -LIM <= col_fold(rows, col, j).0 <= LIM,
        0 <= col_fold(rows, col, j).1 <= j,
        0 <= col_sqdev(rows, col, center, j) <= LIM,
        col_max(rows, col, j) is Some ==> col_fold(rows, col, j).1 > 0,
        col_min(rows, col, j) is Some ==> col_fold(rows, col, j).1 > 0,
        (col_fold(rows, col, j).1 > 0) == (col_max(rows, col, j) is Some),
        (col_fold(rows, col, j).1 > 0) == (col_min(rows, col, j) is Some),
    decreases j,
{
    if j > 0 {
        lemma_col_fold_bounds(rows, col, center, (j - 1) as nat);
        let e = rows[j - 1][col];
        if e is Some {
            crate::env::lemma_square_nonneg(crate::fixed::fsub(e->Some_0, center) as i64);
        }
    }
}

/// The mean, standard deviation, largest and smallest of one column's
/// present entries.
fn column_stats(rows: &Vec<Vec<Option<i64>>>, col: usize, width: usize) -> (out: (
    Option<i64>,
    Option<i64>,
    Option<i64>,
    Option<i64>,
))
    requires
        rows_ok(rows@.map_values(|r: Vec<Option<i64>>| r@), width as int),
        col < width,
        rows@.len() <= 1_000_000,
    ensures
        out.0 == col_mean(rows@.map_values(|r: Vec<Option<i64>>| r@), col as int),
        out.1 == col_std(rows@.map_values(|r: Vec<Option<i64>>| r@), col as int),
        out.2 == col_max(rows@.map_values(|r: Vec<Option<i64>>| r@), col as int, rows@.len() as nat),
        out.3 == col_min(rows@.map_values(|r: Vec<Option<i64>>| r@), col as int, rows@.len() as nat),
        out.0 is Some ==> fx_ok(out.0->Some_0),
        out.1 is Some ==> out.1->Some_0 >= 0 && fx_ok(out.1->Some_0),
{
    let ghost rs = rows@.map_values(|r: Vec<Option<i64>>| r@);
    let len = rows.len();
    let mut sum: i64 = 0;
    let mut count: usize = 0;
    let mut mx: Option<i64> = None;
    let mut mn: Option<i64> = None;
    let mut l: usize = 0;
    while l < len
        invariant
            0 <= l <= len,
            len == rows@.len() <= 1_000_000,
            rs == rows@.map_values(|r: Vec<Option<i64>>| r@),
            rows_ok(rs, width as int),
            col < width,
            sum == col_fold(rs, col as int, l as nat).0,
            count == col_fold(rs, col as int, l as nat).1,
            mx == col_max(rs, col as int, l as nat),
            mn == col_min(rs, col as int, l as nat),
            -LIM <= sum <= LIM,
            count <= l,
        decreases len - l,
    {
        proof {
            assert(rs[l as int] == rows@[l as int]@);
        }
        let row = &rows[l];
        match &row[col] {
            Some(v) => {
                sum = fx_add(sum, *v);
                count = count + 1;
                mx = match mx {
                    Some(m) => if *v > m {
                        Some(*v)
                    } else {
                        Some(m)
                    },
                    None => Some(*v),
                };
                mn = match mn {
                    Some(m) => if *v < m {
                        Some(*v)
                    } else {
                        Some(m)
                    },
                    None => Some(*v),
                };
            },
            None => {},
        }
        l = l + 1;
    }
    if count == 0 {
        proof {
            lemma_col_fold_bounds(rs, col as int, 0, rs.len() as nat);
        }
        return (None, None, None, None);
    }
    proof {
        crate::trig::lemma_tdiv_abs_bound(sum as int, count as int, LIM as int);
    }
    let mean: i64 = sum / (count as i64);
    let mut sq: i64 = 0;
    let mut l: usize = 0;
    while l < len
        invariant
            0 <= l <= len,
            len == rows@.len() <= 1_000_000,
            rs == rows@.map_values(|r: Vec<Option<i64>>| r@),
            rows_ok(rs, width as int),
            col < width,
            fx_ok(mean),
            sq == col_sqdev(rs, col as int, mean, l as nat),
            0 <= sq <= LIM,
        decreases len - l,
    {
        proof {
            assert(rs[l as int] == rows@[l as int]@);
        }
        let row = &rows[l];
        match &row[col] {
            Some(v) => {
                let d = fx_sub(*v, mean);
                proof {
                    crate::env::lemma_square_nonneg(d);
                }
                sq = fx_add(sq, fx_mul(d, d));
            },
            None => {},
        }
        l = l + 1;
    }
    proof {
        crate::trig::lemma_tdiv_pos_bound(sq as int, count as int, LIM as int);
        assert(sq as int <= (LIM as int) * (count as int)) by (nonlinear_arith)
            requires
                0 <= sq <= LIM,
                count >= 1,
        ;
    }
    let var: i64 = sq / (count as i64);
    let std = crate::fixed::fx_sqrt(var);
    (Some(mean), Some(std), mx, mn)
}


/// The two analysis signals one seeded run yields, after the warm-up
/// drain.
pub open spec fn analysis_xy(
    func: AnalysisFunction,
    mode: FieldMode,
    g: Seq<i64>,
    s: Setting,
    pn: int,
    drain: int,
    delta: i64,
    seed: u64,
) -> (Seq<Option<i64>>, Seq<Option<i64>>) {
    let c = const_of(s, seed);
    let traj = klin_run(mode, g, s, seed).traj;
    let v = analysis_spans(s, pn, drain);
    let full = v.0 - 2 * v.1;
    (
        x_axis_seq(func, mode, c, traj, v.1, delta, full).subrange(v.2, full),
        curving_seq(traj, v.1, full).subrange(v.2, full),
    )
}

/// One run's bearing histogram row.
pub open spec fn bearing_row(
    func: AnalysisFunction,
    mode: FieldMode,
    g: Seq<i64>,
    s: Setting,
    pn: int,
    drain: int,
    delta: i64,
    range: int,
    seed: u64,
) -> Seq<Option<i64>> {
    let xy = analysis_xy(func, mode, g, s, pn, drain, delta, seed);
    Seq::new(
        bin_count(range) as nat,
        |b: int|
            bin_mean(
                xy.0,
                xy.1,
                (-180 + b * range) * (ONE as int),
                (-180 + (b + 1) * range) * (ONE as int),
                0,
            ),
    )
}

/// One run's gradient histogram row, under a sign selection.
pub open spec fn gradient_row(
    func: AnalysisFunction,
    mode: FieldMode,
    g: Seq<i64>,
    s: Setting,
    pn: int,
    drain: int,
    delta: i64,
    bins: int,
    gmax: i64,
    sign: int,
    seed: u64,
) -> Seq<Option<i64>> {
    let xy = analysis_xy(func, mode, g, s, pn, drain, delta, seed);
    let step = tdiv(2 * gmax, bins);
    Seq::new(
        bins as nat,
        |b: int| bin_mean(xy.0, xy.1, grad_bin_lo(gmax, step, b), grad_bin_lo(gmax, step, b + 1), sign),
    )
}

/// The seed state after `l` whole analysis runs.
pub open spec fn seeds_chain(s: Setting, seed: u64, l: nat) -> u64
    decreases l,
{
    if l == 0 {
        seed
    } else {
        seed_after_ci(s, seeds_chain(s, seed, (l - 1) as nat))
    }
}

/// One axis-versus-turning-bias table: bin centers, the mean over the
/// runs, its spread, and the extreme run means.
pub struct AxisTable {
    pub centers: Vec<i64>,
    pub mean: Vec<Option<i64>>,
    pub std: Vec<Option<i64>>,
    pub err_max: Vec<Option<i64>>,
    pub err_min: Vec<Option<i64>>,
}



/// The bearing-versus-turning-bias table: the configured number of
/// seeded runs, one bearing histogram per run, and per-bin mean,
/// spread, and extremes over the runs.
#[verifier::rlimit(100)]
pub fn analysis_klinotaxis_bearing_errbar_std_max_min(
    result_ga: &Vec<Ga>,
    liner_setting: &Setting,
    analysis_setting: &Analysissetting,
    analysis_use_function: AnalysisFunction,
    rng: &mut Rng64,
) -> (out: AxisTable)
    requires
        analysis_setting.gene_number < result_ga@.len(),
        crate::genetic::ga_ok(result_ga@[analysis_setting.gene_number as int]),
        setting_ok(*liner_setting),
        analysis_setting.mode <= 2,
        analysis_fits(
            *liner_setting,
            analysis_setting.periodic_number as int,
            analysis_setting.periodic_number_drain as int,
        ),
        1 <= analysis_setting.delta,
        fx_ok(analysis_setting.delta),
        1 <= analysis_setting.bin_range <= 360,
        1 <= analysis_setting.analysis_loop <= 1_000_000,
    ensures
        ({
            let g = result_ga@[analysis_setting.gene_number as int].gene.gene@;
            let mode = if analysis_setting.mode == 0 {
                FieldMode::Linear
            } else if analysis_setting.mode == 1 {
                FieldMode::SingleGauss
            } else {
                FieldMode::DoubleGauss
            };
            let rows = Seq::new(
                analysis_setting.analysis_loop as nat,
                |l: int|
                    bearing_row(
                        analysis_use_function,
                        mode,
                        g,
                        *liner_setting,
                        analysis_setting.periodic_number as int,
                        analysis_setting.periodic_number_drain as int,
                        analysis_setting.delta,
                        analysis_setting.bin_range as int,
                        seeds_chain(*liner_setting, old(rng).state, l as nat),
                    ),
            );
            let bins = bin_count(analysis_setting.bin_range as int);
            &&& out.centers@.len() == bins
            &&& out.mean@.len() == bins
            &&& out.std@.len() == bins
            &&& out.err_max@.len() == bins
            &&& out.err_min@.len() == bins
            &&& forall|b: int|
                0 <= b < bins ==> (#[trigger] out.centers@[b]) == (-180 + b
                    * analysis_setting.bin_range) * (ONE as int)
            &&& forall|b: int| 0 <= b < bins ==> (#[trigger] out.mean@[b]) == col_mean(rows, b)
            &&& forall|b: int| 0 <= b < bins ==> (#[trigger] out.std@[b]) == col_std(rows, b)
            &&& forall|b: int|
                0 <= b < bins ==> (#[trigger] out.err_max@[b]) == col_max(rows, b, rows.len())
            &&& forall|b: int|
                0 <= b < bins ==> (#[trigger] out.err_min@[b]) == col_min(rows, b, rows.len())
            &&& final(rng).state == seeds_chain(
                *liner_setting,
                old(rng).state,
                analysis_setting.analysis_loop as nat,
            )
        }),
{
    let ghost seed0 = rng.state;
    let gene = &result_ga[analysis_setting.gene_number].gene;
    let mode = match FieldMode::from_tag(analysis_setting.mode) {
        Ok(m) => m,
        Err(_) => {
            proof {
                assert(false);
            }
            vstd::pervasive::unreached()
        },
    };
    let ghost g = gene.gene@;
    let ghost rows_spec = Seq::new(
        analysis_setting.analysis_loop as nat,
        |l: int|
            bearing_row(
                analysis_use_function,
                mode,
                g,
                *liner_setting,
                analysis_setting.periodic_number as int,
                analysis_setting.periodic_number_drain as int,
                analysis_setting.delta,
                analysis_setting.bin_range as int,
                seeds_chain(*liner_setting, seed0, l as nat),
            ),
    );

    let mut rows: Vec<Vec<Option<i64>>> = Vec::new();
    let mut l: usize = 0;
    while l < analysis_setting.analysis_loop
        invariant
            0 <= l <= analysis_setting.analysis_loop <= 1_000_000,
            analysis_setting.gene_number < result_ga@.len(),
            gene == &result_ga@[analysis_setting.gene_number as int].gene,
            crate::genetic::ga_ok(result_ga@[analysis_setting.gene_number as int]),
            g == gene.gene@,
            setting_ok(*liner_setting),
            analysis_fits(
                *liner_setting,
                analysis_setting.periodic_number as int,
                analysis_setting.periodic_number_drain as int,
            ),
            1 <= analysis_setting.delta,
            fx_ok(analysis_setting.delta),
            1 <= analysis_setting.bin_range <= 360,
            rows_spec == Seq::new(
                analysis_setting.analysis_loop as nat,
                |q: int|
                    bearing_row(
                        analysis_use_function,
                        mode,
                        g,
                        *liner_setting,
                        analysis_setting.periodic_number as int,
                        analysis_setting.periodic_number_drain as int,
                        analysis_setting.delta,
                        analysis_setting.bin_range as int,
                        seeds_chain(*liner_setting, seed0, q as nat),
                    ),
            ),
            rows@.len() == l,
            rows@.map_values(|r: Vec<Option<i64>>| r@) =~= rows_spec.subrange(0, l as int),
            rows_ok(
                rows@.map_values(|r: Vec<Option<i64>>| r@),
                bin_count(analysis_setting.bin_range as int),
            ),
            rng.state == seeds_chain(*liner_setting, seed0, l as nat),
        decreases analysis_setting.analysis_loop - l,
    {
        let xy = klinotaxis_analysis(
            gene,
            liner_setting,
            mode,
            analysis_setting.periodic_number,
            analysis_setting.periodic_number_drain,
            analysis_setting.delta,
            analysis_use_function,
            rng,
        );
        let row = histgram_count_bearing(&xy.0, &xy.1, analysis_setting.bin_range);
        proof {
            assert(row@ =~= bearing_row(
                analysis_use_function,
                mode,
                g,
                *liner_setting,
                analysis_setting.periodic_number as int,
                analysis_setting.periodic_number_drain as int,
                analysis_setting.delta,
                analysis_setting.bin_range as int,
                seeds_chain(*liner_setting, seed0, l as nat),
            ));
        }
        rows.push(row);
        l = l + 1;
        proof {
            assert(rows@.map_values(|r: Vec<Option<i64>>| r@) =~= rows_spec.subrange(
                0,
                l as int,
            ));
        }
    }
    proof {
        assert(rows_spec.subrange(0, analysis_setting.analysis_loop as int) =~= rows_spec);
    }

    let width = bin_width_of(analysis_setting.bin_range);
    let mut centers: Vec<i64> = Vec::new();
    let mut mean: Vec<Option<i64>> = Vec::new();
    let mut std: Vec<Option<i64>> = Vec::new();
    let mut err_max: Vec<Option<i64>> = Vec::new();
    let mut err_min: Vec<Option<i64>> = Vec::new();
    let mut b: usize = 0;
    while b < width
        invariant
            0 <= b <= width,
            width == bin_count(analysis_setting.bin_range as int),
            1 <= analysis_setting.bin_range <= 360,
            rows@.len() <= 1_000_000,
            rows@.map_values(|r: Vec<Option<i64>>| r@) == rows_spec,
            rows_ok(rows_spec, width as int),
            centers@.len() == b,
            mean@.len() == b,
            std@.len() == b,
            err_max@.len() == b,
            err_min@.len() == b,
            forall|q: int|
                0 <= q < b ==> (#[trigger] centers@[q]) == (-180 + q
                    * analysis_setting.bin_range) * (ONE as int),
            forall|q: int| 0 <= q < b ==> (#[trigger] mean@[q]) == col_mean(rows_spec, q),
            forall|q: int| 0 <= q < b ==> (#[trigger] std@[q]) == col_std(rows_spec, q),
            forall|q: int|
                0 <= q < b ==> (#[trigger] err_max@[q]) == col_max(rows_spec, q, rows_spec.len()),
            forall|q: int|
                0 <= q < b ==> (#[trigger] err_min@[q]) == col_min(rows_spec, q, rows_spec.len()),
        decreases width - b,
    {
        let st = column_stats(&rows, b, width);
        proof {
            assert(bin_count(analysis_setting.bin_range as int) * analysis_setting.bin_range < 360
                + analysis_setting.bin_range) by (nonlinear_arith)
                requires
                    1 <= analysis_setting.bin_range <= 360,
                    bin_count(analysis_setting.bin_range as int) == (360
                        + analysis_setting.bin_range - 1) / (analysis_setting.bin_range as int),
            ;
            assert(0 <= (b as int) * analysis_setting.bin_range <= 360 + 360) by (nonlinear_arith)
                requires
                    0 <= b < bin_count(analysis_setting.bin_range as int),
                    1 <= analysis_setting.bin_range <= 360,
                    bin_count(analysis_setting.bin_range as int) * analysis_setting.bin_range < 360
                        + analysis_setting.bin_range,
            ;
        }
        let center: i64 = (-180 + (b as i64) * (analysis_setting.bin_range as i64)) * ONE;
        centers.push(center);
        mean.push(st.0);
        std.push(st.1);
        err_max.push(st.2);
        err_min.push(st.3);
        b = b + 1;
    }
    AxisTable { centers, mean, std, err_max, err_min }
}

/// How many bearing bins a width yields, computed.
fn bin_width_of(bin_range: usize) -> (w: usize)
    requires
        1 <= bin_range <= 360,
    ensures
        w == bin_count(bin_range as int),
        1 <= w <= 360,
{
    proof {
        assert(1 <= (360 + bin_range - 1) as int / (bin_range as int) <= 360) by (nonlinear_arith)
            requires
                1 <= bin_range <= 360,
        ;
    }
    (360 + bin_range - 1) / bin_range
}


/// The normal-gradient-versus-turning-bias table: one gradient
/// histogram per seeded run, and per-bin mean, spread and extremes.
#[verifier::rlimit(100)]
pub fn analysis_klinotaxis_nomal_gradient_errbar_std_max_min(
    result_ga: &Vec<Ga>,
    liner_setting: &Setting,
    analysis_setting: &Analysissetting,
    analysis_use_function: AnalysisFunction,
    rng: &mut Rng64,
) -> (out: AxisTable)
    requires
        analysis_setting.gene_number < result_ga@.len(),
        crate::genetic::ga_ok(result_ga@[analysis_setting.gene_number as int]),
        setting_ok(*liner_setting),
        analysis_setting.mode <= 2,
        analysis_fits(
            *liner_setting,
            analysis_setting.periodic_number as int,
            analysis_setting.periodic_number_drain as int,
        ),
        1 <= analysis_setting.delta,
        fx_ok(analysis_setting.delta),
        1 <= analysis_setting.bin_number <= 1_000_000,
        0 <= analysis_setting.concentration_gradient_max,
        fx_ok(analysis_setting.concentration_gradient_max),
        1 <= analysis_setting.analysis_loop <= 1_000_000,
    ensures
        ({
            let g = result_ga@[analysis_setting.gene_number as int].gene.gene@;
            let mode = if analysis_setting.mode == 0 {
                FieldMode::Linear
            } else if analysis_setting.mode == 1 {
                FieldMode::SingleGauss
            } else {
                FieldMode::DoubleGauss
            };
            let gmax = analysis_setting.concentration_gradient_max;
            let bins = analysis_setting.bin_number as int;
            let step = tdiv(2 * gmax, bins);
            let rows = Seq::new(
                analysis_setting.analysis_loop as nat,
                |l: int|
                    gradient_row(
                        analysis_use_function,
                        mode,
                        g,
                        *liner_setting,
                        analysis_setting.periodic_number as int,
                        analysis_setting.periodic_number_drain as int,
                        analysis_setting.delta,
                        bins,
                        gmax,
                        0,
                        seeds_chain(*liner_setting, old(rng).state, l as nat),
                    ),
            );
            &&& out.centers@.len() == bins
            &&& out.mean@.len() == bins
            &&& out.std@.len() == bins
            &&& out.err_max@.len() == bins
            &&& out.err_min@.len() == bins
            &&& forall|b: int|
                0 <= b < bins ==> (#[trigger] out.centers@[b]) == grad_bin_lo(gmax, step, b)
            &&& forall|b: int| 0 <= b < bins ==> (#[trigger] out.mean@[b]) == col_mean(rows, b)
            &&& forall|b: int| 0 <= b < bins ==> (#[trigger] out.std@[b]) == col_std(rows, b)
            &&& forall|b: int|
                0 <= b < bins ==> (#[trigger] out.err_max@[b]) == col_max(rows, b, rows.len())
            &&& forall|b: int|
                0 <= b < bins ==> (#[trigger] out.err_min@[b]) == col_min(rows, b, rows.len())
            &&& final(rng).state == seeds_chain(
                *liner_setting,
                old(rng).state,
                analysis_setting.analysis_loop as nat,
            )
        }),
{
    let ghost seed0 = rng.state;
    let gene = &result_ga[analysis_setting.gene_number].gene;
    let mode = match FieldMode::from_tag(analysis_setting.mode) {
        Ok(m) => m,
        Err(_) => {
            proof {
                assert(false);
            }
            vstd::pervasive::unreached()
        },
    };
    let gmax = analysis_setting.concentration_gradient_max;
    let bins = analysis_setting.bin_number;
    let ghost g = gene.gene@;
    let ghost rows_spec = Seq::new(
        analysis_setting.analysis_loop as nat,
        |l: int|
            gradient_row(
                analysis_use_function,
                mode,
                g,
                *liner_setting,
                analysis_setting.periodic_number as int,
                analysis_setting.periodic_number_drain as int,
                analysis_setting.delta,
                bins as int,
                gmax,
                0,
                seeds_chain(*liner_setting, seed0, l as nat),
            ),
    );

    let mut rows: Vec<Vec<Option<i64>>> = Vec::new();
    let mut l: usize = 0;
    while l < analysis_setting.analysis_loop
        invariant
            0 <= l <= analysis_setting.analysis_loop <= 1_000_000,
            analysis_setting.gene_number < result_ga@.len(),
            gene == &result_ga@[analysis_setting.gene_number as int].gene,
            crate::genetic::ga_ok(result_ga@[analysis_setting.gene_number as int]),
            g == gene.gene@,
            setting_ok(*liner_setting),
            analysis_fits(
                *liner_setting,
                analysis_setting.periodic_number as int,
                analysis_setting.periodic_number_drain as int,
            ),
            1 <= analysis_setting.delta,
            fx_ok(analysis_setting.delta),
            1 <= bins <= 1_000_000,
            bins == analysis_setting.bin_number,
            0 <= gmax,
            fx_ok(gmax),
            gmax == analysis_setting.concentration_gradient_max,
            rows_spec == Seq::new(
                analysis_setting.analysis_loop as nat,
                |q: int|
                    gradient_row(
                        analysis_use_function,
                        mode,
                        g,
                        *liner_setting,
                        analysis_setting.periodic_number as int,
                        analysis_setting.periodic_number_drain as int,
                        analysis_setting.delta,
                        bins as int,
                        gmax,
                        0,
                        seeds_chain(*liner_setting, seed0, q as nat),
                    ),
            ),
            rows@.len() == l,
            rows@.map_values(|r: Vec<Option<i64>>| r@) =~= rows_spec.subrange(0, l as int),
            rows_ok(rows@.map_values(|r: Vec<Option<i64>>| r@), bins as int),
            rng.state == seeds_chain(*liner_setting, seed0, l as nat),
        decreases analysis_setting.analysis_loop - l,
    {
        let xy = klinotaxis_analysis(
            gene,
            liner_setting,
            mode,
            analysis_setting.periodic_number,
            analysis_setting.periodic_number_drain,
            analysis_setting.delta,
            analysis_use_function,
            rng,
        );
        let row = histgram_count_normal_gradient(&xy.0, &xy.1, bins, gmax);
        proof {
            assert(row@ =~= gradient_row(
                analysis_use_function,
                mode,
                g,
                *liner_setting,
                analysis_setting.periodic_number as int,
                analysis_setting.periodic_number_drain as int,
                analysis_setting.delta,
                bins as int,
                gmax,
                0,
                seeds_chain(*liner_setting, seed0, l as nat),
            ));
        }
        rows.push(row);
        l = l + 1;
        proof {
            assert(rows@.map_values(|r: Vec<Option<i64>>| r@) =~= rows_spec.subrange(
                0,
                l as int,
            ));
        }
    }
    proof {
        assert(rows_spec.subrange(0, analysis_setting.analysis_loop as int) =~= rows_spec);
    }

    let table = gradient_table(&rows, bins, gmax, Ghost(rows_spec));
    table
}

/// Assemble one gradient-binned table from a finished row matrix.
fn gradient_table(
    rows: &Vec<Vec<Option<i64>>>,
    bins: usize,
    gmax: i64,
    Ghost(rows_spec): Ghost<Seq<Seq<Option<i64>>>>,
) -> (out: AxisTable)
    requires
        rows@.map_values(|r: Vec<Option<i64>>| r@) == rows_spec,
        rows_ok(rows_spec, bins as int),
        rows@.len() <= 1_000_000,
        1 <= bins <= 1_000_000,
        0 <= gmax,
        fx_ok(gmax),
    ensures
        out.centers@.len() == bins,
        out.mean@.len() == bins,
        out.std@.len() == bins,
        out.err_max@.len() == bins,
        out.err_min@.len() == bins,
        forall|b: int|
            0 <= b < bins ==> (#[trigger] out.centers@[b]) == grad_bin_lo(
                gmax,
                tdiv(2 * gmax, bins as int),
                b,
            ),
        forall|b: int| 0 <= b < bins ==> (#[trigger] out.mean@[b]) == col_mean(rows_spec, b),
        forall|b: int| 0 <= b < bins ==> (#[trigger] out.std@[b]) == col_std(rows_spec, b),
        forall|b: int|
            0 <= b < bins ==> (#[trigger] out.err_max@[b]) == col_max(
                rows_spec,
                b,
                rows_spec.len(),
            ),
        forall|b: int|
            0 <= b < bins ==> (#[trigger] out.err_min@[b]) == col_min(
                rows_spec,
                b,
                rows_spec.len(),
            ),
{
    proof {
        assert((2 * gmax) as int <= (2 * gmax) as int * (bins as int)) by (nonlinear_arith)
            requires
                bins >= 1,
                gmax >= 0,
        ;
        crate::trig::lemma_tdiv_pos_bound((2 * gmax) as int, bins as int, (2 * gmax) as int);
    }
    let step: i64 = (2 * gmax) / (bins as i64);
    proof {
        lemma_tdiv_mul_le((2 * gmax) as int, bins as int);
    }
    let mut centers: Vec<i64> = Vec::new();
    let mut mean: Vec<Option<i64>> = Vec::new();
    let mut std: Vec<Option<i64>> = Vec::new();
    let mut err_max: Vec<Option<i64>> = Vec::new();
    let mut err_min: Vec<Option<i64>> = Vec::new();
    let mut b: usize = 0;
    while b < bins
        invariant
            0 <= b <= bins <= 1_000_000,
            rows@.map_values(|r: Vec<Option<i64>>| r@) == rows_spec,
            rows_ok(rows_spec, bins as int),
            rows@.len() <= 1_000_000,
            0 <= gmax,
            fx_ok(gmax),
            0 <= step <= 2 * gmax,
            step == tdiv(2 * gmax, bins as int),
            step * (bins as int) <= 2 * gmax,
            centers@.len() == b,
            mean@.len() == b,
            std@.len() == b,
            err_max@.len() == b,
            err_min@.len() == b,
            forall|q: int|
                0 <= q < b ==> (#[trigger] centers@[q]) == grad_bin_lo(gmax, step as int, q),
            forall|q: int| 0 <= q < b ==> (#[trigger] mean@[q]) == col_mean(rows_spec, q),
            forall|q: int| 0 <= q < b ==> (#[trigger] std@[q]) == col_std(rows_spec, q),
            forall|q: int|
                0 <= q < b ==> (#[trigger] err_max@[q]) == col_max(rows_spec, q, rows_spec.len()),
            forall|q: int|
                0 <= q < b ==> (#[trigger] err_min@[q]) == col_min(rows_spec, q, rows_spec.len()),
        decreases bins - b,
    {
        let st = column_stats(rows, b, bins);
        proof {
            assert(0 <= (b as int) * step <= (bins as int) * step) by (nonlinear_arith)
                requires
                    0 <= b < bins,
                    0 <= step,
            ;
            assert((bins as int) * step == step * (bins as int)) by (nonlinear_arith);
        }
        let center: i64 = ((-gmax) as i128 + (b as i128) * (step as i128)) as i64;
        centers.push(center);
        mean.push(st.0);
        std.push(st.1);
        err_max.push(st.2);
        err_min.push(st.3);
        b = b + 1;
    }
    AxisTable { centers, mean, std, err_max, err_min }
}


/// The translational table: per-bin mean and spread of the turning
/// bias over the runs, over all biases and over the positive and
/// negative ones alone.
pub struct SignedTable {
    pub centers: Vec<i64>,
    pub mean: Vec<Option<i64>>,
    pub mean_positive: Vec<Option<i64>>,
    pub mean_negative: Vec<Option<i64>>,
    pub std: Vec<Option<i64>>,
    pub std_positive: Vec<Option<i64>>,
    pub std_negative: Vec<Option<i64>>,
}

/// The rows the translational analysis collects for one sign
/// selection.
pub open spec fn trans_rows(
    func: AnalysisFunction,
    mode: FieldMode,
    g: Seq<i64>,
    s: Setting,
    a: Analysissetting,
    sign: int,
    seed: u64,
) -> Seq<Seq<Option<i64>>> {
    Seq::new(
        a.analysis_loop as nat,
        |l: int|
            gradient_row(
                func,
                mode,
                g,
                s,
                a.periodic_number as int,
                a.periodic_number_drain as int,
                a.delta,
                a.bin_number as int,
                a.concentration_gradient_max,
                sign,
                seeds_chain(s, seed, l as nat),
            ),
    )
}

/// The translational-gradient-versus-turning-bias table: one gradient
/// histogram triple per seeded run, and per-bin mean and spread over
/// the runs for all, positive-only and negative-only turning biases.
#[verifier::rlimit(100)]
pub fn analysis_klinotaxis_translational_gradient_errbar_std_positive_negative(
    result_ga: &Vec<Ga>,
    liner_setting: &Setting,
    analysis_setting: &Analysissetting,
    analysis_use_function: AnalysisFunction,
    rng: &mut Rng64,
) -> (out: SignedTable)
    requires
        analysis_setting.gene_number < result_ga@.len(),
        crate::genetic::ga_ok(result_ga@[analysis_setting.gene_number as int]),
        setting_ok(*liner_setting),
        analysis_setting.mode <= 2,
        analysis_fits(
            *liner_setting,
            analysis_setting.periodic_number as int,
            analysis_setting.periodic_number_drain as int,
        ),
        1 <= analysis_setting.delta,
        fx_ok(analysis_setting.delta),
        1 <= analysis_setting.bin_number <= 1_000_000,
        0 <= analysis_setting.concentration_gradient_max,
        fx_ok(analysis_setting.concentration_gradient_max),
        1 <= analysis_setting.analysis_loop <= 1_000_000,
    ensures
        ({
            let g = result_ga@[analysis_setting.gene_number as int].gene.gene@;
            let mode = if analysis_setting.mode == 0 {
                FieldMode::Linear
            } else if analysis_setting.mode == 1 {
                FieldMode::SingleGauss
            } else {
                FieldMode::DoubleGauss
            };
            let gmax = analysis_setting.concentration_gradient_max;
            let bins = analysis_setting.bin_number as int;
            let step = tdiv(2 * gmax, bins);
            let rows_all = trans_rows(
                analysis_use_function,
                mode,
                g,
                *liner_setting,
                *analysis_setting,
                0,
                old(rng).state,
            );
            let rows_pos = trans_rows(
                analysis_use_function,
                mode,
                g,
                *liner_setting,
                *analysis_setting,
                1,
                old(rng).state,
            );
            let rows_neg = trans_rows(
                analysis_use_function,
                mode,
                g,
                *liner_setting,
                *analysis_setting,
                -1,
                old(rng).state,
            );
            &&& out.centers@.len() == bins
            &&& out.mean@.len() == bins
            &&& out.mean_positive@.len() == bins
            &&& out.mean_negative@.len() == bins
            &&& out.std@.len() == bins
            &&& out.std_positive@.len() == bins
            &&& out.std_negative@.len() == bins
            &&& forall|b: int|
                0 <= b < bins ==> (#[trigger] out.centers@[b]) == grad_bin_lo(gmax, step, b)
            &&& forall|b: int| 0 <= b < bins ==> (#[trigger] out.mean@[b]) == col_mean(rows_all, b)
            &&& forall|b: int| 0 <= b < bins ==> (#[trigger] out.std@[b]) == col_std(rows_all, b)
            &&& forall|b: int|
                0 <= b < bins ==> (#[trigger] out.mean_positive@[b]) == col_mean(rows_pos, b)
            &&& forall|b: int|
                0 <= b < bins ==> (#[trigger] out.std_positive@[b]) == col_std(rows_pos, b)
            &&& forall|b: int|
                0 <= b < bins ==> (#[trigger] out.mean_negative@[b]) == col_mean(rows_neg, b)
            &&& forall|b: int|
                0 <= b < bins ==> (#[trigger] out.std_negative@[b]) == col_std(rows_neg, b)
            &&& final(rng).state == seeds_chain(
                *liner_setting,
                old(rng).state,
                analysis_setting.analysis_loop as nat,
            )
        }),
{
    let ghost seed0 = rng.state;
    let gene = &result_ga[analysis_setting.gene_number].gene;
    let mode = match FieldMode::from_tag(analysis_setting.mode) {
        Ok(m) => m,
        Err(_) => {
            proof {
                assert(false);
            }
            vstd::pervasive::unreached()
        },
    };
    let gmax = analysis_setting.concentration_gradient_max;
    let bins = analysis_setting.bin_number;
    let ghost g = gene.gene@;
    let ghost spec_all = trans_rows(
        analysis_use_function,
        mode,
        g,
        *liner_setting,
        *analysis_setting,
        0,
        seed0,
    );
    let ghost spec_pos = trans_rows(
        analysis_use_function,
        mode,
        g,
        *liner_setting,
        *analysis_setting,
        1,
        seed0,
    );
    let ghost spec_neg = trans_rows(
        analysis_use_function,
        mode,
        g,
        *liner_setting,
        *analysis_setting,
        -1,
        seed0,
    );

    let mut rows_all: Vec<Vec<Option<i64>>> = Vec::new();
    let mut rows_pos: Vec<Vec<Option<i64>>> = Vec::new();
    let mut rows_neg: Vec<Vec<Option<i64>>> = Vec::new();
    let mut l: usize = 0;
    while l < analysis_setting.analysis_loop
        invariant
            0 <= l <= analysis_setting.analysis_loop <= 1_000_000,
            analysis_setting.gene_number < result_ga@.len(),
            gene == &result_ga@[analysis_setting.gene_number as int].gene,
            crate::genetic::ga_ok(result_ga@[analysis_setting.gene_number as int]),
            g == gene.gene@,
            setting_ok(*liner_setting),
            analysis_fits(
                *liner_setting,
                analysis_setting.periodic_number as int,
                analysis_setting.periodic_number_drain as int,
            ),
            1 <= analysis_setting.delta,
            fx_ok(analysis_setting.delta),
            1 <= bins <= 1_000_000,
            bins == analysis_setting.bin_number,
            0 <= gmax,
            fx_ok(gmax),
            gmax == analysis_setting.concentration_gradient_max,
            spec_all == trans_rows(
                analysis_use_function,
                mode,
                g,
                *liner_setting,
                *analysis_setting,
                0,
                seed0,
            ),
            spec_pos == trans_rows(
                analysis_use_function,
                mode,
                g,
                *liner_setting,
                *analysis_setting,
                1,
                seed0,
            ),
            spec_neg == trans_rows(
                analysis_use_function,
                mode,
                g,
                *liner_setting,
                *analysis_setting,
                -1,
                seed0,
            ),
            rows_all@.len() == l,
            rows_pos@.len() == l,
            rows_neg@.len() == l,
            rows_all@.map_values(|r: Vec<Option<i64>>| r@) =~= spec_all.subrange(0, l as int),
            rows_pos@.map_values(|r: Vec<Option<i64>>| r@) =~= spec_pos.subrange(0, l as int),
            rows_neg@.map_values(|r: Vec<Option<i64>>| r@) =~= spec_neg.subrange(0, l as int),
            rows_ok(rows_all@.map_values(|r: Vec<Option<i64>>| r@), bins as int),
            rows_ok(rows_pos@.map_values(|r: Vec<Option<i64>>| r@), bins as int),
            rows_ok(rows_neg@.map_values(|r: Vec<Option<i64>>| r@), bins as int),
            rng.state == seeds_chain(*liner_setting, seed0, l as nat),
        decreases analysis_setting.analysis_loop - l,
    {
        let xy = klinotaxis_analysis(
            gene,
            liner_setting,
            mode,
            analysis_setting.periodic_number,
            analysis_setting.periodic_number_drain,
            analysis_setting.delta,
            analysis_use_function,
            rng,
        );
        let triple = histgram_count_translational_gradient(&xy.0, &xy.1, bins, gmax);
        proof {
            let sd = seeds_chain(*liner_setting, seed0, l as nat);
            assert(triple.0@ =~= gradient_row(
                analysis_use_function,
                mode,
                g,
                *liner_setting,
                analysis_setting.periodic_number as int,
                analysis_setting.periodic_number_drain as int,
                analysis_setting.delta,
                bins as int,
                gmax,
                0,
                sd,
            ));
            assert(triple.1@ =~= gradient_row(
                analysis_use_function,
                mode,
                g,
                *liner_setting,
                analysis_setting.periodic_number as int,
                analysis_setting.periodic_number_drain as int,
                analysis_setting.delta,
                bins as int,
                gmax,
                1,
                sd,
            ));
            assert(triple.2@ =~= gradient_row(
                analysis_use_function,
                mode,
                g,
                *liner_setting,
                analysis_setting.periodic_number as int,
                analysis_setting.periodic_number_drain as int,
                analysis_setting.delta,
                bins as int,
                gmax,
                -1,
                sd,
            ));
        }
        rows_all.push(triple.0);
        rows_pos.push(triple.1);
        rows_neg.push(triple.2);
        l = l + 1;
        proof {
            assert(rows_all@.map_values(|r: Vec<Option<i64>>| r@) =~= spec_all.subrange(
                0,
                l as int,
            ));
            assert(rows_pos@.map_values(|r: Vec<Option<i64>>| r@) =~= spec_pos.subrange(
                0,
                l as int,
            ));
            assert(rows_neg@.map_values(|r: Vec<Option<i64>>| r@) =~= spec_neg.subrange(
                0,
                l as int,
            ));
        }
    }
    proof {
        assert(spec_all.subrange(0, analysis_setting.analysis_loop as int) =~= spec_all);
        assert(spec_pos.subrange(0, analysis_setting.analysis_loop as int) =~= spec_pos);
        assert(spec_neg.subrange(0, analysis_setting.analysis_loop as int) =~= spec_neg);
    }

    let t_all = gradient_table(&rows_all, bins, gmax, Ghost(spec_all));
    let t_pos = gradient_table(&rows_pos, bins, gmax, Ghost(spec_pos));
    let t_neg = gradient_table(&rows_neg, bins, gmax, Ghost(spec_neg));
    SignedTable {
        centers: t_all.centers,
        mean: t_all.mean,
        mean_positive: t_pos.mean,
        mean_negative: t_neg.mean,
        std: t_all.std,
        std_positive: t_pos.std,
        std_negative: t_neg.std,
    }
}


/// Whether an analysis configuration is accepted against a simulation
/// configuration; callers outside the library test this once at load
/// time and stop on a failure.
pub fn analysis_valid(setting: &Setting, a: &Analysissetting) -> (r: bool)
    requires
        setting_ok(*setting),
    ensures
        r == (a.mode <= 2 && 1 <= a.delta && fx_ok(a.delta) && 1 <= a.bin_range <= 360 && 1
            <= a.bin_number <= 1_000_000 && 0 <= a.concentration_gradient_max && fx_ok(
            a.concentration_gradient_max,
        ) && 1 <= a.analysis_loop <= 1_000_000 && analysis_fits(
            *setting,
            a.periodic_number as int,
            a.periodic_number_drain as int,
        )),
{
    let sim: i64 = setting.simulation_time / setting.dt;
    let per: i64 = setting.periodic_time / setting.dt;
    let pn = a.periodic_number;
    let drain = a.periodic_number_drain;
    let fits: bool = if pn < 1 || pn > 10_000_000 || drain > 10_000_000 {
        proof {
            let v = analysis_spans(*setting, pn as int, drain as int);
            if pn > 10_000_000 {
                assert(v.1 >= pn && v.2 >= 0) by (nonlinear_arith)
                    requires
                        per >= 1,
                        drain >= 0,
                        v.1 == (per as int) * (pn as int),
                        v.2 == (per as int) * (drain as int),
                ;
            }
            if drain > 10_000_000 {
                assert(v.2 >= drain && v.1 >= 0) by (nonlinear_arith)
                    requires
                        per >= 1,
                        pn >= 0,
                        v.1 == (per as int) * (pn as int),
                        v.2 == (per as int) * (drain as int),
                ;
            }
        }
        false
    } else {
        proof {
            assert(0 <= (per as int) * (pn as int) <= 10_000_000 * 10_000_000 && 0 <= (per as int)
                * (drain as int) <= 10_000_000 * 10_000_000) by (nonlinear_arith)
                requires
                    1 <= per <= 10_000_000,
                    0 <= pn <= 10_000_000,
                    0 <= drain <= 10_000_000,
            ;
        }
        let span: i128 = (per as i128) * (pn as i128);
        let cut: i128 = (per as i128) * (drain as i128);
        2 * span + cut < sim as i128
    };
    a.mode <= 2 && 1 <= a.delta && crate::model::fx_ok_at(a.delta) && 1 <= a.bin_range
        && a.bin_range <= 360 && 1 <= a.bin_number && a.bin_number <= 1_000_000 && 0
        <= a.concentration_gradient_max && crate::model::fx_ok_at(a.concentration_gradient_max)
        && 1 <= a.analysis_loop && a.analysis_loop <= 1_000_000 && fits
}

} // verus!
