//! The circuit integrator: eight membrane potentials, a heading, and a
//! plane position, advanced one fixed Euler step at a time.
//!
//! Sensory input comes from a bounded history of concentration samples:
//! the mean over the newest window drives the ON pathway, the mean over
//! the oldest window the OFF pathway.  Position integrates with the
//! heading of the previous step — the one-step lag is part of the
//! dynamics, not an accident.

use crate::fixed::{fadd, fdiv, fmul, fsub, fx_add, fx_div, fx_mul, fx_ok, fx_sub, tdiv, LIM, ONE};
use crate::model::{const_ok, Const};
use crate::params::{gene_const_ok, GeneConst, GeneView};
use crate::timing::{time_ok, Time};
use crate::trig::{cosine, fx_cos, fx_sigmoid, fx_sin, sigmoid, sine};
use vstd::prelude::*;

verus! {

/// The double-buffered step state: neuron activations, heading,
/// turning rate, and position.
#[derive(Debug)]
pub struct StepState {
    /// The eight neuron activations.
    pub act: Vec<i64>,
    /// Heading angle.
    pub mu: i64,
    /// Turning rate of the last step.
    pub phi: i64,
    /// Position abscissa.
    pub px: i64,
    /// Position ordinate.
    pub py: i64,
}

/// The mathematical value of a step state.
pub ghost struct StateModel {
    pub act: Seq<i64>,
    pub mu: i64,
    pub phi: i64,
    pub px: i64,
    pub py: i64,
}

impl View for StepState {
    type V = StateModel;

    open spec fn view(&self) -> StateModel {
        StateModel { act: self.act@, mu: self.mu, phi: self.phi, px: self.px, py: self.py }
    }
}

/// A well-formed state: eight activations, everything in the band.
pub open spec fn model_ok(m: StateModel) -> bool {
    &&& m.act.len() == 8
    &&& forall|i: int| 0 <= i < 8 ==> fx_ok(#[trigger] m.act[i])
    &&& fx_ok(m.mu)
    &&& fx_ok(m.phi)
    &&& fx_ok(m.px)
    &&& fx_ok(m.py)
}

/// The sum of the entries of `s` with index in `[a, b)`.
pub open spec fn sum_range(s: Seq<i64>, a: int, b: int) -> int
    decreases b - a,
{
    if a >= b {
        0
    } else {
        sum_range(s, a, b - 1) + s[b - 1]
    }
}

/// The mean of the newest `n` samples; zero for an empty window.
pub open spec fn on_mean(s: Seq<i64>, n: int) -> int {
    if n <= 0 {
        0
    } else {
        tdiv(sum_range(s, s.len() - n, s.len() as int), n)
    }
}

/// The mean of the oldest `m` samples; zero for an empty window.
pub open spec fn off_mean(s: Seq<i64>, m: int) -> int {
    if m <= 0 {
        0
    } else {
        tdiv(sum_range(s, 0, m), m)
    }
}

/// The two sensory signals: the window-mean difference, split into its
/// positive part for the ON pathway and negative part for the OFF.
pub open spec fn on_off_signals(s: Seq<i64>, n: int, m: int) -> (int, int) {
    let d = fsub(on_mean(s, n) as i64, off_mean(s, m) as i64);
    if d >= 0 {
        (d, 0)
    } else {
        (0, -d)
    }
}

/// Every sample of a history lies in the band.
pub open spec fn hist_ok(s: Seq<i64>) -> bool {
    forall|i: int| 0 <= i < s.len() ==> fx_ok(#[trigger] s[i])
}

/// Sum the entries of `v` with index in `[a, b)`.
fn sum_window(v: &Vec<i64>, a: usize, b: usize) -> (s: i128)
    requires
        a <= b <= v@.len(),
        hist_ok(v@),
    ensures
        s == sum_range(v@, a as int, b as int),
        -((b - a) as int) * LIM <= s <= ((b - a) as int) * LIM,
{
    let mut s: i128 = 0;
    let mut i: usize = a;
    while i < b
        invariant
            a <= i <= b <= v@.len(),
            hist_ok(v@),
            s == sum_range(v@, a as int, i as int),
            -((i - a) as int) * LIM <= s <= ((i - a) as int) * LIM,
        decreases b - i,
    {
        s = s + (v[i] as i128);
        i = i + 1;
    }
    s
}

/// The ON and OFF sensory signals from the concentration history,
/// under the two configured window lengths.
pub fn y_on_off(time: &Time, c_vec: &Vec<i64>) -> (r: (i64, i64))
    requires
        time_ok(*time),
        hist_ok(c_vec@),
        c_vec@.len() == time.n_time + time.m_time,
    ensures
        (r.0 as int, r.1 as int) == on_off_signals(c_vec@, time.n_time as int, time.m_time as int),
        fx_ok(r.0),
        fx_ok(r.1),
        r.0 >= 0,
        r.1 >= 0,
{
    let len = c_vec.len();
    let n = time.n_time as usize;
    let m = time.m_time as usize;
    let on: i64 = if n == 0 {
        0
    } else {
        let s = sum_window(c_vec, len - n, len);
        proof {
            crate::trig::lemma_tdiv_abs_bound(s as int, n as int, LIM as int);
        }
        (s / (n as i128)) as i64
    };
    let off: i64 = if m == 0 {
        0
    } else {
        let s = sum_window(c_vec, 0, m);
        proof {
            crate::trig::lemma_tdiv_abs_bound(s as int, m as int, LIM as int);
        }
        (s / (m as i128)) as i64
    };
    let d = fx_sub(on, off);
    if d >= 0 {
        (d, 0)
    } else {
        (0, -d)
    }
}

/// The oscillator signal at elapsed time `t`: the sine of one full
/// turn per period of the configured frequency.
pub open spec fn osc_signal(c: Const, t: i64) -> int {
    sine(fmul(crate::trig::TAU, fmul(c.frequency, t) as i64) as i64)
}

pub fn y_osc(constant: &Const, t: i64) -> (r: i64)
    requires
        const_ok(*constant),
        fx_ok(t),
    ensures
        r == osc_signal(*constant, t),
        -ONE <= r <= ONE,
{
    let cycles = fx_mul(constant.frequency, t);
    fx_sin(fx_mul(crate::trig::TAU, cycles))
}

/// The synaptic drive into neuron `i` from the first `j` neurons: each
/// sender's activation plus threshold, squashed, weighted.
pub open spec fn syn_sum(wc: GeneView, act: Seq<i64>, i: int, j: nat) -> int
    decreases j,
{
    if j == 0 {
        0
    } else {
        fadd(
            syn_sum(wc, act, i, (j - 1) as nat) as i64,
            fmul(
                wc.w[j - 1][i],
                sigmoid(fadd(act[j - 1], wc.theta[j - 1]) as i64) as i64,
            ) as i64,
        )
    }
}

/// The gap-junction drive into neuron `i` from the first `j` neurons:
/// coupling times activation difference.
pub open spec fn gap_sum(wc: GeneView, act: Seq<i64>, i: int, j: nat) -> int
    decreases j,
{
    if j == 0 {
        0
    } else {
        fadd(
            gap_sum(wc, act, i, (j - 1) as nat) as i64,
            fmul(wc.g[j - 1][i], fsub(act[j - 1], act[i]) as i64) as i64,
        )
    }
}

/// The external drive into neuron `i`: the gated ON, OFF and
/// oscillator signals.
pub open spec fn ext_input(wc: GeneView, i: int, on: i64, off: i64, osc: i64) -> int {
    fadd(
        fadd(fmul(wc.w_on[i], on) as i64, fmul(wc.w_off[i], off) as i64) as i64,
        fmul(wc.w_osc[i], osc) as i64,
    )
}

/// One Euler step of neuron `i`'s membrane potential: leak plus
/// synaptic, gap and external drive, over the membrane constant,
/// scaled by the step size.
pub open spec fn next_act(
    c: Const,
    wc: GeneView,
    act: Seq<i64>,
    i: int,
    on: i64,
    off: i64,
    osc: i64,
) -> int {
    let total = fadd(
        fadd(
            fadd((-act[i]) as i64, syn_sum(wc, act, i, 8) as i64) as i64,
            gap_sum(wc, act, i, 8) as i64,
        ) as i64,
        ext_input(wc, i, on, off, osc) as i64,
    );
    fadd(act[i], fmul(fdiv(total as i64, c.time_constant) as i64, c.dt) as i64)
}

/// The turning rate the motor pairs command: the dorsal pair's summed
/// squashed activations against the ventral pair's, times the motor
/// gain.
pub open spec fn turn_rate(wc: GeneView, act: Seq<i64>) -> int {
    let d = fadd(
        sigmoid(fadd(act[5], wc.theta[5]) as i64) as i64,
        sigmoid(fadd(act[6], wc.theta[6]) as i64) as i64,
    );
    let v = fadd(
        sigmoid(fadd(act[4], wc.theta[4]) as i64) as i64,
        sigmoid(fadd(act[7], wc.theta[7]) as i64) as i64,
    );
    fmul(wc.w_nmj, fsub(d as i64, v as i64) as i64)
}

/// One full Euler step from state `s` under the three external
/// signals: all eight activations advance, the turning rate and
/// heading follow, and the position moves along the previous heading.
pub open spec fn step_model(
    c: Const,
    wc: GeneView,
    s: StateModel,
    on: i64,
    off: i64,
    osc: i64,
) -> StateModel {
    let act2 = Seq::new(8, |i: int| next_act(c, wc, s.act, i, on, off, osc) as i64);
    let phi2 = turn_rate(wc, s.act) as i64;
    let mu2 = fadd(s.mu, fmul(phi2, c.dt) as i64) as i64;
    let px2 = fadd(s.px, fmul(fmul(c.velocity, cosine(s.mu) as i64) as i64, c.dt) as i64) as i64;
    let py2 = fadd(s.py, fmul(fmul(c.velocity, sine(s.mu) as i64) as i64, c.dt) as i64) as i64;
    StateModel { act: act2, mu: mu2, phi: phi2, px: px2, py: py2 }
}

/// The synaptic drive, computed.
fn syn_input(weight: &GeneConst, act: &Vec<i64>, i: usize) -> (r: i64)
    requires
        gene_const_ok(*weight),
        act@.len() == 8,
        forall|k: int| 0 <= k < 8 ==> fx_ok(#[trigger] act@[k]),
        i < 8,
    ensures
        r == syn_sum(weight@, act@, i as int, 8),
        fx_ok(r),
{
    let mut acc: i64 = 0;
    let mut j: usize = 0;
    while j < 8
        invariant
            0 <= j <= 8,
            i < 8,
            gene_const_ok(*weight),
            act@.len() == 8,
            forall|k: int| 0 <= k < 8 ==> fx_ok(#[trigger] act@[k]),
            acc == syn_sum(weight@, act@, i as int, j as nat),
            fx_ok(acc),
        decreases 8 - j,
    {
        proof {
            assert(weight@.w[j as int] == weight.w@[j as int]@);
        }
        let wrow = &weight.w[j];
        let gate = fx_sigmoid(fx_add(act[j], weight.theta[j]));
        let term = fx_mul(wrow[i], gate);
        acc = fx_add(acc, term);
        j = j + 1;
    }
    acc
}

/// The gap-junction drive, computed.
fn gap_input(weight: &GeneConst, act: &Vec<i64>, i: usize) -> (r: i64)
    requires
        gene_const_ok(*weight),
        act@.len() == 8,
        forall|k: int| 0 <= k < 8 ==> fx_ok(#[trigger] act@[k]),
        i < 8,
    ensures
        r == gap_sum(weight@, act@, i as int, 8),
        fx_ok(r),
{
    let mut acc: i64 = 0;
    let mut j: usize = 0;
    while j < 8
        invariant
            0 <= j <= 8,
            i < 8,
            gene_const_ok(*weight),
            act@.len() == 8,
            forall|k: int| 0 <= k < 8 ==> fx_ok(#[trigger] act@[k]),
            acc == gap_sum(weight@, act@, i as int, j as nat),
            fx_ok(acc),
        decreases 8 - j,
    {
        proof {
            assert(weight@.g[j as int] == weight.g@[j as int]@);
        }
        let grow = &weight.g[j];
        let term = fx_mul(grow[i], fx_sub(act[j], act[i]));
        acc = fx_add(acc, term);
        j = j + 1;
    }
    acc
}

/// One full Euler step, computed; the caller supplies the three
/// external signals for this step.
pub fn circuit_step(
    constant: &Const,
    weight: &GeneConst,
    state: &StepState,
    on: i64,
    off: i64,
    osc: i64,
) -> (ns: StepState)
    requires
        const_ok(*constant),
        gene_const_ok(*weight),
        model_ok(state@),
        fx_ok(on),
        fx_ok(off),
        fx_ok(osc),
    ensures
        ns@ == step_model(*constant, weight@, state@, on, off, osc),
        model_ok(ns@),
{
    let mut act2: Vec<i64> = Vec::new();
    let mut i: usize = 0;
    while i < 8
        invariant
            0 <= i <= 8,
            const_ok(*constant),
            gene_const_ok(*weight),
            model_ok(state@),
            fx_ok(on),
            fx_ok(off),
            fx_ok(osc),
            act2@.len() == i,
            forall|k: int| 0 <= k < i ==> #[trigger] act2@[k] == next_act(
                *constant,
                weight@,
                state@.act,
                k,
                on,
                off,
                osc,
            ),
            forall|k: int| 0 <= k < i ==> fx_ok(#[trigger] act2@[k]),
        decreases 8 - i,
    {
        let syn = syn_input(weight, &state.act, i);
        let gap = gap_input(weight, &state.act, i);
        let ext = fx_add(
            fx_add(fx_mul(weight.w_on[i], on), fx_mul(weight.w_off[i], off)),
            fx_mul(weight.w_osc[i], osc),
        );
        let total = fx_add(fx_add(fx_add(-state.act[i], syn), gap), ext);
        let delta = fx_mul(fx_div(total, constant.time_constant), constant.dt);
        let v = fx_add(state.act[i], delta);
        act2.push(v);
        i = i + 1;
    }
    let d = fx_add(
        fx_sigmoid(fx_add(state.act[5], weight.theta[5])),
        fx_sigmoid(fx_add(state.act[6], weight.theta[6])),
    );
    let v = fx_add(
        fx_sigmoid(fx_add(state.act[4], weight.theta[4])),
        fx_sigmoid(fx_add(state.act[7], weight.theta[7])),
    );
    let phi2 = fx_mul(weight.w_nmj, fx_sub(d, v));
    let mu2 = fx_add(state.mu, fx_mul(phi2, constant.dt));
    let px2 = fx_add(state.px, fx_mul(fx_mul(constant.velocity, fx_cos(state.mu)), constant.dt));
    let py2 = fx_add(state.py, fx_mul(fx_mul(constant.velocity, fx_sin(state.mu)), constant.dt));
    let ns = StepState { act: act2, mu: mu2, phi: phi2, px: px2, py: py2 };
    proof {
        assert(ns@.act =~= step_model(*constant, weight@, state@, on, off, osc).act);
    }
    ns
}

} // verus!
