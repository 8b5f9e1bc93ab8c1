//! The fitness evaluator: a full simulation run reduced to one scalar
//! chemotaxis index.
//!
//! The plain variant accumulates the distance from the peak at every
//! step, normalizes by the peak's own distance and the simulated
//! duration, and clamps at zero.  The waveform variant additionally
//! forces a random reorientation at a fixed interval and subtracts a
//! fixed penalty when the turning rate keeps one sign across a
//! movement cycle.  Both are exact functions of the genotype, the
//! configuration, and the seed.

use crate::env::{concentration, linear_field};
use crate::fixed::{
    elapsed, fadd, fdiv, fmul, fsqrt, fsub, fx_add, fx_div, fx_elapsed, fx_mul, fx_ok, fx_sqrt,
    fx_sub, ONE,
};
use crate::model::{const_ok, setting_ok, Const, Setting};
use crate::neural::{
    circuit_step, hist_ok, model_ok, on_off_signals, osc_signal, step_model, y_on_off, y_osc,
    StateModel, StepState,
};
use crate::params::{gene_const_ok, gene_ok, gene_view_of, view_ok, Gene, GeneView, GENE_COUNT};
use crate::rng::{range_draw, rng_out, rng_step, state_after, Rng64};
use crate::timing::{f_inv_steps, time_new, time_ok, Time};
use crate::trig::TAU;
use vstd::prelude::*;

verus! {

/// The frozen constants a seed produces from a configuration.
pub open spec fn const_of(s: Setting, seed: u64) -> Const {
    Const {
        alpha: range_draw(seed, s.alpha.0, s.alpha.1) as i64,
        c_0: s.c_0,
        lambda: s.lambda,
        x_peak: s.x_peak,
        y_peak: s.y_peak,
        dt: s.dt,
        periodic_time: s.periodic_time,
        frequency: s.frequency,
        velocity: s.velocity,
        simulation_time: s.simulation_time,
        time_constant: s.time_constant,
    }
}

/// The seed state after the steepness draw.
pub open spec fn seed_after_alpha(s: Setting, seed: u64) -> u64 {
    if s.alpha.0 == s.alpha.1 {
        seed
    } else {
        rng_step(seed)
    }
}

/// The step counts a configuration and genotype produce.
pub open spec fn time_of(c: Const, gv: GeneView) -> Time {
    Time {
        simulation_time: crate::fixed::tdiv(c.simulation_time as int, c.dt as int) as u64,
        n_time: crate::fixed::tdiv(gv.n as int, c.dt as int) as u64,
        m_time: crate::fixed::tdiv(gv.m as int, c.dt as int) as u64,
        periodic_time: crate::fixed::tdiv(c.periodic_time as int, c.dt as int) as u64,
        f_inv_time: f_inv_steps(c) as u64,
    }
}

/// The initial state a seed produces: motor activations drawn from the
/// unit interval, a drawn heading, everything else at zero.
pub open spec fn init_model(seed: u64) -> StateModel {
    StateModel {
        act: Seq::new(
            8,
            |i: int|
                if i < 4 {
                    0i64
                } else {
                    (rng_out(state_after(seed, (i - 4) as nat)) % (ONE as u64)) as i64
                },
        ),
        mu: (rng_out(state_after(seed, 4)) % (TAU as u64)) as i64,
        phi: 0,
        px: 0,
        py: 0,
    }
}

/// The distance from the peak at a position.
pub open spec fn dist_to_peak(c: Const, px: i64, py: i64) -> int {
    let dx = fsub(px, c.x_peak) as i64;
    let dy = fsub(py, c.y_peak) as i64;
    fsqrt(fadd(fmul(dx, dx) as i64, fmul(dy, dy) as i64) as i64)
}

/// The peak's own distance from the origin.
pub open spec fn peak_distance(c: Const) -> int {
    fsqrt(fadd(fmul(c.x_peak, c.x_peak) as i64, fmul(c.y_peak, c.y_peak) as i64) as i64)
}

/// One simulation run's whole evolving state: circuit state, sensory
/// history, and the accumulated distance sum.
pub ghost struct RunState {
    pub m: StateModel,
    pub hist: Seq<i64>,
    pub ci: i64,
}

/// One plain-variant step at step index `k`: sample the field at the
/// current position, shift the history, read the sensory and
/// oscillator signals, add the current distance, and advance the
/// circuit.
pub open spec fn step_a(c: Const, gv: GeneView, t: Time, r: RunState, k: nat) -> RunState {
    let conc = linear_field(c, r.m.px, r.m.py) as i64;
    let h2 = if r.hist.len() > 0 {
        r.hist.drop_first().push(conc)
    } else {
        r.hist
    };
    let sig = on_off_signals(h2, t.n_time as int, t.m_time as int);
    let osc = osc_signal(c, elapsed(k, c.dt) as i64) as i64;
    let ci2 = fadd(r.ci, dist_to_peak(c, r.m.px, r.m.py) as i64) as i64;
    RunState { m: step_model(c, gv, r.m, sig.0 as i64, sig.1 as i64, osc), hist: h2, ci: ci2 }
}

/// The run state after `k` plain-variant steps.
pub open spec fn run_a(c: Const, gv: GeneView, t: Time, r0: RunState, k: nat) -> RunState
    decreases k,
{
    if k == 0 {
        r0
    } else {
        step_a(c, gv, t, run_a(c, gv, t, r0, (k - 1) as nat), (k - 1) as nat)
    }
}

/// Reduce a finished run to the chemotaxis index: one minus the mean
/// distance over the peak distance, never negative.
pub open spec fn ci_of(c: Const, rfin: RunState) -> int {
    let total = fadd(rfin.ci, dist_to_peak(c, rfin.m.px, rfin.m.py) as i64) as i64;
    let norm = fmul(
        fdiv(fdiv(total, peak_distance(c) as i64) as i64, c.simulation_time) as i64,
        c.dt,
    );
    let v = fsub(ONE, norm as i64);
    if v < 0 {
        0
    } else {
        v
    }
}

/// The initial sensory history: the field at the origin, repeated for
/// both windows.
pub open spec fn init_hist(c: Const, t: Time) -> Seq<i64> {
    Seq::new((t.n_time + t.m_time) as nat, |i: int| linear_field(c, 0, 0) as i64)
}

/// The chemotaxis index of a genotype under a configuration and seed:
/// the full simulation pipeline as one function.
pub open spec fn chemotaxis_value(g: Seq<i64>, s: Setting, seed: u64) -> int {
    let c = const_of(s, seed);
    let seed1 = seed_after_alpha(s, seed);
    let gv = gene_view_of(g);
    let t = time_of(c, gv);
    let r0 = RunState { m: init_model(seed1), hist: init_hist(c, t), ci: 0 };
    let rfin = run_a(c, gv, t, r0, (t.simulation_time - 1) as nat);
    ci_of(c, rfin)
}

/// The seed state when the plain variant returns: the steepness draw,
/// four activation draws, and the heading draw.
pub open spec fn seed_after_ci(s: Setting, seed: u64) -> u64 {
    state_after(seed_after_alpha(s, seed), 5)
}

/// Draw the initial state: motor activations uniform in the unit
/// interval, heading uniform over one turn.
pub fn init_state(rng: &mut Rng64) -> (s: StepState)
    ensures
        s@ == init_model(old(rng).state),
        model_ok(s@),
        final(rng).state == state_after(old(rng).state, 5),
{
    let mut act: Vec<i64> = Vec::new();
    act.push(0);
    act.push(0);
    act.push(0);
    act.push(0);
    let a4 = rng.next_unit();
    act.push(a4);
    let a5 = rng.next_unit();
    act.push(a5);
    let a6 = rng.next_unit();
    act.push(a6);
    let a7 = rng.next_unit();
    act.push(a7);
    let mu = rng.next_below(TAU as u64) as i64;
    let s = StepState { act, mu, phi: 0, px: 0, py: 0 };
    proof {
        reveal_with_fuel(state_after, 6);
        assert(s@.act =~= init_model(old(rng).state).act);
    }
    s
}

/// The distance from the peak, computed.
pub fn distance_to_peak(constant: &Const, px: i64, py: i64) -> (r: i64)
    requires
        const_ok(*constant),
        fx_ok(px),
        fx_ok(py),
    ensures
        r == dist_to_peak(*constant, px, py),
        0 <= r,
        fx_ok(r),
{
    let dx = fx_sub(px, constant.x_peak);
    let dy = fx_sub(py, constant.y_peak);
    proof {
        crate::env::lemma_square_nonneg(dx);
        crate::env::lemma_square_nonneg(dy);
    }
    let d2 = fx_add(fx_mul(dx, dx), fx_mul(dy, dy));
    fx_sqrt(d2)
}

/// Advance the sensory history one step: drop the oldest sample, keep
/// the newest; an empty history stays empty.
pub fn shift_hist(c_vec: &mut Vec<i64>, conc: i64)
    requires
        hist_ok(old(c_vec)@),
        fx_ok(conc),
    ensures
        final(c_vec)@ == if old(c_vec)@.len() > 0 {
            old(c_vec)@.drop_first().push(conc)
        } else {
            old(c_vec)@
        },
        final(c_vec)@.len() == old(c_vec)@.len(),
        hist_ok(final(c_vec)@),
{
    if c_vec.len() > 0 {
        c_vec.remove(0);
        c_vec.push(conc);
        proof {
            assert(c_vec@ =~= old(c_vec)@.drop_first().push(conc));
        }
    }
}

/// The plain chemotaxis index of one genotype: one full seeded
/// simulation, reduced to a score in the unit interval.  The result is
/// an exact function of the genotype, the configuration and the seed,
/// so running twice from one seed reproduces the same trajectory and
/// the same index.
pub fn chemotaxis_index(gene: &Gene, setting: &Setting, rng: &mut Rng64) -> (r: i64)
    requires
        gene_ok(gene.gene@),
        gene.gene@.len() == GENE_COUNT,
        setting_ok(*setting),
    ensures
        r == chemotaxis_value(gene.gene@, *setting, old(rng).state),
        0 <= r <= ONE,
        final(rng).state == seed_after_ci(*setting, old(rng).state),
{
    let ghost seed0 = rng.state;
    let constant = setting.const_new(rng);
    let weight = match gene.scaling() {
        Ok(w) => w,
        Err(_) => {
            proof {
                assert(false);
            }
            vstd::pervasive::unreached()
        },
    };
    let time = time_new(&weight, &constant);
    proof {
        assert(time == time_of(const_of(*setting, seed0), gene_view_of(gene.gene@)));
    }

    let hist_len = (time.n_time + time.m_time) as usize;
    let origin_conc = concentration(&constant, 0, 0);
    let mut c_vec: Vec<i64> = vec![origin_conc; hist_len];
    proof {
        assert(c_vec@ =~= init_hist(constant, time));
    }

    let mut state = init_state(rng);
    let mut ci: i64 = 0;
    let ghost c = constant;
    let ghost gv = gene_view_of(gene.gene@);
    let ghost r0 = RunState { m: state@, hist: c_vec@, ci: 0 };

    let steps = time.simulation_time - 1;
    let mut k: u64 = 0;
    while k < steps
        invariant
            0 <= k <= steps,
            steps == time.simulation_time - 1,
            const_ok(c),
            constant == c,
            gene_const_ok(weight),
            weight@ == gv,
            time_ok(time),
            model_ok(state@),
            hist_ok(c_vec@),
            c_vec@.len() == time.n_time + time.m_time,
            fx_ok(ci),
            ci >= 0,
            state@ == run_a(c, gv, time, r0, k as nat).m,
            c_vec@ == run_a(c, gv, time, r0, k as nat).hist,
            ci == run_a(c, gv, time, r0, k as nat).ci,
        decreases steps - k,
    {
        let conc = concentration(&constant, state.px, state.py);
        shift_hist(&mut c_vec, conc);
        let sig = y_on_off(&time, &c_vec);
        let t_now = fx_elapsed(k, constant.dt);
        let osc = y_osc(&constant, t_now);
        let d = distance_to_peak(&constant, state.px, state.py);
        ci = fx_add(ci, d);
        state = circuit_step(&constant, &weight, &state, sig.0, sig.1, osc);
        k = k + 1;
        proof {
            assert(run_a(c, gv, time, r0, k as nat) == step_a(
                c,
                gv,
                time,
                run_a(c, gv, time, r0, (k - 1) as nat),
                (k - 1) as nat,
            ));
        }
    }

    let d_fin = distance_to_peak(&constant, state.px, state.py);
    let total = fx_add(ci, d_fin);
    proof {
        crate::env::lemma_square_nonneg(constant.x_peak);
        crate::env::lemma_square_nonneg(constant.y_peak);
    }
    let pk = fx_add(
        fx_mul(constant.x_peak, constant.x_peak),
        fx_mul(constant.y_peak, constant.y_peak),
    );
    let pd = fx_sqrt(pk);
    let q1 = fx_div(total, pd);
    proof {
        crate::fixed::lemma_fdiv_sign(total, pd);
        assert(constant.simulation_time > 0);
    }
    let q2 = fx_div(q1, constant.simulation_time);
    proof {
        crate::fixed::lemma_fdiv_sign(q1, constant.simulation_time);
        crate::fixed::lemma_fmul_sign(q2, constant.dt);
    }
    let norm = fx_mul(q2, constant.dt);
    let v = fx_sub(ONE, norm);
    if v < 0 {
        0
    } else {
        v
    }
}


/// Whether two turning rates share one strict sign.
pub open spec fn same_sign(a: i64, b: i64) -> bool {
    (a > 0 && b > 0) || (a < 0 && b < 0)
}

/// The fixed penalty per sign-consistent movement cycle.
pub const WAVE_PENALTY: i64 = 8_000;

/// One waveform-variant run's whole evolving state: the plain state
/// plus the sampled turning rate, the accumulated penalty, and the
/// seed state, which advances on pirouette steps only.
pub ghost struct RunStateB {
    pub m: StateModel,
    pub hist: Seq<i64>,
    pub ci: i64,
    pub wave_check: i64,
    pub wave_point: i64,
    pub rng: u64,
}

/// One waveform-variant step at step index `k`: a plain step, then a
/// forced random reorientation at the pirouette interval, then the
/// cycle-quarter sign bookkeeping.
pub open spec fn step_b(c: Const, gv: GeneView, t: Time, r: RunStateB, k: nat) -> RunStateB {
    let conc = linear_field(c, r.m.px, r.m.py) as i64;
    let h2 = if r.hist.len() > 0 {
        r.hist.drop_first().push(conc)
    } else {
        r.hist
    };
    let sig = on_off_signals(h2, t.n_time as int, t.m_time as int);
    let osc = osc_signal(c, elapsed(k, c.dt) as i64) as i64;
    let ci2 = fadd(r.ci, dist_to_peak(c, r.m.px, r.m.py) as i64) as i64;
    let s2 = step_model(c, gv, r.m, sig.0 as i64, sig.1 as i64, osc);
    let pirouette = (k as u64) % t.f_inv_time == t.f_inv_time - 1;
    let s3 = if pirouette {
        StateModel { mu: (rng_out(r.rng) % (TAU as u64)) as i64, ..s2 }
    } else {
        s2
    };
    let rng2 = if pirouette {
        rng_step(r.rng)
    } else {
        r.rng
    };
    let quarter = t.periodic_time / 4;
    let three_quarter = (t.periodic_time * 3) / 4;
    let wc2 = if (k as u64) % t.periodic_time == quarter {
        s2.phi
    } else {
        r.wave_check
    };
    let wp2 = if (k as u64) % t.periodic_time != quarter && (k as u64) % t.periodic_time
        == three_quarter && same_sign(r.wave_check, s2.phi) {
        fadd(r.wave_point, WAVE_PENALTY) as i64
    } else {
        r.wave_point
    };
    RunStateB { m: s3, hist: h2, ci: ci2, wave_check: wc2, wave_point: wp2, rng: rng2 }
}

/// The run state after `k` waveform-variant steps.
pub open spec fn run_b(c: Const, gv: GeneView, t: Time, r0: RunStateB, k: nat) -> RunStateB
    decreases k,
{
    if k == 0 {
        r0
    } else {
        step_b(c, gv, t, run_b(c, gv, t, r0, (k - 1) as nat), (k - 1) as nat)
    }
}

/// Reduce a finished waveform run: the plain index less the
/// accumulated penalty, never negative.
pub open spec fn ci_of_b(c: Const, rfin: RunStateB) -> int {
    let total = fadd(rfin.ci, dist_to_peak(c, rfin.m.px, rfin.m.py) as i64) as i64;
    let norm = fmul(
        fdiv(fdiv(total, peak_distance(c) as i64) as i64, c.simulation_time) as i64,
        c.dt,
    );
    let v = fsub(fsub(ONE, norm as i64) as i64, rfin.wave_point);
    if v < 0 {
        0
    } else {
        v
    }
}

/// The waveform-variant chemotaxis index of a genotype under a
/// configuration and seed.
pub open spec fn wave_value(g: Seq<i64>, s: Setting, seed: u64) -> int {
    let c = const_of(s, seed);
    let seed1 = seed_after_alpha(s, seed);
    let gv = gene_view_of(g);
    let t = time_of(c, gv);
    let r0 = RunStateB {
        m: init_model(seed1),
        hist: init_hist(c, t),
        ci: 0,
        wave_check: 0,
        wave_point: 0,
        rng: state_after(seed1, 5),
    };
    let rfin = run_b(c, gv, t, r0, (t.simulation_time - 1) as nat);
    ci_of_b(c, rfin)
}

/// The seed state when the waveform variant returns.
pub open spec fn seed_after_wave(g: Seq<i64>, s: Setting, seed: u64) -> u64 {
    let c = const_of(s, seed);
    let seed1 = seed_after_alpha(s, seed);
    let gv = gene_view_of(g);
    let t = time_of(c, gv);
    let r0 = RunStateB {
        m: init_model(seed1),
        hist: init_hist(c, t),
        ci: 0,
        wave_check: 0,
        wave_point: 0,
        rng: state_after(seed1, 5),
    };
    run_b(c, gv, t, r0, (t.simulation_time - 1) as nat).rng
}

/// The waveform-regularity chemotaxis index of one genotype: the
/// plain run with forced pirouettes, penalized when the turning rate
/// keeps one sign across a movement cycle.
pub fn chemotaxis_index_wave_check(gene: &Gene, setting: &Setting, rng: &mut Rng64) -> (r: i64)
    requires
        gene_ok(gene.gene@),
        gene.gene@.len() == GENE_COUNT,
        setting_ok(*setting),
    ensures
        r == wave_value(gene.gene@, *setting, old(rng).state),
        0 <= r <= ONE,
        final(rng).state == seed_after_wave(gene.gene@, *setting, old(rng).state),
{
    let ghost seed0 = rng.state;
    let constant = setting.const_new(rng);
    let weight = match gene.scaling() {
        Ok(w) => w,
        Err(_) => {
            proof {
                assert(false);
            }
            vstd::pervasive::unreached()
        },
    };
    let time = time_new(&weight, &constant);
    proof {
        assert(time == time_of(const_of(*setting, seed0), gene_view_of(gene.gene@)));
    }

    let hist_len = (time.n_time + time.m_time) as usize;
    let origin_conc = concentration(&constant, 0, 0);
    let mut c_vec: Vec<i64> = vec![origin_conc; hist_len];
    proof {
        assert(c_vec@ =~= init_hist(constant, time));
    }

    let mut state = init_state(rng);
    let mut ci: i64 = 0;
    let mut wave_check: i64 = 0;
    let mut wave_point: i64 = 0;
    let ghost c = constant;
    let ghost gv = gene_view_of(gene.gene@);
    let ghost r0 = RunStateB {
        m: state@,
        hist: c_vec@,
        ci: 0,
        wave_check: 0,
        wave_point: 0,
        rng: rng.state,
    };

    let steps = time.simulation_time - 1;
    let mut k: u64 = 0;
    while k < steps
        invariant
            0 <= k <= steps,
            steps == time.simulation_time - 1,
            const_ok(c),
            constant == c,
            gene_const_ok(weight),
            weight@ == gv,
            time_ok(time),
            model_ok(state@),
            hist_ok(c_vec@),
            c_vec@.len() == time.n_time + time.m_time,
            fx_ok(ci),
            ci >= 0,
            fx_ok(wave_check),
            fx_ok(wave_point),
            wave_point >= 0,
            state@ == run_b(c, gv, time, r0, k as nat).m,
            c_vec@ == run_b(c, gv, time, r0, k as nat).hist,
            ci == run_b(c, gv, time, r0, k as nat).ci,
            wave_check == run_b(c, gv, time, r0, k as nat).wave_check,
            wave_point == run_b(c, gv, time, r0, k as nat).wave_point,
            rng.state == run_b(c, gv, time, r0, k as nat).rng,
        decreases steps - k,
    {
        let conc = concentration(&constant, state.px, state.py);
        shift_hist(&mut c_vec, conc);
        let sig = y_on_off(&time, &c_vec);
        let t_now = fx_elapsed(k, constant.dt);
        let osc = y_osc(&constant, t_now);
        let d = distance_to_peak(&constant, state.px, state.py);
        ci = fx_add(ci, d);
        let stepped = circuit_step(&constant, &weight, &state, sig.0, sig.1, osc);
        let phi_now = stepped.phi;
        let pirouette = k % time.f_inv_time == time.f_inv_time - 1;
        state = if pirouette {
            let mu2 = rng.next_below(TAU as u64) as i64;
            StepState { mu: mu2, ..stepped }
        } else {
            stepped
        };
        let quarter = time.periodic_time / 4;
        let three_quarter = (time.periodic_time * 3) / 4;
        let phase = k % time.periodic_time;
        if phase == quarter {
            wave_check = phi_now;
        } else if phase == three_quarter && ((wave_check > 0 && phi_now > 0) || (wave_check < 0
            && phi_now < 0)) {
            wave_point = fx_add(wave_point, WAVE_PENALTY);
        }
        k = k + 1;
        proof {
            assert(run_b(c, gv, time, r0, k as nat) == step_b(
                c,
                gv,
                time,
                run_b(c, gv, time, r0, (k - 1) as nat),
                (k - 1) as nat,
            ));
        }
    }

    let d_fin = distance_to_peak(&constant, state.px, state.py);
    let total = fx_add(ci, d_fin);
    proof {
        crate::env::lemma_square_nonneg(constant.x_peak);
        crate::env::lemma_square_nonneg(constant.y_peak);
    }
    let pk = fx_add(
        fx_mul(constant.x_peak, constant.x_peak),
        fx_mul(constant.y_peak, constant.y_peak),
    );
    let pd = fx_sqrt(pk);
    let q1 = fx_div(total, pd);
    proof {
        crate::fixed::lemma_fdiv_sign(total, pd);
        assert(constant.simulation_time > 0);
    }
    let q2 = fx_div(q1, constant.simulation_time);
    proof {
        crate::fixed::lemma_fdiv_sign(q1, constant.simulation_time);
        crate::fixed::lemma_fmul_sign(q2, constant.dt);
    }
    let norm = fx_mul(q2, constant.dt);
    let v = fx_sub(fx_sub(ONE, norm), wave_point);
    if v < 0 {
        0
    } else {
        v
    }
}

} // verus!
