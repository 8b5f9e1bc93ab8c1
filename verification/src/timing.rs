//! Time discretization: continuous durations become whole step counts.
//!
//! Every count is the duration divided by the step size, truncated
//! toward zero — the one rounding rule of the library — except the
//! pirouette interval, which is floored at one step so that the
//! interval test is always meaningful.

use crate::fixed::{fdiv, fx_div, fx_ok, tdiv, ONE};
use crate::model::{const_ok, Const, MAX_STEPS};
use crate::params::{gene_const_ok, GeneConst};
use vstd::prelude::*;

verus! {

/// Whole step counts derived from the configuration and the genotype's
/// two sensory windows.
#[derive(Clone, Copy, Debug)]
pub struct Time {
    /// Steps in the whole simulation.
    pub simulation_time: u64,
    /// Steps in the ON-pathway sensory window.
    pub n_time: u64,
    /// Steps in the OFF-pathway sensory window.
    pub m_time: u64,
    /// Steps in one movement cycle.
    pub periodic_time: u64,
    /// Steps between forced pirouettes.
    pub f_inv_time: u64,
}

/// Step counts the integrator accepts.
pub open spec fn time_ok(t: Time) -> bool {
    &&& 1 <= t.simulation_time <= MAX_STEPS
    &&& t.n_time <= 50_000
    &&& t.m_time <= 50_000
    &&& 1 <= t.periodic_time <= MAX_STEPS
    &&& 1 <= t.f_inv_time <= 10_000_000_000u64
}

/// The pirouette interval in steps: the oscillation period over the
/// step size, never below one step.
pub open spec fn f_inv_steps(c: Const) -> int {
    let steps = tdiv(fdiv(ONE, c.frequency) as int, c.dt as int);
    if steps < 1 {
        1
    } else {
        steps
    }
}

/// Convert the configured durations and the genotype's sensory windows
/// into whole step counts.
pub fn time_new(weight: &GeneConst, constant: &Const) -> (t: Time)
    requires
        gene_const_ok(*weight),
        const_ok(*constant),
    ensures
        t.simulation_time == tdiv(constant.simulation_time as int, constant.dt as int),
        t.n_time == tdiv(weight.n as int, constant.dt as int),
        t.m_time == tdiv(weight.m as int, constant.dt as int),
        t.periodic_time == tdiv(constant.periodic_time as int, constant.dt as int),
        t.f_inv_time == f_inv_steps(*constant),
        time_ok(t),
{
    let sim: i64 = constant.simulation_time / constant.dt;
    let n: i64 = weight.n / constant.dt;
    let m: i64 = weight.m / constant.dt;
    let per: i64 = constant.periodic_time / constant.dt;
    proof {
        crate::trig::lemma_tdiv_pos_bound(weight.n as int, constant.dt as int, 50_000);
        assert(weight.n as int <= 50_000 * constant.dt) by (nonlinear_arith)
            requires
                weight.n <= 5 * ONE,
                constant.dt >= 100,
        ;
        crate::trig::lemma_tdiv_pos_bound(weight.m as int, constant.dt as int, 50_000);
        assert(weight.m as int <= 50_000 * constant.dt) by (nonlinear_arith)
            requires
                weight.m <= 5 * ONE,
                constant.dt >= 100,
        ;
    }
    let period: i64 = fx_div(ONE, constant.frequency);
    let finv_raw: i64 = period / constant.dt;
    proof {
        crate::fixed::lemma_fdiv_sign(ONE, constant.frequency);
        assert((ONE * ONE) as int <= (ONE as int * ONE) * (constant.frequency as int))
            by (nonlinear_arith)
            requires
                constant.frequency >= 1,
        ;
        crate::trig::lemma_tdiv_pos_bound((ONE * ONE) as int, constant.frequency as int, ONE as int * ONE);
        crate::trig::lemma_tdiv_pos_bound(period as int, constant.dt as int, 10_000_000_000i64 as int);
        assert(period as int <= 10_000_000_000i64 * (constant.dt as int)) by (nonlinear_arith)
            requires
                period <= ONE as int * ONE,
                constant.dt >= 100,
        ;
    }
    let finv: i64 = if finv_raw < 1 {
        1
    } else {
        finv_raw
    };
    Time {
        simulation_time: sim as u64,
        n_time: n as u64,
        m_time: m as u64,
        periodic_time: per as u64,
        f_inv_time: finv as u64,
    }
}

} // verus!
