//! Simulation configuration.
//!
//! `Setting` is the loaded configuration; `Const` is one run's frozen
//! copy, in which the gradient steepness has been drawn from the
//! configured range.  All quantities are fixed-point millionths:
//! lengths in centimetres, durations in seconds, rates in hertz.

use crate::fixed::{fmul, fx_ok, tdiv, ONE};
use crate::rng::{range_draw, rng_step, Rng64};
use vstd::prelude::*;

verus! {

/// Most steps any one simulation may take: a memory limit, checked
/// once when the configuration is loaded.
pub const MAX_STEPS: u64 = 10_000_000;

/// Smallest accepted step size, one ten-thousandth of a second.
pub const MIN_DT: i64 = 100;

/// The loaded simulation configuration.
#[derive(Clone, Copy, Debug)]
pub struct Setting {
    /// Range the linear-gradient steepness is drawn from, per run.
    pub alpha: (i64, i64),
    /// Peak height of a bell-shaped concentration field.
    pub c_0: i64,
    /// Width of a bell-shaped concentration field.
    pub lambda: i64,
    /// Abscissa of the concentration peak.
    pub x_peak: i64,
    /// Ordinate of the concentration peak.
    pub y_peak: i64,
    /// Integration step size.
    pub dt: i64,
    /// Duration of one movement cycle.
    pub periodic_time: i64,
    /// Mean heading-oscillation frequency.
    pub frequency: i64,
    /// Crawling speed.
    pub velocity: i64,
    /// Simulated duration.
    pub simulation_time: i64,
    /// Membrane time constant.
    pub time_constant: i64,
}

/// One run's frozen constants: the same fields with the gradient
/// steepness already drawn.
#[derive(Clone, Copy, Debug)]
pub struct Const {
    pub alpha: i64,
    pub c_0: i64,
    pub lambda: i64,
    pub x_peak: i64,
    pub y_peak: i64,
    pub dt: i64,
    pub periodic_time: i64,
    pub frequency: i64,
    pub velocity: i64,
    pub simulation_time: i64,
    pub time_constant: i64,
}

/// The squared distance of the peak from the origin, in millionths.
pub open spec fn peak_sq(x_peak: i64, y_peak: i64) -> int {
    fmul(x_peak, x_peak) + fmul(y_peak, y_peak)
}

/// A configuration the simulator accepts: every field in the
/// fixed-point band, a positive step size and membrane constant, a
/// well-ordered steepness range, a peak measurably away from the
/// origin, and step counts that fit in memory.
pub open spec fn setting_ok(s: Setting) -> bool {
    &&& fx_ok(s.alpha.0)
    &&& fx_ok(s.alpha.1)
    &&& fx_ok(s.c_0)
    &&& fx_ok(s.lambda)
    &&& fx_ok(s.x_peak)
    &&& fx_ok(s.y_peak)
    &&& fx_ok(s.dt)
    &&& fx_ok(s.periodic_time)
    &&& fx_ok(s.frequency)
    &&& fx_ok(s.velocity)
    &&& fx_ok(s.simulation_time)
    &&& fx_ok(s.time_constant)
    &&& s.alpha.0 <= s.alpha.1
    &&& s.dt >= MIN_DT
    &&& s.time_constant > 0
    &&& s.frequency >= 1
    &&& s.velocity >= 0
    &&& peak_sq(s.x_peak, s.y_peak) >= 1
    &&& 1 <= tdiv(s.simulation_time as int, s.dt as int) <= MAX_STEPS
    &&& 1 <= tdiv(s.periodic_time as int, s.dt as int) <= MAX_STEPS
}

/// The same conditions on a frozen copy.
pub open spec fn const_ok(c: Const) -> bool {
    &&& fx_ok(c.alpha)
    &&& fx_ok(c.c_0)
    &&& fx_ok(c.lambda)
    &&& fx_ok(c.x_peak)
    &&& fx_ok(c.y_peak)
    &&& fx_ok(c.dt)
    &&& fx_ok(c.periodic_time)
    &&& fx_ok(c.frequency)
    &&& fx_ok(c.velocity)
    &&& fx_ok(c.simulation_time)
    &&& fx_ok(c.time_constant)
    &&& c.dt >= MIN_DT
    &&& c.time_constant > 0
    &&& c.frequency >= 1
    &&& c.velocity >= 0
    &&& peak_sq(c.x_peak, c.y_peak) >= 1
    &&& 1 <= tdiv(c.simulation_time as int, c.dt as int) <= MAX_STEPS
    &&& 1 <= tdiv(c.periodic_time as int, c.dt as int) <= MAX_STEPS
}

impl Setting {
    /// Whether the configuration is accepted; callers outside the
    /// library test this once at load time and stop on a failure.
    pub fn valid(&self) -> (r: bool)
        ensures
            r == setting_ok(*self),
    {
        let s = self;
        let bands = fx_ok_at(s.alpha.0) && fx_ok_at(s.alpha.1) && fx_ok_at(s.c_0) && fx_ok_at(
            s.lambda,
        ) && fx_ok_at(s.x_peak) && fx_ok_at(s.y_peak) && fx_ok_at(s.dt) && fx_ok_at(
            s.periodic_time,
        ) && fx_ok_at(s.frequency) && fx_ok_at(s.velocity) && fx_ok_at(s.simulation_time)
            && fx_ok_at(s.time_constant);
        if !bands {
            return false;
        }
        let pk = crate::fixed::fx_mul(s.x_peak, s.x_peak);
        let pk2 = crate::fixed::fx_mul(s.y_peak, s.y_peak);
        s.alpha.0 <= s.alpha.1 && s.dt >= MIN_DT && s.time_constant > 0 && s.frequency >= 1
            && s.velocity >= 0 && pk as i128 + pk2 as i128 >= 1 && {
            let sim_steps = s.simulation_time / s.dt;
            let per_steps = s.periodic_time / s.dt;
            1 <= sim_steps && sim_steps <= MAX_STEPS as i64 && 1 <= per_steps && per_steps
                <= MAX_STEPS as i64
        }
    }

    /// Freeze one run's constants, drawing the gradient steepness
    /// uniformly from the configured range.
    pub fn const_new(&self, rng: &mut Rng64) -> (c: Const)
        requires
            setting_ok(*self),
        ensures
            const_ok(c),
            c.alpha == range_draw(old(rng).state, self.alpha.0, self.alpha.1),
            self.alpha.0 <= c.alpha <= self.alpha.1,
            c.c_0 == self.c_0,
            c.lambda == self.lambda,
            c.x_peak == self.x_peak,
            c.y_peak == self.y_peak,
            c.dt == self.dt,
            c.periodic_time == self.periodic_time,
            c.frequency == self.frequency,
            c.velocity == self.velocity,
            c.simulation_time == self.simulation_time,
            c.time_constant == self.time_constant,
            final(rng).state == if self.alpha.0 == self.alpha.1 {
                old(rng).state
            } else {
                rng_step(old(rng).state)
            },
    {
        let a = rng.next_range(self.alpha.0, self.alpha.1);
        Const {
            alpha: a,
            c_0: self.c_0,
            lambda: self.lambda,
            x_peak: self.x_peak,
            y_peak: self.y_peak,
            dt: self.dt,
            periodic_time: self.periodic_time,
            frequency: self.frequency,
            velocity: self.velocity,
            simulation_time: self.simulation_time,
            time_constant: self.time_constant,
        }
    }
}

/// Runtime test of the fixed-point band.
pub fn fx_ok_at(v: i64) -> (r: bool)
    ensures
        r == fx_ok(v),
{
    -crate::fixed::LIM <= v && v <= crate::fixed::LIM
}

} // verus!
