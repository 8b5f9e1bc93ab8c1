//! A deterministic pseudo-random source.
//!
//! Every function of the library that needs entropy takes one of these
//! explicitly, so a fixed seed reproduces a whole simulation exactly and
//! parallel callers each own an independently seeded generator.  The
//! draws follow the splitmix construction: a counter advances by a fixed
//! odd constant and an output mix scrambles it.

use crate::fixed::{fmul, fx_mul, fx_ok, ONE};
use vstd::prelude::*;

verus! {

/// Counter increment between draws.
pub const GOLDEN: u64 = 0x9E37_79B9_7F4A_7C15;

pub const MIX_A: u64 = 0xBF58_476D_1CE4_E5B9;

pub const MIX_B: u64 = 0x94D0_49BB_1331_11EB;

/// The output mix applied to the counter; opaque, since no caller
/// reasons through the mixing arithmetic.
#[verifier::opaque]
pub open spec fn mix64(z0: u64) -> u64 {
    let z1 = vstd::wrapping::u64_specs::wrapping_mul(z0 ^ (z0 >> 30u64), MIX_A);
    let z2 = vstd::wrapping::u64_specs::wrapping_mul(z1 ^ (z1 >> 27u64), MIX_B);
    z2 ^ (z2 >> 31u64)
}

/// The counter after one draw.
pub open spec fn rng_step(s: u64) -> u64 {
    vstd::wrapping::u64_specs::wrapping_add(s, GOLDEN)
}

/// The raw value of the draw made from state `s`.
pub open spec fn rng_out(s: u64) -> u64 {
    mix64(rng_step(s))
}

/// A seeded pseudo-random source; the whole stream of draws is a
/// function of the seed alone.
pub struct Rng64 {
    pub state: u64,
}

impl Rng64 {
    pub fn new(seed: u64) -> (r: Rng64)
        ensures
            r.state == seed,
    {
        Rng64 { state: seed }
    }

    /// One raw draw.
    pub fn next_u64(&mut self) -> (r: u64)
        ensures
            final(self).state == rng_step(old(self).state),
            r == rng_out(old(self).state),
    {
        proof {
            reveal(mix64);
        }
        self.state = self.state.wrapping_add(GOLDEN);
        let z0: u64 = self.state;
        let z1: u64 = (z0 ^ (z0 >> 30u64)).wrapping_mul(MIX_A);
        let z2: u64 = (z1 ^ (z1 >> 27u64)).wrapping_mul(MIX_B);
        z2 ^ (z2 >> 31u64)
    }

    /// A draw reduced below a positive bound.
    pub fn next_below(&mut self, n: u64) -> (r: u64)
        requires
            n > 0,
        ensures
            final(self).state == rng_step(old(self).state),
            r == rng_out(old(self).state) % n,
            r < n,
    {
        let v = self.next_u64();
        v % n
    }

    /// A fixed-point draw, uniform over `[lo, hi)`; `lo` when the
    /// interval is empty.
    pub fn next_range(&mut self, lo: i64, hi: i64) -> (r: i64)
        requires
            fx_ok(lo),
            fx_ok(hi),
            lo <= hi,
        ensures
            final(self).state == if lo == hi {
                old(self).state
            } else {
                rng_step(old(self).state)
            },
            r == range_draw(old(self).state, lo, hi),
            lo <= r <= hi,
            fx_ok(r),
    {
        if lo == hi {
            return lo;
        }
        let span: u64 = (hi - lo) as u64;
        let v = self.next_below(span);
        lo + (v as i64)
    }

    /// The unit-interval draw `[0, 1)` used for probability tests.
    pub fn next_unit(&mut self) -> (r: i64)
        ensures
            final(self).state == rng_step(old(self).state),
            r == rng_out(old(self).state) % (ONE as u64),
            0 <= r < ONE,
    {
        let v = self.next_below(ONE as u64);
        v as i64
    }

    /// A centered, bell-shaped fixed-point draw: the sum of twelve
    /// unit draws, recentered, has mean zero and unit variance.
    pub fn next_standard_bell(&mut self) -> (r: i64)
        ensures
            final(self).state == state_after(old(self).state, 12),
            r == bell_sum(old(self).state, 12) - 6 * ONE,
            -6 * ONE <= r <= 6 * ONE,
            fx_ok(r),
    {
        let mut sum: i64 = 0;
        let mut k: usize = 0;
        while k < 12
            invariant
                0 <= k <= 12,
                sum == bell_sum(old(self).state, k as nat),
                self.state == state_after(old(self).state, k as nat),
                0 <= sum <= k * ONE,
            decreases 12 - k,
        {
            proof {
                reveal_with_fuel(bell_sum, 13);
                reveal_with_fuel(state_after, 13);
            }
            let u = self.next_unit();
            sum = sum + u;
            k = k + 1;
        }
        sum - 6 * ONE
    }

    /// A bell-shaped draw scaled to a given mean and spread.
    pub fn next_bell(&mut self, mean: i64, std: i64) -> (r: i64)
        requires
            fx_ok(mean),
            fx_ok(std),
        ensures
            r == fadd_spec(mean, fmul(std, (bell_sum(old(self).state, 12) - 6 * ONE) as i64)),
            fx_ok(r),
            final(self).state == state_after(old(self).state, 12),
    {
        let z = self.next_standard_bell();
        let scaled = fx_mul(std, z);
        crate::fixed::fx_add(mean, scaled)
    }
}

/// Shorthand for the clipped sum used by `next_bell`.
pub open spec fn fadd_spec(a: i64, b: int) -> int {
    crate::fixed::clip(a + b)
}

/// The sum of the first `k` unit draws from state `s`.
pub open spec fn bell_sum(s: u64, k: nat) -> int
    decreases k,
{
    if k == 0 {
        0
    } else {
        bell_sum(s, (k - 1) as nat) + rng_out(state_after(s, (k - 1) as nat)) % (ONE as u64)
    }
}

/// The state after `k` draws from state `s`.
pub open spec fn state_after(s: u64, k: nat) -> u64
    decreases k,
{
    if k == 0 {
        s
    } else {
        rng_step(state_after(s, (k - 1) as nat))
    }
}

/// The value `next_range` hands back.
pub open spec fn range_draw(s: u64, lo: i64, hi: i64) -> int {
    if lo == hi {
        lo as int
    } else {
        lo + rng_out(s) % ((hi - lo) as u64)
    }
}

} // verus!
