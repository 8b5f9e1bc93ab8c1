//! The genetic-algorithm optimizer: populations of genotypes, sampled,
//! recombined, mutated, evaluated and ranked.
//!
//! Every source of randomness is the explicit seeded generator, so a
//! whole optimization run is a function of its seed.  The constrained
//! variant holds the two sign-locked synapse genes non-positive: fresh
//! individuals are flipped negative, and a mutation that would cross
//! zero is discarded rather than clamped.

use crate::fixed::{clamp_spec, fadd, fmul, fx_add, fx_clamp, fx_ok, tdiv, ONE};
use crate::fitness::{chemotaxis_index, chemotaxis_index_wave_check, chemotaxis_value, seed_after_ci, seed_after_wave, wave_value};
use crate::model::{setting_ok, Setting};
use crate::params::{gene_ok, Gene, GENE_COUNT, LOCKED_GENE_A, LOCKED_GENE_B};
use crate::rng::{fadd_spec, bell_sum, range_draw, rng_out, rng_step, state_after, Rng64};
use vstd::prelude::*;

verus! {

/// One individual: a genotype and its last evaluated fitness.
#[derive(Debug)]
pub struct Ga {
    /// The evaluated chemotaxis index; zero before evaluation.
    pub value: i64,
    /// The genotype.
    pub gene: Gene,
}

impl Clone for Ga {
    fn clone(&self) -> (r: Self)
        ensures
            r.value == self.value,
            r.gene.gene@ == self.gene.gene@,
    {
        Ga { value: self.value, gene: self.gene.clone() }
    }
}

/// A well-formed individual: a full-length genotype in the unit band,
/// a fitness in the band.
pub open spec fn ga_ok(g: Ga) -> bool {
    &&& fx_ok(g.value)
    &&& g.gene.gene@.len() == GENE_COUNT
    &&& gene_ok(g.gene.gene@)
}

/// The mathematical value of an individual.
pub open spec fn ga_model(g: Ga) -> (i64, Seq<i64>) {
    (g.value, g.gene.gene@)
}

/// The optimizer's configuration.
#[derive(Clone, Copy, Debug)]
pub struct Gasetting {
    /// Fitness evaluations averaged per individual.
    pub average: u32,
    /// Genes per genotype.
    pub gen_size: usize,
    /// Independent optimization runs.
    pub ga_count: usize,
    /// Generations per run.
    pub n_gen: usize,
    /// Individuals per population.
    pub pop_size: usize,
    /// Individuals selected into the elite pool.
    pub sel_top: usize,
    /// Crossover probability per selected pair.
    pub mat_pb: i64,
    /// Mutation probability per selected individual.
    pub mut_pb: i64,
    /// Generations between full re-evaluations.
    pub re_val: usize,
}

/// A configuration the optimizer accepts: a non-empty population that
/// fits in memory, an elite pool within it, probabilities in the unit
/// band, full-length genotypes, and a positive re-evaluation interval.
pub open spec fn ga_setting_ok(g: Gasetting) -> bool {
    &&& 1 <= g.average <= 1000
    &&& g.gen_size == GENE_COUNT
    &&& 1 <= g.ga_count <= 10_000
    &&& g.n_gen <= 100_000
    &&& 1 <= g.pop_size <= 100_000
    &&& g.sel_top <= g.pop_size
    &&& 0 <= g.mat_pb <= ONE
    &&& 0 <= g.mut_pb <= ONE
    &&& 1 <= g.re_val
}

impl Gasetting {
    /// Whether the optimizer configuration is accepted; callers test
    /// this once at load time and stop on a failure.
    pub fn valid(&self) -> (r: bool)
        ensures
            r == ga_setting_ok(*self),
    {
        1 <= self.average && self.average <= 1000 && self.gen_size == GENE_COUNT
            && 1 <= self.ga_count && self.ga_count <= 10_000 && self.n_gen <= 100_000
            && 1 <= self.pop_size && self.pop_size <= 100_000 && self.sel_top <= self.pop_size
            && 0 <= self.mat_pb && self.mat_pb <= ONE && 0 <= self.mut_pb && self.mut_pb <= ONE
            && 1 <= self.re_val
    }
}

/// Sample one fresh population: every gene drawn uniformly from the
/// unit band, every fitness zero; the draws consume one generator step
/// per gene, row by row.
pub fn population_new(gen_size: usize, pop_size: usize, rng: &mut Rng64) -> (r: Vec<Ga>)
    requires
        1 <= gen_size <= 10_000,
        pop_size <= 100_000,
    ensures
        r@.len() == pop_size,
        forall|i: int| 0 <= i < pop_size ==> (#[trigger] r@[i]).value == 0,
        forall|i: int| 0 <= i < pop_size ==> (#[trigger] r@[i]).gene.gene@.len() == gen_size,
        forall|i: int, j: int|
            0 <= i < pop_size && 0 <= j < gen_size ==> (#[trigger] r@[i].gene.gene@[j])
                == range_draw(
                state_after(old(rng).state, (i * gen_size + j) as nat),
                -ONE as i64,
                ONE,
            ),
        forall|i: int| 0 <= i < pop_size ==> gene_ok((#[trigger] r@[i]).gene.gene@),
        final(rng).state == state_after(old(rng).state, (pop_size * gen_size) as nat),
{
    let ghost s0 = rng.state;
    let mut population: Vec<Ga> = Vec::new();
    let mut i: usize = 0;
    proof {
        assert(state_after(s0, 0) == s0);
    }
    while i < pop_size
        invariant
            0 <= i <= pop_size,
            1 <= gen_size <= 10_000,
            pop_size <= 100_000,
            population@.len() == i,
            forall|k: int| 0 <= k < i ==> (#[trigger] population@[k]).value == 0,
            forall|k: int| 0 <= k < i ==> (#[trigger] population@[k]).gene.gene@.len() == gen_size,
            forall|k: int, j: int|
                0 <= k < i && 0 <= j < gen_size ==> (#[trigger] population@[k].gene.gene@[j])
                    == range_draw(state_after(s0, (k * gen_size + j) as nat), -ONE as i64, ONE),
            forall|k: int| 0 <= k < i ==> gene_ok((#[trigger] population@[k]).gene.gene@),
            rng.state == state_after(s0, (i * gen_size) as nat),
        decreases pop_size - i,
    {
        let mut gene: Vec<i64> = Vec::new();
        let mut j: usize = 0;
        while j < gen_size
            invariant
                0 <= j <= gen_size <= 10_000,
                i < pop_size <= 100_000,
                gene@.len() == j,
                forall|q: int| 0 <= q < j ==> (#[trigger] gene@[q]) == range_draw(
                    state_after(s0, (i * gen_size + q) as nat),
                    -ONE as i64,
                    ONE,
                ),
                forall|q: int| 0 <= q < j ==> -ONE <= (#[trigger] gene@[q]) <= ONE,
                rng.state == state_after(s0, (i * gen_size + j) as nat),
            decreases gen_size - j,
        {
            let v = rng.next_range(-ONE, ONE);
            gene.push(v);
            j = j + 1;
            proof {
                assert(state_after(s0, (i * gen_size + j) as nat) == rng_step(
                    state_after(s0, (i * gen_size + j - 1) as nat),
                ));
            }
        }
        population.push(Ga { value: 0, gene: Gene { gene } });
        i = i + 1;
        proof {
            assert(i * gen_size == (i - 1) * gen_size + gen_size) by (nonlinear_arith);
        }
    }
    population
}

/// A draw flipped non-positive: what the constrained variant stores in
/// a sign-locked gene position.
pub open spec fn nonpos_of(v: i64) -> i64 {
    if v > 0 {
        (-v) as i64
    } else {
        v
    }
}

/// Sample one fresh population for the constrained variant: as
/// `population_new`, with the two sign-locked genes flipped
/// non-positive after the draw.
pub fn population_new_aiy_aiz_negative(gen_size: usize, pop_size: usize, rng: &mut Rng64) -> (r:
    Vec<Ga>)
    requires
        14 <= gen_size <= 10_000,
        pop_size <= 100_000,
    ensures
        r@.len() == pop_size,
        forall|i: int| 0 <= i < pop_size ==> (#[trigger] r@[i]).value == 0,
        forall|i: int| 0 <= i < pop_size ==> (#[trigger] r@[i]).gene.gene@.len() == gen_size,
        forall|i: int, j: int|
            0 <= i < pop_size && 0 <= j < gen_size ==> (#[trigger] r@[i].gene.gene@[j]) == {
                let drawn = range_draw(
                    state_after(old(rng).state, (i * gen_size + j) as nat),
                    -ONE as i64,
                    ONE,
                ) as i64;
                if j == LOCKED_GENE_A || j == LOCKED_GENE_B {
                    nonpos_of(drawn)
                } else {
                    drawn
                }
            },
        forall|i: int| 0 <= i < pop_size ==> gene_ok((#[trigger] r@[i]).gene.gene@),
        forall|i: int|
            0 <= i < pop_size ==> (#[trigger] r@[i]).gene.gene@[LOCKED_GENE_A as int] <= 0
                && r@[i].gene.gene@[LOCKED_GENE_B as int] <= 0,
        final(rng).state == state_after(old(rng).state, (pop_size * gen_size) as nat),
{
    let ghost s0 = rng.state;
    let population = population_new(gen_size, pop_size, rng);
    let mut out: Vec<Ga> = Vec::new();
    let mut i: usize = 0;
    while i < population.len()
        invariant
            0 <= i <= population@.len(),
            population@.len() == pop_size,
            14 <= gen_size <= 10_000,
            forall|k: int| 0 <= k < pop_size ==> (#[trigger] population@[k]).value == 0,
            forall|k: int|
                0 <= k < pop_size ==> (#[trigger] population@[k]).gene.gene@.len() == gen_size,
            forall|k: int, j: int|
                0 <= k < pop_size && 0 <= j < gen_size ==> (
                #[trigger] population@[k].gene.gene@[j]) == range_draw(
                    state_after(s0, (k * gen_size + j) as nat),
                    -ONE as i64,
                    ONE,
                ),
            forall|k: int|
                0 <= k < pop_size ==> gene_ok((#[trigger] population@[k]).gene.gene@),
            out@.len() == i,
            forall|k: int| 0 <= k < i ==> (#[trigger] out@[k]).value == 0,
            forall|k: int| 0 <= k < i ==> (#[trigger] out@[k]).gene.gene@.len() == gen_size,
            forall|k: int, j: int|
                0 <= k < i && 0 <= j < gen_size ==> (#[trigger] out@[k].gene.gene@[j]) == {
                    let drawn = range_draw(
                        state_after(s0, (k * gen_size + j) as nat),
                        -ONE as i64,
                        ONE,
                    ) as i64;
                    if j == LOCKED_GENE_A || j == LOCKED_GENE_B {
                        nonpos_of(drawn)
                    } else {
                        drawn
                    }
                },
            forall|k: int| 0 <= k < i ==> gene_ok((#[trigger] out@[k]).gene.gene@),
        decreases population@.len() - i,
    {
        let src = &population[i];
        let mut gene2: Vec<i64> = Vec::new();
        let mut j: usize = 0;
        while j < gen_size
            invariant
                0 <= j <= gen_size,
                i < pop_size,
                src == &population@[i as int],
                population@.len() == pop_size,
                14 <= gen_size <= 10_000,
                src.gene.gene@.len() == gen_size,
                gene_ok(src.gene.gene@),
                gene2@.len() == j,
                forall|q: int| 0 <= q < j ==> (#[trigger] gene2@[q]) == {
                    let drawn = src.gene.gene@[q];
                    if q == LOCKED_GENE_A || q == LOCKED_GENE_B {
                        nonpos_of(drawn)
                    } else {
                        drawn
                    }
                },
                forall|q: int| 0 <= q < j ==> -ONE <= (#[trigger] gene2@[q]) <= ONE,
            decreases gen_size - j,
        {
            let v = src.gene.gene[j];
            let v2 = if (j == LOCKED_GENE_A || j == LOCKED_GENE_B) && v > 0 {
                -v
            } else {
                v
            };
            gene2.push(v2);
            j = j + 1;
        }
        out.push(Ga { value: 0, gene: Gene { gene: gene2 } });
        i = i + 1;
    }
    out
}

/// The gene a child inherits at position `i` when the segment
/// `[start, end)` is swapped.
pub open spec fn crossed(p_keep: Seq<i64>, p_swap: Seq<i64>, start: int, end: int, i: int) -> i64 {
    if start <= i < end {
        p_swap[i]
    } else {
        p_keep[i]
    }
}

/// Two-point crossover: two cut points drawn over the gene positions
/// and ordered; each child copies one parent outside the cut segment
/// and the other parent inside it, so every child gene comes from
/// exactly one parent.  Children carry fitness zero.
pub fn two_point_crossover(parent1: &Ga, parent2: &Ga, rng: &mut Rng64) -> (r: Vec<Ga>)
    requires
        parent1.gene.gene@.len() == parent2.gene.gene@.len(),
        1 <= parent1.gene.gene@.len() <= 10_000,
    ensures
        r@.len() == 2,
        r@[0].gene.gene@.len() == parent1.gene.gene@.len(),
        r@[1].gene.gene@.len() == parent1.gene.gene@.len(),
        r@[0].value == 0 && r@[1].value == 0,
        ({
            let len = parent1.gene.gene@.len() as u64;
            let a = rng_out(old(rng).state) % len;
            let b = rng_out(rng_step(old(rng).state)) % len;
            let start = if a < b {
                a
            } else {
                b
            };
            let end = if a < b {
                b
            } else {
                a
            };
            &&& forall|i: int|
                0 <= i < len ==> (#[trigger] r@[0].gene.gene@[i]) == crossed(
                    parent1.gene.gene@,
                    parent2.gene.gene@,
                    start as int,
                    end as int,
                    i,
                )
            &&& forall|i: int|
                0 <= i < len ==> (#[trigger] r@[1].gene.gene@[i]) == crossed(
                    parent2.gene.gene@,
                    parent1.gene.gene@,
                    start as int,
                    end as int,
                    i,
                )
        }),
        forall|i: int|
            0 <= i < parent1.gene.gene@.len() ==> (#[trigger] r@[0].gene.gene@[i])
                == parent1.gene.gene@[i] || r@[0].gene.gene@[i] == parent2.gene.gene@[i],
        forall|i: int|
            0 <= i < parent1.gene.gene@.len() ==> (#[trigger] r@[1].gene.gene@[i])
                == parent1.gene.gene@[i] || r@[1].gene.gene@[i] == parent2.gene.gene@[i],
        final(rng).state == state_after(old(rng).state, 2),
{
    let len = parent1.gene.gene.len();
    let a = rng.next_below(len as u64) as usize;
    let b = rng.next_below(len as u64) as usize;
    let (start, end) = if a < b {
        (a, b)
    } else {
        (b, a)
    };
    let mut child1: Vec<i64> = Vec::new();
    let mut child2: Vec<i64> = Vec::new();
    let mut i: usize = 0;
    while i < len
        invariant
            0 <= i <= len,
            len == parent1.gene.gene@.len(),
            len == parent2.gene.gene@.len(),
            start <= end < len,
            child1@.len() == i,
            child2@.len() == i,
            forall|q: int| 0 <= q < i ==> (#[trigger] child1@[q]) == crossed(
                parent1.gene.gene@,
                parent2.gene.gene@,
                start as int,
                end as int,
                q,
            ),
            forall|q: int| 0 <= q < i ==> (#[trigger] child2@[q]) == crossed(
                parent2.gene.gene@,
                parent1.gene.gene@,
                start as int,
                end as int,
                q,
            ),
        decreases len - i,
    {
        if start <= i && i < end {
            child1.push(parent2.gene.gene[i]);
            child2.push(parent1.gene.gene[i]);
        } else {
            child1.push(parent1.gene.gene[i]);
            child2.push(parent2.gene.gene[i]);
        }
        i = i + 1;
    }
    let mut r: Vec<Ga> = Vec::new();
    r.push(Ga { value: 0, gene: Gene { gene: child1 } });
    r.push(Ga { value: 0, gene: Gene { gene: child2 } });
    proof {
        reveal_with_fuel(state_after, 3);
    }
    r
}


/// The mutation noise parameters the optimizer applies to selected
/// individuals: per-gene rate, noise mean and spread.
pub const MUT_GENE_RATE: i64 = 400_000;

pub const MUT_MEAN: i64 = 0;

pub const MUT_STD: i64 = 50_000;

/// One gene's plain mutation: a unit draw against the rate; on a hit,
/// a bell-shaped delta is added and the result clamped to the unit
/// band.
pub open spec fn plain_mutated(v: i64, rate: i64, mean: i64, std: i64, s: u64) -> (i64, u64) {
    let u = rng_out(s) % (ONE as u64);
    let s1 = rng_step(s);
    if u < rate {
        let delta = fadd_spec(mean, fmul(std, (bell_sum(s1, 12) - 6 * ONE) as i64)) as i64;
        (clamp_spec(fadd(v, delta) as i64, -ONE as i64, ONE), state_after(s1, 12))
    } else {
        (v, s1)
    }
}

/// One gene's sign-locked mutation: a delta that would carry the gene
/// above zero is discarded outright, one that undershoots the band is
/// floored.
pub open spec fn locked_mutated(v: i64, rate: i64, mean: i64, std: i64, s: u64) -> (i64, u64) {
    let u = rng_out(s) % (ONE as u64);
    let s1 = rng_step(s);
    if u < rate {
        let delta = fadd_spec(mean, fmul(std, (bell_sum(s1, 12) - 6 * ONE) as i64)) as i64;
        let sum = fadd(v, delta) as i64;
        let nv = if sum > 0 {
            v
        } else if sum < -ONE {
            (-ONE) as i64
        } else {
            sum
        };
        (nv, state_after(s1, 12))
    } else {
        (v, s1)
    }
}

/// The first `i` genes after plain mutation, with the seed threaded
/// through.
pub open spec fn mutate_fold(g: Seq<i64>, rate: i64, mean: i64, std: i64, s: u64, i: nat) -> (
    Seq<i64>,
    u64,
)
    decreases i,
{
    if i == 0 {
        (Seq::empty(), s)
    } else {
        let prev = mutate_fold(g, rate, mean, std, s, (i - 1) as nat);
        let one = plain_mutated(g[i - 1], rate, mean, std, prev.1);
        (prev.0.push(one.0), one.1)
    }
}

/// The first `i` genes after constrained mutation: the two sign-locked
/// positions use the discard rule, all others the plain rule.
pub open spec fn mutate_locked_fold(g: Seq<i64>, rate: i64, mean: i64, std: i64, s: u64, i: nat) -> (
    Seq<i64>,
    u64,
)
    decreases i,
{
    if i == 0 {
        (Seq::empty(), s)
    } else {
        let prev = mutate_locked_fold(g, rate, mean, std, s, (i - 1) as nat);
        let one = if i - 1 == LOCKED_GENE_A || i - 1 == LOCKED_GENE_B {
            locked_mutated(g[i - 1], rate, mean, std, prev.1)
        } else {
            plain_mutated(g[i - 1], rate, mean, std, prev.1)
        };
        (prev.0.push(one.0), one.1)
    }
}

/// Perturb every gene independently with bell-shaped noise at the
/// given per-gene rate, clamping into the unit band; the child carries
/// fitness zero.
pub fn mutation(ga: &Ga, rate: i64, mean_std: (i64, i64), rng: &mut Rng64) -> (r: Ga)
    requires
        0 <= rate <= ONE,
        fx_ok(mean_std.0),
        fx_ok(mean_std.1),
        gene_ok(ga.gene.gene@),
        ga.gene.gene@.len() <= 10_000,
    ensures
        r.value == 0,
        r.gene.gene@ == mutate_fold(
            ga.gene.gene@,
            rate,
            mean_std.0,
            mean_std.1,
            old(rng).state,
            ga.gene.gene@.len() as nat,
        ).0,
        r.gene.gene@.len() == ga.gene.gene@.len(),
        gene_ok(r.gene.gene@),
        final(rng).state == mutate_fold(
            ga.gene.gene@,
            rate,
            mean_std.0,
            mean_std.1,
            old(rng).state,
            ga.gene.gene@.len() as nat,
        ).1,
{
    let ghost s0 = rng.state;
    let ghost g = ga.gene.gene@;
    let len = ga.gene.gene.len();
    let mut out: Vec<i64> = Vec::new();
    let mut i: usize = 0;
    while i < len
        invariant
            0 <= i <= len,
            len == g.len() <= 10_000,
            g == ga.gene.gene@,
            gene_ok(g),
            0 <= rate <= ONE,
            fx_ok(mean_std.0),
            fx_ok(mean_std.1),
            out@ == mutate_fold(g, rate, mean_std.0, mean_std.1, s0, i as nat).0,
            out@.len() == i,
            forall|q: int| 0 <= q < i ==> -ONE <= (#[trigger] out@[q]) <= ONE,
            rng.state == mutate_fold(g, rate, mean_std.0, mean_std.1, s0, i as nat).1,
        decreases len - i,
    {
        let v = ga.gene.gene[i];
        let u = rng.next_unit();
        let nv: i64 = if u < rate {
            let delta = rng.next_bell(mean_std.0, mean_std.1);
            fx_clamp(crate::fixed::fx_add(v, delta), -ONE, ONE)
        } else {
            v
        };
        out.push(nv);
        i = i + 1;
        proof {
            assert(out@ =~= mutate_fold(g, rate, mean_std.0, mean_std.1, s0, i as nat).0);
        }
    }
    Ga { value: 0, gene: Gene { gene: out } }
}

/// Perturb every gene as `mutation` does, except that at the two
/// sign-locked positions a delta that would cross zero is discarded
/// and one that undershoots is floored; the child carries fitness
/// zero, and non-positive locked genes stay non-positive.
pub fn mutation_aiy_aiz_negative(ga: &Ga, rate: i64, mean_std: (i64, i64), rng: &mut Rng64) -> (r:
    Ga)
    requires
        0 <= rate <= ONE,
        fx_ok(mean_std.0),
        fx_ok(mean_std.1),
        gene_ok(ga.gene.gene@),
        ga.gene.gene@.len() <= 10_000,
    ensures
        r.value == 0,
        r.gene.gene@ == mutate_locked_fold(
            ga.gene.gene@,
            rate,
            mean_std.0,
            mean_std.1,
            old(rng).state,
            ga.gene.gene@.len() as nat,
        ).0,
        r.gene.gene@.len() == ga.gene.gene@.len(),
        gene_ok(r.gene.gene@),
        ga.gene.gene@.len() > LOCKED_GENE_A && ga.gene.gene@[LOCKED_GENE_A as int] <= 0
            ==> r.gene.gene@[LOCKED_GENE_A as int] <= 0,
        ga.gene.gene@.len() > LOCKED_GENE_B && ga.gene.gene@[LOCKED_GENE_B as int] <= 0
            ==> r.gene.gene@[LOCKED_GENE_B as int] <= 0,
        final(rng).state == mutate_locked_fold(
            ga.gene.gene@,
            rate,
            mean_std.0,
            mean_std.1,
            old(rng).state,
            ga.gene.gene@.len() as nat,
        ).1,
{
    let ghost s0 = rng.state;
    let ghost g = ga.gene.gene@;
    let len = ga.gene.gene.len();
    let mut out: Vec<i64> = Vec::new();
    let mut i: usize = 0;
    while i < len
        invariant
            0 <= i <= len,
            len == g.len() <= 10_000,
            g == ga.gene.gene@,
            gene_ok(g),
            0 <= rate <= ONE,
            fx_ok(mean_std.0),
            fx_ok(mean_std.1),
            out@ == mutate_locked_fold(g, rate, mean_std.0, mean_std.1, s0, i as nat).0,
            out@.len() == i,
            forall|q: int| 0 <= q < i ==> -ONE <= (#[trigger] out@[q]) <= ONE,
            forall|q: int|
                0 <= q < i && (q == LOCKED_GENE_A || q == LOCKED_GENE_B) && g[q] <= 0 ==> (
                #[trigger] out@[q]) <= 0,
            rng.state == mutate_locked_fold(g, rate, mean_std.0, mean_std.1, s0, i as nat).1,
        decreases len - i,
    {
        let v = ga.gene.gene[i];
        let u = rng.next_unit();
        let locked = i == LOCKED_GENE_A || i == LOCKED_GENE_B;
        let nv: i64 = if u < rate {
            let delta = rng.next_bell(mean_std.0, mean_std.1);
            if locked {
                let sum = crate::fixed::fx_add(v, delta);
                if sum > 0 {
                    v
                } else if sum < -ONE {
                    -ONE
                } else {
                    sum
                }
            } else {
                fx_clamp(crate::fixed::fx_add(v, delta), -ONE, ONE)
            }
        } else {
            v
        };
        out.push(nv);
        i = i + 1;
        proof {
            assert(out@ =~= mutate_locked_fold(g, rate, mean_std.0, mean_std.1, s0, i as nat).0);
        }
    }
    Ga { value: 0, gene: Gene { gene: out } }
}

/// The genotype after `k` whole rounds of constrained mutation.
pub open spec fn mutate_locked_iter(
    g: Seq<i64>,
    rate: i64,
    mean: i64,
    std: i64,
    s: u64,
    k: nat,
) -> (Seq<i64>, u64)
    decreases k,
{
    if k == 0 {
        (g, s)
    } else {
        let prev = mutate_locked_iter(g, rate, mean, std, s, (k - 1) as nat);
        mutate_locked_fold(prev.0, rate, mean, std, prev.1, prev.0.len())
    }
}

/// The constrained fold keeps its length and the per-position rules.
proof fn lemma_locked_fold_shape(g: Seq<i64>, rate: i64, mean: i64, std: i64, s: u64, i: nat)
    requires
        i <= g.len(),
    ensures
        mutate_locked_fold(g, rate, mean, std, s, i).0.len() == i,
        forall|j: int|
            0 <= j < i && (j == LOCKED_GENE_A || j == LOCKED_GENE_B) && g[j] <= 0 ==> (
            #[trigger] mutate_locked_fold(g, rate, mean, std, s, i).0[j]) <= 0,
    decreases i,
{
    if i > 0 {
        lemma_locked_fold_shape(g, rate, mean, std, s, (i - 1) as nat);
    }
}

/// However many rounds of constrained mutation are applied, the two
/// sign-locked genes never turn positive.
pub proof fn lemma_constrained_mutation_stays_locked(
    g: Seq<i64>,
    rate: i64,
    mean: i64,
    std: i64,
    s: u64,
    k: nat,
)
    requires
        g.len() >= 14,
        g[LOCKED_GENE_A as int] <= 0,
        g[LOCKED_GENE_B as int] <= 0,
    ensures
        mutate_locked_iter(g, rate, mean, std, s, k).0.len() == g.len(),
        mutate_locked_iter(g, rate, mean, std, s, k).0[LOCKED_GENE_A as int] <= 0,
        mutate_locked_iter(g, rate, mean, std, s, k).0[LOCKED_GENE_B as int] <= 0,
    decreases k,
{
    if k > 0 {
        lemma_constrained_mutation_stays_locked(g, rate, mean, std, s, (k - 1) as nat);
        let prev = mutate_locked_iter(g, rate, mean, std, s, (k - 1) as nat);
        lemma_locked_fold_shape(prev.0, rate, mean, std, prev.1, prev.0.len());
    }
}


/// Which chemotaxis index a fitness evaluation runs: the plain index
/// or the waveform-regularity variant.
#[derive(Clone, Copy, Debug, PartialEq, Eq, Structural)]
pub enum FitnessVariant {
    Plain,
    WaveCheck,
}

/// The index one seeded evaluation yields.
pub open spec fn fit_value(variant: FitnessVariant, g: Seq<i64>, s: Setting, seed: u64) -> int {
    match variant {
        FitnessVariant::Plain => chemotaxis_value(g, s, seed),
        FitnessVariant::WaveCheck => wave_value(g, s, seed),
    }
}

/// The seed state one evaluation leaves behind.
pub open spec fn fit_seed_after(variant: FitnessVariant, g: Seq<i64>, s: Setting, seed: u64) -> u64 {
    match variant {
        FitnessVariant::Plain => seed_after_ci(s, seed),
        FitnessVariant::WaveCheck => seed_after_wave(g, s, seed),
    }
}

/// The summed index over `count` seeded evaluations, and the seed
/// state after them; opaque, since callers reason about whole
/// evaluations, never through one.
#[verifier::opaque]
pub open spec fn fitness_fold(
    variant: FitnessVariant,
    g: Seq<i64>,
    s: Setting,
    seed: u64,
    count: nat,
) -> (int, u64)
    decreases count,
{
    if count == 0 {
        (0, seed)
    } else {
        let prev = fitness_fold(variant, g, s, seed, (count - 1) as nat);
        (
            fadd(prev.0 as i64, fit_value(variant, g, s, prev.1) as i64),
            fit_seed_after(variant, g, s, prev.1),
        )
    }
}

impl Ga {
    /// The averaged fitness of this individual: the chosen index,
    /// evaluated `average` times on consecutive seeds and divided by
    /// the count, to damp the run-to-run noise of the random initial
    /// heading, motor seed and gradient steepness.
    #[verifier::rlimit(60)]
    pub fn fitness(
        &self,
        setting: &Setting,
        average: u32,
        variant: FitnessVariant,
        rng: &mut Rng64,
    ) -> (r: i64)
        requires
            ga_ok(*self),
            setting_ok(*setting),
            1 <= average <= 1000,
        ensures
            r == tdiv(
                fitness_fold(variant, self.gene.gene@, *setting, old(rng).state, average as nat).0,
                average as int,
            ),
            0 <= r <= ONE,
            final(rng).state == fitness_fold(
                variant,
                self.gene.gene@,
                *setting,
                old(rng).state,
                average as nat,
            ).1,
    {
        let ghost s0 = rng.state;
        proof {
            reveal(fitness_fold);
        }
        let mut sum: i64 = 0;
        let mut k: u32 = 0;
        while k < average
            invariant
                0 <= k <= average <= 1000,
                ga_ok(*self),
                setting_ok(*setting),
                sum == fitness_fold(variant, self.gene.gene@, *setting, s0, k as nat).0,
                0 <= sum <= k * ONE,
                rng.state == fitness_fold(variant, self.gene.gene@, *setting, s0, k as nat).1,
            decreases average - k,
        {
            let v = match variant {
                FitnessVariant::Plain => chemotaxis_index(&self.gene, setting, rng),
                FitnessVariant::WaveCheck => chemotaxis_index_wave_check(&self.gene, setting, rng),
            };
            sum = crate::fixed::fx_add(sum, v);
            k = k + 1;
            proof {
                reveal(fitness_fold);
            }
        }
        proof {
            crate::trig::lemma_tdiv_pos_bound(sum as int, average as int, ONE as int);
            assert(sum as int <= (ONE as int) * average) by (nonlinear_arith)
                requires
                    sum <= average * ONE,
            ;
        }
        sum / (average as i64)
    }
}

/// The genotypes of a whole population.
pub open spec fn genotypes(s: Seq<Ga>) -> Seq<Seq<i64>> {
    s.map_values(|g: Ga| g.gene.gene@)
}

/// The seed state after the first `i` of a row of genotypes have been
/// evaluated in order.
pub open spec fn eval_seed(
    variant: FitnessVariant,
    genes: Seq<Seq<i64>>,
    s: Setting,
    average: nat,
    seed: u64,
    i: nat,
) -> u64
    decreases i,
{
    if i == 0 {
        seed
    } else {
        fitness_fold(
            variant,
            genes[i - 1],
            s,
            eval_seed(variant, genes, s, average, seed, (i - 1) as nat),
            average,
        ).1
    }
}

/// The fitness each genotype of a row receives when the row is
/// evaluated in order from one seed.
pub open spec fn eval_value(
    variant: FitnessVariant,
    genes: Seq<Seq<i64>>,
    s: Setting,
    average: nat,
    seed: u64,
    i: int,
) -> i64 {
    tdiv(
        fitness_fold(
            variant,
            genes[i],
            s,
            eval_seed(variant, genes, s, average, seed, i as nat),
            average,
        ).0,
        average as int,
    ) as i64
}

/// The population models an evaluation pass yields: every genotype
/// kept, every fitness the averaged seeded index of that genotype.
pub open spec fn eval_models(
    variant: FitnessVariant,
    ms: Seq<(i64, Seq<i64>)>,
    s: Setting,
    average: nat,
    seed: u64,
) -> Seq<(i64, Seq<i64>)> {
    Seq::new(
        ms.len(),
        |i: int| (eval_value(variant, ms.map_values(|m: (i64, Seq<i64>)| m.1), s, average, seed, i), ms[i].1),
    )
}

/// Evaluate a whole population in order: each individual keeps its
/// genotype and receives its averaged fitness, on seeds threaded
/// through the population.
#[verifier::rlimit(60)]
pub fn evaluate_fitness(
    population: &Vec<Ga>,
    setting: &Setting,
    average: u32,
    variant: FitnessVariant,
    rng: &mut Rng64,
) -> (r: Vec<Ga>)
    requires
        forall|i: int| 0 <= i < population@.len() ==> ga_ok(#[trigger] population@[i]),
        population@.len() <= 1_000_000,
        setting_ok(*setting),
        1 <= average <= 1000,
    ensures
        r@.len() == population@.len(),
        forall|i: int|
            0 <= i < r@.len() ==> (#[trigger] r@[i]).gene.gene@ == population@[i].gene.gene@,
        forall|i: int|
            0 <= i < r@.len() ==> (#[trigger] r@[i]).value == eval_value(
                variant,
                genotypes(population@),
                *setting,
                average as nat,
                old(rng).state,
                i,
            ),
        forall|i: int| 0 <= i < r@.len() ==> 0 <= (#[trigger] r@[i]).value <= ONE,
        forall|i: int| 0 <= i < r@.len() ==> ga_ok(#[trigger] r@[i]),
        models(r@) == eval_models(
            variant,
            models(population@),
            *setting,
            average as nat,
            old(rng).state,
        ),
        final(rng).state == eval_seed(
            variant,
            genotypes(population@),
            *setting,
            average as nat,
            old(rng).state,
            population@.len() as nat,
        ),
{
    let ghost s0 = rng.state;
    let mut r: Vec<Ga> = Vec::new();
    let mut i: usize = 0;
    while i < population.len()
        invariant
            0 <= i <= population@.len() <= 1_000_000,
            forall|k: int| 0 <= k < population@.len() ==> ga_ok(#[trigger] population@[k]),
            setting_ok(*setting),
            1 <= average <= 1000,
            r@.len() == i,
            forall|k: int|
                0 <= k < i ==> (#[trigger] r@[k]).gene.gene@ == population@[k].gene.gene@,
            forall|k: int|
                0 <= k < i ==> (#[trigger] r@[k]).value == eval_value(
                    variant,
                    genotypes(population@),
                    *setting,
                    average as nat,
                    s0,
                    k,
                ),
            forall|k: int| 0 <= k < i ==> 0 <= (#[trigger] r@[k]).value <= ONE,
            rng.state == eval_seed(
                variant,
                genotypes(population@),
                *setting,
                average as nat,
                s0,
                i as nat,
            ),
        decreases population@.len() - i,
    {
        let ind = &population[i];
        let value = ind.fitness(setting, average, variant, rng);
        r.push(Ga { value, gene: ind.gene.clone() });
        i = i + 1;
        proof {
            assert(genotypes(population@)[i - 1] == population@[i - 1].gene.gene@);
        }
    }
    proof {
        let ms = models(population@);
        assert(ms.map_values(|m: (i64, Seq<i64>)| m.1) =~= genotypes(population@));
        let target = eval_models(variant, ms, *setting, average as nat, s0);
        assert forall|k: int| 0 <= k < r@.len() implies models(r@)[k] == target[k] by {
            assert(models(r@)[k] == ga_model(r@[k]));
            assert(ms[k].1 == population@[k].gene.gene@);
        }
        assert(models(r@) =~= target);
    }
    r
}

/// The mathematical value of a whole population, individual by
/// individual.
pub open spec fn models(s: Seq<Ga>) -> Seq<(i64, Seq<i64>)> {
    s.map_values(|g: Ga| ga_model(g))
}

/// Insert one individual model into a ranked list: it lands after
/// every individual whose fitness is at least its own, so individuals
/// of equal fitness keep their arrival order.
pub open spec fn insert_ranked(s: Seq<(i64, Seq<i64>)>, x: (i64, Seq<i64>)) -> Seq<(i64, Seq<i64>)>
    decreases s.len(),
{
    if s.len() == 0 {
        seq![x]
    } else if s[0].0 >= x.0 {
        seq![s[0]] + insert_ranked(s.drop_first(), x)
    } else {
        seq![x] + s
    }
}

/// Rank a population best first by insertion: the stable descending
/// sort of the fitness values.
pub open spec fn ranked(s: Seq<(i64, Seq<i64>)>) -> Seq<(i64, Seq<i64>)>
    decreases s.len(),
{
    if s.len() == 0 {
        s
    } else {
        insert_ranked(ranked(s.drop_last()), s.last())
    }
}

/// Inserting lands exactly at the first position whose fitness is
/// below the inserted one.
proof fn lemma_insert_ranked_at(s: Seq<(i64, Seq<i64>)>, x: (i64, Seq<i64>), p: int)
    requires
        0 <= p <= s.len(),
        forall|q: int| 0 <= q < p ==> (#[trigger] s[q]).0 >= x.0,
        p < s.len() ==> s[p].0 < x.0,
    ensures
        insert_ranked(s, x) == s.insert(p, x),
    decreases s.len(),
{
    if p == 0 {
        if s.len() == 0 {
            assert(insert_ranked(s, x) =~= s.insert(0, x));
        } else {
            assert(insert_ranked(s, x) =~= s.insert(0, x));
        }
    } else {
        lemma_insert_ranked_at(s.drop_first(), x, p - 1);
        assert(insert_ranked(s, x) =~= s.insert(p, x)) by {
            assert(insert_ranked(s, x) == seq![s[0]] + insert_ranked(s.drop_first(), x));
            assert(s.drop_first().insert(p - 1, x) =~= s.insert(p, x).drop_first());
        }
    }
}

/// Sort a population by fitness, best first, by insertion: exactly
/// the stable ranking of the input, hence a permutation of it.
pub fn sort_by_fitness_desc(v: &mut Vec<Ga>)
    ensures
        final(v)@.len() == old(v)@.len(),
        forall|a: int, b: int|
            0 <= a <= b < final(v)@.len() ==> (#[trigger] final(v)@[a]).value >= (
            #[trigger] final(v)@[b]).value,
        final(v)@.to_multiset() == old(v)@.to_multiset(),
        models(final(v)@) == ranked(models(old(v)@)),
{
    broadcast use vstd::seq_lib::group_to_multiset_ensures;
    broadcast use vstd::multiset::group_multiset_axioms;

    let ghost ms0 = models(old(v)@);
    proof {
        if v@.len() >= 1 {
            assert(models(v@).subrange(0, 1) =~= seq![ga_model(v@[0])]);
            assert(ms0.subrange(0, 1).drop_last() =~= Seq::<(i64, Seq<i64>)>::empty());
            assert(ranked(ms0.subrange(0, 1)) == insert_ranked(
                ranked(ms0.subrange(0, 1).drop_last()),
                ms0.subrange(0, 1).last(),
            ));
            assert(ranked(ms0.subrange(0, 1)) =~= models(v@).subrange(0, 1));
        } else {
            assert(models(v@) =~= ranked(ms0));
        }
    }
    let mut i: usize = 1;
    while i < v.len()
        invariant
            1 <= i <= v@.len() || v@.len() == 0,
            v@.len() == old(v)@.len(),
            ms0 == models(old(v)@),
            forall|a: int, b: int|
                0 <= a <= b < i ==> (#[trigger] v@[a]).value >= (#[trigger] v@[b]).value,
            v@.to_multiset() == old(v)@.to_multiset(),
            v@.len() >= 1 ==> models(v@).subrange(0, i as int) == ranked(
                ms0.subrange(0, i as int),
            ),
            v@.len() >= 1 ==> v@.subrange(i as int, v@.len() as int) == old(v)@.subrange(
                i as int,
                old(v)@.len() as int,
            ),
        decreases v@.len() - i,
    {
        let ghost pre = v@;
        let x = v.remove(i);
        proof {
            vstd::seq_lib::to_multiset_remove(pre, i as int);
            vstd::seq_lib::to_multiset_contains(pre, x);
            assert(pre.contains(x)) by {
                assert(pre[i as int] == x);
            }
        }
        let mut p: usize = 0;
        while p < i && v[p].value >= x.value
            invariant
                0 <= p <= i < v@.len() + 1,
                i <= v@.len(),
                forall|q: int| 0 <= q < p ==> (#[trigger] v@[q]).value >= x.value,
            decreases i - p,
        {
            p = p + 1;
        }
        let ghost before = v@;
        v.insert(p, x);
        proof {
            before.insert_ensures(p as int, x);
            vstd::seq_lib::to_multiset_insert(before, p as int, x);
            assert(pre.to_multiset().remove(x).insert(x) =~= pre.to_multiset());
            let n = pre.len() as int;
            assert(before =~= pre.subrange(0, i as int) + pre.subrange(i as int + 1, n));
            assert forall|q: int| i as int <= q < n implies pre[q] == old(v)@[q] by {
                assert(pre.subrange(i as int, n)[q - i as int] == pre[q]);
                assert(old(v)@.subrange(i as int, n)[q - i as int] == old(v)@[q]);
            }
            // the untouched tail slides one place right
            assert forall|q: int| i as int + 1 <= q < n implies v@[q] == old(v)@[q] by {
                assert(v@[q] == before[q - 1]);
                assert(before[q - 1] == pre[q]);
            }
            assert(v@.subrange(i as int + 1, v@.len() as int) =~= old(v)@.subrange(
                i as int + 1,
                old(v)@.len() as int,
            ));
            // the freshly inserted element is the input's element `i`
            assert(x == pre[i as int]);
            assert(x == old(v)@[i as int]);
            let mx = ga_model(x);
            let sorted_pre = models(before).subrange(0, i as int);
            assert(sorted_pre =~= models(pre).subrange(0, i as int));
            assert(sorted_pre == ranked(ms0.subrange(0, i as int)));
            // the scan found the first position whose fitness is lower
            assert forall|q: int| 0 <= q < p implies (#[trigger] sorted_pre[q]).0 >= mx.0 by {
                assert(sorted_pre[q] == ga_model(before[q]));
            }
            assert(p < i ==> sorted_pre[p as int].0 < mx.0) by {
                if p < i {
                    assert(sorted_pre[p as int] == ga_model(before[p as int]));
                }
            }
            lemma_insert_ranked_at(sorted_pre, mx, p as int);
            // one more ranking step absorbs the element
            assert(ms0.subrange(0, i as int + 1).drop_last() =~= ms0.subrange(0, i as int));
            assert(ms0.subrange(0, i as int + 1).last() == mx);
            assert(ranked(ms0.subrange(0, i as int + 1)) == insert_ranked(
                ranked(ms0.subrange(0, i as int)),
                mx,
            ));
            assert(models(v@).subrange(0, i as int + 1) =~= sorted_pre.insert(p as int, mx));
        }
        i = i + 1;
    }
    proof {
        if v@.len() == 0 {
            assert(models(v@) =~= ranked(ms0));
        } else {
            assert(ms0.subrange(0, old(v)@.len() as int) =~= ms0);
            assert(models(v@).subrange(0, v@.len() as int) =~= models(v@));
        }
    }
}


/// A sequence with the same members as an all-well-formed sequence is
/// itself all well-formed.
proof fn lemma_permutation_keeps_ok(a: Seq<Ga>, b: Seq<Ga>)
    requires
        a.to_multiset() == b.to_multiset(),
        forall|i: int| 0 <= i < a.len() ==> ga_ok(#[trigger] a[i]),
    ensures
        forall|i: int| 0 <= i < b.len() ==> ga_ok(#[trigger] b[i]),
{
    assert forall|i: int| 0 <= i < b.len() implies ga_ok(#[trigger] b[i]) by {
        vstd::seq_lib::to_multiset_contains(b, b[i]);
        vstd::seq_lib::to_multiset_contains(a, b[i]);
        assert(b.contains(b[i]));
        assert(a.contains(b[i]));
        let j = choose|j: int| 0 <= j < a.len() && a[j] == b[i];
        assert(ga_ok(a[j]));
    }
}


/// The two children one crossover of two genotypes yields, and the
/// seed state after its two cut draws.
pub open spec fn cross_pair(p1: Seq<i64>, p2: Seq<i64>, s: u64) -> (
    (i64, Seq<i64>),
    (i64, Seq<i64>),
    u64,
) {
    let len = p1.len() as u64;
    let a = rng_out(s) % len;
    let b = rng_out(rng_step(s)) % len;
    let start = if a < b {
        a
    } else {
        b
    };
    let end = if a < b {
        b
    } else {
        a
    };
    (
        (0i64, Seq::new(p1.len(), |q: int| crossed(p1, p2, start as int, end as int, q))),
        (0i64, Seq::new(p1.len(), |q: int| crossed(p2, p1, start as int, end as int, q))),
        state_after(s, 2),
    )
}

/// How many elite pairs the recombination loop visits.
pub open spec fn pair_count(n: int) -> int {
    (n + 1) / 2
}

/// The crossover children of the first `p` consecutive elite pairs and
/// the seed state after their draws: each complete pair draws one
/// probability and, on a hit, two cut points.
pub open spec fn mate_fold(sel: Seq<(i64, Seq<i64>)>, mat_pb: i64, s: u64, p: nat) -> (
    Seq<(i64, Seq<i64>)>,
    u64,
)
    decreases p,
{
    if p == 0 {
        (Seq::empty(), s)
    } else {
        let prev = mate_fold(sel, mat_pb, s, (p - 1) as nat);
        let i = 2 * ((p - 1) as int);
        if i + 1 < sel.len() {
            let u = rng_out(prev.1) % (ONE as u64);
            let s1 = rng_step(prev.1);
            if u < mat_pb {
                let cc = cross_pair(sel[i].1, sel[i + 1].1, s1);
                (prev.0.push(cc.0).push(cc.1), cc.2)
            } else {
                (prev.0, s1)
            }
        } else {
            prev
        }
    }
}

/// The mutants of the first `i` elites and the seed state after their
/// draws: each elite draws one probability and, on a hit, one whole
/// genotype mutation under the chosen variant.
pub open spec fn mutant_fold(
    sel: Seq<(i64, Seq<i64>)>,
    mut_pb: i64,
    constrained: bool,
    s: u64,
    i: nat,
) -> (Seq<(i64, Seq<i64>)>, u64)
    decreases i,
{
    if i == 0 {
        (Seq::empty(), s)
    } else {
        let prev = mutant_fold(sel, mut_pb, constrained, s, (i - 1) as nat);
        let u = rng_out(prev.1) % (ONE as u64);
        let s1 = rng_step(prev.1);
        if u < mut_pb {
            let g = sel[i - 1].1;
            let mf = if constrained {
                mutate_locked_fold(g, MUT_GENE_RATE, MUT_MEAN, MUT_STD, s1, g.len())
            } else {
                mutate_fold(g, MUT_GENE_RATE, MUT_MEAN, MUT_STD, s1, g.len())
            };
            (prev.0.push((0i64, mf.0)), mf.1)
        } else {
            (prev.0, s1)
        }
    }
}

/// One freshly sampled genotype model, at row offset `i` of a sampling
/// pass from seed `s0`.
pub open spec fn fresh_model(gen_size: int, constrained: bool, s0: u64, i: int) -> (i64, Seq<i64>) {
    (
        0i64,
        Seq::new(
            gen_size as nat,
            |j: int|
                {
                    let drawn = range_draw(
                        state_after(s0, (i * gen_size + j) as nat),
                        -ONE as i64,
                        ONE,
                    ) as i64;
                    if constrained && (j == LOCKED_GENE_A || j == LOCKED_GENE_B) {
                        nonpos_of(drawn)
                    } else {
                        drawn
                    }
                },
        ),
    )
}

/// The models of one whole sampling pass.
pub open spec fn fill_models(count: int, gen_size: int, constrained: bool, s0: u64) -> Seq<
    (i64, Seq<i64>),
> {
    Seq::new(count as nat, |i: int| fresh_model(gen_size, constrained, s0, i))
}

/// Everything one generation produces, phase by phase over the seed:
/// the elite pool, the crossover children of consecutive elite pairs,
/// the mutants, the random fill up to the population size, the
/// evaluation pass — the elites re-evaluated with the rest exactly on
/// the re-evaluation interval and keeping their prior fitness off it —
/// and the stable ranking, cut back to the population size.
pub open spec fn generation_models(
    ms: Seq<(i64, Seq<i64>)>,
    ga: Gasetting,
    s: Setting,
    gen_index: int,
    variant: FitnessVariant,
    constrained: bool,
    seed: u64,
) -> (Seq<(i64, Seq<i64>)>, u64) {
    let sel = ms.subrange(0, ga.sel_top as int);
    let reval = gen_index % (ga.re_val as int) == 0;
    let mf = mate_fold(sel, ga.mat_pb, seed, pair_count(sel.len() as int) as nat);
    let uf = mutant_fold(sel, ga.mut_pb, constrained, mf.1, sel.len());
    let base = (if reval {
        sel.len() as int
    } else {
        0
    }) + mf.0.len() + uf.0.len();
    let reserved: int = if reval {
        0
    } else {
        sel.len() as int
    };
    let fill_count: int = if ga.pop_size > base + reserved {
        ga.pop_size - base - reserved
    } else {
        0
    };
    let offspring = (if reval {
        sel
    } else {
        Seq::<(i64, Seq<i64>)>::empty()
    }) + mf.0 + uf.0 + fill_models(fill_count, ga.gen_size as int, constrained, uf.1);
    let s_fill = state_after(uf.1, (fill_count * ga.gen_size) as nat);
    let ev = eval_models(variant, offspring, s, ga.average as nat, s_fill);
    let s_ev = eval_seed(
        variant,
        offspring.map_values(|m: (i64, Seq<i64>)| m.1),
        s,
        ga.average as nat,
        s_fill,
        offspring.len(),
    );
    let merged = ev + (if reval {
        Seq::<(i64, Seq<i64>)>::empty()
    } else {
        sel
    });
    (ranked(merged).subrange(0, ga.pop_size as int), s_ev)
}

/// Both sign-locked genes of every individual are non-positive.
pub open spec fn all_locked(ms: Seq<(i64, Seq<i64>)>) -> bool {
    forall|i: int|
        0 <= i < ms.len() ==> (#[trigger] ms[i]).1[LOCKED_GENE_A as int] <= 0
            && ms[i].1[LOCKED_GENE_B as int] <= 0
}

/// Every individual carries a full-length genotype.
pub open spec fn all_full(ms: Seq<(i64, Seq<i64>)>) -> bool {
    forall|i: int| 0 <= i < ms.len() ==> (#[trigger] ms[i]).1.len() == GENE_COUNT
}

/// Crossover children of sign-locked parents stay sign-locked: each
/// child gene comes from one of the two parents.
proof fn lemma_mate_fold_locked(sel: Seq<(i64, Seq<i64>)>, mat_pb: i64, s: u64, p: nat)
    requires
        all_locked(sel),
        all_full(sel),
    ensures
        all_locked(mate_fold(sel, mat_pb, s, p).0),
        all_full(mate_fold(sel, mat_pb, s, p).0),
    decreases p,
{
    if p > 0 {
        lemma_mate_fold_locked(sel, mat_pb, s, (p - 1) as nat);
        let prev = mate_fold(sel, mat_pb, s, (p - 1) as nat);
        let i = 2 * ((p - 1) as int);
        if i + 1 < sel.len() {
            let u = rng_out(prev.1) % (ONE as u64);
            if u < mat_pb {
                let cc = cross_pair(sel[i].1, sel[i + 1].1, rng_step(prev.1));
                assert(cc.0.1[LOCKED_GENE_A as int] <= 0 && cc.0.1[LOCKED_GENE_B as int] <= 0);
                assert(cc.1.1[LOCKED_GENE_A as int] <= 0 && cc.1.1[LOCKED_GENE_B as int] <= 0);
                assert(all_locked(prev.0.push(cc.0).push(cc.1)));
                assert(all_full(prev.0.push(cc.0).push(cc.1)));
            }
        }
    }
}

/// Mutants of sign-locked elites stay sign-locked under the
/// constrained rule.
#[verifier::rlimit(100)]
proof fn lemma_mutant_fold_locked(sel: Seq<(i64, Seq<i64>)>, mut_pb: i64, s: u64, i: nat)
    requires
        all_locked(sel),
        all_full(sel),
        i <= sel.len(),
    ensures
        all_locked(mutant_fold(sel, mut_pb, true, s, i).0),
        all_full(mutant_fold(sel, mut_pb, true, s, i).0),
    decreases i,
{
    if i > 0 {
        lemma_mutant_fold_locked(sel, mut_pb, s, (i - 1) as nat);
        let prev = mutant_fold(sel, mut_pb, true, s, (i - 1) as nat);
        let u = rng_out(prev.1) % (ONE as u64);
        if u < mut_pb {
            let g = sel[i - 1].1;
            assert(sel[i - 1].1.len() == GENE_COUNT);
            assert(sel[i - 1].1[LOCKED_GENE_A as int] <= 0 && sel[i - 1].1[LOCKED_GENE_B as int]
                <= 0);
            lemma_locked_fold_shape(
                g,
                MUT_GENE_RATE,
                MUT_MEAN,
                MUT_STD,
                rng_step(prev.1),
                g.len(),
            );
            let mf = mutate_locked_fold(g, MUT_GENE_RATE, MUT_MEAN, MUT_STD, rng_step(prev.1), g.len());
            assert(mf.0.len() == GENE_COUNT);
            assert(mf.0[LOCKED_GENE_A as int] <= 0);
            assert(mf.0[LOCKED_GENE_B as int] <= 0);
            let ext = prev.0.push((0i64, mf.0));
            assert forall|q: int| 0 <= q < ext.len() implies (#[trigger] ext[q]).1[
                LOCKED_GENE_A as int] <= 0 && ext[q].1[LOCKED_GENE_B as int] <= 0 && ext[q].1.len()
                == GENE_COUNT by {
                if q < prev.0.len() {
                    assert(ext[q] == prev.0[q]);
                } else {
                    assert(ext[q] == (0i64, mf.0));
                }
            }
            assert(all_locked(ext));
            assert(all_full(ext));
        }
    }
}

/// Inserting a sign-locked individual into a sign-locked ranking keeps
/// every individual sign-locked.
proof fn lemma_insert_ranked_locked(s: Seq<(i64, Seq<i64>)>, x: (i64, Seq<i64>))
    requires
        all_locked(s),
        all_full(s),
        x.1[LOCKED_GENE_A as int] <= 0,
        x.1[LOCKED_GENE_B as int] <= 0,
        x.1.len() == GENE_COUNT,
    ensures
        all_locked(insert_ranked(s, x)),
        all_full(insert_ranked(s, x)),
    decreases s.len(),
{
    if s.len() > 0 && s[0].0 >= x.0 {
        assert(all_locked(s.drop_first()));
        assert(all_full(s.drop_first()));
        lemma_insert_ranked_locked(s.drop_first(), x);
        assert forall|q: int| 0 <= q < insert_ranked(s, x).len() implies (#[trigger] insert_ranked(
            s,
            x,
        )[q]).1[LOCKED_GENE_A as int] <= 0 && insert_ranked(s, x)[q].1[LOCKED_GENE_B as int] <= 0
            && insert_ranked(s, x)[q].1.len() == GENE_COUNT by {
            if q > 0 {
                assert(insert_ranked(s, x)[q] == insert_ranked(s.drop_first(), x)[q - 1]);
            }
        }
    }
}

/// Ranking keeps the population size.
proof fn lemma_ranked_len(s: Seq<(i64, Seq<i64>)>)
    ensures
        ranked(s).len() == s.len(),
    decreases s.len(),
{
    if s.len() > 0 {
        lemma_ranked_len(s.drop_last());
        lemma_insert_ranked_len(ranked(s.drop_last()), s.last());
    }
}

/// Insertion grows a ranking by one.
proof fn lemma_insert_ranked_len(s: Seq<(i64, Seq<i64>)>, x: (i64, Seq<i64>))
    ensures
        insert_ranked(s, x).len() == s.len() + 1,
    decreases s.len(),
{
    if s.len() > 0 && s[0].0 >= x.0 {
        lemma_insert_ranked_len(s.drop_first(), x);
    }
}

/// Ranking keeps every individual sign-locked.
proof fn lemma_ranked_locked(s: Seq<(i64, Seq<i64>)>)
    requires
        all_locked(s),
        all_full(s),
    ensures
        all_locked(ranked(s)),
        all_full(ranked(s)),
    decreases s.len(),
{
    if s.len() > 0 {
        assert(all_locked(s.drop_last()));
        assert(all_full(s.drop_last()));
        lemma_ranked_locked(s.drop_last());
        lemma_insert_ranked_locked(ranked(s.drop_last()), s.last());
    }
}


/// Assembling the phases yields exactly what `generation_models`
/// states, and sign-locked inputs stay sign-locked under the
/// constrained variant.
#[verifier::spinoff_prover]
proof fn lemma_generation_finish(
    ms_in: Seq<(i64, Seq<i64>)>,
    ga: Gasetting,
    s: Setting,
    gen_index: int,
    variant: FitnessVariant,
    constrained: bool,
    seed0: u64,
    fill_count: int,
    offspring_m: Seq<(i64, Seq<i64>)>,
    merged_m: Seq<(i64, Seq<i64>)>,
    s_fill: u64,
    out_models: Seq<(i64, Seq<i64>)>,
    out_state: u64,
)
    requires
        ga_setting_ok(ga),
        all_full(ms_in),
        ga.sel_top <= ms_in.len(),
        gen_index >= 0,
        merged_m.len() >= ga.pop_size,
        ({
            let sel = ms_in.subrange(0, ga.sel_top as int);
            let reval = gen_index % (ga.re_val as int) == 0;
            let mf = mate_fold(sel, ga.mat_pb, seed0, pair_count(sel.len() as int) as nat);
            let uf = mutant_fold(sel, ga.mut_pb, constrained, mf.1, sel.len());
            let base = (if reval {
                sel.len() as int
            } else {
                0
            }) + mf.0.len() + uf.0.len();
            let reserved: int = if reval {
                0
            } else {
                sel.len() as int
            };
            &&& fill_count == if ga.pop_size > base + reserved {
                ga.pop_size - base - reserved
            } else {
                0
            }
            &&& offspring_m == (if reval {
                sel
            } else {
                Seq::<(i64, Seq<i64>)>::empty()
            }) + mf.0 + uf.0 + fill_models(fill_count, ga.gen_size as int, constrained, uf.1)
            &&& s_fill == state_after(uf.1, (fill_count * ga.gen_size) as nat)
            &&& merged_m == eval_models(variant, offspring_m, s, ga.average as nat, s_fill) + (
            if reval {
                Seq::<(i64, Seq<i64>)>::empty()
            } else {
                sel
            })
            &&& out_models == ranked(merged_m).subrange(0, ga.pop_size as int)
            &&& out_state == eval_seed(
                variant,
                offspring_m.map_values(|m: (i64, Seq<i64>)| m.1),
                s,
                ga.average as nat,
                s_fill,
                offspring_m.len(),
            )
        }),
    ensures
        out_models == generation_models(ms_in, ga, s, gen_index, variant, constrained, seed0).0,
        out_state == generation_models(ms_in, ga, s, gen_index, variant, constrained, seed0).1,
        constrained && all_locked(ms_in) ==> all_locked(out_models),
{
    let sel = ms_in.subrange(0, ga.sel_top as int);
    let reval = gen_index % (ga.re_val as int) == 0;
    let mf = mate_fold(sel, ga.mat_pb, seed0, pair_count(sel.len() as int) as nat);
    let uf = mutant_fold(sel, ga.mut_pb, constrained, mf.1, sel.len());
    if constrained && all_locked(ms_in) {
        assert(all_locked(sel));
        assert(all_full(sel));
        lemma_mate_fold_locked(sel, ga.mat_pb, seed0, pair_count(sel.len() as int) as nat);
        lemma_mutant_fold_locked(sel, ga.mut_pb, mf.1, sel.len());
        let fills = fill_models(fill_count, ga.gen_size as int, constrained, uf.1);
        assert forall|k: int| 0 <= k < fills.len() implies (#[trigger] fills[k]).1[
            LOCKED_GENE_A as int] <= 0 && fills[k].1[LOCKED_GENE_B as int] <= 0 && fills[k].1.len()
            == GENE_COUNT by {}
        assert(all_locked(offspring_m));
        assert(all_full(offspring_m));
        let ev = eval_models(variant, offspring_m, s, ga.average as nat, s_fill);
        assert(all_locked(ev));
        assert(all_full(ev));
        assert(all_locked(merged_m));
        assert(all_full(merged_m));
        lemma_ranked_locked(merged_m);
        lemma_ranked_len(merged_m);
        assert forall|k: int| 0 <= k < out_models.len() implies (#[trigger] out_models[k]).1[
            LOCKED_GENE_A as int] <= 0 && out_models[k].1[LOCKED_GENE_B as int] <= 0 by {
            assert(out_models[k] == ranked(merged_m)[k]);
        }
        assert(all_locked(out_models));
    }
}

/// One generation of the optimizer: clone the elite pool, recombine
/// consecutive elite pairs with the configured probability, mutate
/// elites with the configured probability, pad with fresh random
/// individuals up to the population size, evaluate, and rank.  On the
/// re-evaluation interval the elites are re-evaluated with everything
/// else; otherwise they keep their prior fitness.  The next generation
/// always has exactly the configured population size, and is pinned,
/// phase by phase over the seed, by `generation_models`.
#[verifier::rlimit(100)]
pub fn next_generation(
    evaluated: &Vec<Ga>,
    ga: &Gasetting,
    setting: &Setting,
    gen_index: usize,
    variant: FitnessVariant,
    constrained: bool,
    rng: &mut Rng64,
) -> (r: Vec<Ga>)
    requires
        ga_setting_ok(*ga),
        setting_ok(*setting),
        evaluated@.len() == ga.pop_size,
        forall|i: int| 0 <= i < evaluated@.len() ==> ga_ok(#[trigger] evaluated@[i]),
    ensures
        r@.len() == ga.pop_size,
        forall|i: int| 0 <= i < r@.len() ==> ga_ok(#[trigger] r@[i]),
        forall|a: int, b: int|
            0 <= a <= b < r@.len() ==> (#[trigger] r@[a]).value >= (#[trigger] r@[b]).value,
        models(r@) == generation_models(
            models(evaluated@),
            *ga,
            *setting,
            gen_index as int,
            variant,
            constrained,
            old(rng).state,
        ).0,
        final(rng).state == generation_models(
            models(evaluated@),
            *ga,
            *setting,
            gen_index as int,
            variant,
            constrained,
            old(rng).state,
        ).1,
        constrained && all_locked(models(evaluated@)) ==> all_locked(models(r@)),
{
    let ghost ms_in = models(evaluated@);
    let ghost seed0 = rng.state;
    let ghost sel_m = ms_in.subrange(0, ga.sel_top as int);
    proof {
        assert(all_full(ms_in));
    }

    let mut select: Vec<Ga> = Vec::new();
    let mut i: usize = 0;
    proof {
        assert(models(select@) =~= ms_in.subrange(0, 0));
    }
    while i < ga.sel_top
        invariant
            0 <= i <= ga.sel_top <= evaluated@.len(),
            forall|k: int| 0 <= k < evaluated@.len() ==> ga_ok(#[trigger] evaluated@[k]),
            ms_in == models(evaluated@),
            select@.len() == i,
            forall|k: int| 0 <= k < i ==> ga_ok(#[trigger] select@[k]),
            models(select@) == ms_in.subrange(0, i as int),
        decreases ga.sel_top - i,
    {
        select.push(evaluated[i].clone());
        i = i + 1;
        proof {
            assert(models(select@) =~= ms_in.subrange(0, i as int));
        }
    }
    proof {
        assert(models(select@) == sel_m);
    }

    let mut mate: Vec<Ga> = Vec::new();
    let mut i: usize = 0;
    proof {
        assert(models(mate@) =~= mate_fold(sel_m, ga.mat_pb, seed0, 0).0);
    }
    while i < select.len()
        invariant
            ga_setting_ok(*ga),
            i <= select@.len() + 1,
            i % 2 == 0,
            select@.len() <= ga.pop_size,
            forall|k: int| 0 <= k < select@.len() ==> ga_ok(#[trigger] select@[k]),
            models(select@) == sel_m,
            mate@.len() <= i,
            mate@.len() <= select@.len() + 1,
            forall|k: int| 0 <= k < mate@.len() ==> ga_ok(#[trigger] mate@[k]),
            models(mate@) == mate_fold(sel_m, ga.mat_pb, seed0, (i / 2) as nat).0,
            rng.state == mate_fold(sel_m, ga.mat_pb, seed0, (i / 2) as nat).1,
        decreases select@.len() + 2 - i,
    {
        let ghost p = (i / 2) as nat;
        let ghost prev = mate_fold(sel_m, ga.mat_pb, seed0, p);
        if i + 1 < select.len() {
            let u = rng.next_unit();
            if u < ga.mat_pb {
                let ghost s1 = rng.state;
                let mut child = two_point_crossover(&select[i], &select[i + 1], rng);
                let c2 = match child.pop() {
                    Some(c) => c,
                    None => vstd::pervasive::unreached(),
                };
                let c1 = match child.pop() {
                    Some(c) => c,
                    None => vstd::pervasive::unreached(),
                };
                proof {
                    assert(gene_ok(c1.gene.gene@));
                    assert(gene_ok(c2.gene.gene@));
                    let cc = cross_pair(sel_m[i as int].1, sel_m[i as int + 1].1, s1);
                    assert(select@[i as int].gene.gene@ == sel_m[i as int].1);
                    assert(select@[i as int + 1].gene.gene@ == sel_m[i as int + 1].1);
                    assert(c1.gene.gene@ =~= cc.0.1);
                    assert(c2.gene.gene@ =~= cc.1.1);
                    assert(ga_model(c1) == cc.0);
                    assert(ga_model(c2) == cc.1);
                }
                mate.push(c1);
                mate.push(c2);
            }
        }
        i = i + 2;
        proof {
            assert(i / 2 == p + 1);
            assert(mate_fold(sel_m, ga.mat_pb, seed0, (p + 1) as nat) == ({
                let j = 2 * (p as int);
                if j + 1 < sel_m.len() {
                    let u = rng_out(prev.1) % (ONE as u64);
                    let s1 = rng_step(prev.1);
                    if u < ga.mat_pb {
                        let cc = cross_pair(sel_m[j].1, sel_m[j + 1].1, s1);
                        (prev.0.push(cc.0).push(cc.1), cc.2)
                    } else {
                        (prev.0, s1)
                    }
                } else {
                    prev
                }
            }));
            assert(models(mate@) =~= mate_fold(sel_m, ga.mat_pb, seed0, (i / 2) as nat).0);
        }
    }
    proof {
        assert(i / 2 == pair_count(sel_m.len() as int));
    }
    let ghost mf = mate_fold(sel_m, ga.mat_pb, seed0, pair_count(sel_m.len() as int) as nat);

    let mut mutant: Vec<Ga> = Vec::new();
    let mut i: usize = 0;
    proof {
        assert(models(mutant@) =~= mutant_fold(sel_m, ga.mut_pb, constrained, mf.1, 0).0);
    }
    while i < select.len()
        invariant
            ga_setting_ok(*ga),
            0 <= i <= select@.len(),
            select@.len() <= ga.pop_size,
            forall|k: int| 0 <= k < select@.len() ==> ga_ok(#[trigger] select@[k]),
            models(select@) == sel_m,
            mf == mate_fold(sel_m, ga.mat_pb, seed0, pair_count(sel_m.len() as int) as nat),
            mutant@.len() <= i,
            forall|k: int| 0 <= k < mutant@.len() ==> ga_ok(#[trigger] mutant@[k]),
            models(mutant@) == mutant_fold(sel_m, ga.mut_pb, constrained, mf.1, i as nat).0,
            rng.state == mutant_fold(sel_m, ga.mut_pb, constrained, mf.1, i as nat).1,
        decreases select@.len() - i,
    {
        let ghost prev = mutant_fold(sel_m, ga.mut_pb, constrained, mf.1, i as nat);
        let u = rng.next_unit();
        if u < ga.mut_pb {
            let m = if constrained {
                mutation_aiy_aiz_negative(&select[i], MUT_GENE_RATE, (MUT_MEAN, MUT_STD), rng)
            } else {
                mutation(&select[i], MUT_GENE_RATE, (MUT_MEAN, MUT_STD), rng)
            };
            proof {
                assert(select@[i as int].gene.gene@ == sel_m[i as int].1);
                assert(ga_model(m) == (0i64, if constrained {
                    mutate_locked_fold(
                        sel_m[i as int].1,
                        MUT_GENE_RATE,
                        MUT_MEAN,
                        MUT_STD,
                        rng_step(prev.1),
                        sel_m[i as int].1.len(),
                    ).0
                } else {
                    mutate_fold(
                        sel_m[i as int].1,
                        MUT_GENE_RATE,
                        MUT_MEAN,
                        MUT_STD,
                        rng_step(prev.1),
                        sel_m[i as int].1.len(),
                    ).0
                }));
            }
            mutant.push(m);
        }
        i = i + 1;
        proof {
            assert(models(mutant@) =~= mutant_fold(
                sel_m,
                ga.mut_pb,
                constrained,
                mf.1,
                i as nat,
            ).0);
        }
    }
    let ghost uf = mutant_fold(sel_m, ga.mut_pb, constrained, mf.1, sel_m.len());

    let reval = gen_index % ga.re_val == 0;
    let ghost sel_len = select@.len();
    let ghost mate_len = mate@.len();
    let ghost mut_len = mutant@.len();
    let mut offspring: Vec<Ga> = Vec::new();
    if reval {
        offspring.append(&mut select);
    }
    offspring.append(&mut mate);
    offspring.append(&mut mutant);
    proof {
        assert(offspring@.len() <= sel_len + mate_len + mut_len);
        assert(offspring@.len() <= 300_001);
        if reval {
            assert(models(offspring@) =~= sel_m + mf.0 + uf.0);
        } else {
            assert(models(offspring@) =~= Seq::<(i64, Seq<i64>)>::empty() + mf.0 + uf.0);
        }
    }
    let base = offspring.len();
    let reserved: usize = if reval {
        0
    } else {
        select.len()
    };
    proof {
        assert(reserved <= 100_000);
    }
    let fill_count: usize = if ga.pop_size > base + reserved {
        ga.pop_size - base - reserved
    } else {
        0
    };
    let ghost s_pre_fill = rng.state;
    let mut fill = if constrained {
        population_new_aiy_aiz_negative(ga.gen_size, fill_count, rng)
    } else {
        population_new(ga.gen_size, fill_count, rng)
    };
    proof {
        assert(forall|k: int| 0 <= k < fill@.len() ==> ga_ok(#[trigger] fill@[k]));
        assert forall|k: int| 0 <= k < fill@.len() implies #[trigger] models(fill@)[k]
            == fresh_model(ga.gen_size as int, constrained, s_pre_fill, k) by {
            assert(fill@[k].gene.gene@ =~= fresh_model(
                ga.gen_size as int,
                constrained,
                s_pre_fill,
                k,
            ).1);
        }
        assert(models(fill@) =~= fill_models(
            fill_count as int,
            ga.gen_size as int,
            constrained,
            s_pre_fill,
        ));
    }
    let ghost pre_fill_m = models(offspring@);
    offspring.append(&mut fill);
    proof {
        assert(models(offspring@) =~= pre_fill_m + fill_models(
            fill_count as int,
            ga.gen_size as int,
            constrained,
            s_pre_fill,
        ));
    }

    let ghost offspring_m = models(offspring@);
    let ghost s_fill = rng.state;
    let mut next = evaluate_fitness(&offspring, setting, ga.average, variant, rng);
    proof {
        assert(genotypes(offspring@) =~= offspring_m.map_values(|m: (i64, Seq<i64>)| m.1));
    }
    if !reval {
        next.append(&mut select);
    }
    proof {
        assert(forall|k: int| 0 <= k < next@.len() ==> ga_ok(#[trigger] next@[k]));
        let ev = eval_models(variant, offspring_m, *setting, ga.average as nat, s_fill);
        if reval {
            assert(models(next@) =~= ev + Seq::<(i64, Seq<i64>)>::empty());
        } else {
            assert(models(next@) =~= ev + sel_m);
        }
    }
    let ghost merged_m = models(next@);
    let ghost before_sort = next@;
    sort_by_fitness_desc(&mut next);
    proof {
        lemma_permutation_keeps_ok(before_sort, next@);
    }
    next.truncate(ga.pop_size);
    proof {
        assert(next@.len() == ga.pop_size);
        assert(merged_m.len() >= ga.pop_size);
        assert(models(next@) =~= ranked(merged_m).subrange(0, ga.pop_size as int));
        lemma_generation_finish(
            ms_in,
            *ga,
            *setting,
            gen_index as int,
            variant,
            constrained,
            seed0,
            fill_count as int,
            offspring_m,
            merged_m,
            s_fill,
            models(next@),
            rng.state,
        );
    }
    next
}

/// The ranked population models and the seed state after the initial
/// sampling, evaluation and ranking, and then `k` whole generations.
pub open spec fn run_models(
    ga: Gasetting,
    s: Setting,
    variant: FitnessVariant,
    constrained: bool,
    seed: u64,
    k: nat,
) -> (Seq<(i64, Seq<i64>)>, u64)
    decreases k,
{
    if k == 0 {
        let pm = fill_models(ga.pop_size as int, ga.gen_size as int, constrained, seed);
        let s1 = state_after(seed, (ga.pop_size * ga.gen_size) as nat);
        let ev = eval_models(variant, pm, s, ga.average as nat, s1);
        let s2 = eval_seed(
            variant,
            pm.map_values(|m: (i64, Seq<i64>)| m.1),
            s,
            ga.average as nat,
            s1,
            pm.len(),
        );
        (ranked(ev), s2)
    } else {
        let prev = run_models(ga, s, variant, constrained, seed, (k - 1) as nat);
        generation_models(prev.0, ga, s, (k - 1) as int, variant, constrained, prev.1)
    }
}

/// One independent optimization run: a fresh population, evaluated and
/// ranked, then the configured number of generations.  The result is
/// the top-ranked individual of the final generation — its fitness is
/// the generation's maximum — and under the constrained variant its
/// two sign-locked genes are non-positive.
pub fn ga_run_once(
    ga: &Gasetting,
    setting: &Setting,
    variant: FitnessVariant,
    constrained: bool,
    rng: &mut Rng64,
) -> (best: Ga)
    requires
        ga_setting_ok(*ga),
        setting_ok(*setting),
    ensures
        ga_ok(best),
        ga_model(best) == run_models(
            *ga,
            *setting,
            variant,
            constrained,
            old(rng).state,
            ga.n_gen as nat,
        ).0[0],
        forall|j: int|
            0 <= j < run_models(
                *ga,
                *setting,
                variant,
                constrained,
                old(rng).state,
                ga.n_gen as nat,
            ).0.len() ==> best.value >= (#[trigger] run_models(
                *ga,
                *setting,
                variant,
                constrained,
                old(rng).state,
                ga.n_gen as nat,
            ).0[j]).0,
        final(rng).state == run_models(
            *ga,
            *setting,
            variant,
            constrained,
            old(rng).state,
            ga.n_gen as nat,
        ).1,
        constrained ==> best.gene.gene@[LOCKED_GENE_A as int] <= 0 && best.gene.gene@[
            LOCKED_GENE_B as int] <= 0,
{
    let ghost seed0 = rng.state;
    let population = if constrained {
        population_new_aiy_aiz_negative(ga.gen_size, ga.pop_size, rng)
    } else {
        population_new(ga.gen_size, ga.pop_size, rng)
    };
    proof {
        assert(forall|k: int| 0 <= k < population@.len() ==> ga_ok(#[trigger] population@[k]));
        assert forall|k: int| 0 <= k < population@.len() implies #[trigger] models(population@)[k]
            == fresh_model(ga.gen_size as int, constrained, seed0, k) by {
            assert(population@[k].gene.gene@ =~= fresh_model(
                ga.gen_size as int,
                constrained,
                seed0,
                k,
            ).1);
        }
        assert(models(population@) =~= fill_models(
            ga.pop_size as int,
            ga.gen_size as int,
            constrained,
            seed0,
        ));
    }
    let ghost pm = fill_models(ga.pop_size as int, ga.gen_size as int, constrained, seed0);
    let ghost s1 = rng.state;
    let mut evaluated = evaluate_fitness(&population, setting, ga.average, variant, rng);
    proof {
        assert(genotypes(population@) =~= pm.map_values(|m: (i64, Seq<i64>)| m.1));
    }
    let ghost before_sort = evaluated@;
    sort_by_fitness_desc(&mut evaluated);
    proof {
        lemma_permutation_keeps_ok(before_sort, evaluated@);
        assert(models(evaluated@) == run_models(
            *ga,
            *setting,
            variant,
            constrained,
            seed0,
            0,
        ).0);
        assert(rng.state == run_models(*ga, *setting, variant, constrained, seed0, 0).1);
        if constrained {
            let ev = eval_models(variant, pm, *setting, ga.average as nat, s1);
            assert forall|k: int| 0 <= k < ev.len() implies (#[trigger] ev[k]).1[
                LOCKED_GENE_A as int] <= 0 && ev[k].1[LOCKED_GENE_B as int] <= 0 && ev[k].1.len()
                == GENE_COUNT by {}
            assert(all_locked(ev));
            assert(all_full(ev));
            lemma_ranked_locked(ev);
            assert(all_locked(models(evaluated@)));
        }
    }
    let mut g: usize = 0;
    while g < ga.n_gen
        invariant
            ga_setting_ok(*ga),
            setting_ok(*setting),
            0 <= g <= ga.n_gen,
            evaluated@.len() == ga.pop_size,
            forall|k: int| 0 <= k < evaluated@.len() ==> ga_ok(#[trigger] evaluated@[k]),
            forall|a: int, b: int|
                0 <= a <= b < evaluated@.len() ==> (#[trigger] evaluated@[a]).value >= (
                #[trigger] evaluated@[b]).value,
            models(evaluated@) == run_models(
                *ga,
                *setting,
                variant,
                constrained,
                seed0,
                g as nat,
            ).0,
            rng.state == run_models(*ga, *setting, variant, constrained, seed0, g as nat).1,
            constrained ==> all_locked(models(evaluated@)),
        decreases ga.n_gen - g,
    {
        evaluated = next_generation(&evaluated, ga, setting, g, variant, constrained, rng);
        g = g + 1;
        proof {
            assert(run_models(*ga, *setting, variant, constrained, seed0, g as nat)
                == generation_models(
                run_models(*ga, *setting, variant, constrained, seed0, (g - 1) as nat).0,
                *ga,
                *setting,
                g - 1,
                variant,
                constrained,
                run_models(*ga, *setting, variant, constrained, seed0, (g - 1) as nat).1,
            ));
        }
    }
    let best = evaluated[0].clone();
    proof {
        assert(ga_model(best) == models(evaluated@)[0]);
        assert forall|j: int| 0 <= j < models(evaluated@).len() implies best.value >= (
        #[trigger] models(evaluated@)[j]).0 by {
            assert(models(evaluated@)[j].0 == evaluated@[j].value);
        }
        if constrained {
            assert(models(evaluated@)[0].1[LOCKED_GENE_A as int] <= 0);
        }
    }
    best
}

/// Re-evaluate a cross-run result collection under a held-out
/// configuration with the plain index — so that reported fitness does
/// not carry the training-time shaping penalty — and rank it.
pub fn finalize_results(
    result: &Vec<Ga>,
    testing: &Setting,
    average: u32,
    rng: &mut Rng64,
) -> (r: Vec<Ga>)
    requires
        forall|i: int| 0 <= i < result@.len() ==> ga_ok(#[trigger] result@[i]),
        result@.len() <= 100_000,
        setting_ok(*testing),
        1 <= average <= 1000,
    ensures
        r@.len() == result@.len(),
        forall|i: int| 0 <= i < r@.len() ==> ga_ok(#[trigger] r@[i]),
        forall|a: int, b: int|
            0 <= a <= b < r@.len() ==> (#[trigger] r@[a]).value >= (#[trigger] r@[b]).value,
        forall|i: int| 0 <= i < r@.len() ==> 0 <= (#[trigger] r@[i]).value <= ONE,
        models(r@) == ranked(
            eval_models(
                FitnessVariant::Plain,
                models(result@),
                *testing,
                average as nat,
                old(rng).state,
            ),
        ),
        final(rng).state == eval_seed(
            FitnessVariant::Plain,
            genotypes(result@),
            *testing,
            average as nat,
            old(rng).state,
            result@.len() as nat,
        ),
{
    let mut e = evaluate_fitness(result, testing, average, FitnessVariant::Plain, rng);
    let ghost before_sort = e@;
    sort_by_fitness_desc(&mut e);
    proof {
        lemma_permutation_keeps_ok(before_sort, e@);
        assert forall|i: int| 0 <= i < e@.len() implies 0 <= (#[trigger] e@[i]).value <= ONE by {
            vstd::seq_lib::to_multiset_contains(e@, e@[i]);
            vstd::seq_lib::to_multiset_contains(before_sort, e@[i]);
            assert(e@.contains(e@[i]));
            assert(before_sort.contains(e@[i]));
            let j = choose|j: int| 0 <= j < before_sort.len() && before_sort[j] == e@[i];
            assert(0 <= before_sort[j].value <= ONE);
        }
    }
    e
}

} // verus!
