//! The parameter model: a genotype and its deterministic scaling into
//! physical circuit parameters.
//!
//! A genotype is a fixed-length vector of fixed-point values in
//! `[-1, 1]`.  Scaling maps each gene linearly into the physical range
//! of the parameter it encodes; the ranges and the gene layout are the
//! named tables below, shared by every evaluation pass.  Genes 12 and
//! 13 encode the two sensory-to-interneuron synapses that the
//! constrained optimizer variant holds non-positive.

use crate::fixed::{fx_ok, tdiv, ONE};
use vstd::prelude::*;

verus! {

/// Number of genes in a genotype: one per scaled circuit parameter —
/// the two sensory window durations, eight thresholds, the ON and OFF
/// sensory gains, six synapses, two gap junctions, the oscillator
/// gain, and the motor gain.  The count follows from the circuit's
/// own parameter list, so scenarios that assume another count are run
/// at this one.
pub const GENE_COUNT: usize = 22;

/// Index of the first sign-locked synapse gene.
pub const LOCKED_GENE_A: usize = 12;

/// Index of the second sign-locked synapse gene.
pub const LOCKED_GENE_B: usize = 13;

/// Scaling ranges, one named pair per parameter category.
pub const WINDOW_LO: i64 = 100_000;

pub const WINDOW_HI: i64 = 4_200_000;

pub const THETA_LO: i64 = -15_000_000;

pub const THETA_HI: i64 = 15_000_000;

pub const GAIN_LO: i64 = 0;

pub const GAIN_HI: i64 = 15_000_000;

pub const SYN_LO: i64 = -15_000_000;

pub const SYN_HI: i64 = 15_000_000;

pub const GAP_LO: i64 = 0;

pub const GAP_HI: i64 = 2_500_000;

pub const NMJ_LO: i64 = 0;

pub const NMJ_HI: i64 = 3_000_000;

/// A genotype: one gene per scaled circuit parameter, each in `[-1, 1]`.
#[derive(Debug)]
pub struct Gene {
    pub gene: Vec<i64>,
}

impl Clone for Gene {
    fn clone(&self) -> (r: Self)
        ensures
            r.gene@ == self.gene@,
    {
        let g = Gene { gene: self.gene.clone() };
        proof {
            assert(g.gene@ =~= self.gene@);
        }
        g
    }
}

/// Every gene lies in the unit band `[-1, 1]`.
pub open spec fn gene_ok(g: Seq<i64>) -> bool {
    forall|i: int| 0 <= i < g.len() ==> -ONE <= #[trigger] g[i] <= ONE
}

/// The physical circuit parameters derived from one genotype.
/// Neurons 0 and 1 are the ON and OFF sensors, 2 and 3 the
/// interneurons, 4 through 7 the motor units; `w[j][i]` weights the
/// synapse from neuron `j` into neuron `i`, and `g` the gap junctions.
#[derive(Debug)]
pub struct GeneConst {
    /// ON-pathway sensory window duration.
    pub n: i64,
    /// OFF-pathway sensory window duration.
    pub m: i64,
    /// Firing thresholds.
    pub theta: Vec<i64>,
    /// ON-signal input gains.
    pub w_on: Vec<i64>,
    /// OFF-signal input gains.
    pub w_off: Vec<i64>,
    /// Oscillator input gains.
    pub w_osc: Vec<i64>,
    /// Synaptic weights.
    pub w: Vec<Vec<i64>>,
    /// Gap-junction couplings.
    pub g: Vec<Vec<i64>>,
    /// Motor gain.
    pub w_nmj: i64,
}

/// The linear scaling map: a gene at `-1` gives `lo`, a gene at `1`
/// gives `hi`, linearly between, truncated to a millionth.
pub open spec fn lin(g: i64, lo: i64, hi: i64) -> int {
    lo + tdiv((g + ONE) * (hi - lo), 2 * ONE)
}

fn lin_map(g: i64, lo: i64, hi: i64) -> (r: i64)
    requires
        -ONE <= g <= ONE,
        -16 * ONE <= lo <= hi <= 16 * ONE,
    ensures
        r == lin(g, lo, hi),
        lo <= r <= hi,
{
    proof {
        assert(0 <= (g + ONE) * (hi - lo) <= (hi - lo) * (2 * ONE)) by (nonlinear_arith)
            requires
                0 <= g + ONE <= 2 * ONE,
                0 <= hi - lo,
        ;
        crate::trig::lemma_tdiv_pos_bound(((g + ONE) * (hi - lo)) as int, (2 * ONE) as int, (hi
            - lo) as int);
    }
    let num: i64 = (g + ONE) * (hi - lo);
    lo + num / (2 * ONE)
}

/// The synaptic weight the gene layout assigns from neuron `j` into
/// neuron `i`: the sensors each drive one interneuron, and each
/// interneuron drives one motor pair.
pub open spec fn syn_weight(g: Seq<i64>, j: int, i: int) -> int {
    if j == 0 && i == 2 {
        lin(g[12], SYN_LO, SYN_HI)
    } else if j == 1 && i == 3 {
        lin(g[13], SYN_LO, SYN_HI)
    } else if j == 2 && i == 4 {
        lin(g[14], SYN_LO, SYN_HI)
    } else if j == 2 && i == 5 {
        lin(g[15], SYN_LO, SYN_HI)
    } else if j == 3 && i == 6 {
        lin(g[16], SYN_LO, SYN_HI)
    } else if j == 3 && i == 7 {
        lin(g[17], SYN_LO, SYN_HI)
    } else {
        0
    }
}

/// The gap-junction coupling the layout assigns between the
/// interneuron pair and between the last motor pair, symmetric.
pub open spec fn gap_weight(g: Seq<i64>, j: int, i: int) -> int {
    if (j == 2 && i == 3) || (j == 3 && i == 2) {
        lin(g[18], GAP_LO, GAP_HI)
    } else if (j == 6 && i == 7) || (j == 7 && i == 6) {
        lin(g[19], GAP_LO, GAP_HI)
    } else {
        0
    }
}

/// The oscillator gain per neuron: the two motor pairs are driven in
/// antiphase.
pub open spec fn osc_gain(g: Seq<i64>, i: int) -> int {
    if i == 5 || i == 6 {
        lin(g[20], GAIN_LO, GAIN_HI)
    } else if i == 4 || i == 7 {
        -lin(g[20], GAIN_LO, GAIN_HI)
    } else {
        0
    }
}

/// The ON-signal gain per neuron: the ON sensor alone receives it.
pub open spec fn on_gain(g: Seq<i64>, i: int) -> int {
    if i == 0 {
        lin(g[10], GAIN_LO, GAIN_HI)
    } else {
        0
    }
}

/// The OFF-signal gain per neuron: the OFF sensor alone receives it.
pub open spec fn off_gain(g: Seq<i64>, i: int) -> int {
    if i == 1 {
        lin(g[11], GAIN_LO, GAIN_HI)
    } else {
        0
    }
}

/// The mathematical value of the circuit parameters.
pub ghost struct GeneView {
    pub n: i64,
    pub m: i64,
    pub theta: Seq<i64>,
    pub w_on: Seq<i64>,
    pub w_off: Seq<i64>,
    pub w_osc: Seq<i64>,
    pub w: Seq<Seq<i64>>,
    pub g: Seq<Seq<i64>>,
    pub w_nmj: i64,
}

impl View for GeneConst {
    type V = GeneView;

    open spec fn view(&self) -> GeneView {
        GeneView {
            n: self.n,
            m: self.m,
            theta: self.theta@,
            w_on: self.w_on@,
            w_off: self.w_off@,
            w_osc: self.w_osc@,
            w: self.w@.map_values(|row: Vec<i64>| row@),
            g: self.g@.map_values(|row: Vec<i64>| row@),
            w_nmj: self.w_nmj,
        }
    }
}

/// Well-formed circuit parameters: eight entries per vector, eight
/// rows of eight per matrix, every magnitude within the scaling
/// ranges, windows non-negative.
pub open spec fn view_ok(v: GeneView) -> bool {
    &&& 0 <= v.n <= 5 * ONE
    &&& 0 <= v.m <= 5 * ONE
    &&& v.theta.len() == 8
    &&& v.w_on.len() == 8
    &&& v.w_off.len() == 8
    &&& v.w_osc.len() == 8
    &&& v.w.len() == 8
    &&& v.g.len() == 8
    &&& forall|i: int| 0 <= i < 8 ==> -16 * ONE <= #[trigger] v.theta[i] <= 16 * ONE
    &&& forall|i: int| 0 <= i < 8 ==> -16 * ONE <= #[trigger] v.w_on[i] <= 16 * ONE
    &&& forall|i: int| 0 <= i < 8 ==> -16 * ONE <= #[trigger] v.w_off[i] <= 16 * ONE
    &&& forall|i: int| 0 <= i < 8 ==> -16 * ONE <= #[trigger] v.w_osc[i] <= 16 * ONE
    &&& forall|j: int| 0 <= j < 8 ==> (#[trigger] v.w[j]).len() == 8
    &&& forall|j: int| 0 <= j < 8 ==> (#[trigger] v.g[j]).len() == 8
    &&& forall|j: int, i: int|
        0 <= j < 8 && 0 <= i < 8 ==> -16 * ONE <= #[trigger] v.w[j][i] <= 16 * ONE
    &&& forall|j: int, i: int|
        0 <= j < 8 && 0 <= i < 8 ==> -16 * ONE <= #[trigger] v.g[j][i] <= 16 * ONE
    &&& -16 * ONE <= v.w_nmj <= 16 * ONE
}

/// Well-formed circuit parameters, stated of the carrier.
pub open spec fn gene_const_ok(c: GeneConst) -> bool {
    view_ok(c@)
}

/// The circuit-parameter value a genotype scales to, assembled
/// directly from the gene layout.
pub open spec fn gene_view_of(g: Seq<i64>) -> GeneView {
    GeneView {
        n: lin(g[0], WINDOW_LO, WINDOW_HI) as i64,
        m: lin(g[1], WINDOW_LO, WINDOW_HI) as i64,
        theta: Seq::new(8, |i: int| lin(g[2 + i], THETA_LO, THETA_HI) as i64),
        w_on: Seq::new(8, |i: int| on_gain(g, i) as i64),
        w_off: Seq::new(8, |i: int| off_gain(g, i) as i64),
        w_osc: Seq::new(8, |i: int| osc_gain(g, i) as i64),
        w: Seq::new(8, |j: int| Seq::new(8, |i: int| syn_weight(g, j, i) as i64)),
        g: Seq::new(8, |j: int| Seq::new(8, |i: int| gap_weight(g, j, i) as i64)),
        w_nmj: lin(g[21], NMJ_LO, NMJ_HI) as i64,
    }
}

/// What scaling produces from genotype `g`, field by field.
pub open spec fn scaled_from(c: GeneConst, g: Seq<i64>) -> bool {
    &&& c.n == lin(g[0], WINDOW_LO, WINDOW_HI)
    &&& c.m == lin(g[1], WINDOW_LO, WINDOW_HI)
    &&& forall|i: int| 0 <= i < 8 ==> #[trigger] c.theta@[i] == lin(g[2 + i], THETA_LO, THETA_HI)
    &&& forall|i: int| 0 <= i < 8 ==> #[trigger] c.w_on@[i] == on_gain(g, i)
    &&& forall|i: int| 0 <= i < 8 ==> #[trigger] c.w_off@[i] == off_gain(g, i)
    &&& forall|i: int| 0 <= i < 8 ==> #[trigger] c.w_osc@[i] == osc_gain(g, i)
    &&& forall|j: int, i: int| 0 <= j < 8 && 0 <= i < 8 ==> #[trigger] c.w@[j]@[i] == syn_weight(
        g,
        j,
        i,
    )
    &&& forall|j: int, i: int| 0 <= j < 8 && 0 <= i < 8 ==> #[trigger] c.g@[j]@[i] == gap_weight(
        g,
        j,
        i,
    )
    &&& c.w_nmj == lin(g[21], NMJ_LO, NMJ_HI)
}

/// A configuration failure, fatal at load time.
#[derive(Clone, Copy, Debug, PartialEq, Eq, Structural)]
pub enum ConfigError {
    /// The genotype does not have one gene per table entry.
    GeneLength,
    /// An unknown concentration-field tag.
    FieldMode,
}

impl Gene {
    /// Scale this genotype into circuit parameters through the named
    /// range tables; pure, so equal genotypes always yield equal
    /// parameters.  Fails exactly when the gene count is wrong.
    pub fn scaling(&self) -> (r: Result<GeneConst, ConfigError>)
        requires
            gene_ok(self.gene@),
        ensures
            r is Ok <==> self.gene@.len() == GENE_COUNT,
            r is Ok ==> scaled_from(r->Ok_0, self.gene@) && gene_const_ok(r->Ok_0),
            r is Ok ==> (r->Ok_0)@ == gene_view_of(self.gene@),
    {
        if self.gene.len() != GENE_COUNT {
            return Err(ConfigError::GeneLength);
        }
        let gs = &self.gene;
        let n = lin_map(gs[0], WINDOW_LO, WINDOW_HI);
        let m = lin_map(gs[1], WINDOW_LO, WINDOW_HI);

        let mut theta: Vec<i64> = Vec::new();
        let mut i: usize = 0;
        while i < 8
            invariant
                0 <= i <= 8,
                gene_ok(gs@),
                gs@.len() == GENE_COUNT,
                theta@.len() == i,
                forall|k: int| 0 <= k < i ==> #[trigger] theta@[k] == lin(
                    gs@[2 + k],
                    THETA_LO,
                    THETA_HI,
                ),
                forall|k: int| 0 <= k < i ==> THETA_LO <= #[trigger] theta@[k] <= THETA_HI,
            decreases 8 - i,
        {
            let v = lin_map(gs[2 + i], THETA_LO, THETA_HI);
            theta.push(v);
            i = i + 1;
        }

        let s_on = lin_map(gs[10], GAIN_LO, GAIN_HI);
        let s_off = lin_map(gs[11], GAIN_LO, GAIN_HI);
        let s_osc = lin_map(gs[20], GAIN_LO, GAIN_HI);

        let mut w_on: Vec<i64> = vec![0i64; 8];
        w_on[0] = s_on;
        let mut w_off: Vec<i64> = vec![0i64; 8];
        w_off[1] = s_off;
        let mut w_osc: Vec<i64> = vec![0i64; 8];
        w_osc[4] = -s_osc;
        w_osc[5] = s_osc;
        w_osc[6] = s_osc;
        w_osc[7] = -s_osc;

        let s12 = lin_map(gs[12], SYN_LO, SYN_HI);
        let s13 = lin_map(gs[13], SYN_LO, SYN_HI);
        let s14 = lin_map(gs[14], SYN_LO, SYN_HI);
        let s15 = lin_map(gs[15], SYN_LO, SYN_HI);
        let s16 = lin_map(gs[16], SYN_LO, SYN_HI);
        let s17 = lin_map(gs[17], SYN_LO, SYN_HI);

        let mut row0: Vec<i64> = vec![0i64; 8];
        row0[2] = s12;
        let mut row1: Vec<i64> = vec![0i64; 8];
        row1[3] = s13;
        let mut row2: Vec<i64> = vec![0i64; 8];
        row2[4] = s14;
        row2[5] = s15;
        let mut row3: Vec<i64> = vec![0i64; 8];
        row3[6] = s16;
        row3[7] = s17;
        let mut w: Vec<Vec<i64>> = Vec::new();
        w.push(row0);
        w.push(row1);
        w.push(row2);
        w.push(row3);
        w.push(vec![0i64; 8]);
        w.push(vec![0i64; 8]);
        w.push(vec![0i64; 8]);
        w.push(vec![0i64; 8]);

        let g18 = lin_map(gs[18], GAP_LO, GAP_HI);
        let g19 = lin_map(gs[19], GAP_LO, GAP_HI);
        let mut grow2: Vec<i64> = vec![0i64; 8];
        grow2[3] = g18;
        let mut grow3: Vec<i64> = vec![0i64; 8];
        grow3[2] = g18;
        let mut grow6: Vec<i64> = vec![0i64; 8];
        grow6[7] = g19;
        let mut grow7: Vec<i64> = vec![0i64; 8];
        grow7[6] = g19;
        let mut gm: Vec<Vec<i64>> = Vec::new();
        gm.push(vec![0i64; 8]);
        gm.push(vec![0i64; 8]);
        gm.push(grow2);
        gm.push(grow3);
        gm.push(vec![0i64; 8]);
        gm.push(vec![0i64; 8]);
        gm.push(grow6);
        gm.push(grow7);

        let w_nmj = lin_map(gs[21], NMJ_LO, NMJ_HI);

        let c = GeneConst { n, m, theta, w_on, w_off, w_osc, w, g: gm, w_nmj };
        proof {
            let gseq = gs@;
            assert forall|j: int, i: int| 0 <= j < 8 && 0 <= i < 8 implies #[trigger] c.w@[j]@[i]
                == syn_weight(gseq, j, i) by {
                assert(c.w@.len() == 8);
            }
            assert forall|j: int, i: int| 0 <= j < 8 && 0 <= i < 8 implies #[trigger] c.g@[j]@[i]
                == gap_weight(gseq, j, i) by {
                assert(c.g@.len() == 8);
            }
            let gv = gene_view_of(gseq);
            assert(c@.theta =~= gv.theta);
            assert(c@.w_on =~= gv.w_on);
            assert(c@.w_off =~= gv.w_off);
            assert(c@.w_osc =~= gv.w_osc);
            assert(c@.w =~~= gv.w);
            assert(c@.g =~~= gv.g);
        }
        Ok(c)
    }
}

} // verus!
