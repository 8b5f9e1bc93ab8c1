//! Analysis configuration and output naming.
//!
//! The analysis layer reads one result collection and writes one plot
//! file per analysis mode and gene index; the path of each output file
//! is the configured base name with the gene index and a text
//! extension appended.

use crate::fixed::fx_ok;
use vstd::prelude::*;

verus! {

/// Paths the analysis reads from and writes to.
#[derive(Debug)]
pub struct Filename {
    /// The result collection to read.
    pub read_result_json: String,
    /// Output for the bearing-versus-turning-bias table.
    pub bearing_vs_curving_rate_output: String,
    /// Output for the normal-gradient-versus-turning-bias table.
    pub nomal_gradient_vs_curving_rate_output: String,
    /// Output for the translational-gradient-versus-turning-bias table.
    pub translational_gradient_vs_curving_rate_output: String,
}

impl Clone for Filename {
    fn clone(&self) -> (r: Self)
        ensures
            r.read_result_json@ == self.read_result_json@,
            r.bearing_vs_curving_rate_output@ == self.bearing_vs_curving_rate_output@,
            r.nomal_gradient_vs_curving_rate_output@
                == self.nomal_gradient_vs_curving_rate_output@,
            r.translational_gradient_vs_curving_rate_output@
                == self.translational_gradient_vs_curving_rate_output@,
    {
        Filename {
            read_result_json: self.read_result_json.clone(),
            bearing_vs_curving_rate_output: self.bearing_vs_curving_rate_output.clone(),
            nomal_gradient_vs_curving_rate_output:
                self.nomal_gradient_vs_curving_rate_output.clone(),
            translational_gradient_vs_curving_rate_output:
                self.translational_gradient_vs_curving_rate_output.clone(),
        }
    }
}

/// Which analysis functions to run, by tag.
#[derive(Clone, Debug)]
pub struct Analysisusefunction {
    /// Analysis-mode tags, applied in order.
    pub mode: Vec<i32>,
}

/// Which genes of the result collection to analyze.
#[derive(Clone, Debug)]
pub struct Analysisusegene {
    /// Zero to list gene indexes, one to give a range.
    pub mode: usize,
    /// The listed gene indexes.
    pub gene_numbers: Vec<usize>,
    /// The inclusive index range.
    pub gene_number_range: Vec<usize>,
}

/// The analysis parameters.
#[derive(Clone, Copy, Debug)]
pub struct Analysissetting {
    /// Index of the analyzed individual in the result collection.
    pub gene_number: usize,
    /// Concentration-field tag.
    pub mode: u64,
    /// Independent runs averaged per histogram.
    pub analysis_loop: usize,
    /// Movement cycles spanned by each displacement vector.
    pub periodic_number: usize,
    /// Leading movement cycles dropped from each run.
    pub periodic_number_drain: usize,
    /// Bearing histogram bin width, in degrees.
    pub bin_range: usize,
    /// Distance between the two gradient sample points.
    pub delta: i64,
    /// Gradient histogram bin count.
    pub bin_number: usize,
    /// Largest gradient the histogram covers.
    pub concentration_gradient_max: i64,
}

/// The decimal digit characters.
pub open spec fn digit_char(d: int) -> char {
    if d == 0 {
        '0'
    } else if d == 1 {
        '1'
    } else if d == 2 {
        '2'
    } else if d == 3 {
        '3'
    } else if d == 4 {
        '4'
    } else if d == 5 {
        '5'
    } else if d == 6 {
        '6'
    } else if d == 7 {
        '7'
    } else if d == 8 {
        '8'
    } else {
        '9'
    }
}

/// The decimal rendering of a whole number, most significant digit
/// first.
pub open spec fn dec_str(n: nat) -> Seq<char>
    decreases n,
{
    if n < 10 {
        seq![digit_char(n as int)]
    } else {
        dec_str(n / 10).push(digit_char((n % 10) as int))
    }
}

fn digit_str(d: u64) -> (r: &'static str)
    requires
        d < 10,
    ensures
        r@ == seq![digit_char(d as int)],
{
    proof {
        reveal_strlit("0");
        reveal_strlit("1");
        reveal_strlit("2");
        reveal_strlit("3");
        reveal_strlit("4");
        reveal_strlit("5");
        reveal_strlit("6");
        reveal_strlit("7");
        reveal_strlit("8");
        reveal_strlit("9");
    }
    let r = if d == 0 {
        "0"
    } else if d == 1 {
        "1"
    } else if d == 2 {
        "2"
    } else if d == 3 {
        "3"
    } else if d == 4 {
        "4"
    } else if d == 5 {
        "5"
    } else if d == 6 {
        "6"
    } else if d == 7 {
        "7"
    } else if d == 8 {
        "8"
    } else {
        "9"
    };
    proof {
        assert(r@ =~= seq![digit_char(d as int)]);
    }
    r
}

/// Render a whole number in decimal.
pub fn u64_to_string(n: u64) -> (s: String)
    ensures
        s@ == dec_str(n as nat),
    decreases n,
{
    if n < 10 {
        String::from_str(digit_str(n))
    } else {
        let mut s = u64_to_string(n / 10);
        s.append(digit_str(n % 10));
        proof {
            assert(s@ =~= dec_str(n as nat));
        }
        s
    }
}

/// The text-table suffix of every analysis output path.
pub open spec fn txt_suffix() -> Seq<char> {
    seq!['.', 't', 'x', 't']
}

/// The path of one indexed output: the base, an underscore, the gene
/// index in decimal, and the text extension.
pub open spec fn indexed_path(base: Seq<char>, index: nat) -> Seq<char> {
    base + seq!['_'] + dec_str(index) + txt_suffix()
}

fn format_indexed(base: &String, index: u64) -> (r: String)
    ensures
        r@ == indexed_path(base@, index as nat),
{
    proof {
        reveal_strlit("_");
        reveal_strlit(".txt");
    }
    let mut s = base.clone();
    s.append("_");
    let num = u64_to_string(index);
    s.append(num.as_str());
    s.append(".txt");
    proof {
        assert(("_")@ =~= seq!['_']);
        assert((".txt")@ =~= txt_suffix());
        assert(s@ =~= indexed_path(base@, index as nat));
    }
    s
}

/// The output paths for one analyzed gene: each plot path gains the
/// gene index and the text extension; the input path stays as it is.
pub fn generate_file_names(base: &Filename, index: usize) -> (r: Filename)
    ensures
        r.read_result_json@ == base.read_result_json@,
        r.bearing_vs_curving_rate_output@ == indexed_path(
            base.bearing_vs_curving_rate_output@,
            index as nat,
        ),
        r.nomal_gradient_vs_curving_rate_output@ == indexed_path(
            base.nomal_gradient_vs_curving_rate_output@,
            index as nat,
        ),
        r.translational_gradient_vs_curving_rate_output@ == indexed_path(
            base.translational_gradient_vs_curving_rate_output@,
            index as nat,
        ),
{
    Filename {
        read_result_json: base.read_result_json.clone(),
        bearing_vs_curving_rate_output: format_indexed(
            &base.bearing_vs_curving_rate_output,
            index as u64,
        ),
        nomal_gradient_vs_curving_rate_output: format_indexed(
            &base.nomal_gradient_vs_curving_rate_output,
            index as u64,
        ),
        translational_gradient_vs_curving_rate_output: format_indexed(
            &base.translational_gradient_vs_curving_rate_output,
            index as u64,
        ),
    }
}

} // verus!
