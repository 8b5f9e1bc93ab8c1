//! A chemotaxis circuit simulator and its genetic-algorithm optimizer.
//!
//! An eight-neuron locomotory circuit steers a crawler through a
//! chemical concentration field; a genetic algorithm searches the
//! circuit parameters for the best chemotaxis index, and an analysis
//! layer reduces evolved trajectories to directional and gradient
//! statistics.
//!
//! All real-valued quantities are carried as fixed-point numbers: an
//! `i64` counts millionths of a unit, so `1.0` is the constant `ONE`.
//! Every operation is total over that representation, and every source
//! of randomness is an explicit seeded generator, so each simulation,
//! fitness value and optimization run is an exact function of its
//! inputs and seed.

use vstd::prelude::*;

pub mod analysis;
pub mod env;
pub mod fitness;
pub mod fixed;
pub mod genetic;
pub mod model;
pub mod neural;
pub mod params;
pub mod report;
pub mod rng;
pub mod timing;
pub mod trig;

pub use analysis::{
    analysis_klinotaxis_bearing_errbar_std_max_min,
    analysis_klinotaxis_nomal_gradient_errbar_std_max_min,
    analysis_klinotaxis_translational_gradient_errbar_std_positive_negative, bearing,
    curving_rate_bear, histgram_count_bearing, histgram_count_normal_gradient,
    histgram_count_translational_gradient, klinotaxis_analysis, normal_gradient,
    translational_gradient, AnalysisFunction,
};
pub use env::{concentration, gauss_concentration, two_gauss_concentration, FieldMode};
pub use fitness::{chemotaxis_index, chemotaxis_index_wave_check};
pub use fixed::ONE;
pub use genetic::{
    evaluate_fitness, finalize_results, ga_run_once, mutation, mutation_aiy_aiz_negative,
    next_generation, population_new, population_new_aiy_aiz_negative, two_point_crossover,
    FitnessVariant, Ga, Gasetting,
};
pub use model::{Const, Setting};
pub use params::{Gene, GeneConst};
pub use report::{
    generate_file_names, Analysissetting, Analysisusefunction, Analysisusegene, Filename,
};
pub use rng::Rng64;
pub use timing::{time_new, Time};

verus! {

} // verus!
