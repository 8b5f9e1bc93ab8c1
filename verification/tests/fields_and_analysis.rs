use c_elegans_chemotaxis::analysis::{
    histgram_count_bearing, histgram_count_normal_gradient, histgram_count_translational_gradient,
    klinotaxis_analysis, AnalysisFunction,
};
use c_elegans_chemotaxis::env::{
    concentration, gauss_concentration, two_gauss_concentration, FieldMode,
};
use c_elegans_chemotaxis::model::{Const, Setting};
use c_elegans_chemotaxis::params::{Gene, GENE_COUNT};
use c_elegans_chemotaxis::report::{generate_file_names, u64_to_string, Filename};
use c_elegans_chemotaxis::rng::Rng64;
use c_elegans_chemotaxis::trig::{fx_atan2_deg, fx_cos, fx_sigmoid, fx_sin, HALF_PI};
use c_elegans_chemotaxis::ONE;

fn small_const() -> Const {
    Const {
        alpha: 15_000,
        c_0: 1_000_000,
        lambda: 1_000_000,
        x_peak: 4_500_000,
        y_peak: 0,
        dt: 10_000,
        periodic_time: 1_000_000,
        frequency: 250_000,
        velocity: 22_000,
        simulation_time: 10_000_000,
        time_constant: 100_000,
    }
}

#[test]
fn sigmoid_takes_its_midpoint_and_saturates() {
    assert_eq!(fx_sigmoid(0), 500_000);
    assert_eq!(fx_sigmoid(15 * ONE), ONE);
    assert_eq!(fx_sigmoid(-15 * ONE), 0);
    let lo = fx_sigmoid(-1_000_000);
    let hi = fx_sigmoid(1_000_000);
    // the logistic curve is symmetric about one half
    assert_eq!(lo + hi, ONE);
    // close to the reference value of the logistic at one
    assert!((hi - 731_058i64).abs() < 200);
}

#[test]
fn sine_and_cosine_hit_the_cardinal_points() {
    assert_eq!(fx_sin(0), 0);
    assert!((fx_sin(HALF_PI) - ONE).abs() < 2_000);
    assert!(fx_cos(0) > ONE - 2_000);
    assert!(fx_sin(3_141_592).abs() < 2_000);
    assert!((fx_sin(-HALF_PI) + ONE).abs() < 2_000);
}

#[test]
fn plane_angles_come_out_in_degrees() {
    assert!(fx_atan2_deg(0, 0).is_none());
    assert_eq!(fx_atan2_deg(1_000_000, 0), Some(90_000_000));
    assert_eq!(fx_atan2_deg(-1_000_000, 0), Some(-90_000_000));
    let diag = fx_atan2_deg(1_000_000, 1_000_000).unwrap();
    assert!((diag - 45_000_000).abs() < 20_000);
    let back = fx_atan2_deg(0, -1_000_000).unwrap();
    assert!((back - 180_000_000).abs() < 20_000);
}

#[test]
fn linear_field_grows_toward_the_peak() {
    let c = small_const();
    let at_origin = concentration(&c, 0, 0);
    let near_peak = concentration(&c, 4_000_000, 0);
    assert_eq!(at_origin, 0);
    assert!(near_peak > at_origin);
}

#[test]
fn single_bell_field_reflects_about_its_axis() {
    let c = small_const();
    for &(x, y) in &[(0i64, 500_000i64), (2_000_000, 1_500_000), (-1_000_000, 250_000)] {
        assert_eq!(gauss_concentration(&c, x, y), gauss_concentration(&c, x, -y));
    }
    let at_peak = gauss_concentration(&c, c.x_peak, c.y_peak);
    assert!((at_peak - c.c_0).abs() < 10);
}

#[test]
fn double_bell_field_reflects_for_any_peak() {
    let mut c = small_const();
    c.y_peak = 2_000_000;
    for &(x, y) in &[(0i64, 500_000i64), (2_000_000, 1_500_000), (-1_000_000, 250_000)] {
        assert_eq!(two_gauss_concentration(&c, x, y), two_gauss_concentration(&c, x, -y));
    }
}

#[test]
fn bearing_histogram_bins_by_angle() {
    // one sample at five degrees falls in the bin covering zero to ten
    let bearing = vec![Some(5_000_000i64), None, Some(5_500_000)];
    let curving = vec![Some(100i64), Some(999), Some(300)];
    let hist = histgram_count_bearing(&bearing, &curving, 10);
    assert_eq!(hist.len(), 36);
    assert_eq!(hist[18], Some(200));
    assert_eq!(hist[0], None);
    assert_eq!(hist[35], None);
}

#[test]
fn gradient_histogram_bins_by_value() {
    let grads = vec![Some(-500_000i64), Some(500_000), Some(999_000), None];
    let curving = vec![Some(10i64), Some(20), Some(40), Some(999)];
    let hist = histgram_count_normal_gradient(&grads, &curving, 2, 1_000_000);
    assert_eq!(hist.len(), 2);
    assert_eq!(hist[0], Some(10));
    assert_eq!(hist[1], Some(30));
}

#[test]
fn translational_histogram_splits_by_sign() {
    let grads = vec![Some(100_000i64), Some(200_000), Some(300_000)];
    let curving = vec![Some(-10i64), Some(30), Some(50)];
    let (all, pos, neg) = histgram_count_translational_gradient(&grads, &curving, 1, 1_000_000);
    assert_eq!(all[0], Some(23));
    assert_eq!(pos[0], Some(40));
    assert_eq!(neg[0], Some(-10));
}

#[test]
fn analysis_signals_are_aligned_and_reproducible() {
    let g = Gene { gene: vec![0i64; GENE_COUNT] };
    let s = Setting {
        alpha: (10_000, 20_000),
        c_0: 1_000_000,
        lambda: 1_000_000,
        x_peak: 4_500_000,
        y_peak: 0,
        dt: 10_000,
        periodic_time: 200_000,
        frequency: 250_000,
        velocity: 22_000,
        simulation_time: 2_000_000,
        time_constant: 100_000,
    };
    assert!(s.valid());
    let mut r1 = Rng64::new(33);
    let (x1, y1) = klinotaxis_analysis(
        &g,
        &s,
        FieldMode::Linear,
        1,
        1,
        1_000,
        AnalysisFunction::Bearing,
        &mut r1,
    );
    assert_eq!(x1.len(), y1.len());
    // simulation of 200 steps, span 20, drain 20: 140 samples remain
    assert_eq!(x1.len(), 140);
    let mut r2 = Rng64::new(33);
    let (x2, y2) = klinotaxis_analysis(
        &g,
        &s,
        FieldMode::Linear,
        1,
        1,
        1_000,
        AnalysisFunction::Bearing,
        &mut r2,
    );
    assert_eq!(x1, x2);
    assert_eq!(y1, y2);
}

#[test]
fn file_names_gain_the_gene_index() {
    let base = Filename {
        read_result_json: String::from("results.json"),
        bearing_vs_curving_rate_output: String::from("out/bearing"),
        nomal_gradient_vs_curving_rate_output: String::from("out/normal"),
        translational_gradient_vs_curving_rate_output: String::from("out/trans"),
    };
    let named = generate_file_names(&base, 7);
    assert_eq!(named.read_result_json, "results.json");
    assert_eq!(named.bearing_vs_curving_rate_output, "out/bearing_7.txt");
    assert_eq!(named.nomal_gradient_vs_curving_rate_output, "out/normal_7.txt");
    assert_eq!(named.translational_gradient_vs_curving_rate_output, "out/trans_7.txt");
}

#[test]
fn whole_numbers_render_in_decimal() {
    assert_eq!(u64_to_string(0), "0");
    assert_eq!(u64_to_string(9), "9");
    assert_eq!(u64_to_string(120), "120");
    assert_eq!(u64_to_string(1000001), "1000001");
}
