use c_elegans_chemotaxis::env::FieldMode;
use c_elegans_chemotaxis::fitness::{chemotaxis_index, chemotaxis_index_wave_check};
use c_elegans_chemotaxis::model::Setting;
use c_elegans_chemotaxis::params::{ConfigError, Gene, GENE_COUNT};
use c_elegans_chemotaxis::rng::Rng64;
use c_elegans_chemotaxis::ONE;

fn small_setting() -> Setting {
    Setting {
        alpha: (10_000, 20_000),
        c_0: 1_000_000,
        lambda: 1_000_000,
        x_peak: 4_500_000,
        y_peak: 0,
        dt: 10_000,
        periodic_time: 1_000_000,
        frequency: 250_000,
        velocity: 22_000,
        simulation_time: 10_000_000,
        time_constant: 100_000,
    }
}

fn zero_gene() -> Gene {
    Gene { gene: vec![0i64; GENE_COUNT] }
}

#[test]
fn setting_accepts_small_configuration() {
    assert!(small_setting().valid());
}

#[test]
fn setting_rejects_zero_step_size() {
    let mut s = small_setting();
    s.dt = 0;
    assert!(!s.valid());
}

#[test]
fn setting_rejects_inverted_alpha_range() {
    let mut s = small_setting();
    s.alpha = (20_000, 10_000);
    assert!(!s.valid());
}

#[test]
fn scaling_is_deterministic_and_exact() {
    let g = zero_gene();
    let a = g.scaling().unwrap();
    let b = g.scaling().unwrap();
    // a gene at zero maps to the middle of each range
    assert_eq!(a.n, 2_150_000);
    assert_eq!(a.m, 2_150_000);
    assert_eq!(a.theta, vec![0i64; 8]);
    assert_eq!(a.w_nmj, 1_500_000);
    // bit-identical on a second call
    assert_eq!(a.n, b.n);
    assert_eq!(a.m, b.m);
    assert_eq!(a.theta, b.theta);
    assert_eq!(a.w_on, b.w_on);
    assert_eq!(a.w_off, b.w_off);
    assert_eq!(a.w_osc, b.w_osc);
    assert_eq!(a.w, b.w);
    assert_eq!(a.g, b.g);
    assert_eq!(a.w_nmj, b.w_nmj);
}

#[test]
fn scaling_rejects_wrong_gene_count() {
    let g = Gene { gene: vec![0i64; 5] };
    assert_eq!(g.scaling().unwrap_err(), ConfigError::GeneLength);
}

#[test]
fn scaling_places_the_locked_synapses() {
    let mut genes = vec![0i64; GENE_COUNT];
    genes[12] = -1_000_000;
    genes[13] = 1_000_000;
    let c = Gene { gene: genes }.scaling().unwrap();
    // gene 12 feeds neuron 0 into neuron 2, gene 13 neuron 1 into 3
    assert_eq!(c.w[0][2], -15_000_000);
    assert_eq!(c.w[1][3], 15_000_000);
    assert_eq!(c.w[4][4], 0);
}

#[test]
fn chemotaxis_index_is_reproducible_under_a_seed() {
    let g = zero_gene();
    let s = small_setting();
    let mut r1 = Rng64::new(42);
    let mut r2 = Rng64::new(42);
    let a = chemotaxis_index(&g, &s, &mut r1);
    let b = chemotaxis_index(&g, &s, &mut r2);
    assert_eq!(a, b);
    assert_eq!(r1.state, r2.state);
}

#[test]
fn chemotaxis_index_is_bounded() {
    let g = zero_gene();
    let s = small_setting();
    for seed in 0..20u64 {
        let mut rng = Rng64::new(seed);
        let v = chemotaxis_index(&g, &s, &mut rng);
        assert!(0 <= v && v <= ONE);
    }
}

#[test]
fn wave_check_index_is_reproducible_and_bounded() {
    let g = zero_gene();
    let s = small_setting();
    let mut r1 = Rng64::new(7);
    let mut r2 = Rng64::new(7);
    let a = chemotaxis_index_wave_check(&g, &s, &mut r1);
    let b = chemotaxis_index_wave_check(&g, &s, &mut r2);
    assert_eq!(a, b);
    assert!(0 <= a && a <= ONE);
}

#[test]
fn different_seeds_change_the_draws() {
    let mut r1 = Rng64::new(1);
    let mut r2 = Rng64::new(2);
    assert_ne!(r1.next_u64(), r2.next_u64());
}

#[test]
fn field_mode_tags_decode() {
    assert_eq!(FieldMode::from_tag(0).unwrap(), FieldMode::Linear);
    assert_eq!(FieldMode::from_tag(1).unwrap(), FieldMode::SingleGauss);
    assert_eq!(FieldMode::from_tag(2).unwrap(), FieldMode::DoubleGauss);
    assert!(FieldMode::from_tag(3).is_err());
}

#[test]
fn ten_step_zero_gene_run_is_regression_stable() {
    // a ten-step simulation in the linear field from a fixed seed
    let g = zero_gene();
    let mut s = small_setting();
    s.simulation_time = 10 * s.dt;
    assert!(s.valid());
    let mut r1 = Rng64::new(99);
    let mut r2 = Rng64::new(99);
    let (traj1, mus1) = c_elegans_chemotaxis::analysis::klinotaxis_run(
        &g,
        &s,
        FieldMode::Linear,
        &mut r1,
    );
    let (traj2, mus2) = c_elegans_chemotaxis::analysis::klinotaxis_run(
        &g,
        &s,
        FieldMode::Linear,
        &mut r2,
    );
    assert_eq!(traj1.len(), 10);
    assert_eq!(mus1.len(), 10);
    assert_eq!(traj1[0], (0, 0));
    assert_eq!(traj1, traj2);
    assert_eq!(mus1, mus2);
    // the crawler moves at most one step length per step
    for w in traj1.windows(2) {
        let dx = (w[1].0 - w[0].0).abs();
        let dy = (w[1].1 - w[0].1).abs();
        assert!(dx <= 221 && dy <= 221);
    }
    let mut r3 = Rng64::new(99);
    let fitness = chemotaxis_index(&g, &s, &mut r3);
    assert!(fitness >= 0);
}
