use c_elegans_chemotaxis::genetic::{
    evaluate_fitness, finalize_results, ga_run_once, mutation, mutation_aiy_aiz_negative,
    next_generation, population_new, population_new_aiy_aiz_negative, sort_by_fitness_desc,
    two_point_crossover, FitnessVariant, Ga, Gasetting,
};
use c_elegans_chemotaxis::model::Setting;
use c_elegans_chemotaxis::params::{Gene, GENE_COUNT};
use c_elegans_chemotaxis::rng::Rng64;
use c_elegans_chemotaxis::ONE;

fn small_setting() -> Setting {
    Setting {
        alpha: (10_000, 20_000),
        c_0: 1_000_000,
        lambda: 1_000_000,
        x_peak: 4_500_000,
        y_peak: 0,
        dt: 10_000,
        periodic_time: 1_000_000,
        frequency: 250_000,
        velocity: 22_000,
        simulation_time: 1_000_000,
        time_constant: 100_000,
    }
}

fn small_ga() -> Gasetting {
    Gasetting {
        average: 1,
        gen_size: GENE_COUNT,
        ga_count: 1,
        n_gen: 1,
        pop_size: 10,
        sel_top: 4,
        mat_pb: ONE,
        mut_pb: 0,
        re_val: 1,
    }
}

#[test]
fn population_has_the_requested_shape() {
    let mut rng = Rng64::new(5);
    let pop = population_new(GENE_COUNT, 7, &mut rng);
    assert_eq!(pop.len(), 7);
    for ind in &pop {
        assert_eq!(ind.value, 0);
        assert_eq!(ind.gene.gene.len(), GENE_COUNT);
        for &g in &ind.gene.gene {
            assert!(-ONE <= g && g <= ONE);
        }
    }
}

#[test]
fn constrained_population_locks_the_synapse_genes() {
    let mut rng = Rng64::new(6);
    let pop = population_new_aiy_aiz_negative(GENE_COUNT, 50, &mut rng);
    assert_eq!(pop.len(), 50);
    for ind in &pop {
        assert!(ind.gene.gene[12] <= 0);
        assert!(ind.gene.gene[13] <= 0);
    }
}

#[test]
fn crossover_recombines_without_inventing_genes() {
    let p1 = Ga { value: 0, gene: Gene { gene: vec![111i64; GENE_COUNT] } };
    let p2 = Ga { value: 0, gene: Gene { gene: vec![222i64; GENE_COUNT] } };
    let mut rng = Rng64::new(3);
    let children = two_point_crossover(&p1, &p2, &mut rng);
    assert_eq!(children.len(), 2);
    assert_eq!(children[0].gene.gene.len(), GENE_COUNT);
    assert_eq!(children[1].gene.gene.len(), GENE_COUNT);
    for i in 0..GENE_COUNT {
        let a = children[0].gene.gene[i];
        let b = children[1].gene.gene[i];
        // every child gene comes from exactly one parent, and the two
        // children trade complementary segments
        assert!(a == 111 || a == 222);
        assert!(b == 111 || b == 222);
        assert_eq!(a + b, 333);
    }
}

#[test]
fn crossover_swaps_one_contiguous_segment() {
    let p1 = Ga { value: 0, gene: Gene { gene: (0..GENE_COUNT as i64).collect() } };
    let p2 = Ga { value: 0, gene: Gene { gene: (100..100 + GENE_COUNT as i64).collect() } };
    let mut rng = Rng64::new(11);
    let children = two_point_crossover(&p1, &p2, &mut rng);
    let swapped: Vec<bool> =
        (0..GENE_COUNT).map(|i| children[0].gene.gene[i] == 100 + i as i64).collect();
    // the swapped positions form one contiguous run
    let transitions = swapped.windows(2).filter(|w| w[0] != w[1]).count();
    assert!(transitions <= 2);
}

#[test]
fn mutation_keeps_genes_in_the_unit_band() {
    let parent = Ga { value: 0, gene: Gene { gene: vec![900_000i64; GENE_COUNT] } };
    let mut rng = Rng64::new(8);
    for _ in 0..20 {
        let child = mutation(&parent, ONE, (0, 50_000), &mut rng);
        assert_eq!(child.value, 0);
        assert_eq!(child.gene.gene.len(), GENE_COUNT);
        for &g in &child.gene.gene {
            assert!(-ONE <= g && g <= ONE);
        }
    }
}

#[test]
fn constrained_mutation_never_flips_the_locked_genes() {
    let mut genes = vec![0i64; GENE_COUNT];
    genes[12] = -500_000;
    genes[13] = -1;
    let mut ind = Ga { value: 0, gene: Gene { gene: genes } };
    let mut rng = Rng64::new(9);
    // any number of repeated applications keeps both locked genes
    // non-positive
    for _ in 0..50 {
        ind = mutation_aiy_aiz_negative(&ind, ONE, (0, 200_000), &mut rng);
        assert!(ind.gene.gene[12] <= 0, "gene 12 flipped positive");
        assert!(ind.gene.gene[13] <= 0, "gene 13 flipped positive");
        for &g in &ind.gene.gene {
            assert!(-ONE <= g && g <= ONE);
        }
    }
}

#[test]
fn evaluation_keeps_genotypes_and_bounds_fitness() {
    let s = small_setting();
    let mut rng = Rng64::new(12);
    let pop = population_new(GENE_COUNT, 4, &mut rng);
    let evaluated = evaluate_fitness(&pop, &s, 1, FitnessVariant::Plain, &mut rng);
    assert_eq!(evaluated.len(), 4);
    for (before, after) in pop.iter().zip(evaluated.iter()) {
        assert_eq!(before.gene.gene, after.gene.gene);
        assert!(0 <= after.value && after.value <= ONE);
    }
}

#[test]
fn fitness_averaging_is_reproducible() {
    let s = small_setting();
    let ind = Ga { value: 0, gene: Gene { gene: vec![0i64; GENE_COUNT] } };
    let mut r1 = Rng64::new(21);
    let mut r2 = Rng64::new(21);
    let a = ind.fitness(&s, 3, FitnessVariant::Plain, &mut r1);
    let b = ind.fitness(&s, 3, FitnessVariant::Plain, &mut r2);
    assert_eq!(a, b);
}

#[test]
fn sorting_ranks_best_first_and_keeps_members() {
    let mk = |v: i64| Ga { value: v, gene: Gene { gene: vec![0i64; GENE_COUNT] } };
    let mut pop = vec![mk(300), mk(100), mk(500), mk(100), mk(400)];
    sort_by_fitness_desc(&mut pop);
    let values: Vec<i64> = pop.iter().map(|g| g.value).collect();
    assert_eq!(values, vec![500, 400, 300, 100, 100]);
}

#[test]
fn one_generation_keeps_the_population_size() {
    // population 10, top 4 selected, certain crossover, no mutation,
    // re-evaluation every generation: four elites, four recombined
    // children and two random fills sum back to ten
    let s = small_setting();
    let ga = small_ga();
    let mut rng = Rng64::new(14);
    let pop = population_new(GENE_COUNT, ga.pop_size, &mut rng);
    let evaluated = evaluate_fitness(&pop, &s, ga.average, FitnessVariant::Plain, &mut rng);
    let next = next_generation(&evaluated, &ga, &s, 0, FitnessVariant::Plain, false, &mut rng);
    assert_eq!(next.len(), 10);
    for w in next.windows(2) {
        assert!(w[0].value >= w[1].value);
    }
}

#[test]
fn population_size_is_invariant_across_generations() {
    let s = small_setting();
    let mut ga = small_ga();
    ga.mut_pb = ONE;
    ga.re_val = 2;
    ga.sel_top = 6;
    let mut rng = Rng64::new(15);
    let pop = population_new(GENE_COUNT, ga.pop_size, &mut rng);
    let mut evaluated = evaluate_fitness(&pop, &s, ga.average, FitnessVariant::Plain, &mut rng);
    for gen in 0..3 {
        evaluated = next_generation(
            &evaluated,
            &ga,
            &s,
            gen,
            FitnessVariant::Plain,
            true,
            &mut rng,
        );
        assert_eq!(evaluated.len(), ga.pop_size);
    }
}

#[test]
fn one_whole_run_returns_a_well_formed_best() {
    let s = small_setting();
    let mut ga = small_ga();
    ga.pop_size = 4;
    ga.sel_top = 2;
    let mut rng = Rng64::new(16);
    let best = ga_run_once(&ga, &s, FitnessVariant::WaveCheck, true, &mut rng);
    assert_eq!(best.gene.gene.len(), GENE_COUNT);
    assert!(best.gene.gene[12] <= 0);
    assert!(best.gene.gene[13] <= 0);
}

#[test]
fn finalization_reevaluates_and_ranks() {
    let s = small_setting();
    let mut rng = Rng64::new(17);
    let pop = population_new(GENE_COUNT, 5, &mut rng);
    let done = finalize_results(&pop, &s, 1, &mut rng);
    assert_eq!(done.len(), 5);
    for w in done.windows(2) {
        assert!(w[0].value >= w[1].value);
    }
    for ind in &done {
        assert!(0 <= ind.value && ind.value <= ONE);
    }
}

#[test]
fn elites_keep_their_fitness_between_reevaluations() {
    // no crossover and no mutation, re-evaluation every other
    // generation: on the off generations the selected elites come back
    // with their prior fitness and genotype unchanged
    let s = small_setting();
    let mut ga = small_ga();
    ga.mat_pb = 0;
    ga.mut_pb = 0;
    ga.re_val = 2;
    let mut rng = Rng64::new(18);
    let pop = population_new(GENE_COUNT, ga.pop_size, &mut rng);
    let mut evaluated = evaluate_fitness(&pop, &s, ga.average, FitnessVariant::Plain, &mut rng);
    sort_by_fitness_desc(&mut evaluated);
    let elites: Vec<(i64, Vec<i64>)> = evaluated[..ga.sel_top]
        .iter()
        .map(|g| (g.value, g.gene.gene.clone()))
        .collect();
    // generation index one is off the re-evaluation interval
    let next = next_generation(&evaluated, &ga, &s, 1, FitnessVariant::Plain, false, &mut rng);
    for elite in &elites {
        assert!(
            next.iter().any(|g| g.value == elite.0 && g.gene.gene == elite.1),
            "an elite lost its fitness or genotype"
        );
    }
}
