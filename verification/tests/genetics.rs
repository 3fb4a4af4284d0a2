//! The genetic algorithm: selection, crossover, mutation, and the two
//! evolution modes.

use hervor_sim::chromosome::Chromosome;
use hervor_sim::ga::{
    GeneticAlgorithm, RouletteWheelSelection, UniformCrossover, GaussianMutation,
    EvolveError,
};
use hervor_sim::individual::{Individual, HervorIndividual};
use hervor_sim::statistics::Statistics;
use hervor_sim::{CHANCE_ONE, GENE_LIMIT};
use rand::SeedableRng;

fn rng() -> rand::rngs::StdRng {
    rand::rngs::StdRng::seed_from_u64(0x5eed)
}

fn chrom(genes: &[i64]) -> Chromosome {
    Chromosome::new(genes.to_vec())
}

fn member(genes: &[i64], fitness: u64) -> HervorIndividual {
    HervorIndividual::create_fit(chrom(genes), fitness)
}

fn genes_of(c: &Chromosome) -> Vec<i64> {
    let mut out = Vec::new();
    let mut i = 0;
    while i < c.len() {
        out.push(c.gene(i));
        i += 1;
    }
    out
}

fn ga() -> GeneticAlgorithm {
    GeneticAlgorithm::new(
        RouletteWheelSelection::new(),
        UniformCrossover::new(),
        GaussianMutation::new(CHANCE_ONE / 2, 300_000),
    )
}

#[test]
fn crossover_forced_towards_first_parent() {
    // A choice stream that always picks parent a reproduces it exactly.
    let a = chrom(&[10, 20, 30, 40]);
    let b = chrom(&[-1, -2, -3, -4]);
    let all_a = vec![true, true, true, true];
    let child = UniformCrossover::new().crossover_with_choices(&a, &b, &all_a);
    assert_eq!(genes_of(&child), vec![10, 20, 30, 40]);

    let all_b = vec![false, false, false, false];
    let child = UniformCrossover::new().crossover_with_choices(&a, &b, &all_b);
    assert_eq!(genes_of(&child), vec![-1, -2, -3, -4]);

    let mixed = vec![true, false, true, false];
    let child = UniformCrossover::new().crossover_with_choices(&a, &b, &mixed);
    assert_eq!(genes_of(&child), vec![10, -2, 30, -4]);
}

#[test]
fn crossover_takes_every_gene_from_a_parent() {
    let a = chrom(&[1, 2, 3, 4, 5, 6, 7, 8]);
    let b = chrom(&[-1, -2, -3, -4, -5, -6, -7, -8]);
    let child = UniformCrossover::new().crossover(&mut rng(), &a, &b);
    assert_eq!(child.len(), 8);
    for i in 0..8 {
        let g = child.gene(i);
        let expect = (i + 1) as i64;
        assert!(g == expect || g == -expect);
    }
}

#[test]
fn mutation_with_zero_chance_is_a_no_op() {
    let mut c = chrom(&[5, -7, 0, 4_000_000]);
    GaussianMutation::new(0, 300_000).mutate(&mut rng(), &mut c);
    assert_eq!(genes_of(&c), vec![5, -7, 0, 4_000_000]);
}

#[test]
fn mutation_with_zero_magnitude_is_a_no_op() {
    let mut c = chrom(&[5, -7, 0, 4_000_000]);
    GaussianMutation::new(CHANCE_ONE, 0).mutate(&mut rng(), &mut c);
    assert_eq!(genes_of(&c), vec![5, -7, 0, 4_000_000]);
}

#[test]
fn mutation_moves_genes_by_less_than_the_magnitude() {
    let before = vec![0i64, 1_000_000, -1_000_000, 77];
    let mut c = chrom(&before);
    GaussianMutation::new(CHANCE_ONE, 300_000).mutate(&mut rng(), &mut c);
    let after = genes_of(&c);
    for i in 0..4 {
        assert!((after[i] - before[i]).abs() < 300_000);
    }
}

#[test]
fn selection_fails_on_all_zero_fitness() {
    let pool = vec![member(&[1], 0), member(&[2], 0), member(&[3], 0)];
    assert!(RouletteWheelSelection::new().select(&mut rng(), &pool).is_none());
}

#[test]
fn selection_fails_on_an_empty_pool() {
    let pool: Vec<HervorIndividual> = Vec::new();
    assert!(RouletteWheelSelection::new().select(&mut rng(), &pool).is_none());
}

#[test]
fn selection_picks_a_member_with_positive_fitness() {
    let pool = vec![member(&[1], 0), member(&[2], 7), member(&[3], 0)];
    let mut r = rng();
    for _ in 0..20 {
        let picked = RouletteWheelSelection::new().select(&mut r, &pool).unwrap();
        assert_eq!(picked, 1);
    }
}

#[test]
fn evolve_preserves_population_size() {
    for elitist in [false, true] {
        let pop = vec![
            member(&[1, 1], 1),
            member(&[2, 2], 2),
            member(&[3, 3], 3),
            member(&[4, 4], 4),
            member(&[5, 5], 5),
        ];
        let (newp, _) = ga().evolve(&mut rng(), pop, elitist).unwrap();
        assert_eq!(newp.len(), 5);
    }
}

#[test]
fn elitism_keeps_the_top_half_verbatim() {
    let pop = vec![
        member(&[1, 0], 1),
        member(&[2, 0], 2),
        member(&[3, 0], 3),
        member(&[4, 0], 4),
    ];
    let (newp, _) = ga().evolve(&mut rng(), pop, true).unwrap();
    assert_eq!(newp.len(), 4);
    // Sorted ascending by fitness, the upper half survives unchanged at
    // the front of the output.
    assert_eq!(newp[0].fitness(), 3);
    assert_eq!(genes_of(newp[0].chromosome()), vec![3, 0]);
    assert_eq!(newp[1].fitness(), 4);
    assert_eq!(genes_of(newp[1].chromosome()), vec![4, 0]);
    // The bred remainder starts from scratch.
    assert_eq!(newp[2].fitness(), 0);
    assert_eq!(newp[3].fitness(), 0);
}

#[test]
fn evolve_rejects_an_empty_population() {
    let pop: Vec<HervorIndividual> = Vec::new();
    match ga().evolve(&mut rng(), pop, false) {
        Err(e) => assert_eq!(e, EvolveError::EmptyPopulation),
        Ok(_) => panic!("an empty population must be rejected"),
    }
}

#[test]
fn evolve_rejects_an_all_zero_population() {
    let pop = vec![member(&[1], 0), member(&[2], 0)];
    match ga().evolve(&mut rng(), pop, true) {
        Err(e) => assert_eq!(e, EvolveError::ZeroFitness),
        Ok(_) => panic!("an all-zero population must be rejected"),
    }
}

#[test]
fn statistics_snapshot_the_input_fitness() {
    let pop = vec![member(&[1], 9), member(&[2], 1), member(&[3], 5)];
    let (_, stats) = ga().evolve(&mut rng(), pop, false).unwrap();
    assert_eq!(stats.min_fitness, 1);
    assert_eq!(stats.max_fitness, 9);
    assert_eq!(stats.mean_fitness, 5);
}

#[test]
fn statistics_mean_rounds_down() {
    let values = vec![1u64, 2, 4];
    let stats = Statistics::new(&values);
    assert_eq!(stats.min_fitness, 1);
    assert_eq!(stats.max_fitness, 4);
    assert_eq!(stats.mean_fitness, 2);
    let empty = Statistics::empty();
    assert_eq!(empty.min_fitness, 0);
    assert_eq!(empty.max_fitness, 0);
    assert_eq!(empty.mean_fitness, 0);
}

#[test]
fn mutation_under_forced_draws_is_exact() {
    let mut c = chrom(&[100, 100, 100, GENE_LIMIT - 50]);
    let m = GaussianMutation::new(CHANCE_ONE / 2, 400_000);
    // Per gene: the roll against the chance, the sign, the magnitude.
    let draws = vec![
        (0u64, false, 30u64),          // touched: +30
        (0u64, true, 30u64),           // touched: -30
        (CHANCE_ONE, false, 30u64),    // roll at the chance: untouched
        (0u64, false, 100u64),         // would overshoot: clamped
    ];
    m.mutate_with_draws(&mut c, &draws);
    assert_eq!(genes_of(&c), vec![130, 70, 100, GENE_LIMIT]);
}
