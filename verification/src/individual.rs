//! The genetic algorithm's view of an agent: a chromosome paired with a
//! scalar fitness.  One variant per species; both expose the same
//! capability through the `Individual` trait.

use vstd::prelude::*;
use crate::chromosome::Chromosome;
use crate::hervor::Hervor;
use crate::chaser::Chaser;
use crate::brain::{Brain, HervorBrain, ChaserBrain, topology_spec};
use crate::network::{weight_count, topo_sizes};
use crate::config::{SimulationConfig, IndividualConfig, initial_speed_spec};

verus! {

/// The fitness a hervor earns: its satiation, plus 40 for surviving,
/// plus 30 for having eaten every plant of the world.
pub open spec fn hervor_fitness_spec(satiation: u32, dead: bool, nplants: int) -> int {
    satiation + (if dead { 0int } else { 40int })
        + (if satiation == nplants { 30int } else { 0int })
}

/// The fitness a chaser earns: ten per kill counted in its world — the
/// same value for every chaser of that world.
pub open spec fn chaser_fitness_spec(kill_count: u32) -> int {
    (kill_count as int) * 10
}

/// A population member the genetic algorithm can breed: it exposes a
/// chromosome and a non-negative fitness, and can be built either fresh
/// (fitness 0) or with a known fitness.
pub trait Individual: Sized {
    spec fn fitness_spec(&self) -> u64;

    spec fn chromosome_spec(&self) -> Seq<i64>;

    /// A fresh offspring: fitness 0.
    fn create(chromosome: Chromosome) -> (r: Self)
        ensures
            r.fitness_spec() == 0,
            r.chromosome_spec() == chromosome@;

    /// A member sampled out of a live world, with its earned fitness.
    fn create_fit(chromosome: Chromosome, fitness: u64) -> (r: Self)
        ensures
            r.fitness_spec() == fitness,
            r.chromosome_spec() == chromosome@;

    fn chromosome(&self) -> (r: &Chromosome)
        ensures
            r@ == self.chromosome_spec();

    fn fitness(&self) -> (r: u64)
        ensures
            r == self.fitness_spec();
}

pub struct HervorIndividual {
    fitness: u64,
    chromosome: Chromosome,
}

impl Individual for HervorIndividual {
    closed spec fn fitness_spec(&self) -> u64 {
        self.fitness
    }

    closed spec fn chromosome_spec(&self) -> Seq<i64> {
        self.chromosome@
    }

    fn create(chromosome: Chromosome) -> (r: Self) {
        HervorIndividual { fitness: 0, chromosome }
    }

    fn create_fit(chromosome: Chromosome, fitness: u64) -> (r: Self) {
        HervorIndividual { fitness, chromosome }
    }

    fn chromosome(&self) -> (r: &Chromosome) {
        &self.chromosome
    }

    fn fitness(&self) -> (r: u64) {
        self.fitness
    }
}

impl HervorIndividual {
    /// Computes the hervor fitness formula.
    pub fn calc_fitness(hervor: &Hervor, nplants: usize) -> (r: u64)
        ensures
            r == hervor_fitness_spec(hervor.satiation, hervor.dead, nplants as int),
    {
        let base: u64 = hervor.satiation as u64;
        let alive: u64 = if hervor.dead { 0 } else { 40 };
        let full: u64 = if hervor.satiation as u64 == nplants as u64 { 30 } else { 0 };
        proof {
            assert((hervor.satiation as u64 == nplants as u64)
                == (hervor.satiation as int == nplants as int));
        }
        base + alive + full
    }

    /// Samples a live hervor into an individual.
    pub fn from_hervor(hervor: &Hervor, nplants: usize) -> (r: Self)
        requires
            hervor.brain.sane(),
        ensures
            r.fitness_spec() == hervor_fitness_spec(hervor.satiation, hervor.dead,
                nplants as int),
            r.chromosome_spec() == hervor.brain.genes_view(),
            crate::chromosome::genes_bounded(r.chromosome_spec()),
    {
        HervorIndividual {
            fitness: Self::calc_fitness(hervor, nplants),
            chromosome: hervor.as_chromosome(),
        }
    }

    /// Rebuilds a fresh hervor around the individual's chromosome.
    pub fn into_hervor(self, sim_conf: &SimulationConfig, hervor_conf: &IndividualConfig,
        rng: &mut rand::rngs::StdRng) -> (r: Hervor)
        requires
            sim_conf.wf(),
            hervor_conf.wf(),
            self.chromosome_spec().len() == weight_count(topo_sizes(topology_spec(
                HervorBrain::input_size_spec(*sim_conf, *hervor_conf)))),
            crate::chromosome::genes_bounded(self.chromosome_spec()),
        ensures
            r.wf(*sim_conf, *hervor_conf),
            r.brain.genes_view() == self.chromosome_spec(),
            r.satiation == 0,
            !r.dead,
            r.speed == initial_speed_spec(*hervor_conf),
    {
        Hervor::from_chromosome(sim_conf, hervor_conf, self.chromosome, rng)
    }
}

pub struct ChaserIndividual {
    fitness: u64,
    chromosome: Chromosome,
}

impl Individual for ChaserIndividual {
    closed spec fn fitness_spec(&self) -> u64 {
        self.fitness
    }

    closed spec fn chromosome_spec(&self) -> Seq<i64> {
        self.chromosome@
    }

    fn create(chromosome: Chromosome) -> (r: Self) {
        ChaserIndividual { fitness: 0, chromosome }
    }

    fn create_fit(chromosome: Chromosome, fitness: u64) -> (r: Self) {
        ChaserIndividual { fitness, chromosome }
    }

    fn chromosome(&self) -> (r: &Chromosome) {
        &self.chromosome
    }

    fn fitness(&self) -> (r: u64) {
        self.fitness
    }
}


impl ChaserIndividual {
    /// Computes the chaser fitness formula from the world's kill tally.
    pub fn calc_fitness(kill_count: u32) -> (r: u64)
        ensures
            r == chaser_fitness_spec(kill_count),
    {
        (kill_count as u64) * 10
    }

    /// Samples a live chaser into an individual; the fitness is the
    /// world's shared kill tally, not the chaser's own.
    pub fn from_chaser(chaser: &Chaser, kill_count: u32) -> (r: Self)
        requires
            chaser.brain.sane(),
        ensures
            r.fitness_spec() == chaser_fitness_spec(kill_count),
            r.chromosome_spec() == chaser.brain.genes_view(),
            crate::chromosome::genes_bounded(r.chromosome_spec()),
    {
        ChaserIndividual {
            fitness: Self::calc_fitness(kill_count),
            chromosome: chaser.as_chromosome(),
        }
    }

    /// Rebuilds a fresh chaser around the individual's chromosome.
    pub fn into_chaser(self, sim_conf: &SimulationConfig, chaser_conf: &IndividualConfig,
        rng: &mut rand::rngs::StdRng) -> (r: Chaser)
        requires
            sim_conf.wf(),
            chaser_conf.wf(),
            self.chromosome_spec().len() == weight_count(topo_sizes(topology_spec(
                ChaserBrain::input_size_spec(*sim_conf, *chaser_conf)))),
            crate::chromosome::genes_bounded(self.chromosome_spec()),
        ensures
            r.wf(*sim_conf, *chaser_conf),
            r.brain.genes_view() == self.chromosome_spec(),
            r.killed == 0,
            r.speed == initial_speed_spec(*chaser_conf),
    {
        Chaser::from_chromosome(sim_conf, chaser_conf, self.chromosome, rng)
    }
}

} // verus!
