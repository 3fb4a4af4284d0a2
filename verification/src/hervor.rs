//! The herbivore agent: pose, bounded speed, an owned eye and brain,
//! a satiation count and a dead flag.

use vstd::prelude::*;
use crate::INITIAL_SPEED;
use crate::geom::Pos;
use crate::eye::{Eye, heading_wf};
use crate::brain::{Brain, HervorBrain, topology_spec};
use crate::network::{weight_count, topo_sizes};
use crate::chromosome::Chromosome;
use crate::config::{SimulationConfig, IndividualConfig, initial_speed_spec, clamp_initial_speed};
use crate::rng::{rng_pos, rng_heading};

verus! {

pub struct Hervor {
    pub position: Pos,
    pub heading: i64,
    pub speed: i64,
    pub eye: Eye,
    pub satiation: u32,
    pub dead: bool,
    pub brain: HervorBrain,
}

impl Hervor {
    /// Valid pose and speed, the eye and brain of the configuration.
    pub open spec fn wf(&self, sim_conf: SimulationConfig, in_conf: IndividualConfig) -> bool {
        &&& self.position.wf()
        &&& heading_wf(self.heading as int)
        &&& in_conf.speed_min <= self.speed <= in_conf.speed_max
        &&& self.eye.wf()
        &&& self.eye.matches_config(in_conf)
        &&& self.brain.wf(sim_conf, in_conf)
    }

    /// A fresh agent around the given eye and brain: random pose,
    /// initial speed, nothing eaten, alive.
    pub fn new(eye: Eye, brain: HervorBrain, rng: &mut rand::rngs::StdRng) -> (r: Hervor)
        ensures
            r.position.wf(),
            heading_wf(r.heading as int),
            r.speed == INITIAL_SPEED,
            r.satiation == 0,
            !r.dead,
            r.eye == eye,
            r.brain == brain,
    {
        let position = rng_pos(rng);
        let heading = rng_heading(rng);
        Hervor { position, heading, speed: INITIAL_SPEED, eye, brain, satiation: 0, dead: false }
    }

    pub fn dead(&self) -> (r: bool)
        ensures
            r == self.dead,
    {
        self.dead
    }

    pub fn position(&self) -> (r: Pos)
        ensures
            r == self.position,
    {
        self.position
    }

    pub fn rotation(&self) -> (r: i64)
        ensures
            r == self.heading,
    {
        self.heading
    }

    /// A fresh agent with a random brain.
    pub fn random(sim_conf: &SimulationConfig, hervor_conf: &IndividualConfig,
        rng: &mut rand::rngs::StdRng) -> (r: Hervor)
        requires
            sim_conf.wf(),
            hervor_conf.wf(),
        ensures
            r.wf(*sim_conf, *hervor_conf),
            r.satiation == 0,
            !r.dead,
            r.speed == initial_speed_spec(*hervor_conf),
    {
        let eye = Eye::from_config(hervor_conf);
        let brain = HervorBrain::random(rng, sim_conf, hervor_conf);
        let mut h = Self::new(eye, brain, rng);
        h.speed = clamp_initial_speed(hervor_conf);
        h
    }

    /// A fresh agent around a bred chromosome.
    pub fn from_chromosome(sim_conf: &SimulationConfig, hervor_conf: &IndividualConfig,
        chromosome: Chromosome, rng: &mut rand::rngs::StdRng) -> (r: Hervor)
        requires
            sim_conf.wf(),
            hervor_conf.wf(),
            chromosome.wf(),
            chromosome@.len() == weight_count(topo_sizes(topology_spec(
                HervorBrain::input_size_spec(*sim_conf, *hervor_conf)))),
        ensures
            r.wf(*sim_conf, *hervor_conf),
            r.brain.genes_view() == chromosome@,
            r.satiation == 0,
            !r.dead,
            r.speed == initial_speed_spec(*hervor_conf),
    {
        let eye = Eye::from_config(hervor_conf);
        let brain = HervorBrain::from_chromosome(chromosome, sim_conf, hervor_conf);
        let mut h = Self::new(eye, brain, rng);
        h.speed = clamp_initial_speed(hervor_conf);
        h
    }

    /// The agent's brain weights, flattened.
    pub fn as_chromosome(&self) -> (r: Chromosome)
        requires
            self.brain.sane(),
        ensures
            r@ == self.brain.genes_view(),
            r.wf(),
    {
        self.brain.as_chromosome()
    }

    /// A copy: same pose, speed, counters and brain weights, with the
    /// eye rebuilt from the configuration.
    pub fn extra_clone(&self, sim_conf: &SimulationConfig, hervor_conf: &IndividualConfig)
        -> (r: Hervor)
        requires
            sim_conf.wf(),
            hervor_conf.wf(),
            self.wf(*sim_conf, *hervor_conf),
        ensures
            r.wf(*sim_conf, *hervor_conf),
            r.position == self.position,
            r.heading == self.heading,
            r.speed == self.speed,
            r.satiation == self.satiation,
            r.dead == self.dead,
            r.brain.genes_view() == self.brain.genes_view(),
    {
        proof {
            self.brain.lemma_wf_sane(*sim_conf, *hervor_conf);
        }
        let chromosome = self.brain.as_chromosome();
        let brain = HervorBrain::from_chromosome(chromosome, sim_conf, hervor_conf);
        Hervor {
            position: self.position,
            heading: self.heading,
            speed: self.speed,
            eye: Eye::from_config(hervor_conf),
            satiation: self.satiation,
            dead: self.dead,
            brain,
        }
    }
}

} // verus!
