//! The predator agent: pose, bounded speed, an owned eye and brain, and
//! a kill tally.

use vstd::prelude::*;
use crate::INITIAL_SPEED;
use crate::geom::Pos;
use crate::eye::{Eye, heading_wf};
use crate::brain::{Brain, ChaserBrain, topology_spec};
use crate::network::{weight_count, topo_sizes};
use crate::chromosome::Chromosome;
use crate::config::{SimulationConfig, IndividualConfig, initial_speed_spec, clamp_initial_speed};
use crate::rng::{rng_pos, rng_heading};

verus! {

pub struct Chaser {
    pub position: Pos,
    pub heading: i64,
    pub speed: i64,
    pub eye: Eye,
    pub killed: u32,
    pub brain: ChaserBrain,
}

impl Chaser {
    /// Valid pose and speed, the eye and brain of the configuration.
    pub open spec fn wf(&self, sim_conf: SimulationConfig, in_conf: IndividualConfig) -> bool {
        &&& self.position.wf()
        &&& heading_wf(self.heading as int)
        &&& in_conf.speed_min <= self.speed <= in_conf.speed_max
        &&& self.eye.wf()
        &&& self.eye.matches_config(in_conf)
        &&& self.brain.wf(sim_conf, in_conf)
    }

    /// A fresh agent around the given eye and brain: random pose,
    /// initial speed, no kills.
    pub fn new(eye: Eye, brain: ChaserBrain, rng: &mut rand::rngs::StdRng) -> (r: Chaser)
        ensures
            r.position.wf(),
            heading_wf(r.heading as int),
            r.speed == INITIAL_SPEED,
            r.killed == 0,
            r.eye == eye,
            r.brain == brain,
    {
        let position = rng_pos(rng);
        let heading = rng_heading(rng);
        Chaser { position, heading, speed: INITIAL_SPEED, eye, brain, killed: 0 }
    }

    pub fn position(&self) -> (r: Pos)
        ensures
            r == self.position,
    {
        self.position
    }

    pub fn rotation(&self) -> (r: i64)
        ensures
            r == self.heading,
    {
        self.heading
    }

    /// A fresh agent with a random brain.
    pub fn random(sim_conf: &SimulationConfig, chaser_conf: &IndividualConfig,
        rng: &mut rand::rngs::StdRng) -> (r: Chaser)
        requires
            sim_conf.wf(),
            chaser_conf.wf(),
        ensures
            r.wf(*sim_conf, *chaser_conf),
            r.killed == 0,
            r.speed == initial_speed_spec(*chaser_conf),
    {
        let eye = Eye::from_config(chaser_conf);
        let brain = ChaserBrain::random(rng, sim_conf, chaser_conf);
        let mut c = Self::new(eye, brain, rng);
        c.speed = clamp_initial_speed(chaser_conf);
        c
    }

    /// A fresh agent around a bred chromosome.
    pub fn from_chromosome(sim_conf: &SimulationConfig, chaser_conf: &IndividualConfig,
        chromosome: Chromosome, rng: &mut rand::rngs::StdRng) -> (r: Chaser)
        requires
            sim_conf.wf(),
            chaser_conf.wf(),
            chromosome.wf(),
            chromosome@.len() == weight_count(topo_sizes(topology_spec(
                ChaserBrain::input_size_spec(*sim_conf, *chaser_conf)))),
        ensures
            r.wf(*sim_conf, *chaser_conf),
            r.brain.genes_view() == chromosome@,
            r.killed == 0,
            r.speed == initial_speed_spec(*chaser_conf),
    {
        let eye = Eye::from_config(chaser_conf);
        let brain = ChaserBrain::from_chromosome(chromosome, sim_conf, chaser_conf);
        let mut c = Self::new(eye, brain, rng);
        c.speed = clamp_initial_speed(chaser_conf);
        c
    }

    /// The agent's brain weights, flattened.
    pub fn as_chromosome(&self) -> (r: Chromosome)
        requires
            self.brain.sane(),
        ensures
            r@ == self.brain.genes_view(),
            r.wf(),
    {
        self.brain.as_chromosome()
    }

    /// A copy: same pose, speed, tally and brain weights, with the eye
    /// rebuilt from the configuration.
    pub fn extra_clone(&self, sim_conf: &SimulationConfig, chaser_conf: &IndividualConfig)
        -> (r: Chaser)
        requires
            sim_conf.wf(),
            chaser_conf.wf(),
            self.wf(*sim_conf, *chaser_conf),
        ensures
            r.wf(*sim_conf, *chaser_conf),
            r.position == self.position,
            r.heading == self.heading,
            r.speed == self.speed,
            r.killed == self.killed,
            r.brain.genes_view() == self.brain.genes_view(),
    {
        proof {
            self.brain.lemma_wf_sane(*sim_conf, *chaser_conf);
        }
        let chromosome = self.brain.as_chromosome();
        let brain = ChaserBrain::from_chromosome(chromosome, sim_conf, chaser_conf);
        Chaser {
            position: self.position,
            heading: self.heading,
            speed: self.speed,
            eye: Eye::from_config(chaser_conf),
            killed: self.killed,
            brain,
        }
    }
}

} // verus!
