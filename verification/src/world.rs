//! One independent world: fixed-size populations of hervors, chasers
//! and plants, plus the world's accumulated kill counter.

use vstd::prelude::*;
use crate::hervor::Hervor;
use crate::chaser::Chaser;
use crate::plant::Plant;
use crate::config::{SimulationConfig, IndividualConfig};
use crate::brain::Brain;

verus! {

pub struct World {
    pub hervors: Vec<Hervor>,
    pub chasers: Vec<Chaser>,
    pub plants: Vec<Plant>,
    /// Hervors killed in this world, over the whole run (saturating).
    pub kill_count: u32,
}

impl World {
    /// Exactly the configured population sizes, every member valid.
    pub open spec fn wf(&self, sim_conf: SimulationConfig, hervor_conf: IndividualConfig,
        chaser_conf: IndividualConfig) -> bool {
        &&& self.hervors@.len() == sim_conf.nhervors
        &&& self.chasers@.len() == sim_conf.nchasers
        &&& self.plants@.len() == sim_conf.nplants
        &&& forall|i: int| 0 <= i < self.hervors@.len()
            ==> (#[trigger] self.hervors@[i]).wf(sim_conf, hervor_conf)
        &&& forall|i: int| 0 <= i < self.chasers@.len()
            ==> (#[trigger] self.chasers@[i]).wf(sim_conf, chaser_conf)
        &&& forall|i: int| 0 <= i < self.plants@.len()
            ==> (#[trigger] self.plants@[i]).wf()
    }

    /// A fresh world: configured counts of random agents and plants,
    /// nothing eaten, nobody dead, no kills.
    pub fn random(rng: &mut rand::rngs::StdRng, sim_conf: &SimulationConfig,
        hervor_conf: &IndividualConfig, chaser_conf: &IndividualConfig) -> (r: World)
        requires
            sim_conf.wf(),
            hervor_conf.wf(),
            chaser_conf.wf(),
        ensures
            r.wf(*sim_conf, *hervor_conf, *chaser_conf),
            r.kill_count == 0,
            forall|i: int| 0 <= i < r.hervors@.len()
                ==> !(#[trigger] r.hervors@[i]).dead && r.hervors@[i].satiation == 0,
            forall|i: int| 0 <= i < r.chasers@.len()
                ==> (#[trigger] r.chasers@[i]).killed == 0,
            forall|i: int| 0 <= i < r.plants@.len() ==> !(#[trigger] r.plants@[i]).eaten,
    {
        let mut hervors: Vec<Hervor> = Vec::new();
        let mut i: usize = 0;
        while i < sim_conf.nhervors
            invariant
                i <= sim_conf.nhervors,
                sim_conf.wf(),
                hervor_conf.wf(),
                hervors@.len() == i,
                forall|k: int| 0 <= k < i ==> {
                    &&& (#[trigger] hervors@[k]).wf(*sim_conf, *hervor_conf)
                    &&& !hervors@[k].dead
                    &&& hervors@[k].satiation == 0
                },
            decreases sim_conf.nhervors - i,
        {
            hervors.push(Hervor::random(sim_conf, hervor_conf, rng));
            i = i + 1;
        }
        let mut chasers: Vec<Chaser> = Vec::new();
        let mut j: usize = 0;
        while j < sim_conf.nchasers
            invariant
                j <= sim_conf.nchasers,
                sim_conf.wf(),
                chaser_conf.wf(),
                chasers@.len() == j,
                forall|k: int| 0 <= k < j ==> {
                    &&& (#[trigger] chasers@[k]).wf(*sim_conf, *chaser_conf)
                    &&& chasers@[k].killed == 0
                },
            decreases sim_conf.nchasers - j,
        {
            chasers.push(Chaser::random(sim_conf, chaser_conf, rng));
            j = j + 1;
        }
        let mut plants: Vec<Plant> = Vec::new();
        let mut p: usize = 0;
        while p < sim_conf.nplants
            invariant
                p <= sim_conf.nplants,
                plants@.len() == p,
                forall|k: int| 0 <= k < p
                    ==> (#[trigger] plants@[k]).wf() && !plants@[k].eaten,
            decreases sim_conf.nplants - p,
        {
            plants.push(Plant::random(rng));
            p = p + 1;
        }
        World { hervors, chasers, plants, kill_count: 0 }
    }

    pub fn hervors(&self) -> (r: &Vec<Hervor>)
        ensures
            r == &self.hervors,
    {
        &self.hervors
    }

    pub fn chasers(&self) -> (r: &Vec<Chaser>)
        ensures
            r == &self.chasers,
    {
        &self.chasers
    }

    pub fn plants(&self) -> (r: &Vec<Plant>)
        ensures
            r == &self.plants,
    {
        &self.plants
    }

    /// A copy of the world: identical plants, kill counter, and agent
    /// state, with each agent's eye rebuilt from the configuration and
    /// its brain rebuilt from the same weights.
    pub fn extra_clone(&self, sim_conf: &SimulationConfig, hervor_conf: &IndividualConfig,
        chaser_conf: &IndividualConfig) -> (r: World)
        requires
            sim_conf.wf(),
            hervor_conf.wf(),
            chaser_conf.wf(),
            self.wf(*sim_conf, *hervor_conf, *chaser_conf),
        ensures
            r.wf(*sim_conf, *hervor_conf, *chaser_conf),
            r.kill_count == self.kill_count,
            r.plants@ == self.plants@,
            r.hervors@.len() == self.hervors@.len(),
            r.chasers@.len() == self.chasers@.len(),
            forall|i: int| 0 <= i < r.hervors@.len() ==> {
                &&& (#[trigger] r.hervors@[i]).position == self.hervors@[i].position
                &&& r.hervors@[i].heading == self.hervors@[i].heading
                &&& r.hervors@[i].speed == self.hervors@[i].speed
                &&& r.hervors@[i].satiation == self.hervors@[i].satiation
                &&& r.hervors@[i].dead == self.hervors@[i].dead
                &&& r.hervors@[i].brain.genes_view() == self.hervors@[i].brain.genes_view()
            },
            forall|i: int| 0 <= i < r.chasers@.len() ==> {
                &&& (#[trigger] r.chasers@[i]).position == self.chasers@[i].position
                &&& r.chasers@[i].heading == self.chasers@[i].heading
                &&& r.chasers@[i].speed == self.chasers@[i].speed
                &&& r.chasers@[i].killed == self.chasers@[i].killed
                &&& r.chasers@[i].brain.genes_view() == self.chasers@[i].brain.genes_view()
            },
    {
        let mut hervors: Vec<Hervor> = Vec::new();
        let mut i: usize = 0;
        while i < self.hervors.len()
            invariant
                i <= self.hervors@.len(),
                sim_conf.wf(),
                hervor_conf.wf(),
                chaser_conf.wf(),
                self.wf(*sim_conf, *hervor_conf, *chaser_conf),
                hervors@.len() == i,
                forall|k: int| 0 <= k < i ==> {
                    &&& (#[trigger] hervors@[k]).wf(*sim_conf, *hervor_conf)
                    &&& hervors@[k].position == self.hervors@[k].position
                    &&& hervors@[k].heading == self.hervors@[k].heading
                    &&& hervors@[k].speed == self.hervors@[k].speed
                    &&& hervors@[k].satiation == self.hervors@[k].satiation
                    &&& hervors@[k].dead == self.hervors@[k].dead
                    &&& hervors@[k].brain.genes_view() == self.hervors@[k].brain.genes_view()
                },
            decreases self.hervors@.len() - i,
        {
            hervors.push(self.hervors[i].extra_clone(sim_conf, hervor_conf));
            i = i + 1;
        }
        let mut chasers: Vec<Chaser> = Vec::new();
        let mut j: usize = 0;
        while j < self.chasers.len()
            invariant
                j <= self.chasers@.len(),
                sim_conf.wf(),
                hervor_conf.wf(),
                chaser_conf.wf(),
                self.wf(*sim_conf, *hervor_conf, *chaser_conf),
                chasers@.len() == j,
                forall|k: int| 0 <= k < j ==> {
                    &&& (#[trigger] chasers@[k]).wf(*sim_conf, *chaser_conf)
                    &&& chasers@[k].position == self.chasers@[k].position
                    &&& chasers@[k].heading == self.chasers@[k].heading
                    &&& chasers@[k].speed == self.chasers@[k].speed
                    &&& chasers@[k].killed == self.chasers@[k].killed
                    &&& chasers@[k].brain.genes_view() == self.chasers@[k].brain.genes_view()
                },
            decreases self.chasers@.len() - j,
        {
            chasers.push(self.chasers[j].extra_clone(sim_conf, chaser_conf));
            j = j + 1;
        }
        let mut plants: Vec<Plant> = Vec::new();
        let mut p: usize = 0;
        while p < self.plants.len()
            invariant
                p <= self.plants@.len(),
                plants@.len() == p,
                plants@ == self.plants@.take(p as int),
            decreases self.plants@.len() - p,
        {
            plants.push(self.plants[p]);
            p = p + 1;
            proof {
                assert(plants@ =~= self.plants@.take(p as int));
            }
        }
        proof {
            assert(self.plants@.take(self.plants@.len() as int) =~= self.plants@);
        }
        World { hervors, chasers, plants, kill_count: self.kill_count }
    }
}

} // verus!
