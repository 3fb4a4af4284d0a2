//! Run-wide configuration, immutable during a run: population sizes,
//! generation length, mutation parameters, per-species kinematics and
//! field-of-view geometry, and the vision-model selector.
//!
//! The well-formedness bounds keep every later computation inside
//! machine integers: populations per world and worlds per run are capped
//! so pooled fitness sums fit `u64`.

use vstd::prelude::*;
use crate::{SCALE, FULL_TURN, INITIAL_SPEED, CHANCE_ONE, GENE_LIMIT};

verus! {

/// Most agents of one species a world may hold, and most worlds a run
/// may hold.
pub const MAX_AGENTS: usize = 10_000;
pub const MAX_WORLDS: usize = 10_000;

/// Most angular buckets a cellular eye may use.
pub const MAX_EYE_CELLS: usize = 1_000_000;

/// The speed a freshly built agent starts with: the common initial
/// speed, brought into the species' configured band.
pub open spec fn initial_speed_spec(conf: IndividualConfig) -> int {
    if INITIAL_SPEED < conf.speed_min {
        conf.speed_min as int
    } else if INITIAL_SPEED > conf.speed_max {
        conf.speed_max as int
    } else {
        INITIAL_SPEED as int
    }
}

/// Brings the common initial speed into a species' configured band.
pub fn clamp_initial_speed(conf: &IndividualConfig) -> (r: i64)
    requires
        conf.speed_min <= conf.speed_max,
    ensures
        r == initial_speed_spec(*conf),
        conf.speed_min <= r <= conf.speed_max,
{
    if INITIAL_SPEED < conf.speed_min {
        conf.speed_min
    } else if INITIAL_SPEED > conf.speed_max {
        conf.speed_max
    } else {
        INITIAL_SPEED
    }
}

/// Which vision model a species trains with.
#[derive(Clone, Copy, PartialEq, Eq, Structural, Debug)]
pub enum Model {
    POSITIONAL,
    CELLULAR,
    CLOSEST,
}

/// Per-species parameters: kinematic limits, field-of-view geometry, and
/// the vision model.
#[derive(Clone, Copy, PartialEq, Eq, Structural, Debug)]
pub struct IndividualConfig {
    /// Slowest and fastest speed an agent may move at, `SCALE` units per
    /// tick.
    pub speed_min: i64,
    pub speed_max: i64,
    /// Largest speed change one brain response may apply.
    pub speed_accel: i64,
    /// Largest heading change one brain response may apply, angle units.
    pub rotation_accel: i64,
    /// Radial reach of the field of view, `SCALE` units.
    pub fov_range: i64,
    /// Angular width of the field of view, angle units.
    pub fov_angle: i64,
    /// Bucket count of the cellular eye.
    pub eye_cells: usize,
    pub training_model: Model,
}

impl IndividualConfig {
    /// Runtime check of the well-formedness bounds, for callers that
    /// read a configuration from outside.
    pub fn check(&self) -> (r: bool)
        ensures
            r == self.wf(),
    {
        0 < self.fov_range && self.fov_range <= SCALE
            && 0 < self.fov_angle && self.fov_angle <= FULL_TURN
            && 0 <= self.speed_min && self.speed_min <= self.speed_max
            && self.speed_max <= SCALE
            && 0 <= self.speed_accel && self.speed_accel <= SCALE
            && 0 <= self.rotation_accel && self.rotation_accel <= FULL_TURN
            && 1 <= self.eye_cells && self.eye_cells <= MAX_EYE_CELLS
    }

    pub open spec fn wf(&self) -> bool {
        &&& 0 < self.fov_range <= SCALE
        &&& 0 < self.fov_angle <= FULL_TURN
        &&& 0 <= self.speed_min <= self.speed_max
        &&& self.speed_max <= SCALE
        &&& 0 <= self.speed_accel <= SCALE
        &&& 0 <= self.rotation_accel <= FULL_TURN
        &&& 1 <= self.eye_cells <= MAX_EYE_CELLS
    }
}

/// Parameters of the whole run: world and population counts, generation
/// length, evolution flags, and mutation parameters.
#[derive(Clone, Copy, PartialEq, Eq, Structural, Debug)]
pub struct SimulationConfig {
    /// Ticks per generation.
    pub generation_length: u64,
    pub nhervors: usize,
    pub nchasers: usize,
    pub nplants: usize,
    pub nworlds: usize,
    /// Evolve elitist: keep the fitter half of each population verbatim.
    pub safe_evolve: bool,
    /// Respawn a plant at a fresh random position when it is eaten.
    pub respawn_plants: bool,
    /// Per-gene mutation probability, `CHANCE_ONE` units.
    pub mutation_probability: u64,
    /// Largest mutation offset, gene units.
    pub mutation_magnitude: u64,
    /// Worlds may be stepped in parallel; the result is the same either
    /// way, so the library always steps them in order.
    pub parallelized: bool,
}

impl SimulationConfig {
    /// Runtime check of the well-formedness bounds, for callers that
    /// read a configuration from outside.
    pub fn check(&self) -> (r: bool)
        ensures
            r == self.wf(),
    {
        1 <= self.nworlds && self.nworlds <= MAX_WORLDS
            && self.nhervors <= MAX_AGENTS
            && self.nchasers <= MAX_AGENTS
            && self.nplants <= MAX_AGENTS
            && self.generation_length < u64::MAX
            && self.mutation_probability <= CHANCE_ONE
            && self.mutation_magnitude <= GENE_LIMIT as u64
    }

    pub open spec fn wf(&self) -> bool {
        &&& 1 <= self.nworlds <= MAX_WORLDS
        &&& self.nhervors <= MAX_AGENTS
        &&& self.nchasers <= MAX_AGENTS
        &&& self.nplants <= MAX_AGENTS
        &&& self.generation_length < u64::MAX
        &&& self.mutation_probability <= CHANCE_ONE
        &&& self.mutation_magnitude <= GENE_LIMIT
    }
}

} // verus!
