//! An evolutionary predator/prey simulation: herbivore agents ("hervors")
//! and predator agents ("chasers") move on a unit torus, perceive their
//! surroundings through bounded field-of-view sensors, and are steered by
//! small feed-forward networks whose weights are bred by a genetic
//! algorithm generation after generation.
//!
//! All quantities are fixed-point integers: lengths are scaled by `SCALE`
//! (so `SCALE` is one world-width), angles are scaled so that `FULL_TURN`
//! is one revolution, and network weights ("genes") live in
//! `[-GENE_LIMIT, GENE_LIMIT]`.

pub mod brain;
pub mod chromosome;
pub mod config;
pub mod eye;
pub mod ga;
pub mod geom;
pub mod network;
pub mod chaser;
pub mod hervor;
pub mod individual;
pub mod plant;
pub mod rng;
pub mod simulation;
pub mod statistics;
pub mod world;

pub use brain::{Brain, HervorBrain, ChaserBrain};
pub use chromosome::Chromosome;
pub use config::{Model, IndividualConfig, SimulationConfig};
pub use eye::{Eye, PositionalEye, CellularEye, ClosestEye};
pub use ga::{
    GeneticAlgorithm, RouletteWheelSelection, UniformCrossover, GaussianMutation,
    EvolveError,
};
pub use geom::Pos;
pub use hervor::Hervor;
pub use chaser::Chaser;
pub use individual::{Individual, HervorIndividual, ChaserIndividual};
pub use network::{Network, LayerTopology};
pub use plant::Plant;
pub use simulation::{Simulation, LoadError};
pub use statistics::Statistics;
pub use world::World;

use vstd::prelude::*;

verus! {

/// One world-width: the fixed-point representation of the length 1.0.
pub const SCALE: i64 = 1_000_000;

/// One full revolution in angle units.
pub const FULL_TURN: i64 = 4_000_000;

/// Half a revolution: the two ends of the signed angle range.
pub const HALF_TURN: i64 = 2_000_000;

/// A quarter revolution: one quadrant.
pub const QUARTER_TURN: i64 = 1_000_000;

/// Eating distance: an agent eats a target at Euclidean distance
/// at most this (0.02 world-widths).
pub const EAT_RANGE: i64 = 20_000;

/// Largest magnitude a gene (network weight or bias) may take.
pub const GENE_LIMIT: i64 = 8_000_000;

/// The fixed-point representation of probability 1.0 for mutation chances.
pub const CHANCE_ONE: u64 = 1_000_000;

/// Speed every freshly constructed agent starts with (0.002 world-widths
/// per tick).
pub const INITIAL_SPEED: i64 = 2_000;

} // verus!
