//! The three vision models against hand-placed scenes.

use hervor_sim::geom::Pos;
use hervor_sim::eye::{Eye, PositionalEye, CellularEye, ClosestEye};
use hervor_sim::config::{Model, IndividualConfig, SimulationConfig};
use hervor_sim::brain::{Brain, ChaserBrain};
use hervor_sim::chaser::Chaser;
use hervor_sim::plant::Plant;
use hervor_sim::{SCALE, FULL_TURN};
use rand::SeedableRng;

fn rng() -> rand::rngs::StdRng {
    rand::rngs::StdRng::seed_from_u64(11)
}

fn sim_conf() -> SimulationConfig {
    SimulationConfig {
        generation_length: 100,
        nhervors: 1,
        nchasers: 1,
        nplants: 1,
        nworlds: 1,
        safe_evolve: true,
        respawn_plants: false,
        mutation_probability: 5_000,
        mutation_magnitude: 300_000,
        parallelized: false,
    }
}

fn chaser_conf() -> IndividualConfig {
    IndividualConfig {
        speed_min: 1_000,
        speed_max: 4_000,
        speed_accel: 200_000,
        rotation_accel: FULL_TURN / 64,
        fov_range: 250_000,
        fov_angle: 2_500_000,
        eye_cells: 9,
        training_model: Model::CLOSEST,
    }
}

fn chaser_at(x: i64, y: i64, heading: i64) -> Chaser {
    let sc = sim_conf();
    let cc = chaser_conf();
    let mut c = Chaser::random(&sc, &cc, &mut rng());
    c.position = Pos { x, y };
    c.heading = heading;
    c
}

#[test]
fn closest_eye_reports_a_target_straight_ahead() {
    // Observer at the center, heading 0 (towards +y); one chaser 0.1
    // ahead, well inside the 0.25 range: count 1, distance 0.1,
    // bearing 0.
    let eye = Eye::Closest(ClosestEye::new(250_000, 2_500_000));
    let observer = Pos { x: 500_000, y: 500_000 };
    let targets = vec![chaser_at(500_000, 600_000, 0)];
    let out = eye.process_vision_see_chasers(&observer, 0, &targets);
    assert_eq!(out.len(), 4);
    assert_eq!(out[1], 100_000);
    assert_eq!(out[2], 0);
    assert_eq!(out[3], 1);
}

#[test]
fn closest_eye_reports_nothing_beyond_the_range() {
    // The same chaser moved to distance 0.5: count 0 and the distance
    // reads 0, not the far value.
    let eye = Eye::Closest(ClosestEye::new(250_000, 2_500_000));
    let observer = Pos { x: 500_000, y: 500_000 };
    let targets = vec![chaser_at(0, 500_000, 0)];
    let out = eye.process_vision_see_chasers(&observer, 0, &targets);
    assert_eq!(out, vec![0, 0, 0, 0]);
}

#[test]
fn closest_eye_prefers_the_nearer_target() {
    let eye = Eye::Closest(ClosestEye::new(250_000, 2_500_000));
    let observer = Pos { x: 500_000, y: 500_000 };
    let targets = vec![
        chaser_at(500_000, 700_000, 7),
        chaser_at(500_000, 550_000, 9),
    ];
    let out = eye.process_vision_see_chasers(&observer, 0, &targets);
    assert_eq!(out[0], 9);
    assert_eq!(out[1], 50_000);
    assert_eq!(out[3], 2);
}

#[test]
fn cellular_eye_bins_by_view_offset() {
    // Four buckets across a full-turn field of view; a target dead
    // ahead falls in the bucket just past the middle, contributing
    // (range - dist) * SCALE / range.
    let eye = Eye::Cellular(CellularEye::with_cells(250_000, FULL_TURN, 4));
    let observer = Pos { x: 500_000, y: 500_000 };
    let targets = vec![chaser_at(500_000, 625_000, 0)];
    let out = eye.process_vision_see_chasers(&observer, 0, &targets);
    assert_eq!(out.len(), 4);
    assert_eq!(out, vec![0, 0, 500_000, 0]);
}

#[test]
fn cellular_eye_accumulates_collocated_targets() {
    let eye = Eye::Cellular(CellularEye::with_cells(250_000, FULL_TURN, 4));
    let observer = Pos { x: 500_000, y: 500_000 };
    let targets = vec![
        chaser_at(500_000, 625_000, 0),
        chaser_at(500_000, 625_000, 0),
    ];
    let out = eye.process_vision_see_chasers(&observer, 0, &targets);
    assert_eq!(out, vec![0, 0, 1_000_000, 0]);
}

#[test]
fn positional_eye_emits_one_block_per_candidate() {
    let eye = Eye::Positional(PositionalEye::new(250_000, 2_500_000));
    let observer = Pos { x: 500_000, y: 500_000 };
    let targets = vec![
        chaser_at(500_000, 600_000, 42),
        chaser_at(0, 500_000, 0),
    ];
    let out = eye.process_vision_see_chasers(&observer, 0, &targets);
    assert_eq!(out.len(), 8);
    // The visible one: relative x, relative y, relative heading, flag.
    assert_eq!(&out[0..4], &[0, 100_000, 42, SCALE]);
    // The out-of-range one: all zeros.
    assert_eq!(&out[4..8], &[0, 0, 0, 0]);
}

#[test]
fn positional_eye_summarizes_plants_by_the_closest() {
    let eye = Eye::Positional(PositionalEye::new(250_000, 2_500_000));
    let observer = Pos { x: 500_000, y: 500_000 };
    let plants = vec![
        Plant { position: Pos { x: 500_000, y: 700_000 }, eaten: false },
        Plant { position: Pos { x: 520_000, y: 550_000 }, eaten: false },
    ];
    let out = eye.process_vision_see_plants(&observer, 0, &plants);
    assert_eq!(out, vec![20_000, 50_000, 2]);
}

#[test]
fn eating_range_is_not_a_vision_matter() {
    // An eaten plant is still seen; vision reads positions only.
    let eye = Eye::Closest(ClosestEye::new(250_000, 2_500_000));
    let observer = Pos { x: 500_000, y: 500_000 };
    let plants = vec![Plant { position: Pos { x: 500_000, y: 600_000 }, eaten: true }];
    let out = eye.process_vision_see_plants(&observer, 0, &plants);
    assert_eq!(out, vec![100_000, 0, 1]);
}

#[test]
fn brain_input_width_follows_the_model() {
    let sc = sim_conf();
    let mut cc = chaser_conf();
    assert_eq!(ChaserBrain::input_size(&sc, &cc), 5);
    cc.training_model = Model::CELLULAR;
    assert_eq!(ChaserBrain::input_size(&sc, &cc), 10);
    cc.training_model = Model::POSITIONAL;
    assert_eq!(ChaserBrain::input_size(&sc, &cc), 5);
}

#[test]
fn forward_pass_has_two_bounded_outputs() {
    let sc = sim_conf();
    let cc = chaser_conf();
    let brain = ChaserBrain::random(&mut rng(), &sc, &cc);
    let topo = ChaserBrain::topology(&sc, &cc);
    let inputs = vec![0i64, 250_000, -250_000, 1_000_000, 3];
    let out = brain.nn.propagate(&inputs, &topo);
    assert_eq!(out.len(), 2);
    for v in out {
        assert!(0 <= v && v <= hervor_sim::GENE_LIMIT);
    }
}
