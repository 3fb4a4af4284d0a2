//! The world tick pipeline and the generation lifecycle.

use hervor_sim::simulation::{
    Simulation, LoadError, proc_eating_plants_in_world, proc_eating_hervors_in_world,
    move_hervors_in_world, move_chasers_in_world,
};
use hervor_sim::config::{Model, IndividualConfig, SimulationConfig};
use hervor_sim::individual::{Individual, ChaserIndividual, HervorIndividual};
use hervor_sim::geom::Pos;
use hervor_sim::ga::EvolveError;
use hervor_sim::chromosome::Chromosome;
use hervor_sim::brain::{Brain, HervorBrain};
use hervor_sim::hervor::Hervor;
use hervor_sim::plant::Plant;
use hervor_sim::{FULL_TURN, SCALE};
use rand::SeedableRng;

fn rng() -> rand::rngs::StdRng {
    rand::rngs::StdRng::seed_from_u64(2024)
}

fn agent_conf(model: Model) -> IndividualConfig {
    IndividualConfig {
        speed_min: 1_000,
        speed_max: 5_000,
        speed_accel: 200_000,
        rotation_accel: FULL_TURN / 64,
        fov_angle: 2_500_000,
        fov_range: 250_000,
        eye_cells: 9,
        training_model: model,
    }
}

fn sim_conf(nhervors: usize, nchasers: usize, nplants: usize, nworlds: usize)
    -> SimulationConfig {
    SimulationConfig {
        generation_length: 2,
        nhervors,
        nchasers,
        nplants,
        nworlds,
        safe_evolve: true,
        respawn_plants: false,
        mutation_probability: 5_000,
        mutation_magnitude: 300_000,
        parallelized: false,
    }
}

#[test]
fn eating_scenario_feeds_once() {
    // Hervor and plant at the same position: one tick of the eating
    // phase raises satiation by exactly one and marks the plant eaten;
    // a second identical tick changes nothing more.
    let sc = sim_conf(1, 0, 1, 1);
    let hc = agent_conf(Model::CLOSEST);
    let cc = agent_conf(Model::CLOSEST);
    let mut r = rng();
    let mut sim = Simulation::random(&mut r, sc, hc, cc);
    let here = Pos { x: 500_000, y: 500_000 };
    sim.worlds[0].hervors[0].position = here;
    sim.worlds[0].plants[0].position = here;
    sim.worlds[0].plants[0].eaten = false;

    proc_eating_plants_in_world(&mut sim.worlds[0], false, &mut r);
    assert_eq!(sim.worlds[0].hervors[0].satiation, 1);
    assert!(sim.worlds[0].plants[0].eaten);

    proc_eating_plants_in_world(&mut sim.worlds[0], false, &mut r);
    assert_eq!(sim.worlds[0].hervors[0].satiation, 1);
}

#[test]
fn eating_scenario_with_respawn_relocates_the_plant() {
    let sc = sim_conf(1, 0, 1, 1);
    let hc = agent_conf(Model::CLOSEST);
    let cc = agent_conf(Model::CLOSEST);
    let mut r = rng();
    let mut sim = Simulation::random(&mut r, sc, hc, cc);
    let here = Pos { x: 500_000, y: 500_000 };
    sim.worlds[0].hervors[0].position = here;
    sim.worlds[0].plants[0].position = here;
    sim.worlds[0].plants[0].eaten = false;

    proc_eating_plants_in_world(&mut sim.worlds[0], true, &mut r);
    assert_eq!(sim.worlds[0].hervors[0].satiation, 1);
    assert!(!sim.worlds[0].plants[0].eaten);
}

#[test]
fn chasing_kills_and_credits() {
    let sc = sim_conf(1, 1, 0, 1);
    let hc = agent_conf(Model::CLOSEST);
    let cc = agent_conf(Model::CLOSEST);
    let mut r = rng();
    let mut sim = Simulation::random(&mut r, sc, hc, cc);
    let here = Pos { x: 100_000, y: 100_000 };
    sim.worlds[0].hervors[0].position = here;
    sim.worlds[0].hervors[0].dead = false;
    sim.worlds[0].chasers[0].position = here;

    proc_eating_hervors_in_world(&mut sim.worlds[0]);
    assert!(sim.worlds[0].hervors[0].dead);
    assert_eq!(sim.worlds[0].chasers[0].killed, 1);
    assert_eq!(sim.worlds[0].kill_count, 1);

    // A dead hervor is not credited twice.
    proc_eating_hervors_in_world(&mut sim.worlds[0]);
    assert_eq!(sim.worlds[0].kill_count, 1);
}

#[test]
fn chaser_fitness_is_shared_per_world() {
    // With the world's tally at 3, every chaser of that world derives
    // fitness 30, whatever it killed itself.
    let sc = sim_conf(0, 2, 0, 1);
    let hc = agent_conf(Model::CLOSEST);
    let cc = agent_conf(Model::CLOSEST);
    let mut r = rng();
    let mut sim = Simulation::random(&mut r, sc, hc, cc);
    sim.worlds[0].kill_count = 3;
    sim.worlds[0].chasers[0].killed = 3;
    sim.worlds[0].chasers[1].killed = 0;
    let a = ChaserIndividual::from_chaser(&sim.worlds[0].chasers[0], sim.worlds[0].kill_count);
    let b = ChaserIndividual::from_chaser(&sim.worlds[0].chasers[1], sim.worlds[0].kill_count);
    assert_eq!(a.fitness(), 30);
    assert_eq!(b.fitness(), 30);
}

#[test]
fn hervor_fitness_formula() {
    let sc = sim_conf(1, 0, 2, 1);
    let hc = agent_conf(Model::CLOSEST);
    let cc = agent_conf(Model::CLOSEST);
    let mut r = rng();
    let mut sim = Simulation::random(&mut r, sc, hc, cc);
    // Alive with 2 of 2 plants eaten: 2 + 40 + 30.
    sim.worlds[0].hervors[0].satiation = 2;
    sim.worlds[0].hervors[0].dead = false;
    assert_eq!(HervorIndividual::calc_fitness(&sim.worlds[0].hervors[0], 2), 72);
    // Dead with 1 eaten of 2: just the satiation.
    sim.worlds[0].hervors[0].satiation = 1;
    sim.worlds[0].hervors[0].dead = true;
    assert_eq!(HervorIndividual::calc_fitness(&sim.worlds[0].hervors[0], 2), 1);
}

#[test]
fn population_sizes_are_invariant_across_generations() {
    let sc = sim_conf(2, 0, 3, 2);
    let hc = agent_conf(Model::CLOSEST);
    let cc = agent_conf(Model::CLOSEST);
    let mut r = rng();
    let mut sim = Simulation::random(&mut r, sc, hc, cc);
    assert_eq!(sim.worlds.len(), 2);
    // Two whole generations (generation_length 2, so several steps each).
    sim.multiple_gen(2, &mut r).unwrap();
    assert_eq!(sim.generation(), 2);
    assert_eq!(sim.worlds().len(), 2);
    for w in sim.worlds() {
        assert_eq!(w.hervors().len(), 2);
        assert_eq!(w.chasers().len(), 0);
        assert_eq!(w.plants().len(), 3);
    }
}

#[test]
fn step_counts_ticks_and_generations() {
    let sc = sim_conf(1, 0, 1, 1);
    let hc = agent_conf(Model::CELLULAR);
    let cc = agent_conf(Model::CELLULAR);
    let mut r = rng();
    let mut sim = Simulation::random(&mut r, sc, hc, cc);
    assert!(sim.step(&mut r).unwrap().is_none());
    assert!(sim.step(&mut r).unwrap().is_none());
    assert_eq!(sim.generation(), 0);
    // The third step crosses the generation boundary.
    let stats = sim.step(&mut r).unwrap();
    assert!(stats.is_some());
    assert_eq!(sim.generation(), 1);
}

#[test]
fn evolution_fails_without_any_fitness() {
    // Chasers that never killed carry fitness 0 everywhere, and the
    // roulette wheel has nothing to draw from.
    let sc = sim_conf(0, 2, 0, 1);
    let hc = agent_conf(Model::CLOSEST);
    let cc = agent_conf(Model::CLOSEST);
    let mut r = rng();
    let mut sim = Simulation::random(&mut r, sc, hc, cc);
    let mut last = Ok(None);
    for _ in 0..3 {
        last = sim.step(&mut r);
    }
    assert_eq!(last.unwrap_err(), EvolveError::ZeroFitness);
}

fn chromosome_lines(sim: &Simulation) -> Vec<Vec<i64>> {
    let mut out = Vec::new();
    for c in sim.export_chromosomes() {
        let mut line = Vec::new();
        let mut i = 0;
        while i < c.len() {
            line.push(c.gene(i));
            i += 1;
        }
        out.push(line);
    }
    out
}

#[test]
fn persisted_weights_round_trip() {
    let sc = sim_conf(2, 1, 1, 2);
    let hc = agent_conf(Model::CLOSEST);
    let cc = agent_conf(Model::CELLULAR);
    let mut r = rng();
    let mut sim = Simulation::random(&mut r, sc, hc, cc);
    let saved = chromosome_lines(&sim);
    assert_eq!(saved.len(), 2 * (2 + 1));

    // Restore into a differently seeded run: the brains come back in
    // the exact positional order they were written.
    let mut r2 = rand::rngs::StdRng::seed_from_u64(99);
    let mut other = Simulation::random(&mut r2, sc, hc, cc);
    other.load_simulation(&mut r2, sc, hc, cc, &saved).unwrap();
    assert_eq!(chromosome_lines(&other), saved);
}

#[test]
fn loading_rejects_a_wrong_line_count() {
    let sc = sim_conf(1, 0, 1, 1);
    let hc = agent_conf(Model::CLOSEST);
    let cc = agent_conf(Model::CLOSEST);
    let mut r = rng();
    let mut sim = Simulation::random(&mut r, sc, hc, cc);
    let lines: Vec<Vec<i64>> = Vec::new();
    assert_eq!(sim.load_simulation(&mut r, sc, hc, cc, &lines).unwrap_err(),
        LoadError::WrongLineCount);
}

#[test]
fn loading_rejects_a_malformed_line() {
    let sc = sim_conf(1, 0, 0, 1);
    let hc = agent_conf(Model::CLOSEST);
    let cc = agent_conf(Model::CLOSEST);
    let mut r = rng();
    let mut sim = Simulation::random(&mut r, sc, hc, cc);
    // One line, but far too short for the topology.
    let lines = vec![vec![1i64, 2, 3]];
    assert_eq!(sim.load_simulation(&mut r, sc, hc, cc, &lines).unwrap_err(),
        LoadError::BadLine);
    // Right length, but one gene out of range.
    let saved = chromosome_lines(&sim);
    let mut bad = saved.clone();
    bad[0][0] = 9_000_000;
    assert_eq!(sim.load_simulation(&mut r, sc, hc, cc, &bad).unwrap_err(),
        LoadError::BadLine);
    // The untouched lines still load.
    sim.load_simulation(&mut r, sc, hc, cc, &saved).unwrap();
}

#[test]
fn extra_clone_copies_the_observable_state() {
    let sc = sim_conf(1, 1, 2, 1);
    let hc = agent_conf(Model::CLOSEST);
    let cc = agent_conf(Model::CLOSEST);
    let mut r = rng();
    let sim = Simulation::random(&mut r, sc, hc, cc);
    let w = &sim.worlds[0];
    let copy = w.extra_clone(&sc, &hc, &cc);
    assert_eq!(copy.kill_count, w.kill_count);
    assert_eq!(copy.hervors[0].position(), w.hervors[0].position());
    assert_eq!(copy.hervors[0].rotation(), w.hervors[0].rotation());
    assert_eq!(copy.chasers[0].position(), w.chasers[0].position());
    assert_eq!(copy.plants[0].position(), w.plants[0].position());
}

#[test]
fn chromosome_round_trips_through_a_brain() {
    let sc = sim_conf(1, 1, 1, 1);
    let hc = agent_conf(Model::CLOSEST);
    let mut r = rng();
    let brain = HervorBrain::random(&mut r, &sc, &hc);
    let c = brain.as_chromosome();
    // CLOSEST hervors sense 8 values; the fixed stack implies
    // 32*(8+1) + 32*33 + 2*33 genes.
    assert_eq!(c.len(), 32 * 8 + 1154);
    let back = HervorBrain::from_chromosome(copy_chromosome(&c), &sc, &hc);
    let c2 = back.as_chromosome();
    assert_eq!(collect(&c), collect(&c2));
}

fn copy_chromosome(c: &Chromosome) -> Chromosome {
    c.duplicate()
}

fn collect(c: &Chromosome) -> Vec<i64> {
    let mut out = Vec::new();
    let mut i = 0;
    while i < c.len() {
        out.push(c.gene(i));
        i += 1;
    }
    out
}

#[test]
fn config_checks_mirror_the_bounds() {
    let sc = sim_conf(1, 0, 1, 1);
    assert!(sc.check());
    let mut bad = sc;
    bad.nworlds = 0;
    assert!(!bad.check());
    let hc = agent_conf(Model::CLOSEST);
    assert!(hc.check());
    let mut badh = hc;
    badh.fov_range = 0;
    assert!(!badh.check());
}

#[test]
fn random_positions_land_on_the_torus() {
    // Drawn positions stay inside [0, SCALE) on both axes and actually
    // vary from draw to draw.
    let mut r = rng();
    let mut seen_distinct = false;
    let mut prev: Option<Pos> = None;
    for _ in 0..100 {
        let p = Plant::random(&mut r);
        assert!(0 <= p.position.x && p.position.x < SCALE);
        assert!(0 <= p.position.y && p.position.y < SCALE);
        if let Some(q) = prev {
            if q != p.position {
                seen_distinct = true;
            }
        }
        prev = Some(p.position);
    }
    assert!(seen_distinct);
}

#[test]
fn movement_follows_the_heading_and_wraps() {
    let sc = sim_conf(2, 1, 0, 1);
    let hc = agent_conf(Model::CLOSEST);
    let cc = agent_conf(Model::CLOSEST);
    let mut r = rng();
    let mut sim = Simulation::random(&mut r, sc, hc, cc);
    // Heading 0 points towards +y and movement runs against the
    // heading, so y falls by exactly the speed.
    sim.worlds[0].hervors[0].position = Pos { x: 500_000, y: 500_000 };
    sim.worlds[0].hervors[0].heading = 0;
    sim.worlds[0].hervors[0].speed = 2_000;
    sim.worlds[0].hervors[0].dead = false;
    // A step over the lower edge re-enters from the top (torus wrap),
    // displaced by no more than the single-tick speed.
    sim.worlds[0].hervors[1].position = Pos { x: 500_000, y: 1_000 };
    sim.worlds[0].hervors[1].heading = 0;
    sim.worlds[0].hervors[1].speed = 2_000;
    sim.worlds[0].hervors[1].dead = false;
    move_hervors_in_world(&mut sim.worlds[0]);
    assert_eq!(sim.worlds[0].hervors[0].position, Pos { x: 500_000, y: 498_000 });
    assert_eq!(sim.worlds[0].hervors[1].position, Pos { x: 500_000, y: 999_000 });

    // Dead hervors stay put; chasers always move.
    sim.worlds[0].hervors[0].dead = true;
    let before = sim.worlds[0].hervors[0].position;
    move_hervors_in_world(&mut sim.worlds[0]);
    assert_eq!(sim.worlds[0].hervors[0].position, before);

    sim.worlds[0].chasers[0].position = Pos { x: 500_000, y: 500_000 };
    sim.worlds[0].chasers[0].heading = hervor_sim::FULL_TURN / 4;
    sim.worlds[0].chasers[0].speed = 3_000;
    move_chasers_in_world(&mut sim.worlds[0]);
    assert_eq!(sim.worlds[0].chasers[0].position, Pos { x: 497_000, y: 500_000 });
}

#[test]
fn loading_preserves_the_tick_counter() {
    let sc = sim_conf(1, 0, 1, 1);
    let hc = agent_conf(Model::CLOSEST);
    let cc = agent_conf(Model::CLOSEST);
    let mut r = rng();
    let mut sim = Simulation::random(&mut r, sc, hc, cc);
    sim.step(&mut r).unwrap();
    let saved = chromosome_lines(&sim);
    sim.load_simulation(&mut r, sc, hc, cc, &saved).unwrap();
    // One tick had passed and the restored run continues from it.
    assert_eq!(sim.age, 1);
}

#[test]
fn the_algorithm_carries_the_configured_mutation() {
    let sc = sim_conf(1, 0, 1, 1);
    let hc = agent_conf(Model::CLOSEST);
    let cc = agent_conf(Model::CLOSEST);
    let mut r = rng();
    let sim = Simulation::random(&mut r, sc, hc, cc);
    assert_eq!(sim.ga.mutation_method.chance, sc.mutation_probability);
    assert_eq!(sim.ga.mutation_method.coeff, sc.mutation_magnitude);
}

#[test]
fn fresh_agents_start_at_the_clamped_initial_speed() {
    let sc = sim_conf(1, 0, 1, 1);
    let mut hc = agent_conf(Model::CLOSEST);
    let mut r = rng();
    // The common initial speed (0.002) sits inside the band: taken as is.
    let h = Hervor::random(&sc, &hc, &mut r);
    assert_eq!(h.speed, 2_000);
    // A band above it: the fresh agent starts at its lower edge.
    hc.speed_min = 3_000;
    let h = Hervor::random(&sc, &hc, &mut r);
    assert_eq!(h.speed, 3_000);
    // A band below it: the fresh agent starts at its upper edge.
    hc.speed_min = 500;
    hc.speed_max = 1_500;
    let h = Hervor::random(&sc, &hc, &mut r);
    assert_eq!(h.speed, 1_500);
}
