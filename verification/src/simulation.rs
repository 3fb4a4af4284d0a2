//! The simulation: many isolated worlds stepped through a fixed per-tick
//! pipeline (eating, brain evaluation, movement), with one genetic
//! algorithm pass per species at each generation boundary.

use vstd::prelude::*;
use crate::{SCALE, FULL_TURN, EAT_RANGE, GENE_LIMIT};
use crate::geom::{Pos, dist_sq, dist_sq_spec, wrap_unit, wrap_spec, norm_heading,
    norm_heading_spec, dir_of, dir_x_spec, dir_y_spec};
use crate::world::World;
use crate::hervor::Hervor;
use crate::chaser::Chaser;
use crate::plant::Plant;
use crate::config::{SimulationConfig, IndividualConfig, MAX_AGENTS, initial_speed_spec};
use crate::rng::rng_pos;
use crate::brain::{Brain, HervorBrain, ChaserBrain};
use crate::eye::{plant_poses, chaser_poses, hervor_poses};
use crate::network::{net_eval_spec, ints_of, clamp_spec};
use crate::ga::{GeneticAlgorithm, RouletteWheelSelection, UniformCrossover,
    GaussianMutation, EvolveError, fitnesses, chrom_len, uniform_chromosomes,
    elitist_shape, bred_from};
use crate::individual::{Individual, HervorIndividual, ChaserIndividual,
    hervor_fitness_spec, chaser_fitness_spec};
use crate::statistics::{Statistics, fitness_sum, fitness_min, fitness_max,
    lemma_fitness_sum_bounded};
use crate::chromosome::{Chromosome, genes_bounded};
use crate::network::{weight_count, topo_sizes};
use crate::brain::{topology_spec, lemma_brain_weight_count};

verus! {


/// Replaces one element of a plant vector.
fn set_plant(ps: &mut Vec<Plant>, j: usize, p: Plant)
    requires
        j < old(ps)@.len(),
    ensures
        final(ps)@ == old(ps)@.update(j as int, p),
{
    let slot = &mut ps[j];
    *slot = p;
}

/// Updates one hervor's satiation in place.
fn hervor_set_satiation(hs: &mut Vec<Hervor>, i: usize, v: u32)
    requires
        i < old(hs)@.len(),
    ensures
        final(hs)@ == old(hs)@.update(i as int, Hervor { satiation: v, ..old(hs)@[i as int] }),
{
    let slot = &mut hs[i];
    slot.satiation = v;
}

/// Marks one hervor dead in place.
fn hervor_set_dead(hs: &mut Vec<Hervor>, i: usize)
    requires
        i < old(hs)@.len(),
    ensures
        final(hs)@ == old(hs)@.update(i as int, Hervor { dead: true, ..old(hs)@[i as int] }),
{
    let slot = &mut hs[i];
    slot.dead = true;
}

/// Updates one hervor's speed and heading in place.
fn hervor_set_motion(hs: &mut Vec<Hervor>, i: usize, speed: i64, heading: i64)
    requires
        i < old(hs)@.len(),
    ensures
        final(hs)@ == old(hs)@.update(i as int,
            Hervor { speed, heading, ..old(hs)@[i as int] }),
{
    let slot = &mut hs[i];
    slot.speed = speed;
    slot.heading = heading;
}

/// Moves one hervor in place.
fn hervor_set_position(hs: &mut Vec<Hervor>, i: usize, position: Pos)
    requires
        i < old(hs)@.len(),
    ensures
        final(hs)@ == old(hs)@.update(i as int, Hervor { position, ..old(hs)@[i as int] }),
{
    let slot = &mut hs[i];
    slot.position = position;
}

/// Updates one chaser's kill tally in place.
fn chaser_set_killed(cs: &mut Vec<Chaser>, i: usize, v: u32)
    requires
        i < old(cs)@.len(),
    ensures
        final(cs)@ == old(cs)@.update(i as int, Chaser { killed: v, ..old(cs)@[i as int] }),
{
    let slot = &mut cs[i];
    slot.killed = v;
}

/// Updates one chaser's speed and heading in place.
fn chaser_set_motion(cs: &mut Vec<Chaser>, i: usize, speed: i64, heading: i64)
    requires
        i < old(cs)@.len(),
    ensures
        final(cs)@ == old(cs)@.update(i as int,
            Chaser { speed, heading, ..old(cs)@[i as int] }),
{
    let slot = &mut cs[i];
    slot.speed = speed;
    slot.heading = heading;
}

/// Moves one chaser in place.
fn chaser_set_position(cs: &mut Vec<Chaser>, i: usize, position: Pos)
    requires
        i < old(cs)@.len(),
    ensures
        final(cs)@ == old(cs)@.update(i as int, Chaser { position, ..old(cs)@[i as int] }),
{
    let slot = &mut cs[i];
    slot.position = position;
}

/// Adds into a saturating 32-bit counter.
pub open spec fn sat_add32(a: int, b: int) -> int {
    if a + b > u32::MAX {
        u32::MAX as int
    } else {
        a + b
    }
}

/// A hervor eats this plant now: not yet eaten, within eating range.
pub open spec fn eats(h: Hervor, p: Plant) -> bool {
    !p.eaten && dist_sq_spec(h.position, p.position) <= EAT_RANGE * EAT_RANGE
}

/// How many of these plants the hervor eats in one pass.
pub open spec fn eaten_count(h: Hervor, ps: Seq<Plant>) -> int
    decreases ps.len(),
{
    if ps.len() == 0 {
        0
    } else {
        eaten_count(h, ps.drop_last()) + if eats(h, ps.last()) { 1int } else { 0int }
    }
}

/// A pass feeds a hervor at most one unit per plant.
pub proof fn lemma_eaten_count_bounds(h: Hervor, ps: Seq<Plant>)
    ensures
        0 <= eaten_count(h, ps) <= ps.len(),
    decreases ps.len(),
{
    if ps.len() > 0 {
        lemma_eaten_count_bounds(h, ps.drop_last());
    }
}

/// What one plant becomes when the hervor passes it: eaten plants are
/// marked (or respawned fresh at some valid position), others keep.
pub open spec fn plant_step_rel(h: Hervor, p: Plant, p2: Plant, respawn: bool) -> bool {
    if eats(h, p) {
        if respawn {
            !p2.eaten && p2.position.wf()
        } else {
            p2 == Plant { position: p.position, eaten: true }
        }
    } else {
        p2 == p
    }
}

/// One hervor's pass over the plant list.
pub open spec fn plants_pass_rel(h: Hervor, ps: Seq<Plant>, ps2: Seq<Plant>, respawn: bool)
    -> bool {
    &&& ps2.len() == ps.len()
    &&& forall|i: int| 0 <= i < ps.len() ==> plant_step_rel(h, ps[i], #[trigger] ps2[i],
        respawn)
}

/// The hervor after a pass that fed it `c` plants.
pub open spec fn hervor_fed(h: Hervor, c: int) -> Hervor {
    Hervor { satiation: sat_add32(h.satiation as int, c) as u32, ..h }
}

/// One more hervor (the one at `i`) takes its pass, carrying the state
/// `(hm, pm)` to `(hs2, ps2)`.
pub open spec fn feed_step_rel(hm: Seq<Hervor>, pm: Seq<Plant>, hs2: Seq<Hervor>,
    ps2: Seq<Plant>, respawn: bool, i: int) -> bool {
    &&& 0 <= i < hm.len()
    &&& hs2 == hm.update(i, hervor_fed(hm[i], eaten_count(hm[i], pm)))
    &&& plants_pass_rel(hm[i], pm, ps2, respawn)
}

/// The eating-plants phase after the first `i` hervors have taken their
/// passes, in order: each hervor eats from the plant state its
/// predecessors left behind.
pub open spec fn feed_rel_upto(hs0: Seq<Hervor>, ps0: Seq<Plant>, hs2: Seq<Hervor>,
    ps2: Seq<Plant>, respawn: bool, i: int) -> bool
    decreases i,
{
    if i <= 0 {
        hs2 == hs0 && ps2 == ps0
    } else {
        exists|hs_mid: Seq<Hervor>, ps_mid: Seq<Plant>| {
            feed_rel_upto(hs0, ps0, hs_mid, ps_mid, respawn, i - 1)
                && #[trigger] feed_step_rel(hs_mid, ps_mid, hs2, ps2, respawn, i - 1)
        }
    }
}

/// Extends the eating-plants chain by one hervor.
pub proof fn lemma_feed_rel_extend(hs0: Seq<Hervor>, ps0: Seq<Plant>, hm: Seq<Hervor>,
    pm: Seq<Plant>, hs2: Seq<Hervor>, ps2: Seq<Plant>, respawn: bool, i: int)
    requires
        i >= 1,
        feed_rel_upto(hs0, ps0, hm, pm, respawn, i - 1),
        feed_step_rel(hm, pm, hs2, ps2, respawn, i - 1),
    ensures
        feed_rel_upto(hs0, ps0, hs2, ps2, respawn, i),
{
    assert(exists|a: Seq<Hervor>, b: Seq<Plant>|
        feed_rel_upto(hs0, ps0, a, b, respawn, i - 1)
            && #[trigger] feed_step_rel(a, b, hs2, ps2, respawn, i - 1)) by {
        assert(feed_rel_upto(hs0, ps0, hm, pm, respawn, i - 1)
            && feed_step_rel(hm, pm, hs2, ps2, respawn, i - 1));
    }
}

/// How the eating-plants phase relates the world before to the world
/// after: hervors gain satiation for the plants they reach, those
/// plants are consumed (or respawned), and nothing else moves.
pub open spec fn feed_phase_rel(w0: World, w1: World, respawn: bool) -> bool {
    &&& w1.hervors@.len() == w0.hervors@.len()
    &&& w1.plants@.len() == w0.plants@.len()
    &&& w1.chasers@ == w0.chasers@
    &&& w1.kill_count == w0.kill_count
    &&& feed_rel_upto(w0.hervors@, w0.plants@, w1.hervors@, w1.plants@, respawn,
        w0.hervors@.len() as int)
    &&& forall|i: int| 0 <= i < w1.hervors@.len() ==> {
        &&& (#[trigger] w1.hervors@[i]).position == w0.hervors@[i].position
        &&& w1.hervors@[i].heading == w0.hervors@[i].heading
        &&& w1.hervors@[i].speed == w0.hervors@[i].speed
        &&& w1.hervors@[i].dead == w0.hervors@[i].dead
        &&& w1.hervors@[i].eye == w0.hervors@[i].eye
        &&& w1.hervors@[i].brain == w0.hervors@[i].brain
        &&& w1.hervors@[i].satiation >= w0.hervors@[i].satiation
    }
    &&& forall|i: int| 0 <= i < w1.plants@.len() ==> (#[trigger] w1.plants@[i]).wf()
    &&& (!respawn ==> forall|i: int| 0 <= i < w1.plants@.len()
        ==> (#[trigger] w1.plants@[i]).position == w0.plants@[i].position)
}

/// The eating-plants phase: every (hervor, plant) pair within eating
/// range feeds the hervor once and consumes the plant.
pub fn proc_eating_plants_in_world(world: &mut World, respawn_plants: bool,
    rng: &mut rand::rngs::StdRng)
    requires
        forall|i: int| 0 <= i < old(world).hervors@.len()
            ==> (#[trigger] old(world).hervors@[i]).position.wf(),
        forall|i: int| 0 <= i < old(world).plants@.len()
            ==> (#[trigger] old(world).plants@[i]).wf(),
        old(world).plants@.len() <= MAX_AGENTS,
    ensures
        feed_phase_rel(*old(world), *final(world), respawn_plants),
{
    let nh = world.hervors.len();
    let np = world.plants.len();
    let ghost h0 = world.hervors@;
    let ghost p0 = world.plants@;
    let mut i: usize = 0;
    while i < nh
        invariant
            i <= nh,
            nh == h0.len(),
            np == p0.len(),
            np <= MAX_AGENTS,
            world.hervors@.len() == nh,
            world.plants@.len() == np,
            world.chasers@ == old(world).chasers@,
            world.kill_count == old(world).kill_count,
            h0 == old(world).hervors@,
            p0 == old(world).plants@,
            forall|k: int| 0 <= k < nh ==> (#[trigger] h0[k]).position.wf(),
            forall|k: int| i <= k < nh ==> #[trigger] world.hervors@[k] == h0[k],
            forall|k: int| 0 <= k < nh ==> {
                &&& (#[trigger] world.hervors@[k]).position == h0[k].position
                &&& world.hervors@[k].heading == h0[k].heading
                &&& world.hervors@[k].speed == h0[k].speed
                &&& world.hervors@[k].dead == h0[k].dead
                &&& world.hervors@[k].eye == h0[k].eye
                &&& world.hervors@[k].brain == h0[k].brain
                &&& world.hervors@[k].satiation >= h0[k].satiation
            },
            forall|k: int| 0 <= k < np ==> (#[trigger] world.plants@[k]).wf(),
            !respawn_plants ==> forall|k: int| 0 <= k < np
                ==> (#[trigger] world.plants@[k]).position == p0[k].position,
            feed_rel_upto(h0, p0, world.hervors@, world.plants@, respawn_plants, i as int),
        decreases nh - i,
    {
        let ghost hs_mid = world.hervors@;
        let ghost ps_mid = world.plants@;
        let hpos = world.hervors[i].position;
        let mut count: u32 = 0;
        let mut j: usize = 0;
        while j < np
            invariant
                j <= np,
                np <= MAX_AGENTS,
                i < nh,
                nh == h0.len(),
                nh == hs_mid.len(),
                np == ps_mid.len(),
                world.hervors@ == hs_mid,
                world.chasers@ == old(world).chasers@,
                world.kill_count == old(world).kill_count,
                world.plants@.len() == np,
                hpos == hs_mid[i as int].position,
                hpos.wf(),
                forall|k: int| 0 <= k < np ==> (#[trigger] ps_mid[k]).wf(),
                forall|k: int| j <= k < np ==> #[trigger] world.plants@[k] == ps_mid[k],
                forall|k: int| 0 <= k < j ==> plant_step_rel(hs_mid[i as int], ps_mid[k],
                    #[trigger] world.plants@[k], respawn_plants),
                forall|k: int| 0 <= k < np ==> (#[trigger] world.plants@[k]).wf(),
                !respawn_plants ==> forall|k: int| 0 <= k < np
                    ==> (#[trigger] world.plants@[k]).position == ps_mid[k].position,
                count == eaten_count(hs_mid[i as int], ps_mid.take(j as int)),
                count <= j,
            decreases np - j,
        {
            proof {
                assert(ps_mid.take(j + 1).drop_last() =~= ps_mid.take(j as int));
                assert(ps_mid.take(j + 1).last() == ps_mid[j as int]);
            }
            let plant = world.plants[j];
            if !plant.eaten && dist_sq(hpos, plant.position) <= (EAT_RANGE as u64)
                * (EAT_RANGE as u64) {
                proof {
                    assert((EAT_RANGE as u64) * (EAT_RANGE as u64)
                        == EAT_RANGE * EAT_RANGE) by (nonlinear_arith);
                }
                count = count + 1;
                let replacement: Plant = if respawn_plants {
                    Plant { position: rng_pos(rng), eaten: false }
                } else {
                    Plant { position: plant.position, eaten: true }
                };
                set_plant(&mut world.plants, j, replacement);
            } else {
                proof {
                    assert((EAT_RANGE as u64) * (EAT_RANGE as u64)
                        == EAT_RANGE * EAT_RANGE) by (nonlinear_arith);
                }
            }
            j = j + 1;
        }
        proof {
            assert(ps_mid.take(np as int) =~= ps_mid);
        }
        let s = world.hervors[i].satiation;
        let new_sat: u32 = if s as u64 + count as u64 > u32::MAX as u64 {
            u32::MAX
        } else {
            s + count
        };
        hervor_set_satiation(&mut world.hervors, i, new_sat);
        i = i + 1;
        proof {
            assert(plants_pass_rel(hs_mid[i - 1], ps_mid, world.plants@, respawn_plants));
            assert(world.hervors@ == hs_mid.update(i - 1, hervor_fed(hs_mid[i - 1],
                eaten_count(hs_mid[i - 1], ps_mid))));
            lemma_feed_rel_extend(h0, p0, hs_mid, ps_mid, world.hervors@, world.plants@,
                respawn_plants, i as int);
        }
    }
}


/// A chaser catches this hervor now: alive and within eating range.
pub open spec fn kills(c: Chaser, h: Hervor) -> bool {
    !h.dead && dist_sq_spec(h.position, c.position) <= EAT_RANGE * EAT_RANGE
}

/// How many of these hervors the chaser catches in one pass.
pub open spec fn kill_tally(c: Chaser, hs: Seq<Hervor>) -> int
    decreases hs.len(),
{
    if hs.len() == 0 {
        0
    } else {
        kill_tally(c, hs.drop_last()) + if kills(c, hs.last()) { 1int } else { 0int }
    }
}

/// A pass credits a chaser at most one kill per hervor.
pub proof fn lemma_kill_tally_bounds(c: Chaser, hs: Seq<Hervor>)
    ensures
        0 <= kill_tally(c, hs) <= hs.len(),
    decreases hs.len(),
{
    if hs.len() > 0 {
        lemma_kill_tally_bounds(c, hs.drop_last());
    }
}

/// The hervors after one chaser's pass: the caught ones are dead.
pub open spec fn hervors_culled(c: Chaser, hs: Seq<Hervor>) -> Seq<Hervor> {
    hs.map_values(|h: Hervor| if kills(c, h) { Hervor { dead: true, ..h } } else { h })
}

/// The chaser after a pass that credited it `n` kills.
pub open spec fn chaser_credited(c: Chaser, n: int) -> Chaser {
    Chaser { killed: sat_add32(c.killed as int, n) as u32, ..c }
}

/// The eating-hervors phase after the first `i` chasers have taken
/// their passes, in order: chasers, hervors, and the world's kill
/// counter after each pass.
pub open spec fn chase_state(cs0: Seq<Chaser>, hs0: Seq<Hervor>, kc0: int, i: int)
    -> (Seq<Chaser>, Seq<Hervor>, int)
    decreases i,
{
    if i <= 0 {
        (cs0, hs0, kc0)
    } else {
        let prev = chase_state(cs0, hs0, kc0, i - 1);
        let c = prev.0[i - 1];
        let n = kill_tally(c, prev.1);
        (prev.0.update(i - 1, chaser_credited(c, n)), hervors_culled(c, prev.1),
            sat_add32(prev.2, n))
    }
}

/// How the eating-hervors phase relates the world before to the world
/// after: exactly the chase state after every chaser's pass.
pub open spec fn chase_phase_rel(w0: World, w1: World) -> bool {
    let end = chase_state(w0.chasers@, w0.hervors@, w0.kill_count as int,
        w0.chasers@.len() as int);
    &&& w1.chasers@ == end.0
    &&& w1.hervors@ == end.1
    &&& w1.kill_count == end.2
    &&& w1.plants@ == w0.plants@
}

/// The eating-hervors phase: every (chaser, live hervor) pair within
/// eating range kills the hervor, credits the chaser, and bumps the
/// world's kill counter.
pub fn proc_eating_hervors_in_world(world: &mut World)
    requires
        forall|i: int| 0 <= i < old(world).hervors@.len()
            ==> (#[trigger] old(world).hervors@[i]).position.wf(),
        forall|i: int| 0 <= i < old(world).chasers@.len()
            ==> (#[trigger] old(world).chasers@[i]).position.wf(),
        old(world).hervors@.len() <= MAX_AGENTS,
    ensures
        chase_phase_rel(*old(world), *final(world)),
{
    let nc = world.chasers.len();
    let nh = world.hervors.len();
    let ghost cs0 = world.chasers@;
    let ghost hs0 = world.hervors@;
    let ghost kc0 = world.kill_count as int;
    let mut i: usize = 0;
    while i < nc
        invariant
            i <= nc,
            nc == cs0.len(),
            nh == hs0.len(),
            nh <= MAX_AGENTS,
            cs0 == old(world).chasers@,
            hs0 == old(world).hervors@,
            kc0 == old(world).kill_count as int,
            world.plants@ == old(world).plants@,
            world.chasers@.len() == nc,
            world.hervors@.len() == nh,
            (world.chasers@, world.hervors@, world.kill_count as int)
                == chase_state(cs0, hs0, kc0, i as int),
            forall|k: int| 0 <= k < nh ==> {
                &&& (#[trigger] world.hervors@[k]).position == hs0[k].position
                &&& world.hervors@[k].position.wf()
            },
            forall|k: int| 0 <= k < nc ==> {
                &&& (#[trigger] world.chasers@[k]).position == cs0[k].position
                &&& world.chasers@[k].position.wf()
            },
        decreases nc - i,
    {
        let ghost hs_pass = world.hervors@;
        let ghost cs_pass = world.chasers@;
        let ghost kc_pass = world.kill_count as int;
        let cpos = world.chasers[i].position;
        let ghost c = world.chasers@[i as int];
        proof {
            // The chaser at `i` has not been credited yet.
            assert(chase_state(cs0, hs0, kc0, i as int).0[i as int] == cs0[i as int]) by {
                lemma_chase_state_untouched(cs0, hs0, kc0, i as int, i as int);
            }
        }
        let mut cnt: u32 = 0;
        let mut j: usize = 0;
        while j < nh
            invariant
                j <= nh,
                i < nc,
                nh <= MAX_AGENTS,
                nh == hs_pass.len(),
                world.chasers@ == cs_pass,
                world.kill_count as int == kc_pass,
                world.plants@ == old(world).plants@,
                world.hervors@.len() == nh,
                cs_pass.len() == nc,
                i < nc,
                cpos == c.position,
                cpos.wf(),
                c == cs_pass[i as int],
                forall|k: int| 0 <= k < nh ==> (#[trigger] hs_pass[k]).position.wf(),
                forall|k: int| j <= k < nh ==> #[trigger] world.hervors@[k] == hs_pass[k],
                forall|k: int| 0 <= k < j ==> #[trigger] world.hervors@[k]
                    == if kills(c, hs_pass[k]) { Hervor { dead: true, ..hs_pass[k] } }
                        else { hs_pass[k] },
                cnt == kill_tally(c, hs_pass.take(j as int)),
                cnt <= j,
            decreases nh - j,
        {
            proof {
                assert(hs_pass.take(j + 1).drop_last() =~= hs_pass.take(j as int));
                assert(hs_pass.take(j + 1).last() == hs_pass[j as int]);
                assert((EAT_RANGE as u64) * (EAT_RANGE as u64)
                    == EAT_RANGE * EAT_RANGE) by (nonlinear_arith);
            }
            let hdead = world.hervors[j].dead;
            let hpos = world.hervors[j].position;
            if !hdead && dist_sq(hpos, cpos) <= (EAT_RANGE as u64) * (EAT_RANGE as u64) {
                cnt = cnt + 1;
                hervor_set_dead(&mut world.hervors, j);
            }
            j = j + 1;
        }
        proof {
            assert(hs_pass.take(nh as int) =~= hs_pass);
            assert(world.hervors@ =~= hervors_culled(c, hs_pass));
        }
        let ck = world.chasers[i].killed;
        let new_killed: u32 = if ck as u64 + cnt as u64 > u32::MAX as u64 {
            u32::MAX
        } else {
            ck + cnt
        };
        chaser_set_killed(&mut world.chasers, i, new_killed);
        let kc = world.kill_count;
        let new_kc: u32 = if kc as u64 + cnt as u64 > u32::MAX as u64 {
            u32::MAX
        } else {
            kc + cnt
        };
        world.kill_count = new_kc;
        i = i + 1;
        proof {
            assert(world.chasers@ == cs_pass.update(i - 1, chaser_credited(c, kill_tally(
                c, hs_pass))));
            assert((world.chasers@, world.hervors@, world.kill_count as int)
                == chase_state(cs0, hs0, kc0, i as int));
        }
    }
}

/// Chasers before their own pass are still as they started.
proof fn lemma_chase_state_untouched(cs0: Seq<Chaser>, hs0: Seq<Hervor>, kc0: int, i: int,
    q: int)
    requires
        0 <= i <= q < cs0.len(),
    ensures
        chase_state(cs0, hs0, kc0, i).0.len() == cs0.len(),
        chase_state(cs0, hs0, kc0, i).0[q] == cs0[q],
        chase_state(cs0, hs0, kc0, i).1.len() == hs0.len(),
    decreases i,
{
    if i > 0 {
        lemma_chase_state_untouched(cs0, hs0, kc0, i - 1, q);
    }
}

/// How far one coordinate moves in a tick: the direction component
/// weighted by the speed, rounded towards zero.
pub open spec fn disp_spec(c: int, speed: int) -> int {
    if c >= 0 {
        c * speed / (SCALE as int)
    } else {
        -((-c) * speed / (SCALE as int))
    }
}

/// Where an agent ends up: it moves against its direction vector and
/// wraps around the torus.
pub open spec fn moved_pos(p: Pos, heading: int, speed: int) -> Pos {
    Pos {
        x: wrap_spec(p.x - disp_spec(dir_x_spec(heading), speed)) as i64,
        y: wrap_spec(p.y - disp_spec(dir_y_spec(heading), speed)) as i64,
    }
}

/// One coordinate's displacement.
fn disp_of(c: i64, speed: i64) -> (r: i64)
    requires
        -SCALE <= c <= SCALE,
        0 <= speed <= SCALE,
    ensures
        r == disp_spec(c as int, speed as int),
        -speed <= r <= speed,
{
    let mag: i64 = if c >= 0 { c } else { -c };
    proof {
        assert((mag as u64) * (speed as u64) <= 1_000_000_000_000u64
            && (mag as u64) * (speed as u64) == mag * speed) by (nonlinear_arith)
            requires 0 <= mag <= 1_000_000 && 0 <= speed <= 1_000_000;
        assert(mag as int * speed <= (SCALE as int) * speed && 0 <= mag as int * speed)
            by (nonlinear_arith)
            requires 0 <= mag <= SCALE as int && speed >= 0;
        assert((SCALE as int) * speed == speed * (SCALE as int)) by (nonlinear_arith);
        vstd::arithmetic::div_mod::lemma_div_pos_is_pos(mag as int * speed, SCALE as int);
        vstd::arithmetic::div_mod::lemma_div_is_ordered(mag as int * speed,
            (SCALE as int) * speed, SCALE as int);
        vstd::arithmetic::div_mod::lemma_div_multiples_vanish(speed as int, SCALE as int);
    }
    let d: i64 = ((mag as u64 * speed as u64) / (SCALE as u64)) as i64;
    if c >= 0 {
        d
    } else {
        -d
    }
}

/// How the hervor-movement phase relates the world before to the world
/// after: every live hervor takes one step against its heading; dead
/// hervors and everything else stay put.
pub open spec fn move_hervors_rel(w0: World, w1: World) -> bool {
    &&& w1.hervors@.len() == w0.hervors@.len()
    &&& forall|i: int| 0 <= i < w0.hervors@.len() ==> #[trigger] w1.hervors@[i]
        == if w0.hervors@[i].dead { w0.hervors@[i] } else {
            Hervor { position: moved_pos(w0.hervors@[i].position,
                w0.hervors@[i].heading as int, w0.hervors@[i].speed as int),
                ..w0.hervors@[i] }
        }
    &&& w1.chasers@ == w0.chasers@
    &&& w1.plants@ == w0.plants@
    &&& w1.kill_count == w0.kill_count
}

/// The hervor-movement phase.
pub fn move_hervors_in_world(world: &mut World)
    requires
        forall|i: int| 0 <= i < old(world).hervors@.len() ==> {
            &&& (#[trigger] old(world).hervors@[i]).position.wf()
            &&& 0 <= old(world).hervors@[i].heading < crate::FULL_TURN
            &&& 0 <= old(world).hervors@[i].speed <= SCALE
        },
    ensures
        move_hervors_rel(*old(world), *final(world)),
        forall|i: int| 0 <= i < final(world).hervors@.len()
            ==> (#[trigger] final(world).hervors@[i]).position.wf(),
{
    let nh = world.hervors.len();
    let ghost hs0 = world.hervors@;
    let mut i: usize = 0;
    while i < nh
        invariant
            i <= nh,
            nh == hs0.len(),
            hs0 == old(world).hervors@,
            world.chasers@ == old(world).chasers@,
            world.plants@ == old(world).plants@,
            world.kill_count == old(world).kill_count,
            world.hervors@.len() == nh,
            forall|k: int| 0 <= k < nh ==> {
                &&& (#[trigger] hs0[k]).position.wf()
                &&& 0 <= hs0[k].heading < crate::FULL_TURN
                &&& 0 <= hs0[k].speed <= SCALE
            },
            forall|k: int| i <= k < nh ==> #[trigger] world.hervors@[k] == hs0[k],
            forall|k: int| 0 <= k < i ==> #[trigger] world.hervors@[k]
                == if hs0[k].dead { hs0[k] } else {
                    Hervor { position: moved_pos(hs0[k].position, hs0[k].heading as int,
                        hs0[k].speed as int), ..hs0[k] }
                },
            forall|k: int| 0 <= k < nh
                ==> (#[trigger] world.hervors@[k]).position.wf(),
        decreases nh - i,
    {
        let dead = world.hervors[i].dead;
        if !dead {
            let pos = world.hervors[i].position;
            let heading = world.hervors[i].heading;
            let speed = world.hervors[i].speed;
            let (cx, cy) = dir_of(heading);
            let dx = disp_of(cx, speed);
            let dy = disp_of(cy, speed);
            let np = Pos { x: wrap_unit(pos.x - dx), y: wrap_unit(pos.y - dy) };
            hervor_set_position(&mut world.hervors, i, np);
        }
        i = i + 1;
    }
}

/// How the chaser-movement phase relates the world before to the world
/// after: every chaser takes one step against its heading.
pub open spec fn move_chasers_rel(w0: World, w1: World) -> bool {
    &&& w1.chasers@.len() == w0.chasers@.len()
    &&& forall|i: int| 0 <= i < w0.chasers@.len() ==> #[trigger] w1.chasers@[i]
        == (Chaser { position: moved_pos(w0.chasers@[i].position,
            w0.chasers@[i].heading as int, w0.chasers@[i].speed as int),
            ..w0.chasers@[i] })
    &&& w1.hervors@ == w0.hervors@
    &&& w1.plants@ == w0.plants@
    &&& w1.kill_count == w0.kill_count
}

/// The chaser-movement phase.
pub fn move_chasers_in_world(world: &mut World)
    requires
        forall|i: int| 0 <= i < old(world).chasers@.len() ==> {
            &&& (#[trigger] old(world).chasers@[i]).position.wf()
            &&& 0 <= old(world).chasers@[i].heading < crate::FULL_TURN
            &&& 0 <= old(world).chasers@[i].speed <= SCALE
        },
    ensures
        move_chasers_rel(*old(world), *final(world)),
        forall|i: int| 0 <= i < final(world).chasers@.len()
            ==> (#[trigger] final(world).chasers@[i]).position.wf(),
{
    let nc = world.chasers.len();
    let ghost cs0 = world.chasers@;
    let mut i: usize = 0;
    while i < nc
        invariant
            i <= nc,
            nc == cs0.len(),
            cs0 == old(world).chasers@,
            world.hervors@ == old(world).hervors@,
            world.plants@ == old(world).plants@,
            world.kill_count == old(world).kill_count,
            world.chasers@.len() == nc,
            forall|k: int| 0 <= k < nc ==> {
                &&& (#[trigger] cs0[k]).position.wf()
                &&& 0 <= cs0[k].heading < crate::FULL_TURN
                &&& 0 <= cs0[k].speed <= SCALE
            },
            forall|k: int| i <= k < nc ==> #[trigger] world.chasers@[k] == cs0[k],
            forall|k: int| 0 <= k < i ==> #[trigger] world.chasers@[k]
                == (Chaser { position: moved_pos(cs0[k].position, cs0[k].heading as int,
                    cs0[k].speed as int), ..cs0[k] }),
            forall|k: int| 0 <= k < nc
                ==> (#[trigger] world.chasers@[k]).position.wf(),
        decreases nc - i,
    {
        let pos = world.chasers[i].position;
        let heading = world.chasers[i].heading;
        let speed = world.chasers[i].speed;
        let (cx, cy) = dir_of(heading);
        let dx = disp_of(cx, speed);
        let dy = disp_of(cy, speed);
        let np = Pos { x: wrap_unit(pos.x - dx), y: wrap_unit(pos.y - dy) };
        chaser_set_position(&mut world.chasers, i, np);
        i = i + 1;
    }
}


/// The tick counter as a network input, saturated into the gene range.
pub open spec fn tick_input_spec(age: u64) -> int {
    if age > GENE_LIMIT {
        GENE_LIMIT as int
    } else {
        age as int
    }
}

fn tick_input(age: u64) -> (r: i64)
    ensures
        0 <= r <= GENE_LIMIT,
        r == tick_input_spec(age),
{
    if age > GENE_LIMIT as u64 {
        GENE_LIMIT
    } else {
        age as i64
    }
}

/// Clamps a brain response into a symmetric acceleration band.
fn clamp_response(r: i64, bound: i64) -> (c: i64)
    requires
        bound >= 0,
    ensures
        -bound <= c <= bound,
        c == clamp_spec(r as int, -bound as int, bound as int),
{
    if r > bound {
        bound
    } else if r < -bound {
        -bound
    } else {
        r
    }
}

/// The network input a hervor senses this tick: its view of the
/// plants, then of the chasers, then the tick counter.
pub open spec fn hervor_vision_spec(h: Hervor, plants: Seq<Plant>, chasers: Seq<Chaser>,
    age: u64) -> Seq<int> {
    h.eye.plants_vision_spec(h.position, h.heading as int, plant_poses(plants))
        + h.eye.agents_vision_spec(h.position, h.heading as int, chaser_poses(chasers))
        + seq![tick_input_spec(age)]
}

/// The network input a chaser senses this tick: its view of the
/// hervors, then the tick counter.
pub open spec fn chaser_vision_spec(c: Chaser, hervors: Seq<Hervor>, age: u64) -> Seq<int> {
    c.eye.agents_vision_spec(c.position, c.heading as int, hervor_poses(hervors))
        + seq![tick_input_spec(age)]
}

/// What one brain evaluation makes of a hervor: the network's two
/// responses to the agent's actual vision vector, each clamped into
/// its acceleration band, accumulate into the speed (clamped into the
/// configured band) and the heading (wrapped around the circle);
/// nothing else changes.
pub open spec fn hervor_steer_spec(h: Hervor, plants: Seq<Plant>, chasers: Seq<Chaser>,
    age: u64, conf: IndividualConfig) -> Hervor {
    let out = net_eval_spec(h.brain.nn, hervor_vision_spec(h, plants, chasers, age));
    let d_speed = clamp_spec(out[0], -conf.speed_accel as int, conf.speed_accel as int);
    let d_rot = clamp_spec(out[1], -conf.rotation_accel as int, conf.rotation_accel as int);
    Hervor {
        speed: clamp_spec(h.speed + d_speed, conf.speed_min as int,
            conf.speed_max as int) as i64,
        heading: norm_heading_spec(h.heading + d_rot) as i64,
        ..h
    }
}

/// What one brain evaluation makes of a chaser.
pub open spec fn chaser_steer_spec(c: Chaser, hervors: Seq<Hervor>, age: u64,
    conf: IndividualConfig) -> Chaser {
    let out = net_eval_spec(c.brain.nn, chaser_vision_spec(c, hervors, age));
    let d_speed = clamp_spec(out[0], -conf.speed_accel as int, conf.speed_accel as int);
    let d_rot = clamp_spec(out[1], -conf.rotation_accel as int, conf.rotation_accel as int);
    Chaser {
        speed: clamp_spec(c.speed + d_speed, conf.speed_min as int,
            conf.speed_max as int) as i64,
        heading: norm_heading_spec(c.heading + d_rot) as i64,
        ..c
    }
}

/// How the hervor-brain phase relates the world before to the world
/// after: every hervor (dead ones too) is steered once by its own
/// network's response to what it senses.
pub open spec fn hervor_brains_rel(w0: World, w1: World, conf: IndividualConfig, age: u64)
    -> bool {
    &&& w1.hervors@.len() == w0.hervors@.len()
    &&& forall|i: int| 0 <= i < w0.hervors@.len() ==> #[trigger] w1.hervors@[i]
        == hervor_steer_spec(w0.hervors@[i], w0.plants@, w0.chasers@, age, conf)
    &&& w1.chasers@ == w0.chasers@
    &&& w1.plants@ == w0.plants@
    &&& w1.kill_count == w0.kill_count
}

/// How the chaser-brain phase relates the world before to the world
/// after: every chaser is steered once by its own network's response
/// to what it senses.
pub open spec fn chaser_brains_rel(w0: World, w1: World, conf: IndividualConfig, age: u64)
    -> bool {
    &&& w1.chasers@.len() == w0.chasers@.len()
    &&& forall|i: int| 0 <= i < w0.chasers@.len() ==> #[trigger] w1.chasers@[i]
        == chaser_steer_spec(w0.chasers@[i], w0.hervors@, age, conf)
    &&& w1.hervors@ == w0.hervors@
    &&& w1.plants@ == w0.plants@
    &&& w1.kill_count == w0.kill_count
}

/// The hervor-brain phase: every hervor senses the plants, then the
/// chasers, then the tick counter, runs its network, and accumulates
/// the two responses into its speed and heading.
pub fn proc_hervor_brains_in_world(world: &mut World, age: u64,
    sim_conf: &SimulationConfig, hervor_conf: &IndividualConfig)
    requires
        sim_conf.wf(),
        hervor_conf.wf(),
        forall|i: int| 0 <= i < old(world).hervors@.len()
            ==> (#[trigger] old(world).hervors@[i]).wf(*sim_conf, *hervor_conf),
        forall|i: int| 0 <= i < old(world).chasers@.len()
            ==> (#[trigger] old(world).chasers@[i]).position.wf()
                && 0 <= old(world).chasers@[i].heading < FULL_TURN,
        forall|i: int| 0 <= i < old(world).plants@.len()
            ==> (#[trigger] old(world).plants@[i]).wf(),
        old(world).chasers@.len() == sim_conf.nchasers,
        old(world).plants@.len() <= MAX_AGENTS,
        old(world).chasers@.len() <= MAX_AGENTS,
    ensures
        hervor_brains_rel(*old(world), *final(world), *hervor_conf, age),
{
    let nh = world.hervors.len();
    let ghost hs0 = world.hervors@;
    let ghost ps0 = world.plants@;
    let ghost cs0 = world.chasers@;
    let mut i: usize = 0;
    while i < nh
        invariant
            i <= nh,
            nh == hs0.len(),
            hs0 == old(world).hervors@,
            ps0 == old(world).plants@,
            cs0 == old(world).chasers@,
            sim_conf.wf(),
            hervor_conf.wf(),
            world.chasers@ == old(world).chasers@,
            world.plants@ == old(world).plants@,
            world.kill_count == old(world).kill_count,
            world.hervors@.len() == nh,
            world.chasers@.len() == sim_conf.nchasers,
            world.plants@.len() <= MAX_AGENTS,
            world.chasers@.len() <= MAX_AGENTS,
            forall|k: int| 0 <= k < nh ==> (#[trigger] hs0[k]).wf(*sim_conf, *hervor_conf),
            forall|k: int| 0 <= k < world.chasers@.len()
                ==> (#[trigger] world.chasers@[k]).position.wf()
                    && 0 <= world.chasers@[k].heading < FULL_TURN,
            forall|k: int| 0 <= k < world.plants@.len()
                ==> (#[trigger] world.plants@[k]).wf(),
            forall|k: int| i <= k < nh ==> #[trigger] world.hervors@[k] == hs0[k],
            forall|k: int| 0 <= k < i ==> #[trigger] world.hervors@[k]
                == hervor_steer_spec(hs0[k], ps0, cs0, age, *hervor_conf),
        decreases nh - i,
    {
        let pos = world.hervors[i].position;
        let hd = world.hervors[i].heading;
        let mut vision = world.hervors[i].eye.process_vision_see_plants(&pos, hd,
            &world.plants);
        let mut rest = world.hervors[i].eye.process_vision_see_chasers(&pos, hd,
            &world.chasers);
        vision.append(&mut rest);
        vision.push(tick_input(age));
        let topo = HervorBrain::topology(sim_conf, hervor_conf);
        proof {
            let e = hs0[i as int].eye;
            match hervor_conf.training_model {
                crate::config::Model::POSITIONAL => {
                    assert(e.plants_out_len() == 3);
                    assert(e.agents_out_len(world.chasers@.len() as int)
                        == 4 * world.chasers@.len());
                },
                crate::config::Model::CELLULAR => {},
                crate::config::Model::CLOSEST => {},
            }
            assert(vision@.len() == HervorBrain::input_size_spec(*sim_conf, *hervor_conf));
        }
        let response = world.hervors[i].brain.nn.propagate(&vision, &topo);
        proof {
            assert(ints_of(vision@) =~= hervor_vision_spec(hs0[i as int], ps0, cs0, age));
        }
        let delta = clamp_response(response[0], hervor_conf.speed_accel);
        let rot = clamp_response(response[1], hervor_conf.rotation_accel);
        proof {
            let out = net_eval_spec(hs0[i as int].brain.nn,
                hervor_vision_spec(hs0[i as int], ps0, cs0, age));
            assert(response@[0] as int == out[0] && response@[1] as int == out[1]) by {
                assert(ints_of(response@)[0] == out[0]);
                assert(ints_of(response@)[1] == out[1]);
            }
        }
        let speed0 = world.hervors[i].speed;
        let raw = speed0 + delta;
        let ns = if raw < hervor_conf.speed_min {
            hervor_conf.speed_min
        } else if raw > hervor_conf.speed_max {
            hervor_conf.speed_max
        } else {
            raw
        };
        let new_heading = norm_heading(hd + rot);
        hervor_set_motion(&mut world.hervors, i, ns, new_heading);
        i = i + 1;
        proof {
            assert(world.hervors@[i - 1]
                == hervor_steer_spec(hs0[i - 1], ps0, cs0, age, *hervor_conf));
        }
    }
}

/// The chaser-brain phase: every chaser senses the hervors, then the
/// tick counter, runs its network, and accumulates the two responses
/// into its speed and heading.
pub fn proc_chaser_brains_in_world(world: &mut World, age: u64,
    sim_conf: &SimulationConfig, chaser_conf: &IndividualConfig)
    requires
        sim_conf.wf(),
        chaser_conf.wf(),
        forall|i: int| 0 <= i < old(world).chasers@.len()
            ==> (#[trigger] old(world).chasers@[i]).wf(*sim_conf, *chaser_conf),
        forall|i: int| 0 <= i < old(world).hervors@.len()
            ==> (#[trigger] old(world).hervors@[i]).position.wf()
                && 0 <= old(world).hervors@[i].heading < FULL_TURN,
        old(world).hervors@.len() == sim_conf.nhervors,
        old(world).hervors@.len() <= MAX_AGENTS,
    ensures
        chaser_brains_rel(*old(world), *final(world), *chaser_conf, age),
{
    let nc = world.chasers.len();
    let ghost cs0 = world.chasers@;
    let ghost hs0 = world.hervors@;
    let mut i: usize = 0;
    while i < nc
        invariant
            i <= nc,
            nc == cs0.len(),
            cs0 == old(world).chasers@,
            hs0 == old(world).hervors@,
            sim_conf.wf(),
            chaser_conf.wf(),
            world.hervors@ == old(world).hervors@,
            world.plants@ == old(world).plants@,
            world.kill_count == old(world).kill_count,
            world.chasers@.len() == nc,
            world.hervors@.len() == sim_conf.nhervors,
            world.hervors@.len() <= MAX_AGENTS,
            forall|k: int| 0 <= k < nc ==> (#[trigger] cs0[k]).wf(*sim_conf, *chaser_conf),
            forall|k: int| 0 <= k < world.hervors@.len()
                ==> (#[trigger] world.hervors@[k]).position.wf()
                    && 0 <= world.hervors@[k].heading < FULL_TURN,
            forall|k: int| i <= k < nc ==> #[trigger] world.chasers@[k] == cs0[k],
            forall|k: int| 0 <= k < i ==> #[trigger] world.chasers@[k]
                == chaser_steer_spec(cs0[k], hs0, age, *chaser_conf),
        decreases nc - i,
    {
        let pos = world.chasers[i].position;
        let hd = world.chasers[i].heading;
        let mut vision = world.chasers[i].eye.process_vision_see_hervors(&pos, hd,
            &world.hervors);
        vision.push(tick_input(age));
        let topo = ChaserBrain::topology(sim_conf, chaser_conf);
        proof {
            let e = cs0[i as int].eye;
            match chaser_conf.training_model {
                crate::config::Model::POSITIONAL => {
                    assert(e.agents_out_len(world.hervors@.len() as int)
                        == 4 * world.hervors@.len());
                },
                crate::config::Model::CELLULAR => {},
                crate::config::Model::CLOSEST => {},
            }
            assert(vision@.len() == ChaserBrain::input_size_spec(*sim_conf, *chaser_conf));
        }
        let response = world.chasers[i].brain.nn.propagate(&vision, &topo);
        proof {
            assert(ints_of(vision@) =~= chaser_vision_spec(cs0[i as int], hs0, age));
        }
        let delta = clamp_response(response[0], chaser_conf.speed_accel);
        let rot = clamp_response(response[1], chaser_conf.rotation_accel);
        proof {
            let out = net_eval_spec(cs0[i as int].brain.nn,
                chaser_vision_spec(cs0[i as int], hs0, age));
            assert(response@[0] as int == out[0] && response@[1] as int == out[1]) by {
                assert(ints_of(response@)[0] == out[0]);
                assert(ints_of(response@)[1] == out[1]);
            }
        }
        let speed0 = world.chasers[i].speed;
        let raw = speed0 + delta;
        let ns = if raw < chaser_conf.speed_min {
            chaser_conf.speed_min
        } else if raw > chaser_conf.speed_max {
            chaser_conf.speed_max
        } else {
            raw
        };
        let new_heading = norm_heading(hd + rot);
        chaser_set_motion(&mut world.chasers, i, ns, new_heading);
        i = i + 1;
        proof {
            assert(world.chasers@[i - 1]
                == chaser_steer_spec(cs0[i - 1], hs0, age, *chaser_conf));
        }
    }
}


/// Chaser passes change only kill tallies and dead flags.
proof fn lemma_chase_state_fields(cs0: Seq<Chaser>, hs0: Seq<Hervor>, kc0: int, i: int)
    requires
        0 <= i <= cs0.len(),
        kc0 <= u32::MAX,
    ensures
        chase_state(cs0, hs0, kc0, i).0.len() == cs0.len(),
        chase_state(cs0, hs0, kc0, i).1.len() == hs0.len(),
        forall|q: int| 0 <= q < cs0.len() ==> {
            let c = #[trigger] chase_state(cs0, hs0, kc0, i).0[q];
            &&& c.position == cs0[q].position
            &&& c.heading == cs0[q].heading
            &&& c.speed == cs0[q].speed
            &&& c.eye == cs0[q].eye
            &&& c.brain == cs0[q].brain
            &&& c.killed >= cs0[q].killed
        },
        forall|q: int| 0 <= q < hs0.len() ==> {
            let h = #[trigger] chase_state(cs0, hs0, kc0, i).1[q];
            &&& h.position == hs0[q].position
            &&& h.heading == hs0[q].heading
            &&& h.speed == hs0[q].speed
            &&& h.satiation == hs0[q].satiation
            &&& h.eye == hs0[q].eye
            &&& h.brain == hs0[q].brain
            &&& (hs0[q].dead ==> h.dead)
        },
        kc0 <= chase_state(cs0, hs0, kc0, i).2 <= u32::MAX,
    decreases i,
{
    if i > 0 {
        lemma_chase_state_fields(cs0, hs0, kc0, i - 1);
        let prev = chase_state(cs0, hs0, kc0, i - 1);
        lemma_kill_tally_bounds(prev.0[i - 1], prev.1);
    }
}

/// Eating passes change only satiation, and never lower it.
proof fn lemma_feed_rel_fields(hs0: Seq<Hervor>, ps0: Seq<Plant>, hs2: Seq<Hervor>,
    ps2: Seq<Plant>, respawn: bool, i: int)
    requires
        feed_rel_upto(hs0, ps0, hs2, ps2, respawn, i),
        i >= 0,
    ensures
        hs2.len() == hs0.len(),
        ps2.len() == ps0.len(),
        forall|q: int| 0 <= q < hs0.len() ==> {
            let h = #[trigger] hs2[q];
            &&& h.position == hs0[q].position
            &&& h.heading == hs0[q].heading
            &&& h.speed == hs0[q].speed
            &&& h.dead == hs0[q].dead
            &&& h.eye == hs0[q].eye
            &&& h.brain == hs0[q].brain
            &&& h.satiation >= hs0[q].satiation
        },
    decreases i,
{
    if i <= 0 {
    } else {
        let (hm, pm) = choose|hm: Seq<Hervor>, pm: Seq<Plant>|
            feed_rel_upto(hs0, ps0, hm, pm, respawn, i - 1)
                && #[trigger] feed_step_rel(hm, pm, hs2, ps2, respawn, i - 1);
        lemma_feed_rel_fields(hs0, ps0, hm, pm, respawn, i - 1);
        lemma_eaten_count_bounds(hm[i - 1], pm);
    }
}

/// One full tick of a world: the six phases in their fixed order.
pub open spec fn tick_rel(w0: World, w6: World, age: u64, sim_conf: SimulationConfig,
    hc: IndividualConfig, cc: IndividualConfig) -> bool {
    exists|w1: World, w2: World, w3: World, w4: World, w5: World|
        #![trigger feed_phase_rel(w0, w1, sim_conf.respawn_plants), chase_phase_rel(w1, w2),
            hervor_brains_rel(w2, w3, hc, age), chaser_brains_rel(w3, w4, cc, age),
            move_hervors_rel(w4, w5)]
    {
        &&& feed_phase_rel(w0, w1, sim_conf.respawn_plants)
        &&& chase_phase_rel(w1, w2)
        &&& hervor_brains_rel(w2, w3, hc, age)
        &&& chaser_brains_rel(w3, w4, cc, age)
        &&& move_hervors_rel(w4, w5)
        &&& move_chasers_rel(w5, w6)
    }
}

/// Runs one world through one tick: eating plants, eating hervors,
/// hervor brains, chaser brains, hervor movement, chaser movement.
pub fn proc_world(world: &mut World, age: u64, sim_conf: &SimulationConfig,
    hervor_conf: &IndividualConfig, chaser_conf: &IndividualConfig,
    rng: &mut rand::rngs::StdRng)
    requires
        sim_conf.wf(),
        hervor_conf.wf(),
        chaser_conf.wf(),
        old(world).wf(*sim_conf, *hervor_conf, *chaser_conf),
    ensures
        final(world).wf(*sim_conf, *hervor_conf, *chaser_conf),
        tick_rel(*old(world), *final(world), age, *sim_conf, *hervor_conf, *chaser_conf),
        final(world).kill_count >= old(world).kill_count,
{
    let ghost w0 = *world;
    proc_eating_plants_in_world(world, sim_conf.respawn_plants, rng);
    let ghost w1 = *world;
    proof {
        lemma_feed_rel_fields(w0.hervors@, w0.plants@, w1.hervors@, w1.plants@,
            sim_conf.respawn_plants, w0.hervors@.len() as int);
        assert forall|q: int| 0 <= q < w1.hervors@.len()
            implies (#[trigger] w1.hervors@[q]).wf(*sim_conf, *hervor_conf) by {
            assert(w0.hervors@[q].wf(*sim_conf, *hervor_conf));
        }
        assert(w1.wf(*sim_conf, *hervor_conf, *chaser_conf));
    }
    proc_eating_hervors_in_world(world);
    let ghost w2 = *world;
    proof {
        lemma_chase_state_fields(w1.chasers@, w1.hervors@, w1.kill_count as int,
            w1.chasers@.len() as int);
        assert forall|q: int| 0 <= q < w2.hervors@.len()
            implies (#[trigger] w2.hervors@[q]).wf(*sim_conf, *hervor_conf) by {
            assert(w1.hervors@[q].wf(*sim_conf, *hervor_conf));
        }
        assert forall|q: int| 0 <= q < w2.chasers@.len()
            implies (#[trigger] w2.chasers@[q]).wf(*sim_conf, *chaser_conf) by {
            assert(w1.chasers@[q].wf(*sim_conf, *chaser_conf));
        }
        assert(w2.wf(*sim_conf, *hervor_conf, *chaser_conf));
    }
    proc_hervor_brains_in_world(world, age, sim_conf, hervor_conf);
    let ghost w3 = *world;
    proof {
        assert forall|q: int| 0 <= q < w3.hervors@.len()
            implies (#[trigger] w3.hervors@[q]).wf(*sim_conf, *hervor_conf) by {
            assert(w3.hervors@[q]
                == hervor_steer_spec(w2.hervors@[q], w2.plants@, w2.chasers@, age,
                *hervor_conf));
            assert(w2.hervors@[q].wf(*sim_conf, *hervor_conf));
        }
        assert(w3.wf(*sim_conf, *hervor_conf, *chaser_conf));
    }
    proc_chaser_brains_in_world(world, age, sim_conf, chaser_conf);
    let ghost w4 = *world;
    proof {
        assert forall|q: int| 0 <= q < w4.chasers@.len()
            implies (#[trigger] w4.chasers@[q]).wf(*sim_conf, *chaser_conf) by {
            assert(w4.chasers@[q]
                == chaser_steer_spec(w3.chasers@[q], w3.hervors@, age, *chaser_conf));
            assert(w3.chasers@[q].wf(*sim_conf, *chaser_conf));
        }
        assert(w4.wf(*sim_conf, *hervor_conf, *chaser_conf));
    }
    move_hervors_in_world(world);
    let ghost w5 = *world;
    proof {
        assert forall|q: int| 0 <= q < w5.hervors@.len()
            implies (#[trigger] w5.hervors@[q]).wf(*sim_conf, *hervor_conf) by {
            assert(w4.hervors@[q].wf(*sim_conf, *hervor_conf));
            assert(w5.hervors@[q].position.wf());
        }
        assert(w5.wf(*sim_conf, *hervor_conf, *chaser_conf));
    }
    move_chasers_in_world(world);
    proof {
        let w6 = *world;
        assert forall|q: int| 0 <= q < w6.chasers@.len()
            implies (#[trigger] w6.chasers@[q]).wf(*sim_conf, *chaser_conf) by {
            assert(w5.chasers@[q].wf(*sim_conf, *chaser_conf));
            assert(w6.chasers@[q].position.wf());
        }
        assert(w6.wf(*sim_conf, *hervor_conf, *chaser_conf));
        assert(feed_phase_rel(w0, w1, sim_conf.respawn_plants) && chase_phase_rel(w1, w2)
            && hervor_brains_rel(w2, w3, *hervor_conf, age)
            && chaser_brains_rel(w3, w4, *chaser_conf, age) && move_hervors_rel(w4, w5)
            && move_chasers_rel(w5, w6));
        assert(tick_rel(w0, w6, age, *sim_conf, *hervor_conf, *chaser_conf));
    }
}


/// Replaces one world's hervor population.
fn world_set_hervors(ws: &mut Vec<World>, i: usize, hs: Vec<Hervor>)
    requires
        i < old(ws)@.len(),
    ensures
        final(ws)@ == old(ws)@.update(i as int, World { hervors: hs, ..old(ws)@[i as int] }),
{
    let slot = &mut ws[i];
    slot.hervors = hs;
}

/// Replaces one world's chaser population.
fn world_set_chasers(ws: &mut Vec<World>, i: usize, cs: Vec<Chaser>)
    requires
        i < old(ws)@.len(),
    ensures
        final(ws)@ == old(ws)@.update(i as int, World { chasers: cs, ..old(ws)@[i as int] }),
{
    let slot = &mut ws[i];
    slot.chasers = cs;
}

/// Replaces one world's plants.
fn world_set_plants(ws: &mut Vec<World>, i: usize, ps: Vec<Plant>)
    requires
        i < old(ws)@.len(),
    ensures
        final(ws)@ == old(ws)@.update(i as int, World { plants: ps, ..old(ws)@[i as int] }),
{
    let slot = &mut ws[i];
    slot.plants = ps;
}

/// Ticks the world at one index of the vector.
fn tick_world_at(ws: &mut Vec<World>, i: usize, age: u64, sim_conf: &SimulationConfig,
    hervor_conf: &IndividualConfig, chaser_conf: &IndividualConfig,
    rng: &mut rand::rngs::StdRng)
    requires
        i < old(ws)@.len(),
        sim_conf.wf(),
        hervor_conf.wf(),
        chaser_conf.wf(),
        old(ws)@[i as int].wf(*sim_conf, *hervor_conf, *chaser_conf),
    ensures
        final(ws)@.len() == old(ws)@.len(),
        forall|k: int| 0 <= k < old(ws)@.len() && k != i
            ==> #[trigger] final(ws)@[k] == old(ws)@[k],
        final(ws)@[i as int].wf(*sim_conf, *hervor_conf, *chaser_conf),
        tick_rel(old(ws)@[i as int], final(ws)@[i as int], age, *sim_conf, *hervor_conf,
            *chaser_conf),
{
    let w = &mut ws[i];
    proc_world(w, age, sim_conf, hervor_conf, chaser_conf, rng);
}

/// Every world ticked once, independently.
pub open spec fn worlds_ticked(ws0: Seq<World>, ws1: Seq<World>, age: u64,
    sc: SimulationConfig, hc: IndividualConfig, cc: IndividualConfig) -> bool {
    &&& ws1.len() == ws0.len()
    &&& forall|i: int| 0 <= i < ws0.len()
        ==> tick_rel(ws0[i], #[trigger] ws1[i], age, sc, hc, cc)
}

/// How one species' pooled population reads off the worlds: world `w`'s
/// member `j` sits at the flat index `w * count + j`, carrying its
/// chromosome and its earned fitness.
pub open spec fn hervors_pooled(ws: Seq<World>, nh: int, nplants: int,
    pooled: Seq<HervorIndividual>) -> bool {
    &&& pooled.len() == ws.len() * nh
    &&& forall|w: int, j: int| 0 <= w < ws.len() && 0 <= j < nh ==> {
        &&& (#[trigger] pooled[w * nh + j]).fitness_spec() == hervor_fitness_spec(
            ws[w].hervors@[j].satiation, ws[w].hervors@[j].dead, nplants)
        &&& pooled[w * nh + j].chromosome_spec() == ws[w].hervors@[j].brain.genes_view()
    }
}

/// The chaser pool: every chaser of a world carries that world's shared
/// kill tally as its fitness — ten per kill, identical across the world.
pub open spec fn chasers_pooled(ws: Seq<World>, nc: int,
    pooled: Seq<ChaserIndividual>) -> bool {
    &&& pooled.len() == ws.len() * nc
    &&& forall|w: int, j: int| 0 <= w < ws.len() && 0 <= j < nc ==> {
        &&& (#[trigger] pooled[w * nc + j]).fitness_spec() == chaser_fitness_spec(
            ws[w].kill_count)
        &&& pooled[w * nc + j].chromosome_spec() == ws[w].chasers@[j].brain.genes_view()
    }
}

/// How a genetic-algorithm result reads back into the worlds: world `w`'s
/// slot `j` holds a fresh agent bred around the evolved chromosome at
/// flat index `w * count + j`.
pub open spec fn hervors_redistributed(ws: Seq<World>, nh: int,
    evolved: Seq<HervorIndividual>, hc: IndividualConfig) -> bool {
    forall|w: int, j: int| 0 <= w < ws.len() && 0 <= j < nh ==> {
        &&& (#[trigger] ws[w].hervors@[j]).brain.genes_view()
            == evolved[w * nh + j].chromosome_spec()
        &&& ws[w].hervors@[j].satiation == 0
        &&& !ws[w].hervors@[j].dead
        &&& ws[w].hervors@[j].speed == initial_speed_spec(hc)
    }
}

pub open spec fn chasers_redistributed(ws: Seq<World>, nc: int,
    evolved: Seq<ChaserIndividual>, cc: IndividualConfig) -> bool {
    forall|w: int, j: int| 0 <= w < ws.len() && 0 <= j < nc ==> {
        &&& (#[trigger] ws[w].chasers@[j]).brain.genes_view()
            == evolved[w * nc + j].chromosome_spec()
        &&& ws[w].chasers@[j].killed == 0
        &&& ws[w].chasers@[j].speed == initial_speed_spec(cc)
    }
}

/// The worlds after `k` consecutive ticks, the first taken at tick
/// counter `age0`, each next one a counter later.
pub open spec fn ticks_chain(ws0: Seq<World>, ws1: Seq<World>, age0: u64, k: int,
    sc: SimulationConfig, hc: IndividualConfig, cc: IndividualConfig) -> bool
    decreases k,
{
    if k <= 0 {
        ws1 == ws0
    } else {
        exists|m: Seq<World>| ticks_chain(ws0, m, age0, k - 1, sc, hc, cc)
            && #[trigger] worlds_ticked(m, ws1, (age0 + k - 1) as u64, sc, hc, cc)
    }
}

/// Extends a tick chain by one more tick.
pub proof fn lemma_ticks_chain_extend(ws0: Seq<World>, m: Seq<World>, ws1: Seq<World>,
    age0: u64, k: int, sc: SimulationConfig, hc: IndividualConfig, cc: IndividualConfig)
    requires
        k >= 0,
        age0 + k <= u64::MAX,
        ticks_chain(ws0, m, age0, k, sc, hc, cc),
        worlds_ticked(m, ws1, (age0 + k) as u64, sc, hc, cc),
    ensures
        ticks_chain(ws0, ws1, age0, k + 1, sc, hc, cc),
{
    assert((age0 + (k + 1) - 1) as u64 == (age0 + k) as u64);
    assert(exists|mm: Seq<World>| ticks_chain(ws0, mm, age0, (k + 1) - 1, sc, hc, cc)
        && #[trigger] worlds_ticked(mm, ws1, (age0 + (k + 1) - 1) as u64, sc, hc, cc)) by {
        assert(ticks_chain(ws0, m, age0, (k + 1) - 1, sc, hc, cc)
            && worlds_ticked(m, ws1, (age0 + (k + 1) - 1) as u64, sc, hc, cc));
    }
}

/// One hervor evolution pass, from the worlds it pooled to the worlds
/// it reseeded: the pool reads off `ws0` slot by slot with the earned
/// fitness, the statistics summarize exactly that pool, the
/// genetic-algorithm result has the pool's size and the configured
/// mode's shape (elitist survivors kept verbatim, offspring bred from
/// the kept half; or a full replacement bred from the whole pool), and
/// `ws1` holds the result in contiguous blocks of fresh agents.
pub open spec fn hervor_evolution_outcome(ws0: Seq<World>, ws1: Seq<World>,
    stats: Statistics, sc: SimulationConfig, hc: IndividualConfig) -> bool {
    exists|pooled: Seq<HervorIndividual>, evolved: Seq<HervorIndividual>|
        #![trigger pooled.len(), evolved.len()]
    {
        &&& hervors_pooled(ws0, sc.nhervors as int, sc.nplants as int, pooled)
        &&& stats.min_fitness == fitness_min(fitnesses(pooled))
        &&& stats.max_fitness == fitness_max(fitnesses(pooled))
        &&& stats.mean_fitness == fitness_sum(fitnesses(pooled)) / (pooled.len() as int)
        &&& evolved.len() == pooled.len()
        &&& (sc.safe_evolve ==> exists|sorted: Seq<HervorIndividual>|
            elitist_shape(pooled, sorted, evolved))
        &&& (sc.safe_evolve ==> forall|i: int|
            pooled.len() - pooled.len() / 2 <= i < pooled.len()
            ==> bred_from(evolved.subrange(0, pooled.len() - pooled.len() / 2),
                sc.mutation_probability as int, sc.mutation_magnitude as int,
                #[trigger] evolved[i]))
        &&& (!sc.safe_evolve ==> forall|i: int| 0 <= i < evolved.len() ==> {
            &&& (#[trigger] evolved[i]).fitness_spec() == 0
            &&& bred_from(pooled, sc.mutation_probability as int,
                sc.mutation_magnitude as int, evolved[i])
        })
        &&& hervors_redistributed(ws1, sc.nhervors as int, evolved, hc)
    }
}

/// One chaser evolution pass, shaped as the hervor one; every pooled
/// chaser carries its world's shared kill tally as fitness.
pub open spec fn chaser_evolution_outcome(ws0: Seq<World>, ws1: Seq<World>,
    stats: Statistics, sc: SimulationConfig, cc: IndividualConfig) -> bool {
    exists|pooled: Seq<ChaserIndividual>, evolved: Seq<ChaserIndividual>|
        #![trigger pooled.len(), evolved.len()]
    {
        &&& chasers_pooled(ws0, sc.nchasers as int, pooled)
        &&& stats.min_fitness == fitness_min(fitnesses(pooled))
        &&& stats.max_fitness == fitness_max(fitnesses(pooled))
        &&& stats.mean_fitness == fitness_sum(fitnesses(pooled)) / (pooled.len() as int)
        &&& evolved.len() == pooled.len()
        &&& (sc.safe_evolve ==> exists|sorted: Seq<ChaserIndividual>|
            elitist_shape(pooled, sorted, evolved))
        &&& (sc.safe_evolve ==> forall|i: int|
            pooled.len() - pooled.len() / 2 <= i < pooled.len()
            ==> bred_from(evolved.subrange(0, pooled.len() - pooled.len() / 2),
                sc.mutation_probability as int, sc.mutation_magnitude as int,
                #[trigger] evolved[i]))
        &&& (!sc.safe_evolve ==> forall|i: int| 0 <= i < evolved.len() ==> {
            &&& (#[trigger] evolved[i]).fitness_spec() == 0
            &&& bred_from(pooled, sc.mutation_probability as int,
                sc.mutation_magnitude as int, evolved[i])
        })
        &&& chasers_redistributed(ws1, sc.nchasers as int, evolved, cc)
    }
}

/// Every world's plants stand freshly respawned: the configured count,
/// none eaten, all on the torus.
pub open spec fn plants_fresh(ws: Seq<World>, sc: SimulationConfig) -> bool {
    forall|w: int| 0 <= w < ws.len() ==> {
        &&& (#[trigger] ws[w]).plants@.len() == sc.nplants
        &&& forall|p: int| 0 <= p < ws[w].plants@.len() ==> {
            &&& !(#[trigger] ws[w].plants@[p]).eaten
            &&& ws[w].plants@[p].wf()
        }
    }
}

/// One generation boundary: what the worlds `mid` (the pooled state)
/// became, and that the returned pair is exactly the two pooled
/// populations' statistics — an empty species reports all zeros.
pub open spec fn generation_outcome(mid: Seq<World>, ws1: Seq<World>,
    stats: (Statistics, Statistics), sc: SimulationConfig, hc: IndividualConfig,
    cc: IndividualConfig) -> bool {
    &&& (sc.nhervors > 0 ==> hervor_evolution_outcome(mid, ws1, stats.0, sc, hc))
    &&& (sc.nhervors == 0 ==> stats.0.min_fitness == 0 && stats.0.max_fitness == 0
        && stats.0.mean_fitness == 0)
    &&& (sc.nchasers > 0 ==> chaser_evolution_outcome(mid, ws1, stats.1, sc, cc))
    &&& (sc.nchasers == 0 ==> stats.1.min_fitness == 0 && stats.1.max_fitness == 0
        && stats.1.mean_fitness == 0)
    &&& (sc.nplants > 0 ==> plants_fresh(ws1, sc))
}

/// A whole boundary step: the old worlds tick once more, and that
/// ticked state is what one evolution pass pooled and reseeded into
/// the new worlds, reporting its statistics.
pub open spec fn boundary_outcome(ws_old: Seq<World>, age_old: u64, ws_new: Seq<World>,
    stats: (Statistics, Statistics), sc: SimulationConfig, hc: IndividualConfig,
    cc: IndividualConfig) -> bool {
    exists|mid: Seq<World>| worlds_ticked(ws_old, mid, age_old, sc, hc, cc)
        && #[trigger] generation_outcome(mid, ws_new, stats, sc, hc, cc)
}

/// A whole generation from a mid-generation state: the remaining
/// ticks of the generation run in order, and the ticked state is what
/// the evolution pass pooled and reseeded into the new worlds.
pub open spec fn next_generation_outcome(ws_old: Seq<World>, age_old: u64,
    ws_new: Seq<World>, stats: (Statistics, Statistics), sc: SimulationConfig,
    hc: IndividualConfig, cc: IndividualConfig) -> bool {
    exists|mid: Seq<World>|
        ticks_chain(ws_old, mid, age_old, sc.generation_length + 1 - age_old, sc, hc, cc)
            && #[trigger] generation_outcome(mid, ws_new, stats, sc, hc, cc)
}

/// The new worlds and statistics come out of one evolution pass over
/// some pooled world state.
pub open spec fn some_generation_outcome(ws_new: Seq<World>,
    stats: (Statistics, Statistics), sc: SimulationConfig, hc: IndividualConfig,
    cc: IndividualConfig) -> bool {
    exists|mid: Seq<World>| #[trigger] generation_outcome(mid, ws_new, stats, sc, hc, cc)
}

/// A full-generation outcome in particular ties the new worlds and
/// statistics to one evolution pass.
proof fn lemma_next_generation_is_some(ws_old: Seq<World>, age_old: u64,
    ws_new: Seq<World>, stats: (Statistics, Statistics), sc: SimulationConfig,
    hc: IndividualConfig, cc: IndividualConfig)
    requires
        next_generation_outcome(ws_old, age_old, ws_new, stats, sc, hc, cc),
    ensures
        some_generation_outcome(ws_new, stats, sc, hc, cc),
{
    let mid = choose|mid: Seq<World>|
        ticks_chain(ws_old, mid, age_old, sc.generation_length + 1 - age_old, sc, hc, cc)
            && #[trigger] generation_outcome(mid, ws_new, stats, sc, hc, cc);
    assert(generation_outcome(mid, ws_new, stats, sc, hc, cc));
}

/// An evolution outcome survives later passes that leave the species'
/// agents untouched.
proof fn lemma_hervor_outcome_carry(ws0: Seq<World>, ws1: Seq<World>, ws2: Seq<World>,
    stats: Statistics, sc: SimulationConfig, hc: IndividualConfig)
    requires
        hervor_evolution_outcome(ws0, ws1, stats, sc, hc),
        ws2.len() == ws1.len(),
        forall|k: int| 0 <= k < ws1.len()
            ==> (#[trigger] ws2[k]).hervors@ == ws1[k].hervors@,
    ensures
        hervor_evolution_outcome(ws0, ws2, stats, sc, hc),
{
    let (pooled, evolved) = choose|pooled: Seq<HervorIndividual>,
        evolved: Seq<HervorIndividual>|
        #![trigger pooled.len(), evolved.len()]
    {
        &&& hervors_pooled(ws0, sc.nhervors as int, sc.nplants as int, pooled)
        &&& stats.min_fitness == fitness_min(fitnesses(pooled))
        &&& stats.max_fitness == fitness_max(fitnesses(pooled))
        &&& stats.mean_fitness == fitness_sum(fitnesses(pooled)) / (pooled.len() as int)
        &&& evolved.len() == pooled.len()
        &&& (sc.safe_evolve ==> exists|sorted: Seq<HervorIndividual>|
            elitist_shape(pooled, sorted, evolved))
        &&& (sc.safe_evolve ==> forall|i: int|
            pooled.len() - pooled.len() / 2 <= i < pooled.len()
            ==> bred_from(evolved.subrange(0, pooled.len() - pooled.len() / 2),
                sc.mutation_probability as int, sc.mutation_magnitude as int,
                #[trigger] evolved[i]))
        &&& (!sc.safe_evolve ==> forall|i: int| 0 <= i < evolved.len() ==> {
            &&& (#[trigger] evolved[i]).fitness_spec() == 0
            &&& bred_from(pooled, sc.mutation_probability as int,
                sc.mutation_magnitude as int, evolved[i])
        })
        &&& hervors_redistributed(ws1, sc.nhervors as int, evolved, hc)
    };
    assert forall|w: int, j: int| 0 <= w < ws2.len() && 0 <= j < sc.nhervors as int
        implies {
        &&& (#[trigger] ws2[w].hervors@[j]).brain.genes_view()
            == evolved[w * (sc.nhervors as int) + j].chromosome_spec()
        &&& ws2[w].hervors@[j].satiation == 0
        &&& !ws2[w].hervors@[j].dead
        &&& ws2[w].hervors@[j].speed == initial_speed_spec(hc)
    } by {
        assert(ws2[w].hervors@ == ws1[w].hervors@);
        assert((ws1[w].hervors@[j]).brain.genes_view()
            == evolved[w * (sc.nhervors as int) + j].chromosome_spec());
    }
    assert(hervors_redistributed(ws2, sc.nhervors as int, evolved, hc));
    assert(pooled.len() == pooled.len() && evolved.len() == evolved.len());
    assert(hervor_evolution_outcome(ws0, ws2, stats, sc, hc));
}

/// A chaser outcome carries across passes that leave the chasers and
/// the kill tallies untouched, on both its pooled and reseeded sides.
proof fn lemma_chaser_outcome_carry(ws_a: Seq<World>, ws_b: Seq<World>, ws1: Seq<World>,
    ws2: Seq<World>, stats: Statistics, sc: SimulationConfig, cc: IndividualConfig)
    requires
        chaser_evolution_outcome(ws_b, ws1, stats, sc, cc),
        ws_a.len() == ws_b.len(),
        forall|k: int| 0 <= k < ws_b.len() ==> {
            &&& (#[trigger] ws_a[k]).chasers@ == ws_b[k].chasers@
            &&& ws_a[k].kill_count == ws_b[k].kill_count
        },
        ws2.len() == ws1.len(),
        forall|k: int| 0 <= k < ws1.len()
            ==> (#[trigger] ws2[k]).chasers@ == ws1[k].chasers@,
    ensures
        chaser_evolution_outcome(ws_a, ws2, stats, sc, cc),
{
    let (pooled, evolved) = choose|pooled: Seq<ChaserIndividual>,
        evolved: Seq<ChaserIndividual>|
        #![trigger pooled.len(), evolved.len()]
    {
        &&& chasers_pooled(ws_b, sc.nchasers as int, pooled)
        &&& stats.min_fitness == fitness_min(fitnesses(pooled))
        &&& stats.max_fitness == fitness_max(fitnesses(pooled))
        &&& stats.mean_fitness == fitness_sum(fitnesses(pooled)) / (pooled.len() as int)
        &&& evolved.len() == pooled.len()
        &&& (sc.safe_evolve ==> exists|sorted: Seq<ChaserIndividual>|
            elitist_shape(pooled, sorted, evolved))
        &&& (sc.safe_evolve ==> forall|i: int|
            pooled.len() - pooled.len() / 2 <= i < pooled.len()
            ==> bred_from(evolved.subrange(0, pooled.len() - pooled.len() / 2),
                sc.mutation_probability as int, sc.mutation_magnitude as int,
                #[trigger] evolved[i]))
        &&& (!sc.safe_evolve ==> forall|i: int| 0 <= i < evolved.len() ==> {
            &&& (#[trigger] evolved[i]).fitness_spec() == 0
            &&& bred_from(pooled, sc.mutation_probability as int,
                sc.mutation_magnitude as int, evolved[i])
        })
        &&& chasers_redistributed(ws1, sc.nchasers as int, evolved, cc)
    };
    assert forall|w: int, j: int| 0 <= w < ws_a.len() && 0 <= j < sc.nchasers as int
        implies {
        &&& (#[trigger] pooled[w * (sc.nchasers as int) + j]).fitness_spec()
            == chaser_fitness_spec(ws_a[w].kill_count)
        &&& pooled[w * (sc.nchasers as int) + j].chromosome_spec()
            == ws_a[w].chasers@[j].brain.genes_view()
    } by {
        assert(ws_a[w].chasers@ == ws_b[w].chasers@);
        assert((pooled[w * (sc.nchasers as int) + j]).fitness_spec()
            == chaser_fitness_spec(ws_b[w].kill_count));
    }
    assert(chasers_pooled(ws_a, sc.nchasers as int, pooled));
    assert forall|w: int, j: int| 0 <= w < ws2.len() && 0 <= j < sc.nchasers as int
        implies {
        &&& (#[trigger] ws2[w].chasers@[j]).brain.genes_view()
            == evolved[w * (sc.nchasers as int) + j].chromosome_spec()
        &&& ws2[w].chasers@[j].killed == 0
        &&& ws2[w].chasers@[j].speed == initial_speed_spec(cc)
    } by {
        assert(ws2[w].chasers@ == ws1[w].chasers@);
        assert((ws1[w].chasers@[j]).brain.genes_view()
            == evolved[w * (sc.nchasers as int) + j].chromosome_spec());
    }
    assert(chasers_redistributed(ws2, sc.nchasers as int, evolved, cc));
    assert(pooled.len() == pooled.len() && evolved.len() == evolved.len());
    assert(chaser_evolution_outcome(ws_a, ws2, stats, sc, cc));
}

/// The whole run: its worlds, its genetic algorithm, the tick and
/// generation counters, and the three configurations.
pub struct Simulation {
    pub worlds: Vec<World>,
    pub ga: GeneticAlgorithm,
    pub age: u64,
    pub generation: u64,
    pub sim_config: SimulationConfig,
    pub hervor_config: IndividualConfig,
    pub chaser_config: IndividualConfig,
}

impl Simulation {
    /// Valid configurations, a genetic algorithm carrying exactly the
    /// configured mutation parameters, and `nworlds` well-formed
    /// worlds.
    pub open spec fn core_wf(&self) -> bool {
        &&& self.sim_config.wf()
        &&& self.hervor_config.wf()
        &&& self.chaser_config.wf()
        &&& self.ga.wf()
        &&& self.ga.mutation_method.chance == self.sim_config.mutation_probability
        &&& self.ga.mutation_method.coeff == self.sim_config.mutation_magnitude
        &&& self.worlds@.len() == self.sim_config.nworlds
        &&& forall|i: int| 0 <= i < self.worlds@.len()
            ==> (#[trigger] self.worlds@[i]).wf(self.sim_config, self.hervor_config,
                self.chaser_config)
    }

    /// The run-wide invariant: valid configurations, exactly `nworlds`
    /// worlds each holding exactly the configured populations, and a
    /// tick counter inside the generation.
    pub open spec fn wf(&self) -> bool {
        &&& self.core_wf()
        &&& self.age <= self.sim_config.generation_length
    }

    /// A fresh run: random worlds, the genetic algorithm configured
    /// from the mutation parameters, counters at zero.
    pub fn random(rng: &mut rand::rngs::StdRng, sim_conf: SimulationConfig,
        hervor_conf: IndividualConfig, chaser_conf: IndividualConfig) -> (r: Simulation)
        requires
            sim_conf.wf(),
            hervor_conf.wf(),
            chaser_conf.wf(),
        ensures
            r.wf(),
            r.age == 0,
            r.generation == 0,
            r.sim_config == sim_conf,
            r.hervor_config == hervor_conf,
            r.chaser_config == chaser_conf,
            r.ga.mutation_method.chance == sim_conf.mutation_probability,
            r.ga.mutation_method.coeff == sim_conf.mutation_magnitude,
    {
        let mut worlds: Vec<World> = Vec::new();
        let mut i: usize = 0;
        while i < sim_conf.nworlds
            invariant
                i <= sim_conf.nworlds,
                sim_conf.wf(),
                hervor_conf.wf(),
                chaser_conf.wf(),
                worlds@.len() == i,
                forall|k: int| 0 <= k < i
                    ==> (#[trigger] worlds@[k]).wf(sim_conf, hervor_conf, chaser_conf),
            decreases sim_conf.nworlds - i,
        {
            worlds.push(World::random(rng, &sim_conf, &hervor_conf, &chaser_conf));
            i = i + 1;
        }
        let ga = GeneticAlgorithm::new(
            RouletteWheelSelection::new(),
            UniformCrossover::new(),
            GaussianMutation::new(sim_conf.mutation_probability, sim_conf.mutation_magnitude),
        );
        Simulation {
            worlds,
            ga,
            age: 0,
            generation: 0,
            sim_config: sim_conf,
            hervor_config: hervor_conf,
            chaser_config: chaser_conf,
        }
    }

    pub fn generation(&self) -> (r: u64)
        ensures
            r == self.generation,
    {
        self.generation
    }

    pub fn worlds(&self) -> (r: &Vec<World>)
        ensures
            r == &self.worlds,
    {
        &self.worlds
    }
}


impl Simulation {
    /// Pools every world's hervors (fitness earned as satiation plus
    /// survival and clean-plate bonuses), runs one genetic-algorithm
    /// pass over the pooled population, and reseeds the worlds with the
    /// result in contiguous blocks of `nhervors`: world 0 takes the
    /// first block, world 1 the next, and so on.  Fails exactly when no
    /// pooled hervor earned any fitness.
    pub fn evolve_hervors(&mut self, rng: &mut rand::rngs::StdRng)
        -> (r: Result<Statistics, EvolveError>)
        requires
            old(self).core_wf(),
            old(self).sim_config.nhervors >= 1,
        ensures
            final(self).core_wf(),
            final(self).age == old(self).age,
            final(self).generation == old(self).generation,
            final(self).sim_config == old(self).sim_config,
            final(self).hervor_config == old(self).hervor_config,
            final(self).chaser_config == old(self).chaser_config,
            final(self).worlds@.len() == old(self).worlds@.len(),
            forall|k: int| 0 <= k < final(self).worlds@.len() ==> {
                &&& (#[trigger] final(self).worlds@[k]).chasers@ == old(self).worlds@[k].chasers@
                &&& final(self).worlds@[k].plants@ == old(self).worlds@[k].plants@
                &&& final(self).worlds@[k].kill_count == old(self).worlds@[k].kill_count
            },
            r matches Ok(stats) ==> hervor_evolution_outcome(old(self).worlds@,
                final(self).worlds@, stats, old(self).sim_config,
                old(self).hervor_config),
            r matches Err(e) ==> {
                &&& e == EvolveError::ZeroFitness
                &&& final(self).worlds@ == old(self).worlds@
                &&& exists|pooled: Seq<HervorIndividual>|
                    #![trigger pooled.len()]
                {
                    &&& hervors_pooled(old(self).worlds@,
                        old(self).sim_config.nhervors as int,
                        old(self).sim_config.nplants as int, pooled)
                    &&& fitness_sum(fitnesses(pooled)) == 0
                }
            },
    {
        let nw = self.worlds.len();
        let nh = self.sim_config.nhervors;
        let np = self.sim_config.nplants;
        let ghost ws0 = self.worlds@;
        let ghost wc = weight_count(topo_sizes(topology_spec(HervorBrain::input_size_spec(
            self.sim_config, self.hervor_config))));
        let mut pool: Vec<HervorIndividual> = Vec::new();
        let mut w: usize = 0;
        while w < nw
            invariant
                w <= nw,
                nw == ws0.len(),
                nh == self.sim_config.nhervors,
                np == self.sim_config.nplants,
                1 <= nh,
                self == old(self),
                self.core_wf(),
                ws0 == self.worlds@,
                wc == weight_count(topo_sizes(topology_spec(HervorBrain::input_size_spec(
                    self.sim_config, self.hervor_config)))),
                pool@.len() == w * nh,
                forall|w2: int, j2: int| 0 <= w2 < w && 0 <= j2 < nh ==> {
                    &&& (#[trigger] pool@[w2 * nh + j2]).fitness_spec()
                        == hervor_fitness_spec(ws0[w2].hervors@[j2].satiation,
                        ws0[w2].hervors@[j2].dead, np as int)
                    &&& pool@[w2 * nh + j2].chromosome_spec()
                        == ws0[w2].hervors@[j2].brain.genes_view()
                },
                forall|k: int| 0 <= k < pool@.len() ==> {
                    &&& (#[trigger] pool@[k]).chromosome_spec().len() == wc
                    &&& genes_bounded(pool@[k].chromosome_spec())
                    &&& pool@[k].fitness_spec() <= 4_294_967_365
                },
            decreases nw - w,
        {
            proof {
                assert(w * nh + nh == (w + 1) * nh && (w + 1) * nh <= nw * nh
                    && nw * nh <= 100_000_000) by (nonlinear_arith)
                    requires 0 <= w < nw && 1 <= nh <= 10_000 && nw <= 10_000;
            }
            let mut j: usize = 0;
            while j < nh
                invariant
                    j <= nh,
                    w < nw,
                    nw == ws0.len(),
                    nh == self.sim_config.nhervors,
                    np == self.sim_config.nplants,
                    1 <= nh,
                    self == old(self),
                    self.core_wf(),
                    ws0 == self.worlds@,
                    wc == weight_count(topo_sizes(topology_spec(
                        HervorBrain::input_size_spec(self.sim_config,
                        self.hervor_config)))),
                    pool@.len() == w * nh + j,
                    w * nh + nh <= 100_000_000,
                    forall|w2: int, j2: int| 0 <= w2 < w && 0 <= j2 < nh ==> {
                        &&& (#[trigger] pool@[w2 * nh + j2]).fitness_spec()
                            == hervor_fitness_spec(ws0[w2].hervors@[j2].satiation,
                            ws0[w2].hervors@[j2].dead, np as int)
                        &&& pool@[w2 * nh + j2].chromosome_spec()
                            == ws0[w2].hervors@[j2].brain.genes_view()
                    },
                    forall|j2: int| 0 <= j2 < j ==> {
                        &&& (#[trigger] pool@[w * nh + j2]).fitness_spec()
                            == hervor_fitness_spec(ws0[w as int].hervors@[j2].satiation,
                            ws0[w as int].hervors@[j2].dead, np as int)
                        &&& pool@[w * nh + j2].chromosome_spec()
                            == ws0[w as int].hervors@[j2].brain.genes_view()
                    },
                    forall|k: int| 0 <= k < pool@.len() ==> {
                        &&& (#[trigger] pool@[k]).chromosome_spec().len() == wc
                        &&& genes_bounded(pool@[k].chromosome_spec())
                        &&& pool@[k].fitness_spec() <= 4_294_967_365
                    },
                decreases nh - j,
            {
                proof {
                    assert(self.worlds@[w as int].wf(self.sim_config, self.hervor_config,
                        self.chaser_config));
                    assert(self.worlds@[w as int].hervors@[j as int].wf(self.sim_config,
                        self.hervor_config));
                    self.worlds@[w as int].hervors@[j as int].brain.lemma_wf_sane(
                        self.sim_config, self.hervor_config);
                }
                let ind = HervorIndividual::from_hervor(&self.worlds[w].hervors[j], np);
                let ghost pool_before = pool@;
                pool.push(ind);
                j = j + 1;
                proof {
                    assert forall|w2: int, j2: int| 0 <= w2 < w && 0 <= j2 < nh
                        implies {
                        &&& (#[trigger] pool@[w2 * nh + j2]).fitness_spec()
                            == hervor_fitness_spec(ws0[w2].hervors@[j2].satiation,
                            ws0[w2].hervors@[j2].dead, np as int)
                        &&& pool@[w2 * nh + j2].chromosome_spec()
                            == ws0[w2].hervors@[j2].brain.genes_view()
                    } by {
                        assert((w2 + 1) * nh <= w * nh && w2 * nh + j2 < (w2 + 1) * nh
                            && 0 <= w2 * nh + j2) by (nonlinear_arith)
                            requires 0 <= w2 < w && 0 <= j2 < nh && nh >= 1;
                        assert(pool@[w2 * nh + j2] == pool_before[w2 * nh + j2]);
                    }
                }
            }
            w = w + 1;
            proof {
                assert(pool@.len() == w * nh) by (nonlinear_arith)
                    requires pool@.len() == (w - 1) * nh + nh && w >= 1;
                assert forall|w2: int, j2: int| 0 <= w2 < w && 0 <= j2 < nh implies {
                    &&& (#[trigger] pool@[w2 * nh + j2]).fitness_spec()
                        == hervor_fitness_spec(ws0[w2].hervors@[j2].satiation,
                        ws0[w2].hervors@[j2].dead, np as int)
                    &&& pool@[w2 * nh + j2].chromosome_spec()
                        == ws0[w2].hervors@[j2].brain.genes_view()
                } by {
                    if w2 == w - 1 {
                        assert(w2 * nh + j2 == (w - 1) * nh + j2);
                    }
                }
            }
        }
        proof {
            assert(pool@.len() == nw * nh);
            assert(hervors_pooled(ws0, nh as int, np as int, pool@));
            assert(nw * nh >= 1) by (nonlinear_arith)
                requires nw >= 1 && nh >= 1;
            assert(forall|k: int| 0 <= k < fitnesses(pool@).len()
                ==> #[trigger] fitnesses(pool@)[k] <= 4_294_967_365);
            lemma_fitness_sum_bounded(fitnesses(pool@), 4_294_967_365);
            assert(nw * nh <= 100_000_000) by (nonlinear_arith)
                requires 0 <= nw <= 10_000 && 0 <= nh <= 10_000;
            assert(pool@.len() * 4_294_967_365 <= u64::MAX) by (nonlinear_arith)
                requires 0 <= pool@.len() <= 100_000_000;
            assert(uniform_chromosomes(pool@, chrom_len(pool@)));
        }
        let ghost pooled0 = pool@;
        let safe = self.sim_config.safe_evolve;
        let res = self.ga.evolve(rng, pool, safe);
        let pair = match res {
            Ok(v) => v,
            Err(e) => {
                proof {
                    assert(pooled0.len() > 0);
                    assert(e == EvolveError::ZeroFitness);
                    assert(pooled0.len() == pooled0.len());
                }
                return Err(e);
            },
        };
        let (evolved, stats) = pair;
        let ghost ev = evolved@;
        let total = evolved.len();
        let mut base: usize = 0;
        let mut w2: usize = 0;
        while w2 < nw
            invariant
                base == w2 * nh,
                total == ev.len(),
                w2 <= nw,
                nw == ws0.len(),
                nh == self.sim_config.nhervors,
                1 <= nh,
                self.sim_config == old(self).sim_config,
                self.hervor_config == old(self).hervor_config,
                self.chaser_config == old(self).chaser_config,
                self.ga == old(self).ga,
                self.age == old(self).age,
                self.generation == old(self).generation,
                self.sim_config.wf(),
                self.hervor_config.wf(),
                self.chaser_config.wf(),
                self.ga.wf(),
                forall|k: int| 0 <= k < ws0.len()
                    ==> (#[trigger] ws0[k]).wf(self.sim_config, self.hervor_config,
                        self.chaser_config),
                wc == weight_count(topo_sizes(topology_spec(HervorBrain::input_size_spec(
                    self.sim_config, self.hervor_config)))),
                ev == evolved@,
                ev.len() == nw * nh,
                uniform_chromosomes(ev, wc),
                self.worlds@.len() == nw,
                forall|k: int| w2 <= k < nw ==> #[trigger] self.worlds@[k] == ws0[k],
                forall|k: int| 0 <= k < w2 ==> {
                    &&& (#[trigger] self.worlds@[k]).chasers@ == ws0[k].chasers@
                    &&& self.worlds@[k].plants@ == ws0[k].plants@
                    &&& self.worlds@[k].kill_count == ws0[k].kill_count
                    &&& self.worlds@[k].wf(self.sim_config, self.hervor_config,
                        self.chaser_config)
                    &&& forall|j2: int| 0 <= j2 < nh ==> {
                        &&& (#[trigger] self.worlds@[k].hervors@[j2]).brain.genes_view()
                            == ev[k * nh + j2].chromosome_spec()
                        &&& self.worlds@[k].hervors@[j2].satiation == 0
                        &&& !self.worlds@[k].hervors@[j2].dead
                        &&& self.worlds@[k].hervors@[j2].speed
                            == initial_speed_spec(self.hervor_config)
                    }
                },
            decreases nw - w2,
        {
            proof {
                assert(w2 * nh + nh <= nw * nh) by (nonlinear_arith)
                    requires 0 <= w2 < nw && nh >= 0;
                assert(w2 * nh >= 0) by (nonlinear_arith)
                    requires w2 >= 0 && nh >= 0;
            }
            let mut hs_new: Vec<Hervor> = Vec::new();
            let mut j: usize = 0;
            while j < nh
                invariant
                    base == w2 * nh,
                    total == ev.len(),
                    base + nh <= total,
                    j <= nh,
                    w2 < nw,
                    nh == self.sim_config.nhervors,
                    self.sim_config == old(self).sim_config,
                    self.hervor_config == old(self).hervor_config,
                    self.sim_config.wf(),
                    self.hervor_config.wf(),
                    wc == weight_count(topo_sizes(topology_spec(
                        HervorBrain::input_size_spec(self.sim_config,
                        self.hervor_config)))),
                    ev == evolved@,
                    ev.len() == nw * nh,
                    uniform_chromosomes(ev, wc),
                    0 <= w2 * nh,
                    w2 * nh + nh <= nw * nh,
                    hs_new@.len() == j,
                    forall|j2: int| 0 <= j2 < j ==> {
                        &&& (#[trigger] hs_new@[j2]).wf(self.sim_config, self.hervor_config)
                        &&& hs_new@[j2].brain.genes_view()
                            == ev[w2 * nh + j2].chromosome_spec()
                        &&& hs_new@[j2].satiation == 0
                        &&& !hs_new@[j2].dead
                        &&& hs_new@[j2].speed == initial_speed_spec(self.hervor_config)
                    },
                decreases nh - j,
            {
                let idx = base + j;
                proof {
                    assert(idx == w2 * nh + j && idx < ev.len());
                }
                let c = evolved[idx].chromosome().duplicate();
                let h = Hervor::from_chromosome(&self.sim_config, &self.hervor_config, c,
                    rng);
                hs_new.push(h);
                j = j + 1;
            }
            world_set_hervors(&mut self.worlds, w2, hs_new);
            base = base + nh;
            w2 = w2 + 1;
            proof {
                assert(base == w2 * nh) by (nonlinear_arith)
                    requires base == (w2 - 1) * nh + nh && w2 >= 1;
            }
        }
        proof {
            assert(hervors_redistributed(self.worlds@, nh as int, ev, self.hervor_config));
            assert forall|k: int| 0 <= k < self.worlds@.len()
                implies (#[trigger] self.worlds@[k]).wf(self.sim_config,
                    self.hervor_config, self.chaser_config) by {
            }
            assert(pooled0.len() == pooled0.len() && ev.len() == ev.len());
            assert(hervor_evolution_outcome(ws0, self.worlds@, stats, self.sim_config,
                self.hervor_config));
        }
        Ok(stats)
    }
}


impl Simulation {
    /// Pools every world's chasers — each carrying its world's shared
    /// kill tally, ten per kill, as fitness — runs one
    /// genetic-algorithm pass, and reseeds the worlds with the result
    /// in contiguous blocks of `nchasers`.  Fails exactly when no world
    /// counted a kill.
    pub fn evolve_chasers(&mut self, rng: &mut rand::rngs::StdRng)
        -> (r: Result<Statistics, EvolveError>)
        requires
            old(self).core_wf(),
            old(self).sim_config.nchasers >= 1,
        ensures
            final(self).core_wf(),
            final(self).age == old(self).age,
            final(self).generation == old(self).generation,
            final(self).sim_config == old(self).sim_config,
            final(self).hervor_config == old(self).hervor_config,
            final(self).chaser_config == old(self).chaser_config,
            final(self).worlds@.len() == old(self).worlds@.len(),
            forall|k: int| 0 <= k < final(self).worlds@.len() ==> {
                &&& (#[trigger] final(self).worlds@[k]).hervors@ == old(self).worlds@[k].hervors@
                &&& final(self).worlds@[k].plants@ == old(self).worlds@[k].plants@
                &&& final(self).worlds@[k].kill_count == old(self).worlds@[k].kill_count
            },
            r matches Ok(stats) ==> chaser_evolution_outcome(old(self).worlds@,
                final(self).worlds@, stats, old(self).sim_config,
                old(self).chaser_config),
            r matches Err(e) ==> {
                &&& e == EvolveError::ZeroFitness
                &&& final(self).worlds@ == old(self).worlds@
                &&& exists|pooled: Seq<ChaserIndividual>|
                    #![trigger pooled.len()]
                {
                    &&& chasers_pooled(old(self).worlds@,
                        old(self).sim_config.nchasers as int, pooled)
                    &&& fitness_sum(fitnesses(pooled)) == 0
                }
            },
    {
        let nw = self.worlds.len();
        let nc = self.sim_config.nchasers;
        let ghost ws0 = self.worlds@;
        let ghost wc = weight_count(topo_sizes(topology_spec(ChaserBrain::input_size_spec(
            self.sim_config, self.chaser_config))));
        let mut pool: Vec<ChaserIndividual> = Vec::new();
        let mut w: usize = 0;
        while w < nw
            invariant
                w <= nw,
                nw == ws0.len(),
                nc == self.sim_config.nchasers,
                1 <= nc,
                self == old(self),
                self.core_wf(),
                ws0 == self.worlds@,
                wc == weight_count(topo_sizes(topology_spec(ChaserBrain::input_size_spec(
                    self.sim_config, self.chaser_config)))),
                pool@.len() == w * nc,
                forall|w2: int, j2: int| 0 <= w2 < w && 0 <= j2 < nc ==> {
                    &&& (#[trigger] pool@[w2 * nc + j2]).fitness_spec()
                        == chaser_fitness_spec(ws0[w2].kill_count)
                    &&& pool@[w2 * nc + j2].chromosome_spec()
                        == ws0[w2].chasers@[j2].brain.genes_view()
                },
                forall|k: int| 0 <= k < pool@.len() ==> {
                    &&& (#[trigger] pool@[k]).chromosome_spec().len() == wc
                    &&& genes_bounded(pool@[k].chromosome_spec())
                    &&& pool@[k].fitness_spec() <= 42_949_672_950
                },
            decreases nw - w,
        {
            proof {
                assert(w * nc + nc == (w + 1) * nc && (w + 1) * nc <= nw * nc
                    && nw * nc <= 100_000_000) by (nonlinear_arith)
                    requires 0 <= w < nw && 1 <= nc <= 10_000 && nw <= 10_000;
            }
            let kc = self.worlds[w].kill_count;
            let mut j: usize = 0;
            while j < nc
                invariant
                    j <= nc,
                    w < nw,
                    nw == ws0.len(),
                    nc == self.sim_config.nchasers,
                    1 <= nc,
                    self == old(self),
                    self.core_wf(),
                    ws0 == self.worlds@,
                    kc == ws0[w as int].kill_count,
                    wc == weight_count(topo_sizes(topology_spec(
                        ChaserBrain::input_size_spec(self.sim_config,
                        self.chaser_config)))),
                    pool@.len() == w * nc + j,
                    w * nc + nc <= 100_000_000,
                    forall|w2: int, j2: int| 0 <= w2 < w && 0 <= j2 < nc ==> {
                        &&& (#[trigger] pool@[w2 * nc + j2]).fitness_spec()
                            == chaser_fitness_spec(ws0[w2].kill_count)
                        &&& pool@[w2 * nc + j2].chromosome_spec()
                            == ws0[w2].chasers@[j2].brain.genes_view()
                    },
                    forall|j2: int| 0 <= j2 < j ==> {
                        &&& (#[trigger] pool@[w * nc + j2]).fitness_spec()
                            == chaser_fitness_spec(ws0[w as int].kill_count)
                        &&& pool@[w * nc + j2].chromosome_spec()
                            == ws0[w as int].chasers@[j2].brain.genes_view()
                    },
                    forall|k: int| 0 <= k < pool@.len() ==> {
                        &&& (#[trigger] pool@[k]).chromosome_spec().len() == wc
                        &&& genes_bounded(pool@[k].chromosome_spec())
                        &&& pool@[k].fitness_spec() <= 42_949_672_950
                    },
                decreases nc - j,
            {
                proof {
                    assert(self.worlds@[w as int].wf(self.sim_config, self.hervor_config,
                        self.chaser_config));
                    assert(self.worlds@[w as int].chasers@[j as int].wf(self.sim_config,
                        self.chaser_config));
                    self.worlds@[w as int].chasers@[j as int].brain.lemma_wf_sane(
                        self.sim_config, self.chaser_config);
                }
                let ind = ChaserIndividual::from_chaser(&self.worlds[w].chasers[j], kc);
                let ghost pool_before = pool@;
                pool.push(ind);
                j = j + 1;
                proof {
                    assert forall|w2: int, j2: int| 0 <= w2 < w && 0 <= j2 < nc
                        implies {
                        &&& (#[trigger] pool@[w2 * nc + j2]).fitness_spec()
                            == chaser_fitness_spec(ws0[w2].kill_count)
                        &&& pool@[w2 * nc + j2].chromosome_spec()
                            == ws0[w2].chasers@[j2].brain.genes_view()
                    } by {
                        assert((w2 + 1) * nc <= w * nc && w2 * nc + j2 < (w2 + 1) * nc
                            && 0 <= w2 * nc + j2) by (nonlinear_arith)
                            requires 0 <= w2 < w && 0 <= j2 < nc && nc >= 1;
                        assert(pool@[w2 * nc + j2] == pool_before[w2 * nc + j2]);
                    }
                }
            }
            w = w + 1;
            proof {
                assert(pool@.len() == w * nc) by (nonlinear_arith)
                    requires pool@.len() == (w - 1) * nc + nc && w >= 1;
                assert forall|w2: int, j2: int| 0 <= w2 < w && 0 <= j2 < nc implies {
                    &&& (#[trigger] pool@[w2 * nc + j2]).fitness_spec()
                        == chaser_fitness_spec(ws0[w2].kill_count)
                    &&& pool@[w2 * nc + j2].chromosome_spec()
                        == ws0[w2].chasers@[j2].brain.genes_view()
                } by {
                    if w2 == w - 1 {
                        assert(w2 * nc + j2 == (w - 1) * nc + j2);
                    }
                }
            }
        }
        proof {
            assert(pool@.len() == nw * nc);
            assert(chasers_pooled(ws0, nc as int, pool@));
            assert(nw * nc >= 1) by (nonlinear_arith)
                requires nw >= 1 && nc >= 1;
            assert(forall|k: int| 0 <= k < fitnesses(pool@).len()
                ==> #[trigger] fitnesses(pool@)[k] <= 42_949_672_950);
            lemma_fitness_sum_bounded(fitnesses(pool@), 42_949_672_950);
            assert(nw * nc <= 100_000_000) by (nonlinear_arith)
                requires 0 <= nw <= 10_000 && 0 <= nc <= 10_000;
            assert(pool@.len() * 42_949_672_950 <= u64::MAX) by (nonlinear_arith)
                requires 0 <= pool@.len() <= 100_000_000;
            assert(uniform_chromosomes(pool@, chrom_len(pool@)));
        }
        let ghost pooled0 = pool@;
        let safe = self.sim_config.safe_evolve;
        let res = self.ga.evolve(rng, pool, safe);
        let pair = match res {
            Ok(v) => v,
            Err(e) => {
                proof {
                    assert(pooled0.len() > 0);
                    assert(e == EvolveError::ZeroFitness);
                }
                return Err(e);
            },
        };
        let (evolved, stats) = pair;
        let ghost ev = evolved@;
        let total = evolved.len();
        let mut base: usize = 0;
        let mut w2: usize = 0;
        while w2 < nw
            invariant
                base == w2 * nc,
                total == ev.len(),
                w2 <= nw,
                nw == ws0.len(),
                nc == self.sim_config.nchasers,
                1 <= nc,
                self.sim_config == old(self).sim_config,
                self.hervor_config == old(self).hervor_config,
                self.chaser_config == old(self).chaser_config,
                self.ga == old(self).ga,
                self.age == old(self).age,
                self.generation == old(self).generation,
                self.sim_config.wf(),
                self.hervor_config.wf(),
                self.chaser_config.wf(),
                self.ga.wf(),
                forall|k: int| 0 <= k < ws0.len()
                    ==> (#[trigger] ws0[k]).wf(self.sim_config, self.hervor_config,
                        self.chaser_config),
                wc == weight_count(topo_sizes(topology_spec(ChaserBrain::input_size_spec(
                    self.sim_config, self.chaser_config)))),
                ev == evolved@,
                ev.len() == nw * nc,
                uniform_chromosomes(ev, wc),
                self.worlds@.len() == nw,
                forall|k: int| w2 <= k < nw ==> #[trigger] self.worlds@[k] == ws0[k],
                forall|k: int| 0 <= k < w2 ==> {
                    &&& (#[trigger] self.worlds@[k]).hervors@ == ws0[k].hervors@
                    &&& self.worlds@[k].plants@ == ws0[k].plants@
                    &&& self.worlds@[k].kill_count == ws0[k].kill_count
                    &&& self.worlds@[k].wf(self.sim_config, self.hervor_config,
                        self.chaser_config)
                    &&& forall|j2: int| 0 <= j2 < nc ==> {
                        &&& (#[trigger] self.worlds@[k].chasers@[j2]).brain.genes_view()
                            == ev[k * nc + j2].chromosome_spec()
                        &&& self.worlds@[k].chasers@[j2].killed == 0
                        &&& self.worlds@[k].chasers@[j2].speed
                            == initial_speed_spec(self.chaser_config)
                    }
                },
            decreases nw - w2,
        {
            proof {
                assert(w2 * nc + nc <= nw * nc) by (nonlinear_arith)
                    requires 0 <= w2 < nw && nc >= 0;
                assert(w2 * nc >= 0) by (nonlinear_arith)
                    requires w2 >= 0 && nc >= 0;
            }
            let mut cs_new: Vec<Chaser> = Vec::new();
            let mut j: usize = 0;
            while j < nc
                invariant
                    base == w2 * nc,
                    total == ev.len(),
                    base + nc <= total,
                    j <= nc,
                    w2 < nw,
                    nc == self.sim_config.nchasers,
                    self.sim_config == old(self).sim_config,
                    self.chaser_config == old(self).chaser_config,
                    self.sim_config.wf(),
                    self.chaser_config.wf(),
                    wc == weight_count(topo_sizes(topology_spec(
                        ChaserBrain::input_size_spec(self.sim_config,
                        self.chaser_config)))),
                    ev == evolved@,
                    ev.len() == nw * nc,
                    uniform_chromosomes(ev, wc),
                    0 <= w2 * nc,
                    w2 * nc + nc <= nw * nc,
                    cs_new@.len() == j,
                    forall|j2: int| 0 <= j2 < j ==> {
                        &&& (#[trigger] cs_new@[j2]).wf(self.sim_config, self.chaser_config)
                        &&& cs_new@[j2].brain.genes_view()
                            == ev[w2 * nc + j2].chromosome_spec()
                        &&& cs_new@[j2].killed == 0
                        &&& cs_new@[j2].speed == initial_speed_spec(self.chaser_config)
                    },
                decreases nc - j,
            {
                let idx = base + j;
                proof {
                    assert(idx == w2 * nc + j && idx < ev.len());
                }
                let c = evolved[idx].chromosome().duplicate();
                let ch = Chaser::from_chromosome(&self.sim_config, &self.chaser_config, c,
                    rng);
                cs_new.push(ch);
                j = j + 1;
            }
            world_set_chasers(&mut self.worlds, w2, cs_new);
            base = base + nc;
            w2 = w2 + 1;
            proof {
                assert(base == w2 * nc) by (nonlinear_arith)
                    requires base == (w2 - 1) * nc + nc && w2 >= 1;
            }
        }
        proof {
            assert(chasers_redistributed(self.worlds@, nc as int, ev, self.chaser_config));
            assert(pooled0.len() == pooled0.len() && ev.len() == ev.len());
            assert(chaser_evolution_outcome(ws0, self.worlds@, stats, self.sim_config,
                self.chaser_config));
        }
        Ok(stats)
    }

    /// Respawns every plant of every world: a fresh random position and
    /// a cleared eaten flag, once per generation.
    pub fn evolve_plants(&mut self, rng: &mut rand::rngs::StdRng)
        requires
            old(self).core_wf(),
        ensures
            final(self).core_wf(),
            final(self).age == old(self).age,
            final(self).generation == old(self).generation,
            final(self).sim_config == old(self).sim_config,
            final(self).hervor_config == old(self).hervor_config,
            final(self).chaser_config == old(self).chaser_config,
            final(self).ga == old(self).ga,
            final(self).worlds@.len() == old(self).worlds@.len(),
            forall|k: int| 0 <= k < final(self).worlds@.len() ==> {
                &&& (#[trigger] final(self).worlds@[k]).hervors@
                    == old(self).worlds@[k].hervors@
                &&& final(self).worlds@[k].chasers@ == old(self).worlds@[k].chasers@
                &&& final(self).worlds@[k].kill_count == old(self).worlds@[k].kill_count
                &&& final(self).worlds@[k].plants@.len()
                    == old(self).worlds@[k].plants@.len()
                &&& forall|p: int| 0 <= p < final(self).worlds@[k].plants@.len() ==> {
                    &&& !(#[trigger] final(self).worlds@[k].plants@[p]).eaten
                    &&& final(self).worlds@[k].plants@[p].wf()
                }
            },
    {
        let nw = self.worlds.len();
        let ghost ws0 = self.worlds@;
        let mut w: usize = 0;
        while w < nw
            invariant
                w <= nw,
                nw == ws0.len(),
                ws0 == old(self).worlds@,
                self.sim_config == old(self).sim_config,
                self.hervor_config == old(self).hervor_config,
                self.chaser_config == old(self).chaser_config,
                self.ga == old(self).ga,
                self.age == old(self).age,
                self.generation == old(self).generation,
                self.sim_config.wf(),
                self.hervor_config.wf(),
                self.chaser_config.wf(),
                self.ga.wf(),
                forall|k: int| 0 <= k < ws0.len()
                    ==> (#[trigger] ws0[k]).wf(self.sim_config, self.hervor_config,
                        self.chaser_config),
                self.worlds@.len() == nw,
                forall|k: int| w <= k < nw ==> #[trigger] self.worlds@[k] == ws0[k],
                forall|k: int| 0 <= k < w ==> {
                    &&& (#[trigger] self.worlds@[k]).hervors@ == ws0[k].hervors@
                    &&& self.worlds@[k].chasers@ == ws0[k].chasers@
                    &&& self.worlds@[k].kill_count == ws0[k].kill_count
                    &&& self.worlds@[k].plants@.len() == ws0[k].plants@.len()
                    &&& self.worlds@[k].wf(self.sim_config, self.hervor_config,
                        self.chaser_config)
                    &&& forall|p: int| 0 <= p < self.worlds@[k].plants@.len() ==> {
                        &&& !(#[trigger] self.worlds@[k].plants@[p]).eaten
                        &&& self.worlds@[k].plants@[p].wf()
                    }
                },
            decreases nw - w,
        {
            let np = self.worlds[w].plants.len();
            let mut ps_new: Vec<Plant> = Vec::new();
            let mut p: usize = 0;
            while p < np
                invariant
                    p <= np,
                    ps_new@.len() == p,
                    forall|q: int| 0 <= q < p ==> {
                        &&& !(#[trigger] ps_new@[q]).eaten
                        &&& ps_new@[q].wf()
                    },
                decreases np - p,
            {
                ps_new.push(Plant::random(rng));
                p = p + 1;
            }
            world_set_plants(&mut self.worlds, w, ps_new);
            w = w + 1;
        }
    }

    /// One evolution pass at a generation boundary: resets the tick
    /// counter, evolves each species with a configured population, and
    /// respawns the plants.
    fn evolve(&mut self, rng: &mut rand::rngs::StdRng)
        -> (r: Result<(Statistics, Statistics), EvolveError>)
        requires
            old(self).core_wf(),
        ensures
            final(self).wf(),
            final(self).age == 0,
            final(self).generation == old(self).generation,
            final(self).sim_config == old(self).sim_config,
            final(self).hervor_config == old(self).hervor_config,
            final(self).chaser_config == old(self).chaser_config,
            r matches Ok(stats) ==> generation_outcome(old(self).worlds@,
                final(self).worlds@, stats, old(self).sim_config, old(self).hervor_config,
                old(self).chaser_config),
    {
        self.age = 0;
        let ghost ws0 = self.worlds@;
        let mut stats_hervor = Statistics::empty();
        let mut stats_chasers = Statistics::empty();
        if self.sim_config.nhervors > 0 {
            stats_hervor = match self.evolve_hervors(rng) {
                Ok(s) => s,
                Err(e) => {
                    return Err(e);
                },
            };
        }
        let ghost wsh = self.worlds@;
        proof {
            if self.sim_config.nhervors > 0 {
                assert(hervor_evolution_outcome(ws0, wsh, stats_hervor, self.sim_config,
                    self.hervor_config));
            }
        }
        if self.sim_config.nchasers > 0 {
            stats_chasers = match self.evolve_chasers(rng) {
                Ok(s) => s,
                Err(e) => {
                    return Err(e);
                },
            };
        }
        let ghost wsc = self.worlds@;
        proof {
            if self.sim_config.nchasers > 0 {
                lemma_chaser_outcome_carry(ws0, wsh, wsc, wsc, stats_chasers,
                    self.sim_config, self.chaser_config);
            }
        }
        if self.sim_config.nplants > 0 {
            self.evolve_plants(rng);
        }
        proof {
            if self.sim_config.nhervors > 0 {
                lemma_hervor_outcome_carry(ws0, wsh, self.worlds@, stats_hervor,
                    self.sim_config, self.hervor_config);
            }
            if self.sim_config.nchasers > 0 {
                lemma_chaser_outcome_carry(ws0, ws0, wsc, self.worlds@, stats_chasers,
                    self.sim_config, self.chaser_config);
            }
            if self.sim_config.nplants > 0 {
                assert(plants_fresh(self.worlds@, self.sim_config));
            }
            assert(generation_outcome(ws0, self.worlds@,
                (stats_hervor, stats_chasers), self.sim_config, self.hervor_config,
                self.chaser_config));
        }
        Ok((stats_hervor, stats_chasers))
    }
}


impl Simulation {
    /// Advances every world by one tick, in world order, then advances
    /// the tick counter.  At the generation boundary it bumps the
    /// generation counter, runs one evolution pass, and reports the two
    /// species' fitness statistics; otherwise it reports nothing.
    #[verifier::rlimit(50)]
    #[verifier::spinoff_prover]
    pub fn step(&mut self, rng: &mut rand::rngs::StdRng)
        -> (r: Result<Option<(Statistics, Statistics)>, EvolveError>)
        requires
            old(self).wf(),
            old(self).generation < u64::MAX,
        ensures
            final(self).wf(),
            final(self).sim_config == old(self).sim_config,
            final(self).hervor_config == old(self).hervor_config,
            final(self).chaser_config == old(self).chaser_config,
            r matches Ok(o) && o is None <==> old(self).age + 1
                <= old(self).sim_config.generation_length,
            r matches Ok(o) && o is None ==> {
                &&& final(self).age == old(self).age + 1
                &&& final(self).generation == old(self).generation
                &&& worlds_ticked(old(self).worlds@, final(self).worlds@, old(self).age,
                    old(self).sim_config, old(self).hervor_config, old(self).chaser_config)
            },
            !(r matches Ok(o) && o is None) ==> {
                &&& final(self).age == 0
                &&& final(self).generation == old(self).generation + 1
                &&& exists|ticked: Seq<World>| #[trigger] worlds_ticked(old(self).worlds@,
                    ticked, old(self).age, old(self).sim_config, old(self).hervor_config,
                    old(self).chaser_config)
            },
            r matches Ok(Some(stats)) ==> boundary_outcome(old(self).worlds@,
                old(self).age, final(self).worlds@, stats, old(self).sim_config,
                old(self).hervor_config, old(self).chaser_config),
    {
        let ghost ws_before = self.worlds@;
        let nw = self.worlds.len();
        let mut i: usize = 0;
        while i < nw
            invariant
                i <= nw,
                nw == ws_before.len(),
                self.sim_config == old(self).sim_config,
                self.hervor_config == old(self).hervor_config,
                self.chaser_config == old(self).chaser_config,
                self.ga == old(self).ga,
                self.age == old(self).age,
                self.generation == old(self).generation,
                self.sim_config.wf(),
                self.hervor_config.wf(),
                self.chaser_config.wf(),
                self.ga.wf(),
                self.worlds@.len() == nw,
                forall|k: int| i <= k < nw ==> #[trigger] self.worlds@[k] == ws_before[k],
                forall|k: int| 0 <= k < nw
                    ==> (#[trigger] ws_before[k]).wf(self.sim_config, self.hervor_config,
                        self.chaser_config),
                forall|k: int| 0 <= k < i ==> {
                    &&& (#[trigger] self.worlds@[k]).wf(self.sim_config,
                        self.hervor_config, self.chaser_config)
                    &&& tick_rel(ws_before[k], self.worlds@[k], old(self).age,
                        self.sim_config, self.hervor_config, self.chaser_config)
                },
            decreases nw - i,
        {
            let age = self.age;
            tick_world_at(&mut self.worlds, i, age, &self.sim_config, &self.hervor_config,
                &self.chaser_config, rng);
            i = i + 1;
        }
        proof {
            assert(worlds_ticked(ws_before, self.worlds@, old(self).age, self.sim_config,
                self.hervor_config, self.chaser_config));
        }
        self.age = self.age + 1;
        if self.age > self.sim_config.generation_length {
            let ghost mid = self.worlds@;
            self.generation = self.generation + 1;
            match self.evolve(rng) {
                Ok(stats) => {
                    proof {
                        assert(worlds_ticked(old(self).worlds@, mid, old(self).age,
                            old(self).sim_config, old(self).hervor_config,
                            old(self).chaser_config));
                        assert(generation_outcome(mid, self.worlds@, stats,
                            old(self).sim_config, old(self).hervor_config,
                            old(self).chaser_config));
                        assert(boundary_outcome(old(self).worlds@, old(self).age,
                            self.worlds@, stats, old(self).sim_config,
                            old(self).hervor_config, old(self).chaser_config));
                    }
                    Ok(Some(stats))
                },
                Err(e) => Err(e),
            }
        } else {
            Ok(None)
        }
    }

    /// Steps until the generation boundary and returns that
    /// generation's statistics.
    pub fn next_gen(&mut self, rng: &mut rand::rngs::StdRng)
        -> (r: Result<(Statistics, Statistics), EvolveError>)
        requires
            old(self).wf(),
            old(self).generation < u64::MAX,
        ensures
            final(self).wf(),
            final(self).sim_config == old(self).sim_config,
            final(self).hervor_config == old(self).hervor_config,
            final(self).chaser_config == old(self).chaser_config,
            r is Ok ==> {
                &&& final(self).generation == old(self).generation + 1
                &&& final(self).age == 0
            },
            r matches Ok(stats) ==> next_generation_outcome(old(self).worlds@,
                old(self).age, final(self).worlds@, stats, old(self).sim_config,
                old(self).hervor_config, old(self).chaser_config),
    {
        proof {
            assert(ticks_chain(old(self).worlds@, self.worlds@, old(self).age, 0,
                self.sim_config, self.hervor_config, self.chaser_config));
        }
        loop
            invariant
                self.wf(),
                self.generation == old(self).generation,
                self.generation < u64::MAX,
                self.sim_config == old(self).sim_config,
                self.hervor_config == old(self).hervor_config,
                self.chaser_config == old(self).chaser_config,
                old(self).age <= self.age,
                old(self).wf(),
                ticks_chain(old(self).worlds@, self.worlds@, old(self).age,
                    self.age - old(self).age, self.sim_config, self.hervor_config,
                    self.chaser_config),
            decreases self.sim_config.generation_length - self.age,
        {
            let ghost prev_ws = self.worlds@;
            let ghost prev_age = self.age;
            let res = self.step(rng);
            match res {
                Ok(Some(stats)) => {
                    proof {
                        assert(prev_age == self.sim_config.generation_length);
                        let mid = choose|mid: Seq<World>|
                            worlds_ticked(prev_ws, mid, prev_age, self.sim_config,
                                self.hervor_config, self.chaser_config)
                            && #[trigger] generation_outcome(mid, self.worlds@, stats,
                                self.sim_config, self.hervor_config, self.chaser_config);
                        assert((old(self).age + (prev_age - old(self).age)) as u64
                            == prev_age);
                        lemma_ticks_chain_extend(old(self).worlds@, prev_ws, mid,
                            old(self).age, prev_age - old(self).age, self.sim_config,
                            self.hervor_config, self.chaser_config);
                        assert(ticks_chain(old(self).worlds@, mid, old(self).age,
                            self.sim_config.generation_length + 1 - old(self).age,
                            self.sim_config, self.hervor_config, self.chaser_config));
                        assert(next_generation_outcome(old(self).worlds@, old(self).age,
                            self.worlds@, stats, self.sim_config, self.hervor_config,
                            self.chaser_config));
                    }
                    return Ok(stats);
                },
                Ok(None) => {
                    proof {
                        assert((old(self).age + (prev_age - old(self).age)) as u64
                            == prev_age);
                        lemma_ticks_chain_extend(old(self).worlds@, prev_ws,
                            self.worlds@, old(self).age, prev_age - old(self).age,
                            self.sim_config, self.hervor_config, self.chaser_config);
                    }
                },
                Err(e) => {
                    return Err(e);
                },
            }
        }
    }

    /// Runs a number of whole generations and returns the last one's
    /// statistics.
    pub fn multiple_gen(&mut self, amount: usize, rng: &mut rand::rngs::StdRng)
        -> (r: Result<(Statistics, Statistics), EvolveError>)
        requires
            old(self).wf(),
            amount >= 1,
            old(self).generation + amount <= u64::MAX,
        ensures
            final(self).wf(),
            final(self).sim_config == old(self).sim_config,
            final(self).hervor_config == old(self).hervor_config,
            final(self).chaser_config == old(self).chaser_config,
            r is Ok ==> final(self).generation == old(self).generation + amount,
            r matches Ok(stats) ==> {
                &&& final(self).age == 0
                &&& some_generation_outcome(final(self).worlds@, stats,
                    old(self).sim_config, old(self).hervor_config,
                    old(self).chaser_config)
            },
    {
        let mut last = match self.next_gen(rng) {
            Ok(s) => s,
            Err(e) => {
                return Err(e);
            },
        };
        proof {
            lemma_next_generation_is_some(old(self).worlds@, old(self).age, self.worlds@,
                last, self.sim_config, self.hervor_config, self.chaser_config);
        }
        let mut done: usize = 1;
        while done < amount
            invariant
                1 <= done <= amount,
                self.wf(),
                self.age == 0,
                self.generation == old(self).generation + done,
                old(self).generation + amount <= u64::MAX,
                self.sim_config == old(self).sim_config,
                self.hervor_config == old(self).hervor_config,
                self.chaser_config == old(self).chaser_config,
                some_generation_outcome(self.worlds@, last, self.sim_config,
                    self.hervor_config, self.chaser_config),
            decreases amount - done,
        {
            let ghost prev_ws = self.worlds@;
            let ghost prev_age = self.age;
            last = match self.next_gen(rng) {
                Ok(s) => s,
                Err(e) => {
                    return Err(e);
                },
            };
            proof {
                lemma_next_generation_is_some(prev_ws, prev_age, self.worlds@, last,
                    self.sim_config, self.hervor_config, self.chaser_config);
            }
            done = done + 1;
        }
        Ok(last)
    }
}


/// Why a persisted run could not be restored.
#[derive(Clone, Copy, PartialEq, Eq, Structural, Debug)]
pub enum LoadError {
    /// The weights file holds the wrong number of lines for the
    /// configuration.
    WrongLineCount,
    /// A line's length does not fit its slot's topology, or a value is
    /// out of the gene range.
    BadLine,
}

/// The persisted weight lines fit the configuration: one line per
/// agent slot in world order (hervors first, then chasers), each of
/// its slot's topology-implied length, every gene in range.
pub open spec fn load_lines_ok(weights: Seq<Vec<i64>>, sim_conf: SimulationConfig,
    hervor_conf: IndividualConfig, chaser_conf: IndividualConfig) -> bool {
    let nh = sim_conf.nhervors as int;
    let nc = sim_conf.nchasers as int;
    let stride = nh + nc;
    let wc_h = weight_count(topo_sizes(topology_spec(HervorBrain::input_size_spec(
        sim_conf, hervor_conf))));
    let wc_c = weight_count(topo_sizes(topology_spec(ChaserBrain::input_size_spec(
        sim_conf, chaser_conf))));
    &&& weights.len() == sim_conf.nworlds * stride
    &&& forall|w: int, j: int| 0 <= w < sim_conf.nworlds && 0 <= j < nh ==> {
        &&& (#[trigger] weights[w * stride + j])@.len() == wc_h
        &&& genes_bounded(weights[w * stride + j]@)
    }
    &&& forall|w: int, j: int| 0 <= w < sim_conf.nworlds && 0 <= j < nc ==> {
        &&& (#[trigger] weights[w * stride + nh + j])@.len() == wc_c
        &&& genes_bounded(weights[w * stride + nh + j]@)
    }
}

/// Validates one persisted weight line and turns it into a chromosome.
fn line_to_chromosome(line: &Vec<i64>, expected: usize) -> (r: Option<Chromosome>)
    ensures
        r is Some <==> (line@.len() == expected && genes_bounded(line@)),
        r matches Some(c) ==> c@ == line@,
{
    if line.len() != expected {
        return None;
    }
    let mut genes: Vec<i64> = Vec::new();
    let mut i: usize = 0;
    while i < line.len()
        invariant
            i <= line@.len(),
            genes@ == line@.take(i as int),
            forall|k: int| 0 <= k < i
                ==> -GENE_LIMIT <= #[trigger] line@[k] <= GENE_LIMIT,
        decreases line@.len() - i,
    {
        let g = line[i];
        if g < -GENE_LIMIT || g > GENE_LIMIT {
            proof {
                assert(!genes_bounded(line@));
            }
            return None;
        }
        genes.push(g);
        i = i + 1;
        proof {
            assert(genes@ =~= line@.take(i as int));
        }
    }
    proof {
        assert(line@.take(line@.len() as int) =~= line@);
        assert(genes_bounded(line@));
    }
    Some(Chromosome::new(genes))
}

impl Simulation {
    /// Flattens every agent's brain weights in the persisted order: for
    /// each world in turn, all its hervors' chromosomes, then all its
    /// chasers' chromosomes.  The order is positional and untagged, so
    /// only the configurations that wrote it can read it back.
    pub fn export_chromosomes(&self) -> (r: Vec<Chromosome>)
        requires
            self.core_wf(),
        ensures
            r@.len() == self.worlds@.len()
                * (self.sim_config.nhervors + self.sim_config.nchasers),
            forall|w: int, j: int|
                0 <= w < self.worlds@.len() && 0 <= j < self.sim_config.nhervors
                ==> (#[trigger] r@[w * (self.sim_config.nhervors
                    + self.sim_config.nchasers) + j])@
                    == self.worlds@[w].hervors@[j].brain.genes_view(),
            forall|w: int, j: int|
                0 <= w < self.worlds@.len() && 0 <= j < self.sim_config.nchasers
                ==> (#[trigger] r@[w * (self.sim_config.nhervors
                    + self.sim_config.nchasers) + self.sim_config.nhervors + j])@
                    == self.worlds@[w].chasers@[j].brain.genes_view(),
    {
        let nw = self.worlds.len();
        let nh = self.sim_config.nhervors;
        let nc = self.sim_config.nchasers;
        let stride = nh + nc;
        let mut out: Vec<Chromosome> = Vec::new();
        let mut w: usize = 0;
        while w < nw
            invariant
                w <= nw,
                nw == self.worlds@.len(),
                nh == self.sim_config.nhervors,
                nc == self.sim_config.nchasers,
                stride == nh + nc,
                self.core_wf(),
                out@.len() == w * stride,
                forall|w2: int, j2: int| 0 <= w2 < w && 0 <= j2 < nh
                    ==> (#[trigger] out@[w2 * stride + j2])@
                        == self.worlds@[w2].hervors@[j2].brain.genes_view(),
                forall|w2: int, j2: int| 0 <= w2 < w && 0 <= j2 < nc
                    ==> (#[trigger] out@[w2 * stride + nh + j2])@
                        == self.worlds@[w2].chasers@[j2].brain.genes_view(),
            decreases nw - w,
        {
            proof {
                assert(w * stride + stride == (w + 1) * stride
                    && (w + 1) * stride <= nw * stride) by (nonlinear_arith)
                    requires 0 <= w < nw && stride >= 0;
            }
            let mut j: usize = 0;
            while j < nh
                invariant
                    j <= nh,
                    w < nw,
                    nw == self.worlds@.len(),
                    nh == self.sim_config.nhervors,
                    nc == self.sim_config.nchasers,
                    stride == nh + nc,
                    self.core_wf(),
                    out@.len() == w * stride + j,
                    forall|w2: int, j2: int| 0 <= w2 < w && 0 <= j2 < nh
                        ==> (#[trigger] out@[w2 * stride + j2])@
                            == self.worlds@[w2].hervors@[j2].brain.genes_view(),
                    forall|w2: int, j2: int| 0 <= w2 < w && 0 <= j2 < nc
                        ==> (#[trigger] out@[w2 * stride + nh + j2])@
                            == self.worlds@[w2].chasers@[j2].brain.genes_view(),
                    forall|j2: int| 0 <= j2 < j
                        ==> (#[trigger] out@[w * stride + j2])@
                            == self.worlds@[w as int].hervors@[j2].brain.genes_view(),
                decreases nh - j,
            {
                proof {
                    assert(self.worlds@[w as int].hervors@[j as int].wf(self.sim_config,
                        self.hervor_config));
                    self.worlds@[w as int].hervors@[j as int].brain.lemma_wf_sane(
                        self.sim_config, self.hervor_config);
                }
                let ghost out_before = out@;
                out.push(self.worlds[w].hervors[j].as_chromosome());
                j = j + 1;
                proof {
                    lemma_stride_preserved(out_before, out@, w as int, stride as int,
                        nh as int, nc as int);
                }
            }
            let mut j2x: usize = 0;
            while j2x < nc
                invariant
                    j2x <= nc,
                    w < nw,
                    nw == self.worlds@.len(),
                    nh == self.sim_config.nhervors,
                    nc == self.sim_config.nchasers,
                    stride == nh + nc,
                    self.core_wf(),
                    out@.len() == w * stride + nh + j2x,
                    forall|w2: int, j2: int| 0 <= w2 < w && 0 <= j2 < nh
                        ==> (#[trigger] out@[w2 * stride + j2])@
                            == self.worlds@[w2].hervors@[j2].brain.genes_view(),
                    forall|w2: int, j2: int| 0 <= w2 < w && 0 <= j2 < nc
                        ==> (#[trigger] out@[w2 * stride + nh + j2])@
                            == self.worlds@[w2].chasers@[j2].brain.genes_view(),
                    forall|j2: int| 0 <= j2 < nh
                        ==> (#[trigger] out@[w * stride + j2])@
                            == self.worlds@[w as int].hervors@[j2].brain.genes_view(),
                    forall|j2: int| 0 <= j2 < j2x
                        ==> (#[trigger] out@[w * stride + nh + j2])@
                            == self.worlds@[w as int].chasers@[j2].brain.genes_view(),
                decreases nc - j2x,
            {
                proof {
                    assert(self.worlds@[w as int].chasers@[j2x as int].wf(self.sim_config,
                        self.chaser_config));
                    self.worlds@[w as int].chasers@[j2x as int].brain.lemma_wf_sane(
                        self.sim_config, self.chaser_config);
                }
                let ghost out_before = out@;
                out.push(self.worlds[w].chasers[j2x].as_chromosome());
                j2x = j2x + 1;
                proof {
                    lemma_stride_preserved(out_before, out@, w as int, stride as int,
                        nh as int, nc as int);
                }
            }
            w = w + 1;
            proof {
                assert(out@.len() == w * stride) by (nonlinear_arith)
                    requires out@.len() == (w - 1) * stride + stride && w >= 1;
                assert forall|w2: int, j2: int| 0 <= w2 < w && 0 <= j2 < nh
                    implies (#[trigger] out@[w2 * stride + j2])@
                        == self.worlds@[w2].hervors@[j2].brain.genes_view() by {
                    if w2 == w - 1 {
                        assert(w2 * stride + j2 == (w - 1) * stride + j2);
                    }
                }
                assert forall|w2: int, j2: int| 0 <= w2 < w && 0 <= j2 < nc
                    implies (#[trigger] out@[w2 * stride + nh + j2])@
                        == self.worlds@[w2].chasers@[j2].brain.genes_view() by {
                    if w2 == w - 1 {
                        assert(w2 * stride + nh + j2 == (w - 1) * stride + nh + j2);
                    }
                }
            }
        }
        out
    }
}

/// Pushing onto the flat export keeps every already-written slot of
/// earlier worlds in place.
proof fn lemma_stride_preserved(before: Seq<Chromosome>, after: Seq<Chromosome>, w: int,
    stride: int, nh: int, nc: int)
    requires
        after.len() == before.len() + 1,
        forall|k: int| 0 <= k < before.len() ==> #[trigger] after[k] == before[k],
        before.len() >= w * stride,
        stride == nh + nc,
        w >= 0,
        nh >= 0,
        nc >= 0,
    ensures
        forall|w2: int, j2: int| 0 <= w2 < w && 0 <= j2 < nh
            ==> #[trigger] after[w2 * stride + j2] == before[w2 * stride + j2],
        forall|w2: int, j2: int| 0 <= w2 < w && 0 <= j2 < nc
            ==> #[trigger] after[w2 * stride + nh + j2] == before[w2 * stride + nh + j2],
        forall|j2: int| 0 <= j2 < before.len() - w * stride
            ==> #[trigger] after[w * stride + j2] == before[w * stride + j2],
{
    assert forall|w2: int, j2: int| 0 <= w2 < w && 0 <= j2 < nh
        implies #[trigger] after[w2 * stride + j2] == before[w2 * stride + j2] by {
        assert((w2 + 1) * stride <= w * stride && 0 <= w2 * stride
            && w2 * stride + j2 < (w2 + 1) * stride) by (nonlinear_arith)
            requires 0 <= w2 < w && 0 <= j2 < nh && stride == nh + nc && nh >= 0
                && nc >= 0;
    }
    assert forall|w2: int, j2: int| 0 <= w2 < w && 0 <= j2 < nc
        implies #[trigger] after[w2 * stride + nh + j2] == before[w2 * stride + nh + j2]
        by {
        assert((w2 + 1) * stride <= w * stride && 0 <= w2 * stride
            && w2 * stride + nh + j2 < (w2 + 1) * stride) by (nonlinear_arith)
            requires 0 <= w2 < w && 0 <= j2 < nc && stride == nh + nc && nh >= 0
                && nc >= 0;
    }
    assert forall|j2: int| 0 <= j2 < before.len() - w * stride
        implies #[trigger] after[w * stride + j2] == before[w * stride + j2] by {
        assert(w * stride >= 0) by (nonlinear_arith)
            requires w >= 0 && stride >= 0;
        assert(0 <= w * stride + j2 < before.len());
    }
}


impl Simulation {
    /// Restores a run from persisted state: the three configurations
    /// and the weight lines, in the same positional order that
    /// `export_chromosomes` writes.  A wrong line count, a line whose
    /// length does not fit its slot's topology, or an out-of-range gene
    /// rejects the whole load and leaves the run untouched.  On success
    /// the worlds are rebuilt fresh (random poses, cleared counters)
    /// around the restored brains, the genetic algorithm is rebuilt
    /// from the restored mutation parameters, and the tick counter is
    /// preserved, capped into the restored generation length so the
    /// run invariant holds.
    pub fn load_simulation(&mut self, rng: &mut rand::rngs::StdRng,
        sim_conf: SimulationConfig, hervor_conf: IndividualConfig,
        chaser_conf: IndividualConfig, weights: &Vec<Vec<i64>>)
        -> (r: Result<(), LoadError>)
        requires
            old(self).wf(),
            sim_conf.wf(),
            hervor_conf.wf(),
            chaser_conf.wf(),
        ensures
            r is Err ==> *final(self) == *old(self),
            r is Ok <==> load_lines_ok(weights@, sim_conf, hervor_conf, chaser_conf),
            ({
                let nh = sim_conf.nhervors as int;
                let nc = sim_conf.nchasers as int;
                let stride = nh + nc;
                &&& (r is Ok ==> {
                    &&& final(self).wf()
                    &&& final(self).sim_config == sim_conf
                    &&& final(self).hervor_config == hervor_conf
                    &&& final(self).chaser_config == chaser_conf
                    &&& final(self).age == (if old(self).age <= sim_conf.generation_length {
                        old(self).age as int
                    } else {
                        sim_conf.generation_length as int
                    })
                    &&& final(self).generation == old(self).generation
                    &&& final(self).ga.mutation_method.chance
                        == sim_conf.mutation_probability
                    &&& final(self).ga.mutation_method.coeff == sim_conf.mutation_magnitude
                    &&& forall|w: int, j: int|
                        0 <= w < sim_conf.nworlds && 0 <= j < nh
                        ==> (#[trigger] final(self).worlds@[w].hervors@[j]).brain
                            .genes_view() == weights@[w * stride + j]@
                    &&& forall|w: int, j: int|
                        0 <= w < sim_conf.nworlds && 0 <= j < nc
                        ==> (#[trigger] final(self).worlds@[w].chasers@[j]).brain
                            .genes_view() == weights@[w * stride + nh + j]@
                })
            }),
    {
        let nw = sim_conf.nworlds;
        let nh = sim_conf.nhervors;
        let nc = sim_conf.nchasers;
        let stride = nh + nc;
        proof {
            assert(nw * stride <= 200_000_000) by (nonlinear_arith)
                requires 0 <= nw <= 10_000 && 0 <= stride <= 20_000;
        }
        let total = nw * stride;
        if weights.len() != total {
            proof {
                assert(!load_lines_ok(weights@, sim_conf, hervor_conf, chaser_conf));
            }
            return Err(LoadError::WrongLineCount);
        }
        let in_h = HervorBrain::input_size(&sim_conf, &hervor_conf);
        let in_c = ChaserBrain::input_size(&sim_conf, &chaser_conf);
        let exp_h = 32 * in_h + 1154;
        let exp_c = 32 * in_c + 1154;
        proof {
            lemma_brain_weight_count(in_h as int);
            lemma_brain_weight_count(in_c as int);
        }
        let ghost wc_h = weight_count(topo_sizes(topology_spec(
            HervorBrain::input_size_spec(sim_conf, hervor_conf))));
        let ghost wc_c = weight_count(topo_sizes(topology_spec(
            ChaserBrain::input_size_spec(sim_conf, chaser_conf))));
        let mut new_worlds: Vec<World> = Vec::new();
        let mut base: usize = 0;
        let mut w: usize = 0;
        while w < nw
            invariant
                base == w * stride,
                w <= nw,
                nw == sim_conf.nworlds,
                nh == sim_conf.nhervors,
                nc == sim_conf.nchasers,
                stride == nh + nc,
                total == nw * stride,
                weights@.len() == total,
                sim_conf.wf(),
                hervor_conf.wf(),
                chaser_conf.wf(),
                exp_h == wc_h,
                exp_c == wc_c,
                wc_h == weight_count(topo_sizes(topology_spec(
                    HervorBrain::input_size_spec(sim_conf, hervor_conf)))),
                wc_c == weight_count(topo_sizes(topology_spec(
                    ChaserBrain::input_size_spec(sim_conf, chaser_conf)))),
                self == old(self),
                new_worlds@.len() == w,
                forall|w2: int| 0 <= w2 < w ==> {
                    &&& (#[trigger] new_worlds@[w2]).wf(sim_conf, hervor_conf, chaser_conf)
                    &&& forall|j2: int| 0 <= j2 < nh
                        ==> (#[trigger] new_worlds@[w2].hervors@[j2]).brain.genes_view()
                            == weights@[w2 * stride + j2]@
                    &&& forall|j2: int| 0 <= j2 < nc
                        ==> (#[trigger] new_worlds@[w2].chasers@[j2]).brain.genes_view()
                            == weights@[w2 * stride + nh + j2]@
                },
                forall|w2: int, j2: int| 0 <= w2 < w && 0 <= j2 < nh ==> {
                    &&& (#[trigger] weights@[w2 * stride + j2])@.len() == wc_h
                    &&& genes_bounded(weights@[w2 * stride + j2]@)
                },
                forall|w2: int, j2: int| 0 <= w2 < w && 0 <= j2 < nc ==> {
                    &&& (#[trigger] weights@[w2 * stride + nh + j2])@.len() == wc_c
                    &&& genes_bounded(weights@[w2 * stride + nh + j2]@)
                },
            decreases nw - w,
        {
            proof {
                assert(w * stride + stride == (w + 1) * stride
                    && (w + 1) * stride <= nw * stride) by (nonlinear_arith)
                    requires 0 <= w < nw && stride >= 0;
            }
            let mut hs: Vec<Hervor> = Vec::new();
            let mut j: usize = 0;
            while j < nh
                invariant
                    base == w * stride,
                    base + stride <= total,
                    j <= nh,
                    w < nw,
                    nw == sim_conf.nworlds,
                    nh == sim_conf.nhervors,
                    nc == sim_conf.nchasers,
                    stride == nh + nc,
                    total == nw * stride,
                    weights@.len() == total,
                    sim_conf.wf(),
                    hervor_conf.wf(),
                    exp_h == wc_h,
                    wc_h == weight_count(topo_sizes(topology_spec(
                        HervorBrain::input_size_spec(sim_conf, hervor_conf)))),
                    self == old(self),
                    hs@.len() == j,
                    forall|j2: int| 0 <= j2 < j ==> {
                        &&& (#[trigger] hs@[j2]).wf(sim_conf, hervor_conf)
                        &&& hs@[j2].brain.genes_view() == weights@[w * stride + j2]@
                        &&& hs@[j2].satiation == 0
                        &&& !hs@[j2].dead
                    },
                    forall|j2: int| 0 <= j2 < j ==> {
                        &&& (#[trigger] weights@[w * stride + j2])@.len() == wc_h
                        &&& genes_bounded(weights@[w * stride + j2]@)
                    },
                decreases nh - j,
            {
                let idx = base + j;
                match line_to_chromosome(&weights[idx], exp_h) {
                    Some(c) => {
                        let h = Hervor::from_chromosome(&sim_conf, &hervor_conf, c, rng);
                        hs.push(h);
                    },
                    None => {
                        proof {
                            assert(!load_lines_ok(weights@, sim_conf, hervor_conf,
                                chaser_conf)) by {
                                if load_lines_ok(weights@, sim_conf, hervor_conf,
                                    chaser_conf) {
                                    assert((weights@[w as int * stride + j as int])@
                                        .len() == wc_h && genes_bounded(
                                        weights@[w as int * stride + j as int]@));
                                }
                            }
                        }
                        return Err(LoadError::BadLine);
                    },
                }
                j = j + 1;
            }
            let mut cs: Vec<Chaser> = Vec::new();
            let mut j2x: usize = 0;
            while j2x < nc
                invariant
                    base == w * stride,
                    base + stride <= total,
                    j2x <= nc,
                    w < nw,
                    nw == sim_conf.nworlds,
                    nh == sim_conf.nhervors,
                    nc == sim_conf.nchasers,
                    stride == nh + nc,
                    total == nw * stride,
                    weights@.len() == total,
                    sim_conf.wf(),
                    chaser_conf.wf(),
                    exp_c == wc_c,
                    wc_c == weight_count(topo_sizes(topology_spec(
                        ChaserBrain::input_size_spec(sim_conf, chaser_conf)))),
                    self == old(self),
                    cs@.len() == j2x,
                    forall|j2: int| 0 <= j2 < j2x ==> {
                        &&& (#[trigger] cs@[j2]).wf(sim_conf, chaser_conf)
                        &&& cs@[j2].brain.genes_view()
                            == weights@[w * stride + nh + j2]@
                        &&& cs@[j2].killed == 0
                    },
                    forall|j2: int| 0 <= j2 < j2x ==> {
                        &&& (#[trigger] weights@[w * stride + nh + j2])@.len() == wc_c
                        &&& genes_bounded(weights@[w * stride + nh + j2]@)
                    },
                decreases nc - j2x,
            {
                let idx = base + nh + j2x;
                match line_to_chromosome(&weights[idx], exp_c) {
                    Some(c) => {
                        let ch = Chaser::from_chromosome(&sim_conf, &chaser_conf, c, rng);
                        cs.push(ch);
                    },
                    None => {
                        proof {
                            assert(!load_lines_ok(weights@, sim_conf, hervor_conf,
                                chaser_conf)) by {
                                if load_lines_ok(weights@, sim_conf, hervor_conf,
                                    chaser_conf) {
                                    assert((weights@[w as int * stride + nh
                                        + j2x as int])@.len() == wc_c && genes_bounded(
                                        weights@[w as int * stride + nh + j2x as int]@));
                                }
                            }
                        }
                        return Err(LoadError::BadLine);
                    },
                }
                j2x = j2x + 1;
            }
            let mut ps: Vec<Plant> = Vec::new();
            let mut p: usize = 0;
            while p < sim_conf.nplants
                invariant
                    p <= sim_conf.nplants,
                    ps@.len() == p,
                    forall|q: int| 0 <= q < p
                        ==> (#[trigger] ps@[q]).wf() && !ps@[q].eaten,
                decreases sim_conf.nplants - p,
            {
                ps.push(Plant::random(rng));
                p = p + 1;
            }
            new_worlds.push(World { hervors: hs, chasers: cs, plants: ps, kill_count: 0 });
            base = base + stride;
            w = w + 1;
            proof {
                assert(base == w * stride) by (nonlinear_arith)
                    requires base == (w - 1) * stride + stride && w >= 1;
            }
        }
        proof {
            assert(load_lines_ok(weights@, sim_conf, hervor_conf, chaser_conf));
        }
        self.sim_config = sim_conf;
        self.hervor_config = hervor_conf;
        self.chaser_config = chaser_conf;
        self.worlds = new_worlds;
        self.ga = GeneticAlgorithm::new(
            RouletteWheelSelection::new(),
            UniformCrossover::new(),
            GaussianMutation::new(sim_conf.mutation_probability, sim_conf.mutation_magnitude),
        );
        if self.age > sim_conf.generation_length {
            self.age = sim_conf.generation_length;
        }
        Ok(())
    }
}


/// Population size invariance: a well-formed run holds exactly
/// `nworlds` worlds, each with exactly the configured numbers of
/// hervors, chasers and plants.  `random` establishes well-formedness
/// and `step`, `next_gen` and `multiple_gen` maintain it, so the sizes
/// hold across any number of ticks and generations.
pub proof fn lemma_population_size_invariance(sim: Simulation)
    requires
        sim.wf(),
    ensures
        sim.worlds@.len() == sim.sim_config.nworlds,
        forall|i: int| 0 <= i < sim.worlds@.len() ==> {
            &&& (#[trigger] sim.worlds@[i]).hervors@.len() == sim.sim_config.nhervors
            &&& sim.worlds@[i].chasers@.len() == sim.sim_config.nchasers
            &&& sim.worlds@[i].plants@.len() == sim.sim_config.nplants
        },
{
}

} // verus!
