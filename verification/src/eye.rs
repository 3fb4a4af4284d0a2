//! The three vision models.  All share one visibility test: a target is
//! seen only if its squared distance is within the field-of-view range
//! and the bearing towards it, taken relative to the observer's heading
//! and normalized into `(-HALF_TURN, HALF_TURN]`, lies within half the
//! field-of-view angle to either side.
//!
//! - Positional: four values per candidate agent (relative x, relative
//!   y, relative heading, a seen flag of `SCALE`), zeros when unseen;
//!   for plants, the closest seen plant's relative coordinates and the
//!   seen count.
//! - Cellular: a fixed bucket vector; each seen target adds
//!   `(range - distance) * SCALE / range` to the bucket its view offset
//!   falls into.
//! - Closest: the closest seen target's relative heading (agents only),
//!   distance and view offset, and the seen count; distance reads 0 when
//!   nothing is seen, so the count decides.

use vstd::prelude::*;
use crate::{SCALE, FULL_TURN, HALF_TURN};
use crate::geom::{
    Pos, dist_sq, dist_sq_spec, lemma_dist_sq_bounds, isqrt, sqrt_floor, lemma_sqrt_floor_is,
    bearing, bearing_spec,
    norm_offset_spec,
};
use crate::config::{IndividualConfig, Model, MAX_EYE_CELLS};
use crate::plant::Plant;
use crate::hervor::Hervor;
use crate::chaser::Chaser;

verus! {

/// Bucket count of a cellular eye built without an explicit count.
pub const DEFAULT_CELLS: usize = 9;

/// A target's pose as a vision model sees it: agents carry a heading,
/// plants read as heading 0.
#[derive(Clone, Copy, PartialEq, Eq, Structural, Debug)]
pub struct SightedPose {
    pub pos: Pos,
    pub heading: i64,
}

/// The bearing from the observer towards the target.
pub open spec fn angle_to(o: Pos, t: Pos) -> int {
    bearing_spec(t.x - o.x, t.y - o.y)
}

/// That bearing relative to the observer's heading, normalized into
/// `(-HALF_TURN, HALF_TURN]`.
pub open spec fn view_offset(o: Pos, heading: int, t: Pos) -> int {
    norm_offset_spec(angle_to(o, t) - heading)
}

/// The shared visibility test.
pub open spec fn sees(o: Pos, heading: int, fov_range: int, fov_angle: int, t: Pos) -> bool {
    &&& dist_sq_spec(o, t) <= fov_range * fov_range
    &&& -(fov_angle / 2) <= view_offset(o, heading, t) <= fov_angle / 2
}

/// The distance a vision model reports for a seen target.
pub open spec fn seen_dist(o: Pos, t: Pos) -> int {
    sqrt_floor(dist_sq_spec(o, t))
}

/// An observer's heading is valid.
pub open spec fn heading_wf(h: int) -> bool {
    0 <= h < FULL_TURN
}

/// Evaluates the visibility test once: whether the target is seen,
/// its view offset, and its reported distance.
fn gaze(o: Pos, heading: i64, fov_range: i64, fov_angle: i64, t: Pos) -> (r: (bool, i64, i64))
    requires
        o.wf(),
        t.wf(),
        heading_wf(heading as int),
        0 < fov_range <= SCALE,
        0 < fov_angle <= FULL_TURN,
    ensures
        r.0 == sees(o, heading as int, fov_range as int, fov_angle as int, t),
        r.1 == view_offset(o, heading as int, t),
        r.2 == seen_dist(o, t),
        -HALF_TURN < r.1 <= HALF_TURN,
        0 <= r.2 <= 1_500_000,
{
    let dsq: u64 = dist_sq(o, t);
    let b: i64 = bearing(t.x - o.x, t.y - o.y);
    let diff: i64 = b - heading;
    let off: i64 = if diff <= -HALF_TURN {
        diff + FULL_TURN
    } else {
        diff
    };
    let d: i64 = isqrt(dsq) as i64;
    proof {
        assert(1_500_000u64 * 1_500_000u64 >= 2_000_000_000_000) by (nonlinear_arith);
        assert(sqrt_floor(dsq as int) * sqrt_floor(dsq as int) <= dsq as int);
        if seen_dist(o, t) > 1_500_000 {
            assert(sqrt_floor(dsq as int) * sqrt_floor(dsq as int)
                > 1_500_000i64 * 1_500_000i64) by (nonlinear_arith)
                requires sqrt_floor(dsq as int) > 1_500_000i64;
        }
    }
    let half: i64 = fov_angle / 2;
    proof {
        assert((fov_range as u64) * (fov_range as u64) <= 1_000_000_000_000
            && (fov_range as u64) * (fov_range as u64) == fov_range * fov_range)
            by (nonlinear_arith)
            requires 0 < fov_range <= 1_000_000;
    }
    let seen: bool = dsq <= (fov_range as u64) * (fov_range as u64) && -half <= off
        && off <= half;
    (seen, off, d)
}

/// Every target pose valid: position on the torus, heading normalized.
pub open spec fn poses_wf(ts: Seq<SightedPose>) -> bool {
    forall|i: int| 0 <= i < ts.len()
        ==> (#[trigger] ts[i]).pos.wf() && 0 <= ts[i].heading < FULL_TURN
}

/// A distance reported for a seen target never exceeds the range.
pub proof fn lemma_seen_dist_le_range(o: Pos, t: Pos, range: int)
    requires
        dist_sq_spec(o, t) <= range * range,
        dist_sq_spec(o, t) >= 0,
        range >= 0,
        sqrt_floor(dist_sq_spec(o, t)) * sqrt_floor(dist_sq_spec(o, t))
            <= dist_sq_spec(o, t),
        sqrt_floor(dist_sq_spec(o, t)) >= 0,
    ensures
        seen_dist(o, t) <= range,
{
    let w = sqrt_floor(dist_sq_spec(o, t));
    if w > range {
        assert(w * w > range * range) by (nonlinear_arith)
            requires w > range >= 0;
    }
}

/// The fold behind the closest-target models, walking the target list
/// in order: the closest seen target's relative heading, its distance
/// (strictly closer targets win, so the earliest minimum is kept, with
/// `i64::MAX` standing for "none seen yet"), its view offset, and the
/// seen count.
pub open spec fn closest_scan(o: Pos, h: int, range: int, angle: int, ts: Seq<SightedPose>)
    -> (int, int, int, int)
    decreases ts.len(),
{
    if ts.len() == 0 {
        (0, i64::MAX as int, 0, 0)
    } else {
        let prev = closest_scan(o, h, range, angle, ts.drop_last());
        let t = ts.last();
        if sees(o, h, range, angle, t.pos) {
            if seen_dist(o, t.pos) < prev.1 {
                (t.heading - h, seen_dist(o, t.pos), view_offset(o, h, t.pos), prev.3 + 1)
            } else {
                (prev.0, prev.1, prev.2, prev.3 + 1)
            }
        } else {
            prev
        }
    }
}

/// Runs the closest-target fold.
fn closest_core(o: Pos, heading: i64, fov_range: i64, fov_angle: i64,
    ts: &Vec<SightedPose>) -> (r: (i64, i64, i64, i64))
    requires
        o.wf(),
        heading_wf(heading as int),
        0 < fov_range <= SCALE,
        0 < fov_angle <= FULL_TURN,
        poses_wf(ts@),
        ts@.len() <= 10_000,
    ensures
        (r.0 as int, r.1 as int, r.2 as int, r.3 as int)
            == closest_scan(o, heading as int, fov_range as int, fov_angle as int, ts@),
        0 <= r.3 <= ts@.len(),
{
    let mut rel: i64 = 0;
    let mut dist: i64 = i64::MAX;
    let mut off: i64 = 0;
    let mut seen: usize = 0;
    let mut i: usize = 0;
    proof {
        assert(ts@.take(0) =~= Seq::<SightedPose>::empty());
    }
    while i < ts.len()
        invariant
            i <= ts@.len(),
            o.wf(),
            heading_wf(heading as int),
            0 < fov_range <= SCALE,
            0 < fov_angle <= FULL_TURN,
            poses_wf(ts@),
            ts@.len() <= 10_000,
            seen <= i,
            (rel as int, dist as int, off as int, seen as int)
                == closest_scan(o, heading as int, fov_range as int, fov_angle as int,
                ts@.take(i as int)),
        decreases ts@.len() - i,
    {
        let t = ts[i];
        let (vis, t_off, t_dist) = gaze(o, heading, fov_range, fov_angle, t.pos);
        proof {
            assert(ts@.take(i + 1).drop_last() =~= ts@.take(i as int));
            assert(ts@.take(i + 1).last() == ts@[i as int]);
        }
        if vis {
            if t_dist < dist {
                rel = t.heading - heading;
                dist = t_dist;
                off = t_off;
            }
            seen = seen + 1;
        }
        i = i + 1;
    }
    proof {
        assert(ts@.take(ts@.len() as int) =~= ts@);
    }
    (rel, dist, off, seen as i64)
}

/// The angular bucket a view offset falls into: `cells` equal buckets
/// across the field of view, the upper edge folded into the last.
pub open spec fn bucket_of(off: int, angle: int, cells: int) -> int {
    let raw = (off + angle / 2) * cells / angle;
    if raw >= cells {
        cells - 1
    } else {
        raw
    }
}

/// The contribution of a seen target: full `SCALE` at distance zero,
/// fading linearly to zero at the edge of the range.
pub open spec fn energy_of(o: Pos, t: Pos, range: int) -> int {
    (range - seen_dist(o, t)) * SCALE / range
}

/// The fold behind the cellular model: every seen target's energy is
/// added to the bucket its view offset falls into.
pub open spec fn cellular_scan(o: Pos, h: int, range: int, angle: int, cells: int,
    ts: Seq<SightedPose>) -> Seq<int>
    decreases ts.len(),
{
    if ts.len() == 0 {
        Seq::new(cells as nat, |i: int| 0)
    } else {
        let prev = cellular_scan(o, h, range, angle, cells, ts.drop_last());
        let t = ts.last();
        if sees(o, h, range, angle, t.pos) {
            let b = bucket_of(view_offset(o, h, t.pos), angle, cells);
            prev.update(b, prev[b] + energy_of(o, t.pos, range))
        } else {
            prev
        }
    }
}

/// Buckets stay within `[0, len * SCALE]`.
proof fn lemma_cellular_bounds(o: Pos, h: int, range: int, angle: int, cells: int,
    ts: Seq<SightedPose>)
    requires
        o.wf(),
        poses_wf(ts),
        0 < range <= SCALE,
        0 < angle <= FULL_TURN,
        cells >= 1,
    ensures
        cellular_scan(o, h, range, angle, cells, ts).len() == cells,
        forall|k: int| 0 <= k < cells
            ==> 0 <= #[trigger] cellular_scan(o, h, range, angle, cells, ts)[k]
                <= ts.len() * SCALE,
    decreases ts.len(),
{
    let cur = cellular_scan(o, h, range, angle, cells, ts);
    if ts.len() == 0 {
    } else {
        assert(poses_wf(ts.drop_last())) by {
            assert(forall|i: int| 0 <= i < ts.drop_last().len()
                ==> ts.drop_last()[i] == ts[i]);
        }
        lemma_cellular_bounds(o, h, range, angle, cells, ts.drop_last());
        let prev = cellular_scan(o, h, range, angle, cells, ts.drop_last());
        let t = ts.last();
        assert((ts.len() - 1) * SCALE + SCALE == ts.len() * SCALE) by (nonlinear_arith);
        assert((ts.len() - 1) * SCALE >= 0) by (nonlinear_arith)
            requires ts.len() >= 1;
        if sees(o, h, range, angle, t.pos) {
            let d = seen_dist(o, t.pos);
            assert(d * d <= dist_sq_spec(o, t.pos) && d >= 0) by {
                lemma_dist_sq_bounds(o, t.pos);
                lemma_sqrt_is_sqrt(dist_sq_spec(o, t.pos));
            }
            lemma_seen_dist_le_range(o, t.pos, range);
            assert(0 <= (range - d) * SCALE <= SCALE * SCALE) by (nonlinear_arith)
                requires 0 <= d <= range && range <= SCALE && SCALE == 1_000_000;
            assert(0 <= energy_of(o, t.pos, range) <= SCALE) by {
                vstd::arithmetic::div_mod::lemma_div_pos_is_pos((range - d) * SCALE, range);
                vstd::arithmetic::div_mod::lemma_div_is_ordered((range - d) * SCALE,
                    range * SCALE, range);
                vstd::arithmetic::div_mod::lemma_div_multiples_vanish(SCALE as int, range);
                assert((range - d) * SCALE <= range * SCALE) by (nonlinear_arith)
                    requires 0 <= d && 0 < range;
                assert(range * SCALE == SCALE * range) by (nonlinear_arith);
            }
        }
    }
}

/// The squared-distance bracketing that defines the floored root holds
/// of `sqrt_floor` whenever its argument is a squared distance (which is
/// non-negative, so a root exists).
proof fn lemma_sqrt_is_sqrt(x: int)
    requires
        0 <= x < 4_000_000_000_000,
    ensures
        sqrt_floor(x) >= 0,
        sqrt_floor(x) * sqrt_floor(x) <= x,
        x < (sqrt_floor(x) + 1) * (sqrt_floor(x) + 1),
{
    lemma_sqrt_exists(x);
    let r = choose|r: int| 0 <= r <= x && #[trigger] (r * r) <= x && x < (r + 1) * (r + 1);
    assert(r >= 0 && r * r <= x && x < (r + 1) * (r + 1));
    lemma_sqrt_floor_is(x, r);
}

proof fn lemma_sqrt_exists(x: int)
    requires
        0 <= x,
    ensures
        exists|r: int| 0 <= r <= x && #[trigger] (r * r) <= x && x < (r + 1) * (r + 1),
    decreases x,
{
    if x == 0 {
        let z: int = 0;
        assert(z * z == 0 && (z + 1) * (z + 1) == 1) by (nonlinear_arith)
            requires z == 0;
        assert(0 <= z <= x && z * z <= x && x < (z + 1) * (z + 1));
    } else {
        lemma_sqrt_exists(x - 1);
        let r = choose|r: int| 0 <= r <= x - 1 && #[trigger] (r * r) <= x - 1
            && x - 1 < (r + 1) * (r + 1);
        if (r + 1) * (r + 1) <= x {
            assert(x < (r + 2) * (r + 2)) by (nonlinear_arith)
                requires x - 1 < (r + 1) * (r + 1) && (r + 1) * (r + 1) <= x && r >= 0;
            assert(r + 1 <= x) by (nonlinear_arith)
                requires (r + 1) * (r + 1) <= x && r >= 0;
            assert(0 <= r + 1 <= x && (r + 1) * (r + 1) <= x && x < (r + 2) * (r + 2));
        } else {
            assert(0 <= r <= x && r * r <= x && x < (r + 1) * (r + 1));
        }
    }
}

/// Runs the cellular fold.
fn cellular_core(o: Pos, heading: i64, fov_range: i64, fov_angle: i64, cells: usize,
    ts: &Vec<SightedPose>) -> (r: Vec<i64>)
    requires
        o.wf(),
        heading_wf(heading as int),
        0 < fov_range <= SCALE,
        0 < fov_angle <= FULL_TURN,
        1 <= cells <= MAX_EYE_CELLS,
        poses_wf(ts@),
        ts@.len() <= 10_000,
    ensures
        r@.len() == cells,
        r@.map_values(|v: i64| v as int)
            == cellular_scan(o, heading as int, fov_range as int, fov_angle as int,
            cells as int, ts@),
{
    let mut out: Vec<i64> = Vec::new();
    let mut k: usize = 0;
    while k < cells
        invariant
            k <= cells,
            out@.len() == k,
            forall|j: int| 0 <= j < k ==> #[trigger] out@[j] == 0,
        decreases cells - k,
    {
        out.push(0);
        k = k + 1;
    }
    proof {
        assert(out@.map_values(|v: i64| v as int) =~= cellular_scan(o, heading as int,
            fov_range as int, fov_angle as int, cells as int, ts@.take(0)));
    }
    let mut i: usize = 0;
    while i < ts.len()
        invariant
            i <= ts@.len(),
            o.wf(),
            heading_wf(heading as int),
            0 < fov_range <= SCALE,
            0 < fov_angle <= FULL_TURN,
            1 <= cells <= MAX_EYE_CELLS,
            poses_wf(ts@),
            ts@.len() <= 10_000,
            out@.len() == cells,
            out@.map_values(|v: i64| v as int)
                == cellular_scan(o, heading as int, fov_range as int, fov_angle as int,
                cells as int, ts@.take(i as int)),
        decreases ts@.len() - i,
    {
        let ghost prev = out@.map_values(|v: i64| v as int);
        proof {
            assert(ts@.take(i + 1).drop_last() =~= ts@.take(i as int));
            assert(ts@.take(i + 1).last() == ts@[i as int]);
            lemma_cellular_bounds(o, heading as int, fov_range as int, fov_angle as int,
                cells as int, ts@.take(i as int));
            assert(ts@.take(i as int).len() * SCALE <= 10_000 * SCALE) by (nonlinear_arith)
                requires 0 <= ts@.take(i as int).len() <= 10_000 && SCALE == 1_000_000;
        }
        let t = ts[i];
        let (vis, t_off, t_dist) = gaze(o, heading, fov_range, fov_angle, t.pos);
        if vis {
            proof {
                lemma_dist_sq_bounds(o, t.pos);
                lemma_sqrt_is_sqrt(dist_sq_spec(o, t.pos));
                lemma_seen_dist_le_range(o, t.pos, fov_range as int);
            }
            let half: i64 = fov_angle / 2;
            proof {
                assert(((t_off + half) as int) * (cells as int) <= 4_000_000_000_000)
                    by (nonlinear_arith)
                    requires 0 <= t_off + half <= 4_000_000 && 0 <= cells <= 1_000_000;
            }
            let raw_num: u64 = ((t_off + half) as u64) * (cells as u64);
            let raw: u64 = raw_num / (fov_angle as u64);
            let b: usize = if raw >= cells as u64 {
                cells - 1
            } else {
                raw as usize
            };
            proof {
                vstd::arithmetic::div_mod::lemma_div_pos_is_pos(raw_num as int,
                    fov_angle as int);
                assert(b == bucket_of(t_off as int, fov_angle as int, cells as int));
            }
            proof {
                assert((fov_range as int - t_dist) * SCALE <= (fov_range as int) * SCALE
                    && 0 <= (fov_range as int - t_dist) * SCALE
                    && (fov_range as int) * SCALE <= 1_000_000_000_000)
                    by (nonlinear_arith)
                    requires 0 <= t_dist <= fov_range <= 1_000_000 && SCALE == 1_000_000;
            }
            let energy_num: i64 = (fov_range - t_dist) * SCALE;
            let energy: i64 = energy_num / fov_range;
            proof {
                vstd::arithmetic::div_mod::lemma_div_pos_is_pos(energy_num as int,
                    fov_range as int);
                vstd::arithmetic::div_mod::lemma_div_is_ordered(energy_num as int,
                    (fov_range as int) * SCALE, fov_range as int);
                vstd::arithmetic::div_mod::lemma_div_multiples_vanish(SCALE as int,
                    fov_range as int);
                assert((fov_range as int) * SCALE == SCALE * (fov_range as int))
                    by (nonlinear_arith);
                assert(0 <= energy <= SCALE);
                assert(energy == energy_of(o, t.pos, fov_range as int));
            }
            let slot = &mut out[b];
            let cur: i64 = *slot;
            proof {
                assert(prev[b as int] == cur as int);
                assert(0 <= cur as int <= 10_000_000_000);
            }
            *slot = cur + energy;
            proof {
                assert(out@.map_values(|v: i64| v as int) =~= prev.update(b as int,
                    prev[b as int] + energy_of(o, t.pos, fov_range as int)));
            }
        }
        i = i + 1;
        proof {
            assert(out@.map_values(|v: i64| v as int) == cellular_scan(o, heading as int,
                fov_range as int, fov_angle as int, cells as int, ts@.take(i as int)));
        }
    }
    proof {
        assert(ts@.take(ts@.len() as int) =~= ts@);
    }
    out
}

/// The per-candidate encoding of the positional model: four values per
/// target in list order — relative x, relative y, relative heading, and
/// a seen flag of `SCALE` — all zero when the target is not seen.
pub open spec fn positional_blocks(o: Pos, h: int, range: int, angle: int,
    ts: Seq<SightedPose>) -> Seq<int>
    decreases ts.len(),
{
    if ts.len() == 0 {
        Seq::empty()
    } else {
        let prev = positional_blocks(o, h, range, angle, ts.drop_last());
        let t = ts.last();
        if sees(o, h, range, angle, t.pos) {
            prev + seq![t.pos.x - o.x, t.pos.y - o.y, t.heading - h, SCALE as int]
        } else {
            prev + seq![0, 0, 0, 0]
        }
    }
}

/// Runs the positional per-candidate encoding.
fn positional_core(o: Pos, heading: i64, fov_range: i64, fov_angle: i64,
    ts: &Vec<SightedPose>) -> (r: Vec<i64>)
    requires
        o.wf(),
        heading_wf(heading as int),
        0 < fov_range <= SCALE,
        0 < fov_angle <= FULL_TURN,
        poses_wf(ts@),
        ts@.len() <= 10_000,
    ensures
        r@.len() == 4 * ts@.len(),
        r@.map_values(|v: i64| v as int)
            == positional_blocks(o, heading as int, fov_range as int, fov_angle as int, ts@),
{
    let mut out: Vec<i64> = Vec::new();
    let mut i: usize = 0;
    proof {
        assert(ts@.take(0) =~= Seq::<SightedPose>::empty());
        assert(out@.map_values(|v: i64| v as int) =~= positional_blocks(o, heading as int,
            fov_range as int, fov_angle as int, ts@.take(0)));
    }
    while i < ts.len()
        invariant
            i <= ts@.len(),
            o.wf(),
            heading_wf(heading as int),
            0 < fov_range <= SCALE,
            0 < fov_angle <= FULL_TURN,
            poses_wf(ts@),
            out@.len() == 4 * i,
            out@.map_values(|v: i64| v as int)
                == positional_blocks(o, heading as int, fov_range as int, fov_angle as int,
                ts@.take(i as int)),
        decreases ts@.len() - i,
    {
        let t = ts[i];
        let (vis, _t_off, _t_dist) = gaze(o, heading, fov_range, fov_angle, t.pos);
        let ghost prev = out@.map_values(|v: i64| v as int);
        proof {
            assert(ts@.take(i + 1).drop_last() =~= ts@.take(i as int));
            assert(ts@.take(i + 1).last() == ts@[i as int]);
        }
        if vis {
            out.push(t.pos.x - o.x);
            out.push(t.pos.y - o.y);
            out.push(t.heading - heading);
            out.push(SCALE);
            proof {
                assert(out@.map_values(|v: i64| v as int) =~= prev + seq![
                    t.pos.x - o.x as int, t.pos.y - o.y as int, t.heading - heading as int,
                    SCALE as int]);
            }
        } else {
            out.push(0);
            out.push(0);
            out.push(0);
            out.push(0);
            proof {
                assert(out@.map_values(|v: i64| v as int) =~= prev + seq![0int, 0int, 0int,
                    0int]);
            }
        }
        i = i + 1;
    }
    proof {
        assert(ts@.take(ts@.len() as int) =~= ts@);
    }
    out
}

/// The fold behind the positional model's plant summary: the closest
/// seen plant's relative coordinates (strictly closer plants win) and
/// the seen count; `i64::MAX` stands for "none seen yet".
pub open spec fn positional_plant_scan(o: Pos, h: int, range: int, angle: int,
    ts: Seq<SightedPose>) -> (int, int, int, int)
    decreases ts.len(),
{
    if ts.len() == 0 {
        (0, 0, i64::MAX as int, 0)
    } else {
        let prev = positional_plant_scan(o, h, range, angle, ts.drop_last());
        let t = ts.last();
        if sees(o, h, range, angle, t.pos) {
            if seen_dist(o, t.pos) < prev.2 {
                (t.pos.x - o.x, t.pos.y - o.y, seen_dist(o, t.pos), prev.3 + 1)
            } else {
                (prev.0, prev.1, prev.2, prev.3 + 1)
            }
        } else {
            prev
        }
    }
}

/// Runs the positional plant summary.
fn positional_plant_core(o: Pos, heading: i64, fov_range: i64, fov_angle: i64,
    ts: &Vec<SightedPose>) -> (r: (i64, i64, i64))
    requires
        o.wf(),
        heading_wf(heading as int),
        0 < fov_range <= SCALE,
        0 < fov_angle <= FULL_TURN,
        poses_wf(ts@),
        ts@.len() <= 10_000,
    ensures
        ({
            let s = positional_plant_scan(o, heading as int, fov_range as int,
                fov_angle as int, ts@);
            (r.0 as int, r.1 as int, r.2 as int) == (s.0, s.1, s.3)
        }),
{
    let mut best_x: i64 = 0;
    let mut best_y: i64 = 0;
    let mut dist: i64 = i64::MAX;
    let mut seen: usize = 0;
    let mut i: usize = 0;
    proof {
        assert(ts@.take(0) =~= Seq::<SightedPose>::empty());
    }
    while i < ts.len()
        invariant
            i <= ts@.len(),
            o.wf(),
            heading_wf(heading as int),
            0 < fov_range <= SCALE,
            0 < fov_angle <= FULL_TURN,
            poses_wf(ts@),
            ts@.len() <= 10_000,
            seen <= i,
            (best_x as int, best_y as int, dist as int, seen as int)
                == positional_plant_scan(o, heading as int, fov_range as int,
                fov_angle as int, ts@.take(i as int)),
        decreases ts@.len() - i,
    {
        let t = ts[i];
        let (vis, _t_off, t_dist) = gaze(o, heading, fov_range, fov_angle, t.pos);
        proof {
            assert(ts@.take(i + 1).drop_last() =~= ts@.take(i as int));
            assert(ts@.take(i + 1).last() == ts@[i as int]);
        }
        if vis {
            if t_dist < dist {
                best_x = t.pos.x - o.x;
                best_y = t.pos.y - o.y;
                dist = t_dist;
            }
            seen = seen + 1;
        }
        i = i + 1;
    }
    proof {
        assert(ts@.take(ts@.len() as int) =~= ts@);
    }
    (best_x, best_y, seen as i64)
}

pub struct PositionalEye {
    pub fov_range: i64,
    pub fov_angle: i64,
}

pub struct CellularEye {
    pub fov_range: i64,
    pub fov_angle: i64,
    pub cells: usize,
}

pub struct ClosestEye {
    pub fov_range: i64,
    pub fov_angle: i64,
}

/// One agent's sensor: a closed set of interchangeable models.
pub enum Eye {
    Positional(PositionalEye),
    Cellular(CellularEye),
    Closest(ClosestEye),
}

impl PositionalEye {
    pub fn new(fov_range: i64, fov_angle: i64) -> (r: Self)
        requires
            0 < fov_range <= SCALE,
            0 < fov_angle <= FULL_TURN,
        ensures
            r.fov_range == fov_range,
            r.fov_angle == fov_angle,
    {
        PositionalEye { fov_range, fov_angle }
    }
}

impl CellularEye {
    pub fn new(fov_range: i64, fov_angle: i64) -> (r: Self)
        requires
            0 < fov_range <= SCALE,
            0 < fov_angle <= FULL_TURN,
        ensures
            r.fov_range == fov_range,
            r.fov_angle == fov_angle,
            r.cells == DEFAULT_CELLS,
    {
        CellularEye { fov_range, fov_angle, cells: DEFAULT_CELLS }
    }

    pub fn with_cells(fov_range: i64, fov_angle: i64, cells: usize) -> (r: Self)
        requires
            0 < fov_range <= SCALE,
            0 < fov_angle <= FULL_TURN,
            1 <= cells <= MAX_EYE_CELLS,
        ensures
            r.fov_range == fov_range,
            r.fov_angle == fov_angle,
            r.cells == cells,
    {
        CellularEye { fov_range, fov_angle, cells }
    }
}

impl ClosestEye {
    pub fn new(fov_range: i64, fov_angle: i64) -> (r: Self)
        requires
            0 < fov_range <= SCALE,
            0 < fov_angle <= FULL_TURN,
        ensures
            r.fov_range == fov_range,
            r.fov_angle == fov_angle,
    {
        ClosestEye { fov_range, fov_angle }
    }
}

impl Eye {
    pub open spec fn fov_range_spec(&self) -> int {
        match self {
            Eye::Positional(e) => e.fov_range as int,
            Eye::Cellular(e) => e.fov_range as int,
            Eye::Closest(e) => e.fov_range as int,
        }
    }

    pub open spec fn fov_angle_spec(&self) -> int {
        match self {
            Eye::Positional(e) => e.fov_angle as int,
            Eye::Cellular(e) => e.fov_angle as int,
            Eye::Closest(e) => e.fov_angle as int,
        }
    }

    pub open spec fn wf(&self) -> bool {
        &&& 0 < self.fov_range_spec() <= SCALE
        &&& 0 < self.fov_angle_spec() <= FULL_TURN
        &&& match self {
            Eye::Cellular(e) => 1 <= e.cells <= MAX_EYE_CELLS,
            _ => true,
        }
    }

    /// The eye an agent of this configuration carries.
    pub open spec fn matches_config(&self, conf: IndividualConfig) -> bool {
        &&& self.fov_range_spec() == conf.fov_range
        &&& self.fov_angle_spec() == conf.fov_angle
        &&& match conf.training_model {
            Model::POSITIONAL => self is Positional,
            Model::CELLULAR => self is Cellular && self->Cellular_0.cells == conf.eye_cells,
            Model::CLOSEST => self is Closest,
        }
    }

    pub fn from_config(conf: &IndividualConfig) -> (r: Eye)
        requires
            conf.wf(),
        ensures
            r.matches_config(*conf),
            r.wf(),
    {
        match conf.training_model {
            Model::POSITIONAL => Eye::Positional(PositionalEye::new(conf.fov_range,
                conf.fov_angle)),
            Model::CELLULAR => Eye::Cellular(CellularEye::with_cells(conf.fov_range,
                conf.fov_angle, conf.eye_cells)),
            Model::CLOSEST => Eye::Closest(ClosestEye::new(conf.fov_range, conf.fov_angle)),
        }
    }
}

/// The poses a vision model reads off a plant list.
pub open spec fn plant_poses(s: Seq<Plant>) -> Seq<SightedPose> {
    s.map_values(|p: Plant| SightedPose { pos: p.position, heading: 0 })
}

/// The poses a vision model reads off a hervor list.
pub open spec fn hervor_poses(s: Seq<Hervor>) -> Seq<SightedPose> {
    s.map_values(|h: Hervor| SightedPose { pos: h.position, heading: h.heading })
}

/// The poses a vision model reads off a chaser list.
pub open spec fn chaser_poses(s: Seq<Chaser>) -> Seq<SightedPose> {
    s.map_values(|c: Chaser| SightedPose { pos: c.position, heading: c.heading })
}

fn plant_pose_vec(plants: &Vec<Plant>) -> (r: Vec<SightedPose>)
    ensures
        r@ == plant_poses(plants@),
{
    let mut out: Vec<SightedPose> = Vec::new();
    let mut i: usize = 0;
    while i < plants.len()
        invariant
            i <= plants@.len(),
            out@ == plant_poses(plants@.take(i as int)),
        decreases plants@.len() - i,
    {
        out.push(SightedPose { pos: plants[i].position, heading: 0 });
        i = i + 1;
        proof {
            assert(out@ =~= plant_poses(plants@.take(i as int)));
        }
    }
    proof {
        assert(plants@.take(plants@.len() as int) =~= plants@);
    }
    out
}

fn hervor_pose_vec(hervors: &Vec<Hervor>) -> (r: Vec<SightedPose>)
    ensures
        r@ == hervor_poses(hervors@),
{
    let mut out: Vec<SightedPose> = Vec::new();
    let mut i: usize = 0;
    while i < hervors.len()
        invariant
            i <= hervors@.len(),
            out@ == hervor_poses(hervors@.take(i as int)),
        decreases hervors@.len() - i,
    {
        out.push(SightedPose { pos: hervors[i].position, heading: hervors[i].heading });
        i = i + 1;
        proof {
            assert(out@ =~= hervor_poses(hervors@.take(i as int)));
        }
    }
    proof {
        assert(hervors@.take(hervors@.len() as int) =~= hervors@);
    }
    out
}

fn chaser_pose_vec(chasers: &Vec<Chaser>) -> (r: Vec<SightedPose>)
    ensures
        r@ == chaser_poses(chasers@),
{
    let mut out: Vec<SightedPose> = Vec::new();
    let mut i: usize = 0;
    while i < chasers.len()
        invariant
            i <= chasers@.len(),
            out@ == chaser_poses(chasers@.take(i as int)),
        decreases chasers@.len() - i,
    {
        out.push(SightedPose { pos: chasers[i].position, heading: chasers[i].heading });
        i = i + 1;
        proof {
            assert(out@ =~= chaser_poses(chasers@.take(i as int)));
        }
    }
    proof {
        assert(chasers@.take(chasers@.len() as int) =~= chasers@);
    }
    out
}

impl Eye {
    /// Output width on a list of `n` candidate agents.
    pub open spec fn agents_out_len(&self, n: int) -> int {
        match self {
            Eye::Positional(_) => 4 * n,
            Eye::Cellular(e) => e.cells as int,
            Eye::Closest(_) => 4,
        }
    }

    /// Output width on a list of plants.
    pub open spec fn plants_out_len(&self) -> int {
        match self {
            Eye::Positional(_) => 3,
            Eye::Cellular(e) => e.cells as int,
            Eye::Closest(_) => 3,
        }
    }

    /// What the model emits for a list of candidate agent poses.
    pub open spec fn agents_vision_spec(&self, o: Pos, h: int, ts: Seq<SightedPose>)
        -> Seq<int> {
        let range = self.fov_range_spec();
        let angle = self.fov_angle_spec();
        match self {
            Eye::Positional(_) => positional_blocks(o, h, range, angle, ts),
            Eye::Cellular(e) => cellular_scan(o, h, range, angle, e.cells as int, ts),
            Eye::Closest(_) => {
                let s = closest_scan(o, h, range, angle, ts);
                seq![s.0, if s.3 == 0 { 0 } else { s.1 }, s.2, s.3]
            },
        }
    }

    /// What the model emits for a list of plant poses.
    pub open spec fn plants_vision_spec(&self, o: Pos, h: int, ts: Seq<SightedPose>)
        -> Seq<int> {
        let range = self.fov_range_spec();
        let angle = self.fov_angle_spec();
        match self {
            Eye::Positional(_) => {
                let s = positional_plant_scan(o, h, range, angle, ts);
                seq![s.0, s.1, s.3]
            },
            Eye::Cellular(e) => cellular_scan(o, h, range, angle, e.cells as int, ts),
            Eye::Closest(_) => {
                let s = closest_scan(o, h, range, angle, ts);
                seq![if s.3 == 0 { 0 } else { s.1 }, s.2, s.3]
            },
        }
    }

    /// Runs the model on candidate agent poses.
    fn see_agents(&self, o: Pos, heading: i64, ts: &Vec<SightedPose>) -> (r: Vec<i64>)
        requires
            self.wf(),
            o.wf(),
            heading_wf(heading as int),
            poses_wf(ts@),
            ts@.len() <= 10_000,
        ensures
            r@.len() == self.agents_out_len(ts@.len() as int),
            r@.map_values(|v: i64| v as int)
                == self.agents_vision_spec(o, heading as int, ts@),
    {
        match self {
            Eye::Positional(e) => positional_core(o, heading, e.fov_range, e.fov_angle, ts),
            Eye::Cellular(e) => cellular_core(o, heading, e.fov_range, e.fov_angle, e.cells,
                ts),
            Eye::Closest(e) => {
                let (rel, dist, off, seen) = closest_core(o, heading, e.fov_range,
                    e.fov_angle, ts);
                let d: i64 = if seen == 0 { 0 } else { dist };
                let mut out: Vec<i64> = Vec::new();
                out.push(rel);
                out.push(d);
                out.push(off);
                out.push(seen);
                proof {
                    assert(out@.map_values(|v: i64| v as int)
                        =~= self.agents_vision_spec(o, heading as int, ts@));
                }
                out
            },
        }
    }

    /// Runs the model on plant poses.
    fn see_plants_inner(&self, o: Pos, heading: i64, ts: &Vec<SightedPose>) -> (r: Vec<i64>)
        requires
            self.wf(),
            o.wf(),
            heading_wf(heading as int),
            poses_wf(ts@),
            ts@.len() <= 10_000,
        ensures
            r@.len() == self.plants_out_len(),
            r@.map_values(|v: i64| v as int)
                == self.plants_vision_spec(o, heading as int, ts@),
    {
        match self {
            Eye::Positional(e) => {
                let (bx, by, seen) = positional_plant_core(o, heading, e.fov_range,
                    e.fov_angle, ts);
                let mut out: Vec<i64> = Vec::new();
                out.push(bx);
                out.push(by);
                out.push(seen);
                proof {
                    assert(out@.map_values(|v: i64| v as int)
                        =~= self.plants_vision_spec(o, heading as int, ts@));
                }
                out
            },
            Eye::Cellular(e) => cellular_core(o, heading, e.fov_range, e.fov_angle, e.cells,
                ts),
            Eye::Closest(e) => {
                let (_rel, dist, off, seen) = closest_core(o, heading, e.fov_range,
                    e.fov_angle, ts);
                let d: i64 = if seen == 0 { 0 } else { dist };
                let mut out: Vec<i64> = Vec::new();
                out.push(d);
                out.push(off);
                out.push(seen);
                proof {
                    assert(out@.map_values(|v: i64| v as int)
                        =~= self.plants_vision_spec(o, heading as int, ts@));
                }
                out
            },
        }
    }

    /// The vision vector for the plants of a world.
    pub fn process_vision_see_plants(&self, position: &Pos, heading: i64,
        plants: &Vec<Plant>) -> (r: Vec<i64>)
        requires
            self.wf(),
            position.wf(),
            heading_wf(heading as int),
            forall|i: int| 0 <= i < plants@.len() ==> (#[trigger] plants@[i]).wf(),
            plants@.len() <= 10_000,
        ensures
            r@.len() == self.plants_out_len(),
            r@.map_values(|v: i64| v as int)
                == self.plants_vision_spec(*position, heading as int, plant_poses(plants@)),
    {
        let ts = plant_pose_vec(plants);
        proof {
            assert(forall|i: int| 0 <= i < ts@.len()
                ==> (#[trigger] ts@[i]) == plant_poses(plants@)[i]);
        }
        self.see_plants_inner(*position, heading, &ts)
    }

    /// The vision vector for the hervors of a world.
    pub fn process_vision_see_hervors(&self, position: &Pos, heading: i64,
        hervors: &Vec<Hervor>) -> (r: Vec<i64>)
        requires
            self.wf(),
            position.wf(),
            heading_wf(heading as int),
            forall|i: int| 0 <= i < hervors@.len() ==> (#[trigger] hervors@[i]).position.wf()
                && heading_wf(hervors@[i].heading as int),
            hervors@.len() <= 10_000,
        ensures
            r@.len() == self.agents_out_len(hervors@.len() as int),
            r@.map_values(|v: i64| v as int)
                == self.agents_vision_spec(*position, heading as int, hervor_poses(hervors@)),
    {
        let ts = hervor_pose_vec(hervors);
        proof {
            assert(forall|i: int| 0 <= i < ts@.len()
                ==> (#[trigger] ts@[i]) == hervor_poses(hervors@)[i]);
        }
        self.see_agents(*position, heading, &ts)
    }

    /// The vision vector for the chasers of a world.
    pub fn process_vision_see_chasers(&self, position: &Pos, heading: i64,
        chasers: &Vec<Chaser>) -> (r: Vec<i64>)
        requires
            self.wf(),
            position.wf(),
            heading_wf(heading as int),
            forall|i: int| 0 <= i < chasers@.len() ==> (#[trigger] chasers@[i]).position.wf()
                && heading_wf(chasers@[i].heading as int),
            chasers@.len() <= 10_000,
        ensures
            r@.len() == self.agents_out_len(chasers@.len() as int),
            r@.map_values(|v: i64| v as int)
                == self.agents_vision_spec(*position, heading as int, chaser_poses(chasers@)),
    {
        let ts = chaser_pose_vec(chasers);
        proof {
            assert(forall|i: int| 0 <= i < ts@.len()
                ==> (#[trigger] ts@[i]) == chaser_poses(chasers@)[i]);
        }
        self.see_agents(*position, heading, &ts)
    }
}

} // verus!
