//! Fixed-point geometry on the unit torus: wrapping, distances, and the
//! piecewise-linear angle measure used by the vision models.
//!
//! Angles are measured in units of `FULL_TURN` per revolution, increasing
//! clockwise from the positive-y axis: heading 0 points towards +y,
//! `QUARTER_TURN` towards +x, `HALF_TURN` towards -y.  The bearing of a
//! displacement is an octant-exact piecewise-linear measure (linear in
//! the ratio of the two coordinates within each octant); it coincides
//! with the true angle on the four axes and the four diagonals, and it is
//! the exact inverse of the direction field `dir_of`.

use vstd::prelude::*;
use vstd::math::abs;
use vstd::arithmetic::div_mod::{lemma_div_is_ordered, lemma_div_multiples_vanish, lemma_div_pos_is_pos};
use crate::{SCALE, FULL_TURN, HALF_TURN, QUARTER_TURN};

verus! {

/// A position on the unit torus; both coordinates lie in `[0, SCALE)`.
#[derive(Clone, Copy, PartialEq, Eq, Structural, Debug)]
pub struct Pos {
    pub x: i64,
    pub y: i64,
}

impl Pos {
    /// Both coordinates inside the unit square.
    pub open spec fn wf(self) -> bool {
        0 <= self.x < SCALE && 0 <= self.y < SCALE
    }
}

/// Where a coordinate that moved at most one world-width off either
/// edge comes back onto the torus.
pub open spec fn wrap_spec(v: int) -> int {
    if v < 0 {
        v + SCALE
    } else if v >= SCALE {
        v - SCALE
    } else {
        v
    }
}

/// Wraps a coordinate that moved at most one world-width off either edge
/// back into `[0, SCALE)`; the result is congruent to the input modulo
/// `SCALE`.
pub fn wrap_unit(v: i64) -> (r: i64)
    requires
        -SCALE <= v < 2 * SCALE,
    ensures
        r == wrap_spec(v as int),
        0 <= r < SCALE,
        r == v || r == v - SCALE || r == v + SCALE,
{
    if v < 0 {
        v + SCALE
    } else if v >= SCALE {
        v - SCALE
    } else {
        v
    }
}

/// Squared Euclidean distance between two positions, in squared `SCALE`
/// units (no torus shortcut: distances are measured inside the square,
/// exactly as the step pipeline does).
pub open spec fn dist_sq_spec(a: Pos, b: Pos) -> int {
    (a.x - b.x) * (a.x - b.x) + (a.y - b.y) * (a.y - b.y)
}

pub fn dist_sq(a: Pos, b: Pos) -> (r: u64)
    requires
        a.wf(),
        b.wf(),
    ensures
        r == dist_sq_spec(a, b),
        r < 2_000_000_000_000,
{
    let dx: i64 = a.x - b.x;
    let dy: i64 = a.y - b.y;
    proof {
        assert(dx * dx < 1_000_000_000_000 && dx * dx >= 0) by (nonlinear_arith)
            requires -1_000_000 < dx < 1_000_000;
        assert(dy * dy < 1_000_000_000_000 && dy * dy >= 0) by (nonlinear_arith)
            requires -1_000_000 < dy < 1_000_000;
    }
    (dx * dx + dy * dy) as u64
}

/// Both coordinates on the torus keep the squared distance small.
pub proof fn lemma_dist_sq_bounds(a: Pos, b: Pos)
    requires
        a.wf(),
        b.wf(),
    ensures
        0 <= dist_sq_spec(a, b) < 2_000_000_000_000,
{
    assert(0 <= (a.x - b.x) * (a.x - b.x) < 1_000_000_000_000) by (nonlinear_arith)
        requires -1_000_000 < a.x - b.x < 1_000_000;
    assert(0 <= (a.y - b.y) * (a.y - b.y) < 1_000_000_000_000) by (nonlinear_arith)
        requires -1_000_000 < a.y - b.y < 1_000_000;
}

/// The floored square root of a non-negative value, as a spec: the one
/// non-negative `r` with `r * r <= x < (r + 1) * (r + 1)`.
pub open spec fn sqrt_floor(x: int) -> int {
    choose|r: int| r >= 0 && #[trigger] (r * r) <= x && x < (r + 1) * (r + 1)
}

/// The floored square root is unique.
pub proof fn lemma_sqrt_floor_is(x: int, r: int)
    requires
        r >= 0,
        r * r <= x,
        x < (r + 1) * (r + 1),
    ensures
        sqrt_floor(x) == r,
{
    let w = sqrt_floor(x);
    assert(w >= 0 && w * w <= x && x < (w + 1) * (w + 1));
    if w < r {
        assert((w + 1) * (w + 1) <= r * r) by (nonlinear_arith)
            requires 0 <= w < r;
    }
    if r < w {
        assert((r + 1) * (r + 1) <= w * w) by (nonlinear_arith)
            requires 0 <= r < w;
    }
}

/// Integer square root: the greatest `r` with `r * r <= x`.
pub fn isqrt(x: u64) -> (r: u64)
    requires
        x < 4_000_000_000_000,
    ensures
        r * r <= x < (r + 1) * (r + 1),
        r <= 2_000_000,
        r == sqrt_floor(x as int),
{
    let mut lo: u64 = 0;
    let mut hi: u64 = 2_000_001;
    proof {
        assert(2_000_001u64 * 2_000_001u64 > 4_000_000_000_000) by (nonlinear_arith);
    }
    while lo + 1 < hi
        invariant
            lo < hi <= 2_000_001,
            lo * lo <= x,
            x < hi * hi,
        decreases hi - lo,
    {
        let mid: u64 = lo + (hi - lo) / 2;
        assert(lo < mid < hi);
        proof {
            assert(mid * mid <= 2_000_001u64 * 2_000_001u64) by (nonlinear_arith)
                requires 0 <= mid <= 2_000_001u64;
        }
        if mid * mid <= x {
            lo = mid;
        } else {
            hi = mid;
        }
    }
    proof {
        lemma_sqrt_floor_is(x as int, lo as int);
    }
    lo
}

/// Normalizes an angle difference (of two angles each in `(-FULL_TURN,
/// FULL_TURN)`) into the signed range `(-HALF_TURN, HALF_TURN]`.
pub open spec fn norm_offset_spec(a: int) -> int {
    if a > HALF_TURN {
        a - FULL_TURN
    } else if a <= -HALF_TURN {
        a + FULL_TURN
    } else {
        a
    }
}

pub fn norm_offset(a: i64) -> (r: i64)
    requires
        -FULL_TURN < a < FULL_TURN,
    ensures
        r == norm_offset_spec(a as int),
        -HALF_TURN < r <= HALF_TURN,
{
    if a > HALF_TURN {
        a - FULL_TURN
    } else if a <= -HALF_TURN {
        a + FULL_TURN
    } else {
        a
    }
}

/// Where a heading that was moved by at most one full turn comes back
/// into `[0, FULL_TURN)`.
pub open spec fn norm_heading_spec(a: int) -> int {
    if a < 0 {
        a + FULL_TURN
    } else if a >= FULL_TURN {
        a - FULL_TURN
    } else {
        a
    }
}

/// Normalizes a heading that was moved by at most one full turn back into
/// `[0, FULL_TURN)`.
pub fn norm_heading(a: i64) -> (r: i64)
    requires
        -FULL_TURN <= a < 2 * FULL_TURN,
    ensures
        r == norm_heading_spec(a as int),
        0 <= r < FULL_TURN,
        r == a || r == a - FULL_TURN || r == a + FULL_TURN,
{
    if a < 0 {
        a + FULL_TURN
    } else if a >= FULL_TURN {
        a - FULL_TURN
    } else {
        a
    }
}

/// The raw (unsigned, `[0, FULL_TURN)`) bearing of the displacement
/// `(dx, dy)`: piecewise linear in the coordinate ratio within each
/// octant, 0 towards +y, `QUARTER_TURN` towards +x.
pub open spec fn bearing_raw_spec(dx: int, dy: int) -> int {
    let d = abs(dx) + abs(dy) as int;
    if d == 0 {
        0
    } else if dx >= 0 && dy >= 0 {
        (QUARTER_TURN as int) * dx / d
    } else if dx >= 0 {
        QUARTER_TURN + (QUARTER_TURN as int) * (-dy) / d
    } else if dy <= 0 {
        HALF_TURN + (QUARTER_TURN as int) * (-dx) / d
    } else {
        HALF_TURN + QUARTER_TURN + (QUARTER_TURN as int) * dy / d
    }
}

/// The signed bearing, normalized into `(-HALF_TURN, HALF_TURN]`.
pub open spec fn bearing_spec(dx: int, dy: int) -> int {
    norm_offset_spec(bearing_raw_spec(dx, dy))
}

proof fn lemma_scaled_ratio_bounds(a: int, d: int)
    requires
        0 <= a <= d,
        0 < d,
    ensures
        0 <= (QUARTER_TURN as int) * a / d <= QUARTER_TURN,
        a < d ==> (QUARTER_TURN as int) * a / d < QUARTER_TURN,
{
    lemma_div_pos_is_pos((QUARTER_TURN as int) * a, d);
    lemma_div_is_ordered((QUARTER_TURN as int) * a, (QUARTER_TURN as int) * d, d);
    lemma_div_multiples_vanish(QUARTER_TURN as int, d);
    assert((QUARTER_TURN as int) * a <= (QUARTER_TURN as int) * d) by (nonlinear_arith)
        requires 0 <= a <= d;
    if a < d {
        // QUARTER_TURN * a <= QUARTER_TURN * d - QUARTER_TURN, and the
        // quotient of the latter is QUARTER_TURN - 1 at most.
        assert((QUARTER_TURN as int) * a <= (QUARTER_TURN as int) * (d - 1)) by (nonlinear_arith)
            requires 0 <= a <= d - 1;
        lemma_div_is_ordered((QUARTER_TURN as int) * a, (QUARTER_TURN as int) * (d - 1), d);
        lemma_div_multiples_vanish(QUARTER_TURN as int - 1, d);
        assert((QUARTER_TURN as int) * (d - 1) <= (QUARTER_TURN as int - 1) * d + (d - 1)) by (nonlinear_arith);
        lemma_div_is_ordered((QUARTER_TURN as int) * (d - 1), (QUARTER_TURN as int - 1) * d + (d - 1), d);
        assert(((QUARTER_TURN as int - 1) * d + (d - 1)) / d == QUARTER_TURN as int - 1) by {
            vstd::arithmetic::div_mod::lemma_div_multiples_vanish_fancy(
                QUARTER_TURN as int - 1, d - 1, d);
        }
    }
}

/// The raw bearing always lies in `[0, FULL_TURN)`.
pub proof fn lemma_bearing_raw_range(dx: int, dy: int)
    ensures
        0 <= bearing_raw_spec(dx, dy) < FULL_TURN,
{
    let d = abs(dx) + abs(dy) as int;
    if d != 0 {
        if dx >= 0 && dy >= 0 {
            lemma_scaled_ratio_bounds(dx, d);
        } else if dx >= 0 {
            lemma_scaled_ratio_bounds(-dy, d);
        } else if dy <= 0 {
            lemma_scaled_ratio_bounds(-dx, d);
        } else {
            lemma_scaled_ratio_bounds(dy, d);
            assert(dy < d);
        }
    }
}

/// Computes the signed bearing of a displacement whose coordinates are
/// below one world-width in magnitude.
pub fn bearing(dx: i64, dy: i64) -> (r: i64)
    requires
        -SCALE <= dx <= SCALE,
        -SCALE <= dy <= SCALE,
    ensures
        r == bearing_spec(dx as int, dy as int),
        -HALF_TURN < r <= HALF_TURN,
        dx == 0 && dy > 0 ==> r == 0,
        dx > 0 && dy == 0 ==> r == QUARTER_TURN,
        dx == 0 && dy < 0 ==> r == HALF_TURN,
        dx < 0 && dy == 0 ==> r == -QUARTER_TURN,
{
    let adx: i64 = if dx < 0 { -dx } else { dx };
    let ady: i64 = if dy < 0 { -dy } else { dy };
    let d: i64 = adx + ady;
    let raw: i64;
    if d == 0 {
        raw = 0;
    } else if dx >= 0 && dy >= 0 {
        proof { lemma_scaled_ratio_bounds(dx as int, d as int); }
        raw = ((QUARTER_TURN as u64 * dx as u64) / d as u64) as i64;
    } else if dx >= 0 {
        proof { lemma_scaled_ratio_bounds(-dy as int, d as int); }
        raw = QUARTER_TURN + ((QUARTER_TURN as u64 * (-dy) as u64) / d as u64) as i64;
    } else if dy <= 0 {
        proof { lemma_scaled_ratio_bounds(-dx as int, d as int); }
        raw = HALF_TURN + ((QUARTER_TURN as u64 * (-dx) as u64) / d as u64) as i64;
    } else {
        proof {
            lemma_scaled_ratio_bounds(dy as int, d as int);
            assert(dy < d);
        }
        raw = HALF_TURN + QUARTER_TURN + ((QUARTER_TURN as u64 * dy as u64) / d as u64) as i64;
    }
    proof {
        lemma_bearing_raw_range(dx as int, dy as int);
        if d != 0 && dx == 0 && dy > 0 {
            vstd::arithmetic::div_mod::lemma_div_of0(d as int);
            assert(bearing_raw_spec(dx as int, dy as int) == (QUARTER_TURN as int) * 0 / (d as int));
        }
        if dx > 0 && dy == 0 {
            lemma_div_multiples_vanish(QUARTER_TURN as int, d as int);
        }
        if dx == 0 && dy < 0 {
            lemma_div_multiples_vanish(QUARTER_TURN as int, d as int);
        }
        if dx < 0 && dy == 0 {
            lemma_div_multiples_vanish(QUARTER_TURN as int, d as int);
        }
    }
    norm_offset(raw)
}

/// The x component of the unit direction for heading `theta`: the exact
/// piecewise-linear inverse of the bearing measure, normalized so that
/// `|dir_x| + |dir_y| == SCALE`.
pub open spec fn dir_x_spec(theta: int) -> int {
    let q = theta / (QUARTER_TURN as int);
    let r = theta % (QUARTER_TURN as int);
    if q == 0 {
        r
    } else if q == 1 {
        QUARTER_TURN - r
    } else if q == 2 {
        -r
    } else {
        -(QUARTER_TURN - r)
    }
}

/// The y component of the unit direction for heading `theta`.
pub open spec fn dir_y_spec(theta: int) -> int {
    let q = theta / (QUARTER_TURN as int);
    let r = theta % (QUARTER_TURN as int);
    if q == 0 {
        QUARTER_TURN - r
    } else if q == 1 {
        -r
    } else if q == 2 {
        -(QUARTER_TURN - r)
    } else {
        r
    }
}

/// Computes the L1-unit direction vector of a heading.
pub fn dir_of(theta: i64) -> (r: (i64, i64))
    requires
        0 <= theta < FULL_TURN,
    ensures
        r.0 == dir_x_spec(theta as int),
        r.1 == dir_y_spec(theta as int),
        -SCALE <= r.0 <= SCALE,
        -SCALE <= r.1 <= SCALE,
        abs(r.0 as int) + abs(r.1 as int) == SCALE,
        theta == 0 ==> r == (0i64, SCALE as i64),
{
    let q: i64 = if theta < QUARTER_TURN {
        0
    } else if theta < HALF_TURN {
        1
    } else if theta < HALF_TURN + QUARTER_TURN {
        2
    } else {
        3
    };
    let rem: i64 = theta - q * QUARTER_TURN;
    proof {
        vstd::arithmetic::div_mod::lemma_fundamental_div_mod_converse_div(
            theta as int, QUARTER_TURN as int, q as int, rem as int);
        vstd::arithmetic::div_mod::lemma_fundamental_div_mod_converse_mod(
            theta as int, QUARTER_TURN as int, q as int, rem as int);
    }
    if q == 0 {
        (rem, QUARTER_TURN - rem)
    } else if q == 1 {
        (QUARTER_TURN - rem, -rem)
    } else if q == 2 {
        (-rem, -(QUARTER_TURN - rem))
    } else {
        (-(QUARTER_TURN - rem), rem)
    }
}


/// A quarter turn of numerator cancels against a denominator of one
/// quarter turn.
proof fn lemma_quarter_ratio(a: int)
    requires
        0 <= a,
    ensures
        (QUARTER_TURN as int) * a / (QUARTER_TURN as int) == a,
{
    lemma_div_multiples_vanish(a, QUARTER_TURN as int);
    assert((QUARTER_TURN as int) * a == a * (QUARTER_TURN as int)) by (nonlinear_arith);
}

/// The bearing measure is the exact inverse of the direction field:
/// reading the bearing of a heading's direction vector recovers the
/// heading (as a signed angle).
pub proof fn lemma_bearing_of_dir(theta: int)
    requires
        0 <= theta < FULL_TURN,
    ensures
        bearing_spec(dir_x_spec(theta), dir_y_spec(theta)) == norm_offset_spec(theta),
{
    let qt = QUARTER_TURN as int;
    let q = theta / qt;
    let r = theta % qt;
    vstd::arithmetic::div_mod::lemma_fundamental_div_mod(theta, qt);
    vstd::arithmetic::div_mod::lemma_mod_division_less_than_divisor(theta, qt);
    lemma_div_pos_is_pos(theta, qt);
    vstd::arithmetic::div_mod::lemma_div_multiples_vanish_fancy(3, qt - 1, qt);
    lemma_div_is_ordered(theta, 4 * qt - 1, qt);
    assert(0 <= r < qt && 0 <= q <= 3 && theta == q * qt + r);
    let dx = dir_x_spec(theta);
    let dy = dir_y_spec(theta);
    if q == 0 {
        assert(dx == r && dy == qt - r);
        assert(abs(dx) + abs(dy) as int == qt);
        lemma_quarter_ratio(r);
        assert(bearing_raw_spec(dx, dy) == r);
    } else if q == 1 {
        assert(dx == qt - r && dy == -r);
        assert(abs(dx) + abs(dy) as int == qt);
        if r == 0 {
            lemma_quarter_ratio(qt);
            assert(bearing_raw_spec(dx, dy) == qt);
        } else {
            lemma_quarter_ratio(r);
            assert(bearing_raw_spec(dx, dy) == qt + r);
        }
    } else if q == 2 {
        assert(dx == -r && dy == -(qt - r));
        assert(abs(dx) + abs(dy) as int == qt);
        if r == 0 {
            lemma_quarter_ratio(qt);
            assert(bearing_raw_spec(dx, dy) == 2 * qt);
        } else {
            lemma_quarter_ratio(r);
            assert(bearing_raw_spec(dx, dy) == 2 * qt + r);
        }
    } else {
        assert(dx == -(qt - r) && dy == r);
        assert(abs(dx) + abs(dy) as int == qt);
        if r == 0 {
            lemma_quarter_ratio(qt);
            assert(bearing_raw_spec(dx, dy) == 3 * qt);
        } else {
            lemma_quarter_ratio(r);
            assert(bearing_raw_spec(dx, dy) == 3 * qt + r);
        }
    }
}

} // verus!
