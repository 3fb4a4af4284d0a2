//! Fixed-point geometry: torus wrapping, bearings, square roots.

use hervor_sim::geom::{Pos, wrap_unit, bearing, dir_of, dist_sq, isqrt, norm_offset};
use hervor_sim::{SCALE, QUARTER_TURN, HALF_TURN};

#[test]
fn torus_wrap_crossing_the_upper_edge() {
    // A move that crosses 1.0 re-enters from the opposite edge, inside
    // [0, SCALE), displaced by exactly one world width.
    assert_eq!(wrap_unit(SCALE + 50_000), 50_000);
    assert_eq!(wrap_unit(2 * SCALE - 1), SCALE - 1);
}

#[test]
fn torus_wrap_crossing_the_lower_edge() {
    assert_eq!(wrap_unit(-50_000), SCALE - 50_000);
    assert_eq!(wrap_unit(-1), SCALE - 1);
}

#[test]
fn torus_wrap_keeps_interior_points() {
    assert_eq!(wrap_unit(0), 0);
    assert_eq!(wrap_unit(123_456), 123_456);
    assert_eq!(wrap_unit(SCALE - 1), SCALE - 1);
}

#[test]
fn bearing_on_the_axes() {
    assert_eq!(bearing(0, 100_000), 0);
    assert_eq!(bearing(100_000, 0), QUARTER_TURN);
    assert_eq!(bearing(0, -100_000), HALF_TURN);
    assert_eq!(bearing(-100_000, 0), -QUARTER_TURN);
}

#[test]
fn bearing_on_the_diagonals() {
    assert_eq!(bearing(100_000, 100_000), QUARTER_TURN / 2);
    assert_eq!(bearing(100_000, -100_000), QUARTER_TURN + QUARTER_TURN / 2);
    assert_eq!(bearing(-100_000, 100_000), -(QUARTER_TURN / 2));
}

#[test]
fn direction_of_cardinal_headings() {
    assert_eq!(dir_of(0), (0, SCALE));
    assert_eq!(dir_of(QUARTER_TURN), (SCALE, 0));
    assert_eq!(dir_of(HALF_TURN), (0, -SCALE));
    assert_eq!(dir_of(HALF_TURN + QUARTER_TURN), (-SCALE, 0));
}

#[test]
fn bearing_inverts_direction() {
    // The bearing measure is the exact inverse of the direction field.
    for theta in [0, 1, 137_459, 999_999, 1_000_000, 2_499_999, 3_333_333] {
        let (dx, dy) = dir_of(theta);
        assert_eq!(bearing(dx, dy), norm_offset(theta));
    }
}

#[test]
fn integer_square_roots() {
    assert_eq!(isqrt(0), 0);
    assert_eq!(isqrt(1), 1);
    assert_eq!(isqrt(99), 9);
    assert_eq!(isqrt(100), 10);
    assert_eq!(isqrt(10_000_000_000), 100_000);
}

#[test]
fn squared_distance() {
    let a = Pos { x: 500_000, y: 500_000 };
    let b = Pos { x: 500_000, y: 600_000 };
    assert_eq!(dist_sq(a, b), 100_000u64 * 100_000u64);
    assert_eq!(dist_sq(a, a), 0);
}
