//! The only randomness the library consumes: draws from a seedable
//! `rand::rngs::StdRng` stream that every caller threads through
//! explicitly, so a run is reproducible from its seed.

use vstd::prelude::*;
use rand::Rng;
use crate::{SCALE, FULL_TURN};
use crate::geom::Pos;

verus! {

/// Declares rand's `StdRng` so random streams can cross the library's
/// signatures; the value itself stays opaque.
#[verifier::external_type_specification]
#[verifier::external_body]
pub struct ExStdRng(rand::rngs::StdRng);

/// Relies on rand's `Rng::gen_range` over `0..n`: it panics on an empty
/// range and otherwise returns a member of the range.
#[verifier::external_body]
pub(crate) fn rng_below(rng: &mut rand::rngs::StdRng, n: u64) -> (r: u64)
    requires
        n >= 1,
    ensures
        r < n,
{
    rng.gen_range(0..n)
}

/// A fair-ish coin: true or false, nothing more promised.
pub(crate) fn rng_bool(rng: &mut rand::rngs::StdRng) -> bool {
    rng_below(rng, 2) == 1
}

/// A signed draw bounded by one world-width, for positions and headings.
pub(crate) fn rng_range_i64(rng: &mut rand::rngs::StdRng, n: i64) -> (r: i64)
    requires
        1 <= n <= 100_000_000,
    ensures
        0 <= r < n,
{
    rng_below(rng, n as u64) as i64
}

/// A fresh position, uniform over the unit square.
pub(crate) fn rng_pos(rng: &mut rand::rngs::StdRng) -> (r: Pos)
    ensures
        r.wf(),
{
    let x = rng_range_i64(rng, SCALE);
    let y = rng_range_i64(rng, SCALE);
    Pos { x, y }
}

/// A fresh heading, uniform over the circle.
pub(crate) fn rng_heading(rng: &mut rand::rngs::StdRng) -> (r: i64)
    ensures
        0 <= r < FULL_TURN,
{
    rng_range_i64(rng, FULL_TURN)
}

} // verus!
