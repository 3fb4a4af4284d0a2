//! A plant: a stationary food resource with a position and an eaten
//! flag, single-use per generation unless respawning is enabled.

use vstd::prelude::*;
use crate::geom::Pos;
use crate::rng::rng_pos;

verus! {

#[derive(Clone, Copy, PartialEq, Eq, Structural, Debug)]
pub struct Plant {
    pub position: Pos,
    pub eaten: bool,
}

impl Plant {
    pub open spec fn wf(&self) -> bool {
        self.position.wf()
    }

    /// A fresh, uneaten plant at a random position.
    pub fn random(rng: &mut rand::rngs::StdRng) -> (r: Plant)
        ensures
            r.wf(),
            !r.eaten,
    {
        Plant { position: rng_pos(rng), eaten: false }
    }

    pub fn position(&self) -> (r: Pos)
        ensures
            r == self.position,
    {
        self.position
    }

    pub fn eaten(&self) -> (r: bool)
        ensures
            r == self.eaten,
    {
        self.eaten
    }
}

} // verus!
