//! Agent records and the per-tick event types.
//!
//! Agents live in an arena: a `Vec<Boid>` whose index is the agent's
//! stable identity. The evaluation stage reads a snapshot of this arena
//! and emits one `DvEvent` (and one `ColorEvent`) per agent; only the
//! integrator stages write the arena back.

use crate::color::SimpleColor;
use crate::vec2::{bounded, Vec2I, POS_LIMIT, VEL_LIMIT};
use vstd::prelude::*;

verus! {

/// One flocking agent.
#[derive(Clone, Copy, Debug, PartialEq, Eq, Structural)]
pub struct Boid {
    /// World-space position, raw units.
    pub pos: Vec2I,
    /// Current velocity, raw units per tick.
    pub vel: Vec2I,
    /// Facing direction: the velocity as of the last position update.
    /// Only its direction matters; it is never the zero vector.
    pub heading: Vec2I,
    /// Current blended appearance.
    pub color: SimpleColor,
    /// Immutable baseline the color relaxes toward when the boid is alone.
    pub start_color: SimpleColor,
}

impl Boid {
    /// Every component inside the pipeline's fixed-point limits.
    pub open spec fn wf(self) -> bool {
        &&& bounded(self.pos, POS_LIMIT as int)
        &&& bounded(self.vel, VEL_LIMIT as int)
        &&& bounded(self.heading, VEL_LIMIT as int)
        &&& !self.heading.is_zero()
        &&& self.color.wf()
        &&& self.start_color.wf()
    }
}

/// A whole arena of well-formed agents.
pub open spec fn all_wf(agents: Seq<Boid>) -> bool {
    forall|i: int| 0 <= i < agents.len() ==> (#[trigger] agents[i]).wf()
}

/// The steering delta computed for one agent this tick; consumed exactly
/// once by the velocity integrator, then discarded.
#[derive(Clone, Copy, Debug, PartialEq, Eq, Structural)]
pub struct DvEvent {
    pub id: usize,
    pub dv: Vec2I,
}

/// The blended color computed for one agent this tick, feeding color
/// diffusion.
#[derive(Clone, Copy, Debug, PartialEq, Eq, Structural)]
pub struct ColorEvent {
    pub id: usize,
    pub color: SimpleColor,
}

} // verus!
