//! Tunable simulation parameters.
//!
//! `Values` is an explicit configuration snapshot handed to every pipeline
//! call; the host may rewrite fields between ticks. Weights are carried in
//! micro-units ([`FACTOR_ONE`] is a weight of one), ranges and speeds in raw
//! milli-units, and the field-of-view as the cosine of the half-angle in
//! [`FOV_SCALE`] units. The pipeline assumes a consistent snapshot — see
//! [`Values::wf`]; supplying one is the host's duty and is not re-checked
//! at run time.

use vstd::prelude::*;

verus! {

/// A steering weight of exactly one, in micro-units.
pub const FACTOR_ONE: i64 = 1_000_000;

/// A cosine of exactly one, in the fixed-point scale of `boid_fov_cos`.
pub const FOV_SCALE: i64 = 1024;

/// Largest speed (raw units per tick) the configuration may name.
pub const SPEED_LIMIT: i64 = 0x80_0000;

/// Largest visibility or protection radius, in raw units.
pub const RANGE_LIMIT: i64 = 0x20_0000;

/// Largest admissible neighbor-query size.
pub const NEIGHBOR_LIMIT: usize = 65536;

/// Largest admissible flock size.
pub const COUNT_LIMIT: u32 = 1_000_000;

/// Largest admissible world width or height, in raw units.
pub const WORLD_LIMIT: i64 = 0x4000_0000;

/// Boolean switches read by the pipeline at the start of a tick.
#[derive(Clone, Copy, Debug, PartialEq, Eq, Structural)]
pub struct Modes {
    pub paused: bool,
    pub mouse_predator: bool,
    pub color_mode: bool,
    pub color_flocking: bool,
    pub perching: bool,
    pub toroidal: bool,
}

/// Process-wide tunables, read by every stage of the pipeline.
#[derive(Clone, Copy, Debug, PartialEq, Eq, Structural)]
pub struct Values {
    /// Number of boids to spawn.
    pub boid_count: u32,
    /// Visual size of a boid, in raw units; used only for rendering.
    pub boid_size: i64,
    /// Largest magnitude of a spawn velocity component, in raw units.
    pub boid_speed: i64,
    /// Most neighbors a spatial query may return.
    pub max_neighbors: usize,
    /// How far away a boid can see another boid, in raw units.
    pub boid_vis_range: i64,
    /// Below this distance a neighbor counts as "too close", in raw units.
    pub boid_prot_range: i64,
    /// Weight pulling a boid toward its neighborhood's center, in micro-units.
    pub boid_centering_factor: i64,
    /// Weight pushing a boid away from too-close neighbors, in micro-units.
    pub boid_avoidance_factor: i64,
    /// Weight matching a boid to its neighbors' velocities, in micro-units.
    pub boid_matching_factor: i64,
    /// Smallest speed left after integration, in raw units.
    pub boid_min_speed: i64,
    /// Largest speed left after integration, in raw units.
    pub boid_max_speed: i64,
    /// Cosine of the field-of-view half-angle, in `FOV_SCALE` units.
    pub boid_fov_cos: i64,
    /// Precomputed `boid_vis_range` squared, in raw units squared.
    pub vis_range_sq: i64,
    /// Precomputed `boid_prot_range` squared, in raw units squared.
    pub prot_range_sq: i64,
    /// Weight chasing (or, in predator mode, fleeing) the pointer, in micro-units.
    pub boid_mouse_chase_factor: i64,
    /// Margin kept from the window edge before steering back, in raw units.
    pub boid_bound_size: i64,
    /// Inward velocity correction applied at the boundary, in raw units.
    pub boid_turn_factor: i64,
    /// Mode switches.
    pub modes: Modes,
}

impl Values {
    /// A consistent snapshot: every bound the pipeline's arithmetic rests on,
    /// and the precomputed squares in step with their radii.
    pub open spec fn wf(self) -> bool {
        &&& self.boid_count <= COUNT_LIMIT
        &&& 0 <= self.boid_size
        &&& 0 <= self.boid_speed <= SPEED_LIMIT
        &&& self.max_neighbors <= NEIGHBOR_LIMIT
        &&& 0 <= self.boid_vis_range <= RANGE_LIMIT
        &&& 0 <= self.boid_prot_range <= RANGE_LIMIT
        &&& self.vis_range_sq == self.boid_vis_range * self.boid_vis_range
        &&& self.prot_range_sq == self.boid_prot_range * self.boid_prot_range
        &&& 0 <= self.boid_centering_factor <= FACTOR_ONE
        &&& 0 <= self.boid_avoidance_factor <= FACTOR_ONE
        &&& 0 <= self.boid_matching_factor <= FACTOR_ONE
        &&& 0 <= self.boid_mouse_chase_factor <= FACTOR_ONE
        &&& 16 <= self.boid_min_speed <= self.boid_max_speed <= SPEED_LIMIT
        &&& -FOV_SCALE <= self.boid_fov_cos <= FOV_SCALE
        &&& 0 <= self.boid_bound_size <= WORLD_LIMIT
        &&& 0 <= self.boid_turn_factor <= SPEED_LIMIT
    }

    /// The profile for constrained targets: fewer, slower boids with a
    /// shorter visibility range.
    pub fn light_profile() -> (r: Values)
        ensures
            r.wf(),
            r == (Values {
                boid_count: 108,
                boid_size: 1000,
                boid_speed: 3500,
                max_neighbors: 20,
                boid_vis_range: 25_000,
                boid_prot_range: 10_000,
                boid_centering_factor: 400,
                boid_avoidance_factor: 50_000,
                boid_matching_factor: 50_000,
                boid_min_speed: 3000,
                boid_max_speed: 7000,
                boid_fov_cos: -512i64,
                vis_range_sq: 625_000_000,
                prot_range_sq: 100_000_000,
                boid_mouse_chase_factor: 400,
                boid_bound_size: 98_000,
                boid_turn_factor: 750,
                modes: Modes {
                    paused: false,
                    mouse_predator: false,
                    color_mode: false,
                    color_flocking: false,
                    perching: false,
                    toroidal: false,
                },
            }),
    {
        Values {
            boid_count: 108,
            boid_size: 1000,
            boid_speed: 3500,
            max_neighbors: 20,
            boid_vis_range: 25_000,
            boid_prot_range: 10_000,
            boid_centering_factor: 400,
            boid_avoidance_factor: 50_000,
            boid_matching_factor: 50_000,
            boid_min_speed: 3000,
            boid_max_speed: 7000,
            boid_fov_cos: -512i64,
            vis_range_sq: 625_000_000,
            prot_range_sq: 100_000_000,
            boid_mouse_chase_factor: 400,
            boid_bound_size: 98_000,
            boid_turn_factor: 750,
            modes: Modes {
                paused: false,
                mouse_predator: false,
                color_mode: false,
                color_flocking: false,
                perching: false,
                toroidal: false,
            },
        }
    }
}

impl Default for Values {
    /// The default desktop profile: a field of view of 120 degrees to a
    /// side (cosine -1/2), visibility 35 world units, protection 10.
    fn default() -> (r: Values)
        ensures
            r.wf(),
            r == (Values {
                boid_count: 1500,
                boid_size: 400,
                boid_speed: 5000,
                max_neighbors: 100,
                boid_vis_range: 35_000,
                boid_prot_range: 10_000,
                boid_centering_factor: 800,
                boid_avoidance_factor: 50_000,
                boid_matching_factor: 50_000,
                boid_min_speed: 5000,
                boid_max_speed: 10_000,
                boid_fov_cos: -512i64,
                vis_range_sq: 1_225_000_000,
                prot_range_sq: 100_000_000,
                boid_mouse_chase_factor: 600,
                boid_bound_size: 98_000,
                boid_turn_factor: 500,
                modes: Modes {
                    paused: false,
                    mouse_predator: false,
                    color_mode: false,
                    color_flocking: false,
                    perching: false,
                    toroidal: false,
                },
            }),
    {
        Values {
            boid_count: 1500,
            boid_size: 400,
            boid_speed: 5000,
            max_neighbors: 100,
            boid_vis_range: 35_000,
            boid_prot_range: 10_000,
            boid_centering_factor: 800,
            boid_avoidance_factor: 50_000,
            boid_matching_factor: 50_000,
            boid_min_speed: 5000,
            boid_max_speed: 10_000,
            boid_fov_cos: -512i64,
            vis_range_sq: 1_225_000_000,
            prot_range_sq: 100_000_000,
            boid_mouse_chase_factor: 600,
            boid_bound_size: 98_000,
            boid_turn_factor: 500,
            modes: Modes {
                paused: false,
                mouse_predator: false,
                color_mode: false,
                color_flocking: false,
                perching: false,
                toroidal: false,
            },
        }
    }
}

} // verus!
