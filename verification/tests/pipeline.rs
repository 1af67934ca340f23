//! The pipeline stages: dispatch, velocity and position integration,
//! color diffusion, and the speed clamp.

use boids::boid::{Boid, ColorEvent, DvEvent};
use boids::color::SimpleColor;
use boids::index::SpatialIndex;
use boids::params::Values;
use boids::speed::clamp_speed;
use boids::systems::{color_change_system, flocking_system, movement_system, tick, velo_system};
use boids::vec2::Vec2I;

fn flock_boid(x: i64, y: i64, vx: i64, vy: i64) -> Boid {
    Boid {
        pos: Vec2I { x, y },
        vel: Vec2I { x: vx, y: vy },
        heading: Vec2I { x: 1000, y: 0 },
        color: SimpleColor { h: 0, s: 0, l: 0 },
        start_color: SimpleColor { h: 0, s: 0, l: 0 },
    }
}

fn sample_flock() -> Vec<Boid> {
    vec![
        flock_boid(0, 0, 5000, 0),
        flock_boid(3000, 0, 4000, 1000),
        flock_boid(0, 4000, -2000, 3000),
        flock_boid(-2000, -1000, 1000, -1000),
        flock_boid(10_000, 10_000, 0, 5000),
    ]
}

#[test]
fn chunk_count_does_not_change_events() {
    // One worker or three: the same per-agent deltas and colors, since
    // chunking is only a load-balancing device.
    let values = Values::default();
    let agents = sample_flock();
    let mut index = SpatialIndex::new();
    index.rebuild(&agents);
    let (dv1, c1) = flocking_system(&agents, &index, &values, None, 1);
    let (dv3, c3) = flocking_system(&agents, &index, &values, None, 3);
    assert_eq!(dv1, dv3);
    assert_eq!(c1, c3);
    assert_eq!(dv1.len(), agents.len());
    for (i, e) in dv1.iter().enumerate() {
        assert_eq!(e.id, i);
    }
}

#[test]
fn boundary_nudge_steers_inward() {
    // An agent past the right edge of the usable region (width 1000
    // units minus the 98-unit margin, halved) gets one turn-factor of
    // inward correction; the clamp then leaves the legal speed alone.
    let mut values = Values::default();
    values.boid_min_speed = 1000;
    values.boid_max_speed = 10_000;
    values.boid_turn_factor = 500;
    let mut agents = vec![flock_boid(500_000, 0, 5000, 0)];
    let events = vec![DvEvent { id: 0, dv: Vec2I { x: 0, y: 0 } }];
    velo_system(&mut agents, &events, 1_000_000, 600_000, &values);
    assert_eq!(agents[0].vel, Vec2I { x: 4500, y: 0 });
}

#[test]
fn velocity_integrator_applies_delta_and_clamp() {
    // Inside bounds: the delta lands on the velocity, then the clamp
    // rescales the result (here 30 + dv 0 on x, 40 on y, norm 50, far
    // below the minimum of 5000: scaled exactly to (3000, 4000)).
    let values = Values::default();
    let mut agents = vec![flock_boid(0, 0, 30, 40)];
    let events = vec![DvEvent { id: 0, dv: Vec2I { x: 0, y: 0 } }];
    velo_system(&mut agents, &events, 1_000_000, 600_000, &values);
    assert_eq!(agents[0].vel, Vec2I { x: 3000, y: 4000 });
}

#[test]
fn agent_without_event_is_untouched() {
    let values = Values::default();
    let mut agents = vec![flock_boid(0, 0, 5000, 0), flock_boid(9000, 0, 4000, 0)];
    let before = agents[1];
    let events = vec![DvEvent { id: 0, dv: Vec2I { x: 100, y: 0 } }];
    velo_system(&mut agents, &events, 1_000_000, 600_000, &values);
    assert_eq!(agents[1], before);
    assert_eq!(agents[0].vel, Vec2I { x: 5100, y: 0 });
}

#[test]
fn speed_clamp_zero_velocity_gets_unit_heading() {
    let r = clamp_speed(Vec2I { x: 0, y: 0 }, 5000, 10_000);
    assert_eq!(r, Vec2I { x: 5000, y: 0 });
}

#[test]
fn speed_clamp_rescales_overspeed() {
    // Norm 50000 on a 3-4-5 triangle, maximum 10000: scaled exactly.
    let r = clamp_speed(Vec2I { x: 30_000, y: 40_000 }, 5000, 10_000);
    assert_eq!(r, Vec2I { x: 6000, y: 8000 });
}

#[test]
fn speed_clamp_rescales_underspeed() {
    let r = clamp_speed(Vec2I { x: 30, y: 40 }, 5000, 10_000);
    assert_eq!(r, Vec2I { x: 3000, y: 4000 });
}

#[test]
fn speed_clamp_keeps_legal_speed() {
    let r = clamp_speed(Vec2I { x: 6000, y: 0 }, 5000, 10_000);
    assert_eq!(r, Vec2I { x: 6000, y: 0 });
}

#[test]
fn speed_stays_on_band_over_ticks() {
    // A few full ticks over a small flock: every velocity stays within
    // the configured band (with the documented rounding slack of three
    // raw units), tick after tick.
    let values = Values::default();
    let mut agents = sample_flock();
    let mut index = SpatialIndex::new();
    for _ in 0..10 {
        index.rebuild(&agents);
        let (dvs, cols) = flocking_system(&agents, &index, &values, None, 2);
        velo_system(&mut agents, &dvs, 1_000_000, 600_000, &values);
        movement_system(&mut agents);
        color_change_system(&mut agents, &cols);
        for b in agents.iter() {
            let n = b.vel.x as i128 * b.vel.x as i128 + b.vel.y as i128 * b.vel.y as i128;
            let min = values.boid_min_speed as i128 - 3;
            let max = values.boid_max_speed as i128 + 1;
            assert!(n >= min * min);
            assert!(n <= max * max);
        }
    }
}

#[test]
fn tick_composes_the_stages() {
    // One call of the full step equals dispatch, velocity integration,
    // movement and color diffusion run by hand.
    let values = Values::default();
    let mut by_tick = sample_flock();
    let mut by_hand = sample_flock();
    let mut index = SpatialIndex::new();
    index.rebuild(&by_hand);
    tick(&mut by_tick, &index, &values, None, 1_000_000, 600_000, 2);
    let (dvs, cols) = flocking_system(&by_hand, &index, &values, None, 1);
    velo_system(&mut by_hand, &dvs, 1_000_000, 600_000, &values);
    movement_system(&mut by_hand);
    color_change_system(&mut by_hand, &cols);
    assert_eq!(by_tick, by_hand);
}

#[test]
fn movement_advances_position_and_heading() {
    let mut agents = vec![flock_boid(100, 200, 10, -20)];
    movement_system(&mut agents);
    assert_eq!(agents[0].pos, Vec2I { x: 110, y: 180 });
    assert_eq!(agents[0].heading, Vec2I { x: 10, y: -20 });
}

#[test]
fn movement_keeps_heading_when_velocity_is_zero() {
    let mut agents = vec![flock_boid(100, 200, 0, 0)];
    movement_system(&mut agents);
    assert_eq!(agents[0].pos, Vec2I { x: 100, y: 200 });
    assert_eq!(agents[0].heading, Vec2I { x: 1000, y: 0 });
}

#[test]
fn color_diffusion_overwrites_targets_only() {
    let mut agents = vec![flock_boid(0, 0, 5000, 0), flock_boid(9000, 0, 4000, 0)];
    let new_color = SimpleColor { h: 20_000, s: 80, l: 70 };
    let events = vec![ColorEvent { id: 1, color: new_color }];
    color_change_system(&mut agents, &events);
    assert_eq!(agents[1].color, new_color);
    assert_eq!(agents[0].color, SimpleColor { h: 0, s: 0, l: 0 });
}
