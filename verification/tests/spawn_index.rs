//! The spatial index, the spawn sequence and the configuration profiles.

use boids::boid::Boid;
use boids::color::SimpleColor;
use boids::index::{Neighbor, SpatialIndex};
use boids::params::Values;
use boids::spawn::boid_setup;
use boids::vec2::Vec2I;

fn still_boid(x: i64, y: i64) -> Boid {
    Boid {
        pos: Vec2I { x, y },
        vel: Vec2I { x: 1000, y: 0 },
        heading: Vec2I { x: 1000, y: 0 },
        color: SimpleColor { h: 0, s: 0, l: 0 },
        start_color: SimpleColor { h: 0, s: 0, l: 0 },
    }
}

#[test]
fn k_nearest_returns_nearest_first() {
    let agents = vec![still_boid(0, 0), still_boid(3000, 0), still_boid(1000, 0)];
    let mut index = SpatialIndex::new();
    index.rebuild(&agents);
    let r = index.k_nearest(Vec2I { x: 0, y: 0 }, 2);
    assert_eq!(
        r,
        vec![
            Neighbor { dist_sq: 0, id: 0 },
            Neighbor { dist_sq: 1_000_000, id: 2 },
        ]
    );
}

#[test]
fn k_nearest_breaks_distance_ties_by_identity() {
    let agents = vec![still_boid(5000, 5000), still_boid(1000, 0), still_boid(-1000, 0)];
    let mut index = SpatialIndex::new();
    index.rebuild(&agents);
    let r = index.k_nearest(Vec2I { x: 0, y: 0 }, 2);
    assert_eq!(
        r,
        vec![
            Neighbor { dist_sq: 1_000_000, id: 1 },
            Neighbor { dist_sq: 1_000_000, id: 2 },
        ]
    );
}

#[test]
fn k_nearest_returns_fewer_when_index_is_small() {
    let agents = vec![still_boid(0, 0)];
    let mut index = SpatialIndex::new();
    index.rebuild(&agents);
    let r = index.k_nearest(Vec2I { x: 7, y: 7 }, 10);
    assert_eq!(r.len(), 1);
    assert_eq!(r[0].id, 0);
}

#[test]
fn stale_index_identity_is_skipped() {
    // The index still knows a third agent the snapshot no longer holds:
    // the evaluator silently skips it, so the remaining neighbor alone
    // shapes the delta (centering 15000 * 800 / 10^6 plus matching over
    // the relative velocity, (2000 - 1000) * 50000 / 10^6).
    let mut values = Values::default();
    values.boid_fov_cos = -1024;
    let mut third = still_boid(20_000, 0);
    third.vel = Vec2I { x: 7000, y: 0 };
    let mut agents = vec![still_boid(0, 0), still_boid(15_000, 0), third];
    agents[1].vel = Vec2I { x: 2000, y: 0 };
    let mut index = SpatialIndex::new();
    index.rebuild(&agents);
    agents.pop();
    let nbs = index.k_nearest(agents[0].pos, values.max_neighbors);
    assert_eq!(nbs.len(), 3);
    let (dv, _) = boids::steer::get_dv(0, &agents, &nbs, &values, None);
    assert_eq!(dv, Vec2I { x: 12 + 50, y: 0 });
}

#[test]
fn spawn_follows_the_halton_sequence() {
    // Four agents on an 800x800-unit world: the base-2/base-3 radical
    // inverses 1/2..., scaled and centered, give these exact positions.
    let mut values = Values::default();
    values.boid_count = 4;
    values.boid_speed = 0;
    let flock = boid_setup(&values, 800_000, 800_000);
    assert_eq!(flock.len(), 4);
    let expected = [
        (0, -133_334),
        (-200_000, 133_333),
        (200_000, -311_112),
        (-300_000, -44_445),
    ];
    for (i, b) in flock.iter().enumerate() {
        assert_eq!((b.pos.x, b.pos.y), expected[i]);
        assert_eq!(b.vel, Vec2I { x: 0, y: 0 });
        assert_eq!(b.heading, Vec2I { x: 1000, y: 0 });
        assert_eq!(b.color, SimpleColor { h: 0, s: 0, l: 0 });
        assert_eq!(b.start_color, SimpleColor { h: 0, s: 0, l: 0 });
    }
}

#[test]
fn spawn_velocities_stay_within_speed() {
    let mut values = Values::default();
    values.boid_count = 64;
    let flock = boid_setup(&values, 800_000, 600_000);
    for b in flock.iter() {
        assert!(b.vel.x >= -values.boid_speed && b.vel.x < values.boid_speed);
        assert!(b.vel.y >= -values.boid_speed && b.vel.y < values.boid_speed);
    }
}

#[test]
fn random_color_stays_on_the_scales() {
    for _ in 0..64 {
        let c = SimpleColor::random();
        assert!(c.h >= 0 && c.h < 360_000);
        assert!(c.s >= 0 && c.s < 1000);
        assert_eq!(c.l, 700);
    }
}

#[test]
fn color_lerp_moves_a_tenth() {
    let c = SimpleColor { h: 0, s: 0, l: 0 };
    let t = SimpleColor { h: 200_000, s: 800, l: 700 };
    assert_eq!(c.lerp(t, 10), SimpleColor { h: 20_000, s: 80, l: 70 });
}

#[test]
fn default_profile_values() {
    let v = Values::default();
    assert_eq!(v.boid_count, 1500);
    assert_eq!(v.boid_vis_range, 35_000);
    assert_eq!(v.vis_range_sq, 1_225_000_000);
    assert_eq!(v.boid_prot_range, 10_000);
    assert_eq!(v.prot_range_sq, 100_000_000);
    assert_eq!(v.boid_min_speed, 5000);
    assert_eq!(v.boid_max_speed, 10_000);
    assert_eq!(v.boid_fov_cos, -512);
    assert_eq!(v.boid_turn_factor, 500);
    assert!(!v.modes.toroidal);
    assert!(!v.modes.mouse_predator);
}

#[test]
fn light_profile_values() {
    let v = Values::light_profile();
    assert_eq!(v.boid_count, 108);
    assert_eq!(v.boid_vis_range, 25_000);
    assert_eq!(v.vis_range_sq, 625_000_000);
    assert_eq!(v.boid_min_speed, 3000);
    assert_eq!(v.boid_max_speed, 7000);
    assert_eq!(v.max_neighbors, 20);
}
