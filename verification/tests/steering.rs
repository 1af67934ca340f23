//! Behavior of the steering rule evaluator on concrete flocks.

use boids::boid::Boid;
use boids::color::SimpleColor;
use boids::index::SpatialIndex;
use boids::params::Values;
use boids::steer::get_dv;
use boids::vec2::Vec2I;

fn plain_boid(x: i64, y: i64) -> Boid {
    Boid {
        pos: Vec2I { x, y },
        vel: Vec2I { x: 5000, y: 0 },
        heading: Vec2I { x: 1000, y: 0 },
        color: SimpleColor { h: 0, s: 0, l: 0 },
        start_color: SimpleColor { h: 0, s: 0, l: 0 },
    }
}

fn eval(agents: &Vec<Boid>, i: usize, values: &Values) -> (Vec2I, SimpleColor) {
    let mut index = SpatialIndex::new();
    index.rebuild(agents);
    let nbs = index.k_nearest(agents[i].pos, values.max_neighbors);
    get_dv(i, agents, &nbs, values, None)
}

#[test]
fn two_agents_pull_together() {
    // Two agents five units apart, heading and moving along +x, seeing
    // all around (full field of view), outside the protection range.
    let mut values = Values::default();
    values.boid_prot_range = 2000;
    values.prot_range_sq = 4_000_000;
    values.boid_fov_cos = -1024;
    let agents = vec![plain_boid(0, 0), plain_boid(5000, 0)];

    // Centering pulls the front agent forward by 5000 * 800 / 10^6 = 4;
    // the velocities are already equal, so matching adds nothing.
    let (dv0, _) = eval(&agents, 0, &values);
    assert_eq!(dv0, Vec2I { x: 4, y: 0 });

    // The rear agent is pulled backward toward the front one.
    let (dv1, _) = eval(&agents, 1, &values);
    assert_eq!(dv1, Vec2I { x: -4, y: 0 });

    // Cohesion pulls them together: one delta points forward, the
    // other backward.
    assert!(dv0.x > 0);
    assert!(dv1.x < 0);
}

#[test]
fn out_of_range_neighbor_is_ignored() {
    // Fifty units apart with a visibility range of thirty-five: neither
    // agent influences the other.
    let values = Values::default();
    let agents = vec![plain_boid(0, 0), plain_boid(50_000, 0)];
    let (dv0, _) = eval(&agents, 0, &values);
    let (dv1, _) = eval(&agents, 1, &values);
    assert_eq!(dv0, Vec2I { x: 0, y: 0 });
    assert_eq!(dv1, Vec2I { x: 0, y: 0 });
}

#[test]
fn neighbor_behind_the_cone_is_ignored() {
    // With the default 120-degree half-angle, the rear agent has the
    // front one directly behind itself: no influence on the rear agent,
    // while the front agent still reacts (here by separation: -5000
    // * 50000 / 10^6).
    let values = Values::default();
    let agents = vec![plain_boid(0, 0), plain_boid(5000, 0)];
    let (dv1, _) = eval(&agents, 1, &values);
    assert_eq!(dv1, Vec2I { x: 0, y: 0 });
    let (dv0, _) = eval(&agents, 0, &values);
    assert_eq!(dv0, Vec2I { x: -250, y: 0 });
}

#[test]
fn close_neighbor_feeds_separation_only() {
    // One unit apart, inside the protection range: only the avoidance
    // term fires (-1000 * 50000 / 10^6), and the color takes the
    // isolation branch, not the blend.
    let mut values = Values::default();
    values.boid_fov_cos = -1024;
    let mut agents = vec![plain_boid(0, 0), plain_boid(1000, 0)];
    agents[0].color = SimpleColor { h: 100_000, s: 500, l: 700 };
    agents[0].start_color = SimpleColor { h: 100_000, s: 500, l: 700 };
    agents[1].color = SimpleColor { h: 200_000, s: 800, l: 700 };
    let (dv0, c0) = eval(&agents, 0, &values);
    assert_eq!(dv0, Vec2I { x: -50, y: 0 });
    assert_eq!(c0, SimpleColor { h: 100_000, s: 500, l: 700 });
}

#[test]
fn far_neighbor_feeds_cohesion_and_alignment_only() {
    // Fifteen units apart, outside the protection range of ten: the
    // centering term is 15000 * 800 / 10^6 = 12 and the matching term
    // follows the neighbor's relative velocity, here (2000 - 5000)
    // * 50000 / 10^6 = -150; no avoidance fires.
    let mut values = Values::default();
    values.boid_fov_cos = -1024;
    let mut agents = vec![plain_boid(0, 0), plain_boid(15_000, 0)];
    agents[1].vel = Vec2I { x: 2000, y: 0 };
    let (dv0, _) = eval(&agents, 0, &values);
    assert_eq!(dv0, Vec2I { x: 12 - 150, y: 0 });
}

#[test]
fn isolated_agent_reverts_toward_start_color() {
    // Alone in the world: no steering delta, and the color relaxes one
    // twentieth of the way back toward the start color.
    let values = Values::default();
    let mut agents = vec![plain_boid(0, 0)];
    agents[0].color = SimpleColor { h: 100_000, s: 500, l: 700 };
    agents[0].start_color = SimpleColor { h: 0, s: 0, l: 700 };
    let (dv, c) = eval(&agents, 0, &values);
    assert_eq!(dv, Vec2I { x: 0, y: 0 });
    assert_eq!(c, SimpleColor { h: 95_000, s: 475, l: 700 });
}

#[test]
fn flock_neighbor_blends_color() {
    // A single flock neighbor: the blend moves one tenth of the way
    // toward that neighbor's color.
    let mut values = Values::default();
    values.boid_fov_cos = -1024;
    let mut agents = vec![plain_boid(0, 0), plain_boid(15_000, 0)];
    agents[1].color = SimpleColor { h: 200_000, s: 800, l: 700 };
    let (_, c0) = eval(&agents, 0, &values);
    assert_eq!(c0, SimpleColor { h: 20_000, s: 80, l: 70 });
}

#[test]
fn pointer_chase_and_predator_flee() {
    // A pointer ten units along +x pulls by 10000 * 600 / 10^6 = 6; in
    // predator mode the same pointer pushes away.
    let mut values = Values::default();
    let agents = vec![plain_boid(0, 0)];
    let mut index = SpatialIndex::new();
    index.rebuild(&agents);
    let nbs = index.k_nearest(agents[0].pos, values.max_neighbors);
    let pointer = Some(Vec2I { x: 10_000, y: 0 });
    let (dv, _) = get_dv(0, &agents, &nbs, &values, pointer);
    assert_eq!(dv, Vec2I { x: 6, y: 0 });
    values.modes.mouse_predator = true;
    let (dv_flee, _) = get_dv(0, &agents, &nbs, &values, pointer);
    assert_eq!(dv_flee, Vec2I { x: -6, y: 0 });
}
