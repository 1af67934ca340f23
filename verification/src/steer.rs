//! The steering rule evaluator.
//!
//! A pure function per agent: from its own state, a neighbor list from the
//! spatial index, the tunables and an optional pointer target, it computes
//! a velocity delta and a blended color. Neighbors are first culled by
//! visibility range, then by the field-of-view cone; survivors closer than
//! the protection range feed the separation rule, the rest feed cohesion,
//! alignment and color averaging — each admitted neighbor counts toward
//! exactly one of the two groups.

use crate::boid::{all_wf, Boid};
use crate::color::{color_lerp, SimpleColor, HUE_LIMIT, SL_LIMIT};
use crate::index::Neighbor;
use crate::math::{
    div_tz, div_tz_i64, lemma_div_tz_bound, lemma_div_tz_sign, lemma_mul_bound,
};
use crate::params::{Values, FACTOR_ONE, FOV_SCALE, NEIGHBOR_LIMIT, RANGE_LIMIT};
use crate::vec2::{
    bounded, lemma_bound_sq, lemma_sq_le_bound, Vec2I, DV_LIMIT, POS_LIMIT, VEL_LIMIT,
};
use vstd::prelude::*;

verus! {

/// Divisor of a blend step toward the neighborhood's average color.
pub const BLEND_DIV: i64 = 10;

/// Divisor of a relaxation step back toward the start color.
pub const REVERT_DIV: i64 = 20;

/// The x component of the vector from agent `i` to candidate `j`.
pub open spec fn rel_x(agents: Seq<Boid>, i: int, j: int) -> int {
    agents[j].pos.x - agents[i].pos.x
}

/// The y component of the vector from agent `i` to candidate `j`.
pub open spec fn rel_y(agents: Seq<Boid>, i: int, j: int) -> int {
    agents[j].pos.y - agents[i].pos.y
}

/// The squared distance from agent `i` to candidate `j`.
pub open spec fn cand_dist_sq(agents: Seq<Boid>, i: int, j: int) -> int {
    rel_x(agents, i, j) * rel_x(agents, i, j) + rel_y(agents, i, j) * rel_y(agents, i, j)
}

/// The x component of candidate `j`'s velocity relative to agent `i`:
/// what alignment averages, so that a neighborhood already moving with
/// the agent pulls it nowhere.
pub open spec fn relv_x(agents: Seq<Boid>, i: int, j: int) -> int {
    agents[j].vel.x - agents[i].vel.x
}

/// The y component of candidate `j`'s velocity relative to agent `i`.
pub open spec fn relv_y(agents: Seq<Boid>, i: int, j: int) -> int {
    agents[j].vel.y - agents[i].vel.y
}

/// The field-of-view test, free of square roots: the angle between the
/// heading `h` and the direction `(ux, uy)` is within the cone whose
/// half-angle has cosine `cf / FOV_SCALE` exactly when
/// `dot(h, u) * FOV_SCALE >= cf * |h| * |u|`; both sides are compared
/// through their signs and squares.
pub open spec fn fov_ok(h: Vec2I, ux: int, uy: int, cf: int) -> bool {
    let lhs = (h.x * ux + h.y * uy) * FOV_SCALE;
    let rhs_sq = cf * cf * (h.x * h.x + h.y * h.y) * (ux * ux + uy * uy);
    if cf <= 0 {
        lhs >= 0 || lhs * lhs <= rhs_sq
    } else {
        lhs >= 0 && lhs * lhs >= rhs_sq
    }
}

/// Candidate `j` is seen by agent `i`: a real other agent, within
/// visibility range, and inside the field of view (an exactly overlapping
/// candidate has no direction and is never culled by the cone).
pub open spec fn visible(agents: Seq<Boid>, i: int, j: int, v: Values) -> bool {
    &&& 0 <= j < agents.len()
    &&& j != i
    &&& cand_dist_sq(agents, i, j) <= v.vis_range_sq
    &&& (cand_dist_sq(agents, i, j) == 0 || fov_ok(
        agents[i].heading,
        rel_x(agents, i, j),
        rel_y(agents, i, j),
        v.boid_fov_cos as int,
    ))
}

/// A seen candidate inside the protection range: feeds separation.
pub open spec fn is_close(agents: Seq<Boid>, i: int, j: int, v: Values) -> bool {
    visible(agents, i, j, v) && cand_dist_sq(agents, i, j) < v.prot_range_sq
}

/// A seen candidate outside the protection range: feeds cohesion,
/// alignment and color averaging.
pub open spec fn is_flock(agents: Seq<Boid>, i: int, j: int, v: Values) -> bool {
    visible(agents, i, j, v) && cand_dist_sq(agents, i, j) >= v.prot_range_sq
}

/// Running sums of the neighbor scan.
pub struct Accum {
    pub sep_x: int,
    pub sep_y: int,
    pub n_close: int,
    pub pos_x: int,
    pub pos_y: int,
    pub vel_x: int,
    pub vel_y: int,
    pub col_h: int,
    pub col_s: int,
    pub col_l: int,
    pub n_flock: int,
}

/// All sums zero.
pub open spec fn accum_empty() -> Accum {
    Accum {
        sep_x: 0,
        sep_y: 0,
        n_close: 0,
        pos_x: 0,
        pos_y: 0,
        vel_x: 0,
        vel_y: 0,
        col_h: 0,
        col_s: 0,
        col_l: 0,
        n_flock: 0,
    }
}

/// One candidate folded into the sums: a too-close neighbor adds its
/// negated relative vector to separation, a flock neighbor adds its
/// relative position, relative velocity and color to the averaging
/// sums, and a culled candidate changes nothing.
pub open spec fn accum_step(a: Accum, agents: Seq<Boid>, i: int, j: int, v: Values) -> Accum {
    if is_close(agents, i, j, v) {
        Accum {
            sep_x: a.sep_x - rel_x(agents, i, j),
            sep_y: a.sep_y - rel_y(agents, i, j),
            n_close: a.n_close + 1,
            pos_x: a.pos_x,
            pos_y: a.pos_y,
            vel_x: a.vel_x,
            vel_y: a.vel_y,
            col_h: a.col_h,
            col_s: a.col_s,
            col_l: a.col_l,
            n_flock: a.n_flock,
        }
    } else if is_flock(agents, i, j, v) {
        Accum {
            sep_x: a.sep_x,
            sep_y: a.sep_y,
            n_close: a.n_close,
            pos_x: a.pos_x + rel_x(agents, i, j),
            pos_y: a.pos_y + rel_y(agents, i, j),
            vel_x: a.vel_x + relv_x(agents, i, j),
            vel_y: a.vel_y + relv_y(agents, i, j),
            col_h: a.col_h + agents[j].color.h,
            col_s: a.col_s + agents[j].color.s,
            col_l: a.col_l + agents[j].color.l,
            n_flock: a.n_flock + 1,
        }
    } else {
        a
    }
}

/// The whole neighbor list folded into sums, in list order.
pub open spec fn accum_of(agents: Seq<Boid>, i: int, ns: Seq<Neighbor>, v: Values) -> Accum
    decreases ns.len(),
{
    if ns.len() == 0 {
        accum_empty()
    } else {
        accum_step(accum_of(agents, i, ns.drop_last(), v), agents, i, ns.last().id as int, v)
    }
}

/// The centering-plus-matching contribution along x: the averaged
/// relative position and relative velocity scaled by their weights,
/// zero when no flock neighbor was seen — so a neighborhood already
/// aligned with the agent contributes no matching pull.
pub open spec fn center_match_x(a: Accum, v: Values) -> int {
    if a.n_flock > 0 {
        div_tz(div_tz(a.pos_x, a.n_flock) * v.boid_centering_factor, FACTOR_ONE as int) + div_tz(
            div_tz(a.vel_x, a.n_flock) * v.boid_matching_factor,
            FACTOR_ONE as int,
        )
    } else {
        0
    }
}

/// The centering-plus-matching contribution along y.
pub open spec fn center_match_y(a: Accum, v: Values) -> int {
    if a.n_flock > 0 {
        div_tz(div_tz(a.pos_y, a.n_flock) * v.boid_centering_factor, FACTOR_ONE as int) + div_tz(
            div_tz(a.vel_y, a.n_flock) * v.boid_matching_factor,
            FACTOR_ONE as int,
        )
    } else {
        0
    }
}

/// The separation contribution along x, zero when nothing was too close.
pub open spec fn avoid_x(a: Accum, v: Values) -> int {
    if a.n_close > 0 {
        div_tz(div_tz(a.sep_x, a.n_close) * v.boid_avoidance_factor, FACTOR_ONE as int)
    } else {
        0
    }
}

/// The separation contribution along y.
pub open spec fn avoid_y(a: Accum, v: Values) -> int {
    if a.n_close > 0 {
        div_tz(div_tz(a.sep_y, a.n_close) * v.boid_avoidance_factor, FACTOR_ONE as int)
    } else {
        0
    }
}

/// The pointer contribution along x: toward the pointer, away from it in
/// predator mode, zero without a pointer.
pub open spec fn ptr_term_x(pos: Vec2I, ptr: Option<Vec2I>, v: Values) -> int {
    match ptr {
        Option::None => 0,
        Option::Some(p) => {
            let t = div_tz((p.x - pos.x) * v.boid_mouse_chase_factor, FACTOR_ONE as int);
            if v.modes.mouse_predator {
                -t
            } else {
                t
            }
        },
    }
}

/// The pointer contribution along y.
pub open spec fn ptr_term_y(pos: Vec2I, ptr: Option<Vec2I>, v: Values) -> int {
    match ptr {
        Option::None => 0,
        Option::Some(p) => {
            let t = div_tz((p.y - pos.y) * v.boid_mouse_chase_factor, FACTOR_ONE as int);
            if v.modes.mouse_predator {
                -t
            } else {
                t
            }
        },
    }
}

/// The x component of the velocity delta the evaluator owes agent `i`.
pub open spec fn dv_spec_x(
    agents: Seq<Boid>,
    i: int,
    ns: Seq<Neighbor>,
    v: Values,
    ptr: Option<Vec2I>,
) -> int {
    let a = accum_of(agents, i, ns, v);
    center_match_x(a, v) + avoid_x(a, v) + ptr_term_x(agents[i].pos, ptr, v)
}

/// The y component of the velocity delta the evaluator owes agent `i`.
pub open spec fn dv_spec_y(
    agents: Seq<Boid>,
    i: int,
    ns: Seq<Neighbor>,
    v: Values,
    ptr: Option<Vec2I>,
) -> int {
    let a = accum_of(agents, i, ns, v);
    center_match_y(a, v) + avoid_y(a, v) + ptr_term_y(agents[i].pos, ptr, v)
}

/// The average color of the flock neighbors.
pub open spec fn avg_color(a: Accum) -> SimpleColor
    recommends
        a.n_flock > 0,
{
    SimpleColor {
        h: div_tz(a.col_h, a.n_flock) as i64,
        s: div_tz(a.col_s, a.n_flock) as i64,
        l: div_tz(a.col_l, a.n_flock) as i64,
    }
}

/// The color the evaluator owes agent `i`: blended toward the
/// neighborhood average when flock neighbors were seen, else relaxed
/// toward the agent's own start color.
pub open spec fn color_spec(agents: Seq<Boid>, i: int, ns: Seq<Neighbor>, v: Values) -> SimpleColor {
    let a = accum_of(agents, i, ns, v);
    if a.n_flock > 0 {
        color_lerp(agents[i].color, avg_color(a), BLEND_DIV as int)
    } else {
        color_lerp(agents[i].color, agents[i].start_color, REVERT_DIV as int)
    }
}

/// A pointer, when present, lies inside the world limits.
pub open spec fn ptr_bounded(ptr: Option<Vec2I>) -> bool {
    match ptr {
        Option::None => true,
        Option::Some(p) => bounded(p, POS_LIMIT as int),
    }
}

/// Every sum grows by at most one bounded contribution per counted
/// neighbor, and the two counters never exceed the list length.
pub proof fn lemma_accum_bounds(agents: Seq<Boid>, i: int, ns: Seq<Neighbor>, v: Values)
    requires
        all_wf(agents),
        0 <= i < agents.len(),
        v.wf(),
    ensures
        ({
            let a = accum_of(agents, i, ns, v);
            &&& 0 <= a.n_close
            &&& 0 <= a.n_flock
            &&& a.n_close + a.n_flock <= ns.len()
            &&& -(a.n_close * RANGE_LIMIT) <= a.sep_x <= a.n_close * RANGE_LIMIT
            &&& -(a.n_close * RANGE_LIMIT) <= a.sep_y <= a.n_close * RANGE_LIMIT
            &&& -(a.n_flock * RANGE_LIMIT) <= a.pos_x <= a.n_flock * RANGE_LIMIT
            &&& -(a.n_flock * RANGE_LIMIT) <= a.pos_y <= a.n_flock * RANGE_LIMIT
            &&& -(a.n_flock * 2 * VEL_LIMIT) <= a.vel_x <= a.n_flock * 2 * VEL_LIMIT
            &&& -(a.n_flock * 2 * VEL_LIMIT) <= a.vel_y <= a.n_flock * 2 * VEL_LIMIT
            &&& 0 <= a.col_h <= a.n_flock * HUE_LIMIT
            &&& 0 <= a.col_s <= a.n_flock * SL_LIMIT
            &&& 0 <= a.col_l <= a.n_flock * SL_LIMIT
        }),
    decreases ns.len(),
{
    if ns.len() > 0 {
        lemma_accum_bounds(agents, i, ns.drop_last(), v);
        let j = ns.last().id as int;
        if is_close(agents, i, j, v) || is_flock(agents, i, j, v) {
            lemma_bound_sq(v.boid_vis_range as int, RANGE_LIMIT as int);
            assert(rel_x(agents, i, j) * rel_x(agents, i, j) >= 0) by (nonlinear_arith);
            assert(rel_y(agents, i, j) * rel_y(agents, i, j) >= 0) by (nonlinear_arith);
            lemma_sq_le_bound(rel_x(agents, i, j), RANGE_LIMIT as int);
            lemma_sq_le_bound(rel_y(agents, i, j), RANGE_LIMIT as int);
            assert(agents[j].wf());
            assert(agents[i].wf());
        }
    }
}

/// Decides the field-of-view test on machine integers.
fn fov_check(h: Vec2I, ux: i64, uy: i64, cf: i64) -> (r: bool)
    requires
        bounded(h, VEL_LIMIT as int),
        -RANGE_LIMIT <= ux <= RANGE_LIMIT,
        -RANGE_LIMIT <= uy <= RANGE_LIMIT,
        -FOV_SCALE <= cf <= FOV_SCALE,
    ensures
        r == fov_ok(h, ux as int, uy as int, cf as int),
{
    let hx: i128 = h.x as i128;
    let hy: i128 = h.y as i128;
    let uxw: i128 = ux as i128;
    let uyw: i128 = uy as i128;
    let cfw: i128 = cf as i128;
    proof {
        lemma_mul_bound(h.x as int, ux as int, VEL_LIMIT as int, RANGE_LIMIT as int);
        lemma_mul_bound(h.y as int, uy as int, VEL_LIMIT as int, RANGE_LIMIT as int);
    }
    let dot: i128 = hx * uxw + hy * uyw;
    proof {
        lemma_mul_bound(
            dot as int,
            FOV_SCALE as int,
            2 * VEL_LIMIT as int * RANGE_LIMIT as int,
            FOV_SCALE as int,
        );
    }
    let lhs: i128 = dot * (FOV_SCALE as i128);
    proof {
        // |lhs| is at most 2 * VEL_LIMIT * RANGE_LIMIT * FOV_SCALE = 2^56,
        // so its square stays below 2^112, well within the machine word.
        assert(0 <= lhs * lhs <= 0x10000000000000000000000000000) by (nonlinear_arith)
            requires
                -0x100000000000000 <= lhs <= 0x100000000000000,
        ;
        lemma_mul_bound(h.x as int, h.x as int, VEL_LIMIT as int, VEL_LIMIT as int);
        lemma_mul_bound(h.y as int, h.y as int, VEL_LIMIT as int, VEL_LIMIT as int);
        lemma_mul_bound(ux as int, ux as int, RANGE_LIMIT as int, RANGE_LIMIT as int);
        lemma_mul_bound(uy as int, uy as int, RANGE_LIMIT as int, RANGE_LIMIT as int);
        lemma_mul_bound(cf as int, cf as int, FOV_SCALE as int, FOV_SCALE as int);
    }
    let lhs2: i128 = lhs * lhs;
    let hsq: i128 = hx * hx + hy * hy;
    let usq: i128 = uxw * uxw + uyw * uyw;
    let cf2: i128 = cfw * cfw;
    proof {
        lemma_mul_bound(
            cf2 as int,
            hsq as int,
            FOV_SCALE as int * FOV_SCALE as int,
            2 * VEL_LIMIT as int * VEL_LIMIT as int,
        );
        lemma_mul_bound(
            (cf2 * hsq) as int,
            usq as int,
            FOV_SCALE as int * FOV_SCALE as int * 2 * VEL_LIMIT as int * VEL_LIMIT as int,
            2 * RANGE_LIMIT as int * RANGE_LIMIT as int,
        );
    }
    let rhs: i128 = cf2 * hsq * usq;
    if cf <= 0 {
        lhs >= 0 || lhs2 <= rhs
    } else {
        lhs >= 0 && lhs2 >= rhs
    }
}

/// Evaluates the steering rules for agent `i` against its neighbor list:
/// the velocity delta owed this tick and the blended color, exactly as
/// [`dv_spec_x`], [`dv_spec_y`] and [`color_spec`] state them.
pub fn get_dv(
    i: usize,
    agents: &Vec<Boid>,
    neighbors: &Vec<Neighbor>,
    values: &Values,
    pointer: Option<Vec2I>,
) -> (r: (Vec2I, SimpleColor))
    requires
        i < agents@.len(),
        all_wf(agents@),
        values.wf(),
        neighbors@.len() <= NEIGHBOR_LIMIT,
        ptr_bounded(pointer),
    ensures
        r.0.x == dv_spec_x(agents@, i as int, neighbors@, *values, pointer),
        r.0.y == dv_spec_y(agents@, i as int, neighbors@, *values, pointer),
        bounded(r.0, DV_LIMIT as int),
        r.1 == color_spec(agents@, i as int, neighbors@, *values),
        r.1.wf(),
{
    let me = agents[i];
    let mut sep_x: i64 = 0;
    let mut sep_y: i64 = 0;
    let mut n_close: i64 = 0;
    let mut pos_x: i64 = 0;
    let mut pos_y: i64 = 0;
    let mut vel_x: i64 = 0;
    let mut vel_y: i64 = 0;
    let mut col_h: i64 = 0;
    let mut col_s: i64 = 0;
    let mut col_l: i64 = 0;
    let mut n_flock: i64 = 0;
    let mut idx: usize = 0;
    while idx < neighbors.len()
        invariant
            idx <= neighbors@.len(),
            neighbors@.len() <= NEIGHBOR_LIMIT,
            i < agents@.len(),
            all_wf(agents@),
            values.wf(),
            me == agents@[i as int],
            ({
                let a = accum_of(agents@, i as int, neighbors@.take(idx as int), *values);
                &&& sep_x == a.sep_x
                &&& sep_y == a.sep_y
                &&& n_close == a.n_close
                &&& pos_x == a.pos_x
                &&& pos_y == a.pos_y
                &&& vel_x == a.vel_x
                &&& vel_y == a.vel_y
                &&& col_h == a.col_h
                &&& col_s == a.col_s
                &&& col_l == a.col_l
                &&& n_flock == a.n_flock
            }),
        decreases neighbors@.len() - idx,
    {
        let ghost pre = accum_of(agents@, i as int, neighbors@.take(idx as int), *values);
        proof {
            lemma_accum_bounds(agents@, i as int, neighbors@.take(idx as int), *values);
            assert(neighbors@.take(idx as int).len() == idx);
            assert(neighbors@.take(idx + 1).drop_last() =~= neighbors@.take(idx as int));
            assert(neighbors@.take(idx + 1).last() == neighbors@[idx as int]);
        }
        let n = neighbors[idx];
        let j = n.id;
        let ghost ji = j as int;
        if j < agents.len() && j != i {
            let other = agents[j];
            let dx = other.pos.x - me.pos.x;
            let dy = other.pos.y - me.pos.y;
            proof {
                assert(agents@[ji].wf());
                lemma_bound_sq(dx as int, 2 * POS_LIMIT as int);
                lemma_bound_sq(dy as int, 2 * POS_LIMIT as int);
            }
            let d2 = dx * dx + dy * dy;
            proof {
                assert(d2 == cand_dist_sq(agents@, i as int, ji));
            }
            if d2 <= values.vis_range_sq {
                proof {
                    lemma_bound_sq(values.boid_vis_range as int, RANGE_LIMIT as int);
                    lemma_sq_le_bound(dx as int, RANGE_LIMIT as int);
                    lemma_sq_le_bound(dy as int, RANGE_LIMIT as int);
                }
                let seen = if d2 == 0 {
                    true
                } else {
                    fov_check(me.heading, dx, dy, values.boid_fov_cos)
                };
                if seen {
                    proof {
                        assert(visible(agents@, i as int, ji, *values));
                    }
                    if d2 < values.prot_range_sq {
                        proof {
                            assert(is_close(agents@, i as int, ji, *values));
                        }
                        sep_x = sep_x - dx;
                        sep_y = sep_y - dy;
                        n_close = n_close + 1;
                    } else {
                        proof {
                            assert(is_flock(agents@, i as int, ji, *values));
                        }
                        pos_x = pos_x + dx;
                        pos_y = pos_y + dy;
                        vel_x = vel_x + (other.vel.x - me.vel.x);
                        vel_y = vel_y + (other.vel.y - me.vel.y);
                        col_h = col_h + other.color.h;
                        col_s = col_s + other.color.s;
                        col_l = col_l + other.color.l;
                        n_flock = n_flock + 1;
                    }
                } else {
                    proof {
                        assert(!visible(agents@, i as int, ji, *values));
                    }
                }
            } else {
                proof {
                    assert(!visible(agents@, i as int, ji, *values));
                }
            }
        } else {
            proof {
                assert(!visible(agents@, i as int, ji, *values));
            }
        }
        idx = idx + 1;
        proof {
            assert(accum_of(agents@, i as int, neighbors@.take(idx as int), *values)
                == accum_step(pre, agents@, i as int, ji, *values));
        }
    }
    proof {
        assert(neighbors@.take(neighbors@.len() as int) =~= neighbors@);
    }
    let ghost a = accum_of(agents@, i as int, neighbors@, *values);
    proof {
        lemma_accum_bounds(agents@, i as int, neighbors@, *values);
    }
    let mut dvx: i64 = 0;
    let mut dvy: i64 = 0;
    if n_flock > 0 {
        proof {
            lemma_div_tz_bound(a.pos_x, a.n_flock, RANGE_LIMIT as int);
            lemma_div_tz_bound(a.pos_y, a.n_flock, RANGE_LIMIT as int);
            lemma_div_tz_bound(a.vel_x, a.n_flock, 2 * VEL_LIMIT as int);
            lemma_div_tz_bound(a.vel_y, a.n_flock, 2 * VEL_LIMIT as int);
        }
        let avg_px = div_tz_i64(pos_x, n_flock);
        let avg_py = div_tz_i64(pos_y, n_flock);
        let avg_vx = div_tz_i64(vel_x, n_flock);
        let avg_vy = div_tz_i64(vel_y, n_flock);
        proof {
            lemma_mul_bound(
                avg_px as int,
                values.boid_centering_factor as int,
                RANGE_LIMIT as int,
                FACTOR_ONE as int,
            );
            lemma_mul_bound(
                avg_py as int,
                values.boid_centering_factor as int,
                RANGE_LIMIT as int,
                FACTOR_ONE as int,
            );
            lemma_mul_bound(
                avg_vx as int,
                values.boid_matching_factor as int,
                2 * VEL_LIMIT as int,
                FACTOR_ONE as int,
            );
            lemma_mul_bound(
                avg_vy as int,
                values.boid_matching_factor as int,
                2 * VEL_LIMIT as int,
                FACTOR_ONE as int,
            );
            lemma_div_tz_bound(
                avg_px as int * values.boid_centering_factor as int,
                FACTOR_ONE as int,
                RANGE_LIMIT as int,
            );
            lemma_div_tz_bound(
                avg_py as int * values.boid_centering_factor as int,
                FACTOR_ONE as int,
                RANGE_LIMIT as int,
            );
            lemma_div_tz_bound(
                avg_vx as int * values.boid_matching_factor as int,
                FACTOR_ONE as int,
                2 * VEL_LIMIT as int,
            );
            lemma_div_tz_bound(
                avg_vy as int * values.boid_matching_factor as int,
                FACTOR_ONE as int,
                2 * VEL_LIMIT as int,
            );
        }
        let t1x = div_tz_i64(avg_px * values.boid_centering_factor, FACTOR_ONE);
        let t1y = div_tz_i64(avg_py * values.boid_centering_factor, FACTOR_ONE);
        let t2x = div_tz_i64(avg_vx * values.boid_matching_factor, FACTOR_ONE);
        let t2y = div_tz_i64(avg_vy * values.boid_matching_factor, FACTOR_ONE);
        dvx = t1x + t2x;
        dvy = t1y + t2y;
    }
    if n_close > 0 {
        proof {
            lemma_div_tz_bound(a.sep_x, a.n_close, RANGE_LIMIT as int);
            lemma_div_tz_bound(a.sep_y, a.n_close, RANGE_LIMIT as int);
        }
        let avg_sx = div_tz_i64(sep_x, n_close);
        let avg_sy = div_tz_i64(sep_y, n_close);
        proof {
            lemma_mul_bound(
                avg_sx as int,
                values.boid_avoidance_factor as int,
                RANGE_LIMIT as int,
                FACTOR_ONE as int,
            );
            lemma_mul_bound(
                avg_sy as int,
                values.boid_avoidance_factor as int,
                RANGE_LIMIT as int,
                FACTOR_ONE as int,
            );
            lemma_div_tz_bound(
                avg_sx as int * values.boid_avoidance_factor as int,
                FACTOR_ONE as int,
                RANGE_LIMIT as int,
            );
            lemma_div_tz_bound(
                avg_sy as int * values.boid_avoidance_factor as int,
                FACTOR_ONE as int,
                RANGE_LIMIT as int,
            );
        }
        let t3x = div_tz_i64(avg_sx * values.boid_avoidance_factor, FACTOR_ONE);
        let t3y = div_tz_i64(avg_sy * values.boid_avoidance_factor, FACTOR_ONE);
        dvx = dvx + t3x;
        dvy = dvy + t3y;
    }
    match pointer {
        Option::Some(p) => {
            let ex = p.x - me.pos.x;
            let ey = p.y - me.pos.y;
            proof {
                lemma_mul_bound(
                    ex as int,
                    values.boid_mouse_chase_factor as int,
                    2 * POS_LIMIT as int,
                    FACTOR_ONE as int,
                );
                lemma_mul_bound(
                    ey as int,
                    values.boid_mouse_chase_factor as int,
                    2 * POS_LIMIT as int,
                    FACTOR_ONE as int,
                );
                lemma_div_tz_bound(
                    ex as int * values.boid_mouse_chase_factor as int,
                    FACTOR_ONE as int,
                    2 * POS_LIMIT as int,
                );
                lemma_div_tz_bound(
                    ey as int * values.boid_mouse_chase_factor as int,
                    FACTOR_ONE as int,
                    2 * POS_LIMIT as int,
                );
            }
            let tx = div_tz_i64(ex * values.boid_mouse_chase_factor, FACTOR_ONE);
            let ty = div_tz_i64(ey * values.boid_mouse_chase_factor, FACTOR_ONE);
            if values.modes.mouse_predator {
                dvx = dvx - tx;
                dvy = dvy - ty;
            } else {
                dvx = dvx + tx;
                dvy = dvy + ty;
            }
        },
        Option::None => {},
    }
    let out_color = if n_flock > 0 {
        proof {
            lemma_div_tz_bound(a.col_h, a.n_flock, HUE_LIMIT as int);
            lemma_div_tz_bound(a.col_s, a.n_flock, SL_LIMIT as int);
            lemma_div_tz_bound(a.col_l, a.n_flock, SL_LIMIT as int);
            lemma_div_tz_sign(a.col_h, a.n_flock);
            lemma_div_tz_sign(a.col_s, a.n_flock);
            lemma_div_tz_sign(a.col_l, a.n_flock);
        }
        let avg_h = div_tz_i64(col_h, n_flock);
        let avg_s = div_tz_i64(col_s, n_flock);
        let avg_l = div_tz_i64(col_l, n_flock);
        let avg = SimpleColor { h: avg_h, s: avg_s, l: avg_l };
        proof {
            assert(avg == avg_color(a));
        }
        me.color.lerp(avg, BLEND_DIV)
    } else {
        me.color.lerp(me.start_color, REVERT_DIV)
    };
    (Vec2I { x: dvx, y: dvy }, out_color)
}

/// Neighbor pairs partition: a candidate is counted toward exactly one of
/// separation and cohesion-plus-alignment — never both — and the side is
/// decided solely by its squared distance against the protection range.
pub proof fn lemma_separation_cohesion_partition(
    agents: Seq<Boid>,
    i: int,
    j: int,
    v: Values,
)
    ensures
        !(is_close(agents, i, j, v) && is_flock(agents, i, j, v)),
        visible(agents, i, j, v) ==> (is_close(agents, i, j, v) <==> cand_dist_sq(agents, i, j)
            < v.prot_range_sq),
        visible(agents, i, j, v) ==> (is_flock(agents, i, j, v) <==> cand_dist_sq(agents, i, j)
            >= v.prot_range_sq),
        visible(agents, i, j, v) ==> (is_close(agents, i, j, v) || is_flock(agents, i, j, v)),
{
}

/// The squared distance between two agents does not depend on which end
/// measures: range culling is symmetric.
pub proof fn lemma_range_symmetry(agents: Seq<Boid>, a: int, b: int)
    ensures
        cand_dist_sq(agents, a, b) == cand_dist_sq(agents, b, a),
{
    assert(cand_dist_sq(agents, a, b) == cand_dist_sq(agents, b, a)) by (nonlinear_arith)
        requires
            cand_dist_sq(agents, a, b) == rel_x(agents, a, b) * rel_x(agents, a, b) + rel_y(
                agents,
                a,
                b,
            ) * rel_y(agents, a, b),
            cand_dist_sq(agents, b, a) == rel_x(agents, b, a) * rel_x(agents, b, a) + rel_y(
                agents,
                b,
                a,
            ) * rel_y(agents, b, a),
            rel_x(agents, a, b) == -rel_x(agents, b, a),
            rel_y(agents, a, b) == -rel_y(agents, b, a),
    ;
}

/// A candidate the cull rejects leaves every sum unchanged wherever it
/// stands in the neighbor list.
proof fn lemma_rejected_no_influence(
    agents: Seq<Boid>,
    i: int,
    ns1: Seq<Neighbor>,
    ns2: Seq<Neighbor>,
    n: Neighbor,
    v: Values,
)
    requires
        !visible(agents, i, n.id as int, v),
    ensures
        accum_of(agents, i, ns1 + seq![n] + ns2, v) == accum_of(agents, i, ns1 + ns2, v),
    decreases ns2.len(),
{
    if ns2.len() == 0 {
        assert((ns1 + seq![n] + ns2) =~= ns1 + seq![n]);
        assert((ns1 + seq![n]).drop_last() =~= ns1);
        assert((ns1 + seq![n]).last() == n);
        assert(ns1 + ns2 =~= ns1);
    } else {
        let shorter = ns2.drop_last();
        lemma_rejected_no_influence(agents, i, ns1, shorter, n, v);
        assert((ns1 + seq![n] + ns2).drop_last() =~= ns1 + seq![n] + shorter);
        assert((ns1 + seq![n] + ns2).last() == ns2.last());
        assert((ns1 + ns2).drop_last() =~= ns1 + shorter);
        assert((ns1 + ns2).last() == ns2.last());
        assert((ns1 + ns2).len() > 0);
    }
}

/// Neighbor symmetry under range: a candidate beyond the visibility range
/// contributes nothing to the delta-velocity or the color, wherever it
/// stands in the neighbor list — and since squared distance is symmetric
/// ([`lemma_range_symmetry`]), neither of two out-of-range agents
/// influences the other.
pub proof fn lemma_out_of_range_ignored(
    agents: Seq<Boid>,
    i: int,
    ns1: Seq<Neighbor>,
    ns2: Seq<Neighbor>,
    n: Neighbor,
    v: Values,
    ptr: Option<Vec2I>,
)
    requires
        cand_dist_sq(agents, i, n.id as int) > v.vis_range_sq,
    ensures
        dv_spec_x(agents, i, ns1 + seq![n] + ns2, v, ptr) == dv_spec_x(
            agents,
            i,
            ns1 + ns2,
            v,
            ptr,
        ),
        dv_spec_y(agents, i, ns1 + seq![n] + ns2, v, ptr) == dv_spec_y(
            agents,
            i,
            ns1 + ns2,
            v,
            ptr,
        ),
        color_spec(agents, i, ns1 + seq![n] + ns2, v) == color_spec(agents, i, ns1 + ns2, v),
{
    lemma_rejected_no_influence(agents, i, ns1, ns2, n, v);
}

/// Field-of-view exclusion: a candidate at a real distance whose
/// direction falls outside the cone contributes nothing to separation,
/// cohesion, alignment or color, even within visibility range.
pub proof fn lemma_fov_excluded_ignored(
    agents: Seq<Boid>,
    i: int,
    ns1: Seq<Neighbor>,
    ns2: Seq<Neighbor>,
    n: Neighbor,
    v: Values,
    ptr: Option<Vec2I>,
)
    requires
        cand_dist_sq(agents, i, n.id as int) != 0,
        !fov_ok(
            agents[i].heading,
            rel_x(agents, i, n.id as int),
            rel_y(agents, i, n.id as int),
            v.boid_fov_cos as int,
        ),
    ensures
        dv_spec_x(agents, i, ns1 + seq![n] + ns2, v, ptr) == dv_spec_x(
            agents,
            i,
            ns1 + ns2,
            v,
            ptr,
        ),
        dv_spec_y(agents, i, ns1 + seq![n] + ns2, v, ptr) == dv_spec_y(
            agents,
            i,
            ns1 + ns2,
            v,
            ptr,
        ),
        color_spec(agents, i, ns1 + seq![n] + ns2, v) == color_spec(agents, i, ns1 + ns2, v),
{
    lemma_rejected_no_influence(agents, i, ns1, ns2, n, v);
}

/// A neighbor list in which nothing is seen leaves the sums empty.
proof fn lemma_all_rejected_empty(
    agents: Seq<Boid>,
    i: int,
    ns: Seq<Neighbor>,
    v: Values,
)
    requires
        forall|q: int| 0 <= q < ns.len() ==> !visible(agents, i, (#[trigger] ns[q]).id as int, v),
    ensures
        accum_of(agents, i, ns, v) == accum_empty(),
    decreases ns.len(),
{
    if ns.len() > 0 {
        lemma_all_rejected_empty(agents, i, ns.drop_last(), v);
        assert(ns.last() == ns[ns.len() - 1]);
    }
}

/// Isolation reversion: an agent that sees no neighbor gets no centering,
/// matching or avoidance delta — only the pointer term — and its color
/// relaxes toward its own start color.
pub proof fn lemma_isolated_agent(
    agents: Seq<Boid>,
    i: int,
    ns: Seq<Neighbor>,
    v: Values,
    ptr: Option<Vec2I>,
)
    requires
        forall|q: int| 0 <= q < ns.len() ==> !visible(agents, i, (#[trigger] ns[q]).id as int, v),
    ensures
        dv_spec_x(agents, i, ns, v, ptr) == ptr_term_x(agents[i].pos, ptr, v),
        dv_spec_y(agents, i, ns, v, ptr) == ptr_term_y(agents[i].pos, ptr, v),
        color_spec(agents, i, ns, v) == color_lerp(
            agents[i].color,
            agents[i].start_color,
            REVERT_DIV as int,
        ),
{
    lemma_all_rejected_empty(agents, i, ns, v);
}

} // verus!
