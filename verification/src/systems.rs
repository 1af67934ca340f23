//! The per-tick pipeline stages around the evaluator: the batch
//! dispatcher that fans the evaluator over contiguous chunks of the
//! agent arena, the velocity integrator that applies the resulting
//! deltas, the position/heading integrator, and color diffusion.
//!
//! All mutation of agent state happens in the integrator stages; the
//! dispatch stage only reads a snapshot and the index.

use crate::boid::{all_wf, Boid, ColorEvent, DvEvent};
use crate::index::{nearest_spec, SpatialIndex};
use crate::math::{div_tz, div_tz_i64};
use crate::params::{Values, WORLD_LIMIT};
use crate::speed::{clamp_speed, clamp_speed_spec, speed_ok, CLAMP_IN_LIMIT};
use crate::steer::{color_spec, dv_spec_x, dv_spec_y, get_dv, ptr_bounded};
use crate::vec2::{bounded, Vec2I, DV_LIMIT, POS_LIMIT, VEL_LIMIT};
use vstd::prelude::*;

verus! {

/// Events with pairwise different targets: each agent's delta is applied
/// at most once per tick.
pub open spec fn distinct_ids(events: Seq<DvEvent>) -> bool {
    forall|a: int, b: int|
        0 <= a < b < events.len() ==> (#[trigger] events[a]).id != (#[trigger] events[b]).id
}

/// Every event names an agent of the arena and carries a delta within
/// the evaluator's output bound.
pub open spec fn events_fit(events: Seq<DvEvent>, n: int) -> bool {
    forall|e: int|
        0 <= e < events.len() ==> (#[trigger] events[e]).id < n && bounded(
            events[e].dv,
            DV_LIMIT as int,
        )
}

/// The x velocity after the delta and the boundary policy: in bounded
/// mode a position beyond half the usable width is nudged back by the
/// turn factor; toroidal mode leaves the velocity to the (unimplemented)
/// wrap policy.
pub open spec fn nudged_x(b: Boid, dv: Vec2I, w: int, v: Values) -> int {
    let base = b.vel.x + dv.x;
    if v.modes.toroidal {
        base
    } else {
        let w_half = div_tz(w - v.boid_bound_size, 2);
        let t = if b.pos.x < -w_half {
            base + v.boid_turn_factor
        } else {
            base
        };
        if b.pos.x > w_half {
            t - v.boid_turn_factor
        } else {
            t
        }
    }
}

/// The y velocity after the delta and the boundary policy.
pub open spec fn nudged_y(b: Boid, dv: Vec2I, h: int, v: Values) -> int {
    let base = b.vel.y + dv.y;
    if v.modes.toroidal {
        base
    } else {
        let h_half = div_tz(h - v.boid_bound_size, 2);
        let t = if b.pos.y < -h_half {
            base + v.boid_turn_factor
        } else {
            base
        };
        if b.pos.y > h_half {
            t - v.boid_turn_factor
        } else {
            t
        }
    }
}

/// One agent through the velocity integrator: delta applied, boundary
/// nudge, then the speed clamp.
pub open spec fn velo_apply(b: Boid, dv: Vec2I, w: int, h: int, v: Values) -> Boid {
    let nudged = Vec2I { x: nudged_x(b, dv, w, v) as i64, y: nudged_y(b, dv, h, v) as i64 };
    Boid {
        vel: clamp_speed_spec(nudged, v.boid_min_speed as int, v.boid_max_speed as int),
        ..b
    }
}

/// The velocity integrator: consumes this tick's delta-velocity events,
/// applying each to its agent — `velocity += delta`, the boundary nudge,
/// then the speed clamp — and leaves every other agent untouched. After
/// it, every agent that received an event has its speed on the
/// configured band ([`speed_ok`]): the speed-bound invariant.
pub fn velo_system(
    agents: &mut Vec<Boid>,
    events: &Vec<DvEvent>,
    width: i64,
    height: i64,
    values: &Values,
)
    requires
        all_wf(old(agents)@),
        values.wf(),
        0 <= width <= WORLD_LIMIT,
        0 <= height <= WORLD_LIMIT,
        events_fit(events@, old(agents)@.len() as int),
        distinct_ids(events@),
    ensures
        final(agents)@.len() == old(agents)@.len(),
        forall|e: int|
            0 <= e < events@.len() ==> final(agents)@[(#[trigger] events@[e]).id as int]
                == velo_apply(
                old(agents)@[events@[e].id as int],
                events@[e].dv,
                width as int,
                height as int,
                *values,
            ),
        forall|j: int|
            0 <= j < old(agents)@.len() && (forall|e: int|
                0 <= e < events@.len() ==> (#[trigger] events@[e]).id != j)
                ==> final(agents)@[j] == old(agents)@[j],
        all_wf(final(agents)@),
        forall|e: int|
            0 <= e < events@.len() ==> speed_ok(
                final(agents)@[(#[trigger] events@[e]).id as int].vel,
                values.boid_min_speed as int,
                values.boid_max_speed as int,
            ),
{
    let ghost orig = agents@;
    let mut e: usize = 0;
    while e < events.len()
        invariant
            e <= events@.len(),
            agents@.len() == orig.len(),
            all_wf(orig),
            all_wf(agents@),
            values.wf(),
            0 <= width <= WORLD_LIMIT,
            0 <= height <= WORLD_LIMIT,
            events_fit(events@, orig.len() as int),
            distinct_ids(events@),
            forall|q: int|
                0 <= q < e ==> agents@[(#[trigger] events@[q]).id as int] == velo_apply(
                    orig[events@[q].id as int],
                    events@[q].dv,
                    width as int,
                    height as int,
                    *values,
                ),
            forall|q: int|
                0 <= q < e ==> speed_ok(
                    agents@[(#[trigger] events@[q]).id as int].vel,
                    values.boid_min_speed as int,
                    values.boid_max_speed as int,
                ),
            forall|j: int|
                0 <= j < orig.len() && (forall|q: int|
                    0 <= q < e ==> (#[trigger] events@[q]).id != j) ==> agents@[j] == orig[j],
        decreases events@.len() - e,
    {
        let ev = events[e];
        let idx = ev.id;
        proof {
            assert(forall|q: int| 0 <= q < e ==> (#[trigger] events@[q]).id != idx);
            assert(agents@[idx as int] == orig[idx as int]);
            assert(orig[idx as int].wf());
        }
        let b = agents[idx];
        let w_half = div_tz_i64(width - values.boid_bound_size, 2);
        let h_half = div_tz_i64(height - values.boid_bound_size, 2);
        let mut vx = b.vel.x + ev.dv.x;
        let mut vy = b.vel.y + ev.dv.y;
        if !values.modes.toroidal {
            if b.pos.x < -w_half {
                vx = vx + values.boid_turn_factor;
            }
            if b.pos.x > w_half {
                vx = vx - values.boid_turn_factor;
            }
            if b.pos.y < -h_half {
                vy = vy + values.boid_turn_factor;
            }
            if b.pos.y > h_half {
                vy = vy - values.boid_turn_factor;
            }
        }
        let nudged = Vec2I { x: vx, y: vy };
        proof {
            assert(bounded(nudged, CLAMP_IN_LIMIT as int));
            assert(nudged.x == nudged_x(b, ev.dv, width as int, *values));
            assert(nudged.y == nudged_y(b, ev.dv, height as int, *values));
        }
        let nv = clamp_speed(nudged, values.boid_min_speed, values.boid_max_speed);
        let nb = Boid { vel: nv, ..b };
        proof {
            assert(nb == velo_apply(
                orig[idx as int],
                ev.dv,
                width as int,
                height as int,
                *values,
            ));
            assert(nb.wf());
        }
        let ghost before = agents@;
        agents[idx] = nb;
        e = e + 1;
        proof {
            assert forall|q: int| 0 <= q < e implies agents@[(#[trigger] events@[q]).id as int]
                == velo_apply(
                orig[events@[q].id as int],
                events@[q].dv,
                width as int,
                height as int,
                *values,
            ) by {
                if q < e - 1 {
                    assert(events@[q].id != idx);
                    assert(agents@[events@[q].id as int] == before[events@[q].id as int]);
                }
            }
            assert forall|q: int|
                0 <= q < e implies speed_ok(
                agents@[(#[trigger] events@[q]).id as int].vel,
                values.boid_min_speed as int,
                values.boid_max_speed as int,
            ) by {
                if q < e - 1 {
                    assert(events@[q].id != idx);
                    assert(agents@[events@[q].id as int] == before[events@[q].id as int]);
                }
            }
            assert forall|j: int|
                0 <= j < orig.len() && (forall|q: int|
                    0 <= q < e ==> (#[trigger] events@[q]).id != j) implies agents@[j]
                == orig[j] by {
                assert(events@[e - 1].id == idx);
                assert(j != idx);
            }
        }
    }
}

/// One agent through the position/heading integrator: the position
/// advances by the velocity, and the facing direction becomes the
/// velocity — kept as it was when the velocity is zero, so a heading
/// always exists.
pub open spec fn move_apply(b: Boid) -> Boid {
    Boid {
        pos: Vec2I { x: (b.pos.x + b.vel.x) as i64, y: (b.pos.y + b.vel.y) as i64 },
        heading: if b.vel.is_zero() {
            b.heading
        } else {
            b.vel
        },
        ..b
    }
}

/// Positions far enough from the representable edge that one tick of
/// movement stays within the world limits.
pub open spec fn has_headroom(agents: Seq<Boid>) -> bool {
    forall|i: int|
        0 <= i < agents.len() ==> bounded(
            (#[trigger] agents[i]).pos,
            POS_LIMIT as int - VEL_LIMIT as int,
        )
}

/// The position/heading integrator: every agent advances by its
/// velocity, and faces where it moves.
pub fn movement_system(agents: &mut Vec<Boid>)
    requires
        all_wf(old(agents)@),
        has_headroom(old(agents)@),
    ensures
        final(agents)@.len() == old(agents)@.len(),
        forall|i: int|
            0 <= i < old(agents)@.len() ==> final(agents)@[i] == move_apply(
                old(agents)@[i],
            ),
        all_wf(final(agents)@),
{
    let ghost orig = agents@;
    let mut i: usize = 0;
    while i < agents.len()
        invariant
            i <= orig.len(),
            agents@.len() == orig.len(),
            all_wf(orig),
            has_headroom(orig),
            forall|j: int| 0 <= j < i ==> agents@[j] == move_apply(orig[j]),
            forall|j: int| i <= j < orig.len() ==> agents@[j] == orig[j],
            all_wf(agents@),
        decreases orig.len() - i,
    {
        let b = agents[i];
        proof {
            assert(orig[i as int].wf());
        }
        let heading = if b.vel.x == 0 && b.vel.y == 0 {
            b.heading
        } else {
            b.vel
        };
        let nb = Boid {
            pos: Vec2I { x: b.pos.x + b.vel.x, y: b.pos.y + b.vel.y },
            heading,
            ..b
        };
        proof {
            assert(nb == move_apply(orig[i as int]));
            assert(nb.wf());
        }
        agents[i] = nb;
        i = i + 1;
    }
}

/// Color events with pairwise different targets.
pub open spec fn distinct_color_ids(events: Seq<ColorEvent>) -> bool {
    forall|a: int, b: int|
        0 <= a < b < events.len() ==> (#[trigger] events[a]).id != (#[trigger] events[b]).id
}

/// Every event color within the color scales.
pub open spec fn colors_fit(events: Seq<ColorEvent>) -> bool {
    forall|e: int| 0 <= e < events.len() ==> (#[trigger] events[e]).color.wf()
}

/// Color diffusion: overwrites each targeted agent's stored color with
/// the blend the evaluator computed; an event whose identity no longer
/// names an agent is skipped.
pub fn color_change_system(agents: &mut Vec<Boid>, events: &Vec<ColorEvent>)
    requires
        all_wf(old(agents)@),
        distinct_color_ids(events@),
        colors_fit(events@),
    ensures
        final(agents)@.len() == old(agents)@.len(),
        forall|e: int|
            0 <= e < events@.len() && (#[trigger] events@[e]).id < old(agents)@.len()
                ==> final(agents)@[events@[e].id as int] == (Boid {
                color: events@[e].color,
                ..old(agents)@[events@[e].id as int]
            }),
        forall|j: int|
            0 <= j < old(agents)@.len() && (forall|e: int|
                0 <= e < events@.len() ==> (#[trigger] events@[e]).id != j)
                ==> final(agents)@[j] == old(agents)@[j],
        all_wf(final(agents)@),
{
    let ghost orig = agents@;
    let mut e: usize = 0;
    while e < events.len()
        invariant
            e <= events@.len(),
            agents@.len() == orig.len(),
            all_wf(orig),
            all_wf(agents@),
            distinct_color_ids(events@),
            colors_fit(events@),
            forall|q: int|
                0 <= q < e && (#[trigger] events@[q]).id < orig.len() ==> agents@[events@[q].id
                    as int] == (Boid { color: events@[q].color, ..orig[events@[q].id as int] }),
            forall|j: int|
                0 <= j < orig.len() && (forall|q: int|
                    0 <= q < e ==> (#[trigger] events@[q]).id != j) ==> agents@[j] == orig[j],
        decreases events@.len() - e,
    {
        let ev = events[e];
        let idx = ev.id;
        if idx < agents.len() {
            proof {
                assert(forall|q: int| 0 <= q < e ==> (#[trigger] events@[q]).id != idx);
                assert(agents@[idx as int] == orig[idx as int]);
                assert(orig[idx as int].wf());
            }
            let b = agents[idx];
            let nb = Boid { color: ev.color, ..b };
            proof {
                assert(nb.wf());
            }
            let ghost before = agents@;
            agents[idx] = nb;
            e = e + 1;
            proof {
                assert forall|q: int|
                    0 <= q < e && (#[trigger] events@[q]).id < orig.len() implies agents@[
                    events@[q].id as int] == (Boid {
                    color: events@[q].color,
                    ..orig[events@[q].id as int]
                }) by {
                    if q < e - 1 {
                        assert(events@[q].id != idx);
                        assert(agents@[events@[q].id as int] == before[events@[q].id as int]);
                    }
                }
                assert forall|j: int|
                    0 <= j < orig.len() && (forall|q: int|
                        0 <= q < e ==> (#[trigger] events@[q]).id != j) implies agents@[j]
                    == orig[j] by {
                    assert(events@[e - 1].id == idx);
                    assert(j != idx);
                }
            }
        } else {
            e = e + 1;
            proof {
                assert forall|j: int|
                    0 <= j < orig.len() && (forall|q: int|
                        0 <= q < e ==> (#[trigger] events@[q]).id != j) implies agents@[j]
                    == orig[j] by {}
            }
        }
    }
}

/// The delta-velocity event the dispatcher owes agent `i`: the evaluator
/// run against the `max_neighbors` nearest index entries to `i`'s
/// position.
pub open spec fn dv_event_spec(
    agents: Seq<Boid>,
    entries: Seq<crate::index::IndexEntry>,
    v: Values,
    ptr: Option<Vec2I>,
    i: int,
) -> DvEvent {
    let ns = nearest_spec(entries, agents[i].pos, v.max_neighbors as int);
    DvEvent {
        id: i as usize,
        dv: Vec2I {
            x: dv_spec_x(agents, i, ns, v, ptr) as i64,
            y: dv_spec_y(agents, i, ns, v, ptr) as i64,
        },
    }
}

/// The color event the dispatcher owes agent `i`.
pub open spec fn color_event_spec(
    agents: Seq<Boid>,
    entries: Seq<crate::index::IndexEntry>,
    v: Values,
    i: int,
) -> ColorEvent {
    let ns = nearest_spec(entries, agents[i].pos, v.max_neighbors as int);
    ColorEvent { id: i as usize, color: color_spec(agents, i, ns, v) }
}

/// All delta-velocity events of one tick, one per agent, in arena order.
pub open spec fn flocking_events(
    agents: Seq<Boid>,
    entries: Seq<crate::index::IndexEntry>,
    v: Values,
    ptr: Option<Vec2I>,
) -> Seq<DvEvent> {
    Seq::new(agents.len(), |i: int| dv_event_spec(agents, entries, v, ptr, i))
}

/// All color events of one tick.
pub open spec fn flocking_colors(
    agents: Seq<Boid>,
    entries: Seq<crate::index::IndexEntry>,
    v: Values,
) -> Seq<ColorEvent> {
    Seq::new(agents.len(), |i: int| color_event_spec(agents, entries, v, i))
}

/// One worker's share of the dispatch: evaluates every agent of the
/// chunk `[lo, hi)` against the shared snapshot, index, tunables and
/// pointer, and returns its locally ordered event batches.
pub fn evaluate_chunk(
    agents: &Vec<Boid>,
    index: &SpatialIndex,
    values: &Values,
    pointer: Option<Vec2I>,
    lo: usize,
    hi: usize,
) -> (r: (Vec<DvEvent>, Vec<ColorEvent>))
    requires
        lo <= hi <= agents@.len(),
        all_wf(agents@),
        values.wf(),
        index.wf(),
        ptr_bounded(pointer),
    ensures
        r.0@.len() == hi - lo,
        r.1@.len() == hi - lo,
        forall|q: int|
            0 <= q < hi - lo ==> r.0@[q] == dv_event_spec(
                agents@,
                index@,
                *values,
                pointer,
                lo + q,
            ),
        forall|q: int|
            0 <= q < hi - lo ==> r.1@[q] == color_event_spec(agents@, index@, *values, lo + q),
        forall|q: int| 0 <= q < hi - lo ==> bounded((#[trigger] r.0@[q]).dv, DV_LIMIT as int),
        forall|q: int| 0 <= q < hi - lo ==> (#[trigger] r.1@[q]).color.wf(),
{
    let mut dvs: Vec<DvEvent> = Vec::new();
    let mut cols: Vec<ColorEvent> = Vec::new();
    let mut i: usize = lo;
    while i < hi
        invariant
            lo <= i <= hi <= agents@.len(),
            all_wf(agents@),
            values.wf(),
            index.wf(),
            ptr_bounded(pointer),
            dvs@.len() == i - lo,
            cols@.len() == i - lo,
            forall|q: int|
                0 <= q < i - lo ==> dvs@[q] == dv_event_spec(
                    agents@,
                    index@,
                    *values,
                    pointer,
                    lo + q,
                ),
            forall|q: int|
                0 <= q < i - lo ==> cols@[q] == color_event_spec(agents@, index@, *values, lo + q),
            forall|q: int| 0 <= q < i - lo ==> bounded((#[trigger] dvs@[q]).dv, DV_LIMIT as int),
            forall|q: int| 0 <= q < i - lo ==> (#[trigger] cols@[q]).color.wf(),
        decreases hi - i,
    {
        proof {
            assert(agents@[i as int].wf());
        }
        let b = agents[i];
        let nbs = index.k_nearest(b.pos, values.max_neighbors);
        let (dv, color) = get_dv(i, agents, &nbs, values, pointer);
        dvs.push(DvEvent { id: i, dv });
        cols.push(ColorEvent { id: i, color });
        i = i + 1;
    }
    (dvs, cols)
}

/// One agent through a whole tick: the evaluator's delta applied by the
/// velocity integrator, the position/heading integrator, then the
/// evaluator's blended color.
pub open spec fn tick_apply(
    agents: Seq<Boid>,
    entries: Seq<crate::index::IndexEntry>,
    v: Values,
    ptr: Option<Vec2I>,
    w: int,
    h: int,
    j: int,
) -> Boid {
    let dv = dv_event_spec(agents, entries, v, ptr, j).dv;
    let c = color_event_spec(agents, entries, v, j).color;
    Boid { color: c, ..move_apply(velo_apply(agents[j], dv, w, h, v)) }
}

/// One full simulation step over the arena: dispatch against the (possibly
/// one rebuild stale) index, velocity integration, position integration,
/// color diffusion — in that order, with no agent state mutated before
/// the dispatch completes. Afterwards every agent's speed is on the
/// configured band, whatever the tick count: each tick re-establishes
/// this function's own precondition except for the position headroom,
/// which the host re-checks as positions drift.
pub fn tick(
    agents: &mut Vec<Boid>,
    index: &SpatialIndex,
    values: &Values,
    pointer: Option<Vec2I>,
    width: i64,
    height: i64,
    workers: usize,
)
    requires
        workers >= 1,
        old(agents)@.len() < usize::MAX,
        all_wf(old(agents)@),
        has_headroom(old(agents)@),
        values.wf(),
        index.wf(),
        ptr_bounded(pointer),
        0 <= width <= WORLD_LIMIT,
        0 <= height <= WORLD_LIMIT,
    ensures
        final(agents)@.len() == old(agents)@.len(),
        forall|j: int|
            0 <= j < old(agents)@.len() ==> final(agents)@[j] == tick_apply(
                old(agents)@,
                index@,
                *values,
                pointer,
                width as int,
                height as int,
                j,
            ),
        all_wf(final(agents)@),
        forall|j: int|
            0 <= j < final(agents)@.len() ==> speed_ok(
                (#[trigger] final(agents)@[j]).vel,
                values.boid_min_speed as int,
                values.boid_max_speed as int,
            ),
{
    let ghost s0 = agents@;
    let (dvs, cols) = flocking_system(agents, index, values, pointer, workers);
    velo_system(agents, &dvs, width, height, values);
    let ghost s1 = agents@;
    proof {
        assert forall|j: int| 0 <= j < s0.len() implies s1[j] == velo_apply(
            s0[j],
            dvs@[j].dv,
            width as int,
            height as int,
            *values,
        ) && speed_ok(
            s1[j].vel,
            values.boid_min_speed as int,
            values.boid_max_speed as int,
        ) by {
            assert(dvs@[j].id == j);
        }
        assert(has_headroom(s1)) by {
            assert forall|j: int|
                0 <= j < s1.len() implies bounded(
                (#[trigger] s1[j]).pos,
                POS_LIMIT as int - VEL_LIMIT as int,
            ) by {
                assert(s1[j].pos == s0[j].pos);
            }
        }
    }
    movement_system(agents);
    let ghost s2 = agents@;
    color_change_system(agents, &cols);
    proof {
        assert forall|j: int| 0 <= j < s0.len() implies agents@[j] == tick_apply(
            s0,
            index@,
            *values,
            pointer,
            width as int,
            height as int,
            j,
        ) by {
            assert(cols@[j].id == j);
            assert(agents@[j] == (Boid { color: cols@[j].color, ..s2[j] }));
            assert(s2[j] == move_apply(s1[j]));
        }
        assert forall|j: int| 0 <= j < agents@.len() implies speed_ok(
            (#[trigger] agents@[j]).vel,
            values.boid_min_speed as int,
            values.boid_max_speed as int,
        ) by {
            assert(agents@[j].vel == s1[j].vel);
        }
    }
}

/// The batch dispatcher: partitions the arena into contiguous chunks of
/// `ceil(n / workers)` agents, runs the evaluator over each chunk, and
/// emits the concatenation of the chunk batches. The result is one event
/// of each kind per agent, in arena order, and — as the contract shows —
/// it depends only on the snapshot, the index, the tunables and the
/// pointer, never on `workers`: chunking is purely a load-balancing
/// device.
pub fn flocking_system(
    agents: &Vec<Boid>,
    index: &SpatialIndex,
    values: &Values,
    pointer: Option<Vec2I>,
    workers: usize,
) -> (r: (Vec<DvEvent>, Vec<ColorEvent>))
    requires
        workers >= 1,
        agents@.len() < usize::MAX,
        all_wf(agents@),
        values.wf(),
        index.wf(),
        ptr_bounded(pointer),
    ensures
        r.0@ == flocking_events(agents@, index@, *values, pointer),
        r.1@ == flocking_colors(agents@, index@, *values),
        r.0@.len() == agents@.len(),
        r.1@.len() == agents@.len(),
        forall|i: int| 0 <= i < agents@.len() ==> (#[trigger] r.0@[i]).id == i,
        forall|i: int| 0 <= i < agents@.len() ==> (#[trigger] r.1@[i]).id == i,
        events_fit(r.0@, agents@.len() as int),
        distinct_ids(r.0@),
        colors_fit(r.1@),
        distinct_color_ids(r.1@),
{
    let n = agents.len();
    proof {
        assert(n as int / workers as int <= n as int) by (nonlinear_arith)
            requires
                workers as int >= 1,
                n as int >= 0,
        ;
    }
    let chunk = n / workers + 1;
    let mut dvs: Vec<DvEvent> = Vec::new();
    let mut cols: Vec<ColorEvent> = Vec::new();
    let mut lo: usize = 0;
    while lo < n
        invariant
            lo <= n,
            n == agents@.len(),
            chunk >= 1,
            all_wf(agents@),
            values.wf(),
            index.wf(),
            ptr_bounded(pointer),
            dvs@.len() == lo,
            cols@.len() == lo,
            forall|q: int|
                0 <= q < lo ==> dvs@[q] == dv_event_spec(agents@, index@, *values, pointer, q),
            forall|q: int|
                0 <= q < lo ==> cols@[q] == color_event_spec(agents@, index@, *values, q),
            forall|q: int| 0 <= q < lo ==> bounded((#[trigger] dvs@[q]).dv, DV_LIMIT as int),
            forall|q: int| 0 <= q < lo ==> (#[trigger] cols@[q]).color.wf(),
        decreases n - lo,
    {
        let hi = if n - lo > chunk {
            lo + chunk
        } else {
            n
        };
        let (dvb, cb) = evaluate_chunk(agents, index, values, pointer, lo, hi);
        let mut q: usize = 0;
        while q < dvb.len()
            invariant
                q <= dvb@.len(),
                dvb@.len() == hi - lo,
                cb@.len() == hi - lo,
                lo <= hi <= n,
                n == agents@.len(),
                dvs@.len() == lo + q,
                cols@.len() == lo + q,
                forall|t: int|
                    0 <= t < hi - lo ==> dvb@[t] == dv_event_spec(
                        agents@,
                        index@,
                        *values,
                        pointer,
                        lo + t,
                    ),
                forall|t: int|
                    0 <= t < hi - lo ==> cb@[t] == color_event_spec(
                        agents@,
                        index@,
                        *values,
                        lo + t,
                    ),
                forall|t: int| 0 <= t < hi - lo ==> bounded((#[trigger] dvb@[t]).dv, DV_LIMIT as int),
                forall|t: int| 0 <= t < hi - lo ==> (#[trigger] cb@[t]).color.wf(),
                forall|t: int|
                    0 <= t < lo + q ==> dvs@[t] == dv_event_spec(
                        agents@,
                        index@,
                        *values,
                        pointer,
                        t,
                    ),
                forall|t: int|
                    0 <= t < lo + q ==> cols@[t] == color_event_spec(agents@, index@, *values, t),
                forall|t: int| 0 <= t < lo + q ==> bounded((#[trigger] dvs@[t]).dv, DV_LIMIT as int),
                forall|t: int| 0 <= t < lo + q ==> (#[trigger] cols@[t]).color.wf(),
            decreases dvb@.len() - q,
        {
            let d = dvb[q];
            let c = cb[q];
            dvs.push(d);
            cols.push(c);
            q = q + 1;
        }
        lo = hi;
    }
    proof {
        assert(dvs@ =~= flocking_events(agents@, index@, *values, pointer));
        assert(cols@ =~= flocking_colors(agents@, index@, *values));
        assert forall|i: int| 0 <= i < agents@.len() implies (#[trigger] dvs@[i]).id == i by {
            assert(dvs@[i] == dv_event_spec(agents@, index@, *values, pointer, i));
        }
        assert forall|i: int| 0 <= i < agents@.len() implies (#[trigger] cols@[i]).id == i by {
            assert(cols@[i] == color_event_spec(agents@, index@, *values, i));
        }
    }
    (dvs, cols)
}

} // verus!

