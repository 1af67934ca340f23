//! The spatial neighbor index.
//!
//! The index holds identity/position pairs as of its last rebuild; it is
//! rebuilt on its own cadence, so queries may be one rebuild-interval
//! stale. A query returns the `k` entries nearest to a point by squared
//! Euclidean distance, nearest first, with the entry identity breaking
//! distance ties, so the result is a deterministic prefix of the fully
//! sorted candidate list — see [`nearest_spec`] and
//! [`lemma_nearest_spec_props`].

use crate::boid::Boid;
use crate::vec2::{bounded, dist_sq, dist_sq_exec, lemma_bound_sq, Vec2I, POS_LIMIT};
use vstd::multiset::Multiset;
use vstd::prelude::*;
use vstd::relations::{sorted_by, total_ordering};
use vstd::seq_lib::lemma_multiset_commutative;
use vstd::seq_lib::lemma_sorted_unique;

verus! {

/// One entry of the spatial index: an agent identity and the position it
/// had at the last rebuild.
#[derive(Clone, Copy, Debug, PartialEq, Eq, Structural)]
pub struct IndexEntry {
    pub id: usize,
    pub pos: Vec2I,
}

/// One query result: the squared distance to an entry (as of the last
/// rebuild) and that entry's identity.
#[derive(Clone, Copy, Debug, PartialEq, Eq, Structural)]
pub struct Neighbor {
    pub dist_sq: u64,
    pub id: usize,
}

/// Query order: nearer first, identity breaking distance ties.
pub open spec fn nb_le(a: Neighbor, b: Neighbor) -> bool {
    a.dist_sq < b.dist_sq || (a.dist_sq == b.dist_sq && a.id <= b.id)
}

/// `nb_le` as a relation value, for the sorting vocabulary of vstd.
pub open spec fn nb_leq_fn() -> spec_fn(Neighbor, Neighbor) -> bool {
    |a: Neighbor, b: Neighbor| nb_le(a, b)
}

/// A candidate list arranged in query order.
pub open spec fn in_query_order(s: Seq<Neighbor>) -> bool {
    forall|i: int, j: int| 0 <= i < j < s.len() ==> nb_le(#[trigger] s[i], #[trigger] s[j])
}

/// The query order is a total order.
pub proof fn lemma_nb_le_total()
    ensures
        total_ordering(nb_leq_fn()),
{
    let leq = nb_leq_fn();
    assert forall|a: Neighbor, b: Neighbor| #[trigger] leq(a, b) && #[trigger] leq(b, a) implies a
        == b by {
        assert(a.dist_sq == b.dist_sq && a.id == b.id);
    }
}

/// `in_query_order` says the same as vstd's `sorted_by` under `nb_le`.
pub proof fn lemma_query_order_bridge(s: Seq<Neighbor>)
    ensures
        in_query_order(s) <==> sorted_by(s, nb_leq_fn()),
{
    let leq = nb_leq_fn();
    if in_query_order(s) {
        assert forall|i: int, j: int| 0 <= i < j < s.len() implies #[trigger] leq(s[i], s[j]) by {
            assert(nb_le(s[i], s[j]));
        }
    }
    if sorted_by(s, leq) {
        assert forall|i: int, j: int| 0 <= i < j < s.len() implies nb_le(
            #[trigger] s[i],
            #[trigger] s[j],
        ) by {
            assert(leq(s[i], s[j]));
        }
    }
}

/// Tests the query order on machine values.
pub fn nb_le_exec(a: Neighbor, b: Neighbor) -> (r: bool)
    ensures
        r == nb_le(a, b),
{
    a.dist_sq < b.dist_sq || (a.dist_sq == b.dist_sq && a.id <= b.id)
}

/// Every candidate the index can offer for a query at `p`: one `Neighbor`
/// per entry, in entry order.
pub open spec fn all_nbs(entries: Seq<IndexEntry>, p: Vec2I) -> Seq<Neighbor> {
    Seq::new(
        entries.len(),
        |i: int| Neighbor { dist_sq: dist_sq(p, entries[i].pos) as u64, id: entries[i].id },
    )
}

/// What a neighbor query returns: the nearest `k` candidates, in query
/// order — the length-`min(k, n)` prefix of the fully sorted candidate
/// list.
pub open spec fn nearest_spec(entries: Seq<IndexEntry>, p: Vec2I, k: int) -> Seq<Neighbor> {
    let sorted = all_nbs(entries, p).sort_by(nb_leq_fn());
    sorted.take(if k <= entries.len() { k } else { entries.len() as int })
}

/// The neighbor-query contract, spelled out: the result is in query
/// order, is a prefix of a sorted permutation of all candidates, and has
/// length `min(k, n)` — so each unreturned candidate is at least as far
/// as every returned one.
pub proof fn lemma_nearest_spec_props(entries: Seq<IndexEntry>, p: Vec2I, k: int)
    requires
        k >= 0,
    ensures
        ({
            let all = all_nbs(entries, p);
            let sorted = all.sort_by(nb_leq_fn());
            let m = if k <= entries.len() { k } else { entries.len() as int };
            &&& sorted.len() == entries.len()
            &&& sorted.to_multiset() == all.to_multiset()
            &&& in_query_order(sorted)
            &&& nearest_spec(entries, p, k) == sorted.take(m)
            &&& nearest_spec(entries, p, k).len() == m
            &&& in_query_order(nearest_spec(entries, p, k))
            &&& forall|a: int, b: int|
                0 <= a < m && m <= b < entries.len() ==> nb_le(
                    #[trigger] nearest_spec(entries, p, k)[a],
                    #[trigger] sorted[b],
                )
            &&& forall|x: Neighbor|
                #[trigger] nearest_spec(entries, p, k).contains(x) ==> all.contains(x)
        }),
{
    broadcast use vstd::seq_lib::group_to_multiset_ensures;

    let all = all_nbs(entries, p);
    let leq = nb_leq_fn();
    lemma_nb_le_total();
    all.lemma_sort_by_ensures(leq);
    let sorted = all.sort_by(leq);
    assert(sorted.to_multiset().len() == all.to_multiset().len());
    lemma_query_order_bridge(sorted);
    let m = if k <= entries.len() { k } else { entries.len() as int };
    assert(in_query_order(sorted.take(m)));
    assert forall|a: int, b: int| 0 <= a < m && m <= b < entries.len() implies nb_le(
        #[trigger] nearest_spec(entries, p, k)[a],
        #[trigger] sorted[b],
    ) by {
        assert(nearest_spec(entries, p, k)[a] == sorted[a]);
        assert(nb_le(sorted[a], sorted[b]));
    }
    assert forall|x: Neighbor| #[trigger]
        nearest_spec(entries, p, k).contains(x) implies all.contains(x) by {
        let i = choose|i: int|
            0 <= i < nearest_spec(entries, p, k).len() && nearest_spec(entries, p, k)[i] == x;
        assert(sorted[i] == x);
        assert(sorted.contains(x));
        assert(sorted.to_multiset().count(x) > 0);
    }
}

/// Inserts one candidate into a run kept in query order.
fn insert_nb(v: &Vec<Neighbor>, e: Neighbor) -> (r: Vec<Neighbor>)
    requires
        in_query_order(v@),
    ensures
        in_query_order(r@),
        r@.to_multiset() == v@.to_multiset().insert(e),
        r@.len() == v@.len() + 1,
{
    let mut r: Vec<Neighbor> = Vec::new();
    proof {
        assert(r@ =~= v@.take(0));
    }
    let mut i: usize = 0;
    while i < v.len() && nb_le_exec(v[i], e)
        invariant
            i <= v@.len(),
            r@ == v@.take(i as int),
            in_query_order(v@),
            forall|j: int| 0 <= j < i ==> nb_le(#[trigger] v@[j], e),
        decreases v@.len() - i,
    {
        let x = v[i];
        r.push(x);
        i = i + 1;
        proof {
            assert(r@ =~= v@.take(i as int));
        }
    }
    let ghost split = i as int;
    proof {
        assert(split == v@.len() || !nb_le(v@[split], e));
    }
    r.push(e);
    proof {
        assert(r@ =~= v@.take(split) + seq![e] + v@.subrange(split, split));
    }
    let mut j: usize = i;
    while j < v.len()
        invariant
            0 <= split <= j <= v@.len(),
            r@ == v@.take(split) + seq![e] + v@.subrange(split, j as int),
            split == v@.len() || !nb_le(v@[split], e),
            in_query_order(v@),
            forall|q: int| 0 <= q < split ==> nb_le(#[trigger] v@[q], e),
        decreases v@.len() - j,
    {
        let x = v[j];
        r.push(x);
        j = j + 1;
        proof {
            assert(v@.subrange(split, j as int) =~= v@.subrange(split, j - 1).push(v@[j - 1]));
            assert(r@ =~= v@.take(split) + seq![e] + v@.subrange(split, j as int));
        }
    }
    proof {
        let a = v@.take(split);
        let b = v@.subrange(split, v@.len() as int);
        assert(r@ == a + seq![e] + b);
        // Ordering: everything before the split is at most `e`; everything
        // from the split on is at least `e`.
        assert forall|x: int, y: int| 0 <= x < y < r@.len() implies nb_le(
            #[trigger] r@[x],
            #[trigger] r@[y],
        ) by {
            assert(r@[x] == if x < split {
                v@[x]
            } else if x == split {
                e
            } else {
                v@[x - 1]
            });
            assert(r@[y] == if y < split {
                v@[y]
            } else if y == split {
                e
            } else {
                v@[y - 1]
            });
            if y > split {
                assert(split < v@.len());
                assert(nb_le(e, v@[split]));
                if y - 1 > split {
                    assert(nb_le(v@[split], v@[y - 1]));
                }
                assert(nb_le(e, v@[y - 1]));
            }
            if x < split {
                assert(nb_le(v@[x], e));
            }
        }
        // Contents: the split parts reassemble the input.
        broadcast use vstd::seq_lib::group_to_multiset_ensures;

        assert(a + b =~= v@);
        lemma_multiset_commutative(a + seq![e], b);
        lemma_multiset_commutative(a, seq![e]);
        lemma_multiset_commutative(a, b);
        assert(seq![e] =~= Seq::<Neighbor>::empty().push(e));
        assert(seq![e].to_multiset() =~= Multiset::<Neighbor>::empty().insert(e));
        assert(r@.to_multiset() =~= v@.to_multiset().insert(e));
    }
    r
}

/// Sorts the candidate list into query order.
fn sort_nbs(v: &Vec<Neighbor>) -> (r: Vec<Neighbor>)
    ensures
        r@ == v@.sort_by(nb_leq_fn()),
{
    let mut r: Vec<Neighbor> = Vec::new();
    proof {
        assert(v@.take(0) =~= Seq::<Neighbor>::empty());
        assert(r@.to_multiset() =~= v@.take(0).to_multiset());
    }
    let mut i: usize = 0;
    while i < v.len()
        invariant
            i <= v@.len(),
            in_query_order(r@),
            r@.to_multiset() == v@.take(i as int).to_multiset(),
            r@.len() == i,
        decreases v@.len() - i,
    {
        let x = v[i];
        r = insert_nb(&r, x);
        i = i + 1;
        proof {
            broadcast use vstd::seq_lib::group_to_multiset_ensures;

            assert(v@.take(i as int) =~= v@.take(i - 1).push(v@[i - 1]));
        }
    }
    proof {
        assert(v@.take(v@.len() as int) =~= v@);
        lemma_nb_le_total();
        v@.lemma_sort_by_ensures(nb_leq_fn());
        lemma_query_order_bridge(r@);
        lemma_sorted_unique(r@, v@.sort_by(nb_leq_fn()), nb_leq_fn());
    }
    r
}

/// The spatial index: identity/position pairs as of the last rebuild.
pub struct SpatialIndex {
    entries: Vec<IndexEntry>,
}

impl View for SpatialIndex {
    type V = Seq<IndexEntry>;

    closed spec fn view(&self) -> Seq<IndexEntry> {
        self.entries@
    }
}

impl SpatialIndex {
    /// Every recorded position inside the world limits.
    pub open spec fn wf(self) -> bool {
        forall|i: int|
            0 <= i < self@.len() ==> bounded((#[trigger] self@[i]).pos, POS_LIMIT as int)
    }

    /// An empty index.
    pub fn new() -> (r: SpatialIndex)
        ensures
            r@ == Seq::<IndexEntry>::empty(),
            r.wf(),
    {
        SpatialIndex { entries: Vec::new() }
    }

    /// Replaces the contents with one entry per agent, the agent's arena
    /// slot as its identity.
    pub fn rebuild(&mut self, agents: &Vec<Boid>)
        requires
            forall|i: int|
                0 <= i < agents@.len() ==> bounded(
                    (#[trigger] agents@[i]).pos,
                    POS_LIMIT as int,
                ),
        ensures
            final(self)@.len() == agents@.len(),
            forall|i: int|
                0 <= i < agents@.len() ==> final(self)@[i] == (IndexEntry {
                    id: i as usize,
                    pos: agents@[i].pos,
                }),
            final(self).wf(),
    {
        let mut entries: Vec<IndexEntry> = Vec::new();
        let mut i: usize = 0;
        while i < agents.len()
            invariant
                i <= agents@.len(),
                entries@.len() == i,
                forall|j: int|
                    0 <= j < i ==> entries@[j] == (IndexEntry {
                        id: j as usize,
                        pos: agents@[j].pos,
                    }),
                forall|j: int|
                    0 <= j < agents@.len() ==> bounded(
                        (#[trigger] agents@[j]).pos,
                        POS_LIMIT as int,
                    ),
            decreases agents@.len() - i,
        {
            let b = agents[i];
            entries.push(IndexEntry { id: i, pos: b.pos });
            i = i + 1;
        }
        self.entries = entries;
    }

    /// Returns up to `k` entries nearest to `p`, nearest first, identity
    /// breaking ties; fewer than `k` only when the index holds fewer.
    pub fn k_nearest(&self, p: Vec2I, k: usize) -> (r: Vec<Neighbor>)
        requires
            self.wf(),
            bounded(p, POS_LIMIT as int),
        ensures
            r@ == nearest_spec(self@, p, k as int),
            r@.len() == (if k <= self@.len() {
                k as int
            } else {
                self@.len() as int
            }),
    {
        let mut all: Vec<Neighbor> = Vec::new();
        proof {
            assert(all@ =~= all_nbs(self@, p).take(0));
        }
        let mut i: usize = 0;
        while i < self.entries.len()
            invariant
                i <= self@.len(),
                all@ == all_nbs(self@, p).take(i as int),
                self.wf(),
                bounded(p, POS_LIMIT as int),
            decreases self@.len() - i,
        {
            let e = self.entries[i];
            proof {
                lemma_bound_sq(e.pos.x - p.x, 2 * POS_LIMIT as int);
                lemma_bound_sq(e.pos.y - p.y, 2 * POS_LIMIT as int);
            }
            let d = dist_sq_exec(p, e.pos);
            all.push(Neighbor { dist_sq: d, id: e.id });
            i = i + 1;
            proof {
                assert(all@ =~= all_nbs(self@, p).take(i as int));
            }
        }
        proof {
            assert(all@ =~= all_nbs(self@, p));
        }
        let sorted = sort_nbs(&all);
        proof {
            lemma_nearest_spec_props(self@, p, k as int);
        }
        let m = if k <= sorted.len() {
            k
        } else {
            sorted.len()
        };
        let mut out: Vec<Neighbor> = Vec::new();
        proof {
            assert(out@ =~= sorted@.take(0));
        }
        let mut j: usize = 0;
        while j < m
            invariant
                j <= m,
                m == (if k <= self@.len() {
                    k as int
                } else {
                    self@.len() as int
                }),
                sorted@ == all_nbs(self@, p).sort_by(nb_leq_fn()),
                sorted@.len() == self@.len(),
                out@ == sorted@.take(j as int),
            decreases m - j,
        {
            let x = sorted[j];
            out.push(x);
            j = j + 1;
            proof {
                assert(out@ =~= sorted@.take(j as int));
            }
        }
        out
    }
}

} // verus!
