//! Walks along the edges of a graph, distances in hops, and the one
//! shortest walk that a search settles on.

use vstd::prelude::*;
use crate::model::VertexView;

verus! {

/// `g` has an edge from `u` to `v`.
pub open spec fn has_edge(g: Seq<VertexView>, u: usize, v: usize) -> bool {
    u < g.len() && g[u as int].connected.contains(v)
}

/// `p` is a non-empty sequence of vertices of `g`, each linked to the next
/// by an edge.
pub open spec fn is_walk(g: Seq<VertexView>, p: Seq<usize>) -> bool {
    &&& p.len() > 0
    &&& forall|i: int| 0 <= i < p.len() ==> (#[trigger] p[i]) < g.len()
    &&& forall|i: int| 0 <= i < p.len() - 1 ==> has_edge(g, #[trigger] p[i], p[i + 1])
}

/// `p` is a walk that starts at `a` and ends at `b`.
pub open spec fn walk_between(g: Seq<VertexView>, a: usize, b: usize, p: Seq<usize>) -> bool {
    &&& is_walk(g, p)
    &&& p[0] == a
    &&& p[p.len() - 1] == b
}

/// Some walk leads from `a` to `b`.
pub open spec fn reachable(g: Seq<VertexView>, a: usize, b: usize) -> bool {
    exists|p: Seq<usize>| walk_between(g, a, b, p)
}

/// `p` leads from `a` to `b`, and no walk from `a` to `b` has fewer hops.
pub open spec fn is_shortest_walk(g: Seq<VertexView>, a: usize, b: usize, p: Seq<usize>) -> bool {
    &&& walk_between(g, a, b, p)
    &&& forall|q: Seq<usize>| #[trigger] walk_between(g, a, b, q) ==> p.len() <= q.len()
}

/// The fewest hops from `a` to `v` is `d`.
pub open spec fn at_distance(g: Seq<VertexView>, a: usize, v: usize, d: nat) -> bool {
    exists|p: Seq<usize>| #[trigger] is_shortest_walk(g, a, v, p) && p.len() == d + 1
}

/// Every step of `p` comes from the lowest id it could come from: among the
/// vertices one hop closer to `a` that have an edge to `p[i]`, none has a
/// lower id than `p[i - 1]`.
pub open spec fn takes_lowest_ids(g: Seq<VertexView>, a: usize, p: Seq<usize>) -> bool {
    forall|i: int, u: usize|
        0 < i < p.len() && #[trigger] at_distance(g, a, u, (i - 1) as nat) && #[trigger] has_edge(
            g,
            u,
            p[i],
        ) ==> p[i - 1] <= u
}

/// `p` is the shortest walk from `a` to `b` that ties are broken in favour
/// of: the one whose every step comes from the lowest possible id.
pub open spec fn is_settled_walk(g: Seq<VertexView>, a: usize, b: usize, p: Seq<usize>) -> bool {
    &&& is_shortest_walk(g, a, b, p)
    &&& takes_lowest_ids(g, a, p)
}

/// The walk that [`is_settled_walk`] describes, where `b` can be reached
/// from `a`.
pub open spec fn settled_walk(g: Seq<VertexView>, a: usize, b: usize) -> Seq<usize> {
    choose|p: Seq<usize>| is_settled_walk(g, a, b, p)
}

/// The first `k + 1` vertices of a walk are a walk to its `k`-th vertex.
pub proof fn lemma_walk_prefix(g: Seq<VertexView>, p: Seq<usize>, k: int)
    requires
        is_walk(g, p),
        0 <= k < p.len(),
    ensures
        walk_between(g, p[0], p[k], p.take(k + 1)),
{
    let q = p.take(k + 1);
    assert forall|i: int| 0 <= i < q.len() - 1 implies has_edge(g, #[trigger] q[i], q[i + 1]) by {
        assert(has_edge(g, p[i], p[i + 1]));
    }
    assert forall|i: int| 0 <= i < q.len() implies (#[trigger] q[i]) < g.len() by {
        assert(p[i] < g.len());
    }
}

/// A walk followed by a walk that starts where the first one ends is a walk.
pub proof fn lemma_walk_join(g: Seq<VertexView>, p: Seq<usize>, q: Seq<usize>)
    requires
        is_walk(g, p),
        is_walk(g, q),
        p[p.len() - 1] == q[0],
    ensures
        walk_between(g, p[0], q[q.len() - 1], p + q.skip(1)),
        (p + q.skip(1)).len() == p.len() + q.len() - 1,
{
    let r = p + q.skip(1);
    assert forall|i: int| 0 <= i < r.len() implies (#[trigger] r[i]) < g.len() by {
        if i < p.len() {
            assert(p[i] < g.len());
        } else {
            assert(r[i] == q[i - p.len() + 1]);
            assert(q[i - p.len() + 1] < g.len());
        }
    }
    assert forall|i: int| 0 <= i < r.len() - 1 implies has_edge(g, #[trigger] r[i], r[i + 1]) by {
        if i < p.len() - 1 {
            assert(has_edge(g, p[i], p[i + 1]));
        } else if i == p.len() - 1 {
            assert(r[i] == q[0]);
            assert(r[i + 1] == q[1]);
            assert(has_edge(g, q[0], q[0int + 1]));
        } else {
            let j = i - p.len() + 1;
            assert(r[i] == q[j]);
            assert(r[i + 1] == q[j + 1]);
            assert(has_edge(g, q[j], q[j + 1]));
        }
    }
}

/// A walk extended by an edge from its last vertex is a walk.
pub proof fn lemma_walk_extend(g: Seq<VertexView>, p: Seq<usize>, v: usize)
    requires
        is_walk(g, p),
        has_edge(g, p[p.len() - 1], v),
        v < g.len(),
    ensures
        walk_between(g, p[0], v, p.push(v)),
{
    let r = p.push(v);
    assert forall|i: int| 0 <= i < r.len() implies (#[trigger] r[i]) < g.len() by {
        if i < p.len() {
            assert(p[i] < g.len());
        }
    }
    assert forall|i: int| 0 <= i < r.len() - 1 implies has_edge(g, #[trigger] r[i], r[i + 1]) by {
        if i < p.len() - 1 {
            assert(has_edge(g, p[i], p[i + 1]));
        }
    }
}

/// Every prefix of a shortest walk is a shortest walk.
pub proof fn lemma_shortest_prefix(g: Seq<VertexView>, a: usize, b: usize, p: Seq<usize>, k: int)
    requires
        is_shortest_walk(g, a, b, p),
        0 <= k < p.len(),
    ensures
        is_shortest_walk(g, a, p[k], p.take(k + 1)),
        at_distance(g, a, p[k], k as nat),
{
    lemma_walk_prefix(g, p, k);
    let head = p.take(k + 1);
    let tail = p.skip(k);
    assert(is_walk(g, tail)) by {
        assert forall|i: int| 0 <= i < tail.len() implies (#[trigger] tail[i]) < g.len() by {
            assert(p[i + k] < g.len());
        }
        assert forall|i: int| 0 <= i < tail.len() - 1 implies has_edge(
            g,
            #[trigger] tail[i],
            tail[i + 1],
        ) by {
            assert(has_edge(g, p[i + k], p[i + k + 1]));
        }
    }
    assert forall|q: Seq<usize>| #[trigger] walk_between(g, a, p[k], q) implies head.len()
        <= q.len() by {
        lemma_walk_join(g, q, tail);
        let r = q + tail.skip(1);
        assert(walk_between(g, a, b, r));
    }
    assert(is_shortest_walk(g, a, p[k], head));
}

/// A vertex that can be reached has a distance, no greater than the hops of
/// any walk that reaches it.
pub proof fn lemma_reachable_has_distance(g: Seq<VertexView>, a: usize, v: usize, p: Seq<usize>)
    requires
        walk_between(g, a, v, p),
    ensures
        exists|d: nat| d + 1 <= p.len() && #[trigger] at_distance(g, a, v, d),
    decreases p.len(),
{
    if forall|q: Seq<usize>| #[trigger] walk_between(g, a, v, q) ==> p.len() <= q.len() {
        assert(is_shortest_walk(g, a, v, p));
        assert(at_distance(g, a, v, (p.len() - 1) as nat));
    } else {
        let q = choose|q: Seq<usize>| #[trigger] walk_between(g, a, v, q) && q.len() < p.len();
        lemma_reachable_has_distance(g, a, v, q);
    }
}

/// A vertex has at most one distance from `a`.
pub proof fn lemma_distance_unique(g: Seq<VertexView>, a: usize, v: usize, d1: nat, d2: nat)
    requires
        at_distance(g, a, v, d1),
        at_distance(g, a, v, d2),
    ensures
        d1 == d2,
{
    let one = choose|p: Seq<usize>| #[trigger] is_shortest_walk(g, a, v, p) && p.len() == d1 + 1;
    let other = choose|p: Seq<usize>| #[trigger] is_shortest_walk(g, a, v, p) && p.len() == d2 + 1;
    assert(walk_between(g, a, v, one));
    assert(walk_between(g, a, v, other));
}

/// A vertex is at distance zero from itself, and nothing else is.
pub proof fn lemma_distance_zero(g: Seq<VertexView>, a: usize, v: usize)
    ensures
        a < g.len() ==> at_distance(g, a, a, 0),
        at_distance(g, a, v, 0) ==> v == a && a < g.len(),
{
    if a < g.len() {
        let p = seq![a];
        assert(is_shortest_walk(g, a, a, p));
    }
    if at_distance(g, a, v, 0) {
        let p = choose|p: Seq<usize>| #[trigger] is_shortest_walk(g, a, v, p) && p.len() == 0 + 1;
        assert(p[0] < g.len());
    }
}

/// A vertex at distance `d + 1` has an edge from some vertex at distance `d`.
pub proof fn lemma_distance_pred(g: Seq<VertexView>, a: usize, v: usize, d: nat) -> (u: usize)
    requires
        at_distance(g, a, v, d + 1),
    ensures
        at_distance(g, a, u, d),
        has_edge(g, u, v),
{
    let p = choose|p: Seq<usize>| #[trigger] is_shortest_walk(g, a, v, p) && p.len() == d + 1 + 1;
    lemma_shortest_prefix(g, a, v, p, d as int);
    assert(has_edge(g, p[d as int], p[d as int + 1]));
    p[d as int]
}

/// Below a vertex at distance `d` there is a vertex at every smaller distance.
pub proof fn lemma_distance_below(g: Seq<VertexView>, a: usize, v: usize, d: nat, j: nat) -> (w:
    usize)
    requires
        at_distance(g, a, v, d),
        j <= d,
    ensures
        at_distance(g, a, w, j),
{
    let p = choose|p: Seq<usize>| #[trigger] is_shortest_walk(g, a, v, p) && p.len() == d + 1;
    lemma_shortest_prefix(g, a, v, p, j as int);
    p[j as int]
}

/// An edge leads at most one hop further from `a`.
pub proof fn lemma_distance_succ(g: Seq<VertexView>, a: usize, u: usize, v: usize, d: nat) -> (k:
    nat)
    requires
        at_distance(g, a, u, d),
        has_edge(g, u, v),
        v < g.len(),
    ensures
        k <= d + 1,
        at_distance(g, a, v, k),
{
    let p = choose|p: Seq<usize>| #[trigger] is_shortest_walk(g, a, u, p) && p.len() == d + 1;
    lemma_walk_extend(g, p, v);
    lemma_reachable_has_distance(g, a, v, p.push(v));
    choose|k: nat| k + 1 <= p.push(v).len() && #[trigger] at_distance(g, a, v, k)
}

/// The hops of a shortest walk are the distance between its ends.
pub proof fn lemma_distance_of_walk(g: Seq<VertexView>, a: usize, b: usize, p: Seq<usize>, d: nat)
    requires
        walk_between(g, a, b, p),
        at_distance(g, a, b, d),
        p.len() == d + 1,
    ensures
        is_shortest_walk(g, a, b, p),
{
    let s = choose|s: Seq<usize>| #[trigger] is_shortest_walk(g, a, b, s) && s.len() == d + 1;
    assert forall|q: Seq<usize>| #[trigger] walk_between(g, a, b, q) implies p.len() <= q.len() by {
        assert(s.len() <= q.len());
    }
}

/// Ties between shortest walks are broken one way only: two settled walks
/// between the same ends are the same walk. So a query on an unchanged graph
/// has one answer, whatever order the search visits a frontier in.
pub proof fn lemma_settled_walk_unique(
    g: Seq<VertexView>,
    a: usize,
    b: usize,
    p: Seq<usize>,
    q: Seq<usize>,
)
    requires
        is_settled_walk(g, a, b, p),
        is_settled_walk(g, a, b, q),
    ensures
        p == q,
{
    assert(walk_between(g, a, b, p));
    assert(walk_between(g, a, b, q));
    assert(p.len() == q.len());
    lemma_same_suffix(g, a, b, p, q, 0);
    assert(p =~= q);
}

proof fn lemma_same_suffix(
    g: Seq<VertexView>,
    a: usize,
    b: usize,
    p: Seq<usize>,
    q: Seq<usize>,
    from: int,
)
    requires
        is_settled_walk(g, a, b, p),
        is_settled_walk(g, a, b, q),
        p.len() == q.len(),
        0 <= from < p.len(),
    ensures
        forall|i: int| from <= i < p.len() ==> p[i] == q[i],
    decreases p.len() - from,
{
    if from < p.len() - 1 {
        lemma_same_suffix(g, a, b, p, q, from + 1);
        let i = from + 1;
        assert(p[i] == q[i]);
        lemma_shortest_prefix(g, a, b, p, from);
        lemma_shortest_prefix(g, a, b, q, from);
        assert(has_edge(g, p[from], p[from + 1]));
        assert(has_edge(g, q[from], q[from + 1]));
        assert(at_distance(g, a, p[from], (i - 1) as nat));
        assert(at_distance(g, a, q[from], (i - 1) as nat));
        assert(q[i - 1] <= p[from]);
        assert(p[i - 1] <= q[from]);
    }
}

/// Where `b` can be reached from `a`, the settled walk exists, and
/// [`settled_walk`] is that walk.
pub proof fn lemma_settled_walk_is(g: Seq<VertexView>, a: usize, b: usize, p: Seq<usize>)
    requires
        is_settled_walk(g, a, b, p),
    ensures
        settled_walk(g, a, b) == p,
{
    lemma_settled_walk_unique(g, a, b, p, settled_walk(g, a, b));
}

/// Among the ids of which `f` holds there is a lowest one.
proof fn lemma_lowest(f: spec_fn(usize) -> bool, u: usize) -> (m: usize)
    requires
        f(u),
    ensures
        f(m),
        forall|w: usize| #[trigger] f(w) ==> m <= w,
    decreases u,
{
    if exists|w: usize| w < u && #[trigger] f(w) {
        let w = choose|w: usize| w < u && #[trigger] f(w);
        lemma_lowest(f, w)
    } else {
        u
    }
}

/// Every vertex that has a distance from `a` has a settled walk from `a`.
proof fn lemma_settled_at(g: Seq<VertexView>, a: usize, v: usize, d: nat) -> (p: Seq<usize>)
    requires
        at_distance(g, a, v, d),
    ensures
        is_settled_walk(g, a, v, p),
        p.len() == d + 1,
    decreases d,
{
    if d == 0 {
        lemma_distance_zero(g, a, v);
        let p = seq![a];
        assert(is_shortest_walk(g, a, a, p));
        p
    } else {
        let before = (d - 1) as nat;
        let some = lemma_distance_pred(g, a, v, before);
        let f = |u: usize| at_distance(g, a, u, before) && has_edge(g, u, v);
        assert(f(some));
        let u = lemma_lowest(f, some);
        let p = lemma_settled_at(g, a, u, before);
        let s = choose|s: Seq<usize>| #[trigger] is_shortest_walk(g, a, v, s) && s.len() == d + 1;
        assert(s[s.len() - 1] < g.len());
        lemma_walk_extend(g, p, v);
        let r = p.push(v);
        lemma_distance_of_walk(g, a, v, r, d);
        assert forall|i: int, w: usize|
            0 < i < r.len() && #[trigger] at_distance(g, a, w, (i - 1) as nat) && #[trigger] has_edge(
                g,
                w,
                r[i],
            ) implies r[i - 1] <= w by {
            if i < p.len() {
                assert(r[i] == p[i]);
                assert(r[i - 1] == p[i - 1]);
            } else {
                assert(f(w));
            }
        }
        r
    }
}

/// Where `b` can be reached from `a`, a settled walk leads there, and
/// [`settled_walk`] is that walk.
pub proof fn lemma_settled_walk_exists(g: Seq<VertexView>, a: usize, b: usize)
    requires
        reachable(g, a, b),
    ensures
        is_settled_walk(g, a, b, settled_walk(g, a, b)),
{
    let p = choose|p: Seq<usize>| walk_between(g, a, b, p);
    lemma_reachable_has_distance(g, a, b, p);
    let d = choose|d: nat| d + 1 <= p.len() && #[trigger] at_distance(g, a, b, d);
    let s = lemma_settled_at(g, a, b, d);
}

} // verus!
