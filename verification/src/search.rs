//! Breadth-first search for the shortest walk between two vertices.
//!
//! The search settles the graph level by level. A vertex that several
//! vertices of the previous level lead to gets the one with the lowest id as
//! its parent, so the walk that comes out does not depend on the order in
//! which a frontier is visited.

use vstd::prelude::*;
use vstd::set_lib::lemma_len_subset;
use ahash::AHashMap;
use ahash::AHashSet;
use crate::error::{GraphError, GraphErrorView, VertexKey, missing_id};
use crate::graph::Graph;
use crate::hashing::{
    map_contains_key, map_entries, map_index, map_insert, map_new, set_contains, set_insert,
    set_is_empty, set_items, set_members, set_new,
};
use crate::model::{VertexView, edges_in_range};
use crate::walk::{
    at_distance, has_edge, is_settled_walk, is_shortest_walk, is_walk, lemma_distance_below,
    lemma_distance_of_walk, lemma_distance_pred, lemma_distance_succ, lemma_distance_unique,
    lemma_distance_zero, lemma_reachable_has_distance, lemma_settled_walk_is, reachable,
    settled_walk, takes_lowest_ids, walk_between,
};

verus! {

/// The parent of `v` is one hop closer to `a`, has an edge to `v`, and has
/// the lowest id of the vertices of which that is true.
spec fn parent_fits(
    g: Seq<VertexView>,
    a: usize,
    parents: Map<usize, usize>,
    depth: Map<usize, nat>,
    v: usize,
) -> bool {
    let u = parents[v];
    &&& parents.contains_key(u)
    &&& depth[u] + 1 == depth[v]
    &&& has_edge(g, u, v)
    &&& forall|w: usize| #[trigger]
        has_edge(g, w, v) && at_distance(g, a, w, depth[u]) ==> u <= w
}

/// What the search holds once the levels `0..=d` are settled: `parents`
/// has exactly the vertices within `d` hops of `a`, `depth` gives the
/// distance of each, and each but `a` has the parent that fits.
spec fn settled_to(
    g: Seq<VertexView>,
    a: usize,
    parents: Map<usize, usize>,
    depth: Map<usize, nat>,
    d: nat,
) -> bool {
    &&& a < g.len()
    &&& forall|v: usize|
        #![trigger parents.contains_key(v)]
        #![trigger depth.contains_key(v)]
        parents.contains_key(v) <==> depth.contains_key(v)
    &&& parents.contains_key(a)
    &&& parents[a] == a
    &&& depth[a] == 0
    &&& forall|v: usize| #[trigger]
        parents.contains_key(v) ==> v < g.len() && depth[v] <= d && at_distance(g, a, v, depth[v])
    &&& forall|v: usize, k: nat| k <= d && #[trigger] at_distance(g, a, v, k) ==> parents.contains_key(v)
    &&& forall|v: usize| #[trigger]
        parents.contains_key(v) && v != a ==> parent_fits(g, a, parents, depth, v)
}

/// `f` holds the vertices at depth `d`.
spec fn is_level(depth: Map<usize, nat>, d: nat, f: Set<usize>) -> bool {
    forall|v: usize|
        #![trigger f.contains(v)]
        #![trigger depth.contains_key(v)]
        f.contains(v) <==> depth.contains_key(v) && depth[v] == d
}

/// What holds in the middle of a level, after the edges `e` have been
/// looked at: `next` has the targets that were not known before, and each
/// has as its parent the lowest source that leads to it in `e`.
spec fn scanning(
    known: Map<usize, usize>,
    p: Map<usize, usize>,
    next: Set<usize>,
    e: Set<(usize, usize)>,
) -> bool {
    &&& forall|v: usize|
        #![trigger p.contains_key(v)]
        #![trigger known.contains_key(v)]
        #![trigger next.contains(v)]
        p.contains_key(v) <==> known.contains_key(v) || next.contains(v)
    &&& forall|v: usize| #[trigger] next.contains(v) ==> !known.contains_key(v)
    &&& forall|v: usize| #[trigger] known.contains_key(v) ==> p[v] == known[v]
    &&& forall|v: usize| #[trigger] next.contains(v) ==> e.contains((p[v], v))
    &&& forall|u: usize, v: usize| #[trigger]
        e.contains((u, v)) ==> p.contains_key(v) && (next.contains(v) ==> p[v] <= u)
}

/// The depths after a level: what was known keeps its depth, what is new is
/// one hop further.
spec fn deepened(
    known: Map<usize, usize>,
    p: Map<usize, usize>,
    depth: Map<usize, nat>,
    d: nat,
) -> Map<usize, nat> {
    Map::new(
        |v: usize| p.contains_key(v),
        |v: usize|
            if known.contains_key(v) {
                depth[v]
            } else {
                d + 1
            },
    )
}

/// Once every edge out of level `d` has been looked at, level `d + 1` is
/// settled, and it is what the scan found new.
proof fn lemma_level_done(
    g: Seq<VertexView>,
    a: usize,
    known: Map<usize, usize>,
    depth: Map<usize, nat>,
    d: nat,
    f: Set<usize>,
    p: Map<usize, usize>,
    next: Set<usize>,
    e: Set<(usize, usize)>,
)
    requires
        edges_in_range(g),
        settled_to(g, a, known, depth, d),
        is_level(depth, d, f),
        scanning(known, p, next, e),
        forall|u: usize, v: usize| #[trigger] e.contains((u, v)) <==> f.contains(u) && has_edge(g, u, v),
    ensures
        settled_to(g, a, p, deepened(known, p, depth, d), d + 1),
        is_level(deepened(known, p, depth, d), d + 1, next),
{
    let deeper = deepened(known, p, depth, d);
    assert forall|v: usize| #[trigger] p.contains_key(v) implies v < g.len() && deeper[v] <= d + 1
        && at_distance(g, a, v, deeper[v]) by {
        if !known.contains_key(v) {
            let u = p[v];
            assert(next.contains(v));
            assert(e.contains((u, v)));
            assert(f.contains(u));
            assert(known.contains_key(u));
            let k = lemma_distance_succ(g, a, u, v, d);
            if k <= d {
                assert(known.contains_key(v));
            }
        }
    }
    assert forall|v: usize, k: nat| k <= d + 1 && #[trigger] at_distance(g, a, v, k) implies p.contains_key(
        v,
    ) by {
        if k <= d {
            assert(known.contains_key(v));
        } else {
            let u = lemma_distance_pred(g, a, v, d);
            assert(known.contains_key(u));
            lemma_distance_unique(g, a, u, d, depth[u]);
            assert(e.contains((u, v)));
        }
    }
    assert forall|v: usize| #[trigger] p.contains_key(v) && v != a implies parent_fits(
        g,
        a,
        p,
        deeper,
        v,
    ) by {
        let u = p[v];
        if known.contains_key(v) {
            assert(parent_fits(g, a, known, depth, v));
            assert(known.contains_key(u));
        } else {
            assert(next.contains(v));
            assert(e.contains((u, v)));
            assert(f.contains(u));
            assert(known.contains_key(u));
            assert forall|w: usize| #[trigger]
                has_edge(g, w, v) && at_distance(g, a, w, deeper[u]) implies u <= w by {
                assert(known.contains_key(w));
                lemma_distance_unique(g, a, w, d, depth[w]);
                assert(f.contains(w));
                assert(e.contains((w, v)));
            }
        }
    }
    assert(known.contains_key(a));
}

/// When a level turns out empty, what has no parent cannot be reached.
proof fn lemma_exhausted(
    g: Seq<VertexView>,
    a: usize,
    b: usize,
    parents: Map<usize, usize>,
    depth: Map<usize, nat>,
    d: nat,
)
    requires
        settled_to(g, a, parents, depth, d),
        forall|v: usize| depth.contains_key(v) ==> depth[v] != d,
        !parents.contains_key(b),
    ensures
        !reachable(g, a, b),
{
    if reachable(g, a, b) {
        let p = choose|p: Seq<usize>| walk_between(g, a, b, p);
        lemma_reachable_has_distance(g, a, b, p);
        let k = choose|k: nat| k + 1 <= p.len() && #[trigger] at_distance(g, a, b, k);
        if k > d {
            let w = lemma_distance_below(g, a, b, k, d);
            assert(parents.contains_key(w));
            lemma_distance_unique(g, a, w, d, depth[w]);
        }
    }
}

/// A map whose keys are ids below `n` has at most `n` keys, and more keys
/// than a map that lacks one of them and has no others.
proof fn lemma_more_keys(n: nat, known: Map<usize, usize>, p: Map<usize, usize>, v: usize)
    requires
        n <= usize::MAX + 1,
        forall|k: usize| p.contains_key(k) ==> k < n,
        forall|k: usize| known.contains_key(k) ==> p.contains_key(k),
        p.contains_key(v),
        !known.contains_key(v),
    ensures
        known.dom().len() < p.dom().len() <= n,
{
    lemma_ids_below(n);
    lemma_len_subset(p.dom(), ids_below(n));
    lemma_len_subset(known.dom(), p.dom().remove(v));
}

/// The ids below `n`.
spec fn ids_below(n: nat) -> Set<usize> {
    Set::new(|v: usize| v < n)
}

proof fn lemma_ids_below(n: nat)
    requires
        n <= usize::MAX + 1,
    ensures
        ids_below(n).finite(),
        ids_below(n).len() == n,
    decreases n,
{
    if n == 0 {
        assert(ids_below(0) =~= Set::empty());
    } else {
        lemma_ids_below((n - 1) as nat);
        assert(ids_below(n) =~= ids_below((n - 1) as nat).insert((n - 1) as usize));
    }
}

/// Looks at the edge `u -> v`: a target that is new gets `u` as its parent
/// and joins the next level; one that joined in this level already takes
/// `u` in place of a parent with a higher id.
fn relax(
    parents: &mut AHashMap<usize, usize>,
    next: &mut AHashSet<usize>,
    u: usize,
    v: usize,
    Ghost(known): Ghost<Map<usize, usize>>,
    Ghost(e): Ghost<Set<(usize, usize)>>,
)
    requires
        scanning(known, map_entries(*old(parents)), set_members(*old(next)), e),
    ensures
        scanning(known, map_entries(*final(parents)), set_members(*final(next)), e.insert((u, v))),
{
    if !map_contains_key(parents, v) {
        map_insert(parents, v, u);
        set_insert(next, v);
    } else if set_contains(next, v) && u < map_index(parents, v) {
        map_insert(parents, v, u);
    }
}

/// The items of `v`, last to first.
fn reversed(v: &Vec<usize>) -> (r: Vec<usize>)
    ensures
        r@.len() == v@.len(),
        forall|i: int| 0 <= i < r@.len() ==> r@[i] == v@[v@.len() - 1 - i],
{
    let mut r: Vec<usize> = Vec::new();
    let mut left: usize = v.len();
    while left > 0
        invariant
            left <= v@.len(),
            r@.len() == v@.len() - left,
            forall|i: int| 0 <= i < r@.len() ==> r@[i] == v@[v@.len() - 1 - i],
        decreases left,
    {
        left = left - 1;
        r.push(v[left]);
    }
    r
}

impl Graph {
    /// Looks at every edge out of `frontier`, the vertices at depth `d`, and
    /// returns the vertices at depth `d + 1`.
    fn advance(
        &self,
        parents: &mut AHashMap<usize, usize>,
        frontier: &AHashSet<usize>,
        Ghost(a): Ghost<usize>,
        Ghost(depth): Ghost<Map<usize, nat>>,
        Ghost(d): Ghost<nat>,
    ) -> (result: Result<AHashSet<usize>, GraphError>)
        requires
            self.wf(),
            settled_to(self@, a, map_entries(*old(parents)), depth, d),
            is_level(depth, d, set_members(*frontier)),
        ensures
            result is Ok,
            settled_to(
                self@,
                a,
                map_entries(*final(parents)),
                deepened(map_entries(*old(parents)), map_entries(*final(parents)), depth, d),
                d + 1,
            ),
            result matches Ok(next) ==> is_level(
                deepened(map_entries(*old(parents)), map_entries(*final(parents)), depth, d),
                d + 1,
                set_members(next),
            ),
            result matches Ok(next) ==> forall|v: usize|
                map_entries(*final(parents)).contains_key(v) <==> map_entries(
                    *old(parents),
                ).contains_key(v) || set_members(next).contains(v),
            result matches Ok(next) ==> forall|v: usize|
                set_members(next).contains(v) ==> !map_entries(*old(parents)).contains_key(v),
    {
        let ghost g = self@;
        let ghost known = map_entries(*parents);
        let ghost f = set_members(*frontier);
        let ghost mut e: Set<(usize, usize)> = Set::empty();
        let items = set_items(frontier);
        let mut next = set_new();
        let mut i: usize = 0;
        while i < items.len()
            invariant
                self.wf(),
                g == self@,
                i <= items@.len(),
                settled_to(g, a, known, depth, d),
                is_level(depth, d, f),
                forall|v: usize| items@.contains(v) <==> f.contains(v),
                scanning(known, map_entries(*parents), set_members(next), e),
                forall|u: usize, v: usize| #[trigger]
                    e.contains((u, v)) ==> f.contains(u) && has_edge(g, u, v),
                forall|k: int, v: usize|
                    0 <= k < i && #[trigger] has_edge(g, items@[k], v) ==> e.contains((items@[k], v)),
            decreases items@.len() - i,
        {
            let u = items[i];
            assert(items@.contains(u));
            assert(known.contains_key(u));
            let neighbors = self.get_neighbors(u)?;
            let ghost e0 = e;
            let mut j: usize = 0;
            while j < neighbors.len()
                invariant
                    j <= neighbors@.len(),
                    u < g.len(),
                    neighbors@ == g[u as int].connected,
                    f.contains(u),
                    scanning(known, map_entries(*parents), set_members(next), e),
                    forall|x: usize, v: usize| #[trigger]
                        e.contains((x, v)) ==> f.contains(x) && has_edge(g, x, v),
                    forall|x: usize, v: usize| #[trigger] e0.contains((x, v)) ==> e.contains((x, v)),
                    forall|k: int| 0 <= k < j ==> e.contains((u, #[trigger] neighbors@[k])),
                decreases neighbors@.len() - j,
            {
                let v = neighbors[j];
                relax(parents, &mut next, u, v, Ghost(known), Ghost(e));
                proof {
                    e = e.insert((u, v));
                }
                j = j + 1;
            }
            i = i + 1;
        }
        proof {
            assert forall|u: usize, v: usize| f.contains(u) && has_edge(g, u, v) implies #[trigger]
                e.contains((u, v)) by {
                let k = choose|k: int| 0 <= k < items@.len() && items@[k] == u;
                assert(has_edge(g, items@[k], v));
            }
            lemma_level_done(g, a, known, depth, d, f, map_entries(*parents), set_members(next), e);
        }
        Ok(next)
    }

    /// The shortest walk from the vertex `from` to the vertex `to`, as ids,
    /// both ends included. Of several shortest walks it returns the settled
    /// one, whose every step comes from the lowest id that a shortest walk
    /// can come from.
    ///
    /// An id that is out of range is reported, `from` before `to`. `NoPath`
    /// is returned exactly when no walk leads from `from` to `to`. A vertex
    /// reaches itself in zero hops, whatever its edges.
    pub fn shortest_walk(&self, from: usize, to: usize) -> (result: Result<Vec<usize>, GraphError>)
        requires
            self.wf(),
        ensures
            match result {
                Ok(path) => is_settled_walk(self@, from, to, path@) && path@ == settled_walk(
                    self@,
                    from,
                    to,
                ),
                Err(e) => e@ == if from >= self@.len() {
                    missing_id(from)
                } else if to >= self@.len() {
                    missing_id(to)
                } else {
                    GraphErrorView::NoPath
                },
            },
            result is Err && from < self@.len() && to < self@.len() ==> !reachable(self@, from, to),
    {
        if !self.has_vertex(from) {
            return Err(GraphError::VertexNotFound(VertexKey::Id(from)));
        }
        if !self.has_vertex(to) {
            return Err(GraphError::VertexNotFound(VertexKey::Id(to)));
        }
        let ghost g = self@;
        let count = self.vertex_count();
        if from == to {
            let mut path: Vec<usize> = Vec::new();
            path.push(from);
            proof {
                assert(path@ =~= seq![from]);
                assert(is_shortest_walk(g, from, to, path@));
                lemma_settled_walk_is(g, from, to, path@);
            }
            return Ok(path);
        }
        let mut parents = map_new();
        map_insert(&mut parents, from, from);
        let mut frontier = set_new();
        set_insert(&mut frontier, from);
        let ghost mut depth: Map<usize, nat> = Map::empty().insert(from, 0nat);
        let ghost mut d: nat = 0;
        proof {
            lemma_distance_zero(g, from, from);
            assert forall|v: usize, k: nat| k <= d && #[trigger] at_distance(g, from, v, k) implies map_entries(
                parents,
            ).contains_key(v) by {
                lemma_distance_zero(g, from, v);
            }
        }
        loop
            invariant
                self.wf(),
                g == self@,
                g.len() == count,
                from != to,
                to < g.len(),
                settled_to(g, from, map_entries(parents), depth, d),
                is_level(depth, d, set_members(frontier)),
            ensures
                settled_to(g, from, map_entries(parents), depth, d),
                map_entries(parents).contains_key(to),
            decreases g.len() - map_entries(parents).dom().len(),
        {
            if map_contains_key(&parents, to) {
                break ;
            }
            let ghost known = map_entries(parents);
            let next = self.advance(&mut parents, &frontier, Ghost(from), Ghost(depth), Ghost(d))?;
            proof {
                depth = deepened(known, map_entries(parents), depth, d);
                d = d + 1;
            }
            if set_is_empty(&next) {
                proof {
                    lemma_exhausted(g, from, to, map_entries(parents), depth, d);
                }
                return Err(GraphError::NoPath);
            }
            proof {
                let v = choose|v: usize| set_members(next).contains(v);
                lemma_more_keys(g.len(), known, map_entries(parents), v);
            }
            frontier = next;
        }
        let ghost p = map_entries(parents);
        let mut back: Vec<usize> = Vec::new();
        back.push(to);
        let mut current = to;
        loop
            invariant
                settled_to(g, from, p, depth, d),
                p == map_entries(parents),
                back@.len() >= 1,
                back@[0] == to,
                back@[back@.len() - 1] == current,
                forall|i: int|
                    0 <= i < back@.len() ==> p.contains_key(#[trigger] back@[i]) && depth[back@[i]]
                        + i == depth[to],
                forall|i: int|
                    0 <= i < back@.len() - 1 ==> (#[trigger] back@[i]) != from && back@[i + 1]
                        == p[back@[i]],
            ensures
                current == from,
            decreases depth[current],
        {
            let parent = map_index(&parents, current);
            if parent == current {
                proof {
                    if current != from {
                        assert(parent_fits(g, from, p, depth, current));
                    }
                }
                break ;
            }
            proof {
                assert(parent_fits(g, from, p, depth, current));
            }
            back.push(parent);
            current = parent;
        }
        let path = reversed(&back);
        proof {
            let r = path@;
            let n = r.len() as int;
            assert forall|i: int| 0 < i < n implies r[i] != from && r[i - 1] == p[r[i]]
                && parent_fits(g, from, p, depth, #[trigger] r[i]) && depth[r[i]] == i by {
                let k = n - 1 - i;
                assert(back@[k] != from);
                assert(back@[k + 1] == p[back@[k]]);
                assert(p.contains_key(back@[k]));
            }
            assert(depth[r[0]] == 0);
            assert(depth[to] + 1 == n);
            assert(is_walk(g, r)) by {
                assert forall|i: int| 0 <= i < n implies (#[trigger] r[i]) < g.len() by {
                    assert(p.contains_key(back@[n - 1 - i]));
                }
                assert forall|i: int| 0 <= i < n - 1 implies has_edge(g, #[trigger] r[i], r[i + 1]) by {
                    assert(parent_fits(g, from, p, depth, r[i + 1]));
                }
            }
            assert(p.contains_key(to));
            lemma_distance_of_walk(g, from, to, r, depth[to]);
            assert(takes_lowest_ids(g, from, r)) by {
                assert forall|i: int, u: usize|
                    0 < i < r.len() && #[trigger] at_distance(g, from, u, (i - 1) as nat)
                        && #[trigger] has_edge(g, u, r[i]) implies r[i - 1] <= u by {
                    assert(parent_fits(g, from, p, depth, r[i]));
                    assert(p.contains_key(back@[n - 1 - (i - 1)]));
                }
            }
            lemma_settled_walk_is(g, from, to, r);
        }
        Ok(path)
    }
}

} // verus!
