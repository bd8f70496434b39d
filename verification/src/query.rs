//! Path queries by label: what the answer to a query is, the function that
//! computes it, and what holds of every answer.

use vstd::prelude::*;
use crate::error::{GraphError, GraphErrorView, missing_label};
use crate::graph::Graph;
use crate::model::{VertexView, has_label, is_first_with_label, labels_of};
use crate::walk::{
    at_distance, is_settled_walk, is_shortest_walk, lemma_settled_walk_exists,
    lemma_settled_walk_is, reachable, settled_walk, walk_between,
};

verus! {

/// The id that the label `link` resolves to: the lowest id that carries it.
pub open spec fn first_with_label(g: Seq<VertexView>, link: Seq<char>) -> usize {
    choose|id: usize| is_first_with_label(g, link, id)
}

/// The answer to the query "from `from` to `to`" on the graph `g`.
///
/// A label that no vertex carries is reported, `from` before `to`. Else
/// both labels are resolved; where the second vertex cannot be reached from
/// the first the answer is `NoPath`, and else it is the labels along the
/// settled walk between them.
pub open spec fn path_answer(g: Seq<VertexView>, from: Seq<char>, to: Seq<char>) -> Result<
    Seq<Seq<char>>,
    GraphErrorView,
> {
    if !has_label(g, from) {
        Err(missing_label(from))
    } else if !has_label(g, to) {
        Err(missing_label(to))
    } else {
        let a = first_with_label(g, from);
        let b = first_with_label(g, to);
        if reachable(g, a, b) {
            Ok(labels_of(g, settled_walk(g, a, b)))
        } else {
            Err(GraphErrorView::NoPath)
        }
    }
}

/// The mathematical value of what a query returns.
pub open spec fn answer_view(result: Result<Vec<String>, GraphError>) -> Result<
    Seq<Seq<char>>,
    GraphErrorView,
> {
    match result {
        Ok(path) => Ok(path.deep_view()),
        Err(e) => Err(e@),
    }
}

/// A label resolves to one id only.
pub proof fn lemma_first_with_label_is(g: Seq<VertexView>, link: Seq<char>, id: usize)
    requires
        is_first_with_label(g, link, id),
    ensures
        has_label(g, link),
        first_with_label(g, link) == id,
{
    assert(g[id as int].link == link);
    let other = first_with_label(g, link);
    assert(is_first_with_label(g, link, other));
    if other < id {
        assert(g[other as int].link != link);
    }
    if id < other {
        assert(g[id as int].link != link);
    }
}

/// The lowest position at or before `i` that carries the label at `i`.
proof fn lemma_lowest_position(g: Seq<VertexView>, link: Seq<char>, i: int) -> (j: int)
    requires
        0 <= i < g.len(),
        g[i].link == link,
    ensures
        0 <= j <= i,
        g[j].link == link,
        forall|k: int| 0 <= k < j ==> (#[trigger] g[k]).link != link,
    decreases i,
{
    if exists|k: int| 0 <= k < i && (#[trigger] g[k]).link == link {
        let k = choose|k: int| 0 <= k < i && (#[trigger] g[k]).link == link;
        lemma_lowest_position(g, link, k)
    } else {
        i
    }
}

/// A label that is in use resolves to a vertex that carries it.
pub proof fn lemma_label_resolves(g: Seq<VertexView>, link: Seq<char>)
    requires
        g.len() <= usize::MAX,
        has_label(g, link),
    ensures
        is_first_with_label(g, link, first_with_label(g, link)),
{
    let i = choose|i: int| 0 <= i < g.len() && (#[trigger] g[i]).link == link;
    let j = lemma_lowest_position(g, link, i);
    assert(is_first_with_label(g, link, j as usize));
}

/// A query from a label to itself is answered by that label alone,
/// whatever edges its vertex has.
pub proof fn lemma_path_to_self(g: Seq<VertexView>, link: Seq<char>)
    requires
        g.len() <= usize::MAX,
        has_label(g, link),
    ensures
        path_answer(g, link, link) == Ok::<Seq<Seq<char>>, GraphErrorView>(seq![link]),
{
    lemma_label_resolves(g, link);
    let a = first_with_label(g, link);
    let p = seq![a];
    assert(is_shortest_walk(g, a, a, p));
    assert(is_settled_walk(g, a, a, p));
    lemma_settled_walk_is(g, a, a, p);
    assert(labels_of(g, p) =~= seq![link]);
}

/// A path that a query returns has as many hops as the distance between
/// its ends: it is a walk from the first vertex to the second, and no walk
/// between them is shorter.
pub proof fn lemma_path_is_shortest(
    g: Seq<VertexView>,
    from: Seq<char>,
    to: Seq<char>,
    path: Seq<Seq<char>>,
)
    requires
        g.len() <= usize::MAX,
        path_answer(g, from, to) == Ok::<Seq<Seq<char>>, GraphErrorView>(path),
    ensures
        path.len() >= 1,
        path[0] == from,
        path[path.len() - 1] == to,
        at_distance(
            g,
            first_with_label(g, from),
            first_with_label(g, to),
            (path.len() - 1) as nat,
        ),
        forall|q: Seq<usize>| #[trigger]
            walk_between(g, first_with_label(g, from), first_with_label(g, to), q) ==> path.len()
                <= q.len(),
{
    lemma_label_resolves(g, from);
    lemma_label_resolves(g, to);
    let a = first_with_label(g, from);
    let b = first_with_label(g, to);
    lemma_settled_walk_exists(g, a, b);
    let p = settled_walk(g, a, b);
    assert(is_shortest_walk(g, a, b, p));
    assert(p.len() == path.len());
    assert(path[0] == g[p[0] as int].link);
    assert(path[path.len() - 1] == g[p[p.len() - 1] as int].link);
}

/// Two vertices with no walk between them give `NoPath`, and a label that
/// no vertex carries is named in the error, the first of the two if both
/// are missing.
pub proof fn lemma_failures(g: Seq<VertexView>, from: Seq<char>, to: Seq<char>)
    ensures
        !has_label(g, from) ==> path_answer(g, from, to) == Err::<Seq<Seq<char>>, GraphErrorView>(
            missing_label(from),
        ),
        has_label(g, from) && !has_label(g, to) ==> path_answer(g, from, to) == Err::<
            Seq<Seq<char>>,
            GraphErrorView,
        >(missing_label(to)),
        has_label(g, from) && has_label(g, to) && !reachable(
            g,
            first_with_label(g, from),
            first_with_label(g, to),
        ) ==> path_answer(g, from, to) == Err::<Seq<Seq<char>>, GraphErrorView>(
            GraphErrorView::NoPath,
        ),
{
}

/// A query has one answer: two results that both meet the contract of
/// [`Graph::get_shortest_path`] for the same graph and labels are the same
/// path or the same error.
pub proof fn lemma_one_answer(
    g: Seq<VertexView>,
    from: Seq<char>,
    to: Seq<char>,
    first: Result<Vec<String>, GraphError>,
    second: Result<Vec<String>, GraphError>,
)
    requires
        answer_view(first) == path_answer(g, from, to),
        answer_view(second) == path_answer(g, from, to),
    ensures
        answer_view(first) == answer_view(second),
{
}

impl Graph {
    /// The shortest path from the vertex labelled `from_link` to the vertex
    /// labelled `to_link`, as the labels along it, both ends included.
    ///
    /// Of several shortest paths the settled one is returned: each of its
    /// vertices is entered from the lowest id that a shortest path can
    /// enter it from.
    pub fn get_shortest_path(&self, from_link: String, to_link: String) -> (result: Result<
        Vec<String>,
        GraphError,
    >)
        requires
            self.wf(),
        ensures
            answer_view(result) == path_answer(self@, from_link@, to_link@),
    {
        let ghost g = self@;
        let ghost from = from_link@;
        let ghost to = to_link@;
        let from_id = self.find_by_link(from_link)?;
        proof {
            lemma_first_with_label_is(g, from, from_id);
        }
        let to_id = self.find_by_link(to_link)?;
        proof {
            lemma_first_with_label_is(g, to, to_id);
        }
        let path = self.shortest_walk(from_id, to_id)?;
        let mut link_path: Vec<String> = Vec::new();
        let mut i: usize = 0;
        while i < path.len()
            invariant
                g == self@,
                i <= path@.len(),
                is_settled_walk(g, from_id, to_id, path@),
                link_path@.len() == i,
                forall|k: int| 0 <= k < i ==> (#[trigger] link_path@[k])@ == g[path@[k] as int].link,
            decreases path@.len() - i,
        {
            let link = self.get_link(path[i])?;
            link_path.push(link.clone());
            i = i + 1;
        }
        proof {
            assert(link_path.deep_view() =~= labels_of(g, path@));
            assert(walk_between(g, from_id, to_id, path@));
        }
        Ok(link_path)
    }
}

} // verus!
