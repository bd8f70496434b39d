//! The mathematical model of a graph: a sequence of vertices, each with a
//! label and an ordered list of edge targets. The position of a vertex in the
//! sequence is its id.

use vstd::prelude::*;

verus! {

/// The mathematical value of a vertex.
pub struct VertexView {
    pub link: Seq<char>,
    pub connected: Seq<usize>,
}

/// Every edge target is the id of a vertex of `g`.
pub open spec fn edges_in_range(g: Seq<VertexView>) -> bool {
    forall|u: int, k: int|
        0 <= u < g.len() && 0 <= k < g[u].connected.len() ==> (#[trigger] g[u].connected[k])
            < g.len()
}

/// Some vertex of `g` carries the label `link`.
pub open spec fn has_label(g: Seq<VertexView>, link: Seq<char>) -> bool {
    exists|i: int| 0 <= i < g.len() && (#[trigger] g[i]).link == link
}

/// `id` is the lowest id among the vertices of `g` that carry the label
/// `link`: where a label occurs more than once, the vertex inserted first
/// answers for it.
pub open spec fn is_first_with_label(g: Seq<VertexView>, link: Seq<char>, id: usize) -> bool {
    &&& id < g.len()
    &&& g[id as int].link == link
    &&& forall|j: int| 0 <= j < id ==> (#[trigger] g[j]).link != link
}

/// A vertex with the label `link` and no edges.
pub open spec fn isolated(link: Seq<char>) -> VertexView {
    VertexView { link, connected: Seq::empty() }
}

/// `g` with the edge `from -> to` added at the end of `from`'s list.
pub open spec fn with_edge(g: Seq<VertexView>, from: usize, to: usize) -> Seq<VertexView> {
    g.update(
        from as int,
        VertexView { link: g[from as int].link, connected: g[from as int].connected.push(to) },
    )
}

/// The labels of the vertices `ids`, in order.
pub open spec fn labels_of(g: Seq<VertexView>, ids: Seq<usize>) -> Seq<Seq<char>> {
    Seq::new(ids.len(), |i: int| g[ids[i] as int].link)
}

/// A graph as plain rows: one pair of label and edge targets per vertex.
pub open spec fn graph_rows(g: Seq<VertexView>) -> Seq<(Seq<char>, Seq<usize>)> {
    Seq::new(g.len(), |i: int| (g[i].link, g[i].connected))
}

/// The vertices that plain rows describe.
pub open spec fn rows_graph(rows: Seq<(Seq<char>, Seq<usize>)>) -> Seq<VertexView> {
    Seq::new(rows.len(), |i: int| VertexView { link: rows[i].0, connected: rows[i].1 })
}

/// Rows and vertices say the same thing: turning a graph into rows and
/// back gives the graph.
pub proof fn lemma_rows_round_trip(g: Seq<VertexView>)
    ensures
        rows_graph(graph_rows(g)) == g,
{
    assert(rows_graph(graph_rows(g)) =~= g);
}

} // verus!
