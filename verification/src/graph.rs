//! The graph store: a vertex arena indexed by id, with adjacency lists and a
//! label index that is kept up to date as vertices are appended.

use vstd::prelude::*;
use vstd::hash_map::StringHashMap;
use crate::error::{GraphError, GraphErrorView, VertexKey, missing_id, missing_label};
use crate::model::{
    VertexView, edges_in_range, graph_rows, has_label, is_first_with_label, isolated, rows_graph,
    with_edge,
};

verus! {

/// A vertex: its label and the ids its edges lead to, in insertion order.
/// Duplicate targets and self-loops are allowed.
pub struct Vertex {
    link: String,
    connected: Vec<usize>,
}

impl View for Vertex {
    type V = VertexView;

    closed spec fn view(&self) -> VertexView {
        VertexView { link: self.link@, connected: self.connected@ }
    }
}

impl Vertex {
    /// A vertex with the given label and no edges.
    pub fn new(link: String) -> (vertex: Vertex)
        ensures
            vertex@ == isolated(link@),
    {
        Vertex { link, connected: Vec::new() }
    }

    /// The label.
    pub fn get_link(&self) -> (link: &String)
        ensures
            link@ == self@.link,
    {
        &self.link
    }

    /// The edge targets, in insertion order.
    pub fn get_connected(&self) -> (connected: &Vec<usize>)
        ensures
            connected@ == self@.connected,
    {
        &self.connected
    }

    /// Appends an edge to `connected`.
    pub fn add_connected(&mut self, connected: usize)
        ensures
            final(self)@.link == old(self)@.link,
            final(self)@.connected == old(self)@.connected.push(connected),
    {
        self.connected.push(connected)
    }
}

/// `index` holds exactly the labels in use in `g`, each with the lowest id
/// that carries it.
spec fn indexes(index: Map<Seq<char>, usize>, g: Seq<VertexView>) -> bool {
    &&& forall|i: int| 0 <= i < g.len() ==> index.contains_key((#[trigger] g[i]).link)
    &&& forall|link: Seq<char>| #[trigger]
        index.contains_key(link) ==> is_first_with_label(g, link, index[link])
}

/// A directed graph whose vertices are numbered `0..N` in insertion order.
pub struct Graph {
    vertices: Vec<Vertex>,
    index: StringHashMap<usize>,
}

impl View for Graph {
    type V = Seq<VertexView>;

    closed spec fn view(&self) -> Seq<VertexView> {
        Seq::new(self.vertices@.len(), |i: int| self.vertices@[i]@)
    }
}

impl Graph {
    /// The label index holds exactly the labels in use, each with the lowest
    /// id that carries it.
    pub closed spec fn index_agrees(&self) -> bool {
        indexes(self.index@, self@)
    }

    /// The invariant of a graph: edges stay inside it, and the label index
    /// agrees with the vertices.
    pub open spec fn wf(&self) -> bool {
        &&& edges_in_range(self@)
        &&& self.index_agrees()
    }

    /// A graph has no more vertices than there are ids.
    pub proof fn lemma_vertex_count_fits(&self)
        ensures
            self@.len() <= usize::MAX,
    {
        assert(self.vertices.len() == self.vertices@.len());
    }

    /// The empty graph.
    pub fn new() -> (graph: Graph)
        ensures
            graph.wf(),
            graph@ == Seq::<VertexView>::empty(),
    {
        Graph { vertices: Vec::new(), index: StringHashMap::new() }
    }

    /// The number of vertices.
    pub fn vertex_count(&self) -> (count: usize)
        ensures
            count == self@.len(),
    {
        self.vertices.len()
    }

    /// Appends a vertex with the label `link` and returns its id. A label
    /// that is already in use keeps resolving to its first vertex.
    pub fn add_vertex(&mut self, link: String) -> (id: usize)
        requires
            old(self).wf(),
        ensures
            final(self).wf(),
            id == old(self)@.len(),
            final(self)@ == old(self)@.push(isolated(link@)),
    {
        let id = self.vertices.len();
        if !self.index.contains_key(link.as_str()) {
            self.index.insert(link.clone(), id);
        }
        self.vertices.push(Vertex::new(link));
        proof {
            assert(final(self)@ =~= old(self)@.push(isolated(link@)));
        }
        id
    }

    /// Appends the edge `from -> to`, or reports the first of the two ids
    /// that is out of range and leaves the graph as it was.
    pub fn add_connection(&mut self, from: usize, to: usize) -> (result: Result<(), GraphError>)
        requires
            old(self).wf(),
        ensures
            final(self).wf(),
            match result {
                Ok(_) => {
                    &&& from < old(self)@.len()
                    &&& to < old(self)@.len()
                    &&& final(self)@ == with_edge(old(self)@, from, to)
                },
                Err(e) => {
                    &&& final(self)@ == old(self)@
                    &&& from >= old(self)@.len() ==> e@ == missing_id(from)
                    &&& from < old(self)@.len() ==> to >= old(self)@.len() && e@ == missing_id(to)
                },
            },
    {
        if !self.has_vertex(from) {
            return Err(GraphError::VertexNotFound(VertexKey::Id(from)));
        }
        if !self.has_vertex(to) {
            return Err(GraphError::VertexNotFound(VertexKey::Id(to)));
        }
        self.vertices[from].add_connected(to);
        proof {
            assert(final(self)@ =~= with_edge(old(self)@, from, to));
        }
        Ok(())
    }

    /// Whether `id` is the id of a vertex.
    pub fn has_vertex(&self, id: usize) -> (present: bool)
        ensures
            present == (id < self@.len()),
    {
        id < self.vertices.len()
    }

    /// Resolves a label to the id of the first vertex that carries it.
    pub fn find_by_link(&self, link: String) -> (result: Result<usize, GraphError>)
        requires
            self.wf(),
        ensures
            match result {
                Ok(id) => is_first_with_label(self@, link@, id),
                Err(e) => !has_label(self@, link@) && e@ == missing_label(link@),
            },
    {
        match self.index.get(link.as_str()) {
            Some(id) => Ok(*id),
            None => Err(GraphError::VertexNotFound(VertexKey::Label(link))),
        }
    }

    /// The edge targets of the vertex `id`, in insertion order.
    pub fn get_neighbors(&self, id: usize) -> (result: Result<&Vec<usize>, GraphError>)
        ensures
            match result {
                Ok(neighbors) => id < self@.len() && neighbors@ == self@[id as int].connected,
                Err(e) => id >= self@.len() && e@ == missing_id(id),
            },
    {
        if self.has_vertex(id) {
            return Ok(self.vertices[id].get_connected());
        }
        Err(GraphError::VertexNotFound(VertexKey::Id(id)))
    }

    /// The label of the vertex `id`.
    pub fn get_link(&self, id: usize) -> (result: Result<&String, GraphError>)
        ensures
            match result {
                Ok(link) => id < self@.len() && link@ == self@[id as int].link,
                Err(e) => id >= self@.len() && e@ == missing_id(id),
            },
    {
        if self.has_vertex(id) {
            return Ok(self.vertices[id].get_link());
        }
        Err(GraphError::VertexNotFound(VertexKey::Id(id)))
    }

    /// The graph as plain rows, one per vertex in id order: the label and
    /// the edge targets.
    pub fn rows(&self) -> (rows: Vec<(&String, &Vec<usize>)>)
        ensures
            rows.deep_view() == graph_rows(self@),
    {
        let mut rows: Vec<(&String, &Vec<usize>)> = Vec::new();
        let mut i: usize = 0;
        while i < self.vertices.len()
            invariant
                i <= self.vertices@.len(),
                rows@.len() == i,
                forall|k: int|
                    0 <= k < i ==> (#[trigger] rows@[k]).0@ == self@[k].link && rows@[k].1@
                        == self@[k].connected,
            decreases self.vertices@.len() - i,
        {
            let vertex = &self.vertices[i];
            rows.push((&vertex.link, &vertex.connected));
            i = i + 1;
        }
        proof {
            assert forall|k: int| 0 <= k < rows@.len() implies rows.deep_view()[k] == graph_rows(
                self@,
            )[k] by {
                assert(rows@[k].1.deep_view() =~= rows@[k].1@);
            }
            assert(rows.deep_view() =~= graph_rows(self@));
        }
        rows
    }

    /// Builds the graph that plain rows describe, one vertex per row in
    /// order, or reports `CorruptSnapshot` where a row has an edge to an id
    /// that no row stands for.
    pub fn from_rows(rows: Vec<(String, Vec<usize>)>) -> (result: Result<Graph, GraphError>)
        ensures
            match result {
                Ok(graph) => graph.wf() && graph@ == rows_graph(rows.deep_view()),
                Err(e) => e@ == GraphErrorView::CorruptSnapshot && !edges_in_range(
                    rows_graph(rows.deep_view()),
                ),
            },
    {
        let ghost g = rows_graph(rows.deep_view());
        let ghost all = rows@;
        proof {
            assert forall|k: int| 0 <= k < all.len() implies (#[trigger] g[k]) == (VertexView {
                link: all[k].0@,
                connected: all[k].1@,
            }) by {
                assert(all[k].1.deep_view() =~= all[k].1@);
            }
        }
        let count = rows.len();
        let mut i: usize = 0;
        while i < count
            invariant
                count == rows@.len(),
                all == rows@,
                g == rows_graph(rows.deep_view()),
                forall|k: int|
                    0 <= k < all.len() ==> (#[trigger] g[k]) == (VertexView {
                        link: all[k].0@,
                        connected: all[k].1@,
                    }),
                i <= count,
                forall|u: int, k: int|
                    0 <= u < i && 0 <= k < g[u].connected.len() ==> (#[trigger] g[u].connected[k])
                        < g.len(),
            decreases count - i,
        {
            let targets = &rows[i].1;
            assert(targets@ == g[i as int].connected);
            let mut j: usize = 0;
            while j < targets.len()
                invariant
                    g == rows_graph(rows.deep_view()),
                    targets@ == g[i as int].connected,
                    i < count,
                    count == g.len(),
                    j <= targets@.len(),
                    forall|k: int| 0 <= k < j ==> (#[trigger] targets@[k]) < count,
                decreases targets@.len() - j,
            {
                if targets[j] >= count {
                    proof {
                        assert(g[i as int].connected[j as int] >= g.len());
                    }
                    return Err(GraphError::CorruptSnapshot);
                }
                j = j + 1;
            }
            i = i + 1;
        }
        let mut vertices: Vec<Vertex> = Vec::new();
        let mut index: StringHashMap<usize> = StringHashMap::new();
        for row in it: rows
            invariant
                it.seq() == all,
                g.len() == all.len(),
                forall|k: int|
                    0 <= k < all.len() ==> (#[trigger] g[k]) == (VertexView {
                        link: all[k].0@,
                        connected: all[k].1@,
                    }),
                vertices@.len() == it.index(),
                forall|k: int| 0 <= k < it.index() ==> (#[trigger] vertices@[k])@ == g[k],
                indexes(index@, g.take(it.index())),
        {
            let ghost n = it.index();
            let id = vertices.len();
            let (link, connected) = row;
            assert(link@ == g[n].link && connected@ == g[n].connected);
            if !index.contains_key(link.as_str()) {
                index.insert(link.clone(), id);
            }
            vertices.push(Vertex { link, connected });
            proof {
                let before = g.take(n);
                let after = g.take(n + 1);
                assert(after =~= before.push(g[n]));
            }
        }
        let graph = Graph { vertices, index };
        proof {
            assert(g.take(g.len() as int) =~= g);
            assert(graph@ =~= g);
        }
        Ok(graph)
    }
}

} // verus!
