use link_graph::error::{GraphError, VertexKey};
use link_graph::graph::Graph;

fn labels(names: &[&str]) -> Vec<String> {
    names.iter().map(|name| String::from(*name)).collect()
}

fn graph_of(names: &[&str], edges: &[(usize, usize)]) -> Graph {
    let mut graph = Graph::new();
    for name in names {
        graph.add_vertex(String::from(*name));
    }
    for (from, to) in edges {
        graph.add_connection(*from, *to).unwrap();
    }
    graph
}

fn path(graph: &Graph, from: &str, to: &str) -> Result<Vec<String>, GraphError> {
    graph.get_shortest_path(String::from(from), String::from(to))
}

/// Distances from `from` by a plain queue, to compare against.
fn distances(graph: &Graph, from: usize) -> Vec<Option<usize>> {
    let mut found = vec![None; graph.vertex_count()];
    found[from] = Some(0);
    let mut queue = std::collections::VecDeque::new();
    queue.push_back(from);
    while let Some(u) = queue.pop_front() {
        for v in graph.get_neighbors(u).unwrap() {
            if found[*v].is_none() {
                found[*v] = Some(found[u].unwrap() + 1);
                queue.push_back(*v);
            }
        }
    }
    found
}

#[test]
fn chain_of_three() {
    let graph = graph_of(&["A", "B", "C"], &[(0, 1), (1, 2)]);
    assert_eq!(path(&graph, "A", "C"), Ok(labels(&["A", "B", "C"])));
    assert_eq!(path(&graph, "C", "A"), Err(GraphError::NoPath));
    assert_eq!(
        path(&graph, "A", "Z"),
        Err(GraphError::VertexNotFound(VertexKey::Label(String::from("Z"))))
    );
}

#[test]
fn path_to_self_is_the_vertex_alone() {
    let graph = graph_of(&["A", "B", "C", "D"], &[(0, 1), (1, 0), (2, 2)]);
    assert_eq!(path(&graph, "A", "A"), Ok(labels(&["A"])));
    assert_eq!(path(&graph, "B", "B"), Ok(labels(&["B"])));
    assert_eq!(path(&graph, "C", "C"), Ok(labels(&["C"])));
    assert_eq!(path(&graph, "D", "D"), Ok(labels(&["D"])));
    assert_eq!(graph.shortest_walk(3, 3), Ok(vec![3]));
}

#[test]
fn path_to_self_in_a_graph_of_one_vertex() {
    let graph = graph_of(&["only"], &[]);
    assert_eq!(path(&graph, "only", "only"), Ok(labels(&["only"])));
}

#[test]
fn missing_labels_are_named() {
    let graph = graph_of(&["A", "B"], &[(0, 1)]);
    assert_eq!(
        path(&graph, "Y", "B"),
        Err(GraphError::VertexNotFound(VertexKey::Label(String::from("Y"))))
    );
    assert_eq!(
        path(&graph, "Y", "Z"),
        Err(GraphError::VertexNotFound(VertexKey::Label(String::from("Y"))))
    );
    assert_eq!(
        path(&graph, "Z", "Z"),
        Err(GraphError::VertexNotFound(VertexKey::Label(String::from("Z"))))
    );
    assert_eq!(
        path(&Graph::new(), "A", "A"),
        Err(GraphError::VertexNotFound(VertexKey::Label(String::from("A"))))
    );
}

#[test]
fn unreachable_pairs_give_no_path() {
    let graph = graph_of(&["A", "B", "C", "D"], &[(0, 1), (2, 3), (3, 2)]);
    assert_eq!(path(&graph, "A", "C"), Err(GraphError::NoPath));
    assert_eq!(path(&graph, "B", "A"), Err(GraphError::NoPath));
    assert_eq!(path(&graph, "D", "B"), Err(GraphError::NoPath));
    assert_eq!(graph.shortest_walk(1, 0), Err(GraphError::NoPath));
}

#[test]
fn shortest_walk_names_ids_out_of_range() {
    let graph = graph_of(&["A", "B"], &[(0, 1)]);
    assert_eq!(
        graph.shortest_walk(2, 0),
        Err(GraphError::VertexNotFound(VertexKey::Id(2)))
    );
    assert_eq!(
        graph.shortest_walk(0, 5),
        Err(GraphError::VertexNotFound(VertexKey::Id(5)))
    );
    assert_eq!(
        graph.shortest_walk(4, 5),
        Err(GraphError::VertexNotFound(VertexKey::Id(4)))
    );
}

#[test]
fn shorter_of_two_routes_is_taken() {
    // 0 -> 1 -> 2 -> 3 -> 4 and the shortcut 0 -> 5 -> 4
    let graph = graph_of(
        &["a", "b", "c", "d", "e", "f"],
        &[(0, 1), (1, 2), (2, 3), (3, 4), (0, 5), (5, 4)],
    );
    assert_eq!(path(&graph, "a", "e"), Ok(labels(&["a", "f", "e"])));
    assert_eq!(graph.shortest_walk(0, 4), Ok(vec![0, 5, 4]));
    assert_eq!(graph.shortest_walk(1, 4), Ok(vec![1, 2, 3, 4]));
}

#[test]
fn equal_length_paths_resolve_to_the_lowest_ids() {
    let graph = graph_of(&["A", "B", "C", "D"], &[(0, 1), (0, 2), (1, 3), (2, 3)]);
    for _ in 0..50 {
        assert_eq!(path(&graph, "A", "D"), Ok(labels(&["A", "B", "D"])));
    }
}

#[test]
fn tie_break_does_not_follow_edge_order() {
    // the edge to C is listed before the edge to B
    let graph = graph_of(&["A", "B", "C", "D"], &[(0, 2), (0, 1), (2, 3), (1, 3)]);
    for _ in 0..50 {
        assert_eq!(path(&graph, "A", "D"), Ok(labels(&["A", "B", "D"])));
    }
}

#[test]
fn tie_break_in_a_wide_frontier() {
    // 0 leads to 2..=60, each of which leads to 1
    let mut graph = Graph::new();
    for id in 0..61 {
        graph.add_vertex(format!("v{}", id));
    }
    for id in (2..61).rev() {
        graph.add_connection(0, id).unwrap();
        graph.add_connection(id, 1).unwrap();
    }
    for _ in 0..50 {
        assert_eq!(graph.shortest_walk(0, 1), Ok(vec![0, 2, 1]));
    }
}

#[test]
fn tie_break_applies_at_every_step() {
    // two levels of ties: 0 -> {1, 2}, 1 -> {4}, 2 -> {3}, {3, 4} -> 5
    let graph = graph_of(
        &["s", "a", "b", "c", "d", "t"],
        &[(0, 2), (0, 1), (1, 4), (2, 3), (4, 5), (3, 5)],
    );
    for _ in 0..50 {
        assert_eq!(graph.shortest_walk(0, 5), Ok(vec![0, 2, 3, 5]));
    }
}

#[test]
fn repeated_queries_return_identical_results() {
    let graph = graph_of(
        &["A", "B", "C", "D", "E"],
        &[(0, 1), (0, 2), (1, 3), (2, 3), (3, 4), (4, 0)],
    );
    let first = path(&graph, "A", "E");
    for _ in 0..20 {
        assert_eq!(path(&graph, "A", "E"), first);
    }
    let missing = path(&graph, "A", "nowhere");
    assert_eq!(path(&graph, "A", "nowhere"), missing);
    let mut lonely = graph_of(&["A", "B"], &[]);
    lonely.add_vertex(String::from("C"));
    assert_eq!(path(&lonely, "A", "B"), path(&lonely, "A", "B"));
}

#[test]
fn path_length_is_the_distance() {
    let edges = [
        (0, 1), (0, 2), (1, 3), (2, 3), (3, 4), (4, 5), (5, 0), (2, 6), (6, 7), (7, 5),
        (1, 1), (3, 0), (8, 0),
    ];
    let names = ["n0", "n1", "n2", "n3", "n4", "n5", "n6", "n7", "n8", "n9"];
    let graph = graph_of(&names, &edges);
    for from in 0..names.len() {
        let expected = distances(&graph, from);
        for to in 0..names.len() {
            match graph.shortest_walk(from, to) {
                Ok(walk) => {
                    assert_eq!(Some(walk.len() - 1), expected[to]);
                    assert_eq!(walk[0], from);
                    assert_eq!(walk[walk.len() - 1], to);
                    for step in 0..walk.len() - 1 {
                        assert!(graph.get_neighbors(walk[step]).unwrap().contains(&walk[step + 1]));
                    }
                }
                Err(e) => {
                    assert_eq!(e, GraphError::NoPath);
                    assert_eq!(expected[to], None);
                }
            }
        }
    }
}

#[test]
fn duplicate_labels_resolve_to_the_first_vertex() {
    // "X" is vertex 1 and vertex 2; only vertex 2 leads on
    let graph = graph_of(&["A", "X", "X", "B"], &[(0, 1), (0, 2), (2, 3)]);
    assert_eq!(path(&graph, "A", "X"), Ok(labels(&["A", "X"])));
    assert_eq!(path(&graph, "X", "B"), Err(GraphError::NoPath));
    assert_eq!(path(&graph, "A", "B"), Ok(labels(&["A", "X", "B"])));
}

#[test]
fn self_loops_and_duplicate_edges_do_not_lengthen_paths() {
    let graph = graph_of(&["A", "B", "C"], &[(0, 0), (0, 1), (0, 1), (1, 1), (1, 2), (1, 2)]);
    assert_eq!(path(&graph, "A", "C"), Ok(labels(&["A", "B", "C"])));
}

/// The walk that takes, at every step back from `to`, the lowest id one hop
/// closer to `from` with an edge to the current vertex.
fn lowest_walk(graph: &Graph, from: usize, to: usize) -> Option<Vec<usize>> {
    let found = distances(graph, from);
    let mut hops = found[to]?;
    let mut walk = vec![to];
    let mut current = to;
    while hops > 0 {
        let parent = (0..graph.vertex_count())
            .find(|u| {
                found[*u] == Some(hops - 1) && graph.get_neighbors(*u).unwrap().contains(&current)
            })
            .unwrap();
        walk.push(parent);
        current = parent;
        hops -= 1;
    }
    walk.reverse();
    Some(walk)
}

#[test]
fn scattered_graphs_give_the_lowest_shortest_walk() {
    let mut state: u64 = 0x2545_f491_4f6c_dd1d;
    let mut next = move |bound: usize| {
        state ^= state << 13;
        state ^= state >> 7;
        state ^= state << 17;
        (state % bound as u64) as usize
    };
    for size in [1usize, 2, 5, 12, 40] {
        for density in [1usize, 2, 4] {
            let mut graph = Graph::new();
            for id in 0..size {
                graph.add_vertex(format!("n{}", id));
            }
            for _ in 0..size * density {
                let from = next(size);
                let to = next(size);
                graph.add_connection(from, to).unwrap();
            }
            for from in 0..size {
                for to in 0..size {
                    assert_eq!(graph.shortest_walk(from, to).ok(), lowest_walk(&graph, from, to));
                }
            }
        }
    }
}
