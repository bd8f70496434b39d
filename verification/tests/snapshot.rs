use std::io::{Read, Write};

use link_graph::error::GraphError;
use link_graph::graph::Graph;
use link_graph::snapshot::{frame, unframe, SNAPSHOT_VERSION};

fn rows(table: &[&[&str]]) -> Vec<Vec<String>> {
    table
        .iter()
        .map(|row| row.iter().map(|field| String::from(*field)).collect())
        .collect()
}

fn assert_same(left: &Graph, right: &Graph) {
    assert_eq!(left.vertex_count(), right.vertex_count());
    for id in 0..left.vertex_count() {
        assert_eq!(left.get_link(id), right.get_link(id));
        assert_eq!(left.get_neighbors(id), right.get_neighbors(id));
    }
}

fn deflate(data: &[u8]) -> Vec<u8> {
    let mut encoder =
        flate2::write::DeflateEncoder::new(Vec::new(), flate2::Compression::best());
    encoder.write_all(data).unwrap();
    encoder.finish().unwrap()
}

fn inflate(stream: &[u8]) -> Vec<u8> {
    let mut data = Vec::new();
    flate2::read::DeflateDecoder::new(stream).read_to_end(&mut data).unwrap();
    data
}

#[test]
fn save_then_load_gives_the_graph_back() {
    let tables: Vec<Vec<Vec<String>>> = vec![
        rows(&[]),
        rows(&[&["A"]]),
        rows(&[&["A", "1"], &["B", "2"], &["C"]]),
        rows(&[&["x", "0", "0", "2"], &["x", "2"], &["", "1", "0"]]),
        rows(&[&["né", "1"], &["日本語", "0", "1"]]),
    ];
    for table in tables {
        let built = Graph::build_from_rows(&table).unwrap();
        let loaded = Graph::load(&built.save().unwrap()).unwrap();
        assert_same(&built, &loaded);
        assert_eq!(
            built.find_by_link(String::from("x")),
            loaded.find_by_link(String::from("x"))
        );
    }
}

#[test]
fn save_then_load_keeps_paths() {
    let built = Graph::build_from_rows(&rows(&[&["A", "1"], &["B", "2"], &["C"]])).unwrap();
    let loaded = Graph::load(&built.save().unwrap()).unwrap();
    assert_eq!(
        loaded.get_shortest_path(String::from("A"), String::from("C")),
        Ok(vec![String::from("A"), String::from("B"), String::from("C")])
    );
    assert_eq!(
        loaded.get_shortest_path(String::from("C"), String::from("A")),
        Err(GraphError::NoPath)
    );
}

#[test]
fn save_writes_tag_then_deflated_rows() {
    let graph = Graph::build_from_rows(&rows(&[&["A", "1"], &["B"]])).unwrap();
    let snapshot = graph.save().unwrap();
    assert_eq!(snapshot[0], SNAPSHOT_VERSION);
    assert_eq!(SNAPSHOT_VERSION, 1);
    let payload = inflate(&snapshot[1..]);
    let mut expected: Vec<u8> = Vec::new();
    expected.extend_from_slice(&2u64.to_le_bytes());
    expected.extend_from_slice(&1u64.to_le_bytes());
    expected.push(b'A');
    expected.extend_from_slice(&1u64.to_le_bytes());
    expected.extend_from_slice(&1u64.to_le_bytes());
    expected.extend_from_slice(&1u64.to_le_bytes());
    expected.push(b'B');
    expected.extend_from_slice(&0u64.to_le_bytes());
    assert_eq!(payload, expected);
    assert_eq!(&snapshot[1..], &deflate(&expected)[..]);
}

#[test]
fn save_compresses() {
    let mut graph = Graph::new();
    for _ in 0..500 {
        graph.add_vertex(String::from("the same label over and over"));
    }
    for id in 0..500 {
        graph.add_connection(id, 0).unwrap();
    }
    let snapshot = graph.save().unwrap();
    assert!(snapshot.len() < 2000);
    assert_same(&graph, &Graph::load(&snapshot).unwrap());
}

#[test]
fn load_reads_what_the_encoder_wrote() {
    let plain: Vec<(String, Vec<usize>)> =
        vec![(String::from("A"), vec![1, 1]), (String::from("B"), vec![])];
    let mut snapshot = vec![SNAPSHOT_VERSION];
    snapshot.extend(deflate(&bincode::serialize(&plain).unwrap()));
    let graph = Graph::load(&snapshot).unwrap();
    assert_eq!(graph.vertex_count(), 2);
    assert_eq!(graph.get_link(0), Ok(&String::from("A")));
    assert_eq!(graph.get_neighbors(0), Ok(&vec![1, 1]));
    assert_eq!(graph.get_neighbors(1), Ok(&vec![]));
}

#[test]
fn load_rejects_an_empty_snapshot() {
    assert!(matches!(Graph::load(&[]), Err(GraphError::CorruptSnapshot)));
}

#[test]
fn load_rejects_another_version() {
    let graph = Graph::build_from_rows(&rows(&[&["A"]])).unwrap();
    let mut snapshot = graph.save().unwrap();
    snapshot[0] = 2;
    assert!(matches!(Graph::load(&snapshot), Err(GraphError::IncompatibleVersion)));
    assert!(matches!(Graph::load(&[0]), Err(GraphError::IncompatibleVersion)));
    assert!(matches!(Graph::load(&[255, 1, 2]), Err(GraphError::IncompatibleVersion)));
}

#[test]
fn load_rejects_a_stream_that_does_not_inflate() {
    assert!(matches!(
        Graph::load(&[SNAPSHOT_VERSION, 0xff, 0xff, 0xff, 0xff]),
        Err(GraphError::CorruptSnapshot)
    ));
    assert!(matches!(Graph::load(&[SNAPSHOT_VERSION]), Err(GraphError::CorruptSnapshot)));
}

#[test]
fn load_rejects_a_truncated_snapshot() {
    let graph = Graph::build_from_rows(&rows(&[&["A", "1"], &["B", "0"], &["C", "1"]])).unwrap();
    let snapshot = graph.save().unwrap();
    let cut = &snapshot[..snapshot.len() / 2];
    assert!(matches!(Graph::load(cut), Err(GraphError::CorruptSnapshot)));
}

#[test]
fn load_rejects_a_payload_that_does_not_decode() {
    let mut snapshot = vec![SNAPSHOT_VERSION];
    snapshot.extend(deflate(&[1, 2, 3]));
    assert!(matches!(Graph::load(&snapshot), Err(GraphError::CorruptSnapshot)));
    let mut claims_more = vec![SNAPSHOT_VERSION];
    claims_more.extend(deflate(&5u64.to_le_bytes()));
    assert!(matches!(Graph::load(&claims_more), Err(GraphError::CorruptSnapshot)));
}

#[test]
fn load_rejects_edges_that_leave_the_graph() {
    let plain: Vec<(String, Vec<usize>)> = vec![(String::from("A"), vec![1])];
    let mut snapshot = vec![SNAPSHOT_VERSION];
    snapshot.extend(deflate(&bincode::serialize(&plain).unwrap()));
    assert!(matches!(Graph::load(&snapshot), Err(GraphError::CorruptSnapshot)));
}

#[test]
fn frame_puts_the_tag_in_front() {
    assert_eq!(frame(vec![9, 8, 7]), vec![SNAPSHOT_VERSION, 9, 8, 7]);
    assert_eq!(frame(Vec::new()), vec![SNAPSHOT_VERSION]);
}

#[test]
fn unframe_checks_the_tag() {
    assert_eq!(unframe(&[SNAPSHOT_VERSION, 9, 8]), Ok(&[9u8, 8][..]));
    assert_eq!(unframe(&[SNAPSHOT_VERSION]), Ok(&[][..]));
    assert_eq!(unframe(&[]), Err(GraphError::CorruptSnapshot));
    assert_eq!(unframe(&[3, 9, 8]), Err(GraphError::IncompatibleVersion));
    assert_eq!(unframe(&frame(vec![4, 5])), Ok(&[4u8, 5][..]));
}

#[test]
fn convert_turns_a_table_into_a_snapshot() {
    let snapshot = Graph::convert(b"A,1\nB,2\nC\n").unwrap();
    let graph = Graph::load(&snapshot).unwrap();
    assert_same(
        &graph,
        &Graph::build_from_rows(&rows(&[&["A", "1"], &["B", "2"], &["C"]])).unwrap(),
    );
    assert_eq!(
        snapshot,
        Graph::build_from_rows(&rows(&[&["A", "1"], &["B", "2"], &["C"]]))
            .unwrap()
            .save()
            .unwrap()
    );
}

#[test]
fn convert_rejects_a_malformed_table() {
    assert_eq!(Graph::convert(b"A,x\n"), Err(GraphError::LoadError));
    assert_eq!(Graph::convert(b"A,3\n"), Err(GraphError::LoadError));
}

#[test]
fn convert_keeps_an_edge_to_a_later_row() {
    let graph = Graph::load(&Graph::convert(b"A,2\nB\nC,0\n").unwrap()).unwrap();
    assert_eq!(graph.vertex_count(), 3);
    assert_eq!(graph.get_link(0), Ok(&String::from("A")));
    assert_eq!(graph.get_link(1), Ok(&String::from("B")));
    assert_eq!(graph.get_link(2), Ok(&String::from("C")));
    assert_eq!(graph.get_neighbors(0), Ok(&vec![2]));
    assert_eq!(graph.get_neighbors(1), Ok(&vec![]));
    assert_eq!(graph.get_neighbors(2), Ok(&vec![0]));
}

#[test]
fn save_succeeds_on_every_graph() {
    assert!(Graph::new().save().is_ok());
    let mut graph = Graph::new();
    for id in 0..2000 {
        graph.add_vertex(format!("vertex {} \u{00e9}\u{4e2d}", id * 7919 % 1000));
    }
    for id in 0..2000 {
        graph.add_connection(id, id * 31 % 2000).unwrap();
        graph.add_connection(id, id).unwrap();
    }
    let snapshot = graph.save().unwrap();
    assert_same(&graph, &Graph::load(&snapshot).unwrap());
}
