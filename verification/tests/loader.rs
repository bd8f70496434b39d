use link_graph::error::GraphError;
use link_graph::graph::Graph;
use link_graph::table::parse_index;

fn rows(table: &[&[&str]]) -> Vec<Vec<String>> {
    table
        .iter()
        .map(|row| row.iter().map(|field| String::from(*field)).collect())
        .collect()
}

#[test]
fn parse_index_reads_decimal() {
    assert_eq!(parse_index("0"), Some(0));
    assert_eq!(parse_index("7"), Some(7));
    assert_eq!(parse_index("1234567890"), Some(1234567890));
    assert_eq!(parse_index("007"), Some(7));
    assert_eq!(parse_index("+5"), Some(5));
    assert_eq!(parse_index("+0"), Some(0));
}

#[test]
fn parse_index_rejects_what_is_not_a_number() {
    assert_eq!(parse_index(""), None);
    assert_eq!(parse_index("+"), None);
    assert_eq!(parse_index("-"), None);
    assert_eq!(parse_index("-1"), None);
    assert_eq!(parse_index("++1"), None);
    assert_eq!(parse_index("1+"), None);
    assert_eq!(parse_index("12a"), None);
    assert_eq!(parse_index("a12"), None);
    assert_eq!(parse_index(" 1"), None);
    assert_eq!(parse_index("1 "), None);
    assert_eq!(parse_index("1.0"), None);
    assert_eq!(parse_index("1_000"), None);
    assert_eq!(parse_index("\u{0661}"), None);
    assert_eq!(parse_index("\u{ff11}"), None);
}

#[test]
fn parse_index_stops_at_the_largest_id() {
    assert_eq!(parse_index(&usize::MAX.to_string()), Some(usize::MAX));
    assert_eq!(parse_index("18446744073709551616"), None);
    assert_eq!(parse_index("99999999999999999999999999"), None);
    assert_eq!(parse_index("184467440737095516150"), None);
}

#[test]
fn parse_index_agrees_with_the_standard_parser() {
    let fields = [
        "0", "1", "+1", "-1", "", "+", "-", "00", "0x10", "42", " 42", "4 2", "٣", "1e3",
        "18446744073709551615", "18446744073709551616", "+18446744073709551615", "+-1", "１",
    ];
    for field in fields {
        assert_eq!(parse_index(field), field.parse::<usize>().ok(), "field {:?}", field);
    }
}

#[test]
fn build_from_rows_chain() {
    let graph = Graph::build_from_rows(&rows(&[&["A", "1"], &["B", "2"], &["C"]])).unwrap();
    assert_eq!(graph.vertex_count(), 3);
    assert_eq!(graph.get_link(0), Ok(&String::from("A")));
    assert_eq!(graph.get_link(1), Ok(&String::from("B")));
    assert_eq!(graph.get_link(2), Ok(&String::from("C")));
    assert_eq!(graph.get_neighbors(0), Ok(&vec![1]));
    assert_eq!(graph.get_neighbors(1), Ok(&vec![2]));
    assert_eq!(graph.get_neighbors(2), Ok(&vec![]));
    assert_eq!(
        graph.get_shortest_path(String::from("A"), String::from("C")),
        Ok(vec![String::from("A"), String::from("B"), String::from("C")])
    );
    assert_eq!(
        graph.get_shortest_path(String::from("C"), String::from("A")),
        Err(GraphError::NoPath)
    );
}

#[test]
fn build_from_rows_allows_forward_references() {
    let graph = Graph::build_from_rows(&rows(&[&["A", "2", "1", "2"], &["B"], &["C", "0", "2"]]))
        .unwrap();
    assert_eq!(graph.get_neighbors(0), Ok(&vec![2, 1, 2]));
    assert_eq!(graph.get_neighbors(1), Ok(&vec![]));
    assert_eq!(graph.get_neighbors(2), Ok(&vec![0, 2]));
}

#[test]
fn build_from_rows_of_no_rows_is_the_empty_graph() {
    let graph = Graph::build_from_rows(&Vec::new()).unwrap();
    assert_eq!(graph.vertex_count(), 0);
}

#[test]
fn build_from_rows_rejects_a_field_that_is_not_an_integer() {
    assert!(matches!(
        Graph::build_from_rows(&rows(&[&["A", "1"], &["B", "x"]])),
        Err(GraphError::LoadError)
    ));
    assert!(matches!(
        Graph::build_from_rows(&rows(&[&["A", "0", ""]])),
        Err(GraphError::LoadError)
    ));
    assert!(matches!(
        Graph::build_from_rows(&rows(&[&["A", "-0"]])),
        Err(GraphError::LoadError)
    ));
}

#[test]
fn build_from_rows_rejects_a_target_out_of_range() {
    assert!(matches!(
        Graph::build_from_rows(&rows(&[&["A", "1"], &["B", "2"]])),
        Err(GraphError::LoadError)
    ));
    assert!(matches!(
        Graph::build_from_rows(&rows(&[&["A", "1"]])),
        Err(GraphError::LoadError)
    ));
}

#[test]
fn build_from_rows_rejects_a_row_without_a_label() {
    assert!(matches!(
        Graph::build_from_rows(&rows(&[&["A"], &[]])),
        Err(GraphError::LoadError)
    ));
}

#[test]
fn build_from_rows_takes_any_text_as_a_label() {
    let graph = Graph::build_from_rows(&rows(&[&["", "1"], &["12", "0"]])).unwrap();
    assert_eq!(graph.find_by_link(String::new()), Ok(0));
    assert_eq!(graph.find_by_link(String::from("12")), Ok(1));
}

#[test]
fn from_table_reads_rows_of_any_width() {
    let graph = Graph::from_table(b"A,1,2\nB,2\nC\n").unwrap();
    assert_eq!(graph.vertex_count(), 3);
    assert_eq!(graph.get_neighbors(0), Ok(&vec![1, 2]));
    assert_eq!(graph.get_neighbors(1), Ok(&vec![2]));
    assert_eq!(graph.get_neighbors(2), Ok(&vec![]));
    assert_eq!(graph.get_link(0), Ok(&String::from("A")));
}

#[test]
fn from_table_treats_the_first_record_as_a_vertex() {
    let graph = Graph::from_table(b"label,0\n").unwrap();
    assert_eq!(graph.vertex_count(), 1);
    assert_eq!(graph.find_by_link(String::from("label")), Ok(0));
    assert_eq!(graph.get_neighbors(0), Ok(&vec![0]));
}

#[test]
fn from_table_reads_quoted_labels() {
    let graph = Graph::from_table(b"\"a,b\",1\n\"say \"\"hi\"\"\",0\n").unwrap();
    assert_eq!(graph.get_link(0), Ok(&String::from("a,b")));
    assert_eq!(graph.get_link(1), Ok(&String::from("say \"hi\"")));
}

#[test]
fn from_table_of_nothing_is_the_empty_graph() {
    assert_eq!(Graph::from_table(b"").unwrap().vertex_count(), 0);
}

#[test]
fn from_table_rejects_malformed_tables() {
    assert!(matches!(Graph::from_table(b"A,B\nB,0\n"), Err(GraphError::LoadError)));
    assert!(matches!(Graph::from_table(b"A,5\n"), Err(GraphError::LoadError)));
    assert!(matches!(Graph::from_table(b"A,\xff\n"), Err(GraphError::LoadError)));
    assert!(matches!(Graph::from_table(b"\xff\xfe,0\n"), Err(GraphError::LoadError)));
}
