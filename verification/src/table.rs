//! The bulk loader: builds a graph from the rows of an adjacency table.
//!
//! A row describes one vertex. Its first field is the label; every further
//! field is the id of an edge target, written in decimal. The position of
//! a row is the id of its vertex, and a row may name a vertex that a later
//! row describes.

use vstd::prelude::*;
use crate::error::{GraphError, GraphErrorView};
use crate::graph::Graph;
use crate::model::{VertexView, edges_in_range, isolated};

verus! {

/// `c` is one of the digits `0` to `9`.
pub open spec fn is_digit(c: char) -> bool {
    '0' <= c && c <= '9'
}

/// The number that a sequence of digits stands for in decimal.
pub open spec fn digits_value(s: Seq<char>) -> nat
    decreases s.len(),
{
    if s.len() == 0 {
        0
    } else {
        10 * digits_value(s.drop_last()) + (s.last() as u32 - '0' as u32) as nat
    }
}

/// The part of a field that holds the digits: the field without a leading
/// plus sign.
pub open spec fn digits_of(field: Seq<char>) -> Seq<char> {
    if field.len() > 0 && field[0] == '+' {
        field.skip(1)
    } else {
        field
    }
}

/// The id that a field stands for: an optional plus sign, then one or more
/// digits and nothing else, with a value that fits in `usize`.
pub open spec fn index_field(field: Seq<char>) -> Option<usize> {
    let digits = digits_of(field);
    if digits.len() > 0 && (forall|i: int| 0 <= i < digits.len() ==> is_digit(#[trigger] digits[i]))
        && digits_value(digits) <= usize::MAX {
        Some(digits_value(digits) as usize)
    } else {
        None
    }
}

/// More digits stand for no less.
proof fn lemma_digits_grow(s: Seq<char>, n: int)
    requires
        0 <= n <= s.len(),
    ensures
        digits_value(s.take(n)) <= digits_value(s),
    decreases s.len(),
{
    if n == s.len() {
        assert(s.take(n) =~= s);
    } else {
        lemma_digits_grow(s.drop_last(), n);
        assert(s.drop_last().take(n) =~= s.take(n));
    }
}

/// Reads a field as an id.
pub fn parse_index(field: &str) -> (value: Option<usize>)
    ensures
        value == index_field(field@),
{
    let mut value: usize = 0;
    let mut seen: bool = false;
    let mut first: bool = true;
    let ghost mut start: int = 0;
    for c in it: field.chars()
        invariant
            it.seq() == field@,
            first == (it.index() == 0),
            0 <= start <= it.index(),
            start == (if it.index() > 0 && field@[0] == '+' { 1int } else { 0int }),
            seen == (it.index() > start),
            forall|i: int| start <= i < it.index() ==> is_digit(#[trigger] field@[i]),
            value == digits_value(field@.subrange(start, it.index())),
    {
        let ghost n = it.index();
        if first && c == '+' {
            first = false;
            proof {
                start = 1;
                assert(field@.subrange(1, 1) =~= Seq::<char>::empty());
            }
        } else {
            first = false;
            if !(c >= '0' && c <= '9') {
                proof {
                    let digits = digits_of(field@);
                    assert(digits[n - start] == c);
                }
                return None;
            }
            let digit = (c as u32 - '0' as u32) as usize;
            proof {
                let digits = digits_of(field@);
                let upto = field@.subrange(start, n + 1);
                assert(upto.drop_last() =~= field@.subrange(start, n));
                assert(upto.last() == c);
                assert(digits.take(n + 1 - start) =~= upto);
                lemma_digits_grow(digits, n + 1 - start);
            }
            value = match value.checked_mul(10) {
                Some(tens) => match tens.checked_add(digit) {
                    Some(sum) => sum,
                    None => {
                        return None;
                    },
                },
                None => {
                    return None;
                },
            };
            seen = true;
        }
    }
    proof {
        assert(field@.subrange(start, field@.len() as int) =~= digits_of(field@));
    }
    if seen {
        Some(value)
    } else {
        None
    }
}

/// The edge targets that the fields after the label stand for, if each of
/// them stands for an id.
pub open spec fn row_targets(row: Seq<Seq<char>>) -> Option<Seq<usize>> {
    if forall|k: int| 1 <= k < row.len() ==> index_field(#[trigger] row[k]) is Some {
        Some(Seq::new((row.len() - 1) as nat, |k: int| index_field(row[k + 1]).unwrap()))
    } else {
        None
    }
}

/// The vertex that a row describes. A row without a label describes none,
/// and neither does a row with a field that is not an id.
pub open spec fn row_vertex(row: Seq<Seq<char>>) -> Option<VertexView> {
    if row.len() == 0 {
        None
    } else {
        match row_targets(row) {
            Some(connected) => Some(VertexView { link: row[0], connected }),
            None => None,
        }
    }
}

/// The vertices that the rows describe, taken one by one.
pub open spec fn table_vertices(rows: Seq<Seq<Seq<char>>>) -> Seq<VertexView> {
    Seq::new(rows.len(), |i: int| row_vertex(rows[i]).unwrap())
}

/// The graph that a table describes: one vertex for each row, in order. A
/// table with a row that describes no vertex, or with a target that is not
/// the position of a row, describes no graph.
pub open spec fn table_graph(rows: Seq<Seq<Seq<char>>>) -> Option<Seq<VertexView>> {
    if (forall|i: int| 0 <= i < rows.len() ==> row_vertex(#[trigger] rows[i]) is Some)
        && edges_in_range(table_vertices(rows)) {
        Some(table_vertices(rows))
    } else {
        None
    }
}

/// The graph `g` with the edges of the vertices from `i` on taken away, but
/// for the first `j` edges of vertex `i`.
spec fn wired_to(g: Seq<VertexView>, i: int, j: int) -> Seq<VertexView> {
    Seq::new(
        g.len(),
        |k: int|
            VertexView {
                link: g[k].link,
                connected: if k < i {
                    g[k].connected
                } else if k == i {
                    g[k].connected.take(j)
                } else {
                    Seq::empty()
                },
            },
    )
}

/// Reads the fields after the label as ids.
fn parse_targets(row: &Vec<String>) -> (targets: Option<Vec<usize>>)
    requires
        row@.len() > 0,
    ensures
        match targets {
            Some(t) => row_targets(row.deep_view()) == Some(t@),
            None => row_targets(row.deep_view()) is None,
        },
{
    let ghost fields = row.deep_view();
    let mut targets: Vec<usize> = Vec::new();
    let mut k: usize = 1;
    while k < row.len()
        invariant
            fields == row.deep_view(),
            1 <= k <= row@.len(),
            targets@.len() == k - 1,
            forall|m: int| 1 <= m < k ==> index_field(#[trigger] fields[m]) is Some,
            forall|m: int| 0 <= m < k - 1 ==> targets@[m] == index_field(fields[m + 1]).unwrap(),
        decreases row@.len() - k,
    {
        assert(fields[k as int] == row@[k as int]@);
        match parse_index(row[k].as_str()) {
            Some(target) => targets.push(target),
            None => {
                return None;
            },
        }
        k = k + 1;
    }
    proof {
        assert(targets@ =~= row_targets(fields).unwrap());
    }
    Some(targets)
}

impl Graph {
    /// Builds the graph that the rows describe.
    ///
    /// The vertices are created first, one for each row, and the edges are
    /// wired afterwards, so that a row can name a later one. A row without
    /// a label, a field that is not an id, or a target that is not the
    /// position of a row fails the load: no partial graph is returned.
    pub fn build_from_rows(rows: &Vec<Vec<String>>) -> (result: Result<Graph, GraphError>)
        ensures
            match result {
                Ok(graph) => graph.wf() && table_graph(rows.deep_view()) == Some(graph@),
                Err(e) => e@ == GraphErrorView::LoadError && table_graph(rows.deep_view()) is None,
            },
    {
        let ghost table = rows.deep_view();
        let mut graph = Graph::new();
        let mut connections: Vec<Vec<usize>> = Vec::new();
        let mut i: usize = 0;
        while i < rows.len()
            invariant
                table == rows.deep_view(),
                i <= rows@.len(),
                graph.wf(),
                graph@.len() == i,
                connections@.len() == i,
                forall|k: int| 0 <= k < i ==> row_vertex(#[trigger] table[k]) is Some,
                forall|k: int| 0 <= k < i ==> (#[trigger] graph@[k]) == isolated(table[k][0]),
                forall|k: int|
                    0 <= k < i ==> (#[trigger] connections@[k])@ == row_vertex(
                        table[k],
                    ).unwrap().connected,
            decreases rows@.len() - i,
        {
            let row = &rows[i];
            assert(table[i as int] == row.deep_view());
            if row.len() == 0 {
                return Err(GraphError::LoadError);
            }
            assert(table[i as int][0] == row@[0]@);
            let targets = match parse_targets(row) {
                Some(targets) => targets,
                None => {
                    return Err(GraphError::LoadError);
                },
            };
            graph.add_vertex(row[0].clone());
            connections.push(targets);
            i = i + 1;
        }
        let ghost target = table_vertices(table);
        proof {
            assert forall|k: int| 0 <= k < target.len() implies graph@[k] == wired_to(target, 0, 0)[k] by {
                assert(row_vertex(table[k]) is Some);
                assert(target[k].connected.take(0) =~= Seq::empty());
            }
            assert(graph@ =~= wired_to(target, 0, 0));
        }
        let mut from: usize = 0;
        while from < connections.len()
            invariant
                table == rows.deep_view(),
                target == table_vertices(table),
                target.len() == connections@.len(),
                forall|k: int| 0 <= k < table.len() ==> row_vertex(#[trigger] table[k]) is Some,
                forall|k: int|
                    0 <= k < target.len() ==> (#[trigger] connections@[k])@ == target[k].connected,
                from <= connections@.len(),
                graph.wf(),
                graph@ == wired_to(target, from as int, 0),
            decreases connections@.len() - from,
        {
            let targets = &connections[from];
            let mut j: usize = 0;
            while j < targets.len()
                invariant
                    target.len() == connections@.len(),
                    from < connections@.len(),
                    targets@ == target[from as int].connected,
                    j <= targets@.len(),
                    graph.wf(),
                    graph@ == wired_to(target, from as int, j as int),
                    target == table_vertices(table),
                    table == rows.deep_view(),
                decreases targets@.len() - j,
            {
                let to = targets[j];
                match graph.add_connection(from, to) {
                    Ok(_) => {},
                    Err(_) => {
                        proof {
                            assert(target[from as int].connected[j as int] >= target.len());
                        }
                        return Err(GraphError::LoadError);
                    },
                }
                proof {
                    let c = target[from as int].connected;
                    assert(c.take(j as int).push(to) =~= c.take(j + 1));
                    assert(graph@ =~= wired_to(target, from as int, j + 1));
                }
                j = j + 1;
            }
            proof {
                let c = target[from as int].connected;
                assert(c.take(c.len() as int) =~= c);
                assert forall|k: int| 0 <= k < target.len() implies graph@[k] == wired_to(
                    target,
                    from + 1,
                    0,
                )[k] by {
                    assert(target[k].connected.take(0) =~= Seq::empty());
                }
                assert(graph@ =~= wired_to(target, from + 1, 0));
            }
            from = from + 1;
        }
        proof {
            assert(graph@ =~= target);
        }
        Ok(graph)
    }
}

/// `csv::Error`, carried as it is: only that there was one is used.
#[verifier::external_type_specification]
#[verifier::external_body]
pub struct ExCsvError(csv::Error);

/// The records that the `csv` crate reads from `data`: each record as its
/// fields, each field as text. `None` where the crate reports an error,
/// such as a field that is not UTF-8.
pub uninterp spec fn csv_records(data: Seq<u8>) -> Option<Seq<Seq<Seq<char>>>>;

/// `csv::Reader::records`, on a reader over `data` that takes records of
/// any width and treats the first record as data. The result is the
/// records in order with every field copied out, or the first error. It
/// depends on `data` alone; what the records are is left to the crate.
#[verifier::external_body]
fn read_records(data: &[u8]) -> (result: Result<Vec<Vec<String>>, csv::Error>)
    ensures
        csv_records(data@) == match result {
            Ok(rows) => Some(rows.deep_view()),
            Err(_) => None,
        },
{
    let mut reader = csv::ReaderBuilder::new().flexible(true).has_headers(false).from_reader(data);
    reader.records().map(|record| Ok(record?.iter().map(String::from).collect())).collect()
}

/// The graph that the text of a table describes, given the records that
/// were read from it.
pub open spec fn records_graph(records: Option<Seq<Seq<Seq<char>>>>) -> Option<Seq<VertexView>> {
    match records {
        Some(rows) => table_graph(rows),
        None => None,
    }
}

impl Graph {
    /// Builds the graph that a table in CSV form describes: one record per
    /// vertex, rows of any width, no header row. A table that cannot be
    /// read, or whose records describe no graph, fails the load.
    pub fn from_table(data: &[u8]) -> (result: Result<Graph, GraphError>)
        ensures
            match result {
                Ok(graph) => graph.wf() && records_graph(csv_records(data@)) == Some(graph@),
                Err(e) => e@ == GraphErrorView::LoadError && records_graph(csv_records(data@))
                    is None,
            },
    {
        match read_records(data) {
            Ok(rows) => Graph::build_from_rows(&rows),
            Err(_) => Err(GraphError::LoadError),
        }
    }
}

} // verus!
