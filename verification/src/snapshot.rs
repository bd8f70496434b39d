//! The binary codec: a graph as a compact snapshot, and back.
//!
//! A snapshot is one byte that tags the format, followed by the DEFLATE
//! stream of the graph's rows in `bincode` form: the vertex count, then for
//! each vertex its label and its list of edge targets.

use vstd::prelude::*;
use vstd::slice::slice_subrange;
use std::io::Read;
use std::io::Write;
use crate::error::{GraphError, GraphErrorView};
use crate::graph::Graph;
use crate::model::{VertexView, edges_in_range, graph_rows, lemma_rows_round_trip, rows_graph};
use crate::table::{csv_records, records_graph, table_graph};

verus! {

/// `bincode::ErrorKind`, carried as it is: only that there was one is used.
#[verifier::external_type_specification]
#[verifier::external_body]
pub struct ExBincodeErrorKind(bincode::ErrorKind);

/// `std::io::Error`, carried as it is: only that there was one is used.
#[verifier::external_type_specification]
#[verifier::external_body]
pub struct ExIoError(std::io::Error);

/// The tag of the snapshot format that this library reads and writes.
pub const SNAPSHOT_VERSION: u8 = 1;

/// The bytes that `bincode` writes for rows.
pub uninterp spec fn bincode_encoding(rows: Seq<(Seq<char>, Seq<usize>)>) -> Seq<u8>;

/// The rows that `bincode` reads from bytes, if it reads any.
pub uninterp spec fn bincode_decoding(bytes: Seq<u8>) -> Option<Seq<(Seq<char>, Seq<usize>)>>;

/// The DEFLATE stream that `flate2` writes for bytes at its best level.
pub uninterp spec fn deflated(data: Seq<u8>) -> Seq<u8>;

/// The bytes that `flate2` reads from a DEFLATE stream, if the stream is
/// sound.
pub uninterp spec fn inflated(stream: Seq<u8>) -> Option<Seq<u8>>;

/// `bincode::serialize`, on rows. It succeeds: the call sets no size
/// limit, every sequence it meets knows its length, and it writes into a
/// vector, which takes every write. The bytes are the encoding of the rows,
/// and decoding them gives the rows back.
#[verifier::external_body]
fn encode_rows(rows: &Vec<(&String, &Vec<usize>)>) -> (result: Result<Vec<u8>, bincode::Error>)
    ensures
        result is Ok,
        result matches Ok(bytes) ==> bytes@ == bincode_encoding(rows.deep_view())
            && bincode_decoding(bytes@) == Some(rows.deep_view()),
{
    bincode::serialize(rows)
}

/// `bincode::deserialize`, to rows. The result depends on the bytes alone:
/// the rows they decode to, or an error where they decode to none.
#[verifier::external_body]
fn decode_rows(bytes: &[u8]) -> (result: Result<Vec<(String, Vec<usize>)>, bincode::Error>)
    ensures
        bincode_decoding(bytes@) == match result {
            Ok(rows) => Some(rows.deep_view()),
            Err(_) => None,
        },
{
    bincode::deserialize(bytes)
}

/// `flate2::write::DeflateEncoder`, at `Compression::best`, fed all of
/// `data` and finished. It succeeds: the encoder hands on the errors of
/// the writer inside it, which here is a vector and takes every write, and
/// those of a compressor that is driven out of turn, which writing first
/// and finishing once is not. The bytes are the DEFLATE stream of `data`,
/// and inflating them gives `data` back.
#[verifier::external_body]
fn deflate(data: &[u8]) -> (result: Result<Vec<u8>, std::io::Error>)
    ensures
        result is Ok,
        result matches Ok(stream) ==> stream@ == deflated(data@) && inflated(stream@) == Some(
            data@,
        ),
{
    let mut encoder = flate2::write::DeflateEncoder::new(Vec::new(), flate2::Compression::best());
    encoder.write_all(data)?;
    encoder.finish()
}

/// `flate2::read::DeflateDecoder`, read to its end. The result depends on
/// the stream alone: the bytes it inflates to, or an error where it is
/// corrupt or incomplete.
#[verifier::external_body]
fn inflate(stream: &[u8]) -> (result: Result<Vec<u8>, std::io::Error>)
    ensures
        inflated(stream@) == match result {
            Ok(data) => Some(data@),
            Err(_) => None,
        },
{
    let mut data = Vec::new();
    flate2::read::DeflateDecoder::new(stream).read_to_end(&mut data)?;
    Ok(data)
}

/// The snapshot of the graph `g`.
pub open spec fn snapshot_bytes(g: Seq<VertexView>) -> Seq<u8> {
    seq![SNAPSHOT_VERSION] + deflated(bincode_encoding(graph_rows(g)))
}

/// The graph that decoded rows describe, if their edges stay inside it.
pub open spec fn decoded_graph(rows: Option<Seq<(Seq<char>, Seq<usize>)>>) -> Result<
    Seq<VertexView>,
    GraphErrorView,
> {
    match rows {
        Some(rows) => if edges_in_range(rows_graph(rows)) {
            Ok(rows_graph(rows))
        } else {
            Err(GraphErrorView::CorruptSnapshot)
        },
        None => Err(GraphErrorView::CorruptSnapshot),
    }
}

/// The graph that an inflated payload describes.
pub open spec fn payload_graph(payload: Option<Seq<u8>>) -> Result<Seq<VertexView>, GraphErrorView> {
    match payload {
        Some(bytes) => decoded_graph(bincode_decoding(bytes)),
        None => Err(GraphErrorView::CorruptSnapshot),
    }
}

/// The stream that a snapshot frames: what follows the tag, if the tag is
/// there and is the one of this format.
pub open spec fn framed_stream(snapshot: Seq<u8>) -> Result<Seq<u8>, GraphErrorView> {
    if snapshot.len() == 0 {
        Err(GraphErrorView::CorruptSnapshot)
    } else if snapshot[0] != SNAPSHOT_VERSION {
        Err(GraphErrorView::IncompatibleVersion)
    } else {
        Ok(snapshot.skip(1))
    }
}

/// The graph that a snapshot holds, or why it holds none: a snapshot with
/// no tag is corrupt; one with another tag is of an incompatible version;
/// one whose stream does not inflate, whose payload does not decode, or
/// whose rows have an edge to a vertex that is not there is corrupt.
pub open spec fn snapshot_graph(snapshot: Seq<u8>) -> Result<Seq<VertexView>, GraphErrorView> {
    match framed_stream(snapshot) {
        Ok(stream) => payload_graph(inflated(stream)),
        Err(e) => Err(e),
    }
}

/// Puts the format tag in front of a stream.
pub fn frame(stream: Vec<u8>) -> (snapshot: Vec<u8>)
    ensures
        snapshot@ == seq![SNAPSHOT_VERSION] + stream@,
        framed_stream(snapshot@) == Ok::<Seq<u8>, GraphErrorView>(stream@),
{
    let ghost behind = stream@;
    let mut stream = stream;
    let mut snapshot: Vec<u8> = Vec::new();
    snapshot.push(SNAPSHOT_VERSION);
    snapshot.append(&mut stream);
    proof {
        assert(snapshot@.skip(1) =~= behind);
    }
    snapshot
}

/// Checks the format tag of a snapshot and returns the stream behind it.
pub fn unframe(snapshot: &[u8]) -> (result: Result<&[u8], GraphError>)
    ensures
        match result {
            Ok(stream) => framed_stream(snapshot@) == Ok::<Seq<u8>, GraphErrorView>(stream@),
            Err(e) => framed_stream(snapshot@) == Err::<Seq<u8>, GraphErrorView>(e@),
        },
{
    if snapshot.len() == 0 {
        return Err(GraphError::CorruptSnapshot);
    }
    if snapshot[0] != SNAPSHOT_VERSION {
        return Err(GraphError::IncompatibleVersion);
    }
    Ok(slice_subrange(snapshot, 1, snapshot.len()))
}

impl Graph {
    /// The graph as a snapshot. Every graph has one, and the bytes are
    /// those that [`Graph::load`] reads back as this graph. Putting them
    /// into storage is the caller's part, and so is the `IoError` of a
    /// storage that fails.
    pub fn save(&self) -> (result: Result<Vec<u8>, GraphError>)
        requires
            self.wf(),
        ensures
            result matches Ok(snapshot) && snapshot@ == snapshot_bytes(self@) && snapshot_graph(
                snapshot@,
            ) == Ok::<Seq<VertexView>, GraphErrorView>(self@),
    {
        let rows = self.rows();
        let payload = match encode_rows(&rows) {
            Ok(payload) => payload,
            Err(_) => {
                return Err(GraphError::IoError);
            },
        };
        let stream = match deflate(payload.as_slice()) {
            Ok(stream) => stream,
            Err(_) => {
                return Err(GraphError::IoError);
            },
        };
        proof {
            lemma_rows_round_trip(self@);
        }
        Ok(frame(stream))
    }

    /// The graph that a snapshot holds, or why it holds none.
    pub fn load(snapshot: &[u8]) -> (result: Result<Graph, GraphError>)
        ensures
            match result {
                Ok(graph) => graph.wf() && snapshot_graph(snapshot@) == Ok::<
                    Seq<VertexView>,
                    GraphErrorView,
                >(graph@),
                Err(e) => snapshot_graph(snapshot@) == Err::<Seq<VertexView>, GraphErrorView>(e@),
            },
    {
        let stream = unframe(snapshot)?;
        let payload = match inflate(stream) {
            Ok(payload) => payload,
            Err(_) => {
                return Err(GraphError::CorruptSnapshot);
            },
        };
        let rows = match decode_rows(payload.as_slice()) {
            Ok(rows) => rows,
            Err(_) => {
                return Err(GraphError::CorruptSnapshot);
            },
        };
        Graph::from_rows(rows)
    }

    /// Turns the text of a table into the snapshot of the graph that it
    /// describes. It succeeds on every table that describes a graph, and
    /// fails the load on every other.
    pub fn convert(table: &[u8]) -> (result: Result<Vec<u8>, GraphError>)
        ensures
            match result {
                Ok(snapshot) => {
                    &&& records_graph(csv_records(table@)) is Some
                    &&& snapshot@ == snapshot_bytes(records_graph(csv_records(table@)).unwrap())
                    &&& snapshot_graph(snapshot@) == Ok::<Seq<VertexView>, GraphErrorView>(
                        records_graph(csv_records(table@)).unwrap(),
                    )
                },
                Err(e) => e@ == GraphErrorView::LoadError && records_graph(csv_records(table@))
                    is None,
            },
    {
        let graph = Graph::from_table(table)?;
        graph.save()
    }
}

/// Saving and loading give the graph back: where `build_from_rows` made a
/// graph of a table, the snapshot that `save` returns of it is read by
/// `load` as a graph with the same vertices, labels and edges.
pub proof fn lemma_round_trip(
    rows: Seq<Seq<Seq<char>>>,
    built: Graph,
    saved: Vec<u8>,
    loaded: Result<Graph, GraphError>,
)
    requires
        table_graph(rows) == Some(built@),
        saved@ == snapshot_bytes(built@),
        snapshot_graph(saved@) == Ok::<Seq<VertexView>, GraphErrorView>(built@),
        match loaded {
            Ok(graph) => snapshot_graph(saved@) == Ok::<Seq<VertexView>, GraphErrorView>(graph@),
            Err(e) => snapshot_graph(saved@) == Err::<Seq<VertexView>, GraphErrorView>(e@),
        },
    ensures
        loaded matches Ok(graph) && graph@ == built@ && table_graph(rows) == Some(graph@),
{
}

} // verus!
