//! The failures that graph operations report.

use vstd::prelude::*;

verus! {

/// Names the vertex that an operation looked for and did not find.
#[derive(Debug, PartialEq, Eq)]
pub enum VertexKey {
    /// A label that no vertex carries.
    Label(String),
    /// An id at or beyond the vertex count.
    Id(usize),
}

/// The mathematical value of a [`VertexKey`].
pub enum VertexKeyView {
    Label(Seq<char>),
    Id(usize),
}

impl View for VertexKey {
    type V = VertexKeyView;

    open spec fn view(&self) -> VertexKeyView {
        match self {
            VertexKey::Label(link) => VertexKeyView::Label(link@),
            VertexKey::Id(id) => VertexKeyView::Id(*id),
        }
    }
}

/// Why a graph operation did not produce its result.
#[derive(Debug, PartialEq, Eq)]
pub enum GraphError {
    /// A label is absent from the index, or an id is out of range.
    VertexNotFound(VertexKey),
    /// The destination cannot be reached from the source.
    NoPath,
    /// A table row is malformed: it has no label, an adjacency field is not
    /// an integer, or a target id is out of range.
    LoadError,
    /// A snapshot does not decompress, does not decode, or describes edges
    /// to vertices it does not hold.
    CorruptSnapshot,
    /// A snapshot carries a format tag other than the one this library writes.
    IncompatibleVersion,
    /// The storage of a table or a snapshot failed. The library works on
    /// bytes in memory and never reports this itself; it is for the caller
    /// that reads and writes them.
    IoError,
}

/// The mathematical value of a [`GraphError`].
pub enum GraphErrorView {
    VertexNotFound(VertexKeyView),
    NoPath,
    LoadError,
    CorruptSnapshot,
    IncompatibleVersion,
    IoError,
}

impl View for GraphError {
    type V = GraphErrorView;

    open spec fn view(&self) -> GraphErrorView {
        match self {
            GraphError::VertexNotFound(key) => GraphErrorView::VertexNotFound(key@),
            GraphError::NoPath => GraphErrorView::NoPath,
            GraphError::LoadError => GraphErrorView::LoadError,
            GraphError::CorruptSnapshot => GraphErrorView::CorruptSnapshot,
            GraphError::IncompatibleVersion => GraphErrorView::IncompatibleVersion,
            GraphError::IoError => GraphErrorView::IoError,
        }
    }
}

/// The error that names a missing label.
pub open spec fn missing_label(link: Seq<char>) -> GraphErrorView {
    GraphErrorView::VertexNotFound(VertexKeyView::Label(link))
}

/// The error that names an out-of-range id.
pub open spec fn missing_id(id: usize) -> GraphErrorView {
    GraphErrorView::VertexNotFound(VertexKeyView::Id(id))
}

impl GraphError {
    /// A one-sentence account of the failure.
    pub fn description(&self) -> (text: &'static str)
        ensures
            text@ == match self@ {
                GraphErrorView::VertexNotFound(_) => "The specified vertex could not be found."@,
                GraphErrorView::NoPath => "No path is present between the two vertices."@,
                GraphErrorView::LoadError => "The adjacency table is malformed."@,
                GraphErrorView::CorruptSnapshot => "The snapshot is corrupt."@,
                GraphErrorView::IncompatibleVersion => "The snapshot has an incompatible version."@,
                GraphErrorView::IoError => "The storage could not be read or written."@,
            },
    {
        match self {
            GraphError::VertexNotFound(_) => "The specified vertex could not be found.",
            GraphError::NoPath => "No path is present between the two vertices.",
            GraphError::LoadError => "The adjacency table is malformed.",
            GraphError::CorruptSnapshot => "The snapshot is corrupt.",
            GraphError::IncompatibleVersion => "The snapshot has an incompatible version.",
            GraphError::IoError => "The storage could not be read or written.",
        }
    }
}

} // verus!
