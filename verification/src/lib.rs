//! Shortest paths between labelled vertices of a directed link graph.
//!
//! A [`graph::Graph`] is built once, from the rows of an adjacency table
//! ([`table`]) or from a compressed snapshot ([`snapshot`]), and is read
//! afterwards. A query ([`query`]) names two labels and receives the labels
//! along the shortest path between their vertices. Where several paths are
//! shortest, every vertex of the answer is entered from the lowest id that
//! a shortest path can enter it from ([`walk`]), so an unchanged graph gives
//! the same answer every time.

pub mod error;
pub mod model;
pub mod graph;
pub mod walk;
pub mod hashing;
pub mod search;
pub mod query;
pub mod table;
pub mod snapshot;
pub mod pages;
pub mod web;
