//! Reader for cycle-collector logs.
//!
//! A log is a sequence of lines: first the object graph, one node line for
//! each traced object with the edge lines of its references behind it, then
//! a separator, then what the collector found. [`log::CCLog::parse`] reads
//! the lines and gives the graph and the results, or the first error with
//! its line.
//!
//! Each step is stated against a model on characters and proved to follow
//! it: [`line`] holds the grammar of a line, [`graph`] and [`results`] the
//! two machines that take the classified lines, [`log`] the whole, and
//! [`laws`] what follows for every log.

pub mod addr;
pub mod atoms;
pub mod error;
pub mod graph;
pub mod hashed;
pub mod laws;
pub mod line;
pub mod log;
pub mod node;
pub mod render;
pub mod results;
pub mod text;
