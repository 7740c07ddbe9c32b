//! A whole log: the graph section, then the results section.

use vstd::prelude::*;
use crate::error::{texts, Failure, ParseError};
use crate::addr::Addr;
use crate::graph::{graph_run, graph_text, start_state, CCGraph, GraphView};
use crate::hashed::is_listing;
use crate::results::{no_results, results_run, results_text, CCResults, ResultsView};
use vstd::string::StringExecFns;

verus! {

/// A log as a value.
pub struct LogView {
    pub graph: GraphView,
    pub results: ResultsView,
}

/// What a log holds: the graph and the results of the collection.
#[derive(Debug)]
pub struct CCLog {
    pub graph: CCGraph,
    pub results: CCResults,
}

impl View for CCLog {
    type V = LogView;

    open spec fn view(&self) -> LogView {
        LogView { graph: self.graph@, results: self.results@ }
    }
}

/// What the lines of a log give: the graph of the lines up to the first
/// separator and the results of the lines behind it, or the first failure.
/// A log without a separator has a graph and no results.
pub open spec fn log_of(lines: Seq<Seq<char>>) -> Result<LogView, Failure> {
    match graph_run(lines, 0, start_state(), 0) {
        Ok((graph, next)) => match results_run(lines, next, graph.atoms, no_results()) {
            Ok(results) => Ok(LogView { graph, results }),
            Err(failure) => Err(failure),
        },
        Err(failure) => Err(failure),
    }
}

/// What a reading gave, as a value.
pub open spec fn outcome(r: Result<CCLog, ParseError>) -> Result<LogView, Failure> {
    match r {
        Ok(log) => Ok(log@),
        Err(e) => Err(e@),
    }
}

impl CCLog {
    /// Reads a log from its lines: gives the graph and the results, or the
    /// first error.
    pub fn parse(lines: &Vec<String>) -> (r: Result<CCLog, ParseError>)
        ensures
            outcome(r) == log_of(texts(lines@)),
            r matches Ok(log) ==> log.graph.wf(),
    {
        let (mut graph, next) = match CCGraph::parse(lines) {
            Ok(found) => found,
            Err(e) => {
                return Err(e);
            },
        };
        match CCResults::parse(lines, next, &mut graph) {
            Ok(results) => Ok(CCLog { graph, results }),
            Err(e) => Err(e),
        }
    }

    /// The text that shows the log: the graph, then the results, each
    /// collection in the order in which it is walked.
    pub fn dump(&self) -> (s: String)
        ensures
            exists|nodes: Seq<Addr>, garbage: Seq<Addr>, known: Seq<Addr>|
                is_listing(nodes, self@.graph.nodes.dom()) && is_listing(garbage, self@.results.garbage)
                    && is_listing(known, self@.results.known_edges.dom()) && s@ == #[trigger] log_text(
                    self@,
                    nodes,
                    garbage,
                    known,
                ),
    {
        let mut s = self.graph.dump();
        let ghost nodes = choose|order: Seq<Addr>|
            is_listing(order, self@.graph.nodes.dom()) && s@ == #[trigger] graph_text(
                self@.graph,
                order,
            );
        let tail = self.results.dump();
        let ghost (garbage, known) = choose|garbage: Seq<Addr>, known: Seq<Addr>|
            is_listing(garbage, self@.results.garbage) && is_listing(
                known,
                self@.results.known_edges.dom(),
            ) && tail@ == #[trigger] results_text(self@.results, garbage, known);
        s.append(tail.as_str());
        assert(s@ == log_text(self@, nodes, garbage, known));
        s
    }
}

/// The text that shows the log `log`, with its nodes, its garbage and its
/// known counts in the orders given.
pub open spec fn log_text(log: LogView, nodes: Seq<Addr>, garbage: Seq<Addr>, known: Seq<Addr>) -> Seq<
    char,
> {
    graph_text(log.graph, nodes) + results_text(log.results, garbage, known)
}

} // verus!
