//! The results of a collection: the objects found to be garbage and the
//! reference counts known from outside.

use vstd::prelude::*;
use crate::addr::Addr;
use crate::error::{failure_at, texts, ErrorKind, Failure, ParseError};
use crate::graph::{CCGraph, GraphView};
use crate::hashed::{
    is_listing, map_addrs, map_get, map_insert, new_map, new_set, set_addrs, set_contains,
    set_insert, AddrHashMap, AddrHashSet,
};
use crate::render::{decimal, push_decimal};
use vstd::string::StringExecFns;
use crate::line::{classify, Line, ParsedLine};

verus! {

/// The results of a log as a value.
pub struct ResultsView {
    pub garbage: Set<Addr>,
    pub known_edges: Map<Addr, u64>,
}

/// What the collector found: the addresses of the garbage objects, and for
/// each object with references known from outside their count.
#[derive(Debug)]
pub struct CCResults {
    pub garbage: AddrHashSet,
    pub known_edges: AddrHashMap<u64>,
}

impl View for CCResults {
    type V = ResultsView;

    open spec fn view(&self) -> ResultsView {
        ResultsView { garbage: self.garbage@, known_edges: self.known_edges@ }
    }
}

/// The results that hold nothing.
pub open spec fn no_results() -> ResultsView {
    ResultsView { garbage: Set::empty(), known_edges: Map::empty() }
}

/// The results after one more line of the results section.
///
/// A garbage entry adds its address to the garbage, once however often it
/// is reported. A known count is recorded under its address, in place of
/// an earlier one. Comments and separators change nothing. A line of the
/// graph has no place here.
pub open spec fn results_step(r: ResultsView, line: ParsedLine) -> Result<ResultsView, ErrorKind> {
    match line {
        Line::Garbage(addr) => Ok(ResultsView { garbage: r.garbage.insert(addr), ..r }),
        Line::KnownEdge(addr, count) => Ok(
            ResultsView { known_edges: r.known_edges.insert(addr, count), ..r },
        ),
        Line::Comment => Ok(r),
        Line::Separator => Ok(r),
        Line::Node(_, _, _) => Err(ErrorKind::UnexpectedLine),
        Line::Edge(_, _) => Err(ErrorKind::UnexpectedLine),
        Line::WeakMap(_, _, _, _) => Err(ErrorKind::UnexpectedLine),
    }
}

/// What reading the lines of `lines` from the index `at` on as results
/// gives, starting from the results `r`, where `table` is the label table
/// that the lines are classified with: the results, or the first failure,
/// at the line that is being read.
pub open spec fn results_run(lines: Seq<Seq<char>>, at: int, table: Seq<Seq<char>>, r: ResultsView) -> Result<
    ResultsView,
    Failure,
>
    decreases lines.len() - at,
{
    if !(0 <= at < lines.len()) {
        Ok(r)
    } else {
        let (parsed, _) = classify(lines[at], table);
        match parsed {
            Ok(line) => match results_step(r, line) {
                Ok(next) => results_run(lines, at + 1, table, next),
                Err(kind) => Err(failure_at(kind, lines, at)),
            },
            Err(kind) => Err(failure_at(kind, lines, at)),
        }
    }
}

impl CCResults {
    /// Results that hold nothing.
    pub fn new() -> (r: CCResults)
        ensures
            r@ == no_results(),
    {
        CCResults { garbage: new_set(), known_edges: new_map() }
    }

    /// Tests whether the object at `addr` was found to be garbage.
    pub fn is_garbage(&self, addr: &Addr) -> (r: bool)
        ensures
            r == self@.garbage.contains(*addr),
    {
        set_contains(&self.garbage, addr)
    }

    /// The known count of the object at `addr`, if it has one.
    pub fn known_count(&self, addr: &Addr) -> (r: Option<u64>)
        ensures
            r == if self@.known_edges.contains_key(*addr) {
                Some(self@.known_edges[*addr])
            } else {
                None
            },
    {
        match map_get(&self.known_edges, addr) {
            Some(count) => Some(*count),
            None => None,
        }
    }

    /// Takes one classified line of the results section.
    pub fn feed(&mut self, line: ParsedLine) -> (r: Result<(), ErrorKind>)
        ensures
            match results_step(old(self)@, line) {
                Ok(next) => r is Ok && final(self)@ == next,
                Err(kind) => r == Err::<(), ErrorKind>(kind) && *final(self) == *old(self),
            },
    {
        match line {
            Line::Garbage(addr) => {
                set_insert(&mut self.garbage, addr);
                Ok(())
            },
            Line::KnownEdge(addr, count) => {
                map_insert(&mut self.known_edges, addr, count);
                Ok(())
            },
            Line::Comment => Ok(()),
            Line::Separator => Ok(()),
            Line::Node(_, _, _) => Err(ErrorKind::UnexpectedLine),
            Line::Edge(_, _) => Err(ErrorKind::UnexpectedLine),
            Line::WeakMap(_, _, _, _) => Err(ErrorKind::UnexpectedLine),
        }
    }

    /// Reads the lines of `lines` from the index `start` on as the results
    /// section of a log, classifying each with the label table of `graph`.
    /// Where the lines are results, the graph is left as it was.
    pub fn parse(lines: &Vec<String>, start: usize, graph: &mut CCGraph) -> (r: Result<
        CCResults,
        ParseError,
    >)
        requires
            start <= lines.len(),
            old(graph).wf(),
        ensures
            final(graph).wf(),
            final(graph)@ == (GraphView { atoms: final(graph)@.atoms, ..old(graph)@ }),
            match results_run(texts(lines@), start as int, old(graph)@.atoms, no_results()) {
                Ok(results) => r matches Ok(got) && got@ == results && final(graph)@ == old(graph)@,
                Err(failure) => r matches Err(e) && e@ == failure,
            },
    {
        let ghost all = texts(lines@);
        let ghost table = graph@.atoms;
        let mut results = CCResults::new();
        let mut i: usize = start;
        while i < lines.len()
            invariant
                start <= i <= lines.len(),
                all == texts(lines@),
                graph.wf(),
                graph@ == old(graph)@,
                table == graph@.atoms,
                results_run(all, start as int, table, no_results()) == results_run(
                    all,
                    i as int,
                    table,
                    results@,
                ),
            decreases lines.len() - i,
        {
            assert(all[i as int] == lines[i as int]@);
            let parsed = match graph.parse_line(lines[i].as_str()) {
                Ok(parsed) => parsed,
                Err(kind) => {
                    return Err(ParseError::at_line(kind, lines, i));
                },
            };
            match results.feed(parsed) {
                Ok(()) => {},
                Err(kind) => {
                    return Err(ParseError::at_line(kind, lines, i));
                },
            }
            i = i + 1;
        }
        Ok(results)
    }
}

/// The addresses `order` as they are shown: each in decimal, with a comma
/// and a space behind it.
pub open spec fn addrs_text(order: Seq<Addr>) -> Seq<char>
    decreases order.len(),
{
    if order.len() == 0 {
        Seq::empty()
    } else {
        addrs_text(order.drop_last()) + decimal(order.last() as nat) + ", "@
    }
}

/// The known counts of `known` at the addresses `order` as they are shown:
/// each as `(address, count)` in decimal, with a comma and a space behind
/// it.
pub open spec fn counts_text(known: Map<Addr, u64>, order: Seq<Addr>) -> Seq<char>
    decreases order.len(),
{
    if order.len() == 0 {
        Seq::empty()
    } else {
        counts_text(known, order.drop_last()) + "("@ + decimal(order.last() as nat) + ", "@
            + decimal(known[order.last()] as nat) + "), "@
    }
}

/// The text that shows the results `r`, with the garbage in the order
/// `garbage` and the known counts in the order `known`.
pub open spec fn results_text(r: ResultsView, garbage: Seq<Addr>, known: Seq<Addr>) -> Seq<char> {
    "Garbage: "@ + addrs_text(garbage) + "\nKnown edges: "@ + counts_text(r.known_edges, known)
        + "\n"@
}

impl CCResults {
    /// The text that shows the results, with the garbage in the order
    /// `garbage` and the known counts in the order `known`.
    pub fn dump_in(&self, garbage: &Vec<Addr>, known: &Vec<Addr>) -> (s: String)
        requires
            forall|i: int| 0 <= i < known.len() ==> self@.known_edges.contains_key(#[trigger] known[i]),
        ensures
            s@ == results_text(self@, garbage@, known@),
    {
        let mut s = String::from_str("Garbage: ");
        let mut i: usize = 0;
        while i < garbage.len()
            invariant
                i <= garbage.len(),
                s@ == "Garbage: "@ + addrs_text(garbage@.take(i as int)),
            decreases garbage.len() - i,
        {
            push_decimal(&mut s, garbage[i]);
            s.append(", ");
            proof {
                let part = garbage@.take(i + 1);
                assert(part.drop_last() =~= garbage@.take(i as int));
                assert(part.last() == garbage@[i as int]);
                assert(s@ =~= "Garbage: "@ + addrs_text(part));
            }
            i = i + 1;
        }
        assert(garbage@.take(i as int) =~= garbage@);
        s.append("\nKnown edges: ");
        let ghost head = s@;
        let mut k: usize = 0;
        while k < known.len()
            invariant
                k <= known.len(),
                forall|j: int|
                    0 <= j < known.len() ==> self@.known_edges.contains_key(#[trigger] known[j]),
                s@ == head + counts_text(self@.known_edges, known@.take(k as int)),
            decreases known.len() - k,
        {
            let addr = known[k];
            assert(self@.known_edges.contains_key(known[k as int]));
            match map_get(&self.known_edges, &addr) {
                Some(count) => {
                    s.append("(");
                    push_decimal(&mut s, addr);
                    s.append(", ");
                    push_decimal(&mut s, *count);
                    s.append("), ");
                },
                None => {},
            }
            proof {
                let part = known@.take(k + 1);
                assert(part.drop_last() =~= known@.take(k as int));
                assert(part.last() == addr);
                assert(s@ =~= head + counts_text(self@.known_edges, part));
            }
            k = k + 1;
        }
        assert(known@.take(k as int) =~= known@);
        s.append("\n");
        assert(s@ =~= results_text(self@, garbage@, known@));
        s
    }

    /// The text that shows the results, each part in the order in which its
    /// collection walks it.
    pub fn dump(&self) -> (s: String)
        ensures
            exists|garbage: Seq<Addr>, known: Seq<Addr>|
                is_listing(garbage, self@.garbage) && is_listing(known, self@.known_edges.dom())
                    && s@ == #[trigger] results_text(self@, garbage, known),
    {
        let garbage = set_addrs(&self.garbage);
        let known = map_addrs(&self.known_edges);
        proof {
            assert forall|i: int| 0 <= i < known.len() implies self@.known_edges.contains_key(
                #[trigger] known[i],
            ) by {
                assert(known@.contains(known[i]));
            }
        }
        let s = self.dump_in(&garbage, &known);
        assert(is_listing(garbage@, self@.garbage) && is_listing(known@, self@.known_edges.dom())
            && s@ == results_text(self@, garbage@, known@));
        s
    }
}

} // verus!
