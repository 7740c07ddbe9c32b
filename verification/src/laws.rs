//! What holds of every log: which error a misplaced line gives, what a
//! node of the graph holds, which count is kept, and that a log determines
//! what is read from it.

use vstd::prelude::*;
use crate::addr::Addr;
use crate::atoms::{atom_in, lemma_intern};
use crate::error::{failure_at, ErrorKind, Failure};
use crate::graph::{
    close, graph_run, graph_step, lemma_node_ok_grows, lemma_step_ok, line_ok, node_ok, start_state,
    state_ok, BuildState, GraphView,
};
use crate::line::{classify, line_form, Line, LineForm};
use crate::log::{log_of, LogView};
use crate::node::EdgeInfo;
use crate::results::{no_results, results_run, results_step, ResultsView};

verus! {

/// The state of the graph machine as the line `line` meets it: the state
/// `st` with the label table as classifying `line` leaves it.
pub open spec fn fed(st: BuildState, line: Seq<char>) -> BuildState {
    BuildState { graph: GraphView { atoms: classify(line, st.graph.atoms).1, ..st.graph }, open: st.open }
}

/// The state of the graph machine after the first `k` lines, with the index
/// of the line that opened the open node; `None` if one of those lines is
/// an error or ends the graph section.
pub open spec fn state_after(lines: Seq<Seq<char>>, k: int) -> Option<(BuildState, int)>
    decreases k,
{
    if k <= 0 {
        Some((start_state(), 0int))
    } else if k > lines.len() {
        None
    } else {
        match state_after(lines, k - 1) {
            Some((st, opened_at)) => match classify(lines[k - 1], st.graph.atoms).0 {
                Ok(line) => match graph_step(fed(st, lines[k - 1]), line) {
                    Ok((next, false)) => Some(
                        (
                            next,
                            if line is Node {
                                k - 1
                            } else {
                                opened_at
                            },
                        ),
                    ),
                    _ => None,
                },
                Err(_) => None,
            },
            None => None,
        }
    }
}

/// The line `s` is an edge line.
pub open spec fn is_edge(s: Seq<char>) -> bool {
    line_form(s) matches Ok(Line::Edge(_, _))
}

/// The address of the node that the line `s` defines, if it is a node line.
pub open spec fn node_of(s: Seq<char>) -> Option<Addr> {
    match line_form(s) {
        Ok(Line::Node(addr, _, _)) => Some(addr),
        _ => None,
    }
}

/// The line `s` is one that the graph section takes without closing the
/// open node: an edge, a comment or a weak-map entry.
pub open spec fn keeps_open(s: Seq<char>) -> bool {
    match line_form(s) {
        Ok(Line::Edge(_, _)) => true,
        Ok(Line::Comment) => true,
        Ok(Line::WeakMap(_, _, _, _)) => true,
        _ => false,
    }
}

/// The line `s` closes the open node: a node line or the separator.
pub open spec fn closes(s: Seq<char>) -> bool {
    match line_form(s) {
        Ok(Line::Node(_, _, _)) => true,
        Ok(Line::Separator) => true,
        _ => false,
    }
}

/// From the index `at` on, every line up to the next node line, the
/// separator or the end of the lines is an edge, a comment or a weak-map
/// entry.
pub open spec fn quiet_until_close(lines: Seq<Seq<char>>, at: int) -> bool
    decreases lines.len() - at,
{
    if !(0 <= at < lines.len()) {
        true
    } else if closes(lines[at]) {
        true
    } else {
        keeps_open(lines[at]) && quiet_until_close(lines, at + 1)
    }
}

/// The number of edge lines from the index `at` on, up to the next line that
/// is neither an edge nor a comment nor a weak-map entry.
pub open spec fn edges_after(lines: Seq<Seq<char>>, at: int) -> nat
    decreases lines.len() - at,
{
    if !(0 <= at < lines.len()) {
        0
    } else {
        match line_form(lines[at]) {
            Ok(Line::Edge(_, _)) => 1 + edges_after(lines, at + 1),
            Ok(Line::Comment) => edges_after(lines, at + 1),
            Ok(Line::WeakMap(_, _, _, _)) => edges_after(lines, at + 1),
            _ => 0,
        }
    }
}

/// Reading from the start gives what reading on from any state on the way
/// gives.
pub proof fn lemma_run_from_state(lines: Seq<Seq<char>>, k: int)
    requires
        state_after(lines, k) is Some,
    ensures
        0 <= k ==> k <= lines.len(),
        graph_run(lines, 0, start_state(), 0) == graph_run(
            lines,
            if k <= 0 {
                0
            } else {
                k
            },
            state_after(lines, k).unwrap().0,
            state_after(lines, k).unwrap().1,
        ),
    decreases k,
{
    if k > 0 {
        lemma_run_from_state(lines, k - 1);
    }
}

/// With no node open, an edge line that only edges, comments and weak-map
/// entries precede stops the reading: an edge without a node.
pub proof fn lemma_edge_needs_node(lines: Seq<Seq<char>>, at: int, st: BuildState, opened_at: int, i: int)
    requires
        0 <= at <= i < lines.len(),
        st.open is None,
        is_edge(lines[i]),
        forall|j: int| at <= j < i ==> keeps_open(#[trigger] lines[j]),
    ensures
        graph_run(lines, at, st, opened_at) matches Err(f) && f.kind == ErrorKind::EdgeWithoutNode,
    decreases i - at,
{
    if at < i {
        assert(keeps_open(lines[at]));
        let parsed = classify(lines[at], st.graph.atoms).0;
        match graph_step(fed(st, lines[at]), parsed.unwrap()) {
            Ok((next, ended)) => {
                lemma_edge_needs_node(lines, at + 1, next, opened_at, i);
            },
            Err(_) => {},
        }
    }
}

/// An edge line that no node line precedes gives the error of an edge
/// without a node, where the lines before it are such that the reading
/// gets to it: edges, comments and weak-map entries. The error is reported
/// at the first edge line.
pub proof fn law_edge_before_any_node(lines: Seq<Seq<char>>, i: int)
    requires
        0 <= i < lines.len(),
        is_edge(lines[i]),
        forall|j: int| 0 <= j < i ==> keeps_open(#[trigger] lines[j]),
    ensures
        log_of(lines) matches Err(f) && f.kind == ErrorKind::EdgeWithoutNode,
{
    lemma_edge_needs_node(lines, 0, start_state(), 0, i);
}

/// An open node whose address the graph holds already stops the reading
/// when it is closed: a node defined twice, reported at the line that
/// opened it.
pub proof fn lemma_open_duplicate(lines: Seq<Seq<char>>, at: int, st: BuildState, opened_at: int)
    requires
        0 <= at <= lines.len(),
        st.open is Some,
        st.graph.nodes.contains_key(st.open.unwrap().0),
        quiet_until_close(lines, at),
    ensures
        graph_run(lines, at, st, opened_at) == Err::<(GraphView, int), Failure>(
            failure_at(ErrorKind::DuplicateNode, lines, opened_at),
        ),
    decreases lines.len() - at,
{
    if at < lines.len() {
        let parsed = classify(lines[at], st.graph.atoms).0;
        if !closes(lines[at]) {
            match graph_step(fed(st, lines[at]), parsed.unwrap()) {
                Ok((next, ended)) => {
                    lemma_open_duplicate(lines, at + 1, next, opened_at);
                },
                Err(_) => {},
            }
        }
    }
}

/// A node line whose address the graph holds already, once the node that
/// was open before it is closed, gives the error of a node defined twice,
/// reported at that line, where the lines that follow it up to the one that
/// closes it are such that the reading gets there: edges, comments and
/// weak-map entries.
pub proof fn law_node_defined_twice(lines: Seq<Seq<char>>, j: int)
    requires
        0 <= j < lines.len(),
        state_after(lines, j) is Some,
        node_of(lines[j]) is Some,
        close(state_after(lines, j).unwrap().0.graph, state_after(lines, j).unwrap().0.open)
            matches Ok(g) && g.nodes.contains_key(node_of(lines[j]).unwrap()),
        quiet_until_close(lines, j + 1),
    ensures
        log_of(lines) == Err::<LogView, Failure>(failure_at(ErrorKind::DuplicateNode, lines, j)),
{
    lemma_run_from_state(lines, j);
    let (st, opened_at) = state_after(lines, j).unwrap();
    let parsed = classify(lines[j], st.graph.atoms).0;
    match graph_step(fed(st, lines[j]), parsed.unwrap()) {
        Ok((next, ended)) => {
            lemma_open_duplicate(lines, j + 1, next, j);
        },
        Err(_) => {},
    }
}

/// A node that the graph holds stays as it is to the end of the section.
pub proof fn lemma_node_stays(lines: Seq<Seq<char>>, at: int, st: BuildState, opened_at: int, addr: Addr)
    requires
        0 <= at <= lines.len(),
        st.graph.nodes.contains_key(addr),
        graph_run(lines, at, st, opened_at) is Ok,
    ensures
        graph_run(lines, at, st, opened_at) matches Ok((g, _)) && g.nodes.contains_key(addr)
            && g.nodes[addr] == st.graph.nodes[addr],
    decreases lines.len() - at,
{
    if at < lines.len() {
        let parsed = classify(lines[at], st.graph.atoms).0;
        match graph_step(fed(st, lines[at]), parsed.unwrap()) {
            Ok((next, ended)) => {
                if !ended {
                    lemma_node_stays(
                        lines,
                        at + 1,
                        next,
                        if parsed.unwrap() is Node {
                            at
                        } else {
                            opened_at
                        },
                        addr,
                    );
                }
            },
            Err(_) => {},
        }
    }
}

/// The open node enters the graph with its type and its label, and with
/// one more edge for each edge line up to the line that closes it.
pub proof fn lemma_open_node_enters(lines: Seq<Seq<char>>, at: int, st: BuildState, opened_at: int)
    requires
        0 <= at <= lines.len(),
        st.open is Some,
        graph_run(lines, at, st, opened_at) is Ok,
    ensures
        ({
            let (addr, node) = st.open.unwrap();
            graph_run(lines, at, st, opened_at) matches Ok((g, _)) && g.nodes.contains_key(addr)
                && g.nodes[addr].node_type == node.node_type && g.nodes[addr].label == node.label
                && g.nodes[addr].edges.len() == node.edges.len() + edges_after(lines, at)
        }),
    decreases lines.len() - at,
{
    if at < lines.len() {
        let (addr, node) = st.open.unwrap();
        let parsed = classify(lines[at], st.graph.atoms).0;
        match graph_step(fed(st, lines[at]), parsed.unwrap()) {
            Ok((next, ended)) => {
                if !ended {
                    if parsed.unwrap() is Node {
                        lemma_node_stays(lines, at + 1, next, at, addr);
                    } else {
                        lemma_open_node_enters(lines, at + 1, next, opened_at);
                    }
                }
            },
            Err(_) => {},
        }
    }
}

/// Reading on from the state `st` at the index `at`: a node line of the
/// section gives a node of the graph, with the type of the line and as many
/// edges as edge lines follow it up to the line that closes it.
pub proof fn lemma_node_line_gives_node(
    lines: Seq<Seq<char>>,
    at: int,
    st: BuildState,
    opened_at: int,
    i: int,
)
    requires
        0 <= at <= i < lines.len(),
        graph_run(lines, at, st, opened_at) matches Ok((_, end)) && i < end,
        line_form(lines[i]) matches Ok(Line::Node(_, _, _)),
    ensures
        ({
            let addr = line_form(lines[i])->Ok_0->Node_0;
            graph_run(lines, at, st, opened_at) matches Ok((g, _)) && g.nodes.contains_key(addr)
                && g.nodes[addr].node_type == line_form(lines[i])->Ok_0->Node_1
                && g.nodes[addr].edges.len() == edges_after(lines, i + 1)
        }),
    decreases i - at,
{
    let parsed = classify(lines[at], st.graph.atoms).0;
    match graph_step(fed(st, lines[at]), parsed.unwrap()) {
        Ok((next, ended)) => {
            if at < i {
                lemma_node_line_gives_node(
                    lines,
                    at + 1,
                    next,
                    if parsed.unwrap() is Node {
                        at
                    } else {
                        opened_at
                    },
                    i,
                );
            } else {
                lemma_open_node_enters(lines, at + 1, next, at);
            }
        },
        Err(_) => {},
    }
}

/// Each node line of the graph section of a log that can be read gives a
/// node of the graph under its address, with the type that the line names
/// and as many edges as edge lines follow the line before the next node
/// line, the separator or the end.
pub proof fn law_node_line_gives_node(lines: Seq<Seq<char>>, i: int)
    requires
        0 <= i < lines.len(),
        graph_run(lines, 0, start_state(), 0) matches Ok((_, end)) && i < end,
        line_form(lines[i]) matches Ok(Line::Node(_, _, _)),
        log_of(lines) is Ok,
    ensures
        ({
            let addr = line_form(lines[i])->Ok_0->Node_0;
            log_of(lines) matches Ok(log) && log.graph.nodes.contains_key(addr)
                && log.graph.nodes[addr].node_type == line_form(lines[i])->Ok_0->Node_1
                && log.graph.nodes[addr].edges.len() == edges_after(lines, i + 1)
        }),
{
    lemma_node_line_gives_node(lines, 0, start_state(), 0, i);
}

/// The line `s` gives a known count for the object at `addr`.
pub open spec fn is_known_of(s: Seq<char>, addr: Addr) -> bool {
    line_form(s) matches Ok(Line::KnownEdge(a, _)) && a == addr
}

/// Reading results on from the index `at`: of the known counts that are
/// given for one address, the last one is kept.
pub proof fn lemma_last_known_count(
    lines: Seq<Seq<char>>,
    at: int,
    table: Seq<Seq<char>>,
    r: ResultsView,
    i: int,
)
    requires
        0 <= at <= lines.len(),
        0 <= i < lines.len(),
        line_form(lines[i]) matches Ok(Line::KnownEdge(_, _)),
        at <= i || (r.known_edges.contains_key(line_form(lines[i])->Ok_0->KnownEdge_0)
            && r.known_edges[line_form(lines[i])->Ok_0->KnownEdge_0] == line_form(
            lines[i],
        )->Ok_0->KnownEdge_1),
        forall|j: int|
            i < j < lines.len() ==> !is_known_of(
                #[trigger] lines[j],
                line_form(lines[i])->Ok_0->KnownEdge_0,
            ),
        results_run(lines, at, table, r) is Ok,
    ensures
        ({
            let addr = line_form(lines[i])->Ok_0->KnownEdge_0;
            results_run(lines, at, table, r) matches Ok(res) && res.known_edges.contains_key(addr)
                && res.known_edges[addr] == line_form(lines[i])->Ok_0->KnownEdge_1
        }),
    decreases lines.len() - at,
{
    if at < lines.len() {
        let addr = line_form(lines[i])->Ok_0->KnownEdge_0;
        let parsed = classify(lines[at], table).0;
        if at > i {
            assert(!is_known_of(lines[at], addr));
        }
        match results_step(r, parsed.unwrap()) {
            Ok(next) => {
                lemma_last_known_count(lines, at + 1, table, next, i);
            },
            Err(_) => {},
        }
    }
}

/// Where the results section of a log that can be read gives several known
/// counts for one address, the log holds the last of them.
pub proof fn law_last_known_count_wins(lines: Seq<Seq<char>>, i: int)
    requires
        0 <= i < lines.len(),
        graph_run(lines, 0, start_state(), 0) matches Ok((_, end)) && end <= i,
        line_form(lines[i]) matches Ok(Line::KnownEdge(_, _)),
        forall|j: int|
            i < j < lines.len() ==> !is_known_of(
                #[trigger] lines[j],
                line_form(lines[i])->Ok_0->KnownEdge_0,
            ),
        log_of(lines) is Ok,
    ensures
        ({
            let addr = line_form(lines[i])->Ok_0->KnownEdge_0;
            log_of(lines) matches Ok(log) && log.results.known_edges.contains_key(addr)
                && log.results.known_edges[addr] == line_form(lines[i])->Ok_0->KnownEdge_1
        }),
{
    let (graph, end) = graph_run(lines, 0, start_state(), 0)->Ok_0;
    lemma_section_end(lines, 0, start_state(), 0);
    lemma_last_known_count(lines, end, graph.atoms, no_results(), i);
}

/// The graph section ends inside the lines.
pub proof fn lemma_section_end(lines: Seq<Seq<char>>, at: int, st: BuildState, opened_at: int)
    requires
        0 <= at <= lines.len(),
    ensures
        graph_run(lines, at, st, opened_at) matches Ok((_, end)) ==> at <= end <= lines.len(),
    decreases lines.len() - at,
{
    if at < lines.len() {
        let parsed = classify(lines[at], st.graph.atoms).0;
        if parsed is Ok {
            match graph_step(fed(st, lines[at]), parsed.unwrap()) {
                Ok((next, ended)) => {
                    if !ended {
                        lemma_section_end(
                            lines,
                            at + 1,
                            next,
                            if parsed.unwrap() is Node {
                                at
                            } else {
                                opened_at
                            },
                        );
                    }
                },
                Err(_) => {},
            }
        }
    }
}

/// A log determines what is read from it: two readings of the same lines,
/// each with the outcome that [`crate::log::CCLog::parse`] promises, give
/// the same graph and the same results, or the same failure.
pub proof fn law_same_lines_same_log(
    first: Seq<Seq<char>>,
    second: Seq<Seq<char>>,
    one: Result<LogView, Failure>,
    other: Result<LogView, Failure>,
)
    requires
        first == second,
        one == log_of(first),
        other == log_of(second),
    ensures
        one == other,
{
}

/// The edges `edges` with each label written out from the table `table`.
pub open spec fn edge_texts(edges: Seq<EdgeInfo>, table: Seq<Seq<char>>) -> Seq<(Addr, Seq<char>)> {
    Seq::new(edges.len(), |i: int| (edges[i].addr, table[edges[i].label.0 as int]))
}

/// The targets and labels of the edge lines from the index `at` on, up to
/// the next line that is neither an edge nor a comment nor a weak-map
/// entry.
pub open spec fn edge_lines_after(lines: Seq<Seq<char>>, at: int) -> Seq<(Addr, Seq<char>)>
    decreases lines.len() - at,
{
    if !(0 <= at < lines.len()) {
        Seq::empty()
    } else {
        match line_form(lines[at]) {
            Ok(Line::Edge(addr, label)) => seq![(addr, label)] + edge_lines_after(lines, at + 1),
            Ok(Line::Comment) => edge_lines_after(lines, at + 1),
            Ok(Line::WeakMap(_, _, _, _)) => edge_lines_after(lines, at + 1),
            _ => Seq::empty(),
        }
    }
}

/// The table `longer` holds what the table `table` holds, under the same
/// handles.
pub open spec fn extends(longer: Seq<Seq<char>>, table: Seq<Seq<char>>) -> bool {
    table.len() <= longer.len() && forall|k: int| 0 <= k < table.len() ==> longer[k] == table[k]
}

/// Classifying a line keeps a well-formed state well formed and the
/// handles that were given good; the handle of the line's label stands for
/// the label.
pub proof fn lemma_classified(st: BuildState, s: Seq<char>)
    requires
        state_ok(st),
        fed(st, s).graph.atoms.len() <= usize::MAX,
    ensures
        state_ok(fed(st, s)),
        extends(fed(st, s).graph.atoms, st.graph.atoms),
        classify(s, st.graph.atoms).0 matches Ok(line) ==> line_ok(line, fed(st, s).graph.atoms),
        line_form(s) matches Ok(Line::Node(_, _, label)) ==> classify(s, st.graph.atoms).0
            matches Ok(Line::Node(_, _, atom)) && fed(st, s).graph.atoms[atom.0 as int] == label,
        line_form(s) matches Ok(Line::Edge(_, label)) ==> classify(s, st.graph.atoms).0
            matches Ok(Line::Edge(_, atom)) && fed(st, s).graph.atoms[atom.0 as int] == label,
{
    let table = st.graph.atoms;
    let longer = fed(st, s).graph.atoms;
    match line_form(s) {
        Ok(Line::Node(_, _, label)) => lemma_intern(table, label),
        Ok(Line::Edge(_, label)) => lemma_intern(table, label),
        _ => {},
    }
    assert forall|addr: Addr| #[trigger] st.graph.nodes.contains_key(addr) implies node_ok(
        st.graph.nodes[addr],
        longer,
    ) by {
        lemma_node_ok_grows(st.graph.nodes[addr], table, longer);
    }
    if let Some((_, node)) = st.open {
        lemma_node_ok_grows(node, table, longer);
    }
}

/// To the end of the section the table keeps what it holds, before and
/// after the line at `at` is classified.
pub proof fn lemma_table_extends(lines: Seq<Seq<char>>, at: int, st: BuildState, opened_at: int)
    requires
        0 <= at <= lines.len(),
        graph_run(lines, at, st, opened_at) is Ok,
    ensures
        graph_run(lines, at, st, opened_at) matches Ok((g, _)) && extends(g.atoms, st.graph.atoms)
            && (at < lines.len() ==> extends(g.atoms, fed(st, lines[at]).graph.atoms)),
    decreases lines.len() - at,
{
    if at < lines.len() {
        let parsed = classify(lines[at], st.graph.atoms).0;
        match graph_step(fed(st, lines[at]), parsed.unwrap()) {
            Ok((next, ended)) => {
                if !ended {
                    lemma_table_extends(
                        lines,
                        at + 1,
                        next,
                        if parsed.unwrap() is Node {
                            at
                        } else {
                            opened_at
                        },
                    );
                }
            },
            Err(_) => {},
        }
    }
}

/// To the end of the section the state stays well formed.
pub proof fn lemma_table_kept(lines: Seq<Seq<char>>, at: int, st: BuildState, opened_at: int)
    requires
        0 <= at <= lines.len(),
        state_ok(st),
        graph_run(lines, at, st, opened_at) matches Ok((g, _)) && g.atoms.len() <= usize::MAX,
    ensures
        graph_run(lines, at, st, opened_at) matches Ok((g, _)) && state_ok(
            BuildState { graph: g, open: None },
        ) && extends(g.atoms, st.graph.atoms),
    decreases lines.len() - at,
{
    lemma_table_extends(lines, at, st, opened_at);
    if at < lines.len() {
        lemma_classified(st, lines[at]);
        let parsed = classify(lines[at], st.graph.atoms).0;
        lemma_step_ok(fed(st, lines[at]), parsed.unwrap());
        match graph_step(fed(st, lines[at]), parsed.unwrap()) {
            Ok((next, ended)) => {
                if !ended {
                    lemma_table_kept(
                        lines,
                        at + 1,
                        next,
                        if parsed.unwrap() is Node {
                            at
                        } else {
                            opened_at
                        },
                    );
                }
            },
            Err(_) => {},
        }
    }
}

/// The open node enters the graph with its label, with the edges that it
/// has, and behind them with the edges of the edge lines up to the line that
/// closes it, each with its target and its label.
pub proof fn lemma_open_node_edges(lines: Seq<Seq<char>>, at: int, st: BuildState, opened_at: int)
    requires
        0 <= at <= lines.len(),
        state_ok(st),
        st.open is Some,
        graph_run(lines, at, st, opened_at) matches Ok((g, _)) && g.atoms.len() <= usize::MAX,
    ensures
        ({
            let (addr, node) = st.open.unwrap();
            graph_run(lines, at, st, opened_at) matches Ok((g, _)) && g.nodes.contains_key(addr)
                && g.atoms[g.nodes[addr].label.0 as int] == st.graph.atoms[node.label.0 as int]
                && edge_texts(g.nodes[addr].edges, g.atoms) == edge_texts(node.edges, st.graph.atoms)
                + edge_lines_after(lines, at)
        }),
    decreases lines.len() - at,
{
    let (addr, node) = st.open.unwrap();
    let (g, _) = graph_run(lines, at, st, opened_at)->Ok_0;
    lemma_table_extends(lines, at, st, opened_at);
    if at < lines.len() {
        lemma_classified(st, lines[at]);
        let parsed = classify(lines[at], st.graph.atoms).0;
        let now = fed(st, lines[at]);
        lemma_step_ok(now, parsed.unwrap());
        match graph_step(now, parsed.unwrap()) {
            Ok((next, ended)) => {
                if ended || parsed.unwrap() is Node {
                    if !ended {
                        lemma_node_stays(lines, at + 1, next, at, addr);
                        lemma_table_kept(lines, at + 1, next, at);
                    }
                    assert(g.nodes[addr] == node);
                    assert(edge_texts(node.edges, g.atoms) =~= edge_texts(node.edges, st.graph.atoms));
                    assert(edge_lines_after(lines, at) =~= Seq::empty());
                } else {
                    lemma_open_node_edges(lines, at + 1, next, opened_at);
                    let (_, grown) = next.open.unwrap();
                    let before = edge_texts(node.edges, st.graph.atoms);
                    assert forall|i: int| 0 <= i < node.edges.len() implies edge_texts(
                        grown.edges,
                        next.graph.atoms,
                    )[i] == before[i] by {
                        assert(atom_in(st.graph.atoms, node.edges[i].label));
                    }
                    match line_form(lines[at]) {
                        Ok(Line::Edge(target, label)) => {
                            assert(edge_texts(grown.edges, next.graph.atoms) =~= before + seq![
                                (target, label),
                            ]);
                            assert(edge_lines_after(lines, at) =~= seq![(target, label)]
                                + edge_lines_after(lines, at + 1));
                        },
                        _ => {
                            assert(edge_texts(grown.edges, next.graph.atoms) =~= before);
                        },
                    }
                    assert(edge_texts(g.nodes[addr].edges, g.atoms) =~= before + edge_lines_after(
                        lines,
                        at,
                    ));
                }
            },
            Err(_) => {},
        }
    } else {
        assert(edge_lines_after(lines, at) =~= Seq::empty());
        assert(edge_texts(node.edges, g.atoms) =~= edge_texts(node.edges, st.graph.atoms));
    }
}

/// Each node line of the graph section of a log that can be read gives a
/// node whose label is the label of the line and whose edges are those of
/// the edge lines that follow the line before the next node line, the
/// separator or the end: as many, in their order, each with its target and
/// its label.
pub proof fn law_node_line_gives_edges(lines: Seq<Seq<char>>, i: int)
    requires
        0 <= i < lines.len(),
        graph_run(lines, 0, start_state(), 0) matches Ok((_, end)) && i < end,
        line_form(lines[i]) matches Ok(Line::Node(_, _, _)),
        log_of(lines) matches Ok(log) && log.graph.atoms.len() <= usize::MAX,
    ensures
        ({
            let addr = line_form(lines[i])->Ok_0->Node_0;
            let label = line_form(lines[i])->Ok_0->Node_2;
            log_of(lines) matches Ok(log) && log.graph.nodes.contains_key(addr)
                && log.graph.atoms[log.graph.nodes[addr].label.0 as int] == label && edge_texts(
                log.graph.nodes[addr].edges,
                log.graph.atoms,
            ) == edge_lines_after(lines, i + 1)
        }),
{
    lemma_node_line_edges(lines, 0, start_state(), 0, i);
}

/// Reading on from the state `st` at the index `at`: what
/// [`law_node_line_gives_edges`] says of the whole log.
pub proof fn lemma_node_line_edges(lines: Seq<Seq<char>>, at: int, st: BuildState, opened_at: int, i: int)
    requires
        0 <= at <= i < lines.len(),
        state_ok(st),
        graph_run(lines, at, st, opened_at) matches Ok((g, end)) && i < end && g.atoms.len()
            <= usize::MAX,
        line_form(lines[i]) matches Ok(Line::Node(_, _, _)),
    ensures
        ({
            let addr = line_form(lines[i])->Ok_0->Node_0;
            let label = line_form(lines[i])->Ok_0->Node_2;
            graph_run(lines, at, st, opened_at) matches Ok((g, _)) && g.nodes.contains_key(addr)
                && g.atoms[g.nodes[addr].label.0 as int] == label && edge_texts(
                g.nodes[addr].edges,
                g.atoms,
            ) == edge_lines_after(lines, i + 1)
        }),
    decreases i - at,
{
    lemma_table_extends(lines, at, st, opened_at);
    lemma_classified(st, lines[at]);
    let parsed = classify(lines[at], st.graph.atoms).0;
    let now = fed(st, lines[at]);
    lemma_step_ok(now, parsed.unwrap());
    match graph_step(now, parsed.unwrap()) {
        Ok((next, ended)) => {
            if at < i {
                lemma_node_line_edges(
                    lines,
                    at + 1,
                    next,
                    if parsed.unwrap() is Node {
                        at
                    } else {
                        opened_at
                    },
                    i,
                );
            } else {
                lemma_open_node_edges(lines, at + 1, next, at);
                let (_, node) = next.open.unwrap();
                assert(edge_texts(node.edges, next.graph.atoms) =~= Seq::empty());
            }
        },
        Err(_) => {},
    }
}

/// Reading results on from the index `at`: what was garbage stays garbage,
/// and so is the address of each garbage entry that is read.
pub proof fn lemma_garbage_kept(
    lines: Seq<Seq<char>>,
    at: int,
    table: Seq<Seq<char>>,
    r: ResultsView,
    addr: Addr,
)
    requires
        0 <= at <= lines.len(),
        results_run(lines, at, table, r) is Ok,
        r.garbage.contains(addr) || exists|i: int|
            at <= i < lines.len() && #[trigger] line_form(lines[i]) == Ok::<LineForm, ErrorKind>(
                Line::Garbage(addr),
            ),
    ensures
        results_run(lines, at, table, r) matches Ok(res) && res.garbage.contains(addr),
    decreases lines.len() - at,
{
    if at < lines.len() {
        let parsed = classify(lines[at], table).0;
        match results_step(r, parsed.unwrap()) {
            Ok(next) => {
                if !next.garbage.contains(addr) {
                    let i = choose|i: int|
                        at <= i < lines.len() && #[trigger] line_form(lines[i]) == Ok::<
                            LineForm,
                            ErrorKind,
                        >(Line::Garbage(addr));
                    assert(i > at);
                }
                lemma_garbage_kept(lines, at + 1, table, next, addr);
            },
            Err(_) => {},
        }
    }
}

/// Each garbage entry of the results section of a log that can be read
/// puts its address among the garbage, however often it is reported.
pub proof fn law_garbage_is_reported(lines: Seq<Seq<char>>, i: int, addr: Addr)
    requires
        0 <= i < lines.len(),
        graph_run(lines, 0, start_state(), 0) matches Ok((_, end)) && end <= i,
        line_form(lines[i]) == Ok::<LineForm, ErrorKind>(Line::Garbage(addr)),
        log_of(lines) is Ok,
    ensures
        log_of(lines) matches Ok(log) && log.results.garbage.contains(addr),
{
    let (graph, end) = graph_run(lines, 0, start_state(), 0)->Ok_0;
    lemma_section_end(lines, 0, start_state(), 0);
    lemma_garbage_kept(lines, end, graph.atoms, no_results(), addr);
}

} // verus!
