//! The object graph of a log and the machine that builds it line by line.
//!
//! The machine holds the graph built so far and at most one open node: the
//! node of the last node line, which takes the edges that follow. An open
//! node enters the graph when the next node line, the separator or the end
//! of the input closes it.

use vstd::prelude::*;
use crate::addr::{addr_of, read_addr_in, read_weak_map_addr_in, weak_map_addr_of, Addr};
use crate::atoms::{atom_in, intern, lemma_intern, Atom, StringIntern};
use crate::error::{failure_at, texts, ErrorKind, Failure, ParseError};
use crate::hashed::{
    is_listing, map_addrs, map_get, map_insert, new_map, new_set, AddrHashMap, AddrHashSet,
};
use crate::line::{classify, line_form, scan_line, Line, ParsedLine};
use crate::node::{node_text, EdgeInfo, GraphNode, NodeView, WeakMapEntry};
use crate::render::{decimal, push_decimal};
use crate::text::chars_of;
use vstd::string::{StrSliceExecFns, StringExecFns};

verus! {

/// A graph as a value.
pub struct GraphView {
    pub nodes: Map<Addr, NodeView>,
    pub weak_map_entries: Seq<WeakMapEntry>,
    pub incr_roots: Set<Addr>,
    /// The interned strings, by handle.
    pub atoms: Seq<Seq<char>>,
}

/// The state of the machine that builds a graph: the graph so far and the
/// open node with its address, if there is one.
pub struct BuildState {
    pub graph: GraphView,
    pub open: Option<(Addr, NodeView)>,
}

/// The graph of a log: its nodes by address, its weak-map entries in the
/// order of the log, its incremental roots, and the table of its labels.
#[derive(Debug)]
pub struct CCGraph {
    pub nodes: AddrHashMap<GraphNode>,
    pub weak_map_entries: Vec<WeakMapEntry>,
    pub incr_roots: AddrHashSet,
    pub atoms: StringIntern,
}

impl View for CCGraph {
    type V = GraphView;

    open spec fn view(&self) -> GraphView {
        GraphView {
            nodes: self.nodes@.map_values(|node: GraphNode| node@),
            weak_map_entries: self.weak_map_entries@,
            incr_roots: self.incr_roots@,
            atoms: self.atoms@,
        }
    }
}

/// An open node as a value.
pub open spec fn open_view(open: Option<(Addr, GraphNode)>) -> Option<(Addr, NodeView)> {
    match open {
        Some((addr, node)) => Some((addr, node@)),
        None => None,
    }
}

/// The graph that holds nothing, with the label table `atoms`.
pub open spec fn empty_graph(atoms: Seq<Seq<char>>) -> GraphView {
    GraphView {
        nodes: Map::empty(),
        weak_map_entries: Seq::empty(),
        incr_roots: Set::empty(),
        atoms,
    }
}

/// The state in which building starts: nothing built, no node open.
pub open spec fn start_state() -> BuildState {
    BuildState { graph: empty_graph(Seq::empty()), open: None }
}

/// Every handle of the node `node` was given by a table with the contents
/// `table`.
pub open spec fn node_ok(node: NodeView, table: Seq<Seq<char>>) -> bool {
    &&& atom_in(table, node.label)
    &&& forall|i: int| 0 <= i < node.edges.len() ==> atom_in(table, (#[trigger] node.edges[i]).label)
}

/// The label table of `g` holds no string twice, and every handle in the
/// nodes of `g` was given by it.
pub open spec fn graph_ok(g: GraphView) -> bool {
    &&& g.atoms.no_duplicates()
    &&& g.atoms.len() <= usize::MAX
    &&& forall|addr: Addr| #[trigger] g.nodes.contains_key(addr) ==> node_ok(g.nodes[addr], g.atoms)
}

/// The graph of `st` is well formed, and so is its open node.
pub open spec fn state_ok(st: BuildState) -> bool {
    &&& graph_ok(st.graph)
    &&& match st.open {
        Some((_, node)) => node_ok(node, st.graph.atoms),
        None => true,
    }
}

/// Every handle of `line` was given by a table with the contents `table`.
pub open spec fn line_ok(line: ParsedLine, table: Seq<Seq<char>>) -> bool {
    match line {
        Line::Node(_, _, label) => atom_in(table, label),
        Line::Edge(_, label) => atom_in(table, label),
        _ => true,
    }
}

/// Closing the open node: it enters the graph under its address, unless
/// the graph holds that address already. With no node open the graph stays
/// as it is.
pub open spec fn close(g: GraphView, open: Option<(Addr, NodeView)>) -> Result<
    GraphView,
    ErrorKind,
> {
    match open {
        Some((addr, node)) => {
            if g.nodes.contains_key(addr) {
                Err(ErrorKind::DuplicateNode)
            } else {
                Ok(GraphView { nodes: g.nodes.insert(addr, node), ..g })
            }
        },
        None => Ok(g),
    }
}

/// One step of the machine: the state after `line`, and whether `line`
/// ended the graph section.
///
/// A node line closes the open node and opens its own, without edges. An
/// edge line appends an edge to the open node. A weak-map entry is appended
/// to the graph's entries. A comment changes nothing. The separator closes
/// the open node and ends the section. A result entry has no place here.
pub open spec fn graph_step(st: BuildState, line: ParsedLine) -> Result<
    (BuildState, bool),
    ErrorKind,
> {
    match line {
        Line::Node(addr, node_type, label) => match close(st.graph, st.open) {
            Ok(g) => Ok(
                (
                    BuildState {
                        graph: g,
                        open: Some((addr, NodeView { node_type, label, edges: Seq::empty() })),
                    },
                    false,
                ),
            ),
            Err(kind) => Err(kind),
        },
        Line::Edge(addr, label) => match st.open {
            Some((from, node)) => Ok(
                (
                    BuildState {
                        graph: st.graph,
                        open: Some(
                            (
                                from,
                                NodeView { edges: node.edges.push(EdgeInfo { addr, label }), ..node },
                            ),
                        ),
                    },
                    false,
                ),
            ),
            None => Err(ErrorKind::EdgeWithoutNode),
        },
        Line::WeakMap(weak_map, key, key_delegate, value) => Ok(
            (
                BuildState {
                    graph: GraphView {
                        weak_map_entries: st.graph.weak_map_entries.push(
                            WeakMapEntry { weak_map, key, key_delegate, value },
                        ),
                        ..st.graph
                    },
                    open: st.open,
                },
                false,
            ),
        ),
        Line::Comment => Ok((st, false)),
        Line::Separator => match close(st.graph, st.open) {
            Ok(g) => Ok((BuildState { graph: g, open: None }, true)),
            Err(kind) => Err(kind),
        },
        Line::Garbage(_) => Err(ErrorKind::UnexpectedLine),
        Line::KnownEdge(_, _) => Err(ErrorKind::UnexpectedLine),
    }
}

/// A handle that a table gave stays good when the table grows.
pub proof fn lemma_node_ok_grows(node: NodeView, table: Seq<Seq<char>>, longer: Seq<Seq<char>>)
    requires
        node_ok(node, table),
        table.len() <= longer.len(),
    ensures
        node_ok(node, longer),
{
}

/// A step from a well-formed state with a line of good handles gives a
/// well-formed state.
pub proof fn lemma_step_ok(st: BuildState, line: ParsedLine)
    requires
        state_ok(st),
        line_ok(line, st.graph.atoms),
    ensures
        graph_step(st, line) matches Ok((next, _)) ==> state_ok(next) && next.graph.atoms
            == st.graph.atoms,
{
    match graph_step(st, line) {
        Ok((next, _)) => {
            match line {
                Line::Edge(addr, label) => {
                    let (_, node) = st.open.unwrap();
                    let edges = node.edges.push(EdgeInfo { addr, label });
                    assert forall|i: int| 0 <= i < edges.len() implies atom_in(
                        st.graph.atoms,
                        (#[trigger] edges[i]).label,
                    ) by {
                        if i < node.edges.len() {
                            assert(edges[i] == node.edges[i]);
                        }
                    }
                },
                _ => {},
            }
        },
        Err(_) => {},
    }
}

impl CCGraph {
    /// The label table holds no string twice, and every handle in the nodes
    /// was given by it.
    pub open spec fn wf(&self) -> bool {
        graph_ok(self@) && self.atoms.wf()
    }

    /// A graph that holds nothing.
    pub fn new() -> (g: CCGraph)
        ensures
            g.wf(),
            g@ == empty_graph(Seq::empty()),
    {
        let g = CCGraph {
            nodes: new_map(),
            weak_map_entries: Vec::new(),
            incr_roots: new_set(),
            atoms: StringIntern::new(),
        };
        assert(g@.nodes =~= Map::empty());
        g
    }

    /// Reads `addr_str` as an address: hexadecimal digits, with or without
    /// a leading `0x`.
    pub fn atomize_addr(&mut self, addr_str: &str) -> (r: Result<Addr, ErrorKind>)
        ensures
            *final(self) == *old(self),
            match addr_of(addr_str@) {
                Some(addr) => r == Ok::<Addr, ErrorKind>(addr),
                None => r == Err::<Addr, ErrorKind>(ErrorKind::InvalidAddress),
            },
    {
        let chars = chars_of(addr_str);
        assert(chars@.subrange(0, chars@.len() as int) =~= addr_str@);
        match read_addr_in(&chars, 0, chars.len()) {
            Some(addr) => Ok(addr),
            None => Err(ErrorKind::InvalidAddress),
        }
    }

    /// Reads the field `x` of a weak-map entry as an address: `(nil)` is
    /// address 0.
    pub fn atomize_weakmap_addr(&mut self, x: &str) -> (r: Result<Addr, ErrorKind>)
        ensures
            *final(self) == *old(self),
            match weak_map_addr_of(x@) {
                Some(addr) => r == Ok::<Addr, ErrorKind>(addr),
                None => r == Err::<Addr, ErrorKind>(ErrorKind::InvalidAddress),
            },
    {
        let chars = chars_of(x);
        assert(chars@.subrange(0, chars@.len() as int) =~= x@);
        match read_weak_map_addr_in(&chars, 0, chars.len()) {
            Some(addr) => Ok(addr),
            None => Err(ErrorKind::InvalidAddress),
        }
    }

    /// Interns `label` in the graph's table.
    pub fn atomize_label(&mut self, label: &str) -> (atom: Atom)
        requires
            old(self).wf(),
        ensures
            final(self).wf(),
            (final(self)@.atoms, atom) == intern(old(self)@.atoms, label@),
            final(self)@ == (GraphView { atoms: final(self)@.atoms, ..old(self)@ }),
            atom_in(final(self)@.atoms, atom),
    {
        proof {
            self.atoms.lemma_table();
            lemma_intern(self@.atoms, label@);
        }
        let ghost before = self@;
        let atom = self.atoms.add(label);
        proof {
            self.atoms.lemma_table();
            assert forall|addr: Addr| #[trigger] self@.nodes.contains_key(addr) implies node_ok(
                self@.nodes[addr],
                self@.atoms,
            ) by {
                assert(before.nodes.contains_key(addr));
                lemma_node_ok_grows(before.nodes[addr], before.atoms, self@.atoms);
            }
        }
        atom
    }

    /// The string that `a` stands for.
    pub fn atom_string(&self, a: &Atom) -> (s: String)
        requires
            atom_in(self@.atoms, *a),
        ensures
            s@ == self@.atoms[a.0 as int],
    {
        self.atoms.get(a).to_owned()
    }

    /// Tests whether `a` is a handle of this graph's table.
    pub fn knows_atom(&self, a: &Atom) -> (r: bool)
        ensures
            r == atom_in(self@.atoms, *a),
    {
        self.atoms.knows(a)
    }

    /// The node at `addr`, if the graph has one there.
    pub fn node(&self, addr: &Addr) -> (r: Option<&GraphNode>)
        ensures
            match r {
                Some(node) => self@.nodes.contains_key(*addr) && node@ == self@.nodes[*addr],
                None => !self@.nodes.contains_key(*addr),
            },
    {
        let r = map_get(&self.nodes, addr);
        assert(self@.nodes.contains_key(*addr) == self.nodes@.contains_key(*addr));
        r
    }

    /// The addresses of the nodes, each once, in the order in which the map
    /// of the nodes walks them.
    pub fn node_addrs(&self) -> (addrs: Vec<Addr>)
        ensures
            is_listing(addrs@, self@.nodes.dom()),
    {
        let addrs = map_addrs(&self.nodes);
        assert forall|a: Addr| addrs@.contains(a) <==> self@.nodes.dom().contains(a) by {
            assert(self.nodes@.contains_key(a) <==> self@.nodes.contains_key(a));
        }
        addrs
    }

    /// The label of the node at `node`, if the graph has one there.
    pub fn node_label(&self, node: &Addr) -> (r: Option<String>)
        requires
            self.wf(),
        ensures
            match r {
                Some(label) => self@.nodes.contains_key(*node) && label@
                    == self@.atoms[self@.nodes[*node].label.0 as int],
                None => !self@.nodes.contains_key(*node),
            },
    {
        match map_get(&self.nodes, node) {
            Some(g) => {
                assert(self@.nodes.contains_key(*node));
                assert(self@.nodes[*node] == g@);
                Some(self.atom_string(&g.label))
            },
            None => None,
        }
    }

    /// Closes the open node `curr_node`: it enters the graph under its
    /// address, unless the graph has a node there already.
    pub fn add_node(&mut self, curr_node: Option<(Addr, GraphNode)>) -> (r: Result<(), ErrorKind>)
        requires
            old(self).wf(),
            state_ok(BuildState { graph: old(self)@, open: open_view(curr_node) }),
        ensures
            match close(old(self)@, open_view(curr_node)) {
                Ok(g) => r is Ok && final(self)@ == g && final(self).wf(),
                Err(kind) => r == Err::<(), ErrorKind>(kind) && *final(self) == *old(self),
            },
    {
        match curr_node {
            Some((addr, node)) => {
                if map_get(&self.nodes, &addr).is_some() {
                    return Err(ErrorKind::DuplicateNode);
                }
                let ghost before = self@;
                let ghost node_view = node@;
                map_insert(&mut self.nodes, addr, node);
                proof {
                    assert(self@.nodes =~= before.nodes.insert(addr, node_view));
                    assert forall|a: Addr| #[trigger] self@.nodes.contains_key(a) implies node_ok(
                        self@.nodes[a],
                        self@.atoms,
                    ) by {
                        if a != addr {
                            assert(before.nodes.contains_key(a));
                        }
                    }
                }
                Ok(())
            },
            None => Ok(()),
        }
    }

    /// Classifies `line` and interns its label, if it has one.
    pub fn parse_line(&mut self, line: &str) -> (r: Result<ParsedLine, ErrorKind>)
        requires
            old(self).wf(),
        ensures
            final(self).wf(),
            (r, final(self)@.atoms) == classify(line@, old(self)@.atoms),
            final(self)@ == (GraphView { atoms: final(self)@.atoms, ..old(self)@ }),
            old(self)@.atoms.len() <= final(self)@.atoms.len(),
            r matches Ok(parsed) ==> line_ok(parsed, final(self)@.atoms),
    {
        let chars = chars_of(line);
        proof {
            if let Ok(form) = line_form(line@) {
                match form {
                    Line::Node(_, _, label) => lemma_intern(self@.atoms, label),
                    Line::Edge(_, label) => lemma_intern(self@.atoms, label),
                    _ => {},
                }
            }
        }
        match scan_line(&chars) {
            Ok(Line::Node(addr, node_type, (from, to))) => {
                let label = self.atomize_label(line.substring_char(from, to));
                Ok(Line::Node(addr, node_type, label))
            },
            Ok(Line::Edge(addr, (from, to))) => {
                let label = self.atomize_label(line.substring_char(from, to));
                Ok(Line::Edge(addr, label))
            },
            Ok(Line::WeakMap(weak_map, key, key_delegate, value)) => Ok(
                Line::WeakMap(weak_map, key, key_delegate, value),
            ),
            Ok(Line::Comment) => Ok(Line::Comment),
            Ok(Line::Separator) => Ok(Line::Separator),
            Ok(Line::Garbage(addr)) => Ok(Line::Garbage(addr)),
            Ok(Line::KnownEdge(addr, count)) => Ok(Line::KnownEdge(addr, count)),
            Err(kind) => Err(kind),
        }
    }

    /// Takes one classified line of the graph section: gives the open node
    /// afterwards, and whether the line ended the section.
    pub fn feed(&mut self, open: Option<(Addr, GraphNode)>, line: ParsedLine) -> (r: Result<
        (Option<(Addr, GraphNode)>, bool),
        ErrorKind,
    >)
        requires
            old(self).wf(),
            state_ok(BuildState { graph: old(self)@, open: open_view(open) }),
            line_ok(line, old(self)@.atoms),
        ensures
            match graph_step(BuildState { graph: old(self)@, open: open_view(open) }, line) {
                Ok((next, ended)) => {
                    &&& r matches Ok((now_open, now_ended))
                    &&& final(self).wf()
                    &&& final(self)@ == next.graph
                    &&& open_view(now_open) == next.open
                    &&& now_ended == ended
                    &&& state_ok(next)
                },
                Err(kind) => r matches Err(k) && k == kind && *final(self) == *old(self),
            },
    {
        proof {
            lemma_step_ok(BuildState { graph: self@, open: open_view(open) }, line);
        }
        match line {
            Line::Node(addr, node_type, label) => match self.add_node(open) {
                Ok(()) => Ok((Some((addr, GraphNode { node_type, label, edges: Vec::new() })), false)),
                Err(kind) => Err(kind),
            },
            Line::Edge(addr, label) => match open {
                Some((from, node)) => {
                    let mut node = node;
                    node.edges.push(EdgeInfo { addr, label });
                    Ok((Some((from, node)), false))
                },
                None => Err(ErrorKind::EdgeWithoutNode),
            },
            Line::WeakMap(weak_map, key, key_delegate, value) => {
                self.weak_map_entries.push(WeakMapEntry { weak_map, key, key_delegate, value });
                Ok((open, false))
            },
            Line::Comment => Ok((open, false)),
            Line::Separator => match self.add_node(open) {
                Ok(()) => Ok((None, true)),
                Err(kind) => Err(kind),
            },
            Line::Garbage(_) => Err(ErrorKind::UnexpectedLine),
            Line::KnownEdge(_, _) => Err(ErrorKind::UnexpectedLine),
        }
    }

    /// Builds the graph of the lines of a log: reads up to the separator,
    /// or to the end where there is none, and gives the graph with the index
    /// of the first line behind the graph section.
    pub fn parse(lines: &Vec<String>) -> (r: Result<(CCGraph, usize), ParseError>)
        ensures
            match graph_run(texts(lines@), 0, start_state(), 0) {
                Ok((g, next)) => {
                    &&& r matches Ok((graph, n))
                    &&& graph@ == g
                    &&& graph.wf()
                    &&& n == next
                    &&& n <= lines.len()
                },
                Err(failure) => r matches Err(e) && e@ == failure,
            },
    {
        let ghost all = texts(lines@);
        let mut graph = CCGraph::new();
        let mut open: Option<(Addr, GraphNode)> = None;
        let mut opened_at: usize = 0;
        let mut i: usize = 0;
        while i < lines.len()
            invariant
                i <= lines.len(),
                all == texts(lines@),
                graph.wf(),
                state_ok(BuildState { graph: graph@, open: open_view(open) }),
                open is Some ==> opened_at < i,
                graph_run(all, 0, start_state(), 0) == graph_run(
                    all,
                    i as int,
                    BuildState { graph: graph@, open: open_view(open) },
                    opened_at as int,
                ),
            decreases lines.len() - i,
        {
            assert(all[i as int] == lines[i as int]@);
            let ghost before = BuildState { graph: graph@, open: open_view(open) };
            let parsed = match graph.parse_line(lines[i].as_str()) {
                Ok(parsed) => parsed,
                Err(kind) => {
                    return Err(ParseError::at_line(kind, lines, i));
                },
            };
            proof {
                if let Some((_, node)) = before.open {
                    lemma_node_ok_grows(node, before.graph.atoms, graph@.atoms);
                }
            }
            let opens = match parsed {
                Line::Node(_, _, _) => true,
                _ => false,
            };
            match graph.feed(open, parsed) {
                Ok((now_open, ended)) => {
                    open = now_open;
                    if opens {
                        opened_at = i;
                    }
                    if ended {
                        return Ok((graph, i + 1));
                    }
                },
                Err(kind) => {
                    let at = match kind {
                        ErrorKind::DuplicateNode => opened_at,
                        _ => i,
                    };
                    return Err(ParseError::at_line(kind, lines, at));
                },
            }
            i = i + 1;
        }
        match graph.add_node(open) {
            Ok(()) => Ok((graph, i)),
            Err(kind) => Err(ParseError::at_line(kind, lines, opened_at)),
        }
    }
}

/// The lines that show the nodes of `g` at the addresses `order`, in that
/// order: two spaces, the address in decimal, a space, the node.
pub open spec fn nodes_text(g: GraphView, order: Seq<Addr>) -> Seq<char>
    decreases order.len(),
{
    if order.len() == 0 {
        Seq::empty()
    } else {
        nodes_text(g, order.drop_last()) + "  "@ + decimal(order.last() as nat) + " "@ + node_text(
            g.nodes[order.last()],
        )
    }
}

/// The text that shows the graph `g` with its nodes in the order `order`.
pub open spec fn graph_text(g: GraphView, order: Seq<Addr>) -> Seq<char> {
    "Nodes:\n"@ + nodes_text(g, order)
}

impl CCGraph {
    /// The text that shows the graph with its nodes in the order `order`.
    pub fn dump_in(&self, order: &Vec<Addr>) -> (s: String)
        requires
            forall|i: int| 0 <= i < order.len() ==> self@.nodes.contains_key(#[trigger] order[i]),
        ensures
            s@ == graph_text(self@, order@),
    {
        let mut s = String::from_str("Nodes:\n");
        let mut i: usize = 0;
        while i < order.len()
            invariant
                i <= order.len(),
                forall|k: int| 0 <= k < order.len() ==> self@.nodes.contains_key(#[trigger] order[k]),
                s@ == "Nodes:\n"@ + nodes_text(self@, order@.take(i as int)),
            decreases order.len() - i,
        {
            let addr = order[i];
            assert(self@.nodes.contains_key(order[i as int]));
            match map_get(&self.nodes, &addr) {
                Some(node) => {
                    assert(self@.nodes[addr] == node@);
                    s.append("  ");
                    push_decimal(&mut s, addr);
                    s.append(" ");
                    s.append(node.dump().as_str());
                },
                None => {},
            }
            proof {
                let part = order@.take(i + 1);
                assert(part.drop_last() =~= order@.take(i as int));
                assert(part.last() == addr);
                assert(s@ =~= "Nodes:\n"@ + nodes_text(self@, part));
            }
            i = i + 1;
        }
        assert(order@.take(i as int) =~= order@);
        s
    }

    /// The text that shows the graph, with its nodes in the order in which
    /// the map of the nodes walks them.
    pub fn dump(&self) -> (s: String)
        ensures
            exists|order: Seq<Addr>|
                is_listing(order, self@.nodes.dom()) && s@ == #[trigger] graph_text(self@, order),
    {
        let order = self.node_addrs();
        proof {
            assert forall|i: int| 0 <= i < order.len() implies self@.nodes.contains_key(
                #[trigger] order[i],
            ) by {
                assert(order@.contains(order[i]));
            }
        }
        let s = self.dump_in(&order);
        assert(is_listing(order@, self@.nodes.dom()) && s@ == graph_text(self@, order@));
        s
    }
}

/// What reading the graph section of `lines` from the line with index `at`
/// on gives, in the state `st`, where `opened_at` is the index of the line
/// that opened the open node: the graph and the index of the first line
/// behind the section, or the first failure.
///
/// Each line is classified and handed to the machine. The section ends
/// behind the separator, or at the end of the lines, where the open node is
/// closed. A node that is defined twice is reported at the line of its
/// second definition, any other error at the line that is being read.
pub open spec fn graph_run(lines: Seq<Seq<char>>, at: int, st: BuildState, opened_at: int) -> Result<
    (GraphView, int),
    Failure,
>
    decreases lines.len() - at,
{
    if !(0 <= at < lines.len()) {
        match close(st.graph, st.open) {
            Ok(g) => Ok((g, lines.len() as int)),
            Err(kind) => Err(failure_at(kind, lines, opened_at)),
        }
    } else {
        let (parsed, table) = classify(lines[at], st.graph.atoms);
        match parsed {
            Ok(line) => match graph_step(
                BuildState { graph: GraphView { atoms: table, ..st.graph }, open: st.open },
                line,
            ) {
                Ok((next, ended)) => {
                    if ended {
                        Ok((next.graph, at + 1))
                    } else {
                        graph_run(
                            lines,
                            at + 1,
                            next,
                            if line is Node {
                                at
                            } else {
                                opened_at
                            },
                        )
                    }
                },
                Err(kind) => Err(
                    failure_at(
                        kind,
                        lines,
                        if kind == ErrorKind::DuplicateNode {
                            opened_at
                        } else {
                            at
                        },
                    ),
                ),
            },
            Err(kind) => Err(failure_at(kind, lines, at)),
        }
    }
}

} // verus!
