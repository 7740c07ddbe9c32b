//! The objects of a graph: node types, edges, nodes and weak-map entries.

use vstd::prelude::*;
use crate::addr::{all_digits, digit, number, read_number_in, Addr};
use crate::atoms::Atom;
use crate::render::{decimal, lemma_decimal_reads_back, push_decimal};
use crate::text::{chars_of, eat, has_at};
use vstd::string::StringExecFns;

verus! {

/// How the collector accounts for a node: by a reference count, or by
/// tracing, where a node is marked or not.
#[derive(Clone, Copy, Debug, PartialEq, Eq, Structural)]
pub enum NodeType {
    RefCounted(i32),
    GC(bool),
}

/// One entry of a weak map. Each field may be address 0, which stands for
/// no object.
#[derive(Clone, Copy, Debug, PartialEq, Eq, Structural)]
pub struct WeakMapEntry {
    pub weak_map: Addr,
    pub key: Addr,
    pub key_delegate: Addr,
    pub value: Addr,
}

/// One outgoing edge of a node.
#[derive(Clone, Copy, Debug, PartialEq, Eq, Structural)]
pub struct EdgeInfo {
    pub addr: Addr,
    pub label: Atom,
}

/// A node with its outgoing edges, in the order of the log. Two edges to
/// one address are two entries.
#[derive(Debug)]
pub struct GraphNode {
    pub node_type: NodeType,
    pub label: Atom,
    pub edges: Vec<EdgeInfo>,
}

/// A node as a value: its type, its label and the sequence of its edges.
pub struct NodeView {
    pub node_type: NodeType,
    pub label: Atom,
    pub edges: Seq<EdgeInfo>,
}

impl View for GraphNode {
    type V = NodeView;

    open spec fn view(&self) -> NodeView {
        NodeView { node_type: self.node_type, label: self.label, edges: self.edges@ }
    }
}

/// The digits of the count in a type token of the form `rc=<digits>`, or
/// `None` for a token of any other form.
pub open spec fn count_digits(token: Seq<char>) -> Option<Seq<char>> {
    let digits = token.skip("rc="@.len() as int);
    if has_at(token, 0, "rc="@) && digits.len() > 0 && all_digits(digits, 10) {
        Some(digits)
    } else {
        None
    }
}

/// The count of a type token, if it has one, fits in the count's type.
pub open spec fn count_fits(token: Seq<char>) -> bool {
    match count_digits(token) {
        Some(digits) => number(digits, 10) <= i32::MAX,
        None => true,
    }
}

/// The node type that a type token denotes: `rc=<digits>` is a reference
/// count; any other token is a traced node, marked only if the token is
/// exactly `gc.marked`.
pub open spec fn node_type_of(token: Seq<char>) -> NodeType {
    match count_digits(token) {
        Some(digits) => NodeType::RefCounted(number(digits, 10) as i32),
        None => NodeType::GC(token == "gc.marked"@),
    }
}

/// Reads the type token `chars[from..to]`. Gives `None` for a reference
/// count that does not fit.
pub fn read_node_type(chars: &Vec<char>, from: usize, to: usize) -> (r: Option<NodeType>)
    requires
        from <= to <= chars.len(),
    ensures
        match r {
            Some(t) => count_fits(chars@.subrange(from as int, to as int)) && t == node_type_of(
                chars@.subrange(from as int, to as int),
            ),
            None => !count_fits(chars@.subrange(from as int, to as int)),
        },
{
    let ghost token = chars@.subrange(from as int, to as int);
    let ghost width = "rc="@.len() as int;
    proof {
        if from + width <= to {
            assert(token.subrange(0, width) =~= chars@.subrange(from as int, from + width));
            assert(token.skip(width) =~= chars@.subrange(from + width, to as int));
        }
    }
    match eat(chars, from, "rc=") {
        Some(digits_at) => {
            if digits_at <= to {
                assert(has_at(token, 0, "rc="@));
                match read_number_in(chars, digits_at, to, 10, 0x7fff_ffff) {
                    Some(count) => {
                        return Some(NodeType::RefCounted(count as i32));
                    },
                    None => {
                        if all_digits_in(chars, digits_at, to) {
                            return None;
                        }
                    },
                }
            }
        },
        None => {},
    }
    match eat(chars, from, "gc.marked") {
        Some(end) => {
            proof {
                if end == to {
                    assert(token =~= "gc.marked"@);
                }
            }
            Some(NodeType::GC(end == to))
        },
        None => {
            proof {
                if token == "gc.marked"@ {
                    assert(chars@.subrange(from as int, from + "gc.marked"@.len()) =~= token);
                }
            }
            Some(NodeType::GC(false))
        },
    }
}

/// Tests whether `chars[from..to]` is a non-empty run of decimal digits.
pub fn all_digits_in(chars: &Vec<char>, from: usize, to: usize) -> (r: bool)
    requires
        from <= to <= chars.len(),
    ensures
        r == (from < to && all_digits(chars@.subrange(from as int, to as int), 10)),
{
    let ghost part = chars@.subrange(from as int, to as int);
    let mut i: usize = from;
    while i < to
        invariant
            from <= i <= to <= chars.len(),
            part == chars@.subrange(from as int, to as int),
            forall|j: int| 0 <= j < i - from ==> (#[trigger] digit(part[j], 10)) is Some,
        decreases to - i,
    {
        let c = chars[i];
        if !('0' <= c && c <= '9') {
            assert(digit(part[i - from], 10) is None);
            return false;
        }
        assert(part[i - from] == c);
        i = i + 1;
    }
    from < to
}

impl NodeType {
    /// The node type that the type token `s` denotes.
    pub fn new(s: &str) -> (t: NodeType)
        requires
            count_fits(s@),
        ensures
            t == node_type_of(s@),
    {
        let chars = chars_of(s);
        assert(chars@.subrange(0, chars@.len() as int) =~= s@);
        match read_node_type(&chars, 0, chars.len()) {
            Some(t) => t,
            None => NodeType::GC(false),
        }
    }
}

/// The count `n` as a type token writes it: in decimal, with a minus sign
/// if it is negative.
pub open spec fn signed_decimal(n: int) -> Seq<char> {
    if n < 0 {
        "-"@ + decimal((-n) as nat)
    } else {
        decimal(n as nat)
    }
}

/// The type token that denotes the node type `t`.
pub open spec fn node_type_text(t: NodeType) -> Seq<char> {
    match t {
        NodeType::RefCounted(rc) => "rc="@ + signed_decimal(rc as int),
        NodeType::GC(marked) => if marked {
            "gc.marked"@
        } else {
            "gc"@
        },
    }
}

/// The edges `edges` as a node is shown with them: the address of each in
/// decimal, with a comma and a space behind it.
pub open spec fn edges_text(edges: Seq<EdgeInfo>) -> Seq<char>
    decreases edges.len(),
{
    if edges.len() == 0 {
        Seq::empty()
    } else {
        edges_text(edges.drop_last()) + decimal(edges.last().addr as nat) + ", "@
    }
}

/// The line that shows the node `node`.
pub open spec fn node_text(node: NodeView) -> Seq<char> {
    "type: "@ + node_type_text(node.node_type) + " edges: "@ + edges_text(node.edges) + "\n"@
}

/// The type token of a traced node, and of a node with a count that is not
/// negative, reads back as the node type.
pub proof fn law_type_token_reads_back(t: NodeType)
    requires
        t matches NodeType::RefCounted(rc) ==> rc >= 0,
    ensures
        count_fits(node_type_text(t)),
        node_type_of(node_type_text(t)) == t,
{
    reveal_strlit("rc=");
    reveal_strlit("gc");
    reveal_strlit("gc.marked");
    let text = node_type_text(t);
    match t {
        NodeType::RefCounted(rc) => {
            let digits = decimal(rc as nat);
            lemma_decimal_reads_back(rc as nat);
            assert(text.subrange(0, 3) =~= "rc="@);
            assert(text.skip(3) =~= digits);
        },
        NodeType::GC(marked) => {
            assert(text[0] == 'g');
            if has_at(text, 0, "rc="@) {
                assert(text.subrange(0, 3)[0] == 'r');
            }
        },
    }
}

impl NodeType {
    /// The type token that denotes this node type.
    pub fn text(&self) -> (s: String)
        ensures
            s@ == node_type_text(*self),
    {
        match *self {
            NodeType::RefCounted(rc) => {
                let mut s = String::from_str("rc=");
                if rc < 0 {
                    s.append("-");
                    push_decimal(&mut s, (0 - rc as i64) as u64);
                } else {
                    push_decimal(&mut s, rc as u64);
                }
                assert(s@ =~= node_type_text(*self));
                s
            },
            NodeType::GC(marked) => {
                if marked {
                    String::from_str("gc.marked")
                } else {
                    String::from_str("gc")
                }
            },
        }
    }
}

impl GraphNode {
    /// The line that shows the node: its type and the addresses of its
    /// edges.
    pub fn dump(&self) -> (s: String)
        ensures
            s@ == node_text(self@),
    {
        let mut s = String::from_str("type: ");
        s.append(self.node_type.text().as_str());
        s.append(" edges: ");
        let ghost head = s@;
        let mut i: usize = 0;
        while i < self.edges.len()
            invariant
                i <= self.edges.len(),
                head == "type: "@ + node_type_text(self.node_type) + " edges: "@,
                s@ == head + edges_text(self.edges@.take(i as int)),
            decreases self.edges.len() - i,
        {
            let ghost before = s@;
            push_decimal(&mut s, self.edges[i].addr);
            s.append(", ");
            proof {
                let part = self.edges@.take(i + 1);
                assert(part.drop_last() =~= self.edges@.take(i as int));
                assert(part.last() == self.edges@[i as int]);
                assert(s@ =~= head + edges_text(part));
            }
            i = i + 1;
        }
        assert(self.edges@.take(i as int) =~= self.edges@);
        s.append("\n");
        s
    }
}

} // verus!
