use cc_log::error::{ErrorKind, ParseError};
use cc_log::graph::CCGraph;
use cc_log::line::Line;
use cc_log::log::CCLog;
use cc_log::node::{EdgeInfo, GraphNode, NodeType, WeakMapEntry};
use cc_log::results::CCResults;

fn lines(text: &str) -> Vec<String> {
    text.split('\n').map(|l| l.to_string()).collect()
}

fn parse(text: &str) -> Result<CCLog, ParseError> {
    CCLog::parse(&lines(text))
}

#[test]
fn weak_map_entry_with_nil_fields() {
    let mut g = CCGraph::new();
    let line = g
        .parse_line("WeakMapEntry map=(nil) key=0x5 keyDelegate=(nil) value=0x9")
        .unwrap();
    assert_eq!(line, Line::WeakMap(0, 5, 0, 9));
}

#[test]
fn small_log_with_graph_and_results() {
    let log = parse("5 [rc=3] Foo\n> 6 edge1\n> 6 edge1\n==========\n5 [garbage]\n6 [known=2]")
        .unwrap();
    assert_eq!(log.graph.nodes.len(), 1);
    let node = log.graph.nodes.get(&5).unwrap();
    assert_eq!(node.node_type, NodeType::RefCounted(3));
    assert_eq!(log.graph.atom_string(&node.label), "Foo");
    assert_eq!(node.edges.len(), 2);
    assert_eq!(node.edges[0], node.edges[1]);
    assert_eq!(node.edges[0].addr, 6);
    assert_eq!(log.graph.atom_string(&node.edges[0].label), "edge1");
    assert_eq!(log.results.garbage.len(), 1);
    assert!(log.results.garbage.contains(&5));
    assert_eq!(log.results.known_edges.len(), 1);
    assert_eq!(log.results.known_edges.get(&6), Some(&2));
}

#[test]
fn unrecognized_line_stops_the_parse() {
    let e = parse("5 [gc] a\ngarbage truck\n6 [gc] b").unwrap_err();
    assert_eq!(e.kind, ErrorKind::UnrecognizedLine);
    assert_eq!(e.line, 2);
    assert_eq!(e.text, "garbage truck");
}

#[test]
fn last_known_count_wins() {
    let log = parse("==========\n6 [known=2]\n7 [known=9]\n6 [known=5]").unwrap();
    assert_eq!(log.results.known_edges.get(&6), Some(&5));
    assert_eq!(log.results.known_edges.get(&7), Some(&9));
    assert_eq!(log.results.known_edges.len(), 2);
}

#[test]
fn edge_before_any_node() {
    let e = parse("# header\n> 6 edge1\n5 [gc] a").unwrap_err();
    assert_eq!(e.kind, ErrorKind::EdgeWithoutNode);
    assert_eq!(e.line, 2);
    assert_eq!(e.text, "> 6 edge1");
}

#[test]
fn node_defined_twice() {
    let e = parse("5 [gc] a\n6 [gc] b\n5 [gc.marked] c\n> 7 x\n8 [gc] d").unwrap_err();
    assert_eq!(e.kind, ErrorKind::DuplicateNode);
    assert_eq!(e.line, 3);
    assert_eq!(e.text, "5 [gc.marked] c");
}

#[test]
fn node_defined_twice_found_at_the_separator_and_at_the_end() {
    let e = parse("5 [gc] a\n5 [gc] b\n==========").unwrap_err();
    assert_eq!((e.kind, e.line), (ErrorKind::DuplicateNode, 2));
    let e = parse("5 [gc] a\n5 [gc] b").unwrap_err();
    assert_eq!((e.kind, e.line), (ErrorKind::DuplicateNode, 2));
}

#[test]
fn edges_go_to_the_node_before_them() {
    let log = parse("a [gc] first\n> 1 x\n# note\n> 2 y\nb [gc.marked] second\nc [rc=7] third\n> 3 z")
        .unwrap();
    let g = &log.graph;
    assert_eq!(g.nodes.len(), 3);
    assert_eq!(g.nodes[&0xa].edges.len(), 2);
    assert_eq!(g.nodes[&0xb].edges.len(), 0);
    assert_eq!(g.nodes[&0xc].edges.len(), 1);
    assert_eq!(g.nodes[&0xa].node_type, NodeType::GC(false));
    assert_eq!(g.nodes[&0xb].node_type, NodeType::GC(true));
    assert_eq!(g.nodes[&0xc].node_type, NodeType::RefCounted(7));
    assert_eq!(g.nodes[&0xa].edges[1].addr, 2);
    assert_eq!(g.node_label(&0xb), Some("second".to_string()));
    assert_eq!(g.node_label(&0xd), None);
    let e: &EdgeInfo = &g.nodes[&0xc].edges[0];
    assert_eq!(g.atom_string(&e.label), "z");
}

#[test]
fn result_entry_in_the_graph_section() {
    let e = parse("5 [gc] a\n5 [garbage]").unwrap_err();
    assert_eq!((e.kind, e.line), (ErrorKind::UnexpectedLine, 2));
    let e = parse("6 [known=1]\n5 [gc] a").unwrap_err();
    assert_eq!((e.kind, e.line), (ErrorKind::UnexpectedLine, 1));
}

#[test]
fn graph_lines_in_the_results_section() {
    for (text, line) in [
        ("==========\n5 [gc] a", 2),
        ("5 [gc] a\n==========\n5 [garbage]\n> 6 e", 4),
        ("==========\nWeakMapEntry map=1 key=2 keyDelegate=3 value=4", 2),
    ] {
        let e = parse(text).unwrap_err();
        assert_eq!((e.kind, e.line), (ErrorKind::UnexpectedLine, line));
    }
}

#[test]
fn errors_of_the_results_section() {
    let e = parse("==========\n5 [odd]").unwrap_err();
    assert_eq!((e.kind, e.line, e.text.as_str()), (ErrorKind::UnknownResultTag, 2, "5 [odd]"));
    let e = parse("==========\n5 [garbage]\nzz [garbage]").unwrap_err();
    assert_eq!((e.kind, e.line), (ErrorKind::InvalidAddress, 3));
    let e = parse("==========\nsomething else").unwrap_err();
    assert_eq!((e.kind, e.line), (ErrorKind::UnrecognizedLine, 2));
}

#[test]
fn invalid_address_in_the_graph() {
    let e = parse("5 [gc] a\n> 6g e").unwrap_err();
    assert_eq!((e.kind, e.line, e.text.as_str()), (ErrorKind::InvalidAddress, 2, "> 6g e"));
}

#[test]
fn the_first_error_is_the_one_reported() {
    let e = parse("> 6 e\n5 [gc] a\n5 [gc] b\nnonsense").unwrap_err();
    assert_eq!((e.kind, e.line), (ErrorKind::EdgeWithoutNode, 1));
    let e = parse("5 [gc] a\n5 [gc] b\n> 7 x\nnonsense\n8 [gc] c").unwrap_err();
    assert_eq!((e.kind, e.line), (ErrorKind::UnrecognizedLine, 4));
}

#[test]
fn log_without_separator_has_no_results() {
    let log = parse("5 [gc] a\n> 6 e").unwrap();
    assert_eq!(log.graph.nodes.len(), 1);
    assert_eq!(log.graph.nodes[&5].edges.len(), 1);
    assert!(log.results.garbage.is_empty());
    assert!(log.results.known_edges.is_empty());
}

#[test]
fn empty_logs() {
    let log = CCLog::parse(&Vec::new()).unwrap();
    assert!(log.graph.nodes.is_empty());
    assert!(log.graph.weak_map_entries.is_empty());
    assert!(log.graph.incr_roots.is_empty());
    assert!(log.results.garbage.is_empty());
    let log = parse("==========").unwrap();
    assert!(log.graph.nodes.is_empty());
    let log = parse("# only\n# comments").unwrap();
    assert!(log.graph.nodes.is_empty());
    let e = parse("").unwrap_err();
    assert_eq!((e.kind, e.line, e.text.as_str()), (ErrorKind::UnrecognizedLine, 1, ""));
}

#[test]
fn separators_and_comments_among_the_results() {
    let log = parse("5 [gc] a\n==========\n# results\n5 [garbage]\n==========\n5 [garbage]\n7 [garbage]")
        .unwrap();
    assert_eq!(log.results.garbage.len(), 2);
    assert!(log.results.garbage.contains(&5));
    assert!(log.results.garbage.contains(&7));
}

#[test]
fn garbage_need_not_be_a_node() {
    let log = parse("5 [gc] a\n==========\n99 [garbage]\n98 [known=1]").unwrap();
    assert!(log.results.garbage.contains(&0x99));
    assert_eq!(log.results.known_edges.get(&0x98), Some(&1));
    assert!(!log.graph.nodes.contains_key(&0x99));
}

#[test]
fn weak_map_entries_keep_their_order() {
    let log = parse(
        "WeakMapEntry map=1 key=2 keyDelegate=3 value=4\n5 [gc] a\nWeakMapEntry map=(nil) key=5 keyDelegate=(nil) value=9\n> 6 e",
    )
    .unwrap();
    assert_eq!(
        log.graph.weak_map_entries,
        vec![
            WeakMapEntry { weak_map: 1, key: 2, key_delegate: 3, value: 4 },
            WeakMapEntry { weak_map: 0, key: 5, key_delegate: 0, value: 9 },
        ]
    );
    assert_eq!(log.graph.nodes[&5].edges.len(), 1);
}

#[test]
fn edges_may_dangle_and_repeat() {
    let log = parse("5 [gc] a\n> 5 self\n> 77 gone\n> 77 gone\n> 77 other").unwrap();
    let node = &log.graph.nodes[&5];
    let targets: Vec<u64> = node.edges.iter().map(|e| e.addr).collect();
    assert_eq!(targets, vec![5, 0x77, 0x77, 0x77]);
    assert_eq!(node.edges[1], node.edges[2]);
    assert_ne!(node.edges[2], node.edges[3]);
    assert!(!log.graph.nodes.contains_key(&0x77));
}

#[test]
fn equal_labels_share_a_handle() {
    let log = parse("5 [gc] same\n> 6 same\n6 [gc] other\n> 5 same").unwrap();
    let g = &log.graph;
    assert_eq!(g.nodes[&5].label, g.nodes[&5].edges[0].label);
    assert_eq!(g.nodes[&5].label, g.nodes[&6].edges[0].label);
    assert_ne!(g.nodes[&5].label, g.nodes[&6].label);
    assert_eq!(g.atoms.len(), 2);
}

#[test]
fn reading_twice_gives_the_same() {
    let text = "a [gc] first\n> 1 x\nb [rc=2] second\n> a back\nWeakMapEntry map=1 key=2 keyDelegate=3 value=4\n==========\na [garbage]\nb [known=2]";
    let one = parse(text).unwrap();
    let two = parse(text).unwrap();
    assert_eq!(one.dump(), two.dump());
    assert_eq!(one.graph.weak_map_entries, two.graph.weak_map_entries);
    assert_eq!(one.results.garbage, two.results.garbage);
    assert_eq!(one.results.known_edges, two.results.known_edges);
    for (addr, node) in one.graph.nodes.iter() {
        let other = &two.graph.nodes[addr];
        assert_eq!(node.node_type, other.node_type);
        assert_eq!(node.label, other.label);
        assert_eq!(node.edges, other.edges);
    }
    assert_eq!(one.graph.nodes.len(), two.graph.nodes.len());
    let bad = "a [gc] first\nb [gc] second\nnope";
    let (e1, e2) = (parse(bad).unwrap_err(), parse(bad).unwrap_err());
    assert_eq!((e1.kind, e1.line, e1.text), (e2.kind, e2.line, e2.text));
}

#[test]
fn graph_section_ends_behind_the_separator() {
    let all = lines("5 [gc] a\n> 6 e\n==========\n5 [garbage]");
    let (graph, next) = CCGraph::parse(&all).ok().unwrap();
    assert_eq!(next, 3);
    assert_eq!(graph.nodes.len(), 1);
    let (graph, next) = CCGraph::parse(&lines("5 [gc] a\n> 6 e")).ok().unwrap();
    assert_eq!(next, 2);
    assert_eq!(graph.nodes[&5].edges.len(), 1);
}

#[test]
fn results_leave_the_graph_alone() {
    let all = lines("5 [gc] a\n==========\n5 [garbage]\n6 [known=4]");
    let (mut graph, next) = CCGraph::parse(&all).ok().unwrap();
    let results = CCResults::parse(&all, next, &mut graph).ok().unwrap();
    assert_eq!(graph.nodes.len(), 1);
    assert_eq!(graph.atoms.len(), 1);
    assert_eq!(results.known_edges.get(&6), Some(&4));
    let none = CCResults::parse(&all, all.len(), &mut graph).ok().unwrap();
    assert!(none.garbage.is_empty());
}

#[test]
fn feeding_the_graph_line_by_line() {
    let mut g = CCGraph::new();
    let mut open: Option<(u64, GraphNode)> = None;
    for (text, ends) in [("5 [rc=1] a", false), ("> 6 e", false), ("# c", false), ("==========", true)] {
        let line = g.parse_line(text).unwrap();
        let (now_open, ended) = g.feed(open, line).unwrap();
        assert_eq!(ended, ends);
        open = now_open;
    }
    assert!(open.is_none());
    assert_eq!(g.nodes[&5].edges, vec![EdgeInfo { addr: 6, label: g.nodes[&5].edges[0].label }]);
    let line = g.parse_line("> 6 e").unwrap();
    assert_eq!(g.feed(None, line).err(), Some(ErrorKind::EdgeWithoutNode));
    let line = g.parse_line("5 [garbage]").unwrap();
    assert_eq!(g.feed(None, line).err(), Some(ErrorKind::UnexpectedLine));
}

#[test]
fn adding_a_node_twice() {
    let mut g = CCGraph::new();
    let label = g.atomize_label("a");
    let node = |n: i32| GraphNode { node_type: NodeType::RefCounted(n), label, edges: Vec::new() };
    assert_eq!(g.add_node(None), Ok(()));
    assert_eq!(g.add_node(Some((5, node(1)))), Ok(()));
    assert_eq!(g.add_node(Some((5, node(2)))), Err(ErrorKind::DuplicateNode));
    assert_eq!(g.nodes[&5].node_type, NodeType::RefCounted(1));
    assert_eq!(g.add_node(Some((6, node(3)))), Ok(()));
    assert_eq!(g.nodes.len(), 2);
}

#[test]
fn feeding_the_results_line_by_line() {
    let mut r = CCResults::new();
    assert_eq!(r.feed(Line::Garbage(5)), Ok(()));
    assert_eq!(r.feed(Line::Garbage(5)), Ok(()));
    assert_eq!(r.feed(Line::KnownEdge(6, 1)), Ok(()));
    assert_eq!(r.feed(Line::KnownEdge(6, 8)), Ok(()));
    assert_eq!(r.feed(Line::Comment), Ok(()));
    assert_eq!(r.feed(Line::Separator), Ok(()));
    assert_eq!(r.feed(Line::WeakMap(1, 2, 3, 4)), Err(ErrorKind::UnexpectedLine));
    assert_eq!(r.garbage.len(), 1);
    assert_eq!(r.known_edges.get(&6), Some(&8));
}

#[test]
fn error_at_a_line() {
    let all = lines("a\nb\nc");
    let e = ParseError::at_line(ErrorKind::UnrecognizedLine, &all, 1);
    assert_eq!((e.kind, e.line, e.text.as_str()), (ErrorKind::UnrecognizedLine, 2, "b"));
}

#[test]
fn looking_things_up() {
    let log = parse("a [gc] first\n> 1 x\nb [rc=2] second\n==========\na [garbage]\nb [known=2]").unwrap();
    assert_eq!(log.graph.node(&0xa).map(|n| n.edges.len()), Some(1));
    assert_eq!(log.graph.node(&0xb).map(|n| n.node_type), Some(NodeType::RefCounted(2)));
    assert!(log.graph.node(&1).is_none());
    let mut addrs = log.graph.node_addrs();
    addrs.sort();
    assert_eq!(addrs, vec![0xa, 0xb]);
    assert!(log.results.is_garbage(&0xa));
    assert!(!log.results.is_garbage(&0xb));
    assert_eq!(log.results.known_count(&0xb), Some(2));
    assert_eq!(log.results.known_count(&0xa), None);
}

#[test]
fn error_messages() {
    let e = parse("5 [gc] a\ngarbage truck").unwrap_err();
    assert_eq!(e.message(), "line 2: unrecognized line: garbage truck");
    assert_eq!(ErrorKind::InvalidAddress.describe(), "invalid address");
    assert_eq!(ErrorKind::UnknownResultTag.describe(), "unknown result tag");
    assert_eq!(ErrorKind::DuplicateNode.describe(), "node defined twice");
    assert_eq!(ErrorKind::EdgeWithoutNode.describe(), "edge without a node");
    assert_eq!(ErrorKind::UnexpectedLine.describe(), "line in the wrong section");
}

#[test]
fn large_log() {
    let mut all = Vec::new();
    for n in 0..20000u64 {
        all.push(format!("0x{:x} [rc={}] JS Object (Function - f{})", 0x7f00_0000 + n, n % 7, n));
        for e in 0..3 {
            all.push(format!("> 0x{:x} field{}", 0x7f00_0000 + (n + e) % 20000, e));
        }
    }
    all.push("==========".to_string());
    for n in 0..20000u64 {
        all.push(format!("0x{:x} [known={}]", 0x7f00_0000 + n, n));
        if n % 2 == 0 {
            all.push(format!("0x{:x} [garbage]", 0x7f00_0000 + n));
        }
    }
    let log = CCLog::parse(&all).unwrap();
    assert_eq!(log.graph.nodes.len(), 20000);
    assert_eq!(log.graph.atoms.len(), 20003);
    assert_eq!(log.results.garbage.len(), 10000);
    assert_eq!(log.results.known_edges.len(), 20000);
    let node = &log.graph.nodes[&0x7f00_0007];
    assert_eq!(node.node_type, NodeType::RefCounted(0));
    assert_eq!(log.graph.atom_string(&node.label), "JS Object (Function - f7)");
    let targets: Vec<u64> = node.edges.iter().map(|e| e.addr).collect();
    assert_eq!(targets, vec![0x7f00_0007, 0x7f00_0008, 0x7f00_0009]);
    assert_eq!(log.results.known_edges[&0x7f00_4e1f], 19999);
}
