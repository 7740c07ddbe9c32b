use cc_log::error::ErrorKind;
use cc_log::graph::CCGraph;
use cc_log::line::{scan_line, Line, ParsedLine};
use cc_log::node::NodeType;

fn classify(line: &str) -> Result<ParsedLine, ErrorKind> {
    CCGraph::new().parse_line(line)
}

fn scan(line: &str) -> Result<Line<(usize, usize)>, ErrorKind> {
    let chars: Vec<char> = line.chars().collect();
    scan_line(&chars)
}

fn label_of(line: &str) -> String {
    let mut g = CCGraph::new();
    match g.parse_line(line).unwrap() {
        Line::Node(_, _, label) => g.atom_string(&label),
        Line::Edge(_, label) => g.atom_string(&label),
        other => panic!("no label in {:?}", other),
    }
}

#[test]
fn edge_line() {
    assert_eq!(scan("> 0x7f3a edge name"), Ok(Line::Edge(0x7f3a, (9, 18))));
    assert_eq!(label_of("> 0x7f3a edge name"), "edge name");
    assert_eq!(label_of("> 6 "), "");
    assert_eq!(scan("> 6 "), Ok(Line::Edge(6, (4, 4))));
}

#[test]
fn edge_line_needs_its_space() {
    assert_eq!(classify("> 6"), Err(ErrorKind::UnrecognizedLine));
    assert_eq!(classify(">6 x"), Err(ErrorKind::UnrecognizedLine));
    assert_eq!(classify(">  6 x"), Err(ErrorKind::UnrecognizedLine));
}

#[test]
fn node_lines() {
    assert_eq!(scan("5 [rc=3] Foo"), Ok(Line::Node(5, NodeType::RefCounted(3), (9, 12))));
    assert_eq!(scan("0xAbC [gc] JS Object"), Ok(Line::Node(0xabc, NodeType::GC(false), (11, 20))));
    assert_eq!(scan("abc [gc.marked] x"), Ok(Line::Node(0xabc, NodeType::GC(true), (16, 17))));
    assert_eq!(label_of("5 [rc=3] Foo (bar) [baz]"), "Foo (bar) [baz]");
    assert_eq!(label_of("5 [gc] "), "");
}

#[test]
fn label_stops_at_a_carriage_return() {
    assert_eq!(label_of("5 [rc=3] Foo\r"), "Foo");
    assert_eq!(label_of("> 5 bar\rbaz"), "bar");
    assert_eq!(label_of("> 5 caf\u{e9} \u{2603}\r"), "caf\u{e9} \u{2603}");
}

#[test]
fn node_line_without_label_is_a_result_entry() {
    assert_eq!(classify("5 [gc]"), Err(ErrorKind::UnknownResultTag));
    assert_eq!(classify("5 [rc=3]"), Err(ErrorKind::UnknownResultTag));
}

#[test]
fn type_token_must_be_exact() {
    assert_eq!(classify("5 [gc.marke] x"), Err(ErrorKind::UnrecognizedLine));
    assert_eq!(classify("5 [gc_marked] x"), Err(ErrorKind::UnrecognizedLine));
    assert_eq!(classify("5 [gcxmarked] x"), Err(ErrorKind::UnknownResultTag));
    assert_eq!(classify("5 [rc=] x"), Err(ErrorKind::UnknownResultTag));
    assert_eq!(classify("5 [rc=1a] x"), Err(ErrorKind::UnknownResultTag));
    assert_eq!(classify("5 [RC=1] x"), Err(ErrorKind::UnrecognizedLine));
}

#[test]
fn reference_count_bounds() {
    assert_eq!(
        classify("5 [rc=2147483647] x").map(|l| matches!(l, Line::Node(5, NodeType::RefCounted(2147483647), _))),
        Ok(true)
    );
    assert_eq!(classify("5 [rc=2147483648] x"), Err(ErrorKind::UnrecognizedLine));
    assert_eq!(
        classify("5 [rc=000000000000000000007] x").map(|l| matches!(l, Line::Node(5, NodeType::RefCounted(7), _))),
        Ok(true)
    );
}

#[test]
fn result_entries() {
    assert_eq!(classify("5 [garbage]"), Ok(Line::Garbage(5)));
    assert_eq!(classify("0x1f [garbage] and more"), Ok(Line::Garbage(0x1f)));
    assert_eq!(classify("5 [xgarbage9]"), Ok(Line::Garbage(5)));
    assert_eq!(classify("6 [known=2]"), Ok(Line::KnownEdge(6, 2)));
    assert_eq!(classify("6 [known=18446744073709551615]"), Ok(Line::KnownEdge(6, u64::MAX)));
    assert_eq!(classify("6 [known=garbage]"), Ok(Line::Garbage(6)));
}

#[test]
fn result_entries_with_a_bad_tag() {
    assert_eq!(classify("6 [known=18446744073709551616]"), Err(ErrorKind::UnknownResultTag));
    assert_eq!(classify("6 [known=]"), Err(ErrorKind::UnknownResultTag));
    assert_eq!(classify("6 [known=2x]"), Err(ErrorKind::UnknownResultTag));
    assert_eq!(classify("6 [known]"), Err(ErrorKind::UnknownResultTag));
    assert_eq!(classify("6 [unknown=2]"), Err(ErrorKind::UnknownResultTag));
    assert_eq!(classify("6 [garbag]"), Err(ErrorKind::UnknownResultTag));
    assert_eq!(classify("6 [Garbage]"), Err(ErrorKind::UnrecognizedLine));
    assert_eq!(classify("6 []"), Err(ErrorKind::UnrecognizedLine));
    assert_eq!(classify("6 [garbage"), Err(ErrorKind::UnrecognizedLine));
}

#[test]
fn weak_map_entries() {
    assert_eq!(
        classify("WeakMapEntry map=0x10 key=0x20 keyDelegate=0x30 value=0x40"),
        Ok(Line::WeakMap(0x10, 0x20, 0x30, 0x40))
    );
    assert_eq!(
        classify("WeakMapEntry map=10 key=(nil) keyDelegate=ff value=(nil)\r"),
        Ok(Line::WeakMap(0x10, 0, 0xff, 0))
    );
    assert_eq!(
        classify("WeakMapEntry map=(nil) key=(nil) keyDelegate=(nil) value=7 trailing"),
        Ok(Line::WeakMap(0, 0, 0, 7))
    );
}

#[test]
fn weak_map_entries_that_are_none() {
    assert_eq!(
        classify("WeakMapEntry map=1 key=2 keyDelegate=3"),
        Err(ErrorKind::UnrecognizedLine)
    );
    assert_eq!(
        classify("WeakMapEntry map=1 key=2 keydelegate=3 value=4"),
        Err(ErrorKind::UnrecognizedLine)
    );
    assert_eq!(
        classify("WeakMapEntry map= key=2 keyDelegate=3 value=4"),
        Err(ErrorKind::UnrecognizedLine)
    );
    assert_eq!(
        classify("WeakMapEntry map=1  key=2 keyDelegate=3 value=4"),
        Err(ErrorKind::UnrecognizedLine)
    );
    assert_eq!(
        classify("WeakMapEntry map=1 key=2 keyDelegate=3 value="),
        Err(ErrorKind::UnrecognizedLine)
    );
    assert_eq!(
        classify("WeakMapEntry map=1 key=zz keyDelegate=3 value=4"),
        Err(ErrorKind::InvalidAddress)
    );
    assert_eq!(
        classify("WeakMapEntry map=1 key=2 keyDelegate=3 value=nil"),
        Err(ErrorKind::InvalidAddress)
    );
}

#[test]
fn comments_and_separators() {
    assert_eq!(classify("# anything"), Ok(Line::Comment));
    assert_eq!(classify("#"), Ok(Line::Comment));
    assert_eq!(classify("=========="), Ok(Line::Separator));
    assert_eq!(classify("============ more"), Ok(Line::Separator));
    assert_eq!(classify("========="), Err(ErrorKind::UnrecognizedLine));
    assert_eq!(classify(" # indented"), Err(ErrorKind::UnrecognizedLine));
}

#[test]
fn lines_of_no_shape() {
    assert_eq!(classify("garbage truck"), Err(ErrorKind::UnrecognizedLine));
    assert_eq!(classify(""), Err(ErrorKind::UnrecognizedLine));
    assert_eq!(classify(" "), Err(ErrorKind::UnrecognizedLine));
    assert_eq!(classify("5"), Err(ErrorKind::UnrecognizedLine));
    assert_eq!(classify("5 gc x"), Err(ErrorKind::UnrecognizedLine));
}

#[test]
fn addresses_that_are_none() {
    assert_eq!(classify("xyz [gc] a"), Err(ErrorKind::InvalidAddress));
    assert_eq!(classify("> 12g4 a"), Err(ErrorKind::InvalidAddress));
    assert_eq!(classify("0x [gc] a"), Err(ErrorKind::InvalidAddress));
    assert_eq!(classify("0x0x5 [gc] a"), Err(ErrorKind::InvalidAddress));
    assert_eq!(classify("0X5 [gc] a"), Err(ErrorKind::InvalidAddress));
    assert_eq!(classify("10000000000000000 [garbage]"), Err(ErrorKind::InvalidAddress));
    assert_eq!(classify("ffffffffffffffff [garbage]"), Ok(Line::Garbage(u64::MAX)));
    assert_eq!(classify("0x00000000000000000000ff [garbage]"), Ok(Line::Garbage(255)));
}

#[test]
fn address_is_read_before_the_rest() {
    assert_eq!(classify("zz [rc=99999999999] x"), Err(ErrorKind::InvalidAddress));
    assert_eq!(classify("zz [nonsense]"), Err(ErrorKind::InvalidAddress));
}

#[test]
fn atomize_addr_reads_hexadecimal() {
    let mut g = CCGraph::new();
    assert_eq!(g.atomize_addr("ff"), Ok(255));
    assert_eq!(g.atomize_addr("0xff"), Ok(255));
    assert_eq!(g.atomize_addr("DeadBeef"), Ok(0xdead_beef));
    assert_eq!(g.atomize_addr("0"), Ok(0));
    assert_eq!(g.atomize_addr(""), Err(ErrorKind::InvalidAddress));
    assert_eq!(g.atomize_addr("0x"), Err(ErrorKind::InvalidAddress));
    assert_eq!(g.atomize_addr("+5"), Err(ErrorKind::InvalidAddress));
    assert_eq!(g.atomize_addr("(nil)"), Err(ErrorKind::InvalidAddress));
    assert_eq!(g.atomize_addr("5 "), Err(ErrorKind::InvalidAddress));
}

#[test]
fn atomize_weakmap_addr_knows_nil() {
    let mut g = CCGraph::new();
    assert_eq!(g.atomize_weakmap_addr("(nil)"), Ok(0));
    assert_eq!(g.atomize_weakmap_addr("0x9"), Ok(9));
    assert_eq!(g.atomize_weakmap_addr("(nil"), Err(ErrorKind::InvalidAddress));
    assert_eq!(g.atomize_weakmap_addr("nil"), Err(ErrorKind::InvalidAddress));
}

#[test]
fn an_error_leaves_the_label_table_alone() {
    let mut g = CCGraph::new();
    assert!(g.parse_line("zz [gc] fresh label").is_err());
    assert_eq!(g.atoms.len(), 0);
    assert!(g.parse_line("5 [gc] fresh label").is_ok());
    assert_eq!(g.atoms.len(), 1);
    assert!(g.parse_line("6 [gc] fresh label").is_ok());
    assert_eq!(g.atoms.len(), 1);
}
