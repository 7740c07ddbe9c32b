use cc_log::error::ErrorKind;
use cc_log::graph::CCGraph;
use cc_log::line::Line;
use cc_log::node::NodeType;
use regex::Regex;

/// The line grammar written as regular expressions.
struct Patterns {
    edge: Regex,
    node: Regex,
    result: Regex,
    weak_map: Regex,
    known: Regex,
}

fn patterns() -> Patterns {
    let field = r"((?:0x)?[a-zA-Z0-9]+|\(nil\))";
    Patterns {
        edge: Regex::new(r"^> ([a-zA-Z0-9]+) ([^\r\n]*)").unwrap(),
        node: Regex::new(r"^([a-zA-Z0-9]+) \[(rc=[0-9]+|gc(?:\.marked)?)\] ([^\r\n]*)").unwrap(),
        result: Regex::new(r"^([a-zA-Z0-9]+) \[([a-z0-9=]+)\]").unwrap(),
        weak_map: Regex::new(&format!(
            "^WeakMapEntry map={} key={} keyDelegate={} value={}",
            field, field, field, field
        ))
        .unwrap(),
        known: Regex::new(r"^known=([0-9]+)$").unwrap(),
    }
}

fn addr(token: &str) -> Result<u64, ErrorKind> {
    let digits = token.strip_prefix("0x").unwrap_or(token);
    u64::from_str_radix(digits, 16).map_err(|_| ErrorKind::InvalidAddress)
}

fn field(token: &str) -> Result<u64, ErrorKind> {
    if token == "(nil)" {
        Ok(0)
    } else {
        addr(token)
    }
}

fn expected(p: &Patterns, line: &str) -> Result<Line<String>, ErrorKind> {
    if let Some(c) = p.edge.captures(line) {
        return Ok(Line::Edge(addr(&c[1])?, c[2].to_string()));
    }
    if let Some(c) = p.node.captures(line) {
        let a = addr(&c[1])?;
        let node_type = match c[2].strip_prefix("rc=") {
            Some(count) => NodeType::RefCounted(count.parse().map_err(|_| ErrorKind::UnrecognizedLine)?),
            None => NodeType::GC(&c[2] == "gc.marked"),
        };
        return Ok(Line::Node(a, node_type, c[3].to_string()));
    }
    if let Some(c) = p.result.captures(line) {
        let a = addr(&c[1])?;
        if c[2].contains("garbage") {
            return Ok(Line::Garbage(a));
        }
        return match p.known.captures(&c[2]) {
            Some(k) => k[1].parse().map(|n| Line::KnownEdge(a, n)).map_err(|_| ErrorKind::UnknownResultTag),
            None => Err(ErrorKind::UnknownResultTag),
        };
    }
    if let Some(c) = p.weak_map.captures(line) {
        return Ok(Line::WeakMap(field(&c[1])?, field(&c[2])?, field(&c[3])?, field(&c[4])?));
    }
    if line.starts_with('#') {
        return Ok(Line::Comment);
    }
    if line.starts_with("==========") {
        return Ok(Line::Separator);
    }
    Err(ErrorKind::UnrecognizedLine)
}

fn found(line: &str) -> Result<Line<String>, ErrorKind> {
    let mut g = CCGraph::new();
    Ok(match g.parse_line(line)? {
        Line::Node(a, t, label) => Line::Node(a, t, g.atom_string(&label)),
        Line::Edge(a, label) => Line::Edge(a, g.atom_string(&label)),
        Line::WeakMap(m, k, d, v) => Line::WeakMap(m, k, d, v),
        Line::Comment => Line::Comment,
        Line::Separator => Line::Separator,
        Line::Garbage(a) => Line::Garbage(a),
        Line::KnownEdge(a, n) => Line::KnownEdge(a, n),
    })
}

#[test]
fn scanner_agrees_with_the_patterns_on_plain_lines() {
    let p = patterns();
    let lines = [
        "0x7f1c2a40 [rc=2] nsGlobalWindow # 17 inner https://example.org/",
        "> 0x7f1c2a41 mDocument",
        "> 0x7f1c2a42 ",
        "7F1C2A40 [gc] JS Object (Function - onload)",
        "7f1c2a43 [gc.marked] JS Object (Call)\r",
        "WeakMapEntry map=0x7f00 key=0x7f01 keyDelegate=(nil) value=0x7f02",
        "WeakMapEntry map=(nil) key=0x5 keyDelegate=(nil) value=0x9",
        "WeakMapEntry map=(nil) key=(nil) keyDelegate=(nil) value=(nil)",
        "# cc log",
        "==========",
        "0x7f1c2a40 [garbage]",
        "0x7f1c2a41 [known=3]",
        "garbage truck",
        "",
        "0x7f1c2a41 [known=3 ]",
        "5 [rc=4294967296] big",
        "5 [known=99999999999999999999999]",
        "10000000000000000 [gc] wide",
        "0x [gc] short",
        "5 [gc] caf\u{e9} \u{1f600}",
    ];
    for line in lines {
        assert_eq!(found(line), expected(&p, line), "line {:?}", line);
    }
}

#[test]
fn scanner_agrees_with_the_patterns_on_mixed_lines() {
    let p = patterns();
    let parts = [
        "> ", "0x", "5", "ff", "zz", "G", " ", " [", "] ", "]", "[", "rc=", "gc", ".marked", "12",
        "99999999999", "garbage", "known=", "=", "#", "==========", "WeakMapEntry map=", "(nil)",
        " key=", " keyDelegate=", " value=", "\r", "\n", "x y", "18446744073709551616", "\u{e9}",
    ];
    let mut state: u64 = 0x9e37_79b9_7f4a_7c15;
    let mut next = |bound: usize| {
        state = state.wrapping_mul(6364136223846793005).wrapping_add(1442695040888963407);
        ((state >> 33) as usize) % bound
    };
    for _ in 0..40000 {
        let mut line = String::new();
        for _ in 0..(1 + next(9)) {
            line.push_str(parts[next(parts.len())]);
        }
        assert_eq!(found(&line), expected(&p, &line), "line {:?}", line);
    }
}

#[test]
fn scanner_agrees_with_the_patterns_on_near_misses() {
    let p = patterns();
    let good = [
        "> 0xab12 some label here",
        "0xab12 [rc=17] some label here",
        "0xab12 [gc.marked] some label here",
        "0xab12 [garbage]",
        "0xab12 [known=17]",
        "WeakMapEntry map=0xab key=(nil) keyDelegate=0xcd value=0xef",
    ];
    let fill = ['x', ' ', '0', '=', ']', '[', '.', '(', '\r', 'g'];
    for line in good {
        let chars: Vec<char> = line.chars().collect();
        for at in 0..=chars.len() {
            let mut cut: String = chars[..at].iter().collect();
            assert_eq!(found(&cut), expected(&p, &cut), "line {:?}", cut);
            if at < chars.len() {
                let dropped: String = chars[..at].iter().chain(chars[at + 1..].iter()).collect();
                assert_eq!(found(&dropped), expected(&p, &dropped), "line {:?}", dropped);
                for c in fill {
                    let mut changed = chars.clone();
                    changed[at] = c;
                    let changed: String = changed.into_iter().collect();
                    assert_eq!(found(&changed), expected(&p, &changed), "line {:?}", changed);
                }
            }
            cut.push('x');
            assert_eq!(found(&cut), expected(&p, &cut), "line {:?}", cut);
        }
    }
}
