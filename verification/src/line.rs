//! The grammar of a log line: what each kind of line looks like, which
//! values it carries, and a scanner that is proved to follow the grammar.
//!
//! A line is tried against the kinds in a fixed order: edge, node, result
//! entry, weak-map entry, comment, separator. The first kind whose shape the
//! line has decides; a line of no shape is an error. Nothing in a shape has
//! to reach the end of the line: what follows a complete shape is ignored.

use vstd::prelude::*;
use crate::addr::{
    addr_of, read_addr_in, read_number, read_number_in, read_weak_map_addr_in, weak_map_addr_of,
    Addr,
};
use crate::atoms::{intern, Atom};
use crate::error::ErrorKind;
use crate::node::{count_fits, node_type_of, read_node_type, NodeType};
use crate::text::{contains_text, eat, find_text, has_at, run_end, scan, CharClass};

verus! {

/// A classified line. `L` is what stands for a label: its text, the range
/// of the line that holds it, or its handle.
#[derive(Debug, PartialEq, Eq)]
pub enum Line<L> {
    Node(Addr, NodeType, L),
    Edge(Addr, L),
    WeakMap(Addr, Addr, Addr, Addr),
    Comment,
    Separator,
    Garbage(Addr),
    KnownEdge(Addr, u64),
}

/// A classified line whose labels are interned.
pub type ParsedLine = Line<Atom>;

/// A classified line whose labels are written out.
pub type LineForm = Line<Seq<char>>;

/// A classified line whose labels are ranges of the line's characters.
pub type ScannedLine = Line<(usize, usize)>;

/// What a line is, or why it is none, if it has the shape that was tried;
/// `None` if it has not.
pub type Tried<L> = Option<Result<Line<L>, ErrorKind>>;

/// The label that starts at `at`: all that follows up to a carriage return,
/// a line feed or the end of the line.
pub open spec fn label_at(s: Seq<char>, at: int) -> Seq<char> {
    s.subrange(at, run_end(s, at, CharClass::Label))
}

/// An edge line: `> `, an address token, one space, the label.
pub open spec fn edge_form(s: Seq<char>) -> Tried<Seq<char>> {
    let addr_at = "> "@.len() as int;
    let addr_end = run_end(s, addr_at, CharClass::Alnum);
    if has_at(s, 0, "> "@) && addr_end > addr_at && has_at(s, addr_end, " "@) {
        Some(
            match addr_of(s.subrange(addr_at, addr_end)) {
                Some(addr) => Ok(Line::Edge(addr, label_at(s, addr_end + " "@.len()))),
                None => Err(ErrorKind::InvalidAddress),
            },
        )
    } else {
        None
    }
}

/// Where the type token that starts at `at` ends: behind the digits of
/// `rc=<digits>`, behind `gc.marked`, or behind `gc`.
pub open spec fn type_token_end(s: Seq<char>, at: int) -> Option<int> {
    if has_at(s, at, "rc="@) {
        let digits_at = at + "rc="@.len();
        let end = run_end(s, digits_at, CharClass::Digit);
        if end > digits_at {
            Some(end)
        } else {
            None
        }
    } else if has_at(s, at, "gc.marked"@) {
        Some(at + "gc.marked"@.len())
    } else if has_at(s, at, "gc"@) {
        Some(at + "gc"@.len())
    } else {
        None
    }
}

/// A node line: an address token, ` [`, a type token, `] `, the label. A
/// reference count that does not fit makes the line unrecognized.
pub open spec fn node_form(s: Seq<char>) -> Tried<Seq<char>> {
    let addr_end = run_end(s, 0, CharClass::Alnum);
    let type_at = addr_end + " ["@.len();
    if addr_end > 0 && has_at(s, addr_end, " ["@) {
        match type_token_end(s, type_at) {
            Some(type_end) => {
                if has_at(s, type_end, "] "@) {
                    let token = s.subrange(type_at, type_end);
                    Some(
                        match addr_of(s.subrange(0, addr_end)) {
                            Some(addr) => {
                                if count_fits(token) {
                                    Ok(
                                        Line::Node(
                                            addr,
                                            node_type_of(token),
                                            label_at(s, type_end + "] "@.len()),
                                        ),
                                    )
                                } else {
                                    Err(ErrorKind::UnrecognizedLine)
                                }
                            },
                            None => Err(ErrorKind::InvalidAddress),
                        },
                    )
                } else {
                    None
                }
            },
            None => None,
        }
    } else {
        None
    }
}

/// What the tag of a result entry says of the object at `addr`: garbage if
/// the tag holds `garbage`; else a known count if the tag is `known=` and a
/// decimal number that fits in 64 bits.
pub open spec fn tag_form(addr: Addr, tag: Seq<char>) -> Result<LineForm, ErrorKind> {
    if contains_text(tag, "garbage"@) {
        Ok(Line::Garbage(addr))
    } else if has_at(tag, 0, "known="@) {
        match read_number(tag.skip("known="@.len() as int), 10, u64::MAX as nat) {
            Some(count) => Ok(Line::KnownEdge(addr, count as u64)),
            None => Err(ErrorKind::UnknownResultTag),
        }
    } else {
        Err(ErrorKind::UnknownResultTag)
    }
}

/// A result entry: an address token, ` [`, a tag of lower-case letters,
/// digits and `=`, then `]`.
pub open spec fn result_form(s: Seq<char>) -> Tried<Seq<char>> {
    let addr_end = run_end(s, 0, CharClass::Alnum);
    let tag_at = addr_end + " ["@.len();
    let tag_end = run_end(s, tag_at, CharClass::Tag);
    if addr_end > 0 && has_at(s, addr_end, " ["@) && tag_end > tag_at && has_at(s, tag_end, "]"@) {
        Some(
            match addr_of(s.subrange(0, addr_end)) {
                Some(addr) => tag_form(addr, s.subrange(tag_at, tag_end)),
                None => Err(ErrorKind::InvalidAddress),
            },
        )
    } else {
        None
    }
}

/// Where the field of a weak-map entry that starts at `at` ends: behind
/// `(nil)`, or behind an address token.
pub open spec fn field_end(s: Seq<char>, at: int) -> int {
    if has_at(s, at, "(nil)"@) {
        at + "(nil)"@.len()
    } else {
        run_end(s, at, CharClass::Alnum)
    }
}

/// The weak-map entry with the four fields given as text.
pub open spec fn weak_map_of(
    map: Seq<char>,
    key: Seq<char>,
    key_delegate: Seq<char>,
    value: Seq<char>,
) -> Result<LineForm, ErrorKind> {
    match (
        weak_map_addr_of(map),
        weak_map_addr_of(key),
        weak_map_addr_of(key_delegate),
        weak_map_addr_of(value),
    ) {
        (Some(m), Some(k), Some(d), Some(v)) => Ok(Line::WeakMap(m, k, d, v)),
        _ => Err(ErrorKind::InvalidAddress),
    }
}

/// A weak-map entry: `WeakMapEntry map=`, a field, ` key=`, a field,
/// ` keyDelegate=`, a field, ` value=`, a field. Each field is `(nil)` or
/// an address token.
pub open spec fn weak_map_form(s: Seq<char>) -> Tried<Seq<char>> {
    let map_at = "WeakMapEntry map="@.len() as int;
    let map_end = field_end(s, map_at);
    let key_at = map_end + " key="@.len();
    let key_end = field_end(s, key_at);
    let delegate_at = key_end + " keyDelegate="@.len();
    let delegate_end = field_end(s, delegate_at);
    let value_at = delegate_end + " value="@.len();
    let value_end = field_end(s, value_at);
    if has_at(s, 0, "WeakMapEntry map="@) && map_end > map_at && has_at(s, map_end, " key="@)
        && key_end > key_at && has_at(s, key_end, " keyDelegate="@) && delegate_end > delegate_at
        && has_at(s, delegate_end, " value="@) && value_end > value_at {
        Some(
            weak_map_of(
                s.subrange(map_at, map_end),
                s.subrange(key_at, key_end),
                s.subrange(delegate_at, delegate_end),
                s.subrange(value_at, value_end),
            ),
        )
    } else {
        None
    }
}

/// What the line `s` is: the first shape that it has, in the order edge,
/// node, result entry, weak-map entry, comment (`#`), separator
/// (`==========`).
pub open spec fn line_form(s: Seq<char>) -> Result<LineForm, ErrorKind> {
    if let Some(r) = edge_form(s) {
        r
    } else if let Some(r) = node_form(s) {
        r
    } else if let Some(r) = result_form(s) {
        r
    } else if let Some(r) = weak_map_form(s) {
        r
    } else if has_at(s, 0, "#"@) {
        Ok(Line::Comment)
    } else if has_at(s, 0, "=========="@) {
        Ok(Line::Separator)
    } else {
        Err(ErrorKind::UnrecognizedLine)
    }
}

/// What classifying the line `s` with the interning table `table` gives:
/// the line with its label interned, and the table afterwards. A line that
/// is an error leaves the table as it is.
pub open spec fn classify(s: Seq<char>, table: Seq<Seq<char>>) -> (
    Result<ParsedLine, ErrorKind>,
    Seq<Seq<char>>,
) {
    match line_form(s) {
        Ok(Line::Node(addr, node_type, label)) => (
            Ok(Line::Node(addr, node_type, intern(table, label).1)),
            intern(table, label).0,
        ),
        Ok(Line::Edge(addr, label)) => (
            Ok(Line::Edge(addr, intern(table, label).1)),
            intern(table, label).0,
        ),
        Ok(Line::WeakMap(m, k, d, v)) => (Ok(Line::WeakMap(m, k, d, v)), table),
        Ok(Line::Comment) => (Ok(Line::Comment), table),
        Ok(Line::Separator) => (Ok(Line::Separator), table),
        Ok(Line::Garbage(addr)) => (Ok(Line::Garbage(addr)), table),
        Ok(Line::KnownEdge(addr, count)) => (Ok(Line::KnownEdge(addr, count)), table),
        Err(kind) => (Err(kind), table),
    }
}

/// The scanned line `line` with each range replaced by the text of `s` that
/// it covers.
pub open spec fn with_text(line: ScannedLine, s: Seq<char>) -> LineForm {
    match line {
        Line::Node(addr, node_type, (from, to)) => Line::Node(
            addr,
            node_type,
            s.subrange(from as int, to as int),
        ),
        Line::Edge(addr, (from, to)) => Line::Edge(addr, s.subrange(from as int, to as int)),
        Line::WeakMap(m, k, d, v) => Line::WeakMap(m, k, d, v),
        Line::Comment => Line::Comment,
        Line::Separator => Line::Separator,
        Line::Garbage(addr) => Line::Garbage(addr),
        Line::KnownEdge(addr, count) => Line::KnownEdge(addr, count),
    }
}

/// The range of a scanned line's label, if it has one, lies in a line of
/// `len` characters.
pub open spec fn in_bounds(line: ScannedLine, len: nat) -> bool {
    match line {
        Line::Node(_, _, (from, to)) => from <= to <= len,
        Line::Edge(_, (from, to)) => from <= to <= len,
        _ => true,
    }
}

/// The outcome `got` of scanning the line `s` is what the grammar gives as
/// `form`.
pub open spec fn scanned_as(
    got: Result<ScannedLine, ErrorKind>,
    s: Seq<char>,
    form: Result<LineForm, ErrorKind>,
) -> bool {
    match got {
        Ok(line) => in_bounds(line, s.len()) && form == Ok::<LineForm, ErrorKind>(
            with_text(line, s),
        ),
        Err(kind) => form == Err::<LineForm, ErrorKind>(kind),
    }
}

/// The outcome `got` of trying one shape on the line `s` is what the
/// grammar gives as `form`.
pub open spec fn tried_as(got: Tried<(usize, usize)>, s: Seq<char>, form: Tried<Seq<char>>) -> bool {
    match got {
        Some(r) => form is Some && scanned_as(r, s, form->0),
        None => form is None,
    }
}

/// Tries the shape of an edge line.
pub fn scan_edge(chars: &Vec<char>) -> (got: Tried<(usize, usize)>)
    ensures
        tried_as(got, chars@, edge_form(chars@)),
{
    let addr_at = match eat(chars, 0, "> ") {
        Some(at) => at,
        None => {
            return None;
        },
    };
    let addr_end = scan(chars, addr_at, CharClass::Alnum);
    if addr_end == addr_at {
        return None;
    }
    let label_from = match eat(chars, addr_end, " ") {
        Some(at) => at,
        None => {
            return None;
        },
    };
    let label_to = scan(chars, label_from, CharClass::Label);
    match read_addr_in(chars, addr_at, addr_end) {
        Some(addr) => Some(Ok(Line::Edge(addr, (label_from, label_to)))),
        None => Some(Err(ErrorKind::InvalidAddress)),
    }
}

/// Finds the end of the type token that starts at `at`.
pub fn scan_type_token(chars: &Vec<char>, at: usize) -> (end: Option<usize>)
    requires
        at <= chars.len(),
    ensures
        match end {
            Some(e) => type_token_end(chars@, at as int) == Some(e as int) && at <= e
                <= chars.len(),
            None => type_token_end(chars@, at as int) is None,
        },
{
    match eat(chars, at, "rc=") {
        Some(digits_at) => {
            let end = scan(chars, digits_at, CharClass::Digit);
            if end > digits_at {
                Some(end)
            } else {
                None
            }
        },
        None => {
            match eat(chars, at, "gc.marked") {
                Some(end) => Some(end),
                None => eat(chars, at, "gc"),
            }
        },
    }
}

/// Tries the shape of a node line.
pub fn scan_node(chars: &Vec<char>) -> (got: Tried<(usize, usize)>)
    ensures
        tried_as(got, chars@, node_form(chars@)),
{
    let addr_end = scan(chars, 0, CharClass::Alnum);
    if addr_end == 0 {
        return None;
    }
    let type_at = match eat(chars, addr_end, " [") {
        Some(at) => at,
        None => {
            return None;
        },
    };
    let type_end = match scan_type_token(chars, type_at) {
        Some(end) => end,
        None => {
            return None;
        },
    };
    let label_from = match eat(chars, type_end, "] ") {
        Some(at) => at,
        None => {
            return None;
        },
    };
    let label_to = scan(chars, label_from, CharClass::Label);
    let addr = match read_addr_in(chars, 0, addr_end) {
        Some(addr) => addr,
        None => {
            return Some(Err(ErrorKind::InvalidAddress));
        },
    };
    match read_node_type(chars, type_at, type_end) {
        Some(node_type) => Some(Ok(Line::Node(addr, node_type, (label_from, label_to)))),
        None => Some(Err(ErrorKind::UnrecognizedLine)),
    }
}

/// Reads the tag `chars[from..to]` of a result entry for the object at
/// `addr`.
pub fn scan_tag(chars: &Vec<char>, from: usize, to: usize, addr: Addr) -> (got: Result<
    ScannedLine,
    ErrorKind,
>)
    requires
        from <= to <= chars.len(),
    ensures
        scanned_as(got, chars@, tag_form(addr, chars@.subrange(from as int, to as int))),
{
    let ghost tag = chars@.subrange(from as int, to as int);
    let ghost width = "known="@.len() as int;
    proof {
        if from + width <= to {
            assert(tag.subrange(0, width) =~= chars@.subrange(from as int, from + width));
            assert(tag.skip(width) =~= chars@.subrange(from + width, to as int));
        }
    }
    if find_text(chars, from, to, "garbage") {
        return Ok(Line::Garbage(addr));
    }
    match eat(chars, from, "known=") {
        Some(count_at) => {
            if count_at <= to {
                match read_number_in(chars, count_at, to, 10, u64::MAX) {
                    Some(count) => Ok(Line::KnownEdge(addr, count)),
                    None => Err(ErrorKind::UnknownResultTag),
                }
            } else {
                Err(ErrorKind::UnknownResultTag)
            }
        },
        None => Err(ErrorKind::UnknownResultTag),
    }
}

/// Tries the shape of a result entry.
pub fn scan_result(chars: &Vec<char>) -> (got: Tried<(usize, usize)>)
    ensures
        tried_as(got, chars@, result_form(chars@)),
{
    let addr_end = scan(chars, 0, CharClass::Alnum);
    if addr_end == 0 {
        return None;
    }
    let tag_at = match eat(chars, addr_end, " [") {
        Some(at) => at,
        None => {
            return None;
        },
    };
    let tag_end = scan(chars, tag_at, CharClass::Tag);
    if tag_end == tag_at {
        return None;
    }
    if eat(chars, tag_end, "]").is_none() {
        return None;
    }
    match read_addr_in(chars, 0, addr_end) {
        Some(addr) => Some(scan_tag(chars, tag_at, tag_end, addr)),
        None => Some(Err(ErrorKind::InvalidAddress)),
    }
}

/// Finds the end of the weak-map field that starts at `at`.
pub fn scan_field(chars: &Vec<char>, at: usize) -> (end: usize)
    requires
        at <= chars.len(),
    ensures
        end == field_end(chars@, at as int),
        at <= end <= chars.len(),
{
    match eat(chars, at, "(nil)") {
        Some(end) => end,
        None => scan(chars, at, CharClass::Alnum),
    }
}

/// Finds the weak-map field that starts at `at` and the text `next` that
/// must follow it; gives the end of the field and the position behind
/// `next`.
pub fn scan_field_then(chars: &Vec<char>, at: usize, next: &str) -> (r: Option<(usize, usize)>)
    requires
        at <= chars.len(),
    ensures
        match r {
            Some((end, after)) => end == field_end(chars@, at as int) && at < end && has_at(
                chars@,
                end as int,
                next@,
            ) && after == end + next@.len() && after <= chars.len(),
            None => !(field_end(chars@, at as int) > at && has_at(
                chars@,
                field_end(chars@, at as int),
                next@,
            )),
        },
{
    let end = scan_field(chars, at);
    if end == at {
        return None;
    }
    match eat(chars, end, next) {
        Some(after) => Some((end, after)),
        None => None,
    }
}

/// Tries the shape of a weak-map entry.
pub fn scan_weak_map(chars: &Vec<char>) -> (got: Tried<(usize, usize)>)
    ensures
        tried_as(got, chars@, weak_map_form(chars@)),
{
    let map_at = match eat(chars, 0, "WeakMapEntry map=") {
        Some(at) => at,
        None => {
            return None;
        },
    };
    let (map_end, key_at) = match scan_field_then(chars, map_at, " key=") {
        Some(found) => found,
        None => {
            return None;
        },
    };
    let (key_end, delegate_at) = match scan_field_then(chars, key_at, " keyDelegate=") {
        Some(found) => found,
        None => {
            return None;
        },
    };
    let (delegate_end, value_at) = match scan_field_then(chars, delegate_at, " value=") {
        Some(found) => found,
        None => {
            return None;
        },
    };
    let value_end = scan_field(chars, value_at);
    if value_end == value_at {
        return None;
    }
    let map = read_weak_map_addr_in(chars, map_at, map_end);
    let key = read_weak_map_addr_in(chars, key_at, key_end);
    let key_delegate = read_weak_map_addr_in(chars, delegate_at, delegate_end);
    let value = read_weak_map_addr_in(chars, value_at, value_end);
    match (map, key, key_delegate, value) {
        (Some(m), Some(k), Some(d), Some(v)) => Some(Ok(Line::WeakMap(m, k, d, v))),
        _ => Some(Err(ErrorKind::InvalidAddress)),
    }
}

/// Classifies a line, leaving its label, if it has one, as a range of the
/// line's characters.
pub fn scan_line(chars: &Vec<char>) -> (got: Result<ScannedLine, ErrorKind>)
    ensures
        scanned_as(got, chars@, line_form(chars@)),
{
    if let Some(r) = scan_edge(chars) {
        return r;
    }
    if let Some(r) = scan_node(chars) {
        return r;
    }
    if let Some(r) = scan_result(chars) {
        return r;
    }
    if let Some(r) = scan_weak_map(chars) {
        return r;
    }
    if eat(chars, 0, "#").is_some() {
        return Ok(Line::Comment);
    }
    if eat(chars, 0, "==========").is_some() {
        return Ok(Line::Separator);
    }
    Err(ErrorKind::UnrecognizedLine)
}

} // verus!
