//! Why a log cannot be read, and where.

use vstd::prelude::*;
use vstd::string::StringExecFns;
use crate::render::{decimal, push_decimal};

verus! {

/// Why a log cannot be read.
#[derive(Clone, Copy, Debug, PartialEq, Eq, Structural)]
pub enum ErrorKind {
    /// An address token holds something else than hexadecimal digits, or
    /// does not fit in 64 bits.
    InvalidAddress,
    /// The line has none of the shapes of the grammar.
    UnrecognizedLine,
    /// A result entry whose tag neither holds `garbage` nor is `known=<N>`.
    UnknownResultTag,
    /// A node is defined a second time.
    DuplicateNode,
    /// An edge that no node precedes.
    EdgeWithoutNode,
    /// A line of a kind that has no place in the section it stands in.
    UnexpectedLine,
}

/// The first error of a log: its kind, the number of the line that is at
/// fault, counted from 1, and that line.
#[derive(Debug)]
pub struct ParseError {
    pub kind: ErrorKind,
    pub line: usize,
    pub text: String,
}

/// A [`ParseError`] as a value.
pub struct Failure {
    pub kind: ErrorKind,
    pub line: int,
    pub text: Seq<char>,
}

impl View for ParseError {
    type V = Failure;

    open spec fn view(&self) -> Failure {
        Failure { kind: self.kind, line: self.line as int, text: self.text@ }
    }
}

/// The failure of kind `kind` at the line with index `at` of `lines`.
pub open spec fn failure_at(kind: ErrorKind, lines: Seq<Seq<char>>, at: int) -> Failure {
    Failure { kind, line: at + 1, text: lines[at] }
}

/// The texts of `lines`.
pub open spec fn texts(lines: Seq<String>) -> Seq<Seq<char>> {
    lines.map_values(|line: String| line@)
}

impl ParseError {
    /// The error of kind `kind` at the line with index `at` of `lines`.
    pub fn at_line(kind: ErrorKind, lines: &Vec<String>, at: usize) -> (e: ParseError)
        requires
            at < lines.len(),
        ensures
            e@ == failure_at(kind, texts(lines@), at as int),
    {
        ParseError { kind, line: at + 1, text: lines[at].clone() }
    }
}

/// What an error of the kind `kind` is called.
pub open spec fn kind_text(kind: ErrorKind) -> Seq<char> {
    match kind {
        ErrorKind::InvalidAddress => "invalid address"@,
        ErrorKind::UnrecognizedLine => "unrecognized line"@,
        ErrorKind::UnknownResultTag => "unknown result tag"@,
        ErrorKind::DuplicateNode => "node defined twice"@,
        ErrorKind::EdgeWithoutNode => "edge without a node"@,
        ErrorKind::UnexpectedLine => "line in the wrong section"@,
    }
}

/// The message that reports the failure `f`: the number of the line, what
/// is wrong, and the line.
pub open spec fn failure_text(f: Failure) -> Seq<char> {
    "line "@ + decimal(f.line as nat) + ": "@ + kind_text(f.kind) + ": "@ + f.text
}

impl ErrorKind {
    /// What an error of this kind is called.
    pub fn describe(&self) -> (s: &'static str)
        ensures
            s@ == kind_text(*self),
    {
        match self {
            ErrorKind::InvalidAddress => "invalid address",
            ErrorKind::UnrecognizedLine => "unrecognized line",
            ErrorKind::UnknownResultTag => "unknown result tag",
            ErrorKind::DuplicateNode => "node defined twice",
            ErrorKind::EdgeWithoutNode => "edge without a node",
            ErrorKind::UnexpectedLine => "line in the wrong section",
        }
    }
}

impl ParseError {
    /// The message that reports the error.
    pub fn message(&self) -> (s: String)
        ensures
            s@ == failure_text(self@),
    {
        let mut s = String::from_str("line ");
        push_decimal(&mut s, self.line as u64);
        s.append(": ");
        s.append(self.kind.describe());
        s.append(": ");
        s.append(self.text.as_str());
        s
    }
}

} // verus!
