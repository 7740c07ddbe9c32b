//! Lines as sequences of characters: the character classes of the log
//! format, and the scanning steps that the line grammar is made of.

use vstd::prelude::*;

verus! {

/// The sets of characters that a token of the log format is made of.
#[derive(Clone, Copy, Debug, PartialEq, Eq, Structural)]
pub enum CharClass {
    /// ASCII letters and digits: what an address token is made of.
    Alnum,
    /// ASCII decimal digits.
    Digit,
    /// Lower-case ASCII letters, digits and `=`: what a result tag is made of.
    Tag,
    /// Anything but a carriage return or a line feed: what a label is made of.
    Label,
}

/// `c` is an ASCII decimal digit.
pub open spec fn is_digit(c: char) -> bool {
    '0' <= c && c <= '9'
}

/// `c` is a lower-case ASCII letter.
pub open spec fn is_lower(c: char) -> bool {
    'a' <= c && c <= 'z'
}

/// `c` is an upper-case ASCII letter.
pub open spec fn is_upper(c: char) -> bool {
    'A' <= c && c <= 'Z'
}

/// `c` belongs to `class`.
pub open spec fn in_class(c: char, class: CharClass) -> bool {
    match class {
        CharClass::Alnum => is_digit(c) || is_lower(c) || is_upper(c),
        CharClass::Digit => is_digit(c),
        CharClass::Tag => is_digit(c) || is_lower(c) || c == '=',
        CharClass::Label => c != '\r' && c != '\n',
    }
}

/// Where the longest run of characters of `class` that starts at `from`
/// ends: the first position at or after `from` that holds no character of
/// the class, or the length of `s`.
pub open spec fn run_end(s: Seq<char>, from: int, class: CharClass) -> int
    decreases s.len() - from,
{
    if 0 <= from < s.len() && in_class(s[from], class) {
        run_end(s, from + 1, class)
    } else {
        from
    }
}

/// The text `lit` stands in `s` at position `at`.
pub open spec fn has_at(s: Seq<char>, at: int, lit: Seq<char>) -> bool {
    0 <= at && at + lit.len() <= s.len() && s.subrange(at, at + lit.len()) == lit
}

/// The text `lit` occurs somewhere in `s`.
pub open spec fn contains_text(s: Seq<char>, lit: Seq<char>) -> bool {
    exists|at: int| has_at(s, at, lit)
}

/// The characters of `s`, in order.
pub fn chars_of(s: &str) -> (chars: Vec<char>)
    ensures
        chars@ == s@,
{
    let mut chars: Vec<char> = Vec::new();
    for c in it: s.chars()
        invariant
            it.seq() == s@,
            chars@ =~= s@.take(it.index()),
    {
        chars.push(c);
    }
    assert(s@.take(s@.len() as int) =~= s@);
    chars
}

/// Executable form of [`in_class`].
pub fn class_has(class: CharClass, c: char) -> (r: bool)
    ensures
        r == in_class(c, class),
{
    let digit = '0' <= c && c <= '9';
    let lower = 'a' <= c && c <= 'z';
    let upper = 'A' <= c && c <= 'Z';
    match class {
        CharClass::Alnum => digit || lower || upper,
        CharClass::Digit => digit,
        CharClass::Tag => digit || lower || c == '=',
        CharClass::Label => c != '\r' && c != '\n',
    }
}

/// Skips the longest run of characters of `class` that starts at `from`.
pub fn scan(chars: &Vec<char>, from: usize, class: CharClass) -> (end: usize)
    requires
        from <= chars.len(),
    ensures
        end == run_end(chars@, from as int, class),
        from <= end <= chars.len(),
{
    let mut end: usize = from;
    while end < chars.len() && class_has(class, chars[end])
        invariant
            from <= end <= chars.len(),
            run_end(chars@, from as int, class) == run_end(chars@, end as int, class),
        decreases chars.len() - end,
    {
        end = end + 1;
    }
    end
}

/// Tests whether `lit` stands in `chars` at position `at`, and gives the
/// position behind it if it does.
pub fn eat(chars: &Vec<char>, at: usize, lit: &str) -> (next: Option<usize>)
    requires
        at <= chars.len(),
    ensures
        match next {
            Some(n) => has_at(chars@, at as int, lit@) && n == at + lit@.len(),
            None => !has_at(chars@, at as int, lit@),
        },
{
    let mut i: usize = at;
    for c in it: lit.chars()
        invariant
            it.seq() == lit@,
            at <= i <= chars.len(),
            i == at + it.index(),
            chars@.subrange(at as int, i as int) =~= lit@.take(it.index()),
    {
        if i >= chars.len() {
            return None;
        }
        if chars[i] != c {
            proof {
                if has_at(chars@, at as int, lit@) {
                    assert(chars@.subrange(at as int, at + lit@.len())[i - at] == chars@[i as int]);
                }
            }
            return None;
        }
        i = i + 1;
    }
    assert(lit@.take(lit@.len() as int) =~= lit@);
    Some(i)
}

/// Tests whether `lit` occurs somewhere in `chars[from..to]`.
pub fn find_text(chars: &Vec<char>, from: usize, to: usize, lit: &str) -> (found: bool)
    requires
        from <= to <= chars.len(),
    ensures
        found == contains_text(chars@.subrange(from as int, to as int), lit@),
{
    let ghost part = chars@.subrange(from as int, to as int);
    let mut at: usize = from;
    loop
        invariant
            from <= at <= to <= chars.len(),
            part == chars@.subrange(from as int, to as int),
            forall|k: int| 0 <= k < at - from ==> !has_at(part, k, lit@),
        decreases to - at,
    {
        proof {
            if at + lit@.len() <= to {
                assert(part.subrange(at - from, at - from + lit@.len()) =~= chars@.subrange(
                    at as int,
                    at + lit@.len(),
                ));
            }
        }
        match eat(chars, at, lit) {
            Some(next) => {
                if next <= to {
                    assert(has_at(part, at - from, lit@));
                    return true;
                }
            },
            None => {},
        }
        if at == to {
            return false;
        }
        at = at + 1;
    }
}

} // verus!
