//! Numbers as they are written in a log: hexadecimal addresses and decimal
//! counts, read from a range of characters without overflow.

use vstd::prelude::*;
use crate::text::eat;

verus! {

/// The address of a traced object.
pub type Addr = u64;

/// The value of `c` as a digit in base `radix` (10 or 16), or `None` when
/// `c` is no such digit. A hexadecimal letter may be of either case.
pub open spec fn digit(c: char, radix: nat) -> Option<nat> {
    if '0' <= c && c <= '9' {
        Some((c as nat - '0' as nat) as nat)
    } else if radix == 16 && 'a' <= c && c <= 'f' {
        Some((c as nat - 'a' as nat + 10) as nat)
    } else if radix == 16 && 'A' <= c && c <= 'F' {
        Some((c as nat - 'A' as nat + 10) as nat)
    } else {
        None
    }
}

/// Every character of `s` is a digit in base `radix`.
pub open spec fn all_digits(s: Seq<char>, radix: nat) -> bool {
    forall|i: int| 0 <= i < s.len() ==> (#[trigger] digit(s[i], radix)) is Some
}

/// The number that the digits of `s` write in base `radix`, most
/// significant digit first. A character that is no digit counts as zero.
pub open spec fn number(s: Seq<char>, radix: nat) -> nat
    decreases s.len(),
{
    if s.len() == 0 {
        0
    } else {
        number(s.drop_last(), radix) * radix + match digit(s.last(), radix) {
            Some(d) => d,
            None => 0,
        }
    }
}

/// What reading `s` as a number in base `radix` gives: the number, if `s`
/// is a non-empty run of digits whose value is at most `max`.
pub open spec fn read_number(s: Seq<char>, radix: nat, max: nat) -> Option<nat> {
    if s.len() > 0 && all_digits(s, radix) && number(s, radix) <= max {
        Some(number(s, radix))
    } else {
        None
    }
}

/// `s` without one leading `0x`, if it has one.
pub open spec fn strip_0x(s: Seq<char>) -> Seq<char> {
    if s.len() >= 2 && s[0] == '0' && s[1] == 'x' {
        s.skip(2)
    } else {
        s
    }
}

/// The address that the text `s` denotes: hexadecimal digits, with or
/// without a leading `0x`, whose value fits in 64 bits.
pub open spec fn addr_of(s: Seq<char>) -> Option<Addr> {
    match read_number(strip_0x(s), 16, u64::MAX as nat) {
        Some(v) => Some(v as u64),
        None => None,
    }
}

/// The address that a field of a weak-map entry denotes: `(nil)` is
/// address 0, anything else is read as [`addr_of`] reads it.
pub open spec fn weak_map_addr_of(s: Seq<char>) -> Option<Addr> {
    if s == "(nil)"@ {
        Some(0u64)
    } else {
        addr_of(s)
    }
}

/// A number never gets smaller when digits are appended.
pub proof fn lemma_number_grows(s: Seq<char>, k: int, radix: nat)
    requires
        0 <= k <= s.len(),
        radix > 0,
    ensures
        number(s.take(k), radix) <= number(s, radix),
    decreases s.len() - k,
{
    if k == s.len() {
        assert(s.take(k) == s);
    } else {
        lemma_number_grows(s.drop_last(), k, radix);
        assert(s.drop_last().take(k) == s.take(k));
        let shorter = number(s.drop_last(), radix);
        assert(shorter <= shorter * radix) by (nonlinear_arith)
            requires
                radix > 0,
        ;
    }
}

/// Appending one character multiplies the number by the base and adds the
/// character's digit.
pub proof fn lemma_number_step(s: Seq<char>, from: int, k: int, radix: nat)
    requires
        0 <= from <= k < s.len(),
    ensures
        number(s.subrange(from, k + 1), radix) == number(s.subrange(from, k), radix) * radix
            + match digit(s[k], radix) {
            Some(d) => d,
            None => 0,
        },
{
    assert(s.subrange(from, k + 1).drop_last() == s.subrange(from, k));
}

/// Executable form of [`digit`].
pub fn digit_of(c: char, radix: u32) -> (r: Option<u8>)
    requires
        radix == 10 || radix == 16,
    ensures
        match r {
            Some(d) => digit(c, radix as nat) == Some(d as nat) && d < radix,
            None => digit(c, radix as nat) is None,
        },
{
    if '0' <= c && c <= '9' {
        Some((c as u32 - '0' as u32) as u8)
    } else if radix == 16 && 'a' <= c && c <= 'f' {
        Some((c as u32 - 'a' as u32 + 10) as u8)
    } else if radix == 16 && 'A' <= c && c <= 'F' {
        Some((c as u32 - 'A' as u32 + 10) as u8)
    } else {
        None
    }
}

/// Reads the characters `chars[from..to]` as a number in base `radix` that
/// is at most `max`.
pub fn read_number_in(chars: &Vec<char>, from: usize, to: usize, radix: u32, max: u64) -> (r:
    Option<u64>)
    requires
        from <= to <= chars.len(),
        radix == 10 || radix == 16,
    ensures
        match r {
            Some(v) => read_number(chars@.subrange(from as int, to as int), radix as nat, max as nat)
                == Some(v as nat),
            None => read_number(chars@.subrange(from as int, to as int), radix as nat, max as nat)
                is None,
        },
{
    let ghost text = chars@.subrange(from as int, to as int);
    if from == to {
        return None;
    }
    let mut value: u64 = 0;
    let mut i: usize = from;
    while i < to
        invariant
            from <= i <= to <= chars.len(),
            radix == 10 || radix == 16,
            text == chars@.subrange(from as int, to as int),
            all_digits(chars@.subrange(from as int, i as int), radix as nat),
            value as nat == number(chars@.subrange(from as int, i as int), radix as nat),
            value <= max,
        decreases to - i,
    {
        let c = chars[i];
        proof {
            lemma_number_step(chars@, from as int, i as int, radix as nat);
            assert(text.take(i + 1 - from) == chars@.subrange(from as int, i + 1));
            lemma_number_grows(text, i + 1 - from, radix as nat);
        }
        match digit_of(c, radix) {
            None => {
                assert(text[i - from] == c);
                return None;
            },
            Some(d) => {
                let wide: u128 = (value as u128) * (radix as u128) + (d as u128);
                if wide > max as u128 {
                    return None;
                }
                value = wide as u64;
                assert forall|j: int| 0 <= j < i + 1 - from implies (#[trigger] digit(
                    chars@.subrange(from as int, i + 1)[j],
                    radix as nat,
                )) is Some by {
                    if j < i - from {
                        assert(chars@.subrange(from as int, i as int)[j] == chars@.subrange(
                            from as int,
                            i + 1,
                        )[j]);
                    }
                }
            },
        }
        i = i + 1;
    }
    assert(chars@.subrange(from as int, i as int) == text);
    Some(value)
}

/// Reads the characters `chars[from..to]` as an address.
pub fn read_addr_in(chars: &Vec<char>, from: usize, to: usize) -> (r: Option<Addr>)
    requires
        from <= to <= chars.len(),
    ensures
        r == addr_of(chars@.subrange(from as int, to as int)),
{
    let ghost text = chars@.subrange(from as int, to as int);
    let digits_at = if to - from >= 2 && chars[from] == '0' && chars[from + 1] == 'x' {
        from + 2
    } else {
        from
    };
    assert(strip_0x(text) =~= chars@.subrange(digits_at as int, to as int));
    read_number_in(chars, digits_at, to, 16, u64::MAX)
}

/// Reads the characters `chars[from..to]` as a field of a weak-map entry.
pub fn read_weak_map_addr_in(chars: &Vec<char>, from: usize, to: usize) -> (r: Option<Addr>)
    requires
        from <= to <= chars.len(),
    ensures
        r == weak_map_addr_of(chars@.subrange(from as int, to as int)),
{
    let ghost text = chars@.subrange(from as int, to as int);
    proof {
        if text == "(nil)"@ {
            assert(chars@.subrange(from as int, from + "(nil)"@.len()) =~= text);
        }
    }
    match eat(chars, from, "(nil)") {
        Some(end) => {
            if end == to {
                assert(text =~= "(nil)"@);
                return Some(0);
            }
        },
        None => {},
    }
    read_addr_in(chars, from, to)
}

} // verus!
