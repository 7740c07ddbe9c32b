//! Interned strings: a table that gives each distinct string one handle.
//!
//! The table holds the strings in the order in which they were first added
//! and finds a string again through an index by hash, so that adding a
//! string costs the same however many the table holds.

use vstd::prelude::*;
use vstd::utf8::encode_utf8;
use crate::hashed::{map_get, map_insert, new_map, AddrHashMap};

verus! {

/// The handle of an interned string: its position in the table that gave it.
#[derive(Clone, Copy, Debug, PartialEq, Eq, Hash, Structural)]
pub struct Atom(pub usize);

/// What interning `s` in `table` gives: the table afterwards and the handle
/// of `s`. A string that the table holds keeps its handle and leaves the
/// table as it is; a new one is appended.
pub open spec fn intern(table: Seq<Seq<char>>, s: Seq<char>) -> (Seq<Seq<char>>, Atom) {
    if table.contains(s) {
        (table, Atom(table.index_of(s) as usize))
    } else {
        (table.push(s), Atom(table.len() as usize))
    }
}

/// The handle `atom` was given by a table with the contents `table`.
pub open spec fn atom_in(table: Seq<Seq<char>>, atom: Atom) -> bool {
    atom.0 < table.len()
}

/// The FNV-1a hash of `bytes`, in 64 bits: from the offset basis, each byte
/// is mixed in by an exclusive or and a multiplication by the FNV prime.
pub open spec fn fnv1a(bytes: Seq<u8>) -> u64
    decreases bytes.len(),
{
    if bytes.len() == 0 {
        0xcbf2_9ce4_8422_2325
    } else {
        (fnv1a(bytes.drop_last()) ^ (bytes.last() as u64)).wrapping_mul(0x0100_0000_01b3)
    }
}

/// The hash under which the table's index lists the string `s`.
pub open spec fn text_hash(s: Seq<char>) -> u64 {
    fnv1a(encode_utf8(s))
}

/// Interning keeps every earlier handle and its string, gives a handle
/// under which the string is found again, and keeps the table free of
/// duplicates.
pub proof fn lemma_intern(table: Seq<Seq<char>>, s: Seq<char>)
    requires
        table.no_duplicates(),
        table.len() <= usize::MAX,
    ensures
        intern(table, s).0.no_duplicates(),
        table.len() <= intern(table, s).0.len() <= table.len() + 1,
        forall|i: int| 0 <= i < table.len() ==> intern(table, s).0[i] == table[i],
        atom_in(intern(table, s).0, intern(table, s).1),
        intern(table, s).0[intern(table, s).1.0 as int] == s,
{
    if !table.contains(s) {
        let longer = table.push(s);
        assert forall|i: int, j: int|
            0 <= i < longer.len() && 0 <= j < longer.len() && i != j implies longer[i]
            != longer[j] by {
            if i < table.len() {
                assert(table.contains(longer[i]));
            }
            if j < table.len() {
                assert(table.contains(longer[j]));
            }
        }
    }
}

/// Asking for the same string twice gives the same handle, and the second
/// request leaves the table as the first one left it.
pub proof fn law_same_string_same_handle(table: Seq<Seq<char>>, s: Seq<char>)
    requires
        table.no_duplicates(),
        table.len() <= usize::MAX,
    ensures
        intern(intern(table, s).0, s) == intern(table, s),
{
    let (after, atom) = intern(table, s);
    lemma_intern(table, s);
    assert(after[atom.0 as int] == s);
    assert(after.contains(s));
    let again = after.index_of(s);
    assert(after[again] == s);
}

/// The FNV-1a hash of `bytes`.
pub fn hash_bytes(bytes: &[u8]) -> (h: u64)
    ensures
        h == fnv1a(bytes@),
{
    let mut h: u64 = 0xcbf2_9ce4_8422_2325;
    let mut i: usize = 0;
    while i < bytes.len()
        invariant
            i <= bytes.len(),
            h == fnv1a(bytes@.take(i as int)),
        decreases bytes.len() - i,
    {
        assert(bytes@.take(i + 1).drop_last() =~= bytes@.take(i as int));
        h = (h ^ (bytes[i] as u64)).wrapping_mul(0x0100_0000_01b3);
        i = i + 1;
    }
    assert(bytes@.take(i as int) =~= bytes@);
    h
}

/// A table of interned strings. Each distinct string is held once, in the
/// order in which the strings were first added.
#[derive(Debug)]
pub struct StringIntern {
    strings: Vec<String>,
    /// For each hash, the handles of the strings that have it.
    index: AddrHashMap<Vec<usize>>,
}

impl View for StringIntern {
    type V = Seq<Seq<char>>;

    /// The strings of the table, by handle.
    closed spec fn view(&self) -> Seq<Seq<char>> {
        self.strings@.map_values(|s: String| s@)
    }
}

impl StringIntern {
    /// The index lists the handle `i` under the hash of its string.
    spec fn listed(&self, i: int) -> bool {
        let h = text_hash(self.strings@[i]@);
        self.index@.contains_key(h) && self.index@[h]@.contains(i as usize)
    }

    /// No string is held twice, and the index lists every handle under the
    /// hash of its string and nothing that is no handle.
    pub closed spec fn wf(&self) -> bool {
        &&& self@.no_duplicates()
        &&& forall|i: int| 0 <= i < self.strings@.len() ==> #[trigger] self.listed(i)
        &&& forall|h: u64, k: int|
            self.index@.contains_key(h) && 0 <= k < self.index@[h]@.len() ==> (
            #[trigger] self.index@[h]@[k]) < self.strings@.len()
    }

    /// The handle `atom` was given by this table.
    pub open spec fn has(&self, atom: Atom) -> bool {
        atom_in(self@, atom)
    }

    /// A well-formed table holds no string twice, and each of its positions
    /// is a handle.
    pub proof fn lemma_table(&self)
        requires
            self.wf(),
        ensures
            self@.no_duplicates(),
            self@.len() <= usize::MAX,
    {
        assert(self@.len() == self.strings.len());
    }

    /// An empty table.
    pub fn new() -> (table: StringIntern)
        ensures
            table.wf(),
            table@ == Seq::<Seq<char>>::empty(),
    {
        let table = StringIntern { strings: Vec::new(), index: new_map() };
        assert(table@ =~= Seq::<Seq<char>>::empty());
        table
    }

    /// The number of distinct strings in the table.
    pub fn len(&self) -> (n: usize)
        ensures
            n == self@.len(),
    {
        self.strings.len()
    }

    /// Tests whether `atom` was given by this table.
    pub fn knows(&self, atom: &Atom) -> (r: bool)
        ensures
            r == self.has(*atom),
    {
        atom.0 < self.strings.len()
    }

    /// Interns `s`: gives the handle that the table already has for it, or
    /// appends it and gives the new handle.
    pub fn add(&mut self, s: &str) -> (atom: Atom)
        requires
            old(self).wf(),
        ensures
            final(self).wf(),
            (final(self)@, atom) == intern(old(self)@, s@),
    {
        let h = hash_bytes(s.as_bytes());
        let owned = s.to_owned();
        let mut bucket: Vec<usize> = Vec::new();
        match map_get(&self.index, &h) {
            Some(found) => {
                let mut k: usize = 0;
                while k < found.len()
                    invariant
                        k <= found.len(),
                        *self == *old(self),
                        self.wf(),
                        self.index@.contains_key(h),
                        *found == self.index@[h],
                        owned@ == s@,
                        h == text_hash(s@),
                        bucket@ == found@.take(k as int),
                        forall|j: int| 0 <= j < k ==> self@[found@[j] as int] != s@,
                    decreases found.len() - k,
                {
                    let at = found[k];
                    assert(self.index@[h]@[k as int] < self.strings@.len());
                    if self.strings[at] == owned {
                        proof {
                            assert(self@[at as int] == s@);
                            assert(self@.contains(s@));
                            let first = self@.index_of(s@);
                            assert(self@[first] == s@);
                        }
                        return Atom(at);
                    }
                    bucket.push(at);
                    assert(bucket@ =~= found@.take(k + 1));
                    k = k + 1;
                }
                assert(found@.take(k as int) =~= found@);
                proof {
                    assert forall|i: int| 0 <= i < self@.len() implies self@[i] != s@ by {
                        if self@[i] == s@ {
                            assert(self.listed(i));
                            assert(self@.len() == self.strings.len());
                            assert(self.strings@[i]@ == self@[i]);
                            assert(found@.contains(i as usize));
                            let place = choose|place: int|
                                0 <= place < found@.len() && found@[place] == i as usize;
                            assert(self@[found@[place] as int] != s@);
                        }
                    }
                }
            },
            None => {
                proof {
                    assert forall|i: int| 0 <= i < self@.len() implies self@[i] != s@ by {
                        if self@[i] == s@ {
                            assert(self.listed(i));
                        }
                    }
                }
            },
        }
        let ghost before = *self;
        proof {
            assert(self@.len() == self.strings.len());
            assert(!self@.contains(s@));
            lemma_intern(self@, s@);
        }
        let n = self.strings.len();
        self.strings.push(owned);
        bucket.push(n);
        map_insert(&mut self.index, h, bucket);
        proof {
            assert(self@ =~= before@.push(s@));
            assert(self@.len() == self.strings.len());
            assert forall|i: int| 0 <= i < self.strings@.len() implies #[trigger] self.listed(i) by {
                if i < n {
                    assert(before.listed(i));
                    assert(self.strings@[i] == before.strings@[i]);
                    let hi = text_hash(before.strings@[i]@);
                    if hi == h {
                        let place = choose|place: int|
                            0 <= place < before.index@[h]@.len() && before.index@[h]@[place] == i;
                        assert(self.index@[h]@[place] == i);
                    }
                } else {
                    assert(self.index@[h]@[self.index@[h]@.len() - 1] == n);
                }
            }
        }
        Atom(n)
    }

    /// The string that `atom` stands for.
    pub fn get(&self, atom: &Atom) -> (s: &str)
        requires
            self.has(*atom),
        ensures
            s@ == self@[atom.0 as int],
    {
        self.strings[atom.0].as_str()
    }
}

} // verus!
