//! Collections keyed by 64-bit numbers and hashed with the FNV function.
//!
//! The collections are those of the standard library, made with the hasher
//! of the `fnv` crate. That hasher starts every hash from one fixed basis
//! and folds the bytes written to it into the hash, so that equal keys hash
//! alike wherever they are looked up. The contents of a collection are seen
//! as a `Map` or a `Set`; what each operation does to the contents is stated
//! here and not proved.

use vstd::prelude::*;
use std::collections::{HashMap, HashSet};
use std::hash::BuildHasherDefault;
use fnv::FnvHasher;
use crate::addr::Addr;

verus! {

/// `fnv::FnvHasher`, the hasher of the FNV function: a value that is only
/// carried along.
#[verifier::external_type_specification]
#[verifier::external_body]
pub struct ExFnvHasher(fnv::FnvHasher);

/// `std::hash::BuildHasherDefault`, which makes each hasher of a
/// collection by the hasher's `Default`: a value that is only carried along.
#[verifier::external_type_specification]
#[verifier::external_body]
#[verifier::reject_recursive_types(H)]
pub struct ExBuildHasherDefault<H>(std::hash::BuildHasherDefault<H>);

/// A set of addresses.
pub type AddrHashSet = HashSet<Addr, BuildHasherDefault<FnvHasher>>;

/// A map from addresses, or other 64-bit numbers, to `V`.
pub type AddrHashMap<V> = HashMap<Addr, V, BuildHasherDefault<FnvHasher>>;

/// What an [`AddrHashMap`] holds.
pub type AddrMap<V> = Map<Addr, V>;

/// `FnvHashMap::default` of `fnv`: a map with the FNV hasher, which holds
/// nothing.
#[verifier::external_body]
pub(crate) fn new_map<V>() -> (made: AddrHashMap<V>)
    ensures
        made@ == AddrMap::<V>::empty(),
{
    fnv::FnvHashMap::default()
}

/// `HashMap::insert` on a map with the FNV hasher, whose hashers all start
/// from one fixed state, so that equal addresses hash alike: the map then
/// holds `value` at `addr` and is unchanged elsewhere; the result is what it
/// held at `addr` before.
#[verifier::external_body]
pub(crate) fn map_insert<V>(map: &mut AddrHashMap<V>, addr: Addr, value: V) -> (prev: Option<V>)
    ensures
        final(map)@ == old(map)@.insert(addr, value),
        prev == if old(map)@.contains_key(addr) {
            Some(old(map)@[addr])
        } else {
            None
        },
{
    map.insert(addr, value)
}

/// `HashMap::get` on a map with the FNV hasher: what the map holds at
/// `addr`, if anything.
#[verifier::external_body]
pub(crate) fn map_get<'a, V>(map: &'a AddrHashMap<V>, addr: &Addr) -> (found: Option<&'a V>)
    ensures
        found == if map@.contains_key(*addr) {
            Some(&map@[*addr])
        } else {
            None
        },
{
    map.get(addr)
}

/// `FnvHashSet::default` of `fnv`: a set with the FNV hasher, which holds
/// nothing.
#[verifier::external_body]
pub(crate) fn new_set() -> (made: AddrHashSet)
    ensures
        made@ == Set::<Addr>::empty(),
{
    fnv::FnvHashSet::default()
}

/// `HashSet::insert` on a set with the FNV hasher: the set then holds
/// `addr` besides what it held; the result says whether `addr` is new.
#[verifier::external_body]
pub(crate) fn set_insert(set: &mut AddrHashSet, addr: Addr) -> (fresh: bool)
    ensures
        final(set)@ == old(set)@.insert(addr),
        fresh == !old(set)@.contains(addr),
{
    set.insert(addr)
}

/// `HashSet::contains` on a set with the FNV hasher: whether the set holds
/// `addr`.
#[verifier::external_body]
pub(crate) fn set_contains(set: &AddrHashSet, addr: &Addr) -> (held: bool)
    ensures
        held == set@.contains(*addr),
{
    set.contains(addr)
}

/// `HashMap::keys` on a map with the FNV hasher: the addresses at which
/// the map holds something, each once, in the order in which the map walks
/// them.
#[verifier::external_body]
pub(crate) fn map_addrs<V>(map: &AddrHashMap<V>) -> (addrs: Vec<Addr>)
    ensures
        addrs@.no_duplicates(),
        forall|a: Addr| addrs@.contains(a) <==> map@.contains_key(a),
{
    map.keys().copied().collect()
}

/// `HashSet::iter` on a set with the FNV hasher: the addresses that the
/// set holds, each once, in the order in which the set walks them.
#[verifier::external_body]
pub(crate) fn set_addrs(set: &AddrHashSet) -> (addrs: Vec<Addr>)
    ensures
        addrs@.no_duplicates(),
        forall|a: Addr| addrs@.contains(a) <==> set@.contains(a),
{
    set.iter().copied().collect()
}

/// The sequence `order` lists the addresses of `addrs`, each once.
pub open spec fn is_listing(order: Seq<Addr>, addrs: Set<Addr>) -> bool {
    order.no_duplicates() && forall|a: Addr| order.contains(a) <==> addrs.contains(a)
}

} // verus!
