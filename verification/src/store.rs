//! Durable key-value storage: each entity collection lives in an
//! `ic_stable_structures` B-tree map from 64-bit id to encoded record bytes,
//! and the shared identifier counter lives in a stable cell. The map and the
//! cell cannot be declared to the verifier directly (their trait bounds are
//! outside traits), so each is held in a private field of an opaque struct;
//! the trusted wrappers below state what each call does in terms of the
//! abstract contents `store_contents` and `counter_value`.

use vstd::prelude::*;

verus! {

/// One entity collection: encoded record bytes keyed by 64-bit id, stored in
/// an `ic_stable_structures::StableBTreeMap` on a default backing memory.
#[verifier::external_body]
pub struct ByteStore {
    map: ic_stable_structures::StableBTreeMap<
        u64,
        Vec<u8>,
        ic_stable_structures::DefaultMemoryImpl,
    >,
}

/// The persistent cell holding the identifier counter, an
/// `ic_stable_structures::cell::Cell` on a default backing memory.
#[verifier::external_body]
pub struct IdCell {
    cell: ic_stable_structures::cell::Cell<u64, ic_stable_structures::DefaultMemoryImpl>,
}

/// The contents of a `ByteStore`, as a map from id to stored bytes.
pub uninterp spec fn store_contents(m: ByteStore) -> Map<u64, Seq<u8>>;

/// The value held by the identifier counter cell.
pub uninterp spec fn counter_value(c: IdCell) -> u64;

/// The contents of a store that holds nothing.
pub open spec fn no_entries() -> Map<u64, Seq<u8>> {
    Map::empty()
}

/// Relies on `StableBTreeMap::new` from ic-stable-structures: creates a map
/// on a fresh default backing memory, overwriting whatever the memory held,
/// so the map starts empty.
#[verifier::external_body]
pub(crate) fn new_store() -> (m: ByteStore)
    ensures
        store_contents(m) == no_entries(),
{
    ByteStore {
        map: ic_stable_structures::StableBTreeMap::new(
            ic_stable_structures::DefaultMemoryImpl::default(),
        ),
    }
}

/// Relies on `Cell::new` from ic-stable-structures: writes the value to a
/// fresh default backing memory and returns a cell holding it. An 8-byte
/// value always fits, so the write cannot fail.
#[verifier::external_body]
pub(crate) fn new_counter(value: u64) -> (c: IdCell)
    ensures
        counter_value(c) == value,
{
    IdCell {
        cell: ic_stable_structures::cell::Cell::new(
            ic_stable_structures::DefaultMemoryImpl::default(),
            value,
        ),
    }
}

/// Relies on `Cell::get`: returns the value the cell holds.
#[verifier::external_body]
pub(crate) fn counter_get(c: &IdCell) -> (v: u64)
    ensures
        v == counter_value(*c),
{
    *c.cell.get()
}

/// Relies on `Cell::set`: replaces the cell value and returns the old one.
/// An 8-byte value always fits, so the write cannot fail.
#[verifier::external_body]
pub(crate) fn counter_set(c: &mut IdCell, v: u64) -> (prev: u64)
    ensures
        counter_value(*final(c)) == v,
        prev == counter_value(*old(c)),
{
    c.cell.set(v)
}

/// Relies on `StableBTreeMap::get`: returns the value stored under the key,
/// if any.
#[verifier::external_body]
pub(crate) fn store_get(m: &ByteStore, key: u64) -> (r: Option<Vec<u8>>)
    ensures
        match r {
            Some(v) => store_contents(*m).contains_key(key) && v@ == store_contents(*m)[key],
            None => !store_contents(*m).contains_key(key),
        },
{
    m.map.get(&key)
}

/// Relies on `StableBTreeMap::insert`: stores the value under the key and
/// returns the previous value if the key was present. The value type is
/// unbounded, so the call cannot fail a size check.
#[verifier::external_body]
pub(crate) fn store_insert(m: &mut ByteStore, key: u64, value: Vec<u8>) -> (prev: Option<Vec<u8>>)
    ensures
        store_contents(*final(m)) == store_contents(*old(m)).insert(key, value@),
        match prev {
            Some(v) => store_contents(*old(m)).contains_key(key) && v@ == store_contents(
                *old(m),
            )[key as u64],
            None => !store_contents(*old(m)).contains_key(key),
        },
{
    m.map.insert(key, value)
}

/// Relies on `StableBTreeMap::remove`: removes the key and returns the prior
/// value if it was present.
#[verifier::external_body]
pub(crate) fn store_remove(m: &mut ByteStore, key: u64) -> (prev: Option<Vec<u8>>)
    ensures
        store_contents(*final(m)) == store_contents(*old(m)).remove(key),
        match prev {
            Some(v) => store_contents(*old(m)).contains_key(key) && v@ == store_contents(
                *old(m),
            )[key as u64],
            None => !store_contents(*old(m)).contains_key(key),
        },
{
    m.map.remove(&key)
}

/// Relies on `StableBTreeMap::iter`: yields every live entry exactly once,
/// in ascending key order.
#[verifier::external_body]
pub(crate) fn store_entries(m: &ByteStore) -> (r: Vec<(u64, Vec<u8>)>)
    ensures
        forall|i: int|
            0 <= i < r@.len() ==> store_contents(*m).contains_key((#[trigger] r@[i]).0) && r@[i].1@
                == store_contents(*m)[r@[i].0],
        forall|i: int, j: int|
            0 <= i < j < r@.len() ==> (#[trigger] r@[i]).0 < (#[trigger] r@[j]).0,
        forall|k: u64|
            #[trigger] store_contents(*m).contains_key(k) ==> exists|i: int|
                0 <= i < r@.len() && (#[trigger] r@[i]).0 == k,
{
    m.map.iter().map(|e| e.into_pair()).collect()
}

} // verus!
