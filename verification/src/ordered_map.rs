//! The insertion-ordered hash map of `indexmap`, as far as the parent map uses it.
//!
//! Nothing here is proved. What the map holds is named by `entries`, and the contract of each
//! function says what the method it calls does to the entries, as the documentation of
//! `indexmap` states it.

use indexmap::IndexMap;
use pddllib::state::State;
use vstd::prelude::*;

verus! {

/// `indexmap::IndexMap`, a hash map that keeps its entries in the order of insertion.
#[verifier::external_type_specification]
#[verifier::external_body]
#[verifier::reject_recursive_types(K)]
#[verifier::reject_recursive_types(V)]
#[verifier::reject_recursive_types(S)]
pub struct ExIndexMap<K, V, S>(IndexMap<K, V, S>);

/// The entries of the map, each a key with its value, in the order of insertion.
pub uninterp spec fn entries(map: IndexMap<State, usize>) -> Seq<(State, usize)>;

/// Calls `IndexMap::new`. Trusted: the new map has no entries.
#[verifier::external_body]
pub(crate) fn empty_map() -> (r: IndexMap<State, usize>)
    ensures
        entries(r) == Seq::<(State, usize)>::empty(),
{
    IndexMap::new()
}

/// Calls `IndexMap::len`. Trusted: it is the number of entries.
#[verifier::external_body]
pub(crate) fn map_len(map: &IndexMap<State, usize>) -> (r: usize)
    ensures
        r == entries(*map).len(),
{
    map.len()
}

/// Calls `IndexMap::get_index_of`. Trusted: it gives the position of an entry whose key is the
/// given state, and `None` where no entry has that key. The map compares keys with the `==` of
/// `State`, which holds of two states exactly when they are the same value.
#[verifier::external_body]
pub(crate) fn map_index_of(map: &IndexMap<State, usize>, state: &State) -> (r: Option<usize>)
    ensures
        match r {
            Some(i) => i < entries(*map).len() && entries(*map)[i as int].0 == *state,
            None => forall|j: int|
                0 <= j < entries(*map).len() ==> (#[trigger] entries(*map)[j]).0 != *state,
        },
{
    map.get_index_of(state)
}

/// Calls `IndexMap::get_index`. Trusted: it gives the key and the value at a position below
/// the length, and `None` at any other.
#[verifier::external_body]
pub(crate) fn map_get_index(map: &IndexMap<State, usize>, index: usize) -> (r: Option<(&State, &usize)>)
    ensures
        match r {
            Some((state, parent)) => index < entries(*map).len() && *state == entries(
                *map,
            )[index as int].0 && *parent == entries(*map)[index as int].1,
            None => index >= entries(*map).len(),
        },
{
    map.get_index(index)
}

/// Calls `IndexMap::insert_full`. Trusted: where no entry has the key, the pair becomes the
/// last entry and its position is returned with `None`; where one has, that entry keeps its
/// place and takes the new value, and its position is returned with the value it had.
#[verifier::external_body]
pub(crate) fn map_insert_full(map: &mut IndexMap<State, usize>, state: State, parent: usize) -> (r: (
    usize,
    Option<usize>,
))
    ensures
        match r.1 {
            None => {
                &&& forall|j: int|
                    0 <= j < entries(*old(map)).len() ==> (#[trigger] entries(*old(map))[j]).0
                        != state
                &&& r.0 == entries(*old(map)).len()
                &&& entries(*final(map)) == entries(*old(map)).push((state, parent))
            },
            Some(before) => {
                &&& r.0 < entries(*old(map)).len()
                &&& entries(*old(map))[r.0 as int] == (state, before)
                &&& entries(*final(map)) == entries(*old(map)).update(
                    r.0 as int,
                    (state, parent),
                )
            },
        },
{
    map.insert_full(state, parent)
}

} // verus!
