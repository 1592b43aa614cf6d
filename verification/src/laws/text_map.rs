//! Maps from texts.

use vstd::prelude::*;
use crate::text_map::{has_key, lemma_entry, TextMap};

verus! {

/// What is set under a key is found under it and can be taken out, once. Other keys are not
/// touched.
pub proof fn keys_hold_what_was_set_last<V>(
    before: TextMap<V>,
    key: String,
    value: V,
    set: TextMap<V>,
    name: &str,
    found: Option<&V>,
    taken: Option<V>,
    after: TextMap<V>,
    gone: Option<&V>,
)
    requires
        exists|m: &mut TextMap<V>|
            *m == before && *final(m) == set && #[trigger] call_ensures(
                TextMap::<V>::insert,
                (m, key, value),
                (),
            ),
        call_ensures(TextMap::<V>::get, (&set, name), found),
        exists|m: &mut TextMap<V>|
            *m == set && *final(m) == after && #[trigger] call_ensures(
                TextMap::<V>::remove,
                (m, name),
                taken,
            ),
        call_ensures(TextMap::<V>::get, (&after, name), gone),
    ensures
        name@ == key@ ==> found == Some(&value) && taken == Some(value),
        name@ != key@ ==> (found is Some <==> before@.contains_key(name@)) && (taken is Some
            <==> before@.contains_key(name@)),
        name@ != key@ && before@.contains_key(name@) ==> found == Some(&before@[name@]) && taken
            == Some(before@[name@]),
        gone is None,
        name@ != key@ ==> after@.contains_key(key@) && after@[key@] == value,
{
}

/// A new map is empty, one with a key is not.
pub proof fn new_maps_are_empty<V>(
    fresh: TextMap<V>,
    name: &str,
    found: Option<&V>,
    map: TextMap<V>,
    empty: bool,
)
    requires
        call_ensures(TextMap::<V>::new, (), fresh),
        call_ensures(TextMap::<V>::get, (&fresh, name), found),
        call_ensures(TextMap::<V>::is_empty, (&map,), empty),
    ensures
        found is None,
        empty <==> forall|key: Seq<char>| !#[trigger] map@.contains_key(key),
{
    if forall|key: Seq<char>| !#[trigger] map@.contains_key(key) {
        assert(map@ =~= Map::<Seq<char>, V>::empty());
    }
}

/// A map of a list without repeated keys has the entries of the list and no others, and the entries
/// that a map gives out are its own, each key once.
pub proof fn maps_are_lists_without_repeated_keys<V>(
    list: Vec<(String, V)>,
    map: TextMap<V>,
    out: Vec<(String, V)>,
    i: int,
    j: int,
    key: Seq<char>,
)
    requires
        forall|a: int, b: int|
            0 <= a < b < list@.len() ==> (#[trigger] list@[a]).0@ != (#[trigger] list@[b]).0@,
        call_ensures(TextMap::<V>::from_entries, (list,), map),
        call_ensures(TextMap::<V>::into_entries, (map,), out),
    ensures
        0 <= i < list@.len() ==> map@.contains_key(list@[i].0@) && map@[list@[i].0@] == list@[i].1,
        map@.contains_key(key) ==> exists|k: int|
            0 <= k < list@.len() && (#[trigger] list@[k]).0@ == key,
        0 <= i < out@.len() ==> map@.contains_key(out@[i].0@) && map@[out@[i].0@] == out@[i].1,
        0 <= i < j < out@.len() ==> out@[i].0@ != out@[j].0@,
        map@.contains_key(key) ==> exists|k: int|
            0 <= k < out@.len() && (#[trigger] out@[k]).0@ == key,
{
    if 0 <= i < list@.len() {
        lemma_entry(list@, i);
    }
    if 0 <= i < out@.len() {
        lemma_entry(out@, i);
    }
    if map@.contains_key(key) {
        let k = choose|k: int| has_key(list@, k, key);
        assert(list@[k].0@ == key);
        let m = choose|m: int| has_key(out@, m, key);
        assert(out@[m].0@ == key);
    }
}

} // verus!
