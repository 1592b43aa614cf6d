//! A map from texts to values.

use vstd::prelude::*;
use crate::text::same_text;

verus! {

/// No two entries have the same key.
pub open spec fn distinct_keys<V>(entries: Seq<(String, V)>) -> bool {
    forall|i: int, j: int|
        0 <= i < j < entries.len() ==> (#[trigger] entries[i]).0@ != (#[trigger] entries[j]).0@
}

/// An entry of the given key.
pub open spec fn has_key<V>(entries: Seq<(String, V)>, i: int, key: Seq<char>) -> bool {
    0 <= i < entries.len() && entries[i].0@ == key
}

/// The map that a list of entries stands for.
pub open spec fn entries_map<V>(entries: Seq<(String, V)>) -> Map<Seq<char>, V> {
    Map::new(
        |key: Seq<char>| exists|i: int| has_key(entries, i, key),
        |key: Seq<char>| entries[choose|i: int| has_key(entries, i, key)].1,
    )
}

/// Every entry of a list without repeated keys is in its map, and nothing else is.
pub proof fn lemma_entry<V>(entries: Seq<(String, V)>, i: int)
    requires
        distinct_keys(entries),
        0 <= i < entries.len(),
    ensures
        entries_map(entries).contains_key(entries[i].0@),
        entries_map(entries)[entries[i].0@] == entries[i].1,
{
    let key = entries[i].0@;
    assert(has_key(entries, i, key));
    let j = choose|j: int| has_key(entries, j, key);
    assert(has_key(entries, j, key));
    if i < j {
        assert(entries[i].0@ != entries[j].0@);
    } else if j < i {
        assert(entries[j].0@ != entries[i].0@);
    }
}

/// The first entry of a list adds its key to the map of the others.
pub proof fn lemma_first_entry<V>(entries: Seq<(String, V)>)
    requires
        distinct_keys(entries),
        entries.len() > 0,
    ensures
        distinct_keys(entries.skip(1)),
        !entries_map(entries.skip(1)).contains_key(entries[0].0@),
        entries_map(entries) == entries_map(entries.skip(1)).insert(entries[0].0@, entries[0].1),
{
    let rest = entries.skip(1);
    let key = entries[0].0@;
    assert forall|i: int, j: int| 0 <= i < j < rest.len() implies (#[trigger] rest[i]).0@ != (
    #[trigger] rest[j]).0@ by {
        assert(rest[i] == entries[i + 1]);
        assert(rest[j] == entries[j + 1]);
    }
    if entries_map(rest).contains_key(key) {
        let i = choose|i: int| has_key(rest, i, key);
        assert(entries[0].0@ != entries[i + 1].0@);
    }
    assert forall|k: Seq<char>| #[trigger]
        entries_map(entries).contains_key(k) == entries_map(rest).insert(
            key,
            entries[0].1,
        ).contains_key(k) by {
        if entries_map(entries).contains_key(k) {
            let i = choose|i: int| has_key(entries, i, k);
            if i > 0 {
                assert(has_key(rest, i - 1, k));
            }
        }
        if entries_map(rest).contains_key(k) {
            let i = choose|i: int| has_key(rest, i, k);
            assert(has_key(entries, i + 1, k));
        }
        if k == key {
            assert(has_key(entries, 0, k));
        }
    }
    assert forall|k: Seq<char>| entries_map(entries).contains_key(k) implies #[trigger] entries_map(
        entries,
    )[k] == entries_map(rest).insert(key, entries[0].1)[k] by {
        let i = choose|i: int| has_key(entries, i, k);
        lemma_entry(entries, i);
        if i > 0 {
            lemma_entry(rest, i - 1);
            assert(entries[0].0@ != entries[i].0@);
        }
    }
    assert(entries_map(entries) =~= entries_map(rest).insert(key, entries[0].1));
}

/// A map whose keys are texts.
pub struct TextMap<V> {
    entries: Vec<(String, V)>,
}

impl<V> View for TextMap<V> {
    type V = Map<Seq<char>, V>;

    closed spec fn view(&self) -> Map<Seq<char>, V> {
        entries_map(self.entries@)
    }
}

impl<V> TextMap<V> {
    #[verifier::type_invariant]
    spec fn keys_are_distinct(self) -> bool {
        distinct_keys(self.entries@)
    }

    pub fn new() -> (r: Self)
        ensures
            r@ == Map::<Seq<char>, V>::empty(),
    {
        let r = TextMap { entries: Vec::new() };
        assert(r@ =~= Map::<Seq<char>, V>::empty());
        r
    }

    /// Takes over a list of entries without repeated keys.
    pub fn from_entries(entries: Vec<(String, V)>) -> (r: Self)
        requires
            distinct_keys(entries@),
        ensures
            r@ == entries_map(entries@),
    {
        TextMap { entries }
    }

    /// Whether there is no entry.
    pub fn is_empty(&self) -> (r: bool)
        ensures
            r == (self@ == Map::<Seq<char>, V>::empty()),
    {
        let r = self.entries.len() == 0;
        proof {
            use_type_invariant(self);
            if r {
                assert(self@ =~= Map::<Seq<char>, V>::empty());
            } else {
                lemma_entry(self.entries@, 0);
                assert(self@.contains_key(self.entries@[0].0@));
            }
        }
        r
    }

    fn position(entries: &Vec<(String, V)>, key: &str) -> (r: Option<usize>)
        ensures
            match r {
                Some(i) => has_key(entries@, i as int, key@),
                None => forall|i: int| !has_key(entries@, i, key@),
            },
    {
        let mut i: usize = 0;
        while i < entries.len()
            invariant
                i <= entries.len(),
                forall|j: int| 0 <= j < i ==> !has_key(entries@, j, key@),
            decreases entries.len() - i,
        {
            if same_text(entries[i].0.as_str(), key) {
                return Some(i);
            }
            i += 1;
        }
        None
    }

    /// The value of a key.
    pub fn get(&self, key: &str) -> (r: Option<&V>)
        ensures
            match r {
                Some(v) => self@.contains_key(key@) && *v == self@[key@],
                None => !self@.contains_key(key@),
            },
    {
        proof {
            use_type_invariant(self);
        }
        match Self::position(&self.entries, key) {
            Some(i) => {
                proof {
                    lemma_entry(self.entries@, i as int);
                }
                Some(&self.entries[i].1)
            },
            None => None,
        }
    }

    /// Takes a key and its value out.
    pub fn remove(&mut self, key: &str) -> (r: Option<V>)
        ensures
            final(self)@ == old(self)@.remove(key@),
            match r {
                Some(v) => old(self)@.contains_key(key@) && v == old(self)@[key@],
                None => !old(self)@.contains_key(key@),
            },
    {
        proof {
            use_type_invariant(&*self);
        }
        let mut entries: Vec<(String, V)> = Vec::new();
        std::mem::swap(&mut entries, &mut self.entries);
        let ghost before = entries@;
        match Self::position(&entries, key) {
            Some(i) => {
                let (_, v) = entries.remove(i);
                let ghost after = entries@;
                self.entries = entries;
                proof {
                    lemma_entry(before, i as int);
                    assert forall|k: Seq<char>| #[trigger]
                        self@.contains_key(k) == old(self)@.remove(key@).contains_key(k) by {
                        if self@.contains_key(k) {
                            let j = choose|j: int| has_key(after, j, k);
                            let b = if j < i {
                                j
                            } else {
                                j + 1
                            };
                            assert(has_key(before, b, k));
                            assert(before[i as int].0@ == key@);
                        }
                        if old(self)@.remove(key@).contains_key(k) {
                            let b = choose|b: int| has_key(before, b, k);
                            let j = if b < i {
                                b
                            } else {
                                b - 1
                            };
                            assert(has_key(after, j, k));
                        }
                    }
                    assert forall|k: Seq<char>|
                        self@.contains_key(k) implies #[trigger] self@[k] == old(self)@.remove(
                        key@,
                    )[k] by {
                        let j = choose|j: int| has_key(after, j, k);
                        let b = if j < i {
                            j
                        } else {
                            j + 1
                        };
                        lemma_entry(after, j);
                        lemma_entry(before, b);
                        assert(after[j] == before[b]);
                        assert(self@.contains_key(k));
                        assert(old(self)@.remove(key@).contains_key(k));
                    }
                    assert(self@ =~= old(self)@.remove(key@));
                }
                Some(v)
            },
            None => {
                self.entries = entries;
                assert(self@ =~= old(self)@.remove(key@));
                None
            },
        }
    }

    /// Sets the value of a key.
    pub fn insert(&mut self, key: String, value: V)
        ensures
            final(self)@ == old(self)@.insert(key@, value),
    {
        let _ = self.remove(key.as_str());
        proof {
            use_type_invariant(&*self);
        }
        let ghost rest = self@;
        let mut entries: Vec<(String, V)> = Vec::new();
        std::mem::swap(&mut entries, &mut self.entries);
        let ghost before = entries@;
        entries.push((key, value));
        let ghost after = entries@;
        proof {
            assert forall|i: int| 0 <= i < before.len() implies before[i].0@ != key@ by {
                lemma_entry(before, i);
                assert(rest.contains_key(before[i].0@));
            }
            assert(distinct_keys(after));
        }
        self.entries = entries;
        proof {
            lemma_entry(after, before.len() as int);
            assert forall|k: Seq<char>| #[trigger]
                self@.contains_key(k) == rest.insert(key@, value).contains_key(k) by {
                if self@.contains_key(k) {
                    let j = choose|j: int| has_key(after, j, k);
                    if j < before.len() {
                        assert(has_key(before, j, k));
                    }
                }
                if rest.contains_key(k) {
                    let j = choose|j: int| has_key(before, j, k);
                    assert(has_key(after, j, k));
                }
            }
            assert forall|k: Seq<char>|
                self@.contains_key(k) implies #[trigger] self@[k] == rest.insert(
                key@,
                value,
            )[k] by {
                let j = choose|j: int| has_key(after, j, k);
                lemma_entry(after, j);
                if j < before.len() {
                    lemma_entry(before, j);
                    assert(after[j] == before[j]);
                }
            }
            assert(self@ =~= rest.insert(key@, value));
            assert(rest.insert(key@, value) =~= old(self)@.insert(key@, value));
        }
    }

    /// Gives the entries out, each key once, in no particular order.
    pub fn into_entries(self) -> (r: Vec<(String, V)>)
        ensures
            distinct_keys(r@),
            entries_map(r@) == self@,
    {
        proof {
            use_type_invariant(&self);
        }
        self.entries
    }
}

} // verus!
