//! A map from text to values that remembers the order of its keys.

use vstd::prelude::*;

use crate::replicate::Replicate;
use crate::text::same_text;

verus! {

/// A map from text to values. Every key occurs once, and the entries are walked
/// in the order in which their keys were first inserted.
#[derive(Debug)]
pub struct StringMap<V> {
    entries: Vec<(String, V)>,
}

/// Whether no two entries have the same key.
pub open spec fn distinct_keys<W>(entries: Seq<(Seq<char>, W)>) -> bool {
    forall|i: int, j: int|
        0 <= i < j < entries.len() ==> (#[trigger] entries[i]).0 != (#[trigger] entries[j]).0
}

/// Whether an entry has the key `key`.
pub open spec fn has_key<W>(entries: Seq<(Seq<char>, W)>, key: Seq<char>) -> bool {
    exists|i: int| 0 <= i < entries.len() && (#[trigger] entries[i]).0 == key
}

/// The position of the entry with the key `key`.
pub open spec fn key_index<W>(entries: Seq<(Seq<char>, W)>, key: Seq<char>) -> int {
    choose|i: int| 0 <= i < entries.len() && (#[trigger] entries[i]).0 == key
}

/// The value that belongs to `key`, if there is one.
pub open spec fn lookup<W>(entries: Seq<(Seq<char>, W)>, key: Seq<char>) -> Option<W> {
    if has_key(entries, key) {
        Some(entries[key_index(entries, key)].1)
    } else {
        None
    }
}

/// The entries after `value` was stored under `key`: in place of the value that
/// was there, or at the end.
pub open spec fn stored<W>(entries: Seq<(Seq<char>, W)>, key: Seq<char>, value: W) -> Seq<
    (Seq<char>, W),
> {
    if has_key(entries, key) {
        entries.update(key_index(entries, key), (key, value))
    } else {
        entries.push((key, value))
    }
}

/// The entries after each of `pairs` was stored, in order.
pub open spec fn stored_all<W>(pairs: Seq<(Seq<char>, W)>) -> Seq<(Seq<char>, W)>
    decreases pairs.len(),
{
    if pairs.len() == 0 {
        Seq::empty()
    } else {
        stored(stored_all(pairs.drop_last()), pairs.last().0, pairs.last().1)
    }
}

impl<V> StringMap<V> {
    /// No key occurs twice.
    #[verifier::type_invariant]
    closed spec fn keys_are_distinct(self) -> bool {
        forall|i: int, j: int|
            0 <= i < j < self.entries@.len() ==> (#[trigger] self.entries@[i]).0@ != (
            #[trigger] self.entries@[j]).0@
    }
}

impl<V: DeepView> DeepView for StringMap<V> {
    type V = Seq<(Seq<char>, V::V)>;

    closed spec fn deep_view(&self) -> Seq<(Seq<char>, V::V)> {
        self.entries.deep_view()
    }
}

/// In a map without repeated keys an entry is what its key leads to.
pub proof fn lookup_is<W>(entries: Seq<(Seq<char>, W)>, i: int)
    requires
        distinct_keys(entries),
        0 <= i < entries.len(),
    ensures
        key_index(entries, entries[i].0) == i,
        lookup(entries, entries[i].0) == Some(entries[i].1),
{
    let key = entries[i].0;
    assert(has_key(entries, key));
    let k = key_index(entries, key);
    assert(0 <= k < entries.len() && entries[k].0 == key);
    if k < i {
        assert(entries[k].0 != entries[i].0);
    } else if i < k {
        assert(entries[i].0 != entries[k].0);
    }
}

/// What was stored under a key is found under it, and nothing else changed.
pub proof fn stored_is_found<W>(
    entries: Seq<(Seq<char>, W)>,
    key: Seq<char>,
    value: W,
    other: Seq<char>,
)
    requires
        distinct_keys(entries),
    ensures
        distinct_keys(stored(entries, key, value)),
        lookup(stored(entries, key, value), key) == Some(value),
        other != key ==> lookup(stored(entries, key, value), other) == lookup(entries, other),
{
    let after = stored(entries, key, value);
    let at = if has_key(entries, key) {
        key_index(entries, key)
    } else {
        entries.len() as int
    };
    assert(after[at] == (key, value));
    assert(distinct_keys(after)) by {
        assert forall|i: int, j: int| 0 <= i < j < after.len() implies (#[trigger] after[i]).0 != (
        #[trigger] after[j]).0 by {
            if has_key(entries, key) {
                assert(after[i].0 == entries[i].0);
                assert(after[j].0 == entries[j].0);
            } else {
                assert(after[i].0 == entries[i].0);
                if j < entries.len() {
                    assert(after[j].0 == entries[j].0);
                }
            }
        }
    }
    lookup_is(after, at);
    if other != key {
        if has_key(entries, other) {
            let i = key_index(entries, other);
            assert(entries[i].0 == other);
            assert(after[i] == entries[i]);
            lookup_is(after, i);
        } else if has_key(after, other) {
            let i = key_index(after, other);
            assert(after[i].0 == other);
            if i < entries.len() && i != at {
                assert(entries[i].0 == other);
            }
        }
    }
}

impl<V: DeepView> StringMap<V> {
    /// An empty map.
    pub fn new() -> (map: Self)
        ensures
            map.deep_view() == Seq::<(Seq<char>, V::V)>::empty(),
    {
        let map = StringMap { entries: Vec::new() };
        proof {
            assert(map.deep_view() =~= Seq::<(Seq<char>, V::V)>::empty());
        }
        map
    }

    /// The number of entries.
    pub fn len(&self) -> (n: usize)
        ensures
            n == self.deep_view().len(),
    {
        self.entries.len()
    }

    /// The key of the entry at position `i`.
    pub fn key_at(&self, i: usize) -> (key: &str)
        requires
            i < self.deep_view().len(),
        ensures
            key@ == self.deep_view()[i as int].0,
    {
        self.entries[i].0.as_str()
    }

    /// The value of the entry at position `i`.
    pub fn value_at(&self, i: usize) -> (value: &V)
        requires
            i < self.deep_view().len(),
        ensures
            value.deep_view() == self.deep_view()[i as int].1,
    {
        &self.entries[i].1
    }

    /// The position of the entry with the key `key`.
    fn position(&self, key: &str) -> (found: Option<usize>)
        ensures
            match found {
                Some(i) => i < self.entries@.len() && has_key(self.deep_view(), key@) && key_index(
                    self.deep_view(),
                    key@,
                ) == i,
                None => !has_key(self.deep_view(), key@),
            },
    {
        proof {
            use_type_invariant(self);
        }
        for i in 0..self.entries.len()
            invariant
                self.keys_are_distinct(),
                forall|j: int| 0 <= j < i ==> (#[trigger] self.entries@[j]).0@ != key@,
        {
            if same_text(self.entries[i].0.as_str(), key) {
                proof {
                    assert(self.deep_view()[i as int].0 == key@);
                    lookup_is(self.deep_view(), i as int);
                }
                return Some(i);
            }
        }
        proof {
            if has_key(self.deep_view(), key@) {
                let i = key_index(self.deep_view(), key@);
                assert(self.deep_view()[i].0 == self.entries@[i].0@);
            }
        }
        None
    }

    /// The value that belongs to `key`, if there is one.
    pub fn get(&self, key: &str) -> (value: Option<&V>)
        ensures
            match value {
                Some(v) => lookup(self.deep_view(), key@) == Some(v.deep_view()),
                None => lookup(self.deep_view(), key@) is None,
            },
    {
        match self.position(key) {
            Some(i) => Some(&self.entries[i].1),
            None => None,
        }
    }

    /// Store `value` under `key`, in place of what was there. Every key still occurs
    /// once.
    pub fn insert(&mut self, key: String, value: V)
        ensures
            final(self).deep_view() == stored(old(self).deep_view(), key@, value.deep_view()),
            distinct_keys(final(self).deep_view()),
    {
        let ghost before = self.deep_view();
        proof {
            use_type_invariant(&*self);
            stored_is_found(before, key@, value.deep_view(), key@);
        }
        let found = self.position(key.as_str());
        let mut entries: Vec<(String, V)> = Vec::new();
        std::mem::swap(&mut entries, &mut self.entries);
        let ghost pair = (key@, value.deep_view());
        match found {
            Some(i) => {
                entries.set(i, (key, value));
                proof {
                    assert(entries.deep_view() =~= before.update(i as int, pair));
                }
            },
            None => {
                entries.push((key, value));
                proof {
                    assert(entries.deep_view() =~= before.push(pair));
                }
            },
        }
        proof {
            assert(forall|i: int|
                0 <= i < entries@.len() ==> entries.deep_view()[i].0 == (
                #[trigger] entries@[i]).0@);
        }
        self.entries = entries;
    }
}

impl<V: Replicate> StringMap<V> {
    /// A map made of `pairs`; of two pairs with the same key the later one counts.
    pub fn of_pairs(pairs: &Vec<(String, V)>) -> (map: Self)
        ensures
            map.deep_view() == stored_all(pairs.deep_view()),
    {
        let mut map: StringMap<V> = StringMap::new();
        let ghost all = pairs.deep_view();
        for i in 0..pairs.len()
            invariant
                all == pairs.deep_view(),
                map.deep_view() == stored_all(all.take(i as int)),
        {
            proof {
                assert(all.take(i + 1).drop_last() =~= all.take(i as int));
                assert(all.take(i + 1).last() == pairs@[i as int].deep_view());
            }
            map.insert(pairs[i].0.clone(), pairs[i].1.replicate());
        }
        proof {
            assert(all.take(pairs.len() as int) =~= all);
        }
        map
    }
}

impl<V: Replicate> Replicate for StringMap<V> {
    fn replicate(&self) -> (copy: Self) {
        proof {
            use_type_invariant(self);
        }
        let mut entries: Vec<(String, V)> = Vec::new();
        proof {
            assert(entries.deep_view() =~= self.entries.deep_view().take(0));
        }
        for i in 0..self.entries.len()
            invariant
                entries.deep_view() == self.entries.deep_view().take(i as int),
        {
            let ghost so_far = entries.deep_view();
            let pair = (self.entries[i].0.clone(), self.entries[i].1.replicate());
            entries.push(pair);
            proof {
                assert(entries.deep_view() =~= so_far.push(self.entries.deep_view()[i as int]));
                assert(entries.deep_view() =~= self.entries.deep_view().take(i + 1));
            }
        }
        proof {
            assert(self.entries.deep_view().take(self.entries.len() as int)
                =~= self.entries.deep_view());
            assert(forall|i: int|
                0 <= i < entries@.len() ==> (#[trigger] entries@[i]).0@
                    == self.entries.deep_view()[i].0) by {
                assert(forall|i: int|
                    0 <= i < entries@.len() ==> entries.deep_view()[i].0 == (
                    #[trigger] entries@[i]).0@);
            }
            assert(forall|i: int|
                0 <= i < entries@.len() ==> (#[trigger] entries@[i]).0@ == self.entries@[i].0@);
        }
        StringMap { entries }
    }
}

impl<V: Replicate> Clone for StringMap<V> {
    fn clone(&self) -> (copy: Self)
        ensures
            copy.deep_view() == self.deep_view(),
    {
        self.replicate()
    }
}

/// Pairs with different keys are stored as they are.
pub proof fn distinct_pairs_are_kept<W>(pairs: Seq<(Seq<char>, W)>)
    requires
        distinct_keys(pairs),
    ensures
        stored_all(pairs) == pairs,
    decreases pairs.len(),
{
    if pairs.len() > 0 {
        let before = pairs.drop_last();
        assert forall|i: int, j: int| 0 <= i < j < before.len() implies (
        #[trigger] before[i]).0 != (#[trigger] before[j]).0 by {
            assert(before[i] == pairs[i] && before[j] == pairs[j]);
        }
        distinct_pairs_are_kept(before);
        if has_key(before, pairs.last().0) {
            let i = key_index(before, pairs.last().0);
            assert(before[i] == pairs[i]);
            assert(pairs[i].0 != pairs[pairs.len() - 1].0);
        }
        assert(stored_all(pairs) =~= pairs);
    }
}

/// Of the pairs with one key the last decides what the key leads to.
pub proof fn last_pair_decides<W>(pairs: Seq<(Seq<char>, W)>, i: int)
    requires
        0 <= i < pairs.len(),
        forall|j: int| i < j < pairs.len() ==> (#[trigger] pairs[j]).0 != pairs[i].0,
    ensures
        lookup(stored_all(pairs), pairs[i].0) == Some(pairs[i].1),
        distinct_keys(stored_all(pairs)),
    decreases pairs.len(),
{
    let before = pairs.drop_last();
    let last = pairs.last();
    stored_pairs_are_distinct(before);
    stored_is_found(stored_all(before), last.0, last.1, pairs[i].0);
    if i < pairs.len() - 1 {
        assert forall|j: int| i < j < before.len() implies (#[trigger] before[j]).0 != before[i].0 by {
            assert(before[j] == pairs[j]);
        }
        last_pair_decides(before, i);
        assert(pairs[pairs.len() - 1].0 != pairs[i].0);
    }
}

/// Storing pairs never repeats a key.
proof fn stored_pairs_are_distinct<W>(pairs: Seq<(Seq<char>, W)>)
    ensures
        distinct_keys(stored_all(pairs)),
    decreases pairs.len(),
{
    if pairs.len() > 0 {
        stored_pairs_are_distinct(pairs.drop_last());
        stored_is_found(
            stored_all(pairs.drop_last()),
            pairs.last().0,
            pairs.last().1,
            pairs.last().0,
        );
    }
}

} // verus!
