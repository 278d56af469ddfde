//! A map from keys to values, kept in a vector.

use crate::bytes::same;
use vstd::prelude::*;

verus! {

/// What can be the key of a [`StorageMap`].
pub trait Key: Copy {
    /// Whether two keys are one and the same.
    fn is(&self, other: &Self) -> (r: bool)
        ensures
            r == (*self == *other),
    ;
}

impl Key for u32 {
    fn is(&self, other: &Self) -> (r: bool) {
        *self == *other
    }
}

impl Key for [u8; 32] {
    fn is(&self, other: &Self) -> (r: bool) {
        same(self, other)
    }
}

/// A map that holds its entries in a vector. Where a key occurs twice, the later entry counts.
#[derive(Debug)]
pub struct StorageMap<K, V> {
    entries: Vec<(K, V)>,
}

/// The map that a list of entries spells.
pub closed spec fn contents<K, V>(entries: Seq<(K, V)>) -> Map<K, V>
    decreases entries.len(),
{
    if entries.len() == 0 {
        Map::empty()
    } else {
        contents(entries.drop_last()).insert(entries.last().0, entries.last().1)
    }
}

impl<K, V> View for StorageMap<K, V> {
    type V = Map<K, V>;

    closed spec fn view(&self) -> Map<K, V> {
        contents(self.entries@)
    }
}

/// Entries under other keys do not bear on what is found under `key`.
proof fn lemma_absent<K, V>(entries: Seq<(K, V)>, key: K)
    requires
        forall|i: int| 0 <= i < entries.len() ==> (#[trigger] entries[i]).0 != key,
    ensures
        !contents(entries).contains_key(key),
    decreases entries.len(),
{
    if entries.len() > 0 {
        assert forall|i: int| 0 <= i < entries.drop_last().len() implies (
        #[trigger] entries.drop_last()[i]).0 != key by {
            assert(entries.drop_last()[i] == entries[i]);
        }
        lemma_absent(entries.drop_last(), key);
    }
}

/// The last entry under `key` is what is found there.
proof fn lemma_present<K, V>(entries: Seq<(K, V)>, key: K, at: int)
    requires
        0 <= at < entries.len(),
        entries[at].0 == key,
        forall|i: int| at < i < entries.len() ==> (#[trigger] entries[i]).0 != key,
    ensures
        contents(entries).contains_key(key),
        contents(entries)[key] == entries[at].1,
    decreases entries.len(),
{
    if at < entries.len() - 1 {
        assert(entries.last().0 != key);
        assert forall|i: int| at < i < entries.drop_last().len() implies (
        #[trigger] entries.drop_last()[i]).0 != key by {
            assert(entries.drop_last()[i] == entries[i]);
        }
        lemma_present(entries.drop_last(), key, at);
    }
}

/// Entries other than those under `key`.
spec fn others<K, V>(entries: Seq<(K, V)>, key: K) -> Seq<(K, V)> {
    entries.filter(|e: (K, V)| e.0 != key)
}

/// Dropping every entry under `key` removes `key` from the map, and no other.
proof fn lemma_others<K, V>(entries: Seq<(K, V)>, key: K)
    ensures
        contents(others(entries, key)) == contents(entries).remove(key),
    decreases entries.len(),
{
    reveal(Seq::filter);
    if entries.len() == 0 {
        assert(others(entries, key) =~= Seq::empty());
        assert(contents(others(entries, key)) =~= contents(entries).remove(key));
    } else {
        lemma_others(entries.drop_last(), key);
        let rest = others(entries.drop_last(), key);
        if entries.last().0 != key {
            assert(others(entries, key) =~= rest.push(entries.last()));
            assert(rest.push(entries.last()).drop_last() =~= rest);
        } else {
            assert(others(entries, key) =~= rest);
        }
        assert(contents(others(entries, key)) =~= contents(entries).remove(key));
    }
}

impl<K: Key, V> StorageMap<K, V> {
    /// The empty map.
    pub fn new() -> (r: Self)
        ensures
            r@ == Map::<K, V>::empty(),
    {
        StorageMap { entries: Vec::new() }
    }

    /// The place of the last entry under `key`.
    fn find(&self, key: &K) -> (r: Option<usize>)
        ensures
            match r {
                Some(at) => at < self.entries@.len() && self@.contains_key(*key) && self@[*key]
                    == self.entries@[at as int].1,
                None => !self@.contains_key(*key),
            },
    {
        let mut i: usize = self.entries.len();
        while i > 0
            invariant
                i <= self.entries@.len(),
                forall|j: int|
                    i <= j < self.entries@.len() ==> (#[trigger] self.entries@[j]).0 != *key,
            decreases i,
        {
            i = i - 1;
            if self.entries[i].0.is(key) {
                proof {
                    lemma_present(self.entries@, *key, i as int);
                }
                return Some(i);
            }
        }
        proof {
            lemma_absent(self.entries@, *key);
        }
        None
    }

    /// Whether something is held under `key`.
    pub fn contains_key(&self, key: &K) -> (r: bool)
        ensures
            r == self@.contains_key(*key),
    {
        self.find(key).is_some()
    }

    /// What is held under `key`.
    pub fn get(&self, key: &K) -> (r: Option<&V>)
        ensures
            match r {
                Some(value) => self@.contains_key(*key) && *value == self@[*key],
                None => !self@.contains_key(*key),
            },
    {
        match self.find(key) {
            Some(at) => Some(&self.entries[at].1),
            None => None,
        }
    }

    /// Takes out what is held under `key`, and hands it over.
    pub fn take(&mut self, key: &K) -> (r: Option<V>)
        ensures
            final(self)@ == old(self)@.remove(*key),
            match r {
                Some(value) => old(self)@.contains_key(*key) && value == old(self)@[*key],
                None => !old(self)@.contains_key(*key),
            },
    {
        let ghost before = self.entries@;
        let ghost mut seen: int = 0;
        let mut found: Option<V> = None;
        let mut i: usize = 0;
        proof {
            reveal(Seq::filter);
        }
        assert(others(before.take(0), *key) =~= Seq::empty());
        while i < self.entries.len()
            invariant
                0 <= seen <= before.len(),
                i <= self.entries@.len(),
                self.entries@ =~= others(before.take(seen), *key) + before.skip(seen),
                i == others(before.take(seen), *key).len(),
                match found {
                    Some(value) => contents(before.take(seen)).contains_key(*key) && value
                        == contents(before.take(seen))[*key],
                    None => !contents(before.take(seen)).contains_key(*key),
                },
            decreases before.len() - seen,
        {
            let ghost kept = others(before.take(seen), *key);
            let ghost entry = before[seen];
            proof {
                reveal(Seq::filter);
                assert(self.entries@[i as int] == before.skip(seen)[0]);
                assert(before.take(seen + 1).drop_last() =~= before.take(seen));
                assert(before.take(seen + 1).last() == entry);
                assert(before.skip(seen) =~= seq![entry] + before.skip(seen + 1));
            }
            if self.entries[i].0.is(key) {
                let (_, value) = self.entries.remove(i);
                found = Some(value);
                assert(others(before.take(seen + 1), *key) =~= kept);
            } else {
                i = i + 1;
                assert(others(before.take(seen + 1), *key) =~= kept.push(entry));
            }
            proof {
                seen = seen + 1;
            }
        }
        proof {
            assert(before.take(seen) =~= before);
            lemma_others(before, *key);
        }
        found
    }

    /// Holds `value` under `key`, in place of what was there.
    pub fn insert(&mut self, key: K, value: V)
        ensures
            final(self)@ == old(self)@.insert(key, value),
    {
        let _ = self.take(&key);
        let ghost before = self.entries@;
        self.entries.push((key, value));
        assert(self.entries@.drop_last() =~= before);
        assert(self@ =~= old(self)@.insert(key, value));
    }
}

} // verus!
