//! A map keyed by byte strings, kept as a list of distinct keys with their values.
use vstd::prelude::*;

use crate::shared::bytes_eq;

verus! {

/// The map a list of entries with distinct keys stands for
pub open spec fn spec_map_of<K, V>(entries: Seq<(K, V)>) -> Map<K, V>
    decreases entries.len(),
{
    if entries.len() == 0 {
        Map::empty()
    } else {
        spec_map_of(entries.drop_last()).insert(entries.last().0, entries.last().1)
    }
}

/// Whether no key occurs twice
pub open spec fn spec_keys_distinct<K, V>(entries: Seq<(K, V)>) -> bool {
    forall|i: int, j: int|
        0 <= i < entries.len() && 0 <= j < entries.len() && i != j ==> #[trigger] entries[i].0
            != #[trigger] entries[j].0
}

/// A key is in the map exactly when an entry holds it, and then maps to that entry's value
pub proof fn lemma_map_of_index<K, V>(entries: Seq<(K, V)>, k: K)
    requires
        spec_keys_distinct(entries),
    ensures
        spec_map_of(entries).contains_key(k) <==> exists|i: int|
            0 <= i < entries.len() && #[trigger] entries[i].0 == k,
        forall|i: int|
            0 <= i < entries.len() && #[trigger] entries[i].0 == k ==> spec_map_of(entries)[k]
                == entries[i].1,
    decreases entries.len(),
{
    if entries.len() > 0 {
        let init = entries.drop_last();
        assert(spec_keys_distinct(init));
        lemma_map_of_index(init, k);
        if entries.last().0 != k {
            if spec_map_of(init).contains_key(k) {
                let i = choose|i: int| 0 <= i < init.len() && #[trigger] init[i].0 == k;
                assert(entries[i].0 == k);
            }
            if exists|i: int| 0 <= i < entries.len() && #[trigger] entries[i].0 == k {
                let i = choose|i: int| 0 <= i < entries.len() && #[trigger] entries[i].0 == k;
                assert(init[i].0 == k);
            }
        } else {
            assert(entries[entries.len() - 1].0 == k);
        }
    }
}

/// Replacing the value of entry `i` replaces the value of its key
pub proof fn lemma_map_of_update<K, V>(entries: Seq<(K, V)>, i: int, v: V)
    requires
        spec_keys_distinct(entries),
        0 <= i < entries.len(),
    ensures
        spec_keys_distinct(entries.update(i, (entries[i].0, v))),
        spec_map_of(entries.update(i, (entries[i].0, v))) == spec_map_of(entries).insert(
            entries[i].0,
            v,
        ),
{
    let e2 = entries.update(i, (entries[i].0, v));
    assert(spec_keys_distinct(e2)) by {
        assert forall|a: int, b: int|
            0 <= a < e2.len() && 0 <= b < e2.len() && a != b implies #[trigger] e2[a].0
            != #[trigger] e2[b].0 by {
            assert(entries[a].0 != entries[b].0);
        }
    }
    assert forall|k: K| #[trigger]
        spec_map_of(e2).contains_key(k) == spec_map_of(entries).insert(entries[i].0, v).contains_key(k) by {
        lemma_map_of_index(entries, k);
        lemma_map_of_index(e2, k);
        if exists|j: int| 0 <= j < entries.len() && #[trigger] entries[j].0 == k {
            let j = choose|j: int| 0 <= j < entries.len() && #[trigger] entries[j].0 == k;
            assert(e2[j].0 == k);
        }
        if exists|j: int| 0 <= j < e2.len() && #[trigger] e2[j].0 == k {
            let j = choose|j: int| 0 <= j < e2.len() && #[trigger] e2[j].0 == k;
            assert(entries[j].0 == k);
        }
    }
    assert forall|k: K| #[trigger] spec_map_of(e2).contains_key(k) implies spec_map_of(e2)[k]
        == spec_map_of(entries).insert(entries[i].0, v)[k] by {
        lemma_map_of_index(entries, k);
        lemma_map_of_index(e2, k);
        let j = choose|j: int| 0 <= j < e2.len() && #[trigger] e2[j].0 == k;
        assert(entries[j].0 == k);
    }
    assert(spec_map_of(e2) =~= spec_map_of(entries).insert(entries[i].0, v));
}

/// Removing entry `i` removes its key
pub proof fn lemma_map_of_remove<K, V>(entries: Seq<(K, V)>, i: int)
    requires
        spec_keys_distinct(entries),
        0 <= i < entries.len(),
    ensures
        spec_keys_distinct(entries.remove(i)),
        spec_map_of(entries.remove(i)) == spec_map_of(entries).remove(entries[i].0),
{
    let e2 = entries.remove(i);
    assert(spec_keys_distinct(e2)) by {
        assert forall|a: int, b: int|
            0 <= a < e2.len() && 0 <= b < e2.len() && a != b implies #[trigger] e2[a].0
            != #[trigger] e2[b].0 by {
            let a1 = if a < i { a } else { a + 1 };
            let b1 = if b < i { b } else { b + 1 };
            assert(e2[a] == entries[a1]);
            assert(e2[b] == entries[b1]);
            assert(entries[a1].0 != entries[b1].0);
        }
    }
    assert forall|k: K| #[trigger]
        spec_map_of(e2).contains_key(k) == spec_map_of(entries).remove(entries[i].0).contains_key(k) by {
        lemma_map_of_index(entries, k);
        lemma_map_of_index(e2, k);
        if exists|j: int| 0 <= j < e2.len() && #[trigger] e2[j].0 == k {
            let j = choose|j: int| 0 <= j < e2.len() && #[trigger] e2[j].0 == k;
            let j1 = if j < i { j } else { j + 1 };
            assert(entries[j1].0 == k);
        }
        if k != entries[i].0 && exists|j: int| 0 <= j < entries.len() && #[trigger] entries[j].0 == k {
            let j = choose|j: int| 0 <= j < entries.len() && #[trigger] entries[j].0 == k;
            let j2 = if j < i { j } else { j - 1 };
            assert(e2[j2].0 == k);
        }
    }
    assert forall|k: K| #[trigger] spec_map_of(e2).contains_key(k) implies spec_map_of(e2)[k]
        == spec_map_of(entries).remove(entries[i].0)[k] by {
        lemma_map_of_index(entries, k);
        lemma_map_of_index(e2, k);
        let j = choose|j: int| 0 <= j < e2.len() && #[trigger] e2[j].0 == k;
        let j1 = if j < i { j } else { j + 1 };
        assert(entries[j1].0 == k);
    }
    assert(spec_map_of(e2) =~= spec_map_of(entries).remove(entries[i].0));
}

/// A map keyed by byte strings
pub struct ByteMap<V> {
    entries: Vec<(Vec<u8>, V)>,
}

impl<V> ByteMap<V> {
    /// The entries, keys as byte sequences
    pub closed spec fn spec_entries(&self) -> Seq<(Seq<u8>, V)> {
        self.entries@.map_values(|e: (Vec<u8>, V)| (e.0@, e.1))
    }

    #[verifier::type_invariant]
    closed spec fn inv(self) -> bool {
        spec_keys_distinct(self.spec_entries())
    }

    /// The map held
    pub closed spec fn spec_map(&self) -> Map<Seq<u8>, V> {
        spec_map_of(self.spec_entries())
    }
}

impl<V: Copy> ByteMap<V> {
    /// An empty map
    pub fn new() -> (r: ByteMap<V>)
        ensures
            r.spec_map() == Map::<Seq<u8>, V>::empty(),
    {
        let r = ByteMap { entries: Vec::new() };
        assert(r.spec_entries() =~= Seq::<(Seq<u8>, V)>::empty());
        r
    }

    /// Number of keys
    pub fn len(&self) -> (r: usize)
        ensures
            r == self.spec_map().dom().len(),
    {
        proof {
            use_type_invariant(self);
            lemma_map_of_len(self.spec_entries());
        }
        self.entries.len()
    }

    /// Position of the entry holding `key`
    fn find(&self, key: &[u8]) -> (r: Option<usize>)
        ensures
            match r {
                Some(i) => i < self.spec_entries().len() && self.spec_entries()[i as int].0
                    == key@,
                None => forall|i: int|
                    0 <= i < self.spec_entries().len() ==> #[trigger] self.spec_entries()[i].0
                        != key@,
            },
    {
        let mut i: usize = 0;
        while i < self.entries.len()
            invariant
                i <= self.entries@.len(),
                forall|j: int| 0 <= j < i ==> #[trigger] self.spec_entries()[j].0 != key@,
            decreases self.entries@.len() - i,
        {
            if bytes_eq(self.entries[i].0.as_slice(), key) {
                return Some(i);
            }
            i = i + 1;
        }
        None
    }

    /// The value held for `key`
    pub fn get(&self, key: &[u8]) -> (r: Option<V>)
        ensures
            r == if self.spec_map().contains_key(key@) {
                Some(self.spec_map()[key@])
            } else {
                None::<V>
            },
    {
        proof {
            use_type_invariant(self);
            lemma_map_of_index(self.spec_entries(), key@);
        }
        match self.find(key) {
            Some(i) => Some(self.entries[i].1),
            None => None,
        }
    }

    /// Set the value of `key`, returning the value it held before
    pub fn insert(&mut self, key: Vec<u8>, v: V) -> (r: Option<V>)
        ensures
            final(self).spec_map() == old(self).spec_map().insert(key@, v),
            r == if old(self).spec_map().contains_key(key@) {
                Some(old(self).spec_map()[key@])
            } else {
                None::<V>
            },
    {
        proof {
            use_type_invariant(&*self);
            lemma_map_of_index(self.spec_entries(), key@);
        }
        let ghost old_entries = self.spec_entries();
        match self.find(key.as_slice()) {
            Some(i) => {
                let prev = self.entries[i].1;
                let mut entries = Vec::new();
                std::mem::swap(&mut entries, &mut self.entries);
                entries.set(i, (key, v));
                proof {
                    lemma_map_of_update(old_entries, i as int, v);
                    assert(entries@.map_values(|e: (Vec<u8>, V)| (e.0@, e.1)) =~= old_entries.update(
                        i as int,
                        (old_entries[i as int].0, v),
                    ));
                }
                self.entries = entries;
                Some(prev)
            },
            None => {
                let mut entries = Vec::new();
                std::mem::swap(&mut entries, &mut self.entries);
                let ghost k = key@;
                entries.push((key, v));
                proof {
                    let e2 = entries@.map_values(|e: (Vec<u8>, V)| (e.0@, e.1));
                    assert(e2 =~= old_entries.push((k, v)));
                    assert(e2.drop_last() =~= old_entries);
                    assert(spec_keys_distinct(e2)) by {
                        assert forall|a: int, b: int|
                            0 <= a < e2.len() && 0 <= b < e2.len() && a != b implies #[trigger] e2[a].0
                            != #[trigger] e2[b].0 by {
                            if a < old_entries.len() && b < old_entries.len() {
                                assert(old_entries[a].0 != old_entries[b].0);
                            } else if a < old_entries.len() {
                                assert(old_entries[a].0 != k);
                            } else {
                                assert(old_entries[b].0 != k);
                            }
                        }
                    }
                }
                self.entries = entries;
                None
            },
        }
    }

    /// Remove `key`, returning the value it held
    pub fn remove(&mut self, key: &[u8]) -> (r: Option<V>)
        ensures
            final(self).spec_map() == old(self).spec_map().remove(key@),
            r == if old(self).spec_map().contains_key(key@) {
                Some(old(self).spec_map()[key@])
            } else {
                None::<V>
            },
    {
        proof {
            use_type_invariant(&*self);
            lemma_map_of_index(self.spec_entries(), key@);
        }
        let ghost old_entries = self.spec_entries();
        match self.find(key) {
            Some(i) => {
                let mut entries = Vec::new();
                std::mem::swap(&mut entries, &mut self.entries);
                let (_, prev) = entries.remove(i);
                proof {
                    lemma_map_of_remove(old_entries, i as int);
                    assert(entries@.map_values(|e: (Vec<u8>, V)| (e.0@, e.1)) =~= old_entries.remove(
                        i as int,
                    ));
                }
                self.entries = entries;
                Some(prev)
            },
            None => {
                proof {
                    assert(spec_map_of(old_entries).remove(key@) =~= spec_map_of(old_entries));
                }
                None
            },
        }
    }
}

/// The map of distinct keys has as many keys as entries
pub proof fn lemma_map_of_len<K, V>(entries: Seq<(K, V)>)
    requires
        spec_keys_distinct(entries),
    ensures
        spec_map_of(entries).dom().finite(),
        spec_map_of(entries).dom().len() == entries.len(),
    decreases entries.len(),
{
    if entries.len() > 0 {
        let init = entries.drop_last();
        assert(spec_keys_distinct(init));
        lemma_map_of_len(init);
        lemma_map_of_index(init, entries.last().0);
        if spec_map_of(init).contains_key(entries.last().0) {
            let i = choose|i: int| 0 <= i < init.len() && #[trigger] init[i].0 == entries.last().0;
            assert(entries[i].0 == entries[entries.len() - 1].0);
        }
    }
}

} // verus!
