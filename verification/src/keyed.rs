//! A small map that keeps its entries in a list, for keys that are not single
//! integers.

use vstd::prelude::*;

verus! {

/// A key that can be told apart from another at run time.
pub trait Key: Copy + Sized {
    /// Whether two keys are the same.
    fn same(self, other: Self) -> (same: bool)
        ensures
            same == (self == other),
    ;
}

/// No two entries have the same key.
pub open spec fn distinct_keys<K, V>(entries: Seq<(K, V)>) -> bool {
    forall|i: int, j: int|
        0 <= i < j < entries.len() ==> (#[trigger] entries[i]).0 != (#[trigger] entries[j]).0
}

/// The map that a list of entries stands for; later entries win.
pub open spec fn map_of<K, V>(entries: Seq<(K, V)>) -> Map<K, V>
    decreases entries.len(),
{
    if entries.len() == 0 {
        Map::empty()
    } else {
        map_of(entries.drop_last()).insert(entries.last().0, entries.last().1)
    }
}

/// In a list without repeated keys every entry counts, and nothing else does.
pub proof fn lemma_map_of<K, V>(entries: Seq<(K, V)>)
    requires
        distinct_keys(entries),
    ensures
        forall|i: int|
            0 <= i < entries.len() ==> map_of(entries).contains_key((#[trigger] entries[i]).0)
                && map_of(entries)[entries[i].0] == entries[i].1,
        forall|k: K| #[trigger]
            map_of(entries).contains_key(k) ==> exists|i: int|
                0 <= i < entries.len() && (#[trigger] entries[i]).0 == k,
    decreases entries.len(),
{
    if entries.len() > 0 {
        let rest = entries.drop_last();
        let last = entries.last();
        assert(entries[entries.len() - 1] == last);
        assert forall|i: int, j: int| 0 <= i < j < rest.len() implies (#[trigger] rest[i]).0 != (
        #[trigger] rest[j]).0 by {
            assert(rest[i] == entries[i] && rest[j] == entries[j]);
        }
        lemma_map_of(rest);
        assert forall|i: int| 0 <= i < entries.len() implies map_of(entries).contains_key(
            (#[trigger] entries[i]).0,
        ) && map_of(entries)[entries[i].0] == entries[i].1 by {
            if i < rest.len() {
                assert(rest[i] == entries[i]);
                assert(entries[i].0 != entries[entries.len() - 1].0);
            }
        }
        assert forall|k: K| #[trigger]
            map_of(entries).contains_key(k) implies exists|i: int|
            0 <= i < entries.len() && (#[trigger] entries[i]).0 == k by {
            if k != last.0 {
                assert(map_of(rest).contains_key(k));
                let i = choose|i: int| 0 <= i < rest.len() && (#[trigger] rest[i]).0 == k;
                assert(entries[i].0 == k);
            } else {
                assert(entries[entries.len() - 1].0 == k);
            }
        }
    }
}

/// A map from keys to values.
#[derive(Debug)]
pub struct KeyedList<K: Key, V: Copy> {
    entries: Vec<(K, V)>,
}

impl<K: Key, V: Copy> View for KeyedList<K, V> {
    type V = Map<K, V>;

    closed spec fn view(&self) -> Map<K, V> {
        map_of(self.entries@)
    }
}

impl<K: Key, V: Copy> KeyedList<K, V> {
    #[verifier::type_invariant]
    spec fn inv(self) -> bool {
        distinct_keys(self.entries@)
    }

    pub fn new() -> (list: Self)
        ensures
            list@ == Map::<K, V>::empty(),
    {
        KeyedList { entries: Vec::new() }
    }

    fn position(&self, key: K) -> (found: Option<usize>)
        ensures
            match found {
                Some(i) => i < self.entries@.len() && self.entries@[i as int].0 == key
                    && self@.contains_key(key) && self@[key] == self.entries@[i as int].1,
                None => !self@.contains_key(key) && forall|i: int|
                    0 <= i < self.entries@.len() ==> (#[trigger] self.entries@[i]).0 != key,
            },
    {
        proof {
            use_type_invariant(self);
            lemma_map_of(self.entries@);
        }
        let mut i: usize = 0;
        while i < self.entries.len()
            invariant
                i <= self.entries.len(),
                forall|j: int| 0 <= j < i ==> (#[trigger] self.entries@[j]).0 != key,
                forall|j: int|
                    0 <= j < self.entries@.len() ==> self@.contains_key(
                        (#[trigger] self.entries@[j]).0,
                    ) && self@[self.entries@[j].0] == self.entries@[j].1,
            decreases self.entries.len() - i,
        {
            if self.entries[i].0.same(key) {
                return Some(i);
            }
            i = i + 1;
        }
        None
    }

    /// The value of a key, if it has one.
    pub fn get(&self, key: K) -> (value: Option<V>)
        ensures
            value == if self@.contains_key(key) {
                Some(self@[key])
            } else {
                None::<V>
            },
    {
        match self.position(key) {
            Some(i) => Some(self.entries[i].1),
            None => None,
        }
    }

    /// Gives a key a value, in place of an earlier one.
    pub fn insert(&mut self, key: K, value: V)
        ensures
            final(self)@ == old(self)@.insert(key, value),
    {
        proof {
            use_type_invariant(&*self);
            lemma_map_of(self.entries@);
        }
        let found: Option<usize> = self.position(key);
        let ghost before = self.entries@;
        let mut entries: Vec<(K, V)> = Vec::new();
        std::mem::swap(&mut entries, &mut self.entries);
        match found {
            Some(i) => {
                entries.set(i, (key, value));
                proof {
                    let after = before.update(i as int, (key, value));
                    assert(entries@ == after);
                    assert forall|a: int, b: int| 0 <= a < b < after.len() implies (
                    #[trigger] after[a]).0 != (#[trigger] after[b]).0 by {
                        assert(before[a].0 != before[b].0);
                    }
                    lemma_map_of(after);
                    assert forall|k: K| map_of(after).contains_key(k) == map_of(
                        before,
                    ).insert(key, value).contains_key(k) by {
                        if map_of(after).contains_key(k) {
                            let j = choose|j: int| 0 <= j < after.len() && (#[trigger] after[j]).0
                                == k;
                            assert(before[j].0 == after[j].0);
                        }
                        if map_of(before).contains_key(k) {
                            let j = choose|j: int|
                                0 <= j < before.len() && (#[trigger] before[j]).0 == k;
                            assert(before[j].0 == after[j].0);
                        }
                    }
                    assert forall|k: K| map_of(after).contains_key(k) implies map_of(after)[k]
                        == map_of(before).insert(key, value)[k] by {
                        let j = choose|j: int| 0 <= j < after.len() && (#[trigger] after[j]).0
                            == k;
                        assert(before[j].0 == after[j].0);
                        if j != i {
                            assert(before[j] == after[j]);
                            assert(k != key);
                        }
                    }
                    assert(map_of(after) =~= map_of(before).insert(key, value));
                }
            },
            None => {
                entries.push((key, value));
                proof {
                    assert(before.push((key, value)).drop_last() =~= before);
                }
            },
        }
        self.entries = entries;
    }

    /// Takes a key out.
    pub fn remove(&mut self, key: K)
        ensures
            final(self)@ == old(self)@.remove(key),
    {
        proof {
            use_type_invariant(&*self);
            lemma_map_of(self.entries@);
        }
        let found: Option<usize> = self.position(key);
        let ghost before = self.entries@;
        let mut entries: Vec<(K, V)> = Vec::new();
        std::mem::swap(&mut entries, &mut self.entries);
        match found {
            Some(i) => {
                entries.remove(i);
                proof {
                    let after = before.remove(i as int);
                    assert(entries@ == after);
                    let at = |a: int| if a < i { a } else { a + 1 };
                    assert forall|a: int, b: int| 0 <= a < b < after.len() implies (
                    #[trigger] after[a]).0 != (#[trigger] after[b]).0 by {
                        assert(before[at(a)].0 != before[at(b)].0);
                    }
                    lemma_map_of(after);
                    assert forall|k: K| map_of(after).contains_key(k) == map_of(before).remove(
                        key,
                    ).contains_key(k) by {
                        if map_of(after).contains_key(k) {
                            let j = choose|j: int| 0 <= j < after.len() && (#[trigger] after[j]).0
                                == k;
                            assert(before[at(j)] == after[j]);
                            assert(before[at(j)].0 != before[i as int].0);
                        }
                        if map_of(before).contains_key(k) && k != key {
                            let j = choose|j: int|
                                0 <= j < before.len() && (#[trigger] before[j]).0 == k;
                            let m = if j < i { j } else { j - 1 };
                            assert(before[j] == after[m]);
                        }
                    }
                    assert forall|k: K| map_of(after).contains_key(k) implies map_of(after)[k]
                        == map_of(before).remove(key)[k] by {
                        let j = choose|j: int| 0 <= j < after.len() && (#[trigger] after[j]).0
                            == k;
                        assert(before[at(j)] == after[j]);
                        assert(before[at(j)].0 != before[i as int].0);
                    }
                    assert(map_of(after) =~= map_of(before).remove(key));
                }
            },
            None => {
                proof {
                    assert(map_of(before).remove(key) =~= map_of(before));
                }
            },
        }
        self.entries = entries;
    }

    /// Takes everything out, and hands out the keys that were there.
    pub fn drain(&mut self) -> (keys: Vec<K>)
        ensures
            final(self)@ == Map::<K, V>::empty(),
            keys@.no_duplicates(),
            forall|k: K| keys@.contains(k) <==> #[trigger] old(self)@.contains_key(k),
    {
        proof {
            use_type_invariant(&*self);
            lemma_map_of(self.entries@);
        }
        let ghost before = self.entries@;
        let mut entries: Vec<(K, V)> = Vec::new();
        std::mem::swap(&mut entries, &mut self.entries);
        let mut keys: Vec<K> = Vec::new();
        let mut i: usize = 0;
        while i < entries.len()
            invariant
                i <= entries.len(),
                entries@ == before,
                keys@.len() == i,
                forall|j: int| 0 <= j < i ==> #[trigger] keys@[j] == before[j].0,
            decreases entries.len() - i,
        {
            keys.push(entries[i].0);
            i = i + 1;
        }
        proof {
            assert forall|a: int, b: int|
                0 <= a < keys@.len() && 0 <= b < keys@.len() && a != b implies keys@[a]
                != keys@[b] by {
                if a < b {
                    assert(before[a].0 != before[b].0);
                } else {
                    assert(before[b].0 != before[a].0);
                }
            }
            assert forall|k: K| keys@.contains(k) <==> #[trigger] map_of(before).contains_key(
                k,
            ) by {
                if keys@.contains(k) {
                    let j = choose|j: int| 0 <= j < keys@.len() && keys@[j] == k;
                    assert(before[j].0 == k);
                }
                if map_of(before).contains_key(k) {
                    let j = choose|j: int| 0 <= j < before.len() && (#[trigger] before[j]).0 == k;
                    assert(keys@[j] == k);
                }
            }
        }
        keys
    }

    /// The entries, in no particular order.
    pub fn entries(&self) -> (entries: &Vec<(K, V)>)
        ensures
            distinct_keys(entries@),
            map_of(entries@) == self@,
    {
        proof {
            use_type_invariant(self);
        }
        &self.entries
    }
}

} // verus!
