//! A finite map keyed by strings, the storage primitive shared by all
//! pallets.
//!
//! The map is held as a vector of entries in which no key occurs twice, and
//! is viewed as a mathematical `Map` from the key's characters to the value.
//! Two keys are the same key exactly when they hold the same characters.

use vstd::prelude::*;

verus! {

/// Whether some entry of `entries` is stored under `k`.
spec fn has_key<V>(entries: Seq<(String, V)>, k: Seq<char>) -> bool {
    exists|i: int| 0 <= i < entries.len() && (#[trigger] entries[i]).0@ == k
}

/// The position of an entry of `entries` that is stored under `k`.
spec fn index_of<V>(entries: Seq<(String, V)>, k: Seq<char>) -> int {
    choose|i: int| 0 <= i < entries.len() && (#[trigger] entries[i]).0@ == k
}

/// Whether no key occurs twice in `entries`.
spec fn distinct_keys<V>(entries: Seq<(String, V)>) -> bool {
    forall|i: int, j: int|
        0 <= i < j < entries.len() ==> (#[trigger] entries[i]).0@ != (#[trigger] entries[j]).0@
}

/// The model of a sequence of entries: the map that sends each key present
/// in `entries` to the value stored beside it.
spec fn entries_map<V>(entries: Seq<(String, V)>) -> Map<Seq<char>, V> {
    Map::new(
        |k: Seq<char>| has_key(entries, k),
        |k: Seq<char>| entries[index_of(entries, k)].1,
    )
}

/// With distinct keys, the entry at position `i` is the one the model maps
/// its key to.
proof fn lemma_entry_in_map<V>(entries: Seq<(String, V)>, i: int)
    requires
        distinct_keys(entries),
        0 <= i < entries.len(),
    ensures
        entries_map(entries).contains_key(entries[i].0@),
        entries_map(entries)[entries[i].0@] == entries[i].1,
{
    let k = entries[i].0@;
    assert(has_key(entries, k));
    assert(index_of(entries, k) == i);
}

/// The model of a sequence of entries has a finite domain.
proof fn lemma_entries_map_finite<V>(entries: Seq<(String, V)>)
    ensures
        entries_map(entries).dom().finite(),
    decreases entries.len(),
{
    if entries.len() == 0 {
        assert(entries_map(entries).dom() =~= Set::<Seq<char>>::empty());
    } else {
        let front = entries.drop_last();
        let last_key = entries.last().0@;
        lemma_entries_map_finite(front);
        assert forall|k: Seq<char>| has_key(entries, k) <==> (has_key(front, k) || k
            == last_key) by {
            if has_key(entries, k) {
                let i = index_of(entries, k);
                if i < front.len() {
                    assert(front[i].0@ == k);
                }
            }
            if has_key(front, k) {
                assert(entries[index_of(front, k)].0@ == k);
            }
            if k == last_key {
                assert(entries[entries.len() - 1].0@ == k);
            }
        }
        assert(entries_map(entries).dom() =~= entries_map(front).dom().insert(last_key));
    }
}

/// Overwriting the entry at position `i` with one of the same key models
/// an insertion under that key.
proof fn lemma_update_models_insert<V>(entries: Seq<(String, V)>, i: int, key: String, value: V)
    requires
        distinct_keys(entries),
        0 <= i < entries.len(),
        entries[i].0@ == key@,
    ensures
        distinct_keys(entries.update(i, (key, value))),
        entries_map(entries.update(i, (key, value))) == entries_map(entries).insert(key@, value),
{
    let after = entries.update(i, (key, value));
    assert(distinct_keys(after)) by {
        assert forall|a: int, b: int| 0 <= a < b < after.len() implies (#[trigger] after[a]).0@ != (
        #[trigger] after[b]).0@ by {
            assert(after[a].0@ == entries[a].0@);
            assert(after[b].0@ == entries[b].0@);
        }
    }
    assert forall|q: Seq<char>| has_key(after, q) <==> (has_key(entries, q) || q == key@) by {
        if has_key(after, q) {
            assert(entries[index_of(after, q)].0@ == q);
        }
        if has_key(entries, q) {
            assert(after[index_of(entries, q)].0@ == q);
        }
        if q == key@ {
            assert(after[i].0@ == q);
        }
    }
    assert forall|q: Seq<char>| has_key(after, q) implies entries_map(after)[q] == (if q == key@ {
        value
    } else {
        entries_map(entries)[q]
    }) by {
        let j = index_of(after, q);
        lemma_entry_in_map(after, j);
        assert(entries[j].0@ == q);
        lemma_entry_in_map(entries, j);
    }
    assert(entries_map(after) =~= entries_map(entries).insert(key@, value));
}

/// Appending an entry under a key that is not present models an insertion
/// under that key.
proof fn lemma_push_models_insert<V>(entries: Seq<(String, V)>, key: String, value: V)
    requires
        distinct_keys(entries),
        !has_key(entries, key@),
    ensures
        distinct_keys(entries.push((key, value))),
        entries_map(entries.push((key, value))) == entries_map(entries).insert(key@, value),
{
    let after = entries.push((key, value));
    assert(distinct_keys(after)) by {
        assert forall|a: int, b: int| 0 <= a < b < after.len() implies (#[trigger] after[a]).0@ != (
        #[trigger] after[b]).0@ by {
            assert(after[a] == entries[a]);
            if b < entries.len() {
                assert(after[b] == entries[b]);
            }
        }
    }
    assert forall|q: Seq<char>| has_key(after, q) <==> (has_key(entries, q) || q == key@) by {
        if has_key(after, q) {
            let j = index_of(after, q);
            if j < entries.len() {
                assert(entries[j].0@ == q);
            }
        }
        if has_key(entries, q) {
            assert(after[index_of(entries, q)].0@ == q);
        }
        if q == key@ {
            assert(after[after.len() - 1].0@ == q);
        }
    }
    assert forall|q: Seq<char>| has_key(after, q) implies entries_map(after)[q] == (if q == key@ {
        value
    } else {
        entries_map(entries)[q]
    }) by {
        let j = index_of(after, q);
        lemma_entry_in_map(after, j);
        if j < entries.len() {
            assert(entries[j].0@ == q);
            lemma_entry_in_map(entries, j);
        }
    }
    assert(entries_map(after) =~= entries_map(entries).insert(key@, value));
}

/// Taking the entry at position `i` out models the removal of its key.
proof fn lemma_remove_models_remove<V>(entries: Seq<(String, V)>, i: int)
    requires
        distinct_keys(entries),
        0 <= i < entries.len(),
    ensures
        distinct_keys(entries.remove(i)),
        entries_map(entries.remove(i)) == entries_map(entries).remove(entries[i].0@),
{
    let after = entries.remove(i);
    let k = entries[i].0@;
    let shifted = |j: int|
        if j < i {
            j
        } else {
            j + 1
        };
    assert forall|j: int| 0 <= j < after.len() implies #[trigger] after[j] == entries[shifted(
        j,
    )] by {}
    assert(distinct_keys(after)) by {
        assert forall|a: int, b: int| 0 <= a < b < after.len() implies (#[trigger] after[a]).0@ != (
        #[trigger] after[b]).0@ by {
            assert(after[a] == entries[shifted(a)]);
            assert(after[b] == entries[shifted(b)]);
        }
    }
    assert forall|q: Seq<char>| has_key(after, q) <==> (has_key(entries, q) && q != k) by {
        if has_key(after, q) {
            let j = index_of(after, q);
            assert(after[j] == entries[shifted(j)]);
            assert(entries[shifted(j)].0@ == q);
        }
        if has_key(entries, q) && q != k {
            let j0 = index_of(entries, q);
            let j = if j0 < i {
                j0
            } else {
                j0 - 1
            };
            assert(after[j] == entries[shifted(j)]);
            assert(after[j].0@ == q);
        }
    }
    assert forall|q: Seq<char>| has_key(after, q) implies entries_map(after)[q] == entries_map(
        entries,
    )[q] by {
        let j = index_of(after, q);
        assert(after[j] == entries[shifted(j)]);
        lemma_entry_in_map(after, j);
        lemma_entry_in_map(entries, shifted(j));
    }
    assert(entries_map(after) =~= entries_map(entries).remove(k));
}

/// A finite map from string keys to values of type `V`.
#[derive(Debug)]
pub struct StorageMap<V> {
    entries: Vec<(String, V)>,
}

impl<V> View for StorageMap<V> {
    type V = Map<Seq<char>, V>;

    closed spec fn view(&self) -> Map<Seq<char>, V> {
        entries_map(self.entries@)
    }
}

impl<V> StorageMap<V> {
    #[verifier::type_invariant]
    spec fn well_formed(self) -> bool {
        distinct_keys(self.entries@)
    }

    /// A map holds finitely many keys.
    pub proof fn lemma_view_finite(self)
        ensures
            self@.dom().finite(),
    {
        lemma_entries_map_finite(self.entries@);
    }

    /// Creates an empty map.
    pub fn new() -> (map: Self)
        ensures
            map@ == Map::<Seq<char>, V>::empty(),
    {
        let map = StorageMap { entries: Vec::new() };
        assert(map@ =~= Map::<Seq<char>, V>::empty());
        map
    }

    /// Finds the position of the entry stored under `key`.
    fn position(&self, key: &String) -> (found: Option<usize>)
        ensures
            match found {
                Some(i) => i < self.entries@.len() && self.entries@[i as int].0@ == key@,
                None => !has_key(self.entries@, key@),
            },
    {
        let count: usize = self.entries.len();
        let mut index: usize = 0;
        while index < count
            invariant
                count == self.entries@.len(),
                index <= count,
                forall|j: int| 0 <= j < index ==> (#[trigger] self.entries@[j]).0@ != key@,
            decreases count - index,
        {
            if self.entries[index].0 == *key {
                return Some(index);
            }
            index += 1;
        }
        None
    }

    /// Looks up the value stored under `key`.
    pub fn get(&self, key: &String) -> (found: Option<&V>)
        ensures
            match found {
                Some(value) => self@.contains_key(key@) && *value == self@[key@],
                None => !self@.contains_key(key@),
            },
    {
        match self.position(key) {
            Some(index) => {
                proof {
                    use_type_invariant(self);
                    lemma_entry_in_map(self.entries@, index as int);
                }
                Some(&self.entries[index].1)
            },
            None => None,
        }
    }

    /// Stores `value` under `key`, replacing any value stored there before.
    pub fn insert(&mut self, key: String, value: V)
        ensures
            final(self)@ == old(self)@.insert(key@, value),
    {
        proof {
            use_type_invariant(&*self);
        }
        let found = self.position(&key);
        let mut entries: Vec<(String, V)> = Vec::new();
        std::mem::swap(&mut entries, &mut self.entries);
        match found {
            Some(index) => {
                proof {
                    lemma_update_models_insert(entries@, index as int, key, value);
                }
                entries.set(index, (key, value));
            },
            None => {
                proof {
                    lemma_push_models_insert(entries@, key, value);
                }
                entries.push((key, value));
            },
        }
        self.entries = entries;
    }

    /// Removes `key` and whatever is stored under it.
    pub fn remove(&mut self, key: &String)
        ensures
            final(self)@ == old(self)@.remove(key@),
    {
        proof {
            use_type_invariant(&*self);
        }
        match self.position(key) {
            Some(index) => {
                let mut entries: Vec<(String, V)> = Vec::new();
                std::mem::swap(&mut entries, &mut self.entries);
                proof {
                    lemma_remove_models_remove(entries@, index as int);
                }
                let _ = entries.remove(index);
                self.entries = entries;
            },
            None => {
                assert(self@ =~= self@.remove(key@));
            },
        }
    }
}

} // verus!
