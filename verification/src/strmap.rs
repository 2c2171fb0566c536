//! A small map from strings to values that keeps the order of insertion.
//!
//! It stands where free-form attributes are kept: the metadata of snapshots
//! and backups, and the key tables of the authentication module.

use vstd::prelude::*;

verus! {

/// A map keyed by strings.  No key occurs twice; entries stay in the order in
/// which their keys first came.
#[derive(Debug)]
pub struct StrMap<V> {
    entries: Vec<(String, V)>,
}

/// The keys of a list of entries.
pub open spec fn keys_of<V>(entries: Seq<(String, V)>) -> Seq<Seq<char>> {
    entries.map_values(|e: (String, V)| e.0@)
}

/// The values of a list of entries.
pub open spec fn values_of<V>(entries: Seq<(String, V)>) -> Seq<V> {
    entries.map_values(|e: (String, V)| e.1)
}

/// The index of `key` among `keys`, where it is one of them.
pub open spec fn index_of(keys: Seq<Seq<char>>, key: Seq<char>) -> int {
    choose|i: int| 0 <= i < keys.len() && keys[i] == key
}

/// A map of strings, seen as a map of texts.
pub open spec fn text_map(m: Map<Seq<char>, String>) -> Map<Seq<char>, Seq<char>> {
    m.map_values(|v: String| v@)
}

/// The map that keys and values in pairs stand for.
pub open spec fn map_of<V>(keys: Seq<Seq<char>>, values: Seq<V>) -> Map<Seq<char>, V> {
    Map::new(|k: Seq<char>| keys.contains(k), |k: Seq<char>| values[index_of(keys, k)])
}

/// Where no key occurs twice, the entry at position `i` is what the map has
/// for its key.
pub proof fn lemma_map_of_index<V>(keys: Seq<Seq<char>>, values: Seq<V>, i: int)
    requires
        keys.no_duplicates(),
        0 <= i < keys.len(),
    ensures
        map_of(keys, values).contains_key(keys[i]),
        map_of(keys, values)[keys[i]] == values[i],
        index_of(keys, keys[i]) == i,
{
    let j = index_of(keys, keys[i]);
    assert(0 <= j < keys.len() && keys[j] == keys[i]);
}

/// Setting the value at the place of a key is `Map::insert` for that key.
pub proof fn lemma_map_of_update<V>(keys: Seq<Seq<char>>, values: Seq<V>, i: int, value: V)
    requires
        keys.no_duplicates(),
        keys.len() == values.len(),
        0 <= i < keys.len(),
    ensures
        map_of(keys, values.update(i, value)) == map_of(keys, values).insert(keys[i], value),
{
    let a = map_of(keys, values.update(i, value));
    let b = map_of(keys, values).insert(keys[i], value);
    assert forall|k: Seq<char>| #[trigger] a.contains_key(k) implies a[k] == b[k] by {
        let j = index_of(keys, k);
        assert(0 <= j < keys.len() && keys[j] == k);
        lemma_map_of_index(keys, values, j);
    }
    assert(a =~= b);
}

/// A new key with its value at the end is `Map::insert` for that key.
pub proof fn lemma_map_of_push<V>(keys: Seq<Seq<char>>, values: Seq<V>, key: Seq<char>, value: V)
    requires
        keys.no_duplicates(),
        keys.len() == values.len(),
        !keys.contains(key),
    ensures
        keys.push(key).no_duplicates(),
        map_of(keys.push(key), values.push(value)) == map_of(keys, values).insert(key, value),
{
    let n = keys.len() as int;
    let a = map_of(keys.push(key), values.push(value));
    let b = map_of(keys, values).insert(key, value);
    assert forall|k: Seq<char>| #[trigger] a.contains_key(k) implies b.contains_key(k) && a[k]
        == b[k] by {
        let j = index_of(keys.push(key), k);
        assert(0 <= j <= n && keys.push(key)[j] == k);
        if j < n {
            assert(keys[j] == k);
            lemma_map_of_index(keys, values, j);
        }
    }
    assert forall|k: Seq<char>| #[trigger] b.contains_key(k) implies a.contains_key(k) by {
        if k == key {
            assert(keys.push(key)[n] == k);
        } else {
            let j = index_of(keys, k);
            assert(0 <= j < n && keys[j] == k);
            assert(keys.push(key)[j] == k);
        }
    }
    assert(a =~= b);
}

/// Taking the entry at the place of a key out is `Map::remove` for that key.
pub proof fn lemma_map_of_remove<V>(keys: Seq<Seq<char>>, values: Seq<V>, i: int)
    requires
        keys.no_duplicates(),
        keys.len() == values.len(),
        0 <= i < keys.len(),
    ensures
        keys.remove(i).no_duplicates(),
        map_of(keys.remove(i), values.remove(i)) == map_of(keys, values).remove(keys[i]),
{
    let a = map_of(keys.remove(i), values.remove(i));
    let b = map_of(keys, values).remove(keys[i]);
    assert forall|k: Seq<char>| #[trigger] a.contains_key(k) implies b.contains_key(k) && a[k]
        == b[k] by {
        let j = index_of(keys.remove(i), k);
        assert(0 <= j < keys.len() - 1 && keys.remove(i)[j] == k);
        let jj = if j < i {
            j
        } else {
            j + 1
        };
        assert(keys[jj] == k);
        lemma_map_of_index(keys, values, jj);
    }
    assert forall|k: Seq<char>| #[trigger] b.contains_key(k) implies a.contains_key(k) by {
        let j = index_of(keys, k);
        assert(0 <= j < keys.len() && keys[j] == k);
        let jj = if j < i {
            j
        } else {
            j - 1
        };
        assert(keys.remove(i)[jj] == k);
    }
    assert(a =~= b);
}

impl<V> StrMap<V> {
    #[verifier::type_invariant]
    spec fn inv(&self) -> bool {
        keys_of(self.entries@).no_duplicates()
    }

    /// The keys, in the order of insertion.
    pub closed spec fn key_seq(&self) -> Seq<Seq<char>> {
        keys_of(self.entries@)
    }

    /// The values, in the order of their keys.
    pub closed spec fn value_seq(&self) -> Seq<V> {
        values_of(self.entries@)
    }

    /// The map that the entries stand for.
    pub open spec fn view(&self) -> Map<Seq<char>, V> {
        map_of(self.key_seq(), self.value_seq())
    }

    /// Keys and values go in pairs, and no key occurs twice.
    pub open spec fn well_formed(&self) -> bool {
        &&& self.key_seq().len() == self.value_seq().len()
        &&& self.key_seq().no_duplicates()
    }

    /// An empty map.
    pub fn new() -> (r: Self)
        ensures
            r@ == Map::<Seq<char>, V>::empty(),
            r.key_seq().len() == 0,
    {
        let r = StrMap { entries: Vec::new() };
        assert(r@ =~= Map::<Seq<char>, V>::empty());
        r
    }

    /// The number of entries.
    pub fn len(&self) -> (r: usize)
        ensures
            r == self.key_seq().len(),
            r == self.value_seq().len(),
    {
        self.entries.len()
    }

    /// True when the map holds nothing.
    pub fn is_empty(&self) -> (r: bool)
        ensures
            r == (self.key_seq().len() == 0),
    {
        self.entries.len() == 0
    }

    /// The position of `key`, if the map has it.
    pub fn position(&self, key: &str) -> (r: Option<usize>)
        ensures
            match r {
                Some(i) => i < self.key_seq().len() && self.key_seq()[i as int] == key@,
                None => !self.key_seq().contains(key@),
            },
    {
        let mut i: usize = 0;
        while i < self.entries.len()
            invariant
                i <= self.entries@.len(),
                forall|j: int| 0 <= j < i ==> self.key_seq()[j] != key@,
            decreases self.entries@.len() - i,
        {
            if *self.entries[i].0.as_str() == *key {
                return Some(i);
            }
            i += 1;
        }
        None
    }

    /// The entry at position `i`: its key and its value.  `None` where the
    /// map has fewer entries.
    pub fn entry_at(&self, i: usize) -> (r: Option<(&String, &V)>)
        ensures
            match r {
                Some((k, v)) => {
                    &&& i < self.key_seq().len()
                    &&& k@ == self.key_seq()[i as int]
                    &&& *v == self.value_seq()[i as int]
                    &&& self@.contains_key(k@)
                    &&& self@[k@] == *v
                },
                None => i >= self.key_seq().len(),
            },
    {
        if i < self.entries.len() {
            proof {
                use_type_invariant(self);
                lemma_map_of_index(self.key_seq(), self.value_seq(), i as int);
            }
            Some((&self.entries[i].0, &self.entries[i].1))
        } else {
            None
        }
    }

    /// True when the map has `key`.
    pub fn contains_key(&self, key: &str) -> (r: bool)
        ensures
            r == self@.contains_key(key@),
    {
        self.position(key).is_some()
    }

    /// The value for `key`, if the map has it.
    pub fn get(&self, key: &str) -> (r: Option<&V>)
        ensures
            match r {
                Some(v) => self@.contains_key(key@) && self@[key@] == *v,
                None => !self@.contains_key(key@),
            },
    {
        match self.position(key) {
            Some(i) => {
                proof {
                    use_type_invariant(self);
                    lemma_map_of_index(self.key_seq(), self.value_seq(), i as int);
                }
                Some(&self.entries[i].1)
            },
            None => None,
        }
    }

    /// Sets the value for `key`.  A key that the map has keeps its place; a
    /// new key goes to the end.  Returns the value that was replaced.
    pub fn insert(&mut self, key: String, value: V) -> (r: Option<V>)
        ensures
            final(self)@ == old(self)@.insert(key@, value),
            match r {
                Some(v) => old(self)@.contains_key(key@) && old(self)@[key@] == v && final(self).key_seq()
                    == old(self).key_seq(),
                None => !old(self)@.contains_key(key@) && final(self).key_seq() == old(self).key_seq().push(
                    key@,
                ),
            },
    {
        proof {
            use_type_invariant(&*self);
        }
        let found = self.position(key.as_str());
        let ghost keys = self.key_seq();
        let ghost values = self.value_seq();
        let mut entries: Vec<(String, V)> = Vec::new();
        core::mem::swap(&mut entries, &mut self.entries);
        match found {
            Some(i) => {
                entries.push((key, value));
                let replaced = entries.swap_remove(i);
                proof {
                    lemma_map_of_index(keys, values, i as int);
                    lemma_map_of_update(keys, values, i as int, value);
                    assert(keys_of(entries@) =~= keys);
                    assert(values_of(entries@) =~= values.update(i as int, value));
                }
                self.entries = entries;
                Some(replaced.1)
            },
            None => {
                entries.push((key, value));
                proof {
                    lemma_map_of_push(keys, values, key@, value);
                    assert(keys_of(entries@) =~= keys.push(key@));
                    assert(values_of(entries@) =~= values.push(value));
                }
                self.entries = entries;
                None
            },
        }
    }

    /// Takes the entry for `key` out.  Returns its value, if there was one.
    pub fn remove(&mut self, key: &str) -> (r: Option<V>)
        ensures
            final(self)@ == old(self)@.remove(key@),
            match r {
                Some(v) => old(self)@.contains_key(key@) && old(self)@[key@] == v,
                None => !old(self)@.contains_key(key@) && final(self).key_seq() == old(self).key_seq(),
            },
    {
        proof {
            use_type_invariant(&*self);
        }
        let found = self.position(key);
        let ghost keys = self.key_seq();
        let ghost values = self.value_seq();
        match found {
            Some(i) => {
                let mut entries: Vec<(String, V)> = Vec::new();
                core::mem::swap(&mut entries, &mut self.entries);
                let gone = entries.remove(i);
                proof {
                    lemma_map_of_index(keys, values, i as int);
                    lemma_map_of_remove(keys, values, i as int);
                    assert(keys_of(entries@) =~= keys.remove(i as int));
                    assert(values_of(entries@) =~= values.remove(i as int));
                }
                self.entries = entries;
                Some(gone.1)
            },
            None => {
                assert(self@ =~= old(self)@.remove(key@));
                None
            },
        }
    }
}

impl StrMap<String> {
    /// A copy of the map: the same keys in the same order, with values of
    /// the same text.
    pub fn copy(&self) -> (r: Self)
        ensures
            r.key_seq() == self.key_seq(),
            r.value_seq().len() == self.value_seq().len(),
            forall|i: int|
                0 <= i < self.value_seq().len() ==> (#[trigger] r.value_seq()[i])@
                    == self.value_seq()[i]@,
            text_map(r@) == text_map(self@),
    {
        proof {
            use_type_invariant(self);
        }
        let mut entries: Vec<(String, String)> = Vec::new();
        let mut i: usize = 0;
        while i < self.entries.len()
            invariant
                i <= self.entries@.len(),
                entries@.len() == i,
                forall|j: int| 0 <= j < i ==> (#[trigger] entries@[j]).0@ == self.entries@[j].0@,
                forall|j: int| 0 <= j < i ==> (#[trigger] entries@[j]).1@ == self.entries@[j].1@,
            decreases self.entries@.len() - i,
        {
            entries.push((self.entries[i].0.clone(), self.entries[i].1.clone()));
            i += 1;
        }
        assert(keys_of(entries@) =~= keys_of(self.entries@));
        let r = StrMap { entries };
        proof {
            let keys = self.key_seq();
            assert forall|k: Seq<char>| #[trigger] r@.contains_key(k) implies self@.contains_key(k)
                && r@[k]@ == self@[k]@ by {
                let i = index_of(keys, k);
                assert(0 <= i < keys.len() && keys[i] == k);
                lemma_map_of_index(keys, r.value_seq(), i);
                lemma_map_of_index(keys, self.value_seq(), i);
            }
            assert(text_map(r@) =~= text_map(self@));
        }
        r
    }
}

} // verus!
