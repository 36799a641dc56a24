//! A map with text keys whose entries can be changed in place and walked by
//! position.

use vstd::hash_map::StringHashMap;
use vstd::prelude::*;

verus! {

/// A map from text to `V`.
///
/// The entries lie side by side in a vector; a hash table finds the position of
/// a key. Looking up, inserting and removing take constant expected time, and
/// `get_mut` and `key_at` reach what a bare hash table does not offer.
#[verifier::reject_recursive_types(V)]
pub struct StringMap<V> {
    index: StringHashMap<usize>,
    entries: Vec<(String, V)>,
}

impl<V> View for StringMap<V> {
    type V = Map<Seq<char>, V>;

    closed spec fn view(&self) -> Map<Seq<char>, V> {
        Map::new(
            |key: Seq<char>| self.index@.contains_key(key),
            |key: Seq<char>| self.entries@[self.index@[key] as int].1,
        )
    }
}

impl<V> StringMap<V> {
    /// The hash table and the vector describe the same entries.
    pub closed spec fn wf(&self) -> bool {
        &&& forall|key: Seq<char>| #[trigger]
            self.index@.contains_key(key) ==> self.index@[key] < self.entries@.len()
                && self.entries@[self.index@[key] as int].0@ == key
        &&& forall|i: int|
            0 <= i < self.entries@.len() ==> self.index@.contains_key(
                (#[trigger] self.entries@[i]).0@,
            ) && self.index@[self.entries@[i].0@] == i
    }

    /// The keys in the order in which `key_at` numbers them.
    pub closed spec fn keys(&self) -> Seq<Seq<char>> {
        self.entries@.map_values(|entry: (String, V)| entry.0@)
    }

    /// Every key of the map has exactly one position.
    pub proof fn lemma_keys(&self)
        requires
            self.wf(),
        ensures
            self.keys().no_duplicates(),
            forall|key: Seq<char>| #[trigger]
                self@.contains_key(key) <==> self.keys().contains(key),
    {
        assert forall|i: int, j: int|
            0 <= i < self.keys().len() && 0 <= j < self.keys().len() && i
                != j implies self.keys()[i] != self.keys()[j] by {
            assert(self.index@[self.entries@[i].0@] == i);
            assert(self.index@[self.entries@[j].0@] == j);
        }
        assert forall|key: Seq<char>| #[trigger] self@.contains_key(key) implies self.keys().contains(
            key,
        ) by {
            assert(self.index@.contains_key(key));
            assert(self.keys()[self.index@[key] as int] == key);
        }
        assert forall|key: Seq<char>| self.keys().contains(key) implies #[trigger] self@.contains_key(
            key,
        ) by {
            let i = choose|i: int| 0 <= i < self.keys().len() && self.keys()[i] == key;
            assert(self.index@.contains_key(self.entries@[i].0@));
        }
    }

    /// The empty map.
    pub fn new() -> (map: Self)
        ensures
            map.wf(),
            map@ == Map::<Seq<char>, V>::empty(),
    {
        let map = StringMap { index: StringHashMap::new(), entries: Vec::new() };
        assert(map@ =~= Map::<Seq<char>, V>::empty());
        map
    }

    /// The number of entries.
    pub fn len(&self) -> (len: usize)
        ensures
            len == self.keys().len(),
    {
        self.entries.len()
    }

    /// Whether the map has no entry.
    pub fn is_empty(&self) -> (empty: bool)
        requires
            self.wf(),
        ensures
            empty == (self@ == Map::<Seq<char>, V>::empty()),
    {
        proof {
            if self.entries@.len() == 0 {
                assert(self@ =~= Map::<Seq<char>, V>::empty());
            } else {
                assert(self@.contains_key(self.entries@[0].0@));
            }
        }
        self.entries.len() == 0
    }

    /// The key at the given position.
    pub fn key_at(&self, position: usize) -> (key: &String)
        requires
            position < self.keys().len(),
        ensures
            key@ == self.keys()[position as int],
    {
        &self.entries[position].0
    }

    /// Whether the map has an entry for `key`.
    pub fn contains_key(&self, key: &str) -> (found: bool)
        ensures
            found == self@.contains_key(key@),
    {
        self.index.contains_key(key)
    }

    /// The value of `key`, if it has one.
    pub fn get(&self, key: &str) -> (value: Option<&V>)
        requires
            self.wf(),
        ensures
            match value {
                Some(value) => self@.contains_key(key@) && *value == self@[key@],
                None => !self@.contains_key(key@),
            },
    {
        match self.index.get(key) {
            Some(position) => Some(&self.entries[*position].1),
            None => None,
        }
    }

    /// The value of `key`, if it has one, to be changed in place.
    pub fn get_mut(&mut self, key: &str) -> (value: Option<&mut V>)
        requires
            old(self).wf(),
        ensures
            final(self).wf(),
            match value {
                Some(value) => {
                    &&& old(self)@.contains_key(key@)
                    &&& *value == old(self)@[key@]
                    &&& final(self)@ == old(self)@.insert(key@, *final(value))
                },
                None => !old(self)@.contains_key(key@) && final(self)@ == old(self)@,
            },
    {
        let position: usize = match self.index.get(key) {
            Some(position) => *position,
            None => {
                return None;
            },
        };
        Some(&mut self.entries[position].1)
    }

    /// Gives `key` the value `value`, in place of the one it had, if any.
    pub fn insert(&mut self, key: String, value: V)
        requires
            old(self).wf(),
        ensures
            final(self).wf(),
            final(self)@ == old(self)@.insert(key@, value),
    {
        let found: Option<usize> = match self.index.get(key.as_str()) {
            Some(position) => Some(*position),
            None => None,
        };
        match found {
            Some(position) => {
                self.entries.set(position, (key, value));
            },
            None => {
                self.index.insert(key.clone(), self.entries.len());
                self.entries.push((key, value));
            },
        }
        assert(self@ =~= old(self)@.insert(key@, value));
    }

    /// Takes the entry of `key` out and returns its value, if it had one.
    pub fn remove(&mut self, key: &str) -> (value: Option<V>)
        requires
            old(self).wf(),
        ensures
            final(self).wf(),
            final(self)@ == old(self)@.remove(key@),
            match value {
                Some(value) => old(self)@.contains_key(key@) && value == old(self)@[key@],
                None => !old(self)@.contains_key(key@),
            },
    {
        let position: usize = match self.index.get(key) {
            Some(position) => *position,
            None => {
                assert(self@ =~= old(self)@.remove(key@));
                return None;
            },
        };
        let (_, value) = self.entries.swap_remove(position);
        self.index.remove(key);
        if position < self.entries.len() {
            // The last entry has moved into the gap.
            let moved: String = self.entries[position].0.clone();
            assert(moved@ == old(self).entries@.last().0@);
            self.index.insert(moved, position);
        }
        assert(self@ =~= old(self)@.remove(key@));
        Some(value)
    }
}

} // verus!
