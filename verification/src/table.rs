//! A small insertion-ordered map keyed by strings.

use vstd::prelude::*;

verus! {

/// The keys of a list of entries, in order.
spec fn entry_keys<V>(entries: Seq<(String, V)>) -> Seq<Seq<char>> {
    Seq::new(entries.len(), |i: int| entries[i].0@)
}

/// The map that a list of entries stands for: later entries win.
spec fn entry_map<V: View>(entries: Seq<(String, V)>) -> Map<Seq<char>, V::V>
    decreases entries.len(),
{
    if entries.len() == 0 {
        Map::empty()
    } else {
        entry_map(entries.drop_last()).insert(entries.last().0@, entries.last().1@)
    }
}

/// With distinct keys, the map holds exactly the listed keys, each with the
/// value listed beside it.
proof fn lemma_entry_map<V: View>(entries: Seq<(String, V)>)
    requires
        entry_keys(entries).no_duplicates(),
    ensures
        forall|k: Seq<char>| #[trigger]
            entry_map(entries).contains_key(k) <==> entry_keys(entries).contains(k),
        forall|i: int|
            0 <= i < entries.len() ==> #[trigger] entry_map(entries)[entry_keys(entries)[i]]
                == entries[i].1@,
    decreases entries.len(),
{
    if entries.len() > 0 {
        let n = entries.len() as int;
        let front = entries.drop_last();
        let last = entries.last();
        let keys = entry_keys(entries);
        assert forall|i: int, j: int|
            0 <= i < front.len() && 0 <= j < front.len() && i != j implies entry_keys(front)[i]
            != entry_keys(front)[j] by {
            assert(keys[i] != keys[j]);
        }
        lemma_entry_map(front);
        assert forall|k: Seq<char>| #[trigger]
            entry_map(entries).contains_key(k) <==> keys.contains(k) by {
            if entry_map(entries).contains_key(k) {
                if k == last.0@ {
                    assert(keys[n - 1] == k);
                } else {
                    assert(entry_map(front).contains_key(k));
                    let i = choose|i: int|
                        0 <= i < entry_keys(front).len() && entry_keys(front)[i] == k;
                    assert(keys[i] == k);
                }
            }
            if keys.contains(k) {
                let i = choose|i: int| 0 <= i < keys.len() && keys[i] == k;
                if i < n - 1 {
                    assert(entry_keys(front)[i] == k);
                    assert(entry_map(front).contains_key(k));
                }
            }
        }
        assert forall|i: int| 0 <= i < entries.len() implies #[trigger] entry_map(
            entries,
        )[keys[i]] == entries[i].1@ by {
            if i < n - 1 {
                assert(keys[i] != keys[n - 1]);
                assert(entry_map(front)[entry_keys(front)[i]] == front[i].1@);
            }
        }
    }
}

/// Replacing the value of a listed key overwrites it in the map.
proof fn lemma_entry_map_update<V: View>(entries: Seq<(String, V)>, i: int, entry: (String, V))
    requires
        entry_keys(entries).no_duplicates(),
        0 <= i < entries.len(),
        entry.0@ == entries[i].0@,
    ensures
        entry_keys(entries.update(i, entry)) == entry_keys(entries),
        entry_map(entries.update(i, entry)) == entry_map(entries).insert(entry.0@, entry.1@),
{
    let updated = entries.update(i, entry);
    let keys = entry_keys(entries);
    assert(entry_keys(updated) =~= keys);
    lemma_entry_map(entries);
    lemma_entry_map(updated);
    let target = entry_map(entries).insert(entry.0@, entry.1@);
    assert(keys[i] == entry.0@);
    assert forall|k: Seq<char>| entry_map(updated).contains_key(k) implies #[trigger] entry_map(
        updated,
    )[k] == target[k] by {
    }
}

/// The settings of one profile: directive key to value.
pub type ProfileSection = StrMap<String>;

/// What the configuration files say: profile name to its settings.
pub type RawProfileTable = StrMap<StrMap<String>>;

/// The mathematical value of a [`ProfileSection`].
pub type SectionView = Map<Seq<char>, Seq<char>>;

/// The mathematical value of a [`RawProfileTable`].
pub type TableView = Map<Seq<char>, Map<Seq<char>, Seq<char>>>;

/// A finite map from strings to values that remembers the order in which its
/// keys were first inserted.
#[derive(Debug)]
pub struct StrMap<V> {
    entries: Vec<(String, V)>,
}

impl<V: View> View for StrMap<V> {
    type V = Map<Seq<char>, V::V>;

    closed spec fn view(&self) -> Map<Seq<char>, V::V> {
        entry_map(self.entries@)
    }
}

impl<V> StrMap<V> {
    #[verifier::type_invariant]
    spec fn distinct_keys(self) -> bool {
        entry_keys(self.entries@).no_duplicates()
    }
}

impl<V: View> StrMap<V> {
    /// The keys in the order of their first insertion.
    pub closed spec fn keys(&self) -> Seq<Seq<char>> {
        entry_keys(self.entries@)
    }

    /// Creates an empty map.
    pub fn new() -> (m: Self)
        ensures
            m@ == Map::<Seq<char>, V::V>::empty(),
            m.keys() == Seq::<Seq<char>>::empty(),
    {
        StrMap { entries: Vec::new() }
    }

    /// Number of keys. The keys are distinct and are exactly the domain of
    /// the view.
    pub fn len(&self) -> (n: usize)
        ensures
            n == self.keys().len(),
            self.keys().no_duplicates(),
            forall|k: Seq<char>| #[trigger] self@.contains_key(k) <==> self.keys().contains(k),
    {
        proof {
            use_type_invariant(self);
            lemma_entry_map(self.entries@);
        }
        self.entries.len()
    }

    /// Whether the map holds no key.
    pub fn is_empty(&self) -> (b: bool)
        ensures
            b == (self@ == Map::<Seq<char>, V::V>::empty()),
            b == (self.keys().len() == 0),
    {
        proof {
            use_type_invariant(self);
            lemma_entry_map(self.entries@);
            if self.entries@.len() > 0 {
                assert(entry_keys(self.entries@)[0] == self.entries@[0].0@);
                assert(self@.contains_key(self.entries@[0].0@));
            }
        }
        self.entries.len() == 0
    }

    /// Position of `key` among the entries.
    fn position(&self, key: &str) -> (r: Option<usize>)
        ensures
            match r {
                Some(i) => i < self.entries@.len() && self.entries@[i as int].0@ == key@,
                None => !entry_keys(self.entries@).contains(key@),
            },
    {
        let wanted = key.to_owned();
        let mut i: usize = 0;
        while i < self.entries.len()
            invariant
                i <= self.entries@.len(),
                wanted@ == key@,
                forall|j: int| 0 <= j < i ==> self.entries@[j].0@ != key@,
            decreases self.entries@.len() - i,
        {
            if self.entries[i].0 == wanted {
                return Some(i);
            }
            i += 1;
        }
        None
    }

    /// Whether `key` is in the map.
    pub fn contains_key(&self, key: &str) -> (b: bool)
        ensures
            b == self@.contains_key(key@),
    {
        proof {
            use_type_invariant(self);
            lemma_entry_map(self.entries@);
        }
        let found = self.position(key);
        proof {
            if let Some(i) = found {
                assert(entry_keys(self.entries@)[i as int] == key@);
            }
        }
        found.is_some()
    }

    /// The value stored under `key`, if any.
    pub fn get(&self, key: &str) -> (r: Option<&V>)
        ensures
            match r {
                Some(v) => self@.contains_key(key@) && self@[key@] == v@,
                None => !self@.contains_key(key@),
            },
    {
        proof {
            use_type_invariant(self);
            lemma_entry_map(self.entries@);
        }
        match self.position(key) {
            Some(i) => {
                assert(entry_keys(self.entries@)[i as int] == key@);
                Some(&self.entries[i].1)
            },
            None => None,
        }
    }

    /// The `i`-th key in insertion order with its value, or `None` past the
    /// end.
    pub fn entry_at(&self, i: usize) -> (r: Option<(&String, &V)>)
        ensures
            match r {
                Some((k, v)) => i < self.keys().len() && k@ == self.keys()[i as int]
                    && self@.contains_key(k@) && self@[k@] == v@,
                None => i >= self.keys().len(),
            },
    {
        proof {
            use_type_invariant(self);
            lemma_entry_map(self.entries@);
        }
        if i < self.entries.len() {
            assert(entry_keys(self.entries@)[i as int] == self.entries@[i as int].0@);
            let entry = &self.entries[i];
            Some((&entry.0, &entry.1))
        } else {
            None
        }
    }

    /// Stores `value` under `key`, replacing what was there. A new key goes
    /// to the end of the key order; a known key keeps its place.
    pub fn insert(&mut self, key: String, value: V)
        ensures
            final(self)@ == old(self)@.insert(key@, value@),
            final(self).keys() == if old(self)@.contains_key(key@) {
                old(self).keys()
            } else {
                old(self).keys().push(key@)
            },
    {
        proof {
            use_type_invariant(&*self);
            lemma_entry_map(self.entries@);
        }
        let found = self.position(key.as_str());
        let mut entries: Vec<(String, V)> = Vec::new();
        std::mem::swap(&mut entries, &mut self.entries);
        let ghost before = entries@;
        match found {
            Some(i) => {
                proof {
                    lemma_entry_map_update(before, i as int, (key, value));
                    assert(entry_keys(before)[i as int] == key@);
                }
                entries.set(i, (key, value));
            },
            None => {
                entries.push((key, value));
                proof {
                    assert(entries@.drop_last() =~= before);
                    assert(entry_keys(entries@) =~= entry_keys(before).push(key@));
                }
            },
        }
        self.entries = entries;
    }
}

impl<W: View> StrMap<StrMap<W>> {
    /// Stores `value` under `key` in the inner map that stands under
    /// `outer`, which is created, at the end of the key order, where it is
    /// missing.
    pub fn insert_into(&mut self, outer: &str, key: String, value: W)
        ensures
            final(self)@ == old(self)@.insert(
                outer@,
                section_or_empty(old(self)@, outer@).insert(key@, value@),
            ),
            final(self).keys() == if old(self)@.contains_key(outer@) {
                old(self).keys()
            } else {
                old(self).keys().push(outer@)
            },
    {
        proof {
            use_type_invariant(&*self);
            lemma_entry_map(self.entries@);
        }
        let found = self.position(outer);
        match found {
            Some(i) => {
                let mut entries: Vec<(String, StrMap<W>)> = Vec::new();
                std::mem::swap(&mut entries, &mut self.entries);
                let ghost before = entries@;
                assert(entry_keys(before)[i as int] == outer@);
                entries[i].1.insert(key, value);
                proof {
                    lemma_entry_map_update(before, i as int, entries@[i as int]);
                }
                self.entries = entries;
            },
            None => {
                let mut section: StrMap<W> = StrMap::new();
                section.insert(key, value);
                self.insert(outer.to_owned(), section);
            },
        }
    }
}

/// The inner map under `outer`, or the empty map where there is none.
pub open spec fn section_or_empty<T>(
    table: Map<Seq<char>, Map<Seq<char>, T>>,
    outer: Seq<char>,
) -> Map<Seq<char>, T> {
    if table.contains_key(outer) {
        table[outer]
    } else {
        Map::empty()
    }
}

} // verus!
