//! A small map from names to values.

use vstd::prelude::*;

verus! {

/// A map keyed by name, kept as a list of entries in order of first insertion.
///
/// No name occurs twice among the entries.
#[derive(Debug)]
pub struct NameMap<V> {
    entries: Vec<(String, V)>,
}

/// The names of a list of entries, in order.
closed spec fn entry_names<V>(entries: Seq<(String, V)>) -> Seq<Seq<char>> {
    entries.map_values(|e: (String, V)| e.0@)
}

/// The map that a list of entries stands for.
closed spec fn entry_map<V>(entries: Seq<(String, V)>) -> Map<Seq<char>, V> {
    Map::new(
        |name: Seq<char>| entry_names(entries).contains(name),
        |name: Seq<char>| entries[entry_names(entries).index_of(name)].1,
    )
}

/// Each entry of a list of distinct names stands in its map.
proof fn lemma_entry<V>(entries: Seq<(String, V)>, i: int)
    requires
        entry_names(entries).no_duplicates(),
        0 <= i < entries.len(),
    ensures
        entry_map(entries).contains_key(entries[i].0@),
        entry_map(entries)[entries[i].0@] == entries[i].1,
{
    let names = entry_names(entries);
    assert(names[i] == entries[i].0@);
    assert(names.contains(names[i]));
}

/// A list of distinct names stands for the only map that holds exactly its entries.
proof fn lemma_entry_map_unique<V>(entries: Seq<(String, V)>, map: Map<Seq<char>, V>)
    requires
        entry_names(entries).no_duplicates(),
        forall|i: int|
            0 <= i < entries.len() ==> map.contains_key((#[trigger] entries[i]).0@)
                && map[entries[i].0@] == entries[i].1,
        forall|name: Seq<char>| #[trigger]
            map.contains_key(name) ==> entry_names(entries).contains(name),
    ensures
        entry_map(entries) == map,
{
    let names = entry_names(entries);
    assert forall|name: Seq<char>| #[trigger] names.contains(name) implies {
        &&& map.contains_key(name)
        &&& map[name] == entry_map(entries)[name]
    } by {
        let i = names.index_of(name);
        assert(entries[i].0@ == name);
    }
    assert(entry_map(entries) =~= map);
}

/// An entry with a new name at the end adds that name to the map.
proof fn lemma_push_entry<V>(entries: Seq<(String, V)>, entry: (String, V))
    requires
        entry_names(entries).no_duplicates(),
        !entry_map(entries).contains_key(entry.0@),
    ensures
        entry_names(entries.push(entry)).no_duplicates(),
        entry_map(entries.push(entry)) == entry_map(entries).insert(entry.0@, entry.1),
{
    let after = entries.push(entry);
    let names = entry_names(entries);
    assert(entry_names(after) =~= names.push(entry.0@));
    assert(!names.contains(entry.0@));
    let map = entry_map(entries).insert(entry.0@, entry.1);
    assert forall|i: int| 0 <= i < after.len() implies {
        &&& map.contains_key((#[trigger] after[i]).0@)
        &&& map[after[i].0@] == after[i].1
    } by {
        if i < entries.len() {
            lemma_entry(entries, i);
            assert(names[i] == entries[i].0@);
        }
    }
    assert forall|name: Seq<char>| #[trigger] map.contains_key(name) implies entry_names(
        after,
    ).contains(name) by {
        if name == entry.0@ {
            assert(entry_names(after)[entries.len() as int] == name);
        } else {
            let k = names.index_of(name);
            assert(entry_names(after)[k] == name);
        }
    }
    lemma_entry_map_unique(after, map);
}

/// An entry put in the place of one with the same name changes only that value.
proof fn lemma_update_entry<V>(entries: Seq<(String, V)>, i: int, entry: (String, V))
    requires
        entry_names(entries).no_duplicates(),
        0 <= i < entries.len(),
        entries[i].0@ == entry.0@,
    ensures
        entry_names(entries.update(i, entry)).no_duplicates(),
        entry_map(entries.update(i, entry)) == entry_map(entries).insert(entry.0@, entry.1),
{
    let after = entries.update(i, entry);
    let names = entry_names(entries);
    assert(entry_names(after) =~= names);
    let map = entry_map(entries).insert(entry.0@, entry.1);
    assert forall|j: int| 0 <= j < after.len() implies {
        &&& map.contains_key((#[trigger] after[j]).0@)
        &&& map[after[j].0@] == after[j].1
    } by {
        lemma_entry(entries, j);
        assert(names[i] == entries[i].0@ && names[j] == entries[j].0@);
    }
    lemma_entry(entries, i);
    lemma_entry_map_unique(after, map);
}

/// Taking an entry out takes its name out of the map.
proof fn lemma_remove_entry<V>(entries: Seq<(String, V)>, i: int)
    requires
        entry_names(entries).no_duplicates(),
        0 <= i < entries.len(),
    ensures
        entry_names(entries.remove(i)).no_duplicates(),
        entry_map(entries.remove(i)) == entry_map(entries).remove(entries[i].0@),
{
    let after = entries.remove(i);
    let names = entry_names(entries);
    assert(entry_names(after) =~= names.remove(i));
    let map = entry_map(entries).remove(entries[i].0@);
    assert forall|j: int| 0 <= j < after.len() implies {
        &&& map.contains_key((#[trigger] after[j]).0@)
        &&& map[after[j].0@] == after[j].1
    } by {
        let k = if j < i { j } else { j + 1 };
        lemma_entry(entries, k);
        assert(names[i] == entries[i].0@ && names[k] == entries[k].0@);
    }
    assert forall|name: Seq<char>| #[trigger] map.contains_key(name) implies entry_names(
        after,
    ).contains(name) by {
        let k = names.index_of(name);
        assert(names[i] == entries[i].0@);
        let j = if k < i { k } else { k - 1 };
        assert(entry_names(after)[j] == name);
    }
    lemma_entry_map_unique(after, map);
}

impl<V> View for NameMap<V> {
    type V = Map<Seq<char>, V>;

    closed spec fn view(&self) -> Map<Seq<char>, V> {
        entry_map(self.entries@)
    }
}

impl<V> NameMap<V> {
    #[verifier::type_invariant]
    closed spec fn distinct_names(self) -> bool {
        entry_names(self.entries@).no_duplicates()
    }

    /// A map without entries.
    pub fn new() -> (map: Self)
        ensures
            map@ == Map::<Seq<char>, V>::empty(),
    {
        let map = NameMap { entries: Vec::new() };
        assert(map@ =~= Map::<Seq<char>, V>::empty());
        map
    }

    /// The number of names in the map.
    pub fn len(&self) -> (len: usize)
        ensures
            self@.dom().finite(),
            len == self@.len(),
    {
        proof {
            use_type_invariant(self);
            let names = entry_names(self.entries@);
            assert(self@.dom() =~= names.to_set());
            names.unique_seq_to_set();
            vstd::seq_lib::seq_to_set_is_finite(names);
        }
        self.entries.len()
    }

    /// The position of the entry for `name`, if there is one.
    fn position(&self, name: &str) -> (pos: Option<usize>)
        ensures
            match pos {
                Some(i) => i < self.entries@.len() && self.entries@[i as int].0@ == name@,
                None => !self@.contains_key(name@),
            },
    {
        let key: String = name.to_owned();
        let mut i: usize = 0;
        while i < self.entries.len()
            invariant
                key@ == name@,
                i <= self.entries@.len(),
                forall|j: int| 0 <= j < i ==> (#[trigger] self.entries@[j]).0@ != name@,
            decreases self.entries@.len() - i,
        {
            if self.entries[i].0 == key {
                return Some(i);
            }
            i += 1;
        }
        assert(!entry_names(self.entries@).contains(name@));
        None
    }

    /// Whether the map holds a value for `name`.
    pub fn contains_key(&self, name: &str) -> (found: bool)
        ensures
            found == self@.contains_key(name@),
    {
        match self.position(name) {
            Some(i) => {
                proof {
                    use_type_invariant(self);
                    lemma_entry(self.entries@, i as int);
                }
                true
            },
            None => false,
        }
    }

    /// The value for `name`, if the map holds one.
    pub fn get(&self, name: &str) -> (value: Option<&V>)
        ensures
            match value {
                Some(v) => self@.contains_key(name@) && *v == self@[name@],
                None => !self@.contains_key(name@),
            },
    {
        match self.position(name) {
            Some(i) => {
                proof {
                    use_type_invariant(self);
                    lemma_entry(self.entries@, i as int);
                }
                Some(&self.entries[i].1)
            },
            None => None,
        }
    }

    /// Whether the map holds no name.
    pub fn is_empty(&self) -> (empty: bool)
        ensures
            empty == (self@ == Map::<Seq<char>, V>::empty()),
    {
        let empty = self.entries.len() == 0;
        proof {
            use_type_invariant(self);
            if empty {
                assert(self@ =~= Map::<Seq<char>, V>::empty());
            } else {
                lemma_entry(self.entries@, 0);
            }
        }
        empty
    }

    /// Sets the value for `name` and returns the value it had before, if any.
    pub fn insert(&mut self, name: String, value: V) -> (previous: Option<V>)
        ensures
            final(self)@ == old(self)@.insert(name@, value),
            match previous {
                Some(v) => old(self)@.contains_key(name@) && v == old(self)@[name@],
                None => !old(self)@.contains_key(name@),
            },
    {
        let pos = self.position(name.as_str());
        proof {
            use_type_invariant(&*self);
        }
        let mut entries: Vec<(String, V)> = Vec::new();
        std::mem::swap(&mut entries, &mut self.entries);
        let ghost before = entries@;
        let previous = match pos {
            Some(i) => {
                proof {
                    lemma_entry(before, i as int);
                    lemma_update_entry(before, i as int, (name, value));
                }
                let (_, v) = entries.remove(i);
                entries.insert(i, (name, value));
                assert(entries@ =~= before.update(i as int, (name, value)));
                Some(v)
            },
            None => {
                proof {
                    lemma_push_entry(before, (name, value));
                }
                entries.push((name, value));
                None
            },
        };
        self.entries = entries;
        previous
    }

    /// Takes `name` out of the map and returns the value it had, if any.
    pub fn remove(&mut self, name: &str) -> (removed: Option<V>)
        ensures
            final(self)@ == old(self)@.remove(name@),
            match removed {
                Some(v) => old(self)@.contains_key(name@) && v == old(self)@[name@],
                None => !old(self)@.contains_key(name@),
            },
    {
        let pos = self.position(name);
        proof {
            use_type_invariant(&*self);
        }
        match pos {
            Some(i) => {
                let mut entries: Vec<(String, V)> = Vec::new();
                std::mem::swap(&mut entries, &mut self.entries);
                proof {
                    lemma_entry(entries@, i as int);
                    lemma_remove_entry(entries@, i as int);
                }
                let (_, v) = entries.remove(i);
                self.entries = entries;
                Some(v)
            },
            None => {
                assert(old(self)@.remove(name@) =~= old(self)@);
                None
            },
        }
    }

    /// The names in the map, each once.
    pub fn names(&self) -> (names: Vec<String>)
        ensures
            forall|i: int| 0 <= i < names@.len() ==> self@.contains_key((#[trigger] names@[i])@),
            forall|name: Seq<char>| #[trigger]
                self@.contains_key(name) ==> exists|i: int|
                    0 <= i < names@.len() && (#[trigger] names@[i])@ == name,
            forall|i: int, j: int|
                0 <= i < j < names@.len() ==> (#[trigger] names@[i])@ != (#[trigger] names@[j])@,
    {
        proof {
            use_type_invariant(self);
        }
        let mut names: Vec<String> = Vec::new();
        let mut i: usize = 0;
        while i < self.entries.len()
            invariant
                i <= self.entries@.len(),
                names@.len() == i,
                forall|j: int| 0 <= j < i ==> (#[trigger] names@[j])@ == self.entries@[j].0@,
            decreases self.entries@.len() - i,
        {
            names.push(self.entries[i].0.clone());
            i += 1;
        }
        proof {
            let all = entry_names(self.entries@);
            assert forall|i: int| 0 <= i < names@.len() implies self@.contains_key(
                (#[trigger] names@[i])@,
            ) by {
                lemma_entry(self.entries@, i);
            }
            assert forall|name: Seq<char>| #[trigger] self@.contains_key(name) implies exists|i: int|
                0 <= i < names@.len() && (#[trigger] names@[i])@ == name by {
                let k = all.index_of(name);
                assert(names@[k]@ == name);
            }
            assert forall|i: int, j: int| 0 <= i < j < names@.len() implies (#[trigger] names@[i])@
                != (#[trigger] names@[j])@ by {
                assert(all[i] == names@[i]@ && all[j] == names@[j]@);
            }
        }
        names
    }
}

} // verus!
