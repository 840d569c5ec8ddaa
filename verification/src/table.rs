//! A table of values by name, and the map that it stands for.
//!
//! The entries are held in a vector and found by comparing names. A hash
//! map of std would do, but of one that is keyed by names nothing can be
//! proved here: what vstd says of `HashMap` holds for keys whose hashing it
//! knows, which are the integers, and neither after an `insert` nor after a
//! `contains_key` did Verus prove what the map holds when the key is a
//! `String`.

use vstd::prelude::*;
use vstd::string::StringExecFns;

verus! {

/// Values by name. A name stands at most once in the table.
pub struct Table<V> {
    entries: Vec<(String, V)>,
}

/// The first index from `i` on at which the name `key` stands.
pub open spec fn index_from<V>(entries: Seq<(String, V)>, key: Seq<char>, i: int) -> Option<int>
    decreases entries.len() - i,
{
    if i < 0 || i >= entries.len() {
        None
    } else if entries[i].0@ == key {
        Some(i)
    } else {
        index_from(entries, key, i + 1)
    }
}

/// The map that the entries stand for: each name with the model of the
/// first value under it.
pub open spec fn map_of<V: View>(entries: Seq<(String, V)>) -> Map<Seq<char>, V::V> {
    Map::new(
        |key: Seq<char>| index_from(entries, key, 0) is Some,
        |key: Seq<char>| entries[index_from(entries, key, 0)->0].1@,
    )
}

/// The index found from `i` on is the first from `i` on at which the name
/// stands; none is found exactly where the name stands nowhere from `i` on.
pub proof fn lemma_index_from<V>(entries: Seq<(String, V)>, key: Seq<char>, i: int)
    requires
        0 <= i <= entries.len(),
    ensures
        match index_from(entries, key, i) {
            Some(j) => i <= j < entries.len() && entries[j].0@ == key && forall|k: int|
                i <= k < j ==> (#[trigger] entries[k]).0@ != key,
            None => forall|k: int| i <= k < entries.len() ==> (#[trigger] entries[k]).0@ != key,
        },
    decreases entries.len() - i,
{
    if i < entries.len() && entries[i].0@ != key {
        lemma_index_from(entries, key, i + 1);
    }
}

/// An index at which the name stands, with no earlier one, is the index
/// found.
pub proof fn lemma_index_found<V>(entries: Seq<(String, V)>, key: Seq<char>, j: int)
    requires
        0 <= j < entries.len(),
        entries[j].0@ == key,
        forall|k: int| 0 <= k < j ==> (#[trigger] entries[k]).0@ != key,
    ensures
        index_from(entries, key, 0) == Some(j),
{
    lemma_index_from(entries, key, 0);
}

/// A new value under the name at index `i` changes the map at that name
/// alone, where no earlier entry has the name.
pub proof fn lemma_map_after_update<V: View>(entries: Seq<(String, V)>, i: int, entry: (String, V))
    requires
        0 <= i < entries.len(),
        entry.0@ == entries[i].0@,
        index_from(entries, entry.0@, 0) == Some(i),
    ensures
        map_of(entries.update(i, entry)) == map_of(entries).insert(entry.0@, entry.1@),
        distinct_names(entries) ==> distinct_names(entries.update(i, entry)),
{
    let after = entries.update(i, entry);
    let a = map_of(after);
    let b = map_of(entries).insert(entry.0@, entry.1@);
    assert forall|key: Seq<char>| index_from(after, key, 0) == index_from(entries, key, 0) by {
        lemma_index_from(entries, key, 0);
        lemma_index_from(after, key, 0);
        match index_from(entries, key, 0) {
            Some(j) => {
                assert(after[j].0@ == key);
                assert forall|k: int| 0 <= k < j implies (#[trigger] after[k]).0@ != key by {
                    assert(entries[k].0@ != key);
                }
                lemma_index_found(after, key, j);
            },
            None => {
                assert forall|k: int| 0 <= k < after.len() implies (#[trigger] after[k]).0@
                    != key by {
                    assert(entries[k].0@ != key);
                }
            },
        }
    }
    assert forall|key: Seq<char>| a.dom().contains(key) == b.dom().contains(key) by {
        assert(index_from(after, key, 0) == index_from(entries, key, 0));
    }
    assert forall|key: Seq<char>| a.dom().contains(key) implies a[key] == b[key] by {
        assert(index_from(after, key, 0) == index_from(entries, key, 0));
        lemma_index_from(entries, key, 0);
    }
    assert(a =~= b);
    if distinct_names(entries) {
        assert forall|j: int, k: int| 0 <= j < k < after.len() implies (#[trigger] after[j]).0@ != (
        #[trigger] after[k]).0@ by {
            assert(entries[j].0@ != entries[k].0@);
        }
    }
}

/// An entry behind the others, under a name that none of them has, puts
/// that name into the map.
pub proof fn lemma_map_after_push<V: View>(entries: Seq<(String, V)>, entry: (String, V))
    requires
        index_from(entries, entry.0@, 0) is None,
    ensures
        map_of(entries.push(entry)) == map_of(entries).insert(entry.0@, entry.1@),
        distinct_names(entries) ==> distinct_names(entries.push(entry)),
{
    let after = entries.push(entry);
    let a = map_of(after);
    let b = map_of(entries).insert(entry.0@, entry.1@);
    lemma_index_from(entries, entry.0@, 0);
    assert forall|key: Seq<char>|
        index_from(after, key, 0) == if index_from(entries, key, 0) is None && key == entry.0@ {
            Some(entries.len() as int)
        } else {
            index_from(entries, key, 0)
        } by {
        lemma_index_from(entries, key, 0);
        lemma_index_from(after, key, 0);
        match index_from(entries, key, 0) {
            Some(j) => {
                assert(after[j].0@ == key);
                assert forall|k: int| 0 <= k < j implies (#[trigger] after[k]).0@ != key by {
                    assert(entries[k].0@ != key);
                }
                lemma_index_found(after, key, j);
            },
            None => {
                assert forall|k: int| 0 <= k < entries.len() implies (#[trigger] after[k]).0@
                    != key by {
                    assert(entries[k].0@ != key);
                }
                if key == entry.0@ {
                    lemma_index_found(after, key, entries.len() as int);
                } else {
                    assert(after[entries.len() as int].0@ != key);
                }
            },
        }
    }
    assert forall|key: Seq<char>| a.dom().contains(key) == b.dom().contains(key) by {
        lemma_index_from(entries, key, 0);
    }
    assert forall|key: Seq<char>| a.dom().contains(key) implies a[key] == b[key] by {
        lemma_index_from(entries, key, 0);
    }
    assert(a =~= b);
    if distinct_names(entries) {
        assert forall|j: int, k: int| 0 <= j < k < after.len() implies (#[trigger] after[j]).0@ != (
        #[trigger] after[k]).0@ by {
            if k < entries.len() {
                assert(entries[j].0@ != entries[k].0@);
            } else {
                assert(entries[j].0@ != entry.0@);
            }
        }
    }
}

/// Without the entry under a name, the map lacks that name, where no two
/// entries have one name.
pub proof fn lemma_map_after_remove<V: View>(entries: Seq<(String, V)>, i: int)
    requires
        0 <= i < entries.len(),
        distinct_names(entries),
    ensures
        map_of(entries.remove(i)) == map_of(entries).remove(entries[i].0@),
        distinct_names(entries.remove(i)),
{
    let after = entries.remove(i);
    let gone = entries[i].0@;
    let a = map_of(after);
    let b = map_of(entries).remove(gone);
    assert forall|k: int| 0 <= k < after.len() implies #[trigger] after[k] == entries[if k < i {
        k
    } else {
        k + 1
    }] by {}
    assert forall|j: int, k: int| 0 <= j < k < after.len() implies (#[trigger] after[j]).0@ != (
    #[trigger] after[k]).0@ by {
        let jj = if j < i {
            j
        } else {
            j + 1
        };
        let kk = if k < i {
            k
        } else {
            k + 1
        };
        assert(entries[jj].0@ != entries[kk].0@);
    }
    assert forall|key: Seq<char>|
        index_from(after, key, 0) == match index_from(entries, key, 0) {
            Some(j) => if j < i {
                Some(j)
            } else if j == i {
                None
            } else {
                Some(j - 1)
            },
            None => None,
        } by {
        lemma_index_from(entries, key, 0);
        lemma_index_from(after, key, 0);
        match index_from(after, key, 0) {
            Some(m) => {
                let mm = if m < i {
                    m
                } else {
                    m + 1
                };
                assert(entries[mm].0@ == key);
                match index_from(entries, key, 0) {
                    Some(j) => {
                        if j != mm {
                            if j < mm {
                                assert(entries[j].0@ != entries[mm].0@);
                            } else {
                                assert(entries[mm].0@ != entries[j].0@);
                            }
                        }
                    },
                    None => {},
                }
            },
            None => {
                match index_from(entries, key, 0) {
                    Some(j) => {
                        if j < i {
                            assert(after[j].0@ == key);
                        } else if j > i {
                            assert(after[j - 1].0@ == key);
                        }
                    },
                    None => {},
                }
            },
        }
    }
    assert forall|key: Seq<char>| a.dom().contains(key) == b.dom().contains(key) by {
        lemma_index_from(entries, key, 0);
        if key == gone {
            lemma_index_from(entries, gone, 0);
            let j = index_from(entries, gone, 0)->0;
            if j != i {
                if j < i {
                    assert(entries[j].0@ != entries[i].0@);
                } else {
                    assert(entries[i].0@ != entries[j].0@);
                }
            }
        }
    }
    assert forall|key: Seq<char>| a.dom().contains(key) implies a[key] == b[key] by {
        lemma_index_from(entries, key, 0);
    }
    assert(a =~= b);
}

/// No two entries have one name.
pub open spec fn distinct_names<V>(entries: Seq<(String, V)>) -> bool {
    forall|j: int, k: int|
        0 <= j < k < entries.len() ==> (#[trigger] entries[j]).0@ != (#[trigger] entries[k]).0@
}

impl<V: View> View for Table<V> {
    type V = Map<Seq<char>, V::V>;

    closed spec fn view(&self) -> Map<Seq<char>, V::V> {
        map_of(self.entries@)
    }
}

impl<V> Table<V> {
    #[verifier::type_invariant]
    spec fn names_distinct(&self) -> bool {
        distinct_names(self.entries@)
    }

    /// The entries, taken out of the table, which is left without any.
    fn take_entries(&mut self) -> (entries: Vec<(String, V)>)
        ensures
            entries == old(self).entries,
            final(self).entries@.len() == 0,
    {
        let mut taken = Table { entries: Vec::new() };
        core::mem::swap(self, &mut taken);
        taken.entries
    }
}

impl<V: View> Table<V> {
    /// The table without entries.
    pub fn new() -> (table: Self)
        ensures
            table@ == Map::<Seq<char>, V::V>::empty(),
    {
        let table = Table { entries: Vec::new() };
        assert(table@ =~= Map::<Seq<char>, V::V>::empty());
        table
    }

    /// The index of the entry under `key`.
    fn find(&self, key: &str) -> (r: Option<usize>)
        ensures
            match r {
                Some(i) => index_from(self.entries@, key@, 0) == Some(i as int) && i
                    < self.entries@.len() && self.entries@[i as int].0@ == key@,
                None => index_from(self.entries@, key@, 0) is None,
            },
    {
        let name = String::from_str(key);
        let mut i: usize = 0;
        while i < self.entries.len()
            invariant
                i <= self.entries.len(),
                name@ == key@,
                index_from(self.entries@, key@, 0) == index_from(self.entries@, key@, i as int),
            decreases self.entries.len() - i,
        {
            if self.entries[i].0 == name {
                return Some(i);
            }
            i += 1;
        }
        None
    }

    /// Whether there is a value under `key`.
    pub fn contains(&self, key: &str) -> (b: bool)
        ensures
            b == self@.contains_key(key@),
    {
        self.find(key).is_some()
    }

    /// The value under `key`.
    pub fn get(&self, key: &str) -> (r: Option<&V>)
        ensures
            match r {
                Some(value) => self@.contains_key(key@) && self@[key@] == value@,
                None => !self@.contains_key(key@),
            },
    {
        match self.find(key) {
            Some(i) => Some(&self.entries[i].1),
            None => None,
        }
    }

    /// Puts `value` under `key`, in place of the value that was there.
    pub fn insert(&mut self, key: String, value: V)
        ensures
            final(self)@ == old(self)@.insert(key@, value@),
    {
        proof {
            use_type_invariant(&*self);
        }
        let found = self.find(key.as_str());
        let mut entries = self.take_entries();
        match found {
            Some(i) => {
                proof {
                    lemma_map_after_update(entries@, i as int, (key, value));
                }
                entries.set(i, (key, value));
            },
            None => {
                proof {
                    lemma_map_after_push(entries@, (key, value));
                }
                entries.push((key, value));
            },
        }
        *self = Table { entries };
    }

    /// Takes the value under `key` out of the table.
    pub fn remove(&mut self, key: &str) -> (r: Option<(String, V)>)
        ensures
            match r {
                Some((name, value)) => name@ == key@ && old(self)@.contains_key(key@) && old(
                    self,
                )@[key@] == value@ && final(self)@ == old(self)@.remove(key@),
                None => !old(self)@.contains_key(key@) && final(self)@ == old(self)@,
            },
    {
        proof {
            use_type_invariant(&*self);
        }
        match self.find(key) {
            Some(i) => {
                let mut entries = self.take_entries();
                proof {
                    lemma_map_after_remove(entries@, i as int);
                }
                let entry = entries.remove(i);
                *self = Table { entries };
                Some(entry)
            },
            None => None,
        }
    }
}

} // verus!
