//! A table of values kept under names, in which every name occurs once.

use vstd::prelude::*;

verus! {

/// Whether the entry at `i` stands under `name`.
pub open spec fn named<T>(entries: Seq<(String, T)>, i: int, name: Seq<char>) -> bool {
    0 <= i < entries.len() && entries[i].0@ == name
}

/// The mapping that a list of named entries stands for.
pub open spec fn entries_map<T>(entries: Seq<(String, T)>) -> Map<Seq<char>, T> {
    Map::new(
        |name: Seq<char>| exists|i: int| named(entries, i, name),
        |name: Seq<char>| entries[choose|i: int| named(entries, i, name)].1,
    )
}

/// No name stands at two places of the list.
pub open spec fn distinct_entries<T>(entries: Seq<(String, T)>) -> bool {
    forall|i: int, j: int| 0 <= i < j < entries.len() ==> entries[i].0@ != entries[j].0@
}

/// In a list without repeated names, the mapping holds each entry under its
/// name.
proof fn lemma_entry<T>(entries: Seq<(String, T)>, i: int)
    requires
        distinct_entries(entries),
        0 <= i < entries.len(),
    ensures
        entries_map(entries).contains_key(entries[i].0@),
        entries_map(entries)[entries[i].0@] == entries[i].1,
{
    let name = entries[i].0@;
    assert(named(entries, i, name));
    let found = choose|k: int| named(entries, k, name);
    assert(found == i);
}

/// Taking an entry out of the list takes its name out of the mapping.
proof fn lemma_entry_removed<T>(entries: Seq<(String, T)>, i: int)
    requires
        distinct_entries(entries),
        0 <= i < entries.len(),
    ensures
        distinct_entries(entries.remove(i)),
        entries_map(entries.remove(i)) == entries_map(entries).remove(entries[i].0@),
{
    let rest = entries.remove(i);
    let gone = entries[i].0@;
    assert forall|key: Seq<char>|
        entries_map(rest).contains_key(key) == #[trigger] entries_map(entries).remove(
            gone,
        ).contains_key(key) by {
        if entries_map(rest).contains_key(key) {
            let k = choose|k: int| named(rest, k, key);
            let j = if k < i {
                k
            } else {
                k + 1
            };
            assert(named(entries, j, key));
        }
        if entries_map(entries).remove(gone).contains_key(key) {
            let j = choose|j: int| named(entries, j, key);
            let k = if j < i {
                j
            } else {
                j - 1
            };
            assert(named(rest, k, key));
        }
    }
    assert forall|key: Seq<char>| #[trigger]
        entries_map(rest).contains_key(key) implies entries_map(rest)[key] == entries_map(
        entries,
    ).remove(gone)[key] by {
        let k = choose|k: int| named(rest, k, key);
        let j = if k < i {
            k
        } else {
            k + 1
        };
        lemma_entry(rest, k);
        lemma_entry(entries, j);
    }
    assert(entries_map(rest) =~= entries_map(entries).remove(gone));
}

/// Adding an entry under a new name adds the name to the mapping.
proof fn lemma_entry_added<T>(entries: Seq<(String, T)>, name: String, value: T)
    requires
        distinct_entries(entries),
        forall|k: int| !named(entries, k, name@),
    ensures
        distinct_entries(entries.push((name, value))),
        entries_map(entries.push((name, value))) == entries_map(entries).insert(name@, value),
{
    let more = entries.push((name, value));
    assert forall|i: int, j: int| 0 <= i < j < more.len() implies more[i].0@ != more[j].0@ by {
        if j == entries.len() {
            assert(!named(entries, i, name@));
        }
    }
    assert forall|key: Seq<char>|
        entries_map(more).contains_key(key) == #[trigger] entries_map(entries).insert(
            name@,
            value,
        ).contains_key(key) by {
        if entries_map(more).contains_key(key) {
            let k = choose|k: int| named(more, k, key);
            if k < entries.len() {
                assert(named(entries, k, key));
            }
        }
        if entries_map(entries).insert(name@, value).contains_key(key) {
            if key == name@ {
                assert(named(more, entries.len() as int, key));
            } else {
                let j = choose|j: int| named(entries, j, key);
                assert(named(more, j, key));
            }
        }
    }
    assert forall|key: Seq<char>| #[trigger]
        entries_map(more).contains_key(key) implies entries_map(more)[key] == entries_map(
        entries,
    ).insert(name@, value)[key] by {
        let k = choose|k: int| named(more, k, key);
        lemma_entry(more, k);
        if k < entries.len() {
            assert(named(entries, k, key));
            lemma_entry(entries, k);
        }
    }
    assert(entries_map(more) =~= entries_map(entries).insert(name@, value));
}

/// A mapping from names to values. The empty string is a name like any
/// other.
pub struct NameTable<T> {
    entries: Vec<(String, T)>,
}

impl<T> NameTable<T> {
    /// The mapping that the table holds.
    pub closed spec fn view(&self) -> Map<Seq<char>, T> {
        entries_map(self.entries@)
    }

    /// Every name occurs once.
    pub closed spec fn wf(&self) -> bool {
        distinct_entries(self.entries@)
    }

    /// An empty table.
    pub fn new() -> (table: Self)
        ensures
            table.wf(),
            table@ == Map::<Seq<char>, T>::empty(),
    {
        let table = NameTable { entries: Vec::new() };
        assert(table@ =~= Map::<Seq<char>, T>::empty());
        table
    }

    /// The place of `name` in the list, if it is there.
    fn position(&self, name: &str) -> (place: Option<usize>)
        ensures
            match place {
                Some(i) => named(self.entries@, i as int, name@),
                None => forall|k: int| !named(self.entries@, k, name@),
            },
    {
        let mut i: usize = 0;
        while i < self.entries.len()
            invariant
                i <= self.entries@.len(),
                forall|k: int| 0 <= k < i ==> self.entries@[k].0@ != name@,
            decreases self.entries@.len() - i,
        {
            if same_text(self.entries[i].0.as_str(), name) {
                return Some(i);
            }
            i += 1;
        }
        None
    }

    /// Tells whether a value stands under `name`.
    pub fn contains(&self, name: &str) -> (found: bool)
        requires
            self.wf(),
        ensures
            found == self@.contains_key(name@),
    {
        self.position(name).is_some()
    }

    /// The value under `name`, if there is one.
    pub fn get(&self, name: &str) -> (value: Option<&T>)
        requires
            self.wf(),
        ensures
            match value {
                Some(v) => self@.contains_key(name@) && *v == self@[name@],
                None => !self@.contains_key(name@),
            },
    {
        match self.position(name) {
            Some(i) => {
                proof {
                    lemma_entry(self.entries@, i as int);
                }
                Some(&self.entries[i].1)
            },
            None => None,
        }
    }

    /// Takes the value under `name` out of the table, if there is one.
    pub fn remove(&mut self, name: &str) -> (value: Option<T>)
        requires
            old(self).wf(),
        ensures
            final(self).wf(),
            match value {
                Some(v) => old(self)@.contains_key(name@) && v == old(self)@[name@],
                None => !old(self)@.contains_key(name@),
            },
            final(self)@ == old(self)@.remove(name@),
    {
        match self.position(name) {
            Some(i) => {
                proof {
                    lemma_entry(self.entries@, i as int);
                    lemma_entry_removed(self.entries@, i as int);
                }
                let entry = self.entries.remove(i);
                Some(entry.1)
            },
            None => {
                assert(self@ =~= old(self)@.remove(name@));
                None
            },
        }
    }

    /// Puts `value` under `name`. A value that stood there before is dropped
    /// first.
    pub fn insert(&mut self, name: String, value: T)
        requires
            old(self).wf(),
        ensures
            final(self).wf(),
            final(self)@ == old(self)@.insert(name@, value),
    {
        let _ = self.remove(name.as_str());
        proof {
            assert forall|k: int| !named(self.entries@, k, name@) by {
                if named(self.entries@, k, name@) {
                    lemma_entry(self.entries@, k);
                }
            }
            lemma_entry_added(self.entries@, name, value);
            assert(old(self)@.remove(name@).insert(name@, value) =~= old(self)@.insert(
                name@,
                value,
            ));
        }
        self.entries.push((name, value));
    }
}

/// `str` equality: whether two strings hold the same characters.
#[verifier::external_body]
fn same_text(a: &str, b: &str) -> (same: bool)
    ensures
        same == (a@ == b@),
{
    a == b
}

} // verus!
