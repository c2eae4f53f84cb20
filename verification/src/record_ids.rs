//! The record IDs that are already known, by the name of the record.

use vstd::prelude::*;
use crate::text::same_text;

verus! {

/// Whether `entries` has the key `name`.
pub open spec fn has_name(entries: Seq<(String, String)>, name: Seq<char>) -> bool {
    exists|i: int| 0 <= i < entries.len() && #[trigger] entries[i].0@ == name
}

/// Where `entries` has the key `name`.
pub open spec fn place_of(entries: Seq<(String, String)>, name: Seq<char>) -> int {
    choose|i: int| 0 <= i < entries.len() && #[trigger] entries[i].0@ == name
}

/// No key occurs twice.
pub open spec fn distinct_names(entries: Seq<(String, String)>) -> bool {
    forall|i: int, j: int|
        0 <= i < j < entries.len() ==> #[trigger] entries[i].0@ != #[trigger] entries[j].0@
}

/// A map from record names to record IDs.
#[derive(Debug)]
pub struct RecordIds {
    entries: Vec<(String, String)>,
}

impl View for RecordIds {
    type V = Map<Seq<char>, Seq<char>>;

    closed spec fn view(&self) -> Map<Seq<char>, Seq<char>> {
        entries_map(self.entries@)
    }
}

spec fn entries_map(entries: Seq<(String, String)>) -> Map<Seq<char>, Seq<char>> {
    Map::new(
        |name: Seq<char>| has_name(entries, name),
        |name: Seq<char>| entries[place_of(entries, name)].1@,
    )
}

/// With distinct keys, every entry is found under its key.
proof fn lemma_entry(entries: Seq<(String, String)>, i: int)
    requires
        distinct_names(entries),
        0 <= i < entries.len(),
    ensures
        entries_map(entries).contains_key(entries[i].0@),
        entries_map(entries)[entries[i].0@] == entries[i].1@,
{
    let name = entries[i].0@;
    assert(has_name(entries, name));
    let p = place_of(entries, name);
    assert(0 <= p < entries.len() && entries[p].0@ == name);
    if p < i {
        assert(entries[p].0@ != entries[i].0@);
    } else if i < p {
        assert(entries[i].0@ != entries[p].0@);
    }
}

impl RecordIds {
    #[verifier::type_invariant]
    spec fn well_formed(self) -> bool {
        distinct_names(self.entries@)
    }

    /// No record is known.
    pub fn new() -> (r: RecordIds)
        ensures
            r@ == Map::<Seq<char>, Seq<char>>::empty(),
    {
        let r = RecordIds { entries: Vec::new() };
        assert(r@ =~= Map::<Seq<char>, Seq<char>>::empty());
        r
    }

    fn position(entries: &Vec<(String, String)>, name: &str) -> (r: Option<usize>)
        ensures
            r is None <==> !has_name(entries@, name@),
            r matches Some(i) ==> i < entries.len() && entries[i as int].0@ == name@,
    {
        for i in 0..entries.len()
            invariant
                forall|j: int| 0 <= j < i ==> #[trigger] entries[j].0@ != name@,
        {
            if same_text(entries[i].0.as_str(), name) {
                return Some(i);
            }
        }
        None
    }

    /// The ID known for `name`.
    pub fn get(&self, name: &str) -> (r: Option<String>)
        ensures
            r is Some <==> self@.contains_key(name@),
            r matches Some(id) ==> id@ == self@[name@],
    {
        proof {
            use_type_invariant(self);
        }
        match Self::position(&self.entries, name) {
            Some(i) => {
                proof {
                    lemma_entry(self.entries@, i as int);
                }
                Some(self.entries[i].1.clone())
            },
            None => None,
        }
    }

    /// Makes `id` the ID known for `name`.
    pub fn insert(&mut self, name: String, id: String)
        ensures
            final(self)@ == old(self)@.insert(name@, id@),
    {
        proof {
            use_type_invariant(&*self);
        }
        let ghost before = self.entries@;
        let ghost key = name@;
        let ghost value = id@;
        let mut entries: Vec<(String, String)> = Vec::new();
        std::mem::swap(&mut entries, &mut self.entries);
        match Self::position(&entries, name.as_str()) {
            Some(i) => {
                entries.set(i, (name, id));
                proof {
                    let after = entries@;
                    assert(distinct_names(after)) by {
                        assert forall|a: int, b: int|
                            0 <= a < b < after.len() implies #[trigger] after[a].0@
                            != #[trigger] after[b].0@ by {
                            assert(before[a].0@ != before[b].0@);
                        }
                    }
                    lemma_same_map(before, after, key, value, i as int);
                }
            },
            None => {
                entries.push((name, id));
                proof {
                    let after = entries@;
                    let n = before.len() as int;
                    assert(distinct_names(after)) by {
                        assert forall|a: int, b: int|
                            0 <= a < b < after.len() implies #[trigger] after[a].0@
                            != #[trigger] after[b].0@ by {
                            assert(before[a] == after[a]);
                            if b == n {
                                assert(before[a].0@ != key);
                            } else {
                                assert(before[a].0@ != before[b].0@);
                            }
                        }
                    }
                    lemma_same_map(before, after, key, value, n);
                }
            },
        }
        self.entries = entries;
    }

    /// Forgets the ID known for `name`, if there is one.
    pub fn remove(&mut self, name: &str)
        ensures
            final(self)@ == old(self)@.remove(name@),
    {
        proof {
            use_type_invariant(&*self);
        }
        let ghost before = self.entries@;
        let mut entries: Vec<(String, String)> = Vec::new();
        std::mem::swap(&mut entries, &mut self.entries);
        match Self::position(&entries, name) {
            Some(i) => {
                entries.remove(i);
                proof {
                    lemma_removed(before, entries@, i as int);
                }
            },
            None => {
                assert(entries_map(before).remove(name@) =~= entries_map(before));
            },
        }
        self.entries = entries;
    }

    /// How many records are known.
    pub fn len(&self) -> (r: usize)
        ensures
            r == self@.len(),
    {
        proof {
            use_type_invariant(self);
            let names = self.entries@.map_values(|e: (String, String)| e.0@);
            assert(names.no_duplicates()) by {
                assert forall|i: int, j: int|
                    0 <= i < names.len() && 0 <= j < names.len() && i != j implies names[i]
                    != names[j] by {
                    if i < j {
                        assert(self.entries@[i].0@ != self.entries@[j].0@);
                    } else {
                        assert(self.entries@[j].0@ != self.entries@[i].0@);
                    }
                }
            }
            names.unique_seq_to_set();
            assert forall|name: Seq<char>| names.to_set().contains(name) implies self@.dom().contains(
                name,
            ) by {
                let i = choose|i: int| 0 <= i < names.len() && names[i] == name;
                assert(self.entries@[i].0@ == name);
            }
            assert forall|name: Seq<char>| self@.dom().contains(name) implies names.to_set().contains(
                name,
            ) by {
                let i = place_of(self.entries@, name);
                assert(names[i] == name);
            }
            assert(names.to_set() =~= self@.dom());
        }
        self.entries.len()
    }

    /// The known records: name and ID, every name once.
    pub fn entries(&self) -> (r: &Vec<(String, String)>)
        ensures
            distinct_names(r@),
            forall|name: Seq<char>| #[trigger] self@.contains_key(name) <==> has_name(r@, name),
            forall|i: int| 0 <= i < r@.len() ==> self@[#[trigger] r@[i].0@] == r@[i].1@,
    {
        proof {
            use_type_invariant(self);
            assert forall|i: int| 0 <= i < self.entries@.len() implies self@[#[trigger] self.entries@[i].0@]
                == self.entries@[i].1@ by {
                lemma_entry(self.entries@, i);
            }
        }
        &self.entries
    }
}

/// Writing the entry at `i`, in place or behind the last, is inserting its key.
proof fn lemma_same_map(
    before: Seq<(String, String)>,
    after: Seq<(String, String)>,
    key: Seq<char>,
    value: Seq<char>,
    i: int,
)
    requires
        distinct_names(before),
        distinct_names(after),
        0 <= i < after.len(),
        after[i].0@ == key,
        after[i].1@ == value,
        i <= before.len() <= after.len() <= before.len() + 1,
        i == before.len() ==> after.len() == before.len() + 1,
        i < before.len() ==> before[i].0@ == key && after.len() == before.len(),
        forall|j: int| 0 <= j < before.len() && j != i ==> before[j] == #[trigger] after[j],
    ensures
        entries_map(after) == entries_map(before).insert(key, value),
{
    let left = entries_map(after);
    let right = entries_map(before).insert(key, value);
    assert forall|name: Seq<char>| left.contains_key(name) == right.contains_key(name) by {
        if left.contains_key(name) {
            let j = place_of(after, name);
            if j != i {
                assert(before[j].0@ == name);
            }
        }
        if right.contains_key(name) {
            if name == key {
                assert(after[i].0@ == name);
            } else {
                let j = place_of(before, name);
                assert(after[j].0@ == name);
            }
        }
    }
    assert forall|name: Seq<char>| left.contains_key(name) implies left[name] == right[name] by {
        let j = place_of(after, name);
        lemma_entry(after, j);
        if j != i {
            lemma_entry(before, j);
            if name == key {
                if j < i {
                    assert(after[j].0@ != after[i].0@);
                } else {
                    assert(after[i].0@ != after[j].0@);
                }
            }
        }
    }
    assert(left =~= right);
}

/// Taking the entry at `i` out is removing its key.
proof fn lemma_removed(before: Seq<(String, String)>, after: Seq<(String, String)>, i: int)
    requires
        distinct_names(before),
        0 <= i < before.len(),
        after == before.remove(i),
    ensures
        distinct_names(after),
        entries_map(after) == entries_map(before).remove(before[i].0@),
{
    let key = before[i].0@;
    assert forall|a: int, b: int| 0 <= a < b < after.len() implies #[trigger] after[a].0@
        != #[trigger] after[b].0@ by {
        let a0 = if a < i { a } else { a + 1 };
        let b0 = if b < i { b } else { b + 1 };
        assert(before[a0].0@ != before[b0].0@);
    }
    let left = entries_map(after);
    let right = entries_map(before).remove(key);
    assert forall|name: Seq<char>| left.contains_key(name) == right.contains_key(name) by {
        if left.contains_key(name) {
            let j = place_of(after, name);
            let j0 = if j < i { j } else { j + 1 };
            assert(before[j0].0@ == name);
            if name == key {
                if j0 < i {
                    assert(before[j0].0@ != before[i].0@);
                } else {
                    assert(before[i].0@ != before[j0].0@);
                }
            }
        }
        if right.contains_key(name) {
            let j = place_of(before, name);
            let j0 = if j < i { j } else { j - 1 };
            assert(after[j0].0@ == name);
        }
    }
    assert forall|name: Seq<char>| left.contains_key(name) implies left[name] == right[name] by {
        let j = place_of(after, name);
        let j0 = if j < i { j } else { j + 1 };
        lemma_entry(after, j);
        lemma_entry(before, j0);
    }
    assert(left =~= right);
}

} // verus!
