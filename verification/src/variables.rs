//! The variable store: a finite map from names to numbers.
//!
//! A name is kept in lower case, so that a variable is found again whatever
//! the case it is written in.

use vstd::prelude::*;
use crate::number::Number;
use crate::text::{Span, lowercase_of, same_characters, string_of};

verus! {

/// A name with its value.
pub struct Variable {
    pub name: Vec<char>,
    pub value: Number,
}

/// The value that the first entry under `key` holds.
pub open spec fn lookup(entries: Seq<Variable>, key: Seq<char>) -> Option<Number>
    decreases entries.len(),
{
    if entries.len() == 0 {
        None
    } else if entries[0].name@ == key {
        Some(entries[0].value)
    } else {
        lookup(entries.drop_first(), key)
    }
}

/// No two entries have the same name.
pub open spec fn distinct(entries: Seq<Variable>) -> bool {
    forall|i: int, j: int| 0 <= i < j < entries.len() ==> entries[i].name@ != entries[j].name@
}

/// An entry is found under its own name, as long as no earlier entry has
/// that name.
pub proof fn lemma_lookup_at(entries: Seq<Variable>, index: int)
    requires
        0 <= index < entries.len(),
        forall|i: int| 0 <= i < index ==> entries[i].name@ != entries[index].name@,
    ensures
        lookup(entries, entries[index].name@) == Some(entries[index].value),
    decreases index,
{
    if index > 0 {
        let rest = entries.drop_first();
        assert(rest[index - 1] == entries[index]);
        assert forall|i: int| 0 <= i < index - 1 implies (#[trigger] rest[i]).name@ != rest[index - 1].name@ by {
            assert(rest[i] == entries[i + 1]);
        }
        lemma_lookup_at(rest, index - 1);
    }
}

/// A name that no entry has is not found.
pub proof fn lemma_lookup_absent(entries: Seq<Variable>, key: Seq<char>)
    requires
        forall|i: int| 0 <= i < entries.len() ==> entries[i].name@ != key,
    ensures
        lookup(entries, key) is None,
    decreases entries.len(),
{
    if entries.len() > 0 {
        let rest = entries.drop_first();
        assert forall|i: int| 0 <= i < rest.len() implies (#[trigger] rest[i]).name@ != key by {
            assert(rest[i] == entries[i + 1]);
        }
        lemma_lookup_absent(rest, key);
    }
}

/// A name that some entry has is found.
pub proof fn lemma_lookup_found_at(entries: Seq<Variable>, index: int)
    requires
        0 <= index < entries.len(),
    ensures
        lookup(entries, entries[index].name@) is Some,
    decreases index,
{
    if index > 0 && entries[0].name@ != entries[index].name@ {
        let rest = entries.drop_first();
        assert(rest[index - 1] == entries[index]);
        lemma_lookup_found_at(rest, index - 1);
    }
}

/// What is found is the value of some entry with that name.
pub proof fn lemma_lookup_found(entries: Seq<Variable>, key: Seq<char>)
    requires
        lookup(entries, key) is Some,
    ensures
        exists|i: int|
            0 <= i < entries.len() && (#[trigger] entries[i]).name@ == key && entries[i].value
                == lookup(entries, key)->0,
    decreases entries.len(),
{
    if entries[0].name@ == key {
        assert(entries[0].name@ == key);
    } else {
        let rest = entries.drop_first();
        lemma_lookup_found(rest, key);
        let i = choose|i: int|
            0 <= i < rest.len() && (#[trigger] rest[i]).name@ == key && rest[i].value == lookup(
                rest,
                key,
            )->0;
        assert(rest[i] == entries[i + 1]);
    }
}

/// After a new entry is put at the end, its name is found with its value,
/// and every other name as before.
pub proof fn lemma_lookup_push(entries: Seq<Variable>, added: Variable, key: Seq<char>)
    requires
        lookup(entries, added.name@) is None,
    ensures
        lookup(entries.push(added), key) == if key == added.name@ {
            Some(added.value)
        } else {
            lookup(entries, key)
        },
    decreases entries.len(),
{
    let extended = entries.push(added);
    if entries.len() == 0 {
        assert(extended[0] == added);
        assert(extended.drop_first() =~= Seq::<Variable>::empty());
        assert(lookup(extended.drop_first(), key) is None);
    } else {
        assert(extended[0] == entries[0]);
        assert(extended.drop_first() =~= entries.drop_first().push(added));
        lemma_lookup_push(entries.drop_first(), added, key);
    }
}

/// After the value of an entry is replaced, its name is found with the new
/// value, and every other name as before.
pub proof fn lemma_lookup_update(
    entries: Seq<Variable>,
    index: int,
    changed: Variable,
    key: Seq<char>,
)
    requires
        0 <= index < entries.len(),
        changed.name@ == entries[index].name@,
        forall|i: int| 0 <= i < index ==> entries[i].name@ != entries[index].name@,
    ensures
        lookup(entries.update(index, changed), key) == if key == changed.name@ {
            Some(changed.value)
        } else {
            lookup(entries, key)
        },
    decreases index,
{
    let updated = entries.update(index, changed);
    if index == 0 {
        assert(updated.drop_first() =~= entries.drop_first());
    } else {
        let rest = entries.drop_first();
        assert(updated.drop_first() =~= rest.update(index - 1, changed));
        assert(rest[index - 1] == entries[index]);
        assert forall|i: int| 0 <= i < index - 1 implies (#[trigger] rest[i]).name@ != rest[index - 1].name@ by {
            assert(rest[i] == entries[i + 1]);
        }
        assert(entries[0].name@ != changed.name@);
        lemma_lookup_update(rest, index - 1, changed, key);
    }
}

/// The variables that have been set, each name once.
pub struct VariableStore {
    entries: Vec<Variable>,
}

impl View for VariableStore {
    type V = Map<Seq<char>, Number>;

    /// The store as a map from names in lower case to values.
    closed spec fn view(&self) -> Map<Seq<char>, Number> {
        Map::new(
            |key: Seq<char>| lookup(self.entries@, key) is Some,
            |key: Seq<char>| lookup(self.entries@, key)->0,
        )
    }
}

impl VariableStore {
    #[verifier::type_invariant]
    spec fn names_are_distinct(self) -> bool {
        distinct(self.entries@)
    }

    /// The names in the order in which they were first set.
    pub closed spec fn names(&self) -> Seq<Seq<char>> {
        Seq::new(self.entries@.len(), |i: int| self.entries@[i].name@)
    }

    /// A store without variables.
    pub fn new() -> (store: VariableStore)
        ensures
            store@ == Map::<Seq<char>, Number>::empty(),
            store.names() == Seq::<Seq<char>>::empty(),
    {
        let store = VariableStore { entries: Vec::new() };
        assert(store@ =~= Map::<Seq<char>, Number>::empty());
        assert(store.names() =~= Seq::<Seq<char>>::empty());
        store
    }

    /// Where the entry with the given name stands.
    fn position(&self, key: &Vec<char>) -> (found: Option<usize>)
        ensures
            match found {
                Some(index) => {
                    &&& index < self.entries@.len()
                    &&& self.entries@[index as int].name@ == key@
                    &&& lookup(self.entries@, key@) == Some(self.entries@[index as int].value)
                    &&& forall|i: int| 0 <= i < index ==> self.entries@[i].name@ != key@
                },
                None => lookup(self.entries@, key@) is None,
            },
    {
        let mut index: usize = 0;
        while index < self.entries.len()
            invariant
                index <= self.entries@.len(),
                forall|i: int| 0 <= i < index ==> self.entries@[i].name@ != key@,
            decreases self.entries@.len() - index,
        {
            if same_characters(&self.entries[index].name, key) {
                proof {
                    lemma_lookup_at(self.entries@, index as int);
                }
                return Some(index);
            }
            index += 1;
        }
        proof {
            lemma_lookup_absent(self.entries@, key@);
        }
        None
    }

    /// The value stored under a name that is already in lower case.
    pub fn get(&self, key: &Vec<char>) -> (value: Option<Number>)
        ensures
            value == if self@.contains_key(key@) {
                Some(self@[key@])
            } else {
                None::<Number>
            },
    {
        match self.position(key) {
            Some(index) => Some(self.entries[index].value),
            None => None,
        }
    }

    /// Stores a value under a name that is already in lower case. A name
    /// that is in the store keeps its place; a new one goes to the end.
    pub fn insert(&mut self, key: Vec<char>, value: Number)
        ensures
            final(self)@ == old(self)@.insert(key@, value),
            final(self).names() == if old(self)@.contains_key(key@) {
                old(self).names()
            } else {
                old(self).names().push(key@)
            },
    {
        proof {
            use_type_invariant(&*self);
        }
        let ghost before = self.entries@;
        let ghost name = key@;
        let found = self.position(&key);
        let changed = Variable { name: key, value };
        let mut entries: Vec<Variable> = Vec::new();
        std::mem::swap(&mut self.entries, &mut entries);
        match found {
            Some(index) => {
                entries.set(index, changed);
                proof {
                    assert forall|k: Seq<char>|
                        lookup(entries@, k) == if k == name {
                            Some(value)
                        } else {
                            lookup(before, k)
                        } by {
                        lemma_lookup_update(before, index as int, changed, k);
                    }
                }
            },
            None => {
                entries.push(changed);
                proof {
                    assert forall|k: Seq<char>|
                        lookup(entries@, k) == if k == name {
                            Some(value)
                        } else {
                            lookup(before, k)
                        } by {
                        lemma_lookup_push(before, changed, k);
                    }
                    assert forall|i: int| 0 <= i < before.len() implies (#[trigger] before[i]).name@
                        != name by {
                        if before[i].name@ == name {
                            lemma_lookup_found_at(before, i);
                        }
                    }
                }
            },
        }
        std::mem::swap(&mut self.entries, &mut entries);
        proof {
            assert(self@ =~= old(self)@.insert(name, value));
            if found is Some {
                assert(self.names() =~= old(self).names());
            } else {
                assert(self.names() =~= old(self).names().push(name));
            }
        }
    }

    /// How many variables the store holds.
    pub fn len(&self) -> (count: usize)
        ensures
            count == self.names().len(),
    {
        self.entries.len()
    }

    /// The variables in the order in which they were first set: each name,
    /// in lower case, with its value. Every variable is listed, and none
    /// twice.
    pub fn list(&self) -> (listed: Vec<(String, Number)>)
        ensures
            listed@.len() == self.names().len(),
            forall|i: int|
                0 <= i < listed@.len() ==> {
                    &&& (#[trigger] listed@[i]).0@ == self.names()[i]
                    &&& self@.contains_key(self.names()[i])
                    &&& listed@[i].1 == self@[self.names()[i]]
                },
            forall|key: Seq<char>| self@.contains_key(key) ==> self.names().contains(key),
            forall|i: int, j: int|
                0 <= i < j < self.names().len() ==> self.names()[i] != self.names()[j],
    {
        let mut listed: Vec<(String, Number)> = Vec::new();
        let mut index: usize = 0;
        proof {
            use_type_invariant(self);
            assert forall|key: Seq<char>| self@.contains_key(key) implies self.names().contains(
                key,
            ) by {
                lemma_lookup_found(self.entries@, key);
                let i = choose|i: int|
                    0 <= i < self.entries@.len() && (#[trigger] self.entries@[i]).name@ == key
                        && self.entries@[i].value == lookup(self.entries@, key)->0;
                assert(self.names()[i] == key);
            }
        }
        while index < self.entries.len()
            invariant
                index <= self.entries@.len(),
                distinct(self.entries@),
                listed@.len() == index,
                forall|i: int|
                    0 <= i < index ==> {
                        &&& (#[trigger] listed@[i]).0@ == self.names()[i]
                        &&& self@.contains_key(self.names()[i])
                        &&& listed@[i].1 == self@[self.names()[i]]
                    },
            decreases self.entries@.len() - index,
        {
            let entry = &self.entries[index];
            let all = Span { start: 0, end: entry.name.len() };
            let name = string_of(&entry.name, all);
            proof {
                assert(all.of(entry.name@) =~= entry.name@);
                lemma_lookup_at(self.entries@, index as int);
                assert(self.names()[index as int] == entry.name@);
                assert(self@.contains_key(entry.name@));
                assert(self@[entry.name@] == entry.value);
            }
            let ghost before = listed@;
            listed.push((name, entry.value));
            proof {
                assert forall|i: int| 0 <= i < index + 1 implies {
                    &&& (#[trigger] listed@[i]).0@ == self.names()[i]
                    &&& self@.contains_key(self.names()[i])
                    &&& listed@[i].1 == self@[self.names()[i]]
                } by {
                    if i < index {
                        assert(listed@[i] == before[i]);
                    }
                }
            }
            index += 1;
        }
        listed
    }
}

/// Two names with the same lower case are one variable: what is set under
/// one is read under the other.
pub proof fn lemma_case_insensitive(
    before: Map<Seq<char>, Number>,
    written: Seq<char>,
    read: Seq<char>,
    value: Number,
)
    requires
        lowercase_of(written) == lowercase_of(read),
    ensures
        before.insert(lowercase_of(written), value).contains_key(lowercase_of(read)),
        before.insert(lowercase_of(written), value)[lowercase_of(read)] == value,
{
}

} // verus!
