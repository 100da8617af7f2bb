//! A map from names to values.

use crate::text::same;
use vstd::prelude::*;

verus! {

/// Values under distinct names.
#[derive(Debug)]
pub struct NameMap<V> {
    entries: Vec<(String, V)>,
}

/// Whether no name occurs twice.
spec fn names_differ<V>(entries: Seq<(String, V)>) -> bool {
    forall|i: int, j: int|
        0 <= i < j < entries.len() ==> (#[trigger] entries[i]).0@ != (#[trigger] entries[j]).0@
}

/// The place of an entry with the given name.
spec fn has_name_at<V>(entries: Seq<(String, V)>, name: Seq<char>, i: int) -> bool {
    0 <= i < entries.len() && entries[i].0@ == name
}

/// The map that a list of entries stands for.
spec fn entries_map<V>(entries: Seq<(String, V)>) -> Map<Seq<char>, V> {
    Map::new(
        |name: Seq<char>| exists|i: int| has_name_at(entries, name, i),
        |name: Seq<char>| entries[choose|i: int| has_name_at(entries, name, i)].1,
    )
}

impl<V> View for NameMap<V> {
    type V = Map<Seq<char>, V>;

    closed spec fn view(&self) -> Map<Seq<char>, V> {
        entries_map(self.entries@)
    }
}

impl<V> NameMap<V> {
    #[verifier::type_invariant]
    spec fn holds_each_name_once(self) -> bool {
        names_differ(self.entries@)
    }

    /// The map without entries.
    pub fn new() -> (map: NameMap<V>)
        ensures
            map@ == Map::<Seq<char>, V>::empty(),
    {
        let map = NameMap { entries: Vec::new() };
        assert(map@ =~= Map::<Seq<char>, V>::empty());
        map
    }

    /// The value under `name`.
    pub fn get(&self, name: &str) -> (value: Option<&V>)
        ensures
            match value {
                Some(value) => self@.contains_key(name@) && *value == self@[name@],
                None => !self@.contains_key(name@),
            },
    {
        proof {
            use_type_invariant(self);
        }
        let mut i: usize = 0;
        while i < self.entries.len()
            invariant
                i <= self.entries@.len(),
                names_differ(self.entries@),
                forall|j: int| 0 <= j < i ==> (#[trigger] self.entries@[j]).0@ != name@,
            decreases self.entries@.len() - i,
        {
            if same(self.entries[i].0.as_str(), name) {
                assert(has_name_at(self.entries@, name@, i as int));
                return Some(&self.entries[i].1);
            }
            i = i + 1;
        }
        None
    }

    /// Puts `value` under `name`, in place of what was there before.
    pub fn insert(&mut self, name: String, value: V)
        ensures
            final(self)@ == old(self)@.insert(name@, value),
    {
        proof {
            use_type_invariant(&*self);
        }
        let ghost before = self.entries@;
        let mut entries: Vec<(String, V)> = Vec::new();
        std::mem::swap(&mut entries, &mut self.entries);
        let mut i: usize = 0;
        while i < entries.len() && !same(entries[i].0.as_str(), name.as_str())
            invariant
                i <= entries@.len(),
                entries@ == before,
                forall|j: int| 0 <= j < i ==> (#[trigger] entries@[j]).0@ != name@,
            decreases entries@.len() - i,
        {
            i = i + 1;
        }
        if i < entries.len() {
            entries.set(i, (name, value));
        } else {
            entries.push((name, value));
        }
        proof {
            lemma_entry_put(before, entries@, i as int, name, value);
        }
        self.entries = entries;
    }

    /// The entries, in the order in which their names were first put in.
    pub fn entries(&self) -> (entries: &[(String, V)])
        ensures
            forall|i: int, j: int|
                0 <= i < j < entries@.len() ==> (#[trigger] entries@[i]).0@ != (
                #[trigger] entries@[j]).0@,
            forall|i: int|
                0 <= i < entries@.len() ==> self@.contains_key((#[trigger] entries@[i]).0@)
                    && self@[entries@[i].0@] == entries@[i].1,
            forall|name: Seq<char>| #[trigger]
                self@.contains_key(name) ==> exists|i: int|
                    0 <= i < entries@.len() && (#[trigger] entries@[i]).0@ == name,
    {
        proof {
            use_type_invariant(self);
            assert forall|i: int| 0 <= i < self.entries@.len() implies self@.contains_key(
                (#[trigger] self.entries@[i]).0@,
            ) && self@[self.entries@[i].0@] == self.entries@[i].1 by {
                assert(has_name_at(self.entries@, self.entries@[i].0@, i));
            }
            assert forall|name: Seq<char>| #[trigger] self@.contains_key(name) implies exists|
                i: int,
            |
                0 <= i < self.entries@.len() && (#[trigger] self.entries@[i]).0@ == name by {
                let i = choose|i: int| has_name_at(self.entries@, name, i);
                assert(self.entries@[i].0@ == name);
            }
        }
        self.entries.as_slice()
    }
}

impl<V: Clone> Clone for NameMap<V> {
    fn clone(&self) -> (copy: NameMap<V>)
        ensures
            copy@.dom() == self@.dom(),
            forall|name: Seq<char>| #[trigger]
                copy@.contains_key(name) ==> cloned::<V>(self@[name], copy@[name]),
    {
        proof {
            use_type_invariant(self);
        }
        let mut entries: Vec<(String, V)> = Vec::new();
        let mut i: usize = 0;
        while i < self.entries.len()
            invariant
                i <= self.entries@.len(),
                entries@.len() == i,
                forall|j: int| 0 <= j < i ==> (#[trigger] entries@[j]).0@ == self.entries@[j].0@,
                forall|j: int|
                    0 <= j < i ==> cloned::<V>(self.entries@[j].1, (#[trigger] entries@[j]).1),
            decreases self.entries@.len() - i,
        {
            let entry = &self.entries[i];
            entries.push((entry.0.clone(), entry.1.clone()));
            i = i + 1;
        }
        proof {
            assert forall|name: Seq<char>, j: int|
                #![trigger has_name_at(entries@, name, j)]
                #![trigger has_name_at(self.entries@, name, j)]
                has_name_at(entries@, name, j) <==> has_name_at(self.entries@, name, j) by {}
            assert(entries_map(entries@).dom() =~= entries_map(self.entries@).dom());
            assert forall|name: Seq<char>| #[trigger]
                entries_map(entries@).contains_key(name) implies cloned::<V>(
                entries_map(self.entries@)[name],
                entries_map(entries@)[name],
            ) by {
                let j = choose|j: int| has_name_at(entries@, name, j);
                let k = choose|k: int| has_name_at(self.entries@, name, k);
                assert(has_name_at(self.entries@, name, j));
                assert(j == k);
            }
        }
        NameMap { entries }
    }
}

/// An entry that is put in place of the one with its name, or behind all
/// others where there is none.
proof fn lemma_entry_put<V>(
    before: Seq<(String, V)>,
    after: Seq<(String, V)>,
    at: int,
    name: String,
    value: V,
)
    requires
        names_differ(before),
        0 <= at <= before.len(),
        forall|j: int| 0 <= j < at ==> (#[trigger] before[j]).0@ != name@,
        at < before.len() ==> before[at].0@ == name@ && after == before.update(at, (name, value)),
        at == before.len() ==> after == before.push((name, value)),
    ensures
        names_differ(after),
        entries_map(after) == entries_map(before).insert(name@, value),
{
    let inserted = entries_map(before).insert(name@, value);
    assert(has_name_at(after, name@, at));
    assert forall|key: Seq<char>| #[trigger]
        entries_map(after).contains_key(key) <==> inserted.contains_key(key) by {
        if entries_map(after).contains_key(key) && key != name@ {
            let i = choose|i: int| has_name_at(after, key, i);
            assert(has_name_at(before, key, i));
        }
        if entries_map(before).contains_key(key) && key != name@ {
            let i = choose|i: int| has_name_at(before, key, i);
            assert(has_name_at(after, key, i));
        }
    }
    assert forall|key: Seq<char>| #[trigger] entries_map(after).contains_key(key) implies
        entries_map(after)[key] == inserted[key] by {
        let i = choose|i: int| has_name_at(after, key, i);
        if key == name@ {
            assert(i == at);
        } else {
            assert(has_name_at(before, key, i));
            let j = choose|j: int| has_name_at(before, key, j);
            assert(i == j);
        }
    }
    assert(entries_map(after) =~= inserted);
}

} // verus!
