//! Maps keyed by text.

use vstd::prelude::*;

use crate::text::same_text;

verus! {

/// Types whose values can be copied without changing what they stand for.
pub trait Duplicate: DeepView + Sized {
    /// A copy that stands for the same value.
    fn duplicate(&self) -> (copy: Self)
        ensures
            copy.deep_view() == self.deep_view(),
    ;
}

impl Duplicate for String {
    fn duplicate(&self) -> (copy: Self) {
        self.clone()
    }
}

impl<T: Duplicate> Duplicate for Option<T> {
    fn duplicate(&self) -> (copy: Self) {
        match self {
            Some(value) => Some(value.duplicate()),
            None => None,
        }
    }
}

impl<T: Duplicate> Duplicate for Vec<T> {
    fn duplicate(&self) -> (copy: Self) {
        let mut copy: Vec<T> = Vec::new();
        let mut i: usize = 0;
        while i < self.len()
            invariant
                i <= self.len(),
                copy.deep_view() == self.deep_view().take(i as int),
            decreases self.len() - i,
        {
            let item = self[i].duplicate();
            let ghost before = copy.deep_view();
            copy.push(item);
            assert(copy.deep_view() =~= before.push(item.deep_view()));
            assert(self.deep_view().take(i + 1) =~= before.push(self.deep_view()[i as int]));
            i = i + 1;
        }
        assert(self.deep_view().take(i as int) =~= self.deep_view());
        copy
    }
}

/// A map from text to `V`, kept as a list of entries whose keys all differ.
#[derive(Debug)]
pub struct StringMap<V> {
    entries: Vec<(String, V)>,
}

/// The map that a list of entries stands for; a later entry replaces an earlier one.
pub open spec fn entries_map<V: DeepView>(entries: Seq<(String, V)>) -> Map<Seq<char>, V::V>
    decreases entries.len(),
{
    if entries.len() == 0 {
        Map::empty()
    } else {
        entries_map(entries.drop_last()).insert(
            entries.last().0@,
            entries.last().1.deep_view(),
        )
    }
}

/// No two entries have the same key.
pub open spec fn distinct_keys<V>(entries: Seq<(String, V)>) -> bool {
    forall|i: int, j: int|
        0 <= i < j < entries.len() ==> (#[trigger] entries[i]).0@ != (#[trigger] entries[j]).0@
}

impl<V: DeepView> DeepView for StringMap<V> {
    type V = Map<Seq<char>, V::V>;

    open spec fn deep_view(&self) -> Map<Seq<char>, V::V> {
        entries_map(self.entries())
    }
}

/// What a list of entries with distinct keys says of its map, entry by entry.
pub proof fn lemma_entries_map<V: DeepView>(entries: Seq<(String, V)>)
    requires
        distinct_keys(entries),
    ensures
        forall|i: int|
            0 <= i < entries.len() ==> {
                &&& entries_map(entries).contains_key((#[trigger] entries[i]).0@)
                &&& entries_map(entries)[entries[i].0@] == entries[i].1.deep_view()
            },
        forall|k: Seq<char>|
            #[trigger] entries_map(entries).contains_key(k) ==> exists|i: int|
                0 <= i < entries.len() && (#[trigger] entries[i]).0@ == k,
        entries_map(entries).dom().finite(),
        entries_map(entries).dom().len() == entries.len(),
    decreases entries.len(),
{
    if entries.len() > 0 {
        let rest = entries.drop_last();
        assert(distinct_keys(rest)) by {
            assert forall|i: int, j: int| 0 <= i < j < rest.len() implies (#[trigger] rest[i]).0@ != (
            #[trigger] rest[j]).0@ by {
                assert(entries[i].0@ != entries[j].0@);
            }
        }
        lemma_entries_map(rest);
        assert forall|i: int| 0 <= i < entries.len() implies {
            &&& entries_map(entries).contains_key((#[trigger] entries[i]).0@)
            &&& entries_map(entries)[entries[i].0@] == entries[i].1.deep_view()
        } by {
            if i < rest.len() {
                assert(rest[i] == entries[i]);
                assert(entries[i].0@ != entries[entries.len() - 1].0@);
            }
        }
        assert forall|k: Seq<char>| #[trigger] entries_map(entries).contains_key(k) implies exists|
            i: int,
        |
            0 <= i < entries.len() && (#[trigger] entries[i]).0@ == k by {
            if k == entries.last().0@ {
                assert(entries[entries.len() - 1].0@ == k);
            } else {
                assert(entries_map(rest).contains_key(k));
                let i = choose|i: int| 0 <= i < rest.len() && (#[trigger] rest[i]).0@ == k;
                assert(entries[i].0@ == k);
            }
        }
        assert(!entries_map(rest).contains_key(entries.last().0@)) by {
            if entries_map(rest).contains_key(entries.last().0@) {
                let i = choose|i: int|
                    0 <= i < rest.len() && (#[trigger] rest[i]).0@ == entries.last().0@;
                assert(entries[i].0@ != entries[entries.len() - 1].0@);
            }
        }
    }
}

/// Replacing the value of an entry replaces it in the map.
proof fn lemma_entries_update<V: DeepView>(entries: Seq<(String, V)>, i: int, key: String, value: V)
    requires
        distinct_keys(entries),
        0 <= i < entries.len(),
        entries[i].0@ == key@,
    ensures
        distinct_keys(entries.update(i, (key, value))),
        entries_map(entries.update(i, (key, value))) == entries_map(entries).insert(
            key@,
            value.deep_view(),
        ),
{
    let updated = entries.update(i, (key, value));
    assert(distinct_keys(updated)) by {
        assert forall|a: int, b: int| 0 <= a < b < updated.len() implies (#[trigger] updated[a]).0@
            != (#[trigger] updated[b]).0@ by {
            assert(entries[a].0@ != entries[b].0@);
        }
    }
    lemma_entries_map(entries);
    lemma_entries_map(updated);
    let left = entries_map(updated);
    let right = entries_map(entries).insert(key@, value.deep_view());
    assert forall|k: Seq<char>| left.contains_key(k) <==> right.contains_key(k) by {
        if left.contains_key(k) {
            let j = choose|j: int| 0 <= j < updated.len() && (#[trigger] updated[j]).0@ == k;
            assert(entries_map(entries).contains_key(entries[j].0@));
        }
        if right.contains_key(k) {
            if k == key@ {
                assert(left.contains_key(updated[i].0@));
            } else {
                let j = choose|j: int| 0 <= j < entries.len() && (#[trigger] entries[j]).0@ == k;
                assert(left.contains_key(updated[j].0@));
            }
        }
    }
    assert forall|k: Seq<char>| left.contains_key(k) implies left[k] == right[k] by {
        let j = choose|j: int| 0 <= j < updated.len() && (#[trigger] updated[j]).0@ == k;
        assert(left[updated[j].0@] == updated[j].1.deep_view());
        if j != i {
            assert(entries[j].0@ != key@) by {
                if j < i {
                    assert(entries[j].0@ != entries[i].0@);
                } else {
                    assert(entries[i].0@ != entries[j].0@);
                }
            }
            assert(entries_map(entries)[entries[j].0@] == entries[j].1.deep_view());
        }
    }
    assert(left =~= right);
}

impl<V> StringMap<V> {
    /// The entries, in the order in which their keys were first inserted.
    pub closed spec fn entries(&self) -> Seq<(String, V)> {
        self.entries@
    }

    #[verifier::type_invariant]
    spec fn keys_differ(&self) -> bool {
        distinct_keys(self.entries@)
    }
}

impl<V: DeepView> StringMap<V> {
    /// The empty map.
    pub fn new() -> (map: Self)
        ensures
            map.deep_view() == Map::<Seq<char>, V::V>::empty(),
    {
        StringMap { entries: Vec::new() }
    }

    /// The number of keys. Each has one entry, which gives it its value.
    pub fn len(&self) -> (n: usize)
        ensures
            n == self.deep_view().dom().len(),
            self.deep_view().dom().finite(),
            n == self.entries().len(),
            forall|k: Seq<char>| #[trigger]
                self.deep_view().contains_key(k) ==> exists|i: int|
                    0 <= i < self.entries().len() && (#[trigger] self.entries()[i]).0@ == k,
            forall|i: int|
                0 <= i < self.entries().len() ==> {
                    &&& self.deep_view().contains_key((#[trigger] self.entries()[i]).0@)
                    &&& self.deep_view()[self.entries()[i].0@] == self.entries()[i].1.deep_view()
                },
    {
        proof {
            use_type_invariant(self);
            lemma_entries_map(self.entries@);
        }
        self.entries.len()
    }

    /// Whether there is no key.
    pub fn is_empty(&self) -> (empty: bool)
        ensures
            empty == (self.deep_view() == Map::<Seq<char>, V::V>::empty()),
    {
        proof {
            use_type_invariant(self);
            lemma_entries_map(self.entries@);
            if self.entries@.len() > 0 {
                assert(self.deep_view().contains_key(self.entries@[0].0@));
            }
        }
        self.entries.len() == 0
    }

    /// The entry at position `i`, and what the map says of it.
    pub fn entry(&self, i: usize) -> (entry: (&str, &V))
        requires
            i < self.entries().len(),
        ensures
            entry.0@ == self.entries()[i as int].0@,
            *entry.1 == self.entries()[i as int].1,
            self.deep_view().contains_key(entry.0@),
            self.deep_view()[entry.0@] == entry.1.deep_view(),
    {
        proof {
            use_type_invariant(self);
            lemma_entries_map(self.entries@);
        }
        (self.entries[i].0.as_str(), &self.entries[i].1)
    }

    /// All entries.
    pub(crate) fn as_entries(&self) -> (entries: &Vec<(String, V)>)
        ensures
            entries@ == self.entries(),
            distinct_keys(entries@),
    {
        proof {
            use_type_invariant(self);
        }
        &self.entries
    }

    /// The map that a list of entries stands for.
    pub fn from_entries(list: Vec<(String, V)>) -> (map: Self)
        ensures
            map.deep_view() == entries_map(list@),
    {
        let ghost all = list@;
        let mut map: StringMap<V> = StringMap::new();
        for entry in it: list.into_iter()
            invariant
                it.seq() == all,
                map.deep_view() == entries_map(all.take(it.index())),
        {
            assert(all.take(it.index() + 1).drop_last() =~= all.take(it.index()));
            map.insert(entry.0, entry.1);
        }
        assert(all.take(all.len() as int) =~= all);
        map
    }

    /// The position of the entry with a key, if there is one.
    fn find(&self, key: &str) -> (found: Option<usize>)
        ensures
            match found {
                Some(i) => i < self.entries().len() && self.entries()[i as int].0@ == key@,
                None => forall|i: int|
                    0 <= i < self.entries().len() ==> (#[trigger] self.entries()[i]).0@ != key@,
            },
    {
        let mut i: usize = 0;
        while i < self.entries.len()
            invariant
                i <= self.entries.len(),
                forall|j: int| 0 <= j < i ==> (#[trigger] self.entries()[j]).0@ != key@,
            decreases self.entries.len() - i,
        {
            if same_text(self.entries[i].0.as_str(), key) {
                return Some(i);
            }
            i = i + 1;
        }
        None
    }

    /// The value under `key`, if there is one.
    pub fn get(&self, key: &str) -> (value: Option<&V>)
        ensures
            match value {
                Some(v) => self.deep_view().contains_key(key@) && v.deep_view()
                    == self.deep_view()[key@],
                None => !self.deep_view().contains_key(key@),
            },
    {
        proof {
            use_type_invariant(self);
            lemma_entries_map(self.entries@);
        }
        match self.find(key) {
            Some(i) => Some(&self.entries[i].1),
            None => None,
        }
    }

    /// Whether `key` has a value.
    pub fn contains_key(&self, key: &str) -> (found: bool)
        ensures
            found == self.deep_view().contains_key(key@),
    {
        self.get(key).is_some()
    }

    /// Sets the value under `key`, in place of any earlier one.
    pub fn insert(&mut self, key: String, value: V)
        ensures
            final(self).deep_view() == old(self).deep_view().insert(key@, value.deep_view()),
    {
        proof {
            use_type_invariant(&*self);
            lemma_entries_map(self.entries@);
        }
        let found = self.find(key.as_str());
        let ghost before = self.entries@;
        let mut entries: Vec<(String, V)> = Vec::new();
        std::mem::swap(&mut entries, &mut self.entries);
        match found {
            Some(i) => {
                proof {
                    lemma_entries_update(entries@, i as int, key, value);
                }
                entries[i] = (key, value);
            },
            None => {
                entries.push((key, value));
                assert(entries@.drop_last() =~= before);
                assert forall|i: int, j: int| 0 <= i < j < entries@.len() implies (
                #[trigger] entries@[i]).0@ != (#[trigger] entries@[j]).0@ by {
                    assert(before[i] == old(self).entries()[i]);
                    if j < before.len() {
                        assert(before[i].0@ != before[j].0@);
                    }
                }
            },
        }
        self.entries = entries;
    }
}

impl<V: Duplicate> Duplicate for StringMap<V> {
    fn duplicate(&self) -> (copy: Self) {
        let mut copy: StringMap<V> = StringMap::new();
        let mut i: usize = 0;
        while i < self.entries.len()
            invariant
                i <= self.entries.len(),
                copy.deep_view() == entries_map(self.entries@.take(i as int)),
            decreases self.entries.len() - i,
        {
            copy.insert(self.entries[i].0.clone(), self.entries[i].1.duplicate());
            assert(self.entries@.take(i + 1).drop_last() =~= self.entries@.take(i as int));
            i = i + 1;
        }
        assert(self.entries@.take(i as int) =~= self.entries@);
        copy
    }
}

impl<V: Duplicate> Clone for StringMap<V> {
    fn clone(&self) -> (copy: Self)
        ensures
            copy.deep_view() == self.deep_view(),
    {
        self.duplicate()
    }
}

} // verus!
