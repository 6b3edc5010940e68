//! Maps and sets whose keys are texts.
use vstd::prelude::*;

use crate::duplicate::Duplicate;
use crate::text::{lowered, lemma_text_less_irreflexive, lemma_text_less_total, lemma_text_less_transitive, same_text, text_less, text_precedes};

verus! {

/// A map from texts, kept in the order of its keys.
#[derive(Debug, PartialEq)]
pub struct TextMap<V> {
    entries: Vec<(String, V)>,
}

/// Whether the keys of `entries` are in strictly ascending order.
pub open spec fn keys_ascending<V>(entries: Seq<(Seq<char>, V)>) -> bool {
    forall|i: int, j: int|
        0 <= i < j < entries.len() ==> text_less((#[trigger] entries[i]).0, (#[trigger] entries[j]).0)
}

/// The map that a list of entries stands for, each key once.
pub open spec fn entries_map<V>(entries: Seq<(Seq<char>, V)>) -> Map<Seq<char>, V> {
    Map::new(
        |key: Seq<char>| exists|i: int| 0 <= i < entries.len() && (#[trigger] entries[i]).0 == key,
        |key: Seq<char>|
            entries[choose|i: int| 0 <= i < entries.len() && (#[trigger] entries[i]).0 == key].1,
    )
}

impl<V: DeepView> DeepView for TextMap<V> {
    type V = Map<Seq<char>, V::V>;

    closed spec fn deep_view(&self) -> Map<Seq<char>, V::V> {
        entries_map(self.entries.deep_view())
    }
}

/// In an ascending list the entry at `at` is the one that its key leads to.
pub proof fn lemma_entries_map_at<V>(entries: Seq<(Seq<char>, V)>, at: int)
    requires
        keys_ascending(entries),
        0 <= at < entries.len(),
    ensures
        entries_map(entries).dom().contains(entries[at].0),
        entries_map(entries)[entries[at].0] == entries[at].1,
{
    let key = entries[at].0;
    assert(entries[at].0 == key);
    let found = choose|i: int| 0 <= i < entries.len() && (#[trigger] entries[i]).0 == key;
    lemma_text_less_irreflexive(key);
}

/// A list that holds `after[at]` and otherwise what `before` holds under other keys stands for
/// the map with that one entry put in.
proof fn lemma_entries_map_put<V>(
    before: Seq<(Seq<char>, V)>,
    after: Seq<(Seq<char>, V)>,
    at: int,
)
    requires
        keys_ascending(before),
        keys_ascending(after),
        0 <= at < after.len(),
        forall|i: int|
            0 <= i < before.len() && before[i].0 != after[at].0 ==> #[trigger] after.contains(before[i]),
        forall|j: int|
            0 <= j < after.len() && j != at ==> #[trigger] before.contains(after[j]),
    ensures
        entries_map(after) == entries_map(before).insert(after[at].0, after[at].1),
{
    let key = after[at].0;
    let expected = entries_map(before).insert(key, after[at].1);
    lemma_entries_map_at(after, at);
    assert forall|other: Seq<char>| #[trigger] entries_map(after).dom().contains(other) implies expected.dom().contains(
        other,
    ) && expected[other] == entries_map(after)[other] by {
        let j = choose|j: int| 0 <= j < after.len() && (#[trigger] after[j]).0 == other;
        lemma_entries_map_at(after, j);
        if j != at {
            assert(before.contains(after[j]));
            let i = choose|i: int| 0 <= i < before.len() && #[trigger] before[i] == after[j];
            lemma_entries_map_at(before, i);
            lemma_text_less_irreflexive(key);
        }
    }
    assert forall|other: Seq<char>| #[trigger] expected.dom().contains(other) implies entries_map(after).dom().contains(
        other,
    ) by {
        if other != key {
            let i = choose|i: int| 0 <= i < before.len() && (#[trigger] before[i]).0 == other;
            assert(after.contains(before[i]));
            let j = choose|j: int| 0 <= j < after.len() && #[trigger] after[j] == before[i];
            lemma_entries_map_at(after, j);
        }
    }
    assert(entries_map(after).dom() =~= expected.dom());
    assert(entries_map(after) =~= expected);
}

impl<V> TextMap<V> {
    /// The keys are in strictly ascending order.
    #[verifier::type_invariant]
    pub closed spec fn inv(&self) -> bool {
        forall|i: int, j: int|
            0 <= i < j < self.entries@.len() ==> text_less(
                (#[trigger] self.entries@[i]).0@,
                (#[trigger] self.entries@[j]).0@,
            )
    }
}

impl<V: DeepView> TextMap<V> {
    proof fn lemma_ascending(&self)
        requires
            self.inv(),
        ensures
            keys_ascending(self.listed()),
    {
        assert forall|i: int, j: int| 0 <= i < j < self.listed().len() implies text_less(
            (#[trigger] self.listed()[i]).0,
            (#[trigger] self.listed()[j]).0,
        ) by {
            assert(self.listed()[i].0 == self.entries@[i].0@);
            assert(self.listed()[j].0 == self.entries@[j].0@);
        }
    }

    /// The entries in the order of their keys.
    pub closed spec fn listed(&self) -> Seq<(Seq<char>, V::V)> {
        self.entries.deep_view()
    }

    /// The map holds the listed entries.
    pub proof fn lemma_listed(&self)
        ensures
            self.deep_view() == entries_map(self.listed()),
    {
    }

    pub fn new() -> (result: Self)
        ensures
            result.deep_view() == Map::<Seq<char>, V::V>::empty(),
            result.listed() == Seq::<(Seq<char>, V::V)>::empty(),
    {
        let result = TextMap { entries: Vec::new() };
        assert(result.deep_view() =~= Map::<Seq<char>, V::V>::empty());
        assert(result.listed() =~= Seq::<(Seq<char>, V::V)>::empty());
        result
    }

    pub fn len(&self) -> (result: usize)
        ensures
            result == self.listed().len(),
    {
        self.entries.len()
    }

    pub fn is_empty(&self) -> (result: bool)
        ensures
            result == (self.listed().len() == 0),
            result == (self.deep_view() == Map::<Seq<char>, V::V>::empty()),
    {
        proof {
            use_type_invariant(self);
            self.lemma_ascending();
            if self.listed().len() == 0 {
                assert(self.deep_view() =~= Map::<Seq<char>, V::V>::empty());
            } else {
                lemma_entries_map_at(self.listed(), 0);
            }
        }
        self.entries.len() == 0
    }

    /// The key at `index` in the order of the keys.
    pub fn key_at(&self, index: usize) -> (result: &String)
        requires
            index < self.listed().len(),
        ensures
            result@ == self.listed()[index as int].0,
            self.deep_view().dom().contains(result@),
            keys_ascending(self.listed()),
    {
        proof {
            use_type_invariant(self);
            self.lemma_ascending();
            lemma_entries_map_at(self.listed(), index as int);
        }
        &self.entries[index].0
    }

    /// The value at `index` in the order of the keys.
    pub fn value_at(&self, index: usize) -> (result: &V)
        requires
            index < self.listed().len(),
        ensures
            result.deep_view() == self.listed()[index as int].1,
            result.deep_view() == self.deep_view()[self.listed()[index as int].0],
    {
        proof {
            use_type_invariant(self);
            self.lemma_ascending();
            lemma_entries_map_at(self.listed(), index as int);
        }
        &self.entries[index].1
    }

    /// The place of `key`, or the place where it belongs.
    fn locate(&self, key: &str) -> (result: (usize, bool))
        ensures
            result.0 <= self.listed().len(),
            result.1 ==> result.0 < self.listed().len() && self.listed()[result.0 as int].0 == key@,
            forall|i: int| 0 <= i < result.0 ==> text_less((#[trigger] self.listed()[i]).0, key@),
            !result.1 ==> forall|i: int|
                result.0 <= i < self.listed().len() ==> text_less(key@, (#[trigger] self.listed()[i]).0),
            result.1 <==> self.deep_view().dom().contains(key@),
    {
        proof {
            use_type_invariant(self);
            self.lemma_ascending();
        }
        let ghost entries = self.listed();
        let mut index: usize = 0;
        while index < self.entries.len() && text_precedes(self.entries[index].0.as_str(), key)
            invariant
                entries == self.listed(),
                entries.len() == self.entries@.len(),
                index <= entries.len(),
                forall|i: int| 0 <= i < index ==> text_less((#[trigger] entries[i]).0, key@),
            decreases self.entries.len() - index,
        {
            index = index + 1;
        }
        if index < self.entries.len() && same_text(self.entries[index].0.as_str(), key) {
            assert(entries[index as int].0 == key@);
            return (index, true);
        }
        proof {
            assert forall|i: int| index <= i < entries.len() implies text_less(key@, (#[trigger] entries[i]).0) by {
                lemma_text_less_total(entries[index as int].0, key@);
                if i > index {
                    assert(text_less(entries[index as int].0, entries[i].0));
                    lemma_text_less_transitive(key@, entries[index as int].0, entries[i].0);
                }
            }
            if self.deep_view().dom().contains(key@) {
                let i = choose|i: int| 0 <= i < entries.len() && (#[trigger] entries[i]).0 == key@;
                lemma_text_less_irreflexive(key@);
            }
        }
        (index, false)
    }

    /// The value under `key`.
    pub fn get(&self, key: &str) -> (result: Option<&V>)
        ensures
            result is Some <==> self.deep_view().dom().contains(key@),
            result matches Some(value) ==> value.deep_view() == self.deep_view()[key@],
    {
        let (index, found) = self.locate(key);
        if found {
            Some(self.value_at(index))
        } else {
            None
        }
    }

    pub fn contains_key(&self, key: &str) -> (result: bool)
        ensures
            result == self.deep_view().dom().contains(key@),
    {
        self.locate(key).1
    }

    /// Puts `value` under `key`, in place of what was there.
    pub fn insert(&mut self, key: String, value: V)
        ensures
            final(self).deep_view() == old(self).deep_view().insert(key@, value.deep_view()),
    {
        let (index, found) = self.locate(key.as_str());
        proof {
            use_type_invariant(&*self);
            self.lemma_ascending();
        }
        let ghost before = self.listed();
        let ghost (k, v) = (key@, value.deep_view());
        let mut entries: Vec<(String, V)> = Vec::new();
        std::mem::swap(&mut entries, &mut self.entries);
        if found {
            entries[index] = (key, value);
            assert(entries.deep_view() =~= before.update(index as int, (k, v)));
        } else {
            entries.insert(index, (key, value));
            assert(entries.deep_view() =~= before.insert(index as int, (k, v)));
        }
        let ghost after = entries.deep_view();
        proof {
            assert(after[index as int] == (k, v));
            assert(keys_ascending(after));
            assert forall|i: int| 0 <= i < before.len() && before[i].0 != k implies #[trigger] after.contains(before[i]) by {
                let j = if found || i < index {
                    i
                } else {
                    i + 1
                };
                assert(after[j] == before[i]);
            }
            assert forall|j: int| 0 <= j < after.len() && j != index implies #[trigger] before.contains(after[j]) by {
                let i = if found || j < index {
                    j
                } else {
                    j - 1
                };
                assert(before[i] == after[j]);
            }
            lemma_entries_map_put(before, after, index as int);
            assert forall|i: int, j: int| 0 <= i < j < entries@.len() implies text_less(
                (#[trigger] entries@[i]).0@,
                (#[trigger] entries@[j]).0@,
            ) by {
                assert(after[i].0 == entries@[i].0@);
                assert(after[j].0 == entries@[j].0@);
            }
        }
        self.entries = entries;
    }
}

impl<V: DeepView> TextMap<V> {
    /// Takes out what is under `key`.
    pub fn remove(&mut self, key: &str) -> (result: Option<V>)
        ensures
            final(self).deep_view() == old(self).deep_view().remove(key@),
            result is Some <==> old(self).deep_view().dom().contains(key@),
            result matches Some(value) ==> value.deep_view() == old(self).deep_view()[key@],
    {
        let (index, found) = self.locate(key);
        proof {
            use_type_invariant(&*self);
            self.lemma_ascending();
        }
        let ghost before = self.listed();
        if !found {
            assert(self.deep_view().remove(key@) =~= self.deep_view());
            return None;
        }
        let mut entries: Vec<(String, V)> = Vec::new();
        std::mem::swap(&mut entries, &mut self.entries);
        let (_, value) = entries.remove(index);
        let ghost after = entries.deep_view();
        proof {
            assert(after =~= before.remove(index as int));
            assert(keys_ascending(after));
            assert forall|i: int, j: int| 0 <= i < j < entries@.len() implies text_less(
                (#[trigger] entries@[i]).0@,
                (#[trigger] entries@[j]).0@,
            ) by {
                assert(after[i].0 == entries@[i].0@);
                assert(after[j].0 == entries@[j].0@);
            }
            lemma_entries_map_at(before, index as int);
            lemma_entries_map_remove(before, index as int);
        }
        self.entries = entries;
        Some(value)
    }
}

proof fn lemma_entries_map_remove<V>(entries: Seq<(Seq<char>, V)>, at: int)
    requires
        keys_ascending(entries),
        0 <= at < entries.len(),
    ensures
        entries_map(entries.remove(at)) == entries_map(entries).remove(entries[at].0),
{
    let key = entries[at].0;
    let after = entries.remove(at);
    let expected = entries_map(entries).remove(key);
    assert(keys_ascending(after));
    assert forall|other: Seq<char>| #[trigger] entries_map(after).dom().contains(other) implies expected.dom().contains(
        other,
    ) && expected[other] == entries_map(after)[other] by {
        let j = choose|j: int| 0 <= j < after.len() && (#[trigger] after[j]).0 == other;
        let i = if j < at {
            j
        } else {
            j + 1
        };
        assert(entries[i] == after[j]);
        lemma_entries_map_at(after, j);
        lemma_entries_map_at(entries, i);
        lemma_text_less_irreflexive(key);
    }
    assert forall|other: Seq<char>| #[trigger] expected.dom().contains(other) implies entries_map(after).dom().contains(
        other,
    ) by {
        let i = choose|i: int| 0 <= i < entries.len() && (#[trigger] entries[i]).0 == other;
        let j = if i < at {
            i
        } else {
            i - 1
        };
        assert(after[j] == entries[i]);
        lemma_entries_map_at(after, j);
    }
    assert(entries_map(after).dom() =~= expected.dom());
    assert(entries_map(after) =~= expected);
}

impl<V: Duplicate> Duplicate for TextMap<V> {
    fn duplicate(&self) -> (copy: Self) {
        proof {
            use_type_invariant(self);
            self.lemma_ascending();
        }
        let entries = self.entries.duplicate();
        proof {
            assert(entries.deep_view().len() == self.entries.deep_view().len());
            assert forall|i: int| 0 <= i < entries@.len() implies (#[trigger] entries@[i]).0@ == self.entries@[i].0@ by {
                assert(entries.deep_view()[i] == self.entries.deep_view()[i]);
            }
        }
        TextMap { entries }
    }
}

/// Two ascending lists that stand for the same map are the same.
pub proof fn lemma_listing_is_unique<V>(one: Seq<(Seq<char>, V)>, other: Seq<(Seq<char>, V)>)
    requires
        keys_ascending(one),
        keys_ascending(other),
        entries_map(one) == entries_map(other),
    ensures
        one == other,
    decreases one.len(),
{
    if one.len() == 0 {
        if other.len() > 0 {
            lemma_entries_map_at(other, 0);
        }
        assert(one =~= other);
    } else {
        lemma_entries_map_at(one, 0);
        let at = choose|i: int| 0 <= i < other.len() && (#[trigger] other[i]).0 == one[0].0;
        lemma_entries_map_at(other, 0);
        let back = choose|i: int| 0 <= i < one.len() && (#[trigger] one[i]).0 == other[0].0;
        assert(one[0].0 == other[0].0) by {
            if at > 0 && back > 0 {
                assert(text_less(other[0].0, other[at].0));
                assert(text_less(one[0].0, one[back].0));
                lemma_text_less_transitive(one[0].0, other[0].0, one[0].0);
                lemma_text_less_irreflexive(one[0].0);
            }
        }
        lemma_entries_map_remove(one, 0);
        lemma_entries_map_remove(other, 0);
        assert(keys_ascending(one.remove(0)));
        assert(keys_ascending(other.remove(0)));
        lemma_listing_is_unique(one.remove(0), other.remove(0));
        assert(one =~= seq![one[0]] + one.remove(0));
        assert(other =~= seq![other[0]] + other.remove(0));
    }
}

/// The entries of a map in the order of their keys.
pub open spec fn sorted_entries<V>(map: Map<Seq<char>, V>) -> Seq<(Seq<char>, V)> {
    choose|listed: Seq<(Seq<char>, V)>| keys_ascending(listed) && entries_map(listed) == map
}

impl<V: DeepView> TextMap<V> {
    /// The listed entries are those of the map in the order of their keys.
    pub proof fn lemma_listed_is_sorted(&self)
        requires
            self.inv(),
        ensures
            keys_ascending(self.listed()),
            self.listed() == sorted_entries(self.deep_view()),
    {
        self.lemma_ascending();
        lemma_listing_is_unique(self.listed(), sorted_entries(self.deep_view()));
    }

    /// How many entries there are.
    pub fn count(&self) -> (result: usize)
        ensures
            result == sorted_entries(self.deep_view()).len(),
            self.listed() == sorted_entries(self.deep_view()),
            keys_ascending(self.listed()),
    {
        proof {
            use_type_invariant(self);
            self.lemma_listed_is_sorted();
        }
        self.entries.len()
    }
}

/// The first of `entries` whose key is `name` but for the case of its letters.
pub open spec fn first_like<V>(entries: Seq<(Seq<char>, V)>, name: Seq<char>) -> Option<V>
    decreases entries.len(),
{
    if entries.len() == 0 {
        None
    } else if lowered(entries[0].0) == lowered(name) {
        Some(entries[0].1)
    } else {
        first_like(entries.drop_first(), name)
    }
}

/// The value under `name`, or else the first whose key differs only in case.
pub open spec fn value_named<V>(map: Map<Seq<char>, V>, name: Seq<char>) -> Option<V> {
    if map.dom().contains(name) {
        Some(map[name])
    } else {
        first_like(sorted_entries(map), name)
    }
}

impl<V: DeepView> TextMap<V> {
    /// The value under `name`, or else the first whose key differs only in case.
    pub fn find(&self, name: &str) -> (result: Option<&V>)
        ensures
            result.deep_view() == value_named(self.deep_view(), name@),
    {
        if let Some(value) = self.get(name) {
            return Some(value);
        }
        let count: usize = self.count();
        let ghost entries = sorted_entries(self.deep_view());
        assert(entries.skip(0) =~= entries);
        for index in 0..count
            invariant
                count == entries.len(),
                entries == self.listed(),
                entries == sorted_entries(self.deep_view()),
                !self.deep_view().dom().contains(name@),
                first_like(entries, name@) == first_like(entries.skip(index as int), name@),
        {
            let key = self.key_at(index);
            proof {
                assert(entries.skip(index as int)[0] == entries[index as int]);
                assert(entries.skip(index as int).drop_first() =~= entries.skip(index + 1));
            }
            if key.as_str().eq_ignore_ascii_case(name) {
                return Some(self.value_at(index));
            }
        }
        assert(entries.skip(entries.len() as int) =~= Seq::empty());
        None
    }
}

/// A set of texts.
#[derive(Debug, PartialEq)]
pub struct TextSet {
    members: TextMap<bool>,
}

impl DeepView for TextSet {
    type V = Set<Seq<char>>;

    closed spec fn deep_view(&self) -> Set<Seq<char>> {
        self.members.deep_view().dom()
    }
}

impl TextSet {
    pub fn new() -> (result: Self)
        ensures
            result.deep_view() == Set::<Seq<char>>::empty(),
    {
        let result = TextSet { members: TextMap::new() };
        assert(result.deep_view() =~= Set::<Seq<char>>::empty());
        result
    }

    pub fn contains(&self, text: &str) -> (result: bool)
        ensures
            result == self.deep_view().contains(text@),
    {
        self.members.contains_key(text)
    }

    pub fn insert(&mut self, text: String)
        ensures
            final(self).deep_view() == old(self).deep_view().insert(text@),
    {
        let ghost before = self.deep_view();
        let ghost added = text@;
        self.members.insert(text, true);
        assert(self.deep_view() =~= before.insert(added));
    }
}

} // verus!
