//! Merging of JSON objects.
use vstd::prelude::*;

use crate::duplicate::Duplicate;
use crate::json::{
    find_entry, lemma_map_of_finite, lemma_object_model, map_of, set_entry, Json, JsonMap, JsonView,
};

verus! {

/// `source` over `destination`: where both are objects they are merged key by key, elsewhere
/// `source` takes the place of `destination`.
pub open spec fn merged_value(destination: JsonView, source: JsonView) -> JsonView
    decreases source,
{
    match (destination, source) {
        (JsonView::Object(old), JsonView::Object(new)) => if new.dom().finite() {
            JsonView::Object(
                Map::new(
                    |key: Seq<char>| old.dom().contains(key) || new.dom().contains(key),
                    |key: Seq<char>|
                        if !new.dom().contains(key) {
                            old[key]
                        } else if !old.dom().contains(key) {
                            new[key]
                        } else {
                            merged_value(old[key], new[key])
                        },
                ),
            )
        } else {
            source
        },
        _ => source,
    }
}

/// `source` over `destination`, key by key.
pub open spec fn merged_maps(
    destination: Map<Seq<char>, JsonView>,
    source: Map<Seq<char>, JsonView>,
) -> Map<Seq<char>, JsonView> {
    merged_value(JsonView::Object(destination), JsonView::Object(source))->Object_0
}

/// Whether `key` is among the first `count` keys of `entries`.
spec fn seen(entries: Seq<(Seq<char>, JsonView)>, key: Seq<char>, count: int) -> bool {
    exists|k: int| 0 <= k < count && (#[trigger] entries[k]).0 == key
}

proof fn lemma_map_of_dom(entries: Seq<(Seq<char>, JsonView)>, key: Seq<char>)
    ensures
        map_of(entries).dom().contains(key) <==> seen(entries, key, entries.len() as int),
    decreases entries.len(),
{
    if entries.len() > 0 {
        let before = entries.drop_last();
        lemma_map_of_dom(before, key);
        if seen(before, key, before.len() as int) {
            let k = choose|k: int| 0 <= k < before.len() && (#[trigger] before[k]).0 == key;
            assert(entries[k].0 == key);
        }
        if seen(entries, key, entries.len() as int) && entries.last().0 != key {
            let k = choose|k: int| 0 <= k < entries.len() && (#[trigger] entries[k]).0 == key;
            assert(before[k].0 == key);
        }
        if entries.last().0 == key {
            assert(entries[entries.len() - 1].0 == key);
        }
    }
}

/// `source` over `destination`.
pub fn merge_values(destination: &Json, source: &Json) -> (result: Json)
    ensures
        result.deep_view() == merged_value(destination.deep_view(), source.deep_view()),
    decreases source,
{
    broadcast use lemma_object_model;

    match (destination, source) {
        (Json::Object(old), Json::Object(new)) => {
            let mut entries = old.duplicate();
            let ghost was = map_of(old.deep_view());
            let ghost given = new.deep_view();
            let ghost put = map_of(given);
            proof {
                lemma_map_of_finite(given);
            }
            for index in 0..new.len()
                invariant
                    source matches Json::Object(inner) && inner == new,
                    was == map_of(old.deep_view()),
                    given == new.deep_view(),
                    put == map_of(given),
                    forall|key: Seq<char>|
                        #[trigger] map_of(entries.deep_view()).dom().contains(key) <==> was.dom().contains(
                            key,
                        ) || seen(given, key, index as int),
                    forall|key: Seq<char>|
                        #[trigger] map_of(entries.deep_view()).dom().contains(key)
                            ==> map_of(entries.deep_view())[key] == (if !seen(
                            given,
                            key,
                            index as int,
                        ) {
                            was[key]
                        } else if !was.dom().contains(key) {
                            put[key]
                        } else {
                            merged_value(was[key], put[key])
                        }),
            {
                let key = &new[index].0;
                assert(given[index as int].0 == key@);
                proof {
                    assert(seen(given, key@, given.len() as int));
                    lemma_map_of_dom(given, key@);
                    assert forall|other: Seq<char>| seen(given, other, index + 1) <==> (seen(
                        given,
                        other,
                        index as int,
                    ) || other == key@) by {
                        if other == key@ {
                            assert(given[index as int].0 == other);
                        }
                    }
                }
                let value = match last_entry(new, key.as_str()) {
                    Some(place) => &new[place].1,
                    None => &new[index].1,
                };
                assert(value.deep_view() == put[key@]);
                let merged = match find_entry(old, key.as_str()) {
                    Some(earlier) => merge_values(earlier, value),
                    None => value.duplicate(),
                };
                set_entry(&mut entries, key.clone(), merged);
            }
            proof {
                let after = map_of(entries.deep_view());
                let expected = merged_maps(was, put);
                assert forall|key: Seq<char>| after.dom().contains(key) <==> expected.dom().contains(
                    key,
                ) by {
                    lemma_map_of_dom(given, key);
                }
                assert forall|key: Seq<char>| #[trigger] after.dom().contains(key) implies after[key]
                    == expected[key] by {
                    lemma_map_of_dom(given, key);
                }
                assert(after =~= expected);
            }
            Json::Object(entries)
        },
        _ => source.duplicate(),
    }
}

/// The place of the last entry under `key`.
fn last_entry(entries: &JsonMap, key: &str) -> (result: Option<usize>)
    ensures
        result is Some <==> map_of(entries.deep_view()).dom().contains(key@),
        result matches Some(place) ==> place < entries@.len() && entries@[place as int].1.deep_view()
            == map_of(entries.deep_view())[key@],
{
    let mut index: usize = entries.len();
    let ghost whole = map_of(entries.deep_view());
    assert(entries.deep_view().take(index as int) =~= entries.deep_view());
    while index > 0
        invariant
            index <= entries@.len(),
            whole == map_of(entries.deep_view()),
            whole.dom().contains(key@) <==> map_of(
                entries.deep_view().take(index as int),
            ).dom().contains(key@),
            whole.dom().contains(key@) ==> whole[key@] == map_of(
                entries.deep_view().take(index as int),
            )[key@],
        decreases index,
    {
        index = index - 1;
        let ghost longer = entries.deep_view().take(index + 1);
        assert(longer.drop_last() =~= entries.deep_view().take(index as int));
        assert(longer.last() == entries@[index as int].deep_view());
        if crate::text::same_text(entries[index].0.as_str(), key) {
            return Some(index);
        }
    }
    None
}

/// Merges `source` into `destination`.
pub fn merge_json_maps(destination: &mut JsonMap, source: &JsonMap)
    ensures
        map_of(final(destination).deep_view()) == merged_maps(
            map_of(old(destination).deep_view()),
            map_of(source.deep_view()),
        ),
{
    broadcast use lemma_object_model;

    proof {
        lemma_map_of_finite(source.deep_view());
    }
    let mut taken: JsonMap = Vec::new();
    std::mem::swap(&mut taken, destination);
    match merge_values(&Json::Object(taken), &Json::Object(source.duplicate())) {
        Json::Object(entries) => {
            *destination = entries;
        },
        _ => {},
    }
}

/// What `source` says goes: under every key of `source` that does not hold an object in both, the
/// merged object holds what `source` holds, and under every other key what `destination` held.
pub proof fn law_merging_lets_the_source_win(
    destination: Map<Seq<char>, JsonView>,
    source: Map<Seq<char>, JsonView>,
    key: Seq<char>,
)
    requires
        source.dom().finite(),
    ensures
        ({
            let merged = merged_maps(destination, source);
            &&& merged.dom().contains(key) <==> destination.dom().contains(key)
                || source.dom().contains(key)
            &&& source.dom().contains(key) && !(source[key] is Object) ==> merged[key]
                == source[key]
            &&& source.dom().contains(key) && !destination.dom().contains(key) ==> merged[key]
                == source[key]
            &&& !source.dom().contains(key) && destination.dom().contains(key) ==> merged[key]
                == destination[key]
        }),
{
    if source.dom().contains(key) && !(source[key] is Object) {
        assert(merged_value(destination[key], source[key]) == source[key]);
    }
}

/// Merging nothing changes nothing.
pub proof fn law_merging_nothing_changes_nothing(destination: Map<Seq<char>, JsonView>)
    ensures
        merged_maps(destination, Map::empty()) == destination,
{
    assert(merged_maps(destination, Map::empty()) =~= destination);
}

} // verus!
