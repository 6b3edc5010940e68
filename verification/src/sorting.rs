//! Stable sorting by name.
use vstd::prelude::*;

use crate::text::{
    lemma_text_less_irreflexive, lemma_text_less_total, lemma_text_less_transitive, text_less,
    text_precedes,
};

verus! {

/// A value that is ordered by a name.
pub trait Named: DeepView + Sized {
    spec fn name_of(model: Self::V) -> Seq<char>;

    fn name(&self) -> (result: &str)
        ensures
            result@ == Self::name_of(self.deep_view()),
    ;
}

/// `sorted` with `item` put in front of the first value with a greater name.
pub open spec fn put_by_name<T: Named>(sorted: Seq<T::V>, item: T::V) -> Seq<T::V>
    decreases sorted.len(),
{
    if sorted.len() > 0 && text_less(T::name_of(item), T::name_of(sorted.last())) {
        put_by_name::<T>(sorted.drop_last(), item).push(sorted.last())
    } else {
        sorted.push(item)
    }
}

/// `items` in the order of their names; values with the same name keep their order.
pub open spec fn sorted_by_name<T: Named>(items: Seq<T::V>) -> Seq<T::V>
    decreases items.len(),
{
    if items.len() == 0 {
        items
    } else {
        put_by_name::<T>(sorted_by_name::<T>(items.drop_last()), items.last())
    }
}

/// Whether the names ascend, equal names allowed.
pub open spec fn names_ascend<T: Named>(items: Seq<T::V>) -> bool {
    forall|i: int, j: int|
        0 <= i < j < items.len() ==> !text_less(
            T::name_of(#[trigger] items[j]),
            T::name_of(#[trigger] items[i]),
        )
}

/// Sorts `items` by name, keeping the order of values with the same name.
pub fn sort_by_name<T: Named>(items: Vec<T>) -> (result: Vec<T>)
    ensures
        result.deep_view() == sorted_by_name::<T>(items.deep_view()),
{
    let ghost given = items@;
    let ghost models = items.deep_view();
    let mut sorted: Vec<T> = Vec::new();
    assert(sorted.deep_view() =~= sorted_by_name::<T>(models.take(0)));
    for item in iter: items
        invariant
            iter.seq() == given,
            models.len() == given.len(),
            forall|k: int| 0 <= k < given.len() ==> #[trigger] models[k] == given[k].deep_view(),
            sorted.deep_view() == sorted_by_name::<T>(models.take(iter.index() as int)),
    {
        let ghost at = iter.index() as int;
        let ghost before = sorted.deep_view();
        let ghost model = item.deep_view();
        assert(models[at] == model);
        let mut place: usize = sorted.len();
        while place > 0 && text_precedes(item.name(), sorted[place - 1].name())
            invariant
                place <= sorted@.len(),
                before == sorted.deep_view(),
                model == item.deep_view(),
                forall|k: int|
                    place <= k < before.len() ==> text_less(
                        T::name_of(model),
                        T::name_of(#[trigger] before[k]),
                    ),
            decreases place,
        {
            assert(before[place - 1] == sorted@[place - 1].deep_view());
            place = place - 1;
        }
        proof {
            if place > 0 {
                assert(before[place - 1] == sorted@[place - 1].deep_view());
            }
            lemma_put_is_insert::<T>(before, model, place as int);
            assert(models.take(at + 1).drop_last() =~= models.take(at));
        }
        sorted.insert(place, item);
        assert(sorted.deep_view() =~= before.insert(place as int, model));
    }
    assert(models.take(models.len() as int) =~= models);
    sorted
}

proof fn lemma_put_is_insert<T: Named>(sorted: Seq<T::V>, item: T::V, place: int)
    requires
        0 <= place <= sorted.len(),
        forall|k: int|
            place <= k < sorted.len() ==> text_less(T::name_of(item), T::name_of(#[trigger] sorted[k])),
        place > 0 ==> !text_less(T::name_of(item), T::name_of(sorted[place - 1])),
    ensures
        put_by_name::<T>(sorted, item) == sorted.insert(place, item),
    decreases sorted.len(),
{
    if place == sorted.len() {
        assert(put_by_name::<T>(sorted, item) =~= sorted.insert(place, item));
    } else {
        assert(sorted.last() == sorted[sorted.len() - 1]);
        lemma_put_is_insert::<T>(sorted.drop_last(), item, place);
        assert(put_by_name::<T>(sorted, item) =~= sorted.insert(place, item));
    }
}

/// Sorting keeps every value, as often as it occurs.
pub proof fn law_sorting_keeps_values<T: Named>(items: Seq<T::V>)
    ensures
        sorted_by_name::<T>(items).to_multiset() == items.to_multiset(),
        sorted_by_name::<T>(items).len() == items.len(),
    decreases items.len(),
{
    broadcast use vstd::seq_lib::group_to_multiset_ensures;

    if items.len() > 0 {
        law_sorting_keeps_values::<T>(items.drop_last());
        lemma_put_keeps_values::<T>(sorted_by_name::<T>(items.drop_last()), items.last());
        assert(items.drop_last().push(items.last()) =~= items);
    }
}

proof fn lemma_put_keeps_values<T: Named>(sorted: Seq<T::V>, item: T::V)
    ensures
        put_by_name::<T>(sorted, item).to_multiset() == sorted.to_multiset().insert(item),
        put_by_name::<T>(sorted, item).len() == sorted.len() + 1,
    decreases sorted.len(),
{
    broadcast use vstd::seq_lib::group_to_multiset_ensures;

    if sorted.len() > 0 && text_less(T::name_of(item), T::name_of(sorted.last())) {
        lemma_put_keeps_values::<T>(sorted.drop_last(), item);
        assert(sorted.drop_last().push(sorted.last()) =~= sorted);
        assert(sorted.to_multiset() =~= sorted.drop_last().to_multiset().insert(sorted.last()));
        assert(put_by_name::<T>(sorted, item).to_multiset() =~= sorted.to_multiset().insert(item));
    } else {
        assert(sorted.push(item).to_multiset() =~= sorted.to_multiset().insert(item));
    }
}

/// What sorting returns is in the order of the names.
pub proof fn law_sorting_orders_names<T: Named>(items: Seq<T::V>)
    ensures
        names_ascend::<T>(sorted_by_name::<T>(items)),
    decreases items.len(),
{
    if items.len() > 0 {
        law_sorting_orders_names::<T>(items.drop_last());
        lemma_put_orders_names::<T>(sorted_by_name::<T>(items.drop_last()), items.last());
    }
}

proof fn lemma_put_orders_names<T: Named>(sorted: Seq<T::V>, item: T::V)
    requires
        names_ascend::<T>(sorted),
    ensures
        names_ascend::<T>(put_by_name::<T>(sorted, item)),
        forall|k: int|
            0 <= k < put_by_name::<T>(sorted, item).len() ==> #[trigger] put_by_name::<T>(
                sorted,
                item,
            )[k] == item || sorted.contains(put_by_name::<T>(sorted, item)[k]),
    decreases sorted.len(),
{
    let result = put_by_name::<T>(sorted, item);
    if sorted.len() > 0 && text_less(T::name_of(item), T::name_of(sorted.last())) {
        let shorter = sorted.drop_last();
        let inner = put_by_name::<T>(shorter, item);
        assert(names_ascend::<T>(shorter)) by {
            assert forall|i: int, j: int| 0 <= i < j < shorter.len() implies !text_less(
                T::name_of(#[trigger] shorter[j]),
                T::name_of(#[trigger] shorter[i]),
            ) by {
                assert(shorter[i] == sorted[i] && shorter[j] == sorted[j]);
            }
        }
        lemma_put_orders_names::<T>(shorter, item);
        assert(sorted[sorted.len() - 1] == sorted.last());
        assert forall|k: int| 0 <= k < result.len() implies #[trigger] result[k] == item
            || sorted.contains(result[k]) by {
            if k < inner.len() {
                assert(result[k] == inner[k]);
                if inner[k] != item {
                    let m = choose|m: int| 0 <= m < shorter.len() && shorter[m] == inner[k];
                    assert(sorted[m] == inner[k]);
                }
            }
        }
        assert forall|i: int, j: int| 0 <= i < j < result.len() implies !text_less(
            T::name_of(#[trigger] result[j]),
            T::name_of(#[trigger] result[i]),
        ) by {
            if j < inner.len() {
                assert(result[i] == inner[i] && result[j] == inner[j]);
            } else {
                assert(result[i] == inner[i]);
                let last = T::name_of(sorted.last());
                if inner[i] == item {
                    if text_less(last, T::name_of(item)) {
                        lemma_text_less_transitive(last, T::name_of(item), last);
                        lemma_text_less_irreflexive(last);
                    }
                } else {
                    let m = choose|m: int| 0 <= m < shorter.len() && shorter[m] == inner[i];
                    assert(sorted[m] == inner[i]);
                }
            }
        }
    } else {
        assert forall|k: int| 0 <= k < result.len() implies #[trigger] result[k] == item
            || sorted.contains(result[k]) by {
            if k < sorted.len() {
                assert(result[k] == sorted[k]);
            }
        }
        assert forall|i: int, j: int| 0 <= i < j < result.len() implies !text_less(
            T::name_of(#[trigger] result[j]),
            T::name_of(#[trigger] result[i]),
        ) by {
            if j < sorted.len() {
                assert(result[i] == sorted[i] && result[j] == sorted[j]);
            } else if i < sorted.len() - 1 {
                assert(result[i] == sorted[i]);
                let last = T::name_of(sorted.last());
                assert(sorted[sorted.len() - 1] == sorted.last());
                if text_less(T::name_of(item), T::name_of(sorted[i])) {
                    lemma_text_less_total(T::name_of(sorted[i]), last);
                    if text_less(T::name_of(sorted[i]), last) {
                        lemma_text_less_transitive(T::name_of(item), T::name_of(sorted[i]), last);
                    }
                }
            } else {
                assert(result[i] == sorted[i]);
            }
        }
    }
}

proof fn lemma_put_is_stable<T: Named>(sorted: Seq<T::V>, item: T::V, name: Seq<char>)
    ensures
        put_by_name::<T>(sorted, item).filter(|value: T::V| T::name_of(value) == name) == (
        if T::name_of(item) == name {
            sorted.filter(|value: T::V| T::name_of(value) == name).push(item)
        } else {
            sorted.filter(|value: T::V| T::name_of(value) == name)
        }) || !names_ascend::<T>(sorted),
    decreases sorted.len(),
{
    reveal(Seq::filter);
    let named = |value: T::V| T::name_of(value) == name;
    if names_ascend::<T>(sorted) {
        if sorted.len() > 0 && text_less(T::name_of(item), T::name_of(sorted.last())) {
            let before = sorted.drop_last();
            assert forall|i: int, j: int| 0 <= i < j < before.len() implies !text_less(
                T::name_of(#[trigger] before[j]),
                T::name_of(#[trigger] before[i]),
            ) by {
                assert(before[i] == sorted[i] && before[j] == sorted[j]);
            }
            lemma_put_is_stable::<T>(before, item, name);
            let put = put_by_name::<T>(before, item);
            assert(put.push(sorted.last()).drop_last() =~= put);
            lemma_text_less_irreflexive(T::name_of(item));
            assert(T::name_of(item) != T::name_of(sorted.last()));
        } else {
            assert(sorted.push(item).drop_last() =~= sorted);
        }
    }
}

/// Values with the same name keep their order.
pub proof fn law_sorting_is_stable<T: Named>(items: Seq<T::V>, name: Seq<char>)
    ensures
        sorted_by_name::<T>(items).filter(|value: T::V| T::name_of(value) == name) == items.filter(
            |value: T::V| T::name_of(value) == name,
        ),
    decreases items.len(),
{
    reveal(Seq::filter);
    if items.len() > 0 {
        law_sorting_is_stable::<T>(items.drop_last(), name);
        law_sorting_orders_names::<T>(items.drop_last());
        lemma_put_is_stable::<T>(sorted_by_name::<T>(items.drop_last()), items.last(), name);
    }
}

} // verus!
