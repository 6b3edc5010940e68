//! What models cost.
use vstd::prelude::*;

use crate::collections::TextMap;
use crate::duplicate::Duplicate;
use crate::json::{JsonNumber, JsonNumberView};

verus! {

/// What the tokens of a model cost, in dollars per thousand tokens. A rate that is
/// not a finite number is missing.
#[derive(Debug, PartialEq)]
pub struct ModelPrice {
    pub input_per_1k: Option<JsonNumber>,
    pub output_per_1k: Option<JsonNumber>,
    pub cached_per_1k: Option<JsonNumber>,
    pub cached_price_configured: bool,
}

/// The model of [`ModelPrice`].
pub struct ModelPriceView {
    pub input_per_1k: Option<JsonNumberView>,
    pub output_per_1k: Option<JsonNumberView>,
    pub cached_per_1k: Option<JsonNumberView>,
    pub cached_price_configured: bool,
}

impl DeepView for ModelPrice {
    type V = ModelPriceView;

    open spec fn deep_view(&self) -> ModelPriceView {
        ModelPriceView {
            input_per_1k: self.input_per_1k.deep_view(),
            output_per_1k: self.output_per_1k.deep_view(),
            cached_per_1k: self.cached_per_1k.deep_view(),
            cached_price_configured: self.cached_price_configured,
        }
    }
}

impl Duplicate for ModelPrice {
    fn duplicate(&self) -> (copy: Self) {
        ModelPrice {
            input_per_1k: self.input_per_1k.duplicate(),
            output_per_1k: self.output_per_1k.duplicate(),
            cached_per_1k: self.cached_per_1k.duplicate(),
            cached_price_configured: self.cached_price_configured,
        }
    }
}

impl ModelPriceView {
    /// Whether all three rates are finite.
    pub open spec fn finite(self) -> bool {
        self.input_per_1k is Some && self.output_per_1k is Some && self.cached_per_1k is Some
    }
}

/// The price that is read from its parts. `cached` is what was given as the rate for cached
/// tokens, if anything was.
pub open spec fn price_of_parts(
    input_per_1k: Option<JsonNumberView>,
    output_per_1k: Option<JsonNumberView>,
    cached: Option<Option<JsonNumberView>>,
    configured: Option<bool>,
) -> ModelPriceView {
    ModelPriceView {
        input_per_1k,
        output_per_1k,
        cached_per_1k: match cached {
            Some(rate) => rate,
            None => Some(JsonNumberView::Integer(0)),
        },
        cached_price_configured: match configured {
            Some(configured) => configured,
            None => cached is Some,
        },
    }
}

impl ModelPrice {
    /// A price with a rate for cached tokens.
    pub fn new(
        input_per_1k: Option<JsonNumber>,
        output_per_1k: Option<JsonNumber>,
        cached_per_1k: Option<JsonNumber>,
    ) -> (result: ModelPrice)
        ensures
            result.deep_view() == (ModelPriceView {
                input_per_1k: input_per_1k.deep_view(),
                output_per_1k: output_per_1k.deep_view(),
                cached_per_1k: cached_per_1k.deep_view(),
                cached_price_configured: true,
            }),
    {
        ModelPrice { input_per_1k, output_per_1k, cached_per_1k, cached_price_configured: true }
    }

    /// A price without a rate for cached tokens, which then cost nothing.
    pub fn without_cached(
        input_per_1k: Option<JsonNumber>,
        output_per_1k: Option<JsonNumber>,
    ) -> (result: ModelPrice)
        ensures
            result.deep_view() == (ModelPriceView {
                input_per_1k: input_per_1k.deep_view(),
                output_per_1k: output_per_1k.deep_view(),
                cached_per_1k: Some(JsonNumberView::Integer(0)),
                cached_price_configured: false,
            }),
    {
        ModelPrice {
            input_per_1k,
            output_per_1k,
            cached_per_1k: Some(JsonNumber::Unsigned(0)),
            cached_price_configured: false,
        }
    }

    /// The price that is read from its parts. Whether the rate for cached tokens was configured is
    /// as `configured` says, and where it says nothing, whether a rate was given.
    pub fn from_parts(
        input_per_1k: Option<JsonNumber>,
        output_per_1k: Option<JsonNumber>,
        cached: Option<Option<JsonNumber>>,
        configured: Option<bool>,
    ) -> (result: ModelPrice)
        ensures
            result.deep_view() == price_of_parts(
                input_per_1k.deep_view(),
                output_per_1k.deep_view(),
                cached.deep_view(),
                configured,
            ),
    {
        let cached_price_configured = match configured {
            Some(configured) => configured,
            None => cached.is_some(),
        };
        let cached_per_1k = match cached {
            Some(rate) => rate,
            None => Some(JsonNumber::Unsigned(0)),
        };
        ModelPrice { input_per_1k, output_per_1k, cached_per_1k, cached_price_configured }
    }

    /// Whether all three rates are finite.
    pub fn is_finite(&self) -> (result: bool)
        ensures
            result == self.deep_view().finite(),
    {
        self.input_per_1k.is_some() && self.output_per_1k.is_some() && self.cached_per_1k.is_some()
    }
}

/// The entries of a price table whose rates are all finite.
pub open spec fn finite_prices(table: Map<Seq<char>, ModelPriceView>) -> Map<
    Seq<char>,
    ModelPriceView,
> {
    Map::new(
        |model: Seq<char>| table.dom().contains(model) && table[model].finite(),
        |model: Seq<char>| table[model],
    )
}

/// Drops the entries of a price table that have a rate that is not finite.
pub fn retain_finite_prices(table: &TextMap<ModelPrice>) -> (result: TextMap<ModelPrice>)
    ensures
        result.deep_view() == finite_prices(table.deep_view()),
{
    let mut kept: TextMap<ModelPrice> = TextMap::new();
    let count: usize = table.len();
    let ghost given = table.deep_view();
    let ghost listed = table.listed();
    proof {
        table.lemma_listed();
    }
    for index in 0..count
        invariant
            count == listed.len(),
            listed == table.listed(),
            given == table.deep_view(),
            forall|model: Seq<char>| #[trigger]
                kept.deep_view().dom().contains(model) ==> given.dom().contains(model)
                    && given[model].finite() && kept.deep_view()[model] == given[model],
            forall|k: int|
                0 <= k < index && given[(#[trigger] listed[k]).0].finite()
                    ==> kept.deep_view().dom().contains(listed[k].0),
    {
        let model = table.key_at(index);
        let price = table.value_at(index);
        if price.is_finite() {
            kept.insert(model.clone(), price.duplicate());
        }
    }
    proof {
        let result = kept.deep_view();
        let expected = finite_prices(given);
        assert forall|model: Seq<char>| #[trigger] expected.dom().contains(
            model,
        ) implies result.dom().contains(model) by {
            let k = choose|k: int| 0 <= k < listed.len() && (#[trigger] listed[k]).0 == model;
            assert(result.dom().contains(listed[k].0));
        }
        assert(result.dom() =~= expected.dom());
        assert(result =~= expected);
    }
    kept
}

/// Only finite prices are kept, none of them changes, and dropping once is enough.
pub proof fn law_prices_stay_finite(table: Map<Seq<char>, ModelPriceView>)
    ensures
        forall|model: Seq<char>| #[trigger]
            finite_prices(table).dom().contains(model) <==> table.dom().contains(model)
                && table[model].finite(),
        forall|model: Seq<char>| #[trigger]
            finite_prices(table).dom().contains(model) ==> finite_prices(table)[model]
                == table[model],
        finite_prices(finite_prices(table)) == finite_prices(table),
{
    assert(finite_prices(finite_prices(table)) =~= finite_prices(table));
}

/// A price that is written out and read again is the same price, whether or not its rate for
/// cached tokens was configured.
pub proof fn law_prices_are_read_as_written(price: ModelPriceView)
    ensures
        price_of_parts(
            price.input_per_1k,
            price.output_per_1k,
            Some(price.cached_per_1k),
            Some(price.cached_price_configured),
        ) == price,
{
}

} // verus!
