//! JSON values, their mathematical model, and the text form that `serde_json` reads and writes.
use vstd::prelude::*;

use crate::duplicate::Duplicate;
use crate::text::same_text;

verus! {

/// The entries of a JSON object. Where a key occurs more than once its last entry counts.
pub type JsonMap = Vec<(String, Json)>;

/// A JSON value.
#[derive(Debug, PartialEq)]
pub enum Json {
    Null,
    Bool(bool),
    Num(JsonNumber),
    Text(String),
    Array(Vec<Json>),
    Object(JsonMap),
}

/// A JSON number: an integer of 64 bits, or a number that is no such integer.
#[derive(Debug, PartialEq)]
pub enum JsonNumber {
    Unsigned(u64),
    Signed(i64),
    Decimal(Decimal),
}

/// A JSON number that is kept as it is and never computed with.
#[derive(Debug, PartialEq)]
pub struct Decimal {
    number: serde_json::Number,
}

/// What a JSON number stands for.
pub enum JsonNumberView {
    Integer(int),
    Decimal(serde_json::Number),
}

/// What a JSON value stands for.
pub enum JsonView {
    Null,
    Bool(bool),
    Num(JsonNumberView),
    Text(Seq<char>),
    Array(Seq<JsonView>),
    Object(Map<Seq<char>, JsonView>),
}

/// The object that a list of entries stands for: later entries replace earlier ones.
pub open spec fn map_of(entries: Seq<(Seq<char>, JsonView)>) -> Map<Seq<char>, JsonView>
    decreases entries.len(),
{
    if entries.len() == 0 {
        Map::empty()
    } else {
        map_of(entries.drop_last()).insert(entries.last().0, entries.last().1)
    }
}

/// The object that an optional list of entries stands for.
pub open spec fn optional_map(entries: Option<JsonMap>) -> Option<Map<Seq<char>, JsonView>> {
    match entries {
        Some(entries) => Some(map_of(entries.deep_view())),
        None => None,
    }
}

impl Decimal {
    /// The number is not one that fits in a 64-bit integer.
    #[verifier::type_invariant]
    pub closed spec fn inv(&self) -> bool {
        number_is_f64(self.number)
    }

    pub closed spec fn view(&self) -> serde_json::Number {
        self.number
    }

    /// Keeps `number`, unless it is an integer of 64 bits.
    pub fn new(number: serde_json::Number) -> (result: Option<Decimal>)
        ensures
            result is Some <==> number_is_f64(number),
            result matches Some(decimal) ==> decimal@ == number,
    {
        if is_f64(&number) {
            Some(Decimal { number })
        } else {
            None
        }
    }
}

impl DeepView for JsonNumber {
    type V = JsonNumberView;

    open spec fn deep_view(&self) -> JsonNumberView {
        match self {
            JsonNumber::Unsigned(n) => JsonNumberView::Integer(*n as int),
            JsonNumber::Signed(n) => JsonNumberView::Integer(*n as int),
            JsonNumber::Decimal(d) => JsonNumberView::Decimal(d@),
        }
    }
}

impl Duplicate for JsonNumber {
    fn duplicate(&self) -> (copy: Self) {
        match self {
            JsonNumber::Unsigned(n) => JsonNumber::Unsigned(*n),
            JsonNumber::Signed(n) => JsonNumber::Signed(*n),
            JsonNumber::Decimal(d) => {
                proof {
                    use_type_invariant(d);
                }
                JsonNumber::Decimal(Decimal { number: d.number.clone() })
            },
        }
    }
}

impl Json {
    pub open spec fn model(&self) -> JsonView
        decreases self, 1nat,
    {
        match self {
            Json::Null => JsonView::Null,
            Json::Bool(b) => JsonView::Bool(*b),
            Json::Num(n) => JsonView::Num(n.deep_view()),
            Json::Text(s) => JsonView::Text(s@),
            Json::Array(items) => JsonView::Array(
                Seq::new(
                    items@.len(),
                    |i: int|
                        if 0 <= i < items@.len() {
                            items@[i].model()
                        } else {
                            JsonView::Null
                        },
                ),
            ),
            Json::Object(entries) => JsonView::Object(map_of(self.entry_models())),
        }
    }

    /// The keys of an object in the order of its entries, each with the model of its value.
    pub open spec fn entry_models(&self) -> Seq<(Seq<char>, JsonView)>
        decreases self, 0nat,
    {
        match self {
            Json::Object(entries) => Seq::new(
                entries@.len(),
                |i: int|
                    if 0 <= i < entries@.len() {
                        (entries@[i].0@, entries@[i].1.model())
                    } else {
                        (Seq::empty(), JsonView::Null)
                    },
            ),
            _ => Seq::empty(),
        }
    }
}

impl DeepView for Json {
    type V = JsonView;

    open spec fn deep_view(&self) -> JsonView {
        self.model()
    }
}

/// The model of an array is the sequence of the models of its items.
pub broadcast proof fn lemma_array_model(items: Vec<Json>)
    ensures
        #[trigger] Json::Array(items).deep_view() == JsonView::Array(items.deep_view()),
{
    assert(Json::Array(items).deep_view()->Array_0 =~= items.deep_view());
}

/// The model of an object is the map that its entries stand for.
pub broadcast proof fn lemma_object_model(entries: JsonMap)
    ensures
        #[trigger] Json::Object(entries).deep_view() == JsonView::Object(
            map_of(entries.deep_view()),
        ),
{
    assert(Json::Object(entries).entry_models() =~= entries.deep_view());
}

impl Duplicate for Json {
    fn duplicate(&self) -> (copy: Self)
        decreases self,
    {
        broadcast use lemma_array_model, lemma_object_model;

        match self {
            Json::Null => Json::Null,
            Json::Bool(b) => Json::Bool(*b),
            Json::Num(n) => Json::Num(n.duplicate()),
            Json::Text(s) => Json::Text(s.clone()),
            Json::Array(items) => {
                let mut copies: Vec<Json> = Vec::new();
                for index in 0..items.len()
                    invariant
                        self matches Json::Array(inner) && inner == items,
                        copies@.len() == index,
                        forall|k: int|
                            0 <= k < index ==> #[trigger] copies@[k].deep_view() == items@[k].deep_view(),
                {
                    copies.push(items[index].duplicate());
                }
                assert(copies.deep_view() =~= items.deep_view());
                Json::Array(copies)
            },
            Json::Object(entries) => {
                let mut copies: JsonMap = Vec::new();
                for index in 0..entries.len()
                    invariant
                        self matches Json::Object(inner) && inner == entries,
                        copies@.len() == index,
                        forall|k: int|
                            0 <= k < index ==> #[trigger] copies@[k].deep_view() == entries@[k].deep_view(),
                {
                    copies.push((entries[index].0.clone(), entries[index].1.duplicate()));
                }
                assert(copies.deep_view() =~= entries.deep_view());
                Json::Object(copies)
            },
        }
    }
}

// ---------------------------------------------------------------------------------------------
// The boundary to `serde_json`
// ---------------------------------------------------------------------------------------------

/// `serde_json::Number`.
#[verifier::external_type_specification]
#[verifier::external_body]
pub struct ExJsonNumber(serde_json::Number);

/// `serde_json::Value`.
#[verifier::external_type_specification]
#[verifier::external_body]
pub struct ExJsonValue(serde_json::Value);

/// Whether `serde_json::Number::is_f64` holds of `number`: it is no integer of 64 bits.
pub uninterp spec fn number_is_f64(number: serde_json::Number) -> bool;

/// The JSON value that a `serde_json::Value` holds.
pub uninterp spec fn value_contents(value: serde_json::Value) -> JsonView;

/// What `serde_json::from_str` reads from `text`: a value, or the message of its error.
pub uninterp spec fn json_parsed(text: Seq<char>) -> Result<JsonView, Seq<char>>;

/// What `serde_json::from_str` reads from `text` where only an object will do: its entries, or the
/// message of the error.
pub uninterp spec fn object_parsed(text: Seq<char>) -> Result<Map<Seq<char>, JsonView>, Seq<char>>;

/// The compact text that `serde_json::to_string` writes for a value.
pub uninterp spec fn json_rendered(value: JsonView) -> Seq<char>;

/// `Clone` of `serde_json::Number` copies the number.
pub assume_specification[ <serde_json::Number as Clone>::clone ](number: &serde_json::Number) -> (copy: serde_json::Number)
    ensures
        copy == *number,
;

/// `serde_json::Number::is_f64`: the number is neither a `u64` nor an `i64`.
#[verifier::external_body]
fn is_f64(number: &serde_json::Number) -> (result: bool)
    ensures
        result == number_is_f64(*number),
{
    number.is_f64()
}

/// One level of a `serde_json::Value`.
enum Node {
    Null,
    Bool(bool),
    Unsigned(u64),
    Signed(i64),
    Decimal(serde_json::Number),
    Text(String),
    Array(Vec<serde_json::Value>),
    Object(Vec<(String, serde_json::Value)>),
}

impl Node {
    spec fn model(self) -> JsonView {
        match self {
            Node::Null => JsonView::Null,
            Node::Bool(b) => JsonView::Bool(b),
            Node::Unsigned(n) => JsonView::Num(JsonNumberView::Integer(n as int)),
            Node::Signed(n) => JsonView::Num(JsonNumberView::Integer(n as int)),
            Node::Decimal(n) => JsonView::Num(JsonNumberView::Decimal(n)),
            Node::Text(s) => JsonView::Text(s@),
            Node::Array(items) => JsonView::Array(
                Seq::new(items@.len(), |i: int| value_contents(items@[i])),
            ),
            Node::Object(entries) => JsonView::Object(
                map_of(
                    Seq::new(entries@.len(), |i: int| (entries@[i].0@, value_contents(entries@[i].1))),
                ),
            ),
        }
    }
}

/// Tells the variants of `serde_json::Value` apart and hands out what they hold. A number comes
/// out as a `u64` if it is one, else as an `i64` if it is one, else as it is; an object comes out
/// as its entries, each key once.
#[verifier::external_body]
fn open_value(value: serde_json::Value) -> (node: Node)
    ensures
        node.model() == value_contents(value),
        node matches Node::Decimal(n) ==> number_is_f64(n),
        node matches Node::Object(entries) ==> forall|i: int, j: int|
            0 <= i < j < entries@.len() ==> (#[trigger] entries@[i]).0@ != (#[trigger] entries@[j]).0@,
{
    match value {
        serde_json::Value::Null => Node::Null,
        serde_json::Value::Bool(b) => Node::Bool(b),
        serde_json::Value::Number(n) => match (n.as_u64(), n.as_i64()) {
            (Some(unsigned), _) => Node::Unsigned(unsigned),
            (None, Some(signed)) => Node::Signed(signed),
            (None, None) => Node::Decimal(n),
        },
        serde_json::Value::String(s) => Node::Text(s),
        serde_json::Value::Array(items) => Node::Array(items),
        serde_json::Value::Object(entries) => Node::Object(entries.into_iter().collect()),
    }
}

/// Builds the `serde_json::Value` that holds what `node` holds. Where a key occurs more than once
/// the object keeps its last entry.
#[verifier::external_body]
fn close_value(node: Node) -> (value: serde_json::Value)
    requires
        node matches Node::Decimal(n) ==> number_is_f64(n),
    ensures
        value_contents(value) == node.model(),
{
    match node {
        Node::Null => serde_json::Value::Null,
        Node::Bool(b) => serde_json::Value::Bool(b),
        Node::Unsigned(n) => serde_json::Value::Number(serde_json::Number::from(n)),
        Node::Signed(n) => serde_json::Value::Number(serde_json::Number::from(n)),
        Node::Decimal(n) => serde_json::Value::Number(n),
        Node::Text(s) => serde_json::Value::String(s),
        Node::Array(items) => serde_json::Value::Array(items),
        Node::Object(entries) => serde_json::Value::Object(entries.into_iter().collect()),
    }
}

/// `serde_json::from_str` into a `serde_json::Value`: the value, or the text of the error.
#[verifier::external_body]
fn parse_value(text: &str) -> (result: Result<serde_json::Value, String>)
    ensures
        match result {
            Ok(value) => json_parsed(text@) == Ok::<JsonView, Seq<char>>(value_contents(value)),
            Err(message) => json_parsed(text@) == Err::<JsonView, Seq<char>>(message@),
        },
{
    serde_json::from_str(text).map_err(|err: serde_json::Error| err.to_string())
}

/// `serde_json::from_str` into a `serde_json::Map`: the object, or the text of the error.
#[verifier::external_body]
fn parse_map(text: &str) -> (result: Result<serde_json::Value, String>)
    ensures
        match result {
            Ok(value) => object_parsed(text@) matches Ok(entries) && value_contents(value)
                == JsonView::Object(entries),
            Err(message) => object_parsed(text@) == Err::<Map<Seq<char>, JsonView>, Seq<char>>(
                message@,
            ),
        },
{
    serde_json::from_str::<serde_json::Map<String, serde_json::Value>>(text)
        .map(serde_json::Value::Object)
        .map_err(|err: serde_json::Error| err.to_string())
}

/// `serde_json::Value::to_string`, the compact text of the value. What it writes depends on what
/// the value holds alone: the entries of an object are written in the order of their keys.
#[verifier::external_body]
fn value_text(value: &serde_json::Value) -> (text: String)
    ensures
        text@ == json_rendered(value_contents(*value)),
{
    value.to_string()
}

/// Reads a whole value out of its `serde_json` form.
fn json_of_value(value: serde_json::Value) -> (result: Json)
    ensures
        result.deep_view() == value_contents(value),
    decreases value_contents(value),
{
    broadcast use lemma_array_model, lemma_object_model;

    let ghost contents = value_contents(value);
    match open_value(value) {
        Node::Null => Json::Null,
        Node::Bool(b) => Json::Bool(b),
        Node::Unsigned(n) => Json::Num(JsonNumber::Unsigned(n)),
        Node::Signed(n) => Json::Num(JsonNumber::Signed(n)),
        Node::Decimal(number) => Json::Num(JsonNumber::Decimal(Decimal { number })),
        Node::Text(s) => Json::Text(s),
        Node::Array(values) => {
            let ghost inner = values@;
            let mut items: Vec<Json> = Vec::new();
            for item in iter: values
                invariant
                    iter.seq() == inner,
                    contents == value_contents(value),
                    contents is Array,
                    contents->Array_0.len() == inner.len(),
                    forall|k: int|
                        0 <= k < inner.len() ==> contents->Array_0[k] == #[trigger] value_contents(inner[k]),
                    items@.len() == iter.index(),
                    forall|k: int|
                        0 <= k < items@.len() ==> #[trigger] items@[k].deep_view() == value_contents(inner[k]),
            {
                let ghost at = iter.index();
                assert(contents->Array_0[at] == value_contents(item));
                assert(decreases_to!(contents->Array_0 => contents->Array_0[at]));
                items.push(json_of_value(item));
            }
            assert(items.deep_view() =~= contents->Array_0);
            Json::Array(items)
        },
        Node::Object(values) => {
            let ghost inner = values@;
            let ghost listed = Seq::new(inner.len(), |i: int| (inner[i].0@, value_contents(inner[i].1)));
            let mut entries: JsonMap = Vec::new();
            for entry in iter: values
                invariant
                    iter.seq() == inner,
                    listed == Seq::new(inner.len(), |i: int| (inner[i].0@, value_contents(inner[i].1))),
                    contents == value_contents(value),
                    contents == JsonView::Object(map_of(listed)),
                    forall|i: int, j: int|
                        0 <= i < j < inner.len() ==> (#[trigger] inner[i]).0@ != (#[trigger] inner[j]).0@,
                    entries@.len() == iter.index(),
                    forall|k: int|
                        0 <= k < entries@.len() ==> #[trigger] entries@[k].deep_view() == listed[k],
            {
                let ghost at = iter.index();
                proof {
                    assert(listed[at] == (entry.0@, value_contents(entry.1)));
                    assert forall|j: int| at < j < listed.len() implies listed[j].0 != listed[at].0 by {
                        assert(inner[at].0@ != inner[j].0@);
                    }
                    lemma_map_of_entry(listed, at);
                    lemma_map_of_finite(listed);
                }
                let (key, inner_value) = entry;
                assert(contents->Object_0.dom().contains(key@));
                assert(contents->Object_0[key@] == value_contents(inner_value));
                assert(decreases_to!(contents->Object_0 => contents->Object_0[key@]));
                entries.push((key, json_of_value(inner_value)));
            }
            assert(entries.deep_view() =~= listed);
            Json::Object(entries)
        },
    }
}

proof fn lemma_map_of_entry(entries: Seq<(Seq<char>, JsonView)>, at: int)
    requires
        0 <= at < entries.len(),
        forall|j: int| at < j < entries.len() ==> (#[trigger] entries[j]).0 != entries[at].0,
    ensures
        map_of(entries).dom().contains(entries[at].0),
        map_of(entries)[entries[at].0] == entries[at].1,
    decreases entries.len(),
{
    if at < entries.len() - 1 {
        assert(entries.drop_last()[at] == entries[at]);
        lemma_map_of_entry(entries.drop_last(), at);
        assert(entries.last() == entries[entries.len() - 1]);
    }
}

/// An object has finitely many keys.
pub proof fn lemma_map_of_finite(entries: Seq<(Seq<char>, JsonView)>)
    ensures
        map_of(entries).dom().finite(),
    decreases entries.len(),
{
    if entries.len() > 0 {
        lemma_map_of_finite(entries.drop_last());
    }
}

/// Writes a whole value into its `serde_json` form.
fn value_of_json(json: &Json) -> (result: serde_json::Value)
    ensures
        value_contents(result) == json.deep_view(),
    decreases json,
{
    broadcast use lemma_array_model, lemma_object_model;

    let node = match json {
        Json::Null => Node::Null,
        Json::Bool(b) => Node::Bool(*b),
        Json::Num(JsonNumber::Unsigned(n)) => Node::Unsigned(*n),
        Json::Num(JsonNumber::Signed(n)) => Node::Signed(*n),
        Json::Num(JsonNumber::Decimal(d)) => {
            proof {
                use_type_invariant(d);
            }
            Node::Decimal(d.number.clone())
        },
        Json::Text(s) => Node::Text(s.clone()),
        Json::Array(items) => {
            let mut values: Vec<serde_json::Value> = Vec::new();
            for index in 0..items.len()
                invariant
                    json matches Json::Array(inner) && inner == items,
                    values@.len() == index,
                    forall|k: int|
                        0 <= k < index ==> value_contents(#[trigger] values@[k]) == items@[k].deep_view(),
            {
                values.push(value_of_json(&items[index]));
            }
            let node = Node::Array(values);
            assert(node.model()->Array_0 =~= items.deep_view());
            node
        },
        Json::Object(entries) => {
            let mut values: Vec<(String, serde_json::Value)> = Vec::new();
            for index in 0..entries.len()
                invariant
                    json matches Json::Object(inner) && inner == entries,
                    values@.len() == index,
                    forall|k: int|
                        0 <= k < index ==> (#[trigger] values@[k]).0@ == entries@[k].0@ && value_contents(
                            values@[k].1,
                        ) == entries@[k].1.deep_view(),
            {
                values.push((entries[index].0.clone(), value_of_json(&entries[index].1)));
            }
            assert(Seq::new(values@.len(), |i: int| (values@[i].0@, value_contents(values@[i].1)))
                =~= entries.deep_view());
            Node::Object(values)
        },
    };
    close_value(node)
}

/// Reads a JSON text.
pub fn parse_json(text: &str) -> (result: Result<Json, String>)
    ensures
        match result {
            Ok(value) => json_parsed(text@) == Ok::<JsonView, Seq<char>>(value.deep_view()),
            Err(message) => json_parsed(text@) == Err::<JsonView, Seq<char>>(message@),
        },
{
    match parse_value(text) {
        Ok(value) => Ok(json_of_value(value)),
        Err(message) => Err(message),
    }
}

/// Reads the text of a JSON object.
pub fn parse_object(text: &str) -> (result: Result<JsonMap, String>)
    ensures
        match result {
            Ok(entries) => object_parsed(text@) == Ok::<Map<Seq<char>, JsonView>, Seq<char>>(
                map_of(entries.deep_view()),
            ),
            Err(message) => object_parsed(text@) == Err::<Map<Seq<char>, JsonView>, Seq<char>>(
                message@,
            ),
        },
{
    broadcast use lemma_object_model;

    match parse_map(text) {
        Ok(value) => match json_of_value(value) {
            Json::Object(entries) => Ok(entries),
            _ => {
                assert(false);
                Ok(Vec::new())
            },
        },
        Err(message) => Err(message),
    }
}

/// Writes a value as compact JSON text.
pub fn render_json(value: &Json) -> (text: String)
    ensures
        text@ == json_rendered(value.deep_view()),
{
    value_text(&value_of_json(value))
}

// ---------------------------------------------------------------------------------------------
// Reading and building values
// ---------------------------------------------------------------------------------------------

impl JsonView {
    /// The value under `key`, where this is an object that has one.
    pub open spec fn get(self, key: Seq<char>) -> Option<JsonView> {
        match self {
            JsonView::Object(map) => if map.dom().contains(key) {
                Some(map[key])
            } else {
                None
            },
            _ => None,
        }
    }

    pub open spec fn as_str(self) -> Option<Seq<char>> {
        match self {
            JsonView::Text(s) => Some(s),
            _ => None,
        }
    }

    pub open spec fn as_array(self) -> Option<Seq<JsonView>> {
        match self {
            JsonView::Array(items) => Some(items),
            _ => None,
        }
    }

    pub open spec fn as_i64(self) -> Option<int> {
        match self {
            JsonView::Num(JsonNumberView::Integer(n)) => if i64::MIN <= n <= i64::MAX {
                Some(n)
            } else {
                None
            },
            _ => None,
        }
    }

    pub open spec fn as_u64(self) -> Option<int> {
        match self {
            JsonView::Num(JsonNumberView::Integer(n)) => if 0 <= n <= u64::MAX {
                Some(n)
            } else {
                None
            },
            _ => None,
        }
    }

    /// The text under `key`, where this is an object that has one.
    pub open spec fn get_str(self, key: Seq<char>) -> Option<Seq<char>> {
        match self.get(key) {
            Some(value) => value.as_str(),
            None => None,
        }
    }
}

/// The value of the last entry under `key`.
pub fn find_entry<'a>(entries: &'a JsonMap, key: &str) -> (result: Option<&'a Json>)
    ensures
        result.deep_view() == JsonView::Object(map_of(entries.deep_view())).get(key@),
{
    let mut index: usize = entries.len();
    assert(entries.deep_view().take(index as int) =~= entries.deep_view());
    while index > 0
        invariant
            index <= entries@.len(),
            forall|k: int| index <= k < entries@.len() ==> (#[trigger] entries@[k]).0@ != key@,
            JsonView::Object(map_of(entries.deep_view())).get(key@) == JsonView::Object(
                map_of(entries.deep_view().take(index as int)),
            ).get(key@),
        decreases index,
    {
        index = index - 1;
        let ghost longer = entries.deep_view().take(index + 1);
        assert(longer.drop_last() =~= entries.deep_view().take(index as int));
        assert(longer.last() == entries@[index as int].deep_view());
        if same_text(entries[index].0.as_str(), key) {
            return Some(&entries[index].1);
        }
    }
    None
}

/// Puts `value` under `key`, in place of what was there.
pub fn set_entry(entries: &mut JsonMap, key: String, value: Json)
    ensures
        map_of(final(entries).deep_view()) == map_of(old(entries).deep_view()).insert(
            key@,
            value.deep_view(),
        ),
{
    let ghost before = entries.deep_view();
    let mut index: usize = entries.len();
    while index > 0
        invariant
            index <= entries@.len(),
            *entries == *old(entries),
            before == entries.deep_view(),
            forall|k: int| index <= k < entries@.len() ==> (#[trigger] entries@[k]).0@ != key@,
        decreases index,
    {
        index = index - 1;
        if same_text(entries[index].0.as_str(), key.as_str()) {
            proof {
                assert forall|j: int| index < j < before.len() implies (#[trigger] before[j]).0 != key@ by {
                    assert(entries@[j].0@ != key@);
                }
                lemma_map_of_replace(before, index as int, value.deep_view());
            }
            entries[index] = (key, value);
            assert(entries.deep_view() =~= before.update(index as int, (key@, value.deep_view())));
            return;
        }
    }
    entries.push((key, value));
    assert(entries.deep_view().drop_last() =~= before);
}

proof fn lemma_map_of_replace(entries: Seq<(Seq<char>, JsonView)>, at: int, value: JsonView)
    requires
        0 <= at < entries.len(),
        forall|j: int| at < j < entries.len() ==> (#[trigger] entries[j]).0 != entries[at].0,
    ensures
        map_of(entries.update(at, (entries[at].0, value))) == map_of(entries).insert(
            entries[at].0,
            value,
        ),
    decreases entries.len(),
{
    let key = entries[at].0;
    let replaced = entries.update(at, (key, value));
    let shorter = entries.drop_last();
    if at == entries.len() - 1 {
        assert(replaced.drop_last() =~= shorter);
        assert(map_of(replaced) =~= map_of(entries).insert(key, value));
    } else {
        assert(shorter[at] == entries[at]);
        lemma_map_of_replace(shorter, at, value);
        assert(replaced.drop_last() =~= shorter.update(at, (key, value)));
        assert(replaced.last() == entries[entries.len() - 1]);
        assert(map_of(replaced) =~= map_of(entries).insert(key, value));
    }
}

impl Json {
    pub fn is_null(&self) -> (result: bool)
        ensures
            result == (self.deep_view() == JsonView::Null),
    {
        matches!(self, Json::Null)
    }

    pub fn as_str(&self) -> (result: Option<&str>)
        ensures
            result.deep_view() == self.deep_view().as_str(),
    {
        match self {
            Json::Text(s) => Some(s.as_str()),
            _ => None,
        }
    }

    pub fn as_bool(&self) -> (result: Option<bool>)
        ensures
            result == (match self.deep_view() {
                JsonView::Bool(b) => Some(b),
                _ => None,
            }),
    {
        match self {
            Json::Bool(b) => Some(*b),
            _ => None,
        }
    }

    pub fn as_array(&self) -> (result: Option<&Vec<Json>>)
        ensures
            result.deep_view() == self.deep_view().as_array(),
    {
        broadcast use lemma_array_model;

        match self {
            Json::Array(items) => Some(items),
            _ => None,
        }
    }

    pub fn as_i64(&self) -> (result: Option<i64>)
        ensures
            result is Some <==> self.deep_view().as_i64() is Some,
            result matches Some(n) ==> self.deep_view().as_i64() == Some(n as int),
    {
        match self {
            Json::Num(JsonNumber::Signed(n)) => Some(*n),
            Json::Num(JsonNumber::Unsigned(n)) => if *n <= i64::MAX as u64 {
                Some(*n as i64)
            } else {
                None
            },
            _ => None,
        }
    }

    pub fn as_u64(&self) -> (result: Option<u64>)
        ensures
            result is Some <==> self.deep_view().as_u64() is Some,
            result matches Some(n) ==> self.deep_view().as_u64() == Some(n as int),
    {
        match self {
            Json::Num(JsonNumber::Unsigned(n)) => Some(*n),
            Json::Num(JsonNumber::Signed(n)) => if *n >= 0 {
                Some(*n as u64)
            } else {
                None
            },
            _ => None,
        }
    }

    /// The value under `key`, where this is an object that has one.
    pub fn get(&self, key: &str) -> (result: Option<&Json>)
        ensures
            result.deep_view() == self.deep_view().get(key@),
    {
        broadcast use lemma_object_model;

        match self {
            Json::Object(entries) => find_entry(entries, key),
            _ => None,
        }
    }

    /// The text under `key`, where this is an object that has one.
    pub fn get_str(&self, key: &str) -> (result: Option<&str>)
        ensures
            result.deep_view() == self.deep_view().get_str(key@),
    {
        match self.get(key) {
            Some(value) => value.as_str(),
            None => None,
        }
    }
}

/// A JSON text value.
pub fn json_text(text: &str) -> (result: Json)
    ensures
        result.deep_view() == JsonView::Text(text@),
{
    Json::Text(text.to_string())
}

/// A JSON text value, or null where there is no text.
pub open spec fn optional_text(text: Option<Seq<char>>) -> JsonView {
    match text {
        Some(text) => JsonView::Text(text),
        None => JsonView::Null,
    }
}

/// A JSON text value, or null where there is no text.
pub fn json_optional_text(text: &Option<String>) -> (result: Json)
    ensures
        result.deep_view() == optional_text(text.deep_view()),
{
    match text {
        Some(text) => Json::Text(text.clone()),
        None => Json::Null,
    }
}

/// The object without entries.
pub fn json_empty_object() -> (result: Json)
    ensures
        result.deep_view() == JsonView::Object(Map::empty()),
{
    broadcast use lemma_object_model;

    let entries: JsonMap = Vec::new();
    Json::Object(entries)
}

/// The object with one entry.
pub fn json_object1(key: &str, value: Json) -> (result: Json)
    ensures
        result.deep_view() == JsonView::Object(map![key@ => value.deep_view()]),
{
    broadcast use lemma_object_model;

    let mut entries: JsonMap = Vec::new();
    set_entry(&mut entries, key.to_string(), value);
    Json::Object(entries)
}

/// The object with two entries.
pub fn json_object2(key1: &str, value1: Json, key2: &str, value2: Json) -> (result: Json)
    ensures
        result.deep_view() == JsonView::Object(
            map![key1@ => value1.deep_view(), key2@ => value2.deep_view()],
        ),
{
    broadcast use lemma_object_model;

    let mut entries: JsonMap = Vec::new();
    set_entry(&mut entries, key1.to_string(), value1);
    set_entry(&mut entries, key2.to_string(), value2);
    Json::Object(entries)
}

/// The object with three entries.
pub fn json_object3(
    key1: &str,
    value1: Json,
    key2: &str,
    value2: Json,
    key3: &str,
    value3: Json,
) -> (result: Json)
    ensures
        result.deep_view() == JsonView::Object(
            map![
                key1@ => value1.deep_view(),
                key2@ => value2.deep_view(),
                key3@ => value3.deep_view(),
            ],
        ),
{
    broadcast use lemma_object_model;

    let mut entries: JsonMap = Vec::new();
    set_entry(&mut entries, key1.to_string(), value1);
    set_entry(&mut entries, key2.to_string(), value2);
    set_entry(&mut entries, key3.to_string(), value3);
    Json::Object(entries)
}

} // verus!
