//! Shell calls as models write them: a JSON object with named fields, or an array with the fields in
//! their order.
use vstd::prelude::*;

use crate::collections::TextMap;
use crate::error::outcome;
use crate::json::{
    find_entry, json_rendered, lemma_array_model, lemma_object_model, map_of, render_json, Json,
    JsonMap, JsonNumber, JsonNumberView, JsonView,
};
use crate::text::{
    decimal, decimal_text, lemma_text_less_irreflexive, lemma_text_less_total,
    lemma_text_less_transitive, quoted, quoted_text, text_less, text_precedes,
};

use super::responses::{LocalShellExecAction, LocalShellExecActionView};

verus! {

// ---------------------------------------------------------------------------------------------
// Messages
// ---------------------------------------------------------------------------------------------

/// What a value is, in the words of a message.
pub open spec fn value_kind(value: JsonView) -> Seq<char> {
    match value {
        JsonView::Null => "null"@,
        JsonView::Bool(b) => if b {
            "boolean `true`"@
        } else {
            "boolean `false`"@
        },
        JsonView::Num(JsonNumberView::Integer(n)) => "integer `"@ + json_rendered(value) + "`"@,
        JsonView::Num(JsonNumberView::Decimal(n)) => "floating point `"@ + json_rendered(value)
            + "`"@,
        JsonView::Text(text) => "string "@ + quoted(text),
        JsonView::Array(items) => "sequence"@,
        JsonView::Object(map) => "map"@,
    }
}

/// The message that a value is of the wrong type.
pub open spec fn invalid_type(value: JsonView, expected: Seq<char>) -> Seq<char> {
    "invalid type: "@ + value_kind(value) + ", expected "@ + expected
}

/// The message that a value is of the right type but out of range.
pub open spec fn invalid_value(value: JsonView, expected: Seq<char>) -> Seq<char> {
    "invalid value: "@ + value_kind(value) + ", expected "@ + expected
}

/// The message that an array has the wrong length.
pub open spec fn invalid_length(length: nat, expected: Seq<char>) -> Seq<char> {
    "invalid length "@ + decimal(length) + ", expected "@ + expected
}

fn value_kind_text(value: &Json) -> (result: String)
    ensures
        result@ == value_kind(value.deep_view()),
{
    broadcast use lemma_array_model, lemma_object_model;

    match value {
        Json::Null => "null".to_string(),
        Json::Bool(b) => if *b {
            "boolean `true`".to_string()
        } else {
            "boolean `false`".to_string()
        },
        Json::Num(number) => {
            let mut result = match number {
                JsonNumber::Decimal(_) => "floating point `".to_string(),
                _ => "integer `".to_string(),
            };
            result.push_str(render_json(value).as_str());
            result.push_str("`");
            result
        },
        Json::Text(text) => {
            let mut result = "string ".to_string();
            result.push_str(quoted_text(text.as_str()).as_str());
            result
        },
        Json::Array(_) => "sequence".to_string(),
        Json::Object(_) => "map".to_string(),
    }
}

fn invalid_type_text(value: &Json, expected: &str) -> (result: String)
    ensures
        result@ == invalid_type(value.deep_view(), expected@),
{
    let mut result = "invalid type: ".to_string();
    result.push_str(value_kind_text(value).as_str());
    result.push_str(", expected ");
    result.push_str(expected);
    result
}

fn invalid_value_text(value: &Json, expected: &str) -> (result: String)
    ensures
        result@ == invalid_value(value.deep_view(), expected@),
{
    let mut result = "invalid value: ".to_string();
    result.push_str(value_kind_text(value).as_str());
    result.push_str(", expected ");
    result.push_str(expected);
    result
}

fn invalid_length_text(length: usize, expected: &str) -> (result: String)
    ensures
        result@ == invalid_length(length as nat, expected@),
{
    let mut result = "invalid length ".to_string();
    result.push_str(decimal_text(length).as_str());
    result.push_str(", expected ");
    result.push_str(expected);
    result
}

// ---------------------------------------------------------------------------------------------
// Fields
// ---------------------------------------------------------------------------------------------

/// The texts of the first `count` items, or what is wrong with the first that is none.
pub open spec fn texts_of(items: Seq<JsonView>, count: int) -> Result<Seq<Seq<char>>, Seq<char>>
    decreases count,
{
    if count <= 0 {
        Ok(Seq::empty())
    } else {
        match texts_of(items, count - 1) {
            Err(message) => Err(message),
            Ok(before) => match items[count - 1] {
                JsonView::Text(text) => Ok(before.push(text)),
                other => Err(invalid_type(other, "a string"@)),
            },
        }
    }
}

/// The command line that a value stands for.
pub open spec fn command_of(value: JsonView) -> Result<Seq<Seq<char>>, Seq<char>> {
    match value {
        JsonView::Array(items) => texts_of(items, items.len() as int),
        _ => Err(invalid_type(value, "a sequence"@)),
    }
}

/// The text that a value stands for, or none if it is null.
pub open spec fn optional_text_of(value: JsonView) -> Result<Option<Seq<char>>, Seq<char>> {
    match value {
        JsonView::Null => Ok(None),
        JsonView::Text(text) => Ok(Some(text)),
        _ => Err(invalid_type(value, "a string"@)),
    }
}

/// The time limit that a value stands for, or none if it is null.
pub open spec fn timeout_of(value: JsonView) -> Result<Option<u64>, Seq<char>> {
    match value {
        JsonView::Null => Ok(None),
        JsonView::Num(JsonNumberView::Integer(n)) => if 0 <= n <= u64::MAX {
            Ok(Some(n as u64))
        } else {
            Err(invalid_value(value, "u64"@))
        },
        _ => Err(invalid_type(value, "u64"@)),
    }
}

/// Whether the first value that is no text, in the order of the keys, stands under `key`.
pub open spec fn is_first_wrong(env: Map<Seq<char>, JsonView>, key: Seq<char>) -> bool {
    &&& env.dom().contains(key)
    &&& !(env[key] is Text)
    &&& forall|other: Seq<char>| #[trigger]
        env.dom().contains(other) && !(env[other] is Text) ==> other == key || text_less(key, other)
}

/// The environment that a value stands for, or none if it is null.
pub open spec fn env_of(value: JsonView) -> Result<Option<Map<Seq<char>, Seq<char>>>, Seq<char>> {
    match value {
        JsonView::Null => Ok(None),
        JsonView::Object(env) => if forall|key: Seq<char>| #[trigger]
            env.dom().contains(key) ==> env[key] is Text {
            Ok(Some(env.map_values(|value: JsonView| value->Text_0)))
        } else {
            let key = choose|key: Seq<char>| is_first_wrong(env, key);
            Err(invalid_type(env[key], "a string"@))
        },
        _ => Err(invalid_type(value, "a map"@)),
    }
}

fn read_command(value: &Json) -> (result: Result<Vec<String>, String>)
    ensures
        outcome(result) == command_of(value.deep_view()),
{
    broadcast use lemma_array_model, lemma_object_model;

    match value {
        Json::Array(items) => {
            let ghost models = items.deep_view();
            let mut command: Vec<String> = Vec::new();
            assert(command.deep_view() =~= Seq::<Seq<char>>::empty());
            for index in 0..items.len()
                invariant
                    models == items.deep_view(),
                    value.deep_view() == JsonView::Array(models),
                    texts_of(models, index as int) == Ok::<Seq<Seq<char>>, Seq<char>>(
                        command.deep_view(),
                    ),
            {
                let ghost before = command.deep_view();
                assert(models[index as int] == items@[index as int].deep_view());
                match &items[index] {
                    Json::Text(text) => {
                        command.push(text.clone());
                        assert(command.deep_view() =~= before.push(text@));
                    },
                    other => {
                        proof {
                            lemma_error_stays(models, index + 1, models.len() as int);
                        }
                        return Err(invalid_type_text(other, "a string"));
                    },
                }
            }
            Ok(command)
        },
        _ => Err(invalid_type_text(value, "a sequence")),
    }
}

proof fn lemma_error_stays(items: Seq<JsonView>, from: int, count: int)
    requires
        from <= count,
        texts_of(items, from) is Err,
    ensures
        texts_of(items, count) == texts_of(items, from),
    decreases count - from,
{
    if from < count {
        lemma_error_stays(items, from, count - 1);
    }
}

fn read_optional_text(value: &Json) -> (result: Result<Option<String>, String>)
    ensures
        outcome(result) == optional_text_of(value.deep_view()),
{
    broadcast use lemma_array_model, lemma_object_model;

    match value {
        Json::Null => Ok(None),
        Json::Text(text) => Ok(Some(text.clone())),
        _ => Err(invalid_type_text(value, "a string")),
    }
}

fn read_timeout(value: &Json) -> (result: Result<Option<u64>, String>)
    ensures
        outcome(result) == timeout_of(value.deep_view()),
{
    broadcast use lemma_array_model, lemma_object_model;

    match value {
        Json::Null => Ok(None),
        Json::Num(JsonNumber::Unsigned(n)) => Ok(Some(*n)),
        Json::Num(JsonNumber::Signed(n)) => if *n >= 0 {
            Ok(Some(*n as u64))
        } else {
            Err(invalid_value_text(value, "u64"))
        },
        _ => Err(invalid_type_text(value, "u64")),
    }
}

proof fn lemma_map_of_has(entries: Seq<(Seq<char>, JsonView)>, at: int)
    requires
        0 <= at < entries.len(),
    ensures
        map_of(entries).dom().contains(entries[at].0),
    decreases entries.len(),
{
    if at < entries.len() - 1 {
        assert(entries.drop_last()[at] == entries[at]);
        lemma_map_of_has(entries.drop_last(), at);
    }
}

/// Only one key is the first.
proof fn lemma_first_wrong_is_unique(
    env: Map<Seq<char>, JsonView>,
    one: Seq<char>,
    other: Seq<char>,
)
    requires
        is_first_wrong(env, one),
        is_first_wrong(env, other),
    ensures
        one == other,
{
    if one != other {
        assert(env.dom().contains(one) && env.dom().contains(other));
        lemma_text_less_transitive(one, other, one);
        lemma_text_less_irreflexive(one);
    }
}

/// The texts of an object, or what is wrong with the first value that is none.
fn read_texts(entries: &JsonMap) -> (result: Result<TextMap<String>, String>)
    ensures
        ({
            let whole = map_of(entries.deep_view());
            match outcome(result) {
                Ok(env) => (forall|key: Seq<char>| #[trigger]
                    whole.dom().contains(key) ==> whole[key] is Text) && env == whole.map_values(
                    |value: JsonView| value->Text_0,
                ),
                Err(message) => exists|key: Seq<char>| #[trigger]
                    is_first_wrong(whole, key) && message == invalid_type(whole[key], "a string"@),
            }
        }),
{
    let ghost listed = entries.deep_view();
    let ghost whole = map_of(listed);
    let ghost mut seen: Set<Seq<char>> = Set::empty();
    let mut env: TextMap<String> = TextMap::new();
    let mut wrong: Option<String> = None;
    assert(map_of(listed.take(0)).dom() =~= seen);
    // Only the last entry under a key counts.
    for index in 0..entries.len()
        invariant
            listed == entries.deep_view(),
            whole == map_of(listed),
            seen == map_of(listed.take(index as int)).dom(),
            forall|key: Seq<char>| #[trigger] seen.contains(key) ==> whole.dom().contains(key),
            forall|key: Seq<char>| #[trigger]
                env.deep_view().dom().contains(key) <==> seen.contains(key) && whole[key] is Text,
            forall|key: Seq<char>| #[trigger]
                env.deep_view().dom().contains(key) ==> whole[key] == JsonView::Text(
                    env.deep_view()[key],
                ),
            wrong matches Some(least) ==> whole.dom().contains(least@) && !(whole[least@] is Text),
            forall|key: Seq<char>| #[trigger]
                seen.contains(key) && !(whole[key] is Text) ==> wrong is Some && (key
                    == wrong->0@ || text_less(wrong->0@, key)),
    {
        let key = &entries[index].0;
        let ghost earlier = wrong;
        let ghost before = seen;
        proof {
            assert(listed[index as int] == entries@[index as int].deep_view());
            let longer = listed.take(index + 1);
            assert(longer.drop_last() =~= listed.take(index as int));
            assert(longer.last() == listed[index as int]);
            seen = seen.insert(key@);
            assert(map_of(longer).dom() =~= seen);
            lemma_map_of_has(listed, index as int);
        }
        match find_entry(entries, key.as_str()) {
            Some(Json::Text(text)) => {
                env.insert(key.clone(), text.clone());
            },
            _ => {
                assert(!(whole[key@] is Text));
                let is_less = match &wrong {
                    Some(least) => text_precedes(key.as_str(), least.as_str()),
                    None => true,
                };
                if is_less {
                    wrong = Some(key.clone());
                }
                proof {
                    assert forall|other: Seq<char>| #[trigger]
                        seen.contains(other) && !(whole[other] is Text) implies wrong is Some && (
                    other == wrong->0@ || text_less(wrong->0@, other)) by {
                        if other == key@ {
                            if earlier is Some {
                                lemma_text_less_total(key@, earlier->0@);
                            }
                        } else {
                            assert(before.contains(other));
                            if is_less && other != earlier->0@ {
                                lemma_text_less_transitive(key@, earlier->0@, other);
                            }
                        }
                    }
                }
            },
        }
    }
    assert(listed.take(listed.len() as int) =~= listed);
    match wrong {
        Some(least) => {
            assert(is_first_wrong(whole, least@));
            match find_entry(entries, least.as_str()) {
                Some(value) => Err(invalid_type_text(value, "a string")),
                None => {
                    assert(false);
                    Err(String::new())
                },
            }
        },
        None => {
            proof {
                assert forall|key: Seq<char>| #[trigger] whole.dom().contains(key) implies whole[key] is Text by {
                    assert(seen.contains(key));
                }
                assert(env.deep_view().dom() =~= whole.dom());
                assert(env.deep_view() =~= whole.map_values(|value: JsonView| value->Text_0));
            }
            Ok(env)
        },
    }
}

fn read_env(value: &Json) -> (result: Result<Option<TextMap<String>>, String>)
    ensures
        outcome(result) == env_of(value.deep_view()),
{
    broadcast use lemma_array_model, lemma_object_model;

    match value {
        Json::Null => Ok(None),
        Json::Object(entries) => {
            let ghost whole = map_of(entries.deep_view());
            match read_texts(entries) {
                Ok(env) => Ok(Some(env)),
                Err(message) => {
                    proof {
                        let key = choose|key: Seq<char>| #[trigger]
                            is_first_wrong(whole, key) && message@ == invalid_type(
                                whole[key],
                                "a string"@,
                            );
                        let first = choose|key: Seq<char>| is_first_wrong(whole, key);
                        lemma_first_wrong_is_unique(whole, key, first);
                        assert(whole.dom().contains(key));
                    }
                    Err(message)
                },
            }
        },
        _ => Err(invalid_type_text(value, "a map")),
    }
}

// ---------------------------------------------------------------------------------------------
// Calls
// ---------------------------------------------------------------------------------------------

/// What a shell call is, in the words of a message.
pub open spec fn shell_call_name() -> Seq<char> {
    "struct LocalShellExecAction"@
}

/// What a shell call is as an array, in the words of a message.
pub open spec fn shell_call_array_name() -> Seq<char> {
    "struct LocalShellExecAction with 5 elements"@
}

/// The shell call that an object describes. Its fields are read in the order of their keys, and
/// only `command` must be there; other keys are passed over.
pub open spec fn named_shell_action(value: JsonView) -> Result<
    LocalShellExecActionView,
    Seq<char>,
> {
    let command = match value.get("command"@) {
        Some(field) => match command_of(field) {
            Ok(command) => Ok(Some(command)),
            Err(message) => Err(message),
        },
        None => Ok(None),
    };
    let env = match value.get("env"@) {
        Some(field) => env_of(field),
        None => Ok(None),
    };
    let timeout_ms = match value.get("timeout_ms"@) {
        Some(field) => timeout_of(field),
        None => Ok(None),
    };
    let user = match value.get("user"@) {
        Some(field) => optional_text_of(field),
        None => Ok(None),
    };
    let working_directory = match value.get("working_directory"@) {
        Some(field) => optional_text_of(field),
        None => Ok(None),
    };
    if command is Err {
        Err(command->Err_0)
    } else if env is Err {
        Err(env->Err_0)
    } else if timeout_ms is Err {
        Err(timeout_ms->Err_0)
    } else if user is Err {
        Err(user->Err_0)
    } else if working_directory is Err {
        Err(working_directory->Err_0)
    } else if command->Ok_0 is None {
        Err("missing field `command`"@)
    } else {
        Ok(
            LocalShellExecActionView {
                command: command->Ok_0->0,
                timeout_ms: timeout_ms->Ok_0,
                working_directory: working_directory->Ok_0,
                env: env->Ok_0,
                user: user->Ok_0,
            },
        )
    }
}

/// The shell call that an array describes: the command, the time limit, the working directory, the
/// environment and the user, in this order and none left out.
pub open spec fn listed_shell_action(items: Seq<JsonView>) -> Result<
    LocalShellExecActionView,
    Seq<char>,
> {
    if items.len() == 0 {
        Err(invalid_length(0, shell_call_array_name()))
    } else if command_of(items[0]) is Err {
        Err(command_of(items[0])->Err_0)
    } else if items.len() == 1 {
        Err(invalid_length(1, shell_call_array_name()))
    } else if timeout_of(items[1]) is Err {
        Err(timeout_of(items[1])->Err_0)
    } else if items.len() == 2 {
        Err(invalid_length(2, shell_call_array_name()))
    } else if optional_text_of(items[2]) is Err {
        Err(optional_text_of(items[2])->Err_0)
    } else if items.len() == 3 {
        Err(invalid_length(3, shell_call_array_name()))
    } else if env_of(items[3]) is Err {
        Err(env_of(items[3])->Err_0)
    } else if items.len() == 4 {
        Err(invalid_length(4, shell_call_array_name()))
    } else if optional_text_of(items[4]) is Err {
        Err(optional_text_of(items[4])->Err_0)
    } else if items.len() > 5 {
        Err(invalid_length(items.len(), "fewer elements in array"@))
    } else {
        Ok(
            LocalShellExecActionView {
                command: command_of(items[0])->Ok_0,
                timeout_ms: timeout_of(items[1])->Ok_0,
                working_directory: optional_text_of(items[2])->Ok_0,
                env: env_of(items[3])->Ok_0,
                user: optional_text_of(items[4])->Ok_0,
            },
        )
    }
}

/// The shell call that a JSON value describes, or why it describes none.
pub open spec fn shell_action(value: JsonView) -> Result<LocalShellExecActionView, Seq<char>> {
    match value {
        JsonView::Object(map) => named_shell_action(value),
        JsonView::Array(items) => listed_shell_action(items),
        _ => Err(invalid_type(value, shell_call_name())),
    }
}

fn read_named(value: &Json) -> (result: Result<LocalShellExecAction, String>)
    ensures
        outcome(result) == named_shell_action(value.deep_view()),
{
    let command = match value.get("command") {
        Some(field) => match read_command(field) {
            Ok(command) => Some(command),
            Err(message) => {
                return Err(message);
            },
        },
        None => None,
    };
    let env = match value.get("env") {
        Some(field) => match read_env(field) {
            Ok(env) => env,
            Err(message) => {
                return Err(message);
            },
        },
        None => None,
    };
    let timeout_ms: Option<u64> = match value.get("timeout_ms") {
        Some(field) => match read_timeout(field) {
            Ok(timeout_ms) => timeout_ms,
            Err(message) => {
                return Err(message);
            },
        },
        None => None,
    };
    let user = match value.get("user") {
        Some(field) => match read_optional_text(field) {
            Ok(user) => user,
            Err(message) => {
                return Err(message);
            },
        },
        None => None,
    };
    let working_directory = match value.get("working_directory") {
        Some(field) => match read_optional_text(field) {
            Ok(working_directory) => working_directory,
            Err(message) => {
                return Err(message);
            },
        },
        None => None,
    };
    match command {
        Some(command) => Ok(
            LocalShellExecAction { command, timeout_ms, working_directory, env, user },
        ),
        None => Err("missing field `command`".to_string()),
    }
}

fn missing_element(length: usize) -> (result: String)
    ensures
        result@ == invalid_length(length as nat, shell_call_array_name()),
{
    invalid_length_text(length, "struct LocalShellExecAction with 5 elements")
}

fn read_listed(items: &Vec<Json>) -> (result: Result<LocalShellExecAction, String>)
    ensures
        outcome(result) == listed_shell_action(items.deep_view()),
{
    let ghost models = items.deep_view();
    assert forall|k: int| 0 <= k < items@.len() implies #[trigger] models[k]
        == items@[k].deep_view() by {}
    if items.len() == 0 {
        return Err(missing_element(0));
    }
    let command = match read_command(&items[0]) {
        Ok(command) => command,
        Err(message) => {
            return Err(message);
        },
    };
    if items.len() == 1 {
        return Err(missing_element(1));
    }
    let timeout_ms: Option<u64> = match read_timeout(&items[1]) {
        Ok(timeout_ms) => timeout_ms,
        Err(message) => {
            return Err(message);
        },
    };
    if items.len() == 2 {
        return Err(missing_element(2));
    }
    let working_directory = match read_optional_text(&items[2]) {
        Ok(working_directory) => working_directory,
        Err(message) => {
            return Err(message);
        },
    };
    if items.len() == 3 {
        return Err(missing_element(3));
    }
    let env = match read_env(&items[3]) {
        Ok(env) => env,
        Err(message) => {
            return Err(message);
        },
    };
    if items.len() == 4 {
        return Err(missing_element(4));
    }
    let user = match read_optional_text(&items[4]) {
        Ok(user) => user,
        Err(message) => {
            return Err(message);
        },
    };
    if items.len() > 5 {
        return Err(invalid_length_text(items.len(), "fewer elements in array"));
    }
    Ok(LocalShellExecAction { command, timeout_ms, working_directory, env, user })
}

impl LocalShellExecAction {
    /// Reads a shell call out of a JSON value.
    pub fn from_json(value: &Json) -> (result: Result<LocalShellExecAction, String>)
        ensures
            outcome(result) == shell_action(value.deep_view()),
    {
        broadcast use lemma_array_model, lemma_object_model;

        match value {
            Json::Object(_) => read_named(value),
            Json::Array(items) => read_listed(items),
            _ => Err(invalid_type_text(value, "struct LocalShellExecAction")),
        }
    }
}

// ---------------------------------------------------------------------------------------------
// Laws
// ---------------------------------------------------------------------------------------------

/// A text as JSON, or null where there is none.
pub open spec fn text_or_null(text: Option<Seq<char>>) -> JsonView {
    match text {
        Some(text) => JsonView::Text(text),
        None => JsonView::Null,
    }
}

/// A time limit as JSON, or null where there is none.
pub open spec fn limit_or_null(limit: Option<u64>) -> JsonView {
    match limit {
        Some(limit) => JsonView::Num(JsonNumberView::Integer(limit as int)),
        None => JsonView::Null,
    }
}

/// An environment as JSON, or null where there is none.
pub open spec fn env_or_null(env: Option<Map<Seq<char>, Seq<char>>>) -> JsonView {
    match env {
        Some(env) => JsonView::Object(env.map_values(|text: Seq<char>| JsonView::Text(text))),
        None => JsonView::Null,
    }
}

/// A command line as JSON.
pub open spec fn command_json(command: Seq<Seq<char>>) -> JsonView {
    JsonView::Array(command.map_values(|word: Seq<char>| JsonView::Text(word)))
}

proof fn lemma_texts_read(items: Seq<JsonView>, words: Seq<Seq<char>>, count: int)
    requires
        0 <= count <= items.len(),
        items.len() == words.len(),
        forall|k: int| 0 <= k < items.len() ==> #[trigger] items[k] == JsonView::Text(words[k]),
    ensures
        texts_of(items, count) == Ok::<Seq<Seq<char>>, Seq<char>>(words.take(count)),
    decreases count,
{
    if count > 0 {
        lemma_texts_read(items, words, count - 1);
        assert(items[count - 1] == JsonView::Text(words[count - 1]));
        assert(words.take(count - 1).push(words[count - 1]) =~= words.take(count));
    } else {
        assert(words.take(count) =~= Seq::empty());
    }
}

proof fn lemma_parts_read(call: LocalShellExecActionView)
    ensures
        command_of(command_json(call.command)) == Ok::<Seq<Seq<char>>, Seq<char>>(call.command),
        timeout_of(limit_or_null(call.timeout_ms)) == Ok::<Option<u64>, Seq<char>>(call.timeout_ms),
        optional_text_of(text_or_null(call.working_directory)) == Ok::<
            Option<Seq<char>>,
            Seq<char>,
        >(call.working_directory),
        optional_text_of(text_or_null(call.user)) == Ok::<Option<Seq<char>>, Seq<char>>(call.user),
        env_of(env_or_null(call.env)) == Ok::<Option<Map<Seq<char>, Seq<char>>>, Seq<char>>(
            call.env,
        ),
{
    let items = command_json(call.command)->Array_0;
    lemma_texts_read(items, call.command, items.len() as int);
    assert(call.command.take(items.len() as int) =~= call.command);
    if let Some(env) = call.env {
        let told = env.map_values(|text: Seq<char>| JsonView::Text(text));
        let read = told.map_values(|value: JsonView| value->Text_0);
        assert(forall|key: Seq<char>| #[trigger]
            told.dom().contains(key) ==> told[key] is Text);
        assert(read =~= env);
        assert(env_of(env_or_null(call.env)) is Ok);
        assert(env_of(env_or_null(call.env))->Ok_0->0 =~= env);
    }
}

/// A shell call is read back as it was written down, be it as an object with its fields by name or
/// as an array with its fields in their order.
pub proof fn law_shell_calls_are_read_as_written(call: LocalShellExecActionView)
    ensures
        shell_action(
            JsonView::Object(
                map![
                    "command"@ => command_json(call.command),
                    "timeout_ms"@ => limit_or_null(call.timeout_ms),
                    "working_directory"@ => text_or_null(call.working_directory),
                    "env"@ => env_or_null(call.env),
                    "user"@ => text_or_null(call.user),
                ],
            ),
        ) == Ok::<LocalShellExecActionView, Seq<char>>(call),
        shell_action(
            JsonView::Array(
                seq![
                    command_json(call.command),
                    limit_or_null(call.timeout_ms),
                    text_or_null(call.working_directory),
                    env_or_null(call.env),
                    text_or_null(call.user),
                ],
            ),
        ) == Ok::<LocalShellExecActionView, Seq<char>>(call),
{
    lemma_field_names_differ();
    lemma_parts_read(call);
}

proof fn lemma_field_names_differ()
    ensures
        "command"@ != "timeout_ms"@,
        "command"@ != "working_directory"@,
        "command"@ != "env"@,
        "command"@ != "user"@,
        "timeout_ms"@ != "working_directory"@,
        "timeout_ms"@ != "env"@,
        "timeout_ms"@ != "user"@,
        "working_directory"@ != "env"@,
        "working_directory"@ != "user"@,
        "env"@ != "user"@,
{
    reveal_strlit("command");
    reveal_strlit("timeout_ms");
    reveal_strlit("working_directory");
    reveal_strlit("env");
    reveal_strlit("user");
    assert("command"@.len() == 7);
    assert("timeout_ms"@.len() == 10);
    assert("working_directory"@.len() == 17);
    assert("env"@.len() == 3);
    assert("user"@.len() == 4);
}

/// A shell call needs nothing but its command, and none is read without one.
pub proof fn law_shell_calls_need_only_a_command(command: Seq<Seq<char>>)
    ensures
        shell_action(JsonView::Object(map!["command"@ => command_json(command)])) == Ok::<
            LocalShellExecActionView,
            Seq<char>,
        >(
            LocalShellExecActionView {
                command,
                timeout_ms: None,
                working_directory: None,
                env: None,
                user: None,
            },
        ),
        shell_action(JsonView::Object(Map::empty())) is Err,
        shell_action(JsonView::Array(Seq::empty())) is Err,
        shell_action(JsonView::Null) is Err,
{
    lemma_field_names_differ();
    lemma_parts_read(
        LocalShellExecActionView {
            command,
            timeout_ms: None,
            working_directory: None,
            env: None,
            user: None,
        },
    );
}

/// A shell call that goes out to a model as JSON comes back from it as it was.
pub proof fn law_shell_calls_come_back(call: LocalShellExecActionView)
    ensures
        shell_action(call.json()) == Ok::<LocalShellExecActionView, Seq<char>>(call),
{
    lemma_field_names_differ();
    lemma_parts_read(call);
    let told = call.json();
    let words = super::responses::text_array(call.command)->Array_0;
    lemma_texts_read(words, call.command, words.len() as int);
    assert(call.command.take(words.len() as int) =~= call.command);
    assert(told.get("command"@) == Some(super::responses::text_array(call.command)));
    if let Some(env) = call.env {
        let given = env.map_values(|text: Seq<char>| JsonView::Text(text));
        let read = given.map_values(|value: JsonView| value->Text_0);
        assert(told.get("env"@) == Some(JsonView::Object(given)));
        assert(read =~= env);
        assert(env_of(JsonView::Object(given)) is Ok);
        assert(env_of(JsonView::Object(given))->Ok_0->0 =~= env);
    }
}

} // verus!
