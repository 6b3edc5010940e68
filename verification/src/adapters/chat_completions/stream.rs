//! The response stream as a chat completion, streamed or whole.
use vstd::prelude::*;

use crate::clock::{unix_time, TimeSpan};
use crate::collections::TextMap;
use crate::duplicate::Duplicate;
use crate::error::{outcome, upstream_error, AppError, AppErrorView, AppResult};
use crate::ids::{fresh_id, is_simple_uuid, item_id, prefixed_id};
use crate::json::{
    json_empty_object, json_object1, json_rendered, json_text, lemma_array_model, lemma_object_model,
    map_of, render_json, set_entry, Json, JsonMap, JsonNumber, JsonNumberView, JsonView,
};
use crate::models::chat::{ChatFunctionCall, ChatFunctionCallView, ChatToolCall, ChatToolCallView};
use crate::sse::{SseEvent, SseEventView};
use crate::text::{concat, concatenated, join, joined, same_text};

use super::super::responses_to_anthropic::resource::{get_nested, nested};
use super::super::responses_to_chat::content::{insert_optional_string, with_optional};
use super::owned_text;

verus! {

/// An event of a streamed chat completion.
#[derive(Debug, PartialEq)]
pub enum ChatSseEvent {
    Data(Json),
    Done,
}

/// The model of [`ChatSseEvent`].
pub enum ChatSseEventView {
    Data(JsonView),
    Done,
}

impl DeepView for ChatSseEvent {
    type V = ChatSseEventView;

    open spec fn deep_view(&self) -> ChatSseEventView {
        match self {
            ChatSseEvent::Data(inner) => ChatSseEventView::Data(inner.deep_view()),
            ChatSseEvent::Done => ChatSseEventView::Done,
        }
    }
}

/// The tokens that a completion took.
#[derive(Debug, PartialEq)]
pub struct ChatUsage {
    pub prompt_tokens: i64,
    pub completion_tokens: i64,
    pub total_tokens: i64,
    pub cached_tokens: Option<i64>,
    pub reasoning_tokens: Option<i64>,
}

/// The model of [`ChatUsage`].
pub struct ChatUsageView {
    pub prompt_tokens: i64,
    pub completion_tokens: i64,
    pub total_tokens: i64,
    pub cached_tokens: Option<i64>,
    pub reasoning_tokens: Option<i64>,
}

impl DeepView for ChatUsage {
    type V = ChatUsageView;

    open spec fn deep_view(&self) -> ChatUsageView {
        ChatUsageView {
            prompt_tokens: self.prompt_tokens,
            completion_tokens: self.completion_tokens,
            total_tokens: self.total_tokens,
            cached_tokens: self.cached_tokens.deep_view(),
            reasoning_tokens: self.reasoning_tokens.deep_view(),
        }
    }
}

/// Fresh ids for the chunks that an event may turn into.
#[derive(Debug, PartialEq)]
pub struct ChunkIds {
    pub role: String,
    pub body: String,
    pub usage: String,
}

/// The model of [`ChunkIds`].
pub struct ChunkIdsView {
    pub role: Seq<char>,
    pub body: Seq<char>,
    pub usage: Seq<char>,
}

impl DeepView for ChunkIds {
    type V = ChunkIdsView;

    open spec fn deep_view(&self) -> ChunkIdsView {
        ChunkIdsView {
            role: self.role@,
            body: self.body@,
            usage: self.usage@,
        }
    }
}

/// Turns the events of a response stream into the chunks of a chat completion.
#[derive(Debug, PartialEq)]
pub struct ChatCompletionStreamConverter {
    id: Option<String>,
    model: String,
    created: i64,
    include_usage: bool,
    role_sent: bool,
    emitted_tool_calls: Vec<String>,
    pending_tool_arguments: TextMap<String>,
}

/// The model of [`ChatCompletionStreamConverter`].
pub struct ChatCompletionStreamConverterView {
    pub id: Option<Seq<char>>,
    pub model: Seq<char>,
    pub created: i64,
    pub include_usage: bool,
    pub role_sent: bool,
    pub emitted_tool_calls: Seq<Seq<char>>,
    pub pending_tool_arguments: Map<Seq<char>, Seq<char>>,
}

impl DeepView for ChatCompletionStreamConverter {
    type V = ChatCompletionStreamConverterView;

    closed spec fn deep_view(&self) -> ChatCompletionStreamConverterView {
        ChatCompletionStreamConverterView {
            id: self.id.deep_view(),
            model: self.model@,
            created: self.created,
            include_usage: self.include_usage,
            role_sent: self.role_sent,
            emitted_tool_calls: self.emitted_tool_calls.deep_view(),
            pending_tool_arguments: self.pending_tool_arguments.deep_view(),
        }
    }
}

/// Gathers the events of a response stream into a whole chat completion.
#[derive(Debug, PartialEq)]
pub struct ChatCompletionCollector {
    model: String,
    final_response: Option<Json>,
    error: Option<String>,
}

/// The model of [`ChatCompletionCollector`].
pub struct ChatCompletionCollectorView {
    pub model: Seq<char>,
    pub final_response: Option<JsonView>,
    pub error: Option<Seq<char>>,
}

impl DeepView for ChatCompletionCollector {
    type V = ChatCompletionCollectorView;

    closed spec fn deep_view(&self) -> ChatCompletionCollectorView {
        ChatCompletionCollectorView {
            model: self.model@,
            final_response: self.final_response.deep_view(),
            error: self.error.deep_view(),
        }
    }
}

// ---------------------------------------------------------------------------------------------
// JSON forms
// ---------------------------------------------------------------------------------------------

/// An integer as JSON.
pub open spec fn integer(n: int) -> JsonView {
    JsonView::Num(JsonNumberView::Integer(n))
}

/// `map` with an integer under `key`, where there is one.
pub open spec fn with_integer(
    map: Map<Seq<char>, JsonView>,
    key: Seq<char>,
    value: Option<int>,
) -> Map<Seq<char>, JsonView> {
    match value {
        Some(n) => map.insert(key, integer(n)),
        None => map,
    }
}

/// `map` with `value` under `key`, where there is one.
pub open spec fn with_value(
    map: Map<Seq<char>, JsonView>,
    key: Seq<char>,
    value: Option<JsonView>,
) -> Map<Seq<char>, JsonView> {
    match value {
        Some(value) => map.insert(key, value),
        None => map,
    }
}

/// A tool call as JSON; what it leaves open is left out.
pub open spec fn tool_call_json(call: ChatToolCallView) -> JsonView {
    JsonView::Object(
        with_integer(
            with_optional(Map::empty(), "id"@, call.id),
            "index"@,
            match call.index {
                Some(index) => Some(index as int),
                None => None,
            },
        ).insert("type"@, JsonView::Text(call.kind)).insert(
            "function"@,
            JsonView::Object(
                with_value(
                    with_optional(Map::empty(), "name"@, call.function.name),
                    "arguments"@,
                    call.function.arguments,
                ),
            ),
        ),
    )
}

/// A list of tool calls as JSON.
pub open spec fn tool_calls_json(calls: Seq<ChatToolCallView>) -> JsonView {
    JsonView::Array(calls.map_values(|call: ChatToolCallView| tool_call_json(call)))
}

/// An object with an integer under `key`, where there is one.
pub open spec fn token_detail(key: Seq<char>, tokens: Option<i64>) -> Option<JsonView> {
    match tokens {
        Some(tokens) => Some(JsonView::Object(map![key => integer(tokens as int)])),
        None => None,
    }
}

/// The usage of a completion as JSON.
pub open spec fn usage_json(usage: ChatUsageView) -> JsonView {
    JsonView::Object(
        with_value(
            with_value(
                map![
                    "prompt_tokens"@ => integer(usage.prompt_tokens as int),
                    "completion_tokens"@ => integer(usage.completion_tokens as int),
                    "total_tokens"@ => integer(usage.total_tokens as int),
                ],
                "prompt_tokens_details"@,
                token_detail("cached_tokens"@, usage.cached_tokens),
            ),
            "completion_tokens_details"@,
            token_detail("reasoning_tokens"@, usage.reasoning_tokens),
        ),
    )
}

/// What a chunk adds to its choice: one field, or nothing.
pub enum Delta {
    Nothing,
    Role,
    Content(Seq<char>),
    Reasoning(Seq<char>),
    Call(ChatToolCallView),
}

/// A delta as JSON.
pub open spec fn delta_json(delta: Delta) -> JsonView {
    JsonView::Object(
        match delta {
            Delta::Nothing => Map::empty(),
            Delta::Role => map!["role"@ => JsonView::Text("assistant"@)],
            Delta::Content(text) => map!["content"@ => JsonView::Text(text)],
            Delta::Reasoning(text) => map!["reasoning_content"@ => JsonView::Text(text)],
            Delta::Call(call) => map!["tool_calls"@ => tool_calls_json(seq![call])],
        },
    )
}

/// The only choice of a chunk as JSON.
pub open spec fn choice_json(delta: JsonView, finish_reason: Option<Seq<char>>) -> JsonView {
    JsonView::Object(
        with_optional(
            map!["index"@ => integer(0), "delta"@ => delta],
            "finish_reason"@,
            finish_reason,
        ),
    )
}

/// A chunk as JSON.
pub open spec fn chunk_json(
    id: Seq<char>,
    created: i64,
    model: Seq<char>,
    choices: Seq<JsonView>,
    usage: Option<JsonView>,
) -> JsonView {
    JsonView::Object(
        with_value(
            map![
                "id"@ => JsonView::Text(id),
                "object"@ => JsonView::Text("chat.completion.chunk"@),
                "created"@ => integer(created as int),
                "model"@ => JsonView::Text(model),
                "choices"@ => JsonView::Array(choices),
            ],
            "usage"@,
            usage,
        ),
    )
}

fn json_i64(n: i64) -> (result: Json)
    ensures
        result.deep_view() == integer(n as int),
{
    Json::Num(JsonNumber::Signed(n))
}

pub fn insert_optional_value(map: &mut JsonMap, key: &str, value: Option<Json>)
    ensures
        map_of(final(map).deep_view()) == with_value(
            map_of(old(map).deep_view()),
            key@,
            value.deep_view(),
        ),
{
    if let Some(value) = value {
        set_entry(map, key.to_string(), value);
    }
}

fn make_tool_call_json(call: &ChatToolCall) -> (result: Json)
    ensures
        result.deep_view() == tool_call_json(call.deep_view()),
{
    broadcast use lemma_object_model;

    let mut function: JsonMap = Vec::new();
    insert_optional_string(&mut function, "name", &call.function.name);
    insert_optional_value(&mut function, "arguments", call.function.arguments.duplicate());
    let mut entries: JsonMap = Vec::new();
    insert_optional_string(&mut entries, "id", &call.id);
    if let Some(index) = call.index {
        set_entry(
            &mut entries,
            "index".to_string(),
            Json::Num(JsonNumber::Unsigned(index as u64)),
        );
    }
    set_entry(&mut entries, "type".to_string(), Json::Text(call.kind.clone()));
    set_entry(&mut entries, "function".to_string(), Json::Object(function));
    Json::Object(entries)
}

pub fn make_tool_calls_json(calls: &Vec<ChatToolCall>) -> (result: Json)
    ensures
        result.deep_view() == tool_calls_json(calls.deep_view()),
{
    broadcast use lemma_array_model;

    let mut items: Vec<Json> = Vec::new();
    for index in 0..calls.len()
        invariant
            items@.len() == index,
            forall|k: int|
                0 <= k < index ==> #[trigger] items@[k].deep_view() == tool_call_json(
                    calls@[k].deep_view(),
                ),
    {
        items.push(make_tool_call_json(&calls[index]));
    }
    assert(items.deep_view() =~= calls.deep_view().map_values(
        |call: ChatToolCallView| tool_call_json(call),
    ));
    Json::Array(items)
}

fn make_token_detail(key: &str, tokens: Option<i64>) -> (result: Option<Json>)
    ensures
        result.deep_view() == token_detail(key@, tokens),
{
    match tokens {
        Some(tokens) => Some(json_object1(key, json_i64(tokens))),
        None => None,
    }
}

fn make_usage_json(usage: &ChatUsage) -> (result: Json)
    ensures
        result.deep_view() == usage_json(usage.deep_view()),
{
    broadcast use lemma_object_model;

    let mut entries: JsonMap = Vec::new();
    set_entry(&mut entries, "prompt_tokens".to_string(), json_i64(usage.prompt_tokens));
    set_entry(&mut entries, "completion_tokens".to_string(), json_i64(usage.completion_tokens));
    set_entry(&mut entries, "total_tokens".to_string(), json_i64(usage.total_tokens));
    insert_optional_value(
        &mut entries,
        "prompt_tokens_details",
        make_token_detail("cached_tokens", usage.cached_tokens),
    );
    insert_optional_value(
        &mut entries,
        "completion_tokens_details",
        make_token_detail("reasoning_tokens", usage.reasoning_tokens),
    );
    Json::Object(entries)
}

fn make_choice_json(delta: Json, finish_reason: &Option<String>) -> (result: Json)
    ensures
        result.deep_view() == choice_json(delta.deep_view(), finish_reason.deep_view()),
{
    broadcast use lemma_object_model;

    let mut entries: JsonMap = Vec::new();
    set_entry(&mut entries, "index".to_string(), Json::Num(JsonNumber::Unsigned(0)));
    set_entry(&mut entries, "delta".to_string(), delta);
    insert_optional_string(&mut entries, "finish_reason", finish_reason);
    Json::Object(entries)
}

fn make_chunk_json(
    id: String,
    created: i64,
    model: String,
    choices: Vec<Json>,
    usage: Option<Json>,
) -> (result: Json)
    ensures
        result.deep_view() == chunk_json(
            id@,
            created,
            model@,
            choices.deep_view(),
            usage.deep_view(),
        ),
{
    broadcast use lemma_array_model, lemma_object_model;

    let mut entries: JsonMap = Vec::new();
    set_entry(&mut entries, "id".to_string(), Json::Text(id));
    set_entry(&mut entries, "object".to_string(), json_text("chat.completion.chunk"));
    set_entry(&mut entries, "created".to_string(), json_i64(created));
    set_entry(&mut entries, "model".to_string(), Json::Text(model));
    set_entry(&mut entries, "choices".to_string(), Json::Array(choices));
    insert_optional_value(&mut entries, "usage", usage);
    Json::Object(entries)
}

// ---------------------------------------------------------------------------------------------
// What the events say
// ---------------------------------------------------------------------------------------------

/// A call of a function with its arguments as text.
pub open spec fn function_call(call_id: Seq<char>, name: Seq<char>, arguments: Seq<char>) -> ChatToolCallView {
    ChatToolCallView {
        id: Some(call_id),
        index: None,
        kind: "function"@,
        function: ChatFunctionCallView {
            name: Some(name),
            arguments: Some(JsonView::Text(arguments)),
        },
    }
}

/// The text under `key`, or else `default`.
pub open spec fn text_or(data: JsonView, key: Seq<char>, default: Seq<char>) -> Seq<char> {
    match data.get_str(key) {
        Some(text) => text,
        None => default,
    }
}

/// The call that an object with a call id, a name and arguments describes.
pub open spec fn named_call(data: JsonView) -> Option<ChatToolCallView> {
    match (data.get_str("call_id"@), data.get_str("name"@)) {
        (Some(call_id), Some(name)) => Some(
            function_call(call_id, name, text_or(data, "arguments"@, "{}"@)),
        ),
        _ => None,
    }
}

/// The JSON text of the value under `key`, or of the empty object.
pub open spec fn rendered_or_empty(data: JsonView, key: Seq<char>) -> Seq<char> {
    json_rendered(
        match data.get(key) {
            Some(value) => value,
            None => JsonView::Object(Map::empty()),
        },
    )
}

/// The tool call that an output item describes.
pub open spec fn item_call(item: JsonView) -> Option<ChatToolCallView> {
    let kind = item.get_str("type"@);
    if kind == Some("function_call"@) {
        named_call(item)
    } else if kind == Some("custom_tool_call"@) {
        match (item.get_str("call_id"@), item.get_str("name"@)) {
            (Some(call_id), Some(name)) => Some(
                function_call(
                    call_id,
                    name,
                    json_rendered(
                        JsonView::Object(
                            map![
                                "input"@ => JsonView::Text(text_or(item, "input"@, Seq::empty())),
                            ],
                        ),
                    ),
                ),
            ),
            _ => None,
        }
    } else if kind == Some("tool_search_call"@) {
        Some(
            function_call(
                text_or(item, "call_id"@, "tool_search"@),
                "tool_search"@,
                rendered_or_empty(item, "arguments"@),
            ),
        )
    } else if kind == Some("local_shell_call"@) {
        let call_id = match item.get("call_id"@) {
            Some(value) => value.as_str(),
            None => item.get_str("id"@),
        };
        match call_id {
            Some(call_id) => Some(
                function_call(call_id, "local_shell"@, rendered_or_empty(item, "action"@)),
            ),
            None => None,
        }
    } else {
        None
    }
}

/// The tool call of a finished output item.
pub open spec fn done_call(data: JsonView) -> Option<ChatToolCallView> {
    match data.get("item"@) {
        Some(item) => item_call(item),
        None => None,
    }
}

/// Why a response ended.
pub open spec fn response_finish(response: JsonView, has_tool_calls: bool) -> Seq<char> {
    if response.get_str("status"@) == Some("incomplete"@) || nested(
        response,
        "incomplete_details"@,
        "reason"@,
    ) is Some {
        "length"@
    } else {
        plain_finish(has_tool_calls)
    }
}

/// Why a response ended that was not cut off.
pub open spec fn plain_finish(has_tool_calls: bool) -> Seq<char> {
    if has_tool_calls {
        "tool_calls"@
    } else {
        "stop"@
    }
}

/// Why the response of a terminal event ended.
pub open spec fn event_finish(data: JsonView, has_tool_calls: bool) -> Seq<char> {
    match data.get("response"@) {
        Some(response) => response_finish(response, has_tool_calls),
        None => plain_finish(has_tool_calls),
    }
}

/// The number under `key`, where it is a signed integer.
pub open spec fn signed_under(data: JsonView, key: Seq<char>) -> Option<i64> {
    match data.get(key) {
        Some(value) => match value.as_i64() {
            Some(n) => Some(n as i64),
            None => None,
        },
        None => None,
    }
}

/// The number under `outer` and then `inner`, where it is a signed integer.
pub open spec fn signed_nested(data: JsonView, outer: Seq<char>, inner: Seq<char>) -> Option<i64> {
    match data.get(outer) {
        Some(value) => signed_under(value, inner),
        None => None,
    }
}

/// The usage that a response reports. A missing total is the sum of the two parts.
pub open spec fn response_usage(response: JsonView) -> Option<ChatUsageView> {
    match response.get("usage"@) {
        None => None,
        Some(usage) => match (
            signed_under(usage, "input_tokens"@),
            signed_under(usage, "output_tokens"@),
        ) {
            (Some(prompt_tokens), Some(completion_tokens)) => Some(
                ChatUsageView {
                    prompt_tokens,
                    completion_tokens,
                    total_tokens: match signed_under(usage, "total_tokens"@) {
                        Some(total) => total,
                        None => prompt_tokens.wrapping_add(completion_tokens),
                    },
                    cached_tokens: signed_nested(
                        usage,
                        "input_tokens_details"@,
                        "cached_tokens"@,
                    ),
                    reasoning_tokens: signed_nested(
                        usage,
                        "output_tokens_details"@,
                        "reasoning_tokens"@,
                    ),
                },
            ),
            _ => None,
        },
    }
}

/// The text of the error that a response failed with.
pub open spec fn error_message(data: JsonView) -> Seq<char> {
    match nested(data, "response"@, "error"@) {
        Some(error) => text_or(error, "message"@, "upstream request failed"@),
        None => "upstream request failed"@,
    }
}

fn chat_tool_call(call_id: String, name: String, arguments: String) -> (result: ChatToolCall)
    ensures
        result.deep_view() == function_call(call_id@, name@, arguments@),
{
    ChatToolCall {
        id: Some(call_id),
        index: None,
        kind: "function".to_string(),
        function: ChatFunctionCall { name: Some(name), arguments: Some(Json::Text(arguments)) },
    }
}

fn get_text_or<'a>(data: &'a Json, key: &str, default: &'a str) -> (result: &'a str)
    ensures
        result@ == text_or(data.deep_view(), key@, default@),
{
    match data.get_str(key) {
        Some(text) => text,
        None => default,
    }
}

/// The call that an event with the whole arguments describes.
pub fn tool_call_from_function_args_done(data: &Json) -> (result: Option<ChatToolCall>)
    ensures
        result.deep_view() == named_call(data.deep_view()),
{
    match (data.get_str("call_id"), data.get_str("name")) {
        (Some(call_id), Some(name)) => Some(
            chat_tool_call(
                call_id.to_string(),
                name.to_string(),
                get_text_or(data, "arguments", "{}").to_string(),
            ),
        ),
        _ => None,
    }
}

fn render_or_empty(data: &Json, key: &str) -> (result: String)
    ensures
        result@ == rendered_or_empty(data.deep_view(), key@),
{
    match data.get(key) {
        Some(value) => render_json(value),
        None => render_json(&json_empty_object()),
    }
}

/// The tool call that an output item describes.
pub fn tool_call_from_item(item: &Json) -> (result: Option<ChatToolCall>)
    ensures
        result.deep_view() == item_call(item.deep_view()),
{
    let kind = match item.get_str("type") {
        Some(kind) => kind,
        None => {
            return None;
        },
    };
    if same_text(kind, "function_call") {
        tool_call_from_function_args_done(item)
    } else if same_text(kind, "custom_tool_call") {
        match (item.get_str("call_id"), item.get_str("name")) {
            (Some(call_id), Some(name)) => {
                let input = match item.get_str("input") {
                    Some(input) => input.to_string(),
                    None => String::new(),
                };
                let arguments = render_json(&json_object1("input", Json::Text(input)));
                Some(chat_tool_call(call_id.to_string(), name.to_string(), arguments))
            },
            _ => None,
        }
    } else if same_text(kind, "tool_search_call") {
        Some(
            chat_tool_call(
                get_text_or(item, "call_id", "tool_search").to_string(),
                "tool_search".to_string(),
                render_or_empty(item, "arguments"),
            ),
        )
    } else if same_text(kind, "local_shell_call") {
        let call_id = match item.get("call_id") {
            Some(value) => value.as_str(),
            None => item.get_str("id"),
        };
        match call_id {
            Some(call_id) => Some(
                chat_tool_call(
                    call_id.to_string(),
                    "local_shell".to_string(),
                    render_or_empty(item, "action"),
                ),
            ),
            None => None,
        }
    } else {
        None
    }
}

/// The tool call of a finished output item. Searches on the server are not shown.
pub fn tool_call_from_output_item_done(data: &Json) -> (result: Option<ChatToolCall>)
    ensures
        result.deep_view() == done_call(data.deep_view()),
{
    match data.get("item") {
        Some(item) => tool_call_from_item(item),
        None => None,
    }
}

fn plain_finish_reason(has_tool_calls: bool) -> (result: String)
    ensures
        result@ == plain_finish(has_tool_calls),
{
    if has_tool_calls {
        "tool_calls".to_string()
    } else {
        "stop".to_string()
    }
}

/// Why a response ended.
pub fn finish_reason_from_response_value(response: &Json, has_tool_calls: bool) -> (result: String)
    ensures
        result@ == response_finish(response.deep_view(), has_tool_calls),
{
    if let Some(status) = response.get_str("status") {
        if same_text(status, "incomplete") {
            return "length".to_string();
        }
    }
    if get_nested(response, "incomplete_details", "reason").is_some() {
        return "length".to_string();
    }
    plain_finish_reason(has_tool_calls)
}

/// Why the response of a terminal event ended.
pub fn finish_reason_from_response(data: &Json, has_tool_calls: bool) -> (result: String)
    ensures
        result@ == event_finish(data.deep_view(), has_tool_calls),
{
    match data.get("response") {
        Some(response) => finish_reason_from_response_value(response, has_tool_calls),
        None => plain_finish_reason(has_tool_calls),
    }
}

fn get_signed(data: &Json, key: &str) -> (result: Option<i64>)
    ensures
        result == signed_under(data.deep_view(), key@),
{
    match data.get(key) {
        Some(value) => value.as_i64(),
        None => None,
    }
}

fn get_signed_nested(data: &Json, outer: &str, inner: &str) -> (result: Option<i64>)
    ensures
        result == signed_nested(data.deep_view(), outer@, inner@),
{
    match data.get(outer) {
        Some(value) => get_signed(value, inner),
        None => None,
    }
}

/// The usage that a response reports.
pub fn response_value_usage(response: &Json) -> (result: Option<ChatUsage>)
    ensures
        result.deep_view() == response_usage(response.deep_view()),
{
    let usage = match response.get("usage") {
        Some(usage) => usage,
        None => {
            return None;
        },
    };
    match (get_signed(usage, "input_tokens"), get_signed(usage, "output_tokens")) {
        (Some(prompt_tokens), Some(completion_tokens)) => {
            let total_tokens: i64 = match get_signed(usage, "total_tokens") {
                Some(total) => total,
                None => prompt_tokens.wrapping_add(completion_tokens),
            };
            Some(
                ChatUsage {
                    prompt_tokens,
                    completion_tokens,
                    total_tokens,
                    cached_tokens: get_signed_nested(
                        usage,
                        "input_tokens_details",
                        "cached_tokens",
                    ),
                    reasoning_tokens: get_signed_nested(
                        usage,
                        "output_tokens_details",
                        "reasoning_tokens",
                    ),
                },
            )
        },
        _ => None,
    }
}

/// The text of the error that a response failed with.
pub fn response_error_message(data: &Json) -> (result: String)
    ensures
        result@ == error_message(data.deep_view()),
{
    match get_nested(data, "response", "error") {
        Some(error) => get_text_or(error, "message", "upstream request failed").to_string(),
        None => "upstream request failed".to_string(),
    }
}

// ---------------------------------------------------------------------------------------------
// The stream
// ---------------------------------------------------------------------------------------------

/// A converter, and the events that it has put out for the event at hand.
pub struct ChatStream {
    pub converter: ChatCompletionStreamConverterView,
    pub events: Seq<ChatSseEventView>,
}

impl ChatStream {
    pub open spec fn emit(self, event: ChatSseEventView) -> ChatStream {
        ChatStream { events: self.events.push(event), ..self }
    }

    /// A chunk with the id of the response, or else with a fresh one.
    pub open spec fn chunk(
        self,
        choices: Seq<JsonView>,
        usage: Option<JsonView>,
        fresh: Seq<char>,
    ) -> ChatStream {
        let id = match self.converter.id {
            Some(id) => id,
            None => prefixed_id("chatcmpl"@, fresh),
        };
        self.emit(
            ChatSseEventView::Data(
                chunk_json(id, self.converter.created, self.converter.model, choices, usage),
            ),
        )
    }

    pub open spec fn delta(
        self,
        delta: Delta,
        finish_reason: Option<Seq<char>>,
        fresh: Seq<char>,
    ) -> ChatStream {
        self.chunk(seq![choice_json(delta_json(delta), finish_reason)], None, fresh)
    }

    /// The role has been announced.
    pub open spec fn begun(self, fresh: ChunkIdsView) -> ChatStream {
        if self.converter.role_sent {
            self
        } else {
            ChatStream {
                converter: ChatCompletionStreamConverterView {
                    role_sent: true,
                    ..self.converter
                },
                ..self
            }.delta(Delta::Role, None, fresh.role)
        }
    }

    /// A tool call has been shown, unless it has been shown before.
    pub open spec fn call(self, call: ChatToolCallView, fresh: ChunkIdsView) -> ChatStream {
        match call.id {
            None => self,
            Some(call_id) => if self.converter.emitted_tool_calls.contains(call_id) {
                self
            } else {
                let pending = self.converter.pending_tool_arguments;
                let filled = call.function.arguments is None && pending.dom().contains(call_id);
                let numbered = ChatToolCallView {
                    index: Some(self.converter.emitted_tool_calls.len() as usize),
                    function: ChatFunctionCallView {
                        arguments: if filled {
                            Some(JsonView::Text(pending[call_id]))
                        } else {
                            call.function.arguments
                        },
                        ..call.function
                    },
                    ..call
                };
                ChatStream {
                    converter: ChatCompletionStreamConverterView {
                        emitted_tool_calls: self.converter.emitted_tool_calls.push(call_id),
                        pending_tool_arguments: if filled {
                            pending.remove(call_id)
                        } else {
                            pending
                        },
                        ..self.converter
                    },
                    ..self
                }.begun(fresh).delta(Delta::Call(numbered), None, fresh.body)
            },
        }
    }

    pub open spec fn optional_call(self, call: Option<ChatToolCallView>, fresh: ChunkIdsView) -> ChatStream {
        match call {
            Some(call) => self.call(call, fresh),
            None => self,
        }
    }

    /// Arguments of a tool call are kept until the call is shown.
    pub open spec fn arguments_delta(self, data: JsonView) -> ChatStream {
        match (data.get_str("call_id"@), data.get_str("delta"@)) {
            (Some(call_id), Some(delta)) => {
                let pending = self.converter.pending_tool_arguments;
                let before = if pending.dom().contains(call_id) {
                    pending[call_id]
                } else {
                    Seq::empty()
                };
                ChatStream {
                    converter: ChatCompletionStreamConverterView {
                        pending_tool_arguments: pending.insert(call_id, before + delta),
                        ..self.converter
                    },
                    ..self
                }
            },
            _ => self,
        }
    }

    pub open spec fn completed(self, data: JsonView, fresh: ChunkIdsView) -> ChatStream {
        let begun = self.begun(fresh);
        let finish = event_finish(data, begun.converter.emitted_tool_calls.len() > 0);
        let ended = begun.delta(Delta::Nothing, Some(finish), fresh.body);
        let usage = match data.get("response"@) {
            Some(response) => response_usage(response),
            None => None,
        };
        let reported = match usage {
            Some(usage) => if ended.converter.include_usage {
                ended.chunk(Seq::empty(), Some(usage_json(usage)), fresh.usage)
            } else {
                ended
            },
            None => ended,
        };
        reported.emit(ChatSseEventView::Done)
    }

    pub open spec fn failed(self, data: JsonView) -> ChatStream {
        self.emit(
            ChatSseEventView::Data(
                JsonView::Object(
                    map![
                        "error"@ => JsonView::Object(
                            map!["message"@ => JsonView::Text(error_message(data))],
                        ),
                    ],
                ),
            ),
        ).emit(ChatSseEventView::Done)
    }

    /// The stream after one event.
    pub open spec fn after(self, event: SseEventView, fresh: ChunkIdsView) -> ChatStream {
        let name = event.event;
        let data = event.data;
        if name == "response.created"@ {
            ChatStream {
                converter: ChatCompletionStreamConverterView {
                    id: match data.get("response"@) {
                        Some(response) => response.get_str("id"@),
                        None => None,
                    },
                    ..self.converter
                },
                ..self
            }.begun(fresh)
        } else if name == "response.output_text.delta"@ {
            match data.get_str("delta"@) {
                Some(text) => self.begun(fresh).delta(Delta::Content(text), None, fresh.body),
                None => self,
            }
        } else if name == "response.reasoning_text.delta"@ || name
            == "response.reasoning_summary_text.delta"@ {
            match data.get_str("delta"@) {
                Some(text) => self.begun(fresh).delta(Delta::Reasoning(text), None, fresh.body),
                None => self,
            }
        } else if name == "response.function_call_arguments.delta"@ {
            self.arguments_delta(data)
        } else if name == "response.function_call_arguments.done"@ {
            self.optional_call(named_call(data), fresh)
        } else if name == "response.output_item.done"@ {
            self.optional_call(done_call(data), fresh)
        } else if name == "response.completed"@ || name == "response.incomplete"@ {
            self.completed(data, fresh)
        } else if name == "response.failed"@ {
            self.failed(data)
        } else {
            self
        }
    }
}

/// A converter that has seen nothing yet.
pub open spec fn new_converter(model: Seq<char>, include_usage: bool, created: i64) -> ChatCompletionStreamConverterView {
    ChatCompletionStreamConverterView {
        id: None,
        model,
        created,
        include_usage,
        role_sent: false,
        emitted_tool_calls: Seq::empty(),
        pending_tool_arguments: Map::empty(),
    }
}

/// Whether all the ids are fresh ones.
pub open spec fn ids_are_fresh(fresh: ChunkIdsView) -> bool {
    is_simple_uuid(fresh.role) && is_simple_uuid(fresh.body) && is_simple_uuid(fresh.usage)
}

fn push_event(output: &mut Vec<ChatSseEvent>, event: ChatSseEvent)
    ensures
        final(output).deep_view() == old(output).deep_view().push(event.deep_view()),
{
    let ghost added = event.deep_view();
    output.push(event);
    assert(output.deep_view() =~= old(output).deep_view().push(added));
}

/// The whole seconds of a time, as far as a signed number can hold them.
pub open spec fn timestamp(now: TimeSpan) -> i64 {
    if now.secs <= i64::MAX {
        now.secs as i64
    } else {
        i64::MAX
    }
}

/// The whole seconds of a time, as far as a signed number can hold them.
pub fn timestamp_of(now: TimeSpan) -> (result: i64)
    ensures
        result == timestamp(now),
{
    if now.secs <= i64::MAX as u64 {
        now.secs as i64
    } else {
        i64::MAX
    }
}

/// The seconds since the start of the Unix epoch.
pub fn current_unix_timestamp() -> (result: i64)
    ensures
        exists|now: TimeSpan| #![trigger now.wf()] now.wf() && result == timestamp(now),
{
    timestamp_of(unix_time())
}

impl ChatSseEvent {
    /// The data line of the event.
    pub fn to_sse_data(&self) -> (result: String)
        ensures
            result@ == (match self.deep_view() {
                ChatSseEventView::Data(value) => json_rendered(value),
                ChatSseEventView::Done => "[DONE]"@,
            }),
    {
        match self {
            ChatSseEvent::Data(value) => render_json(value),
            ChatSseEvent::Done => "[DONE]".to_string(),
        }
    }
}

impl ChatCompletionStreamConverter {
    /// A converter for a completion that is created now.
    pub fn new(model: String, include_usage: bool) -> (result: Self)
        ensures
            exists|created: i64|
                #![trigger new_converter(model@, include_usage, created)]
                result.deep_view() == new_converter(model@, include_usage, created),
    {
        let created: i64 = current_unix_timestamp();
        Self::created_at(model, include_usage, created)
    }

    /// A converter for a completion that was created at the given time.
    pub fn created_at(model: String, include_usage: bool, created: i64) -> (result: Self)
        ensures
            result.deep_view() == new_converter(model@, include_usage, created),
    {
        let emitted_tool_calls: Vec<String> = Vec::new();
        assert(emitted_tool_calls.deep_view() =~= Seq::<Seq<char>>::empty());
        ChatCompletionStreamConverter {
            id: None,
            model,
            created,
            include_usage,
            role_sent: false,
            emitted_tool_calls,
            pending_tool_arguments: TextMap::new(),
        }
    }

    /// Converts one event. Chunks without the id of a response get theirs from `fresh`.
    pub fn convert_with_ids(&mut self, event: &SseEvent, fresh: &ChunkIds) -> (result: Vec<
        ChatSseEvent,
    >)
        ensures
            (ChatStream { converter: final(self).deep_view(), events: result.deep_view() }) == (
            ChatStream { converter: old(self).deep_view(), events: Seq::empty() }).after(
                event.deep_view(),
                fresh.deep_view(),
            ),
    {
        let mut output: Vec<ChatSseEvent> = Vec::new();
        assert(output.deep_view() =~= Seq::<ChatSseEventView>::empty());
        let name = event.event.as_str();
        let data = &event.data;
        if same_text(name, "response.created") {
            self.id = match data.get("response") {
                Some(response) => owned_text(response.get_str("id")),
                None => None,
            };
            self.ensure_role_chunk(fresh, &mut output);
        } else if same_text(name, "response.output_text.delta") {
            if let Some(delta) = data.get_str("delta") {
                self.ensure_role_chunk(fresh, &mut output);
                self.push_delta(
                    json_object1("content", json_text(delta)),
                    None,
                    fresh.body.as_str(),
                    &mut output,
                );
            }
        } else if same_text(name, "response.reasoning_text.delta") || same_text(
            name,
            "response.reasoning_summary_text.delta",
        ) {
            if let Some(delta) = data.get_str("delta") {
                self.ensure_role_chunk(fresh, &mut output);
                self.push_delta(
                    json_object1("reasoning_content", json_text(delta)),
                    None,
                    fresh.body.as_str(),
                    &mut output,
                );
            }
        } else if same_text(name, "response.function_call_arguments.delta") {
            self.keep_arguments(data);
        } else if same_text(name, "response.function_call_arguments.done") {
            if let Some(tool_call) = tool_call_from_function_args_done(data) {
                self.emit_tool_call(tool_call, fresh, &mut output);
            }
        } else if same_text(name, "response.output_item.done") {
            if let Some(tool_call) = tool_call_from_output_item_done(data) {
                self.emit_tool_call(tool_call, fresh, &mut output);
            }
        } else if same_text(name, "response.completed") || same_text(name, "response.incomplete") {
            self.complete(data, fresh, &mut output);
        } else if same_text(name, "response.failed") {
            push_event(
                &mut output,
                ChatSseEvent::Data(
                    json_object1(
                        "error",
                        json_object1("message", Json::Text(response_error_message(data))),
                    ),
                ),
            );
            push_event(&mut output, ChatSseEvent::Done);
        }
        output
    }

    /// Converts one event.
    pub fn convert(&mut self, event: &SseEvent) -> (result: Vec<ChatSseEvent>)
        ensures
            exists|fresh: ChunkIdsView|
                #![trigger ids_are_fresh(fresh)]
                {
                    &&& ids_are_fresh(fresh)
                    &&& (ChatStream {
                        converter: final(self).deep_view(),
                        events: result.deep_view(),
                    }) == (ChatStream {
                        converter: old(self).deep_view(),
                        events: Seq::empty(),
                    }).after(event.deep_view(), fresh)
                },
    {
        let fresh = ChunkIds { role: fresh_id(), body: fresh_id(), usage: fresh_id() };
        assert(ids_are_fresh(fresh.deep_view()));
        self.convert_with_ids(event, &fresh)
    }

    fn chat_id(&self, fresh: &str) -> (result: String)
        ensures
            result@ == (match self.deep_view().id {
                Some(id) => id,
                None => prefixed_id("chatcmpl"@, fresh@),
            }),
    {
        match &self.id {
            Some(id) => id.clone(),
            None => item_id("chatcmpl", fresh),
        }
    }

    fn push_chunk(
        &self,
        choices: Vec<Json>,
        usage: Option<Json>,
        fresh: &str,
        output: &mut Vec<ChatSseEvent>,
    )
        ensures
            (ChatStream { converter: self.deep_view(), events: final(output).deep_view() }) == (
            ChatStream { converter: self.deep_view(), events: old(output).deep_view() }).chunk(
                choices.deep_view(),
                usage.deep_view(),
                fresh@,
            ),
    {
        let chunk = make_chunk_json(
            self.chat_id(fresh),
            self.created,
            self.model.clone(),
            choices,
            usage,
        );
        push_event(output, ChatSseEvent::Data(chunk));
    }

    fn push_delta(
        &self,
        delta: Json,
        finish_reason: Option<String>,
        fresh: &str,
        output: &mut Vec<ChatSseEvent>,
    )
        ensures
            (ChatStream { converter: self.deep_view(), events: final(output).deep_view() }) == (
            ChatStream { converter: self.deep_view(), events: old(output).deep_view() }).chunk(
                seq![choice_json(delta.deep_view(), finish_reason.deep_view())],
                None,
                fresh@,
            ),
    {
        let choice = make_choice_json(delta, &finish_reason);
        let ghost model = choice.deep_view();
        let choices = vec![choice];
        assert(choices.deep_view() =~= seq![model]);
        self.push_chunk(choices, None, fresh, output);
    }

    fn ensure_role_chunk(&mut self, fresh: &ChunkIds, output: &mut Vec<ChatSseEvent>)
        ensures
            (ChatStream { converter: final(self).deep_view(), events: final(output).deep_view() })
                == (ChatStream {
                converter: old(self).deep_view(),
                events: old(output).deep_view(),
            }).begun(fresh.deep_view()),
    {
        if self.role_sent {
            return;
        }
        self.role_sent = true;
        self.push_delta(
            json_object1("role", json_text("assistant")),
            None,
            fresh.role.as_str(),
            output,
        );
    }

    fn has_emitted(&self, call_id: &str) -> (result: bool)
        ensures
            result == self.deep_view().emitted_tool_calls.contains(call_id@),
    {
        let ghost emitted = self.emitted_tool_calls.deep_view();
        for index in 0..self.emitted_tool_calls.len()
            invariant
                emitted == self.emitted_tool_calls.deep_view(),
                forall|k: int| 0 <= k < index ==> emitted[k] != call_id@,
        {
            assert(emitted[index as int] == self.emitted_tool_calls@[index as int]@);
            if same_text(self.emitted_tool_calls[index].as_str(), call_id) {
                return true;
            }
        }
        false
    }

    fn emit_tool_call(
        &mut self,
        tool_call: ChatToolCall,
        fresh: &ChunkIds,
        output: &mut Vec<ChatSseEvent>,
    )
        ensures
            (ChatStream { converter: final(self).deep_view(), events: final(output).deep_view() })
                == (ChatStream {
                converter: old(self).deep_view(),
                events: old(output).deep_view(),
            }).call(tool_call.deep_view(), fresh.deep_view()),
    {
        broadcast use lemma_array_model;

        let mut tool_call = tool_call;
        let call_id = match &tool_call.id {
            Some(id) => id.clone(),
            None => {
                return;
            },
        };
        if self.has_emitted(call_id.as_str()) {
            return;
        }
        if tool_call.function.arguments.is_none() {
            let ghost pending = self.pending_tool_arguments.deep_view();
            if let Some(arguments) = self.pending_tool_arguments.remove(call_id.as_str()) {
                tool_call.function.arguments = Some(Json::Text(arguments));
            } else {
                assert(pending.remove(call_id@) =~= pending);
            }
        }
        tool_call.index = Some(self.emitted_tool_calls.len());
        let ghost emitted = self.emitted_tool_calls.deep_view();
        let ghost added = call_id@;
        self.emitted_tool_calls.push(call_id);
        assert(self.emitted_tool_calls.deep_view() =~= emitted.push(added));
        self.ensure_role_chunk(fresh, output);
        let ghost call = tool_call.deep_view();
        let calls = vec![tool_call];
        assert(calls.deep_view() =~= seq![call]);
        self.push_delta(
            json_object1("tool_calls", make_tool_calls_json(&calls)),
            None,
            fresh.body.as_str(),
            output,
        );
    }

    fn keep_arguments(&mut self, data: &Json)
        ensures
            forall|events: Seq<ChatSseEventView>|
                (ChatStream { converter: final(self).deep_view(), events }) == #[trigger] (
                ChatStream { converter: old(self).deep_view(), events }).arguments_delta(
                    data.deep_view(),
                ),
    {
        if let (Some(call_id), Some(delta)) = (data.get_str("call_id"), data.get_str("delta")) {
            let mut arguments = match self.pending_tool_arguments.get(call_id) {
                Some(before) => before.clone(),
                None => String::new(),
            };
            arguments.push_str(delta);
            self.pending_tool_arguments.insert(call_id.to_string(), arguments);
        }
    }

    fn complete(&mut self, data: &Json, fresh: &ChunkIds, output: &mut Vec<ChatSseEvent>)
        ensures
            (ChatStream { converter: final(self).deep_view(), events: final(output).deep_view() })
                == (ChatStream {
                converter: old(self).deep_view(),
                events: old(output).deep_view(),
            }).completed(data.deep_view(), fresh.deep_view()),
    {
        self.ensure_role_chunk(fresh, output);
        let finish_reason = finish_reason_from_response(data, self.emitted_tool_calls.len() > 0);
        self.push_delta(json_empty_object(), Some(finish_reason), fresh.body.as_str(), output);
        if self.include_usage {
            if let Some(response) = data.get("response") {
                if let Some(usage) = response_value_usage(response) {
                    let choices: Vec<Json> = Vec::new();
                    assert(choices.deep_view() =~= Seq::<JsonView>::empty());
                    self.push_chunk(
                        choices,
                        Some(make_usage_json(&usage)),
                        fresh.usage.as_str(),
                        output,
                    );
                }
            }
        }
        push_event(output, ChatSseEvent::Done);
    }
}

// ---------------------------------------------------------------------------------------------
// The whole completion
// ---------------------------------------------------------------------------------------------

/// The texts of the first `count` parts of a list.
pub open spec fn listed_texts(parts: Seq<JsonView>, count: int) -> Seq<Seq<char>>
    decreases count,
{
    if count <= 0 {
        Seq::empty()
    } else {
        match parts[count - 1].get_str("text"@) {
            Some(text) => listed_texts(parts, count - 1).push(text),
            None => listed_texts(parts, count - 1),
        }
    }
}

/// The texts of the list under `key`.
pub open spec fn texts_under(item: JsonView, key: Seq<char>) -> Seq<Seq<char>> {
    match item.get(key) {
        Some(JsonView::Array(parts)) => listed_texts(parts, parts.len() as int),
        _ => Seq::empty(),
    }
}

/// What the output of a response adds up to.
pub struct GatheredOutput {
    pub content: Seq<char>,
    pub reasoning: Seq<char>,
    pub calls: Seq<ChatToolCallView>,
}

/// What the first `count` items of an output add up to.
pub open spec fn gathered(items: Seq<JsonView>, count: int) -> GatheredOutput
    decreases count,
{
    if count <= 0 {
        GatheredOutput { content: Seq::empty(), reasoning: Seq::empty(), calls: Seq::empty() }
    } else {
        let before = gathered(items, count - 1);
        let item = items[count - 1];
        let kind = item.get_str("type"@);
        if kind == Some("message"@) {
            GatheredOutput {
                content: before.content + concatenated(texts_under(item, "content"@)),
                ..before
            }
        } else if kind == Some("reasoning"@) {
            GatheredOutput {
                reasoning: before.reasoning + joined(
                    texts_under(item, "summary"@) + texts_under(item, "content"@),
                    "\n"@,
                ),
                ..before
            }
        } else {
            match item_call(item) {
                Some(call) => GatheredOutput {
                    calls: before.calls.push(
                        ChatToolCallView { index: Some(before.calls.len() as usize), ..call },
                    ),
                    ..before
                },
                None => before,
            }
        }
    }
}

/// What the output of a response adds up to.
pub open spec fn response_output(response: JsonView) -> GatheredOutput {
    match response.get("output"@) {
        Some(JsonView::Array(items)) => gathered(items, items.len() as int),
        _ => gathered(Seq::empty(), 0),
    }
}

/// The text, unless it is empty.
pub open spec fn filled(text: Seq<char>) -> Option<Seq<char>> {
    if text.len() > 0 {
        Some(text)
    } else {
        None
    }
}

/// The message of a completion as JSON.
pub open spec fn message_json(output: GatheredOutput) -> JsonView {
    let has_tool_calls = output.calls.len() > 0;
    JsonView::Object(
        with_value(
            with_optional(
                with_optional(
                    map!["role"@ => JsonView::Text("assistant"@)],
                    "content"@,
                    if output.content.len() == 0 && has_tool_calls {
                        None
                    } else {
                        Some(output.content)
                    },
                ),
                "reasoning_content"@,
                filled(output.reasoning),
            ),
            "tool_calls"@,
            if has_tool_calls {
                Some(tool_calls_json(output.calls))
            } else {
                None
            },
        ),
    )
}

/// A response as a whole chat completion. What the response leaves open is taken from the hints.
pub open spec fn completion(
    model_hint: Seq<char>,
    response: JsonView,
    now: i64,
    fresh: Seq<char>,
) -> JsonView {
    let output = response_output(response);
    JsonView::Object(
        with_value(
            map![
                "id"@ => JsonView::Text(
                    match response.get_str("id"@) {
                        Some(id) => id,
                        None => prefixed_id("chatcmpl"@, fresh),
                    },
                ),
                "object"@ => JsonView::Text("chat.completion"@),
                "created"@ => integer(
                    match signed_under(response, "created_at"@) {
                        Some(created) => created as int,
                        None => now as int,
                    },
                ),
                "model"@ => JsonView::Text(text_or(response, "model"@, model_hint)),
                "choices"@ => JsonView::Array(
                    seq![
                        JsonView::Object(
                            map![
                                "index"@ => integer(0),
                                "message"@ => message_json(output),
                                "finish_reason"@ => JsonView::Text(
                                    response_finish(response, output.calls.len() > 0),
                                ),
                            ],
                        ),
                    ],
                ),
            ],
            "usage"@,
            match response_usage(response) {
                Some(usage) => Some(usage_json(usage)),
                None => None,
            },
        ),
    )
}

fn collect_texts(item: &Json, key: &str) -> (result: Vec<String>)
    ensures
        result.deep_view() == texts_under(item.deep_view(), key@),
{
    broadcast use lemma_array_model;

    let mut texts: Vec<String> = Vec::new();
    assert(texts.deep_view() =~= Seq::<Seq<char>>::empty());
    if let Some(Json::Array(parts)) = item.get(key) {
        let ghost models = parts.deep_view();
        for index in 0..parts.len()
            invariant
                models == parts.deep_view(),
                texts.deep_view() == listed_texts(models, index as int),
        {
            let ghost before = texts.deep_view();
            assert(models[index as int] == parts@[index as int].deep_view());
            if let Some(text) = parts[index].get_str("text") {
                texts.push(text.to_string());
                assert(texts.deep_view() =~= before.push(text@));
            }
        }
    }
    texts
}

/// The text of a message item.
pub fn message_item_text(item: &Json) -> (result: String)
    ensures
        result@ == concatenated(texts_under(item.deep_view(), "content"@)),
{
    concat(&collect_texts(item, "content"))
}

/// The text of a reasoning item.
pub fn reasoning_item_text(item: &Json) -> (result: String)
    ensures
        result@ == joined(
            texts_under(item.deep_view(), "summary"@) + texts_under(
                item.deep_view(),
                "content"@,
            ),
            "\n"@,
        ),
{
    let mut parts = collect_texts(item, "summary");
    let mut more = collect_texts(item, "content");
    let ghost (first, second) = (parts.deep_view(), more.deep_view());
    parts.append(&mut more);
    assert(parts.deep_view() =~= first + second);
    join(&parts, "\n")
}

/// What the output of a response adds up to.
pub fn message_from_response_output(response: &Json) -> (result: (String, String, Vec<ChatToolCall>))
    ensures
        (GatheredOutput {
            content: result.0@,
            reasoning: result.1@,
            calls: result.2.deep_view(),
        }) == response_output(response.deep_view()),
{
    broadcast use lemma_array_model;

    let mut content = String::new();
    let mut reasoning = String::new();
    let mut tool_calls: Vec<ChatToolCall> = Vec::new();
    assert(tool_calls.deep_view() =~= Seq::<ChatToolCallView>::empty());
    if let Some(Json::Array(items)) = response.get("output") {
        let ghost models = items.deep_view();
        for index in 0..items.len()
            invariant
                models == items.deep_view(),
                (GatheredOutput {
                    content: content@,
                    reasoning: reasoning@,
                    calls: tool_calls.deep_view(),
                }) == gathered(models, index as int),
        {
            assert(models[index as int] == items@[index as int].deep_view());
            let item = &items[index];
            let (is_message, is_reasoning) = match item.get_str("type") {
                Some(kind) => (same_text(kind, "message"), same_text(kind, "reasoning")),
                None => (false, false),
            };
            if is_message {
                content.push_str(message_item_text(item).as_str());
            } else if is_reasoning {
                reasoning.push_str(reasoning_item_text(item).as_str());
            } else if let Some(mut call) = tool_call_from_item(item) {
                let ghost before = tool_calls.deep_view();
                call.index = Some(tool_calls.len());
                let ghost added = call.deep_view();
                tool_calls.push(call);
                assert(tool_calls.deep_view() =~= before.push(added));
            }
        }
    }
    (content, reasoning, tool_calls)
}

fn make_message_json(content: String, reasoning: String, calls: &Vec<ChatToolCall>) -> (result: Json)
    ensures
        result.deep_view() == message_json(
            GatheredOutput {
                content: content@,
                reasoning: reasoning@,
                calls: calls.deep_view(),
            },
        ),
{
    broadcast use lemma_object_model;

    let has_tool_calls = calls.len() > 0;
    let mut entries: JsonMap = Vec::new();
    set_entry(&mut entries, "role".to_string(), json_text("assistant"));
    if !(content.is_empty() && has_tool_calls) {
        set_entry(&mut entries, "content".to_string(), Json::Text(content));
    }
    if !reasoning.is_empty() {
        set_entry(&mut entries, "reasoning_content".to_string(), Json::Text(reasoning));
    }
    if has_tool_calls {
        set_entry(&mut entries, "tool_calls".to_string(), make_tool_calls_json(calls));
    }
    Json::Object(entries)
}

/// A response as a whole chat completion.
pub fn chat_completion_response_from_response(
    model_hint: &str,
    response: &Json,
    now: i64,
    fresh: &str,
) -> (result: Json)
    ensures
        result.deep_view() == completion(model_hint@, response.deep_view(), now, fresh@),
{
    broadcast use lemma_array_model, lemma_object_model;

    let (content, reasoning, tool_calls) = message_from_response_output(response);
    let finish_reason = finish_reason_from_response_value(response, tool_calls.len() > 0);
    let message = make_message_json(content, reasoning, &tool_calls);
    let created: i64 = match get_signed(response, "created_at") {
        Some(created) => created,
        None => now,
    };
    let id = match response.get_str("id") {
        Some(id) => id.to_string(),
        None => item_id("chatcmpl", fresh),
    };
    let mut choice: JsonMap = Vec::new();
    set_entry(&mut choice, "index".to_string(), Json::Num(JsonNumber::Unsigned(0)));
    set_entry(&mut choice, "message".to_string(), message);
    set_entry(&mut choice, "finish_reason".to_string(), Json::Text(finish_reason));
    let choice = Json::Object(choice);
    let ghost choice_model = choice.deep_view();
    let choices = vec![choice];
    assert(choices.deep_view() =~= seq![choice_model]);
    let mut entries: JsonMap = Vec::new();
    set_entry(&mut entries, "id".to_string(), Json::Text(id));
    set_entry(&mut entries, "object".to_string(), json_text("chat.completion"));
    set_entry(&mut entries, "created".to_string(), json_i64(created));
    set_entry(
        &mut entries,
        "model".to_string(),
        Json::Text(get_text_or(response, "model", model_hint).to_string()),
    );
    set_entry(&mut entries, "choices".to_string(), Json::Array(choices));
    if let Some(usage) = response_value_usage(response) {
        set_entry(&mut entries, "usage".to_string(), make_usage_json(&usage));
    }
    Json::Object(entries)
}

impl ChatCompletionCollectorView {
    /// The collector after one event.
    pub open spec fn after(self, event: SseEventView) -> Self {
        if event.event == "response.completed"@ || event.event == "response.incomplete"@ {
            ChatCompletionCollectorView { final_response: event.data.get("response"@), ..self }
        } else if event.event == "response.failed"@ {
            ChatCompletionCollectorView { error: Some(error_message(event.data)), ..self }
        } else {
            self
        }
    }

    /// The whole completion, or why there is none.
    pub open spec fn response(self, now: i64, fresh: Seq<char>) -> Result<JsonView, AppErrorView> {
        match self.error {
            Some(error) => Err(upstream_error(error)),
            None => match self.final_response {
                None => Err(
                    upstream_error("stream ended before a final response resource was emitted"@),
                ),
                Some(response) => Ok(completion(self.model, response, now, fresh)),
            },
        }
    }
}

impl ChatCompletionCollector {
    pub fn new(model: String) -> (result: Self)
        ensures
            result.deep_view() == (ChatCompletionCollectorView {
                model: model@,
                final_response: None,
                error: None,
            }),
    {
        ChatCompletionCollector { model, final_response: None, error: None }
    }

    /// Takes in one event.
    pub fn process(&mut self, event: &SseEvent)
        ensures
            final(self).deep_view() == old(self).deep_view().after(event.deep_view()),
    {
        let name = event.event.as_str();
        if same_text(name, "response.completed") || same_text(name, "response.incomplete") {
            self.final_response = match event.data.get("response") {
                Some(response) => Some(response.duplicate()),
                None => None,
            };
        } else if same_text(name, "response.failed") {
            self.error = Some(response_error_message(&event.data));
        }
    }

    /// The whole completion. What the response leaves open is taken from the arguments.
    pub fn into_response_at(self, now: i64, fresh: &str) -> (result: AppResult<Json>)
        ensures
            outcome(result) == self.deep_view().response(now, fresh@),
    {
        if let Some(error) = self.error {
            return Err(AppError::upstream(error));
        }
        match &self.final_response {
            None => Err(
                AppError::upstream(
                    "stream ended before a final response resource was emitted".to_string(),
                ),
            ),
            Some(response) => Ok(
                chat_completion_response_from_response(
                    self.model.as_str(),
                    response,
                    now,
                    fresh,
                ),
            ),
        }
    }

    /// The whole completion.
    pub fn into_response(self) -> (result: AppResult<Json>)
        ensures
            exists|now: i64, fresh: Seq<char>|
                #![trigger self.deep_view().response(now, fresh)]
                is_simple_uuid(fresh) && outcome(result) == self.deep_view().response(now, fresh),
    {
        let now: i64 = current_unix_timestamp();
        let fresh = fresh_id();
        self.into_response_at(now, fresh.as_str())
    }
}

// ---------------------------------------------------------------------------------------------
// Laws
// ---------------------------------------------------------------------------------------------

/// No tool call is shown twice, and calls that have been shown keep their numbers.
pub proof fn law_calls_are_shown_once(
    converter: ChatCompletionStreamConverterView,
    event: SseEventView,
    fresh: ChunkIdsView,
)
    requires
        converter.emitted_tool_calls.no_duplicates(),
    ensures
        ({
            let after = (ChatStream { converter, events: Seq::empty() }).after(
                event,
                fresh,
            ).converter.emitted_tool_calls;
            &&& after.no_duplicates()
            &&& converter.emitted_tool_calls.is_prefix_of(after)
            &&& after.len() <= converter.emitted_tool_calls.len() + 1
        }),
{
    let before = converter.emitted_tool_calls;
    let after = (ChatStream { converter, events: Seq::empty() }).after(
        event,
        fresh,
    ).converter.emitted_tool_calls;
    assert(before == after || (after == before.push(after.last()) && !before.contains(
        after.last(),
    )));
    if before != after {
        assert(before =~= after.take(before.len() as int));
        assert forall|i: int, j: int| 0 <= i < after.len() && 0 <= j < after.len() && i != j implies after[i]
            != after[j] by {
            if i < before.len() && j < before.len() {
                assert(before[i] != before[j]);
            } else if i < before.len() {
                assert(before[i] == after[i]);
            } else {
                assert(before[j] == after[j]);
            }
        }
    } else {
        assert(before =~= after.take(before.len() as int));
    }
}

/// Whatever ends a response ends the stream with the mark that no more will come.
pub proof fn law_terminal_events_end_the_stream(
    converter: ChatCompletionStreamConverterView,
    data: JsonView,
    fresh: ChunkIdsView,
)
    ensures
        (ChatStream { converter, events: Seq::empty() }).completed(data, fresh).events.last()
            == ChatSseEventView::Done,
        (ChatStream { converter, events: Seq::empty() }).failed(data).events.last()
            == ChatSseEventView::Done,
{
}

/// The role is announced in front of everything else, and only once.
pub proof fn law_role_is_announced_once(stream: ChatStream, fresh: ChunkIdsView)
    ensures
        stream.begun(fresh).converter.role_sent,
        stream.begun(fresh).begun(fresh) == stream.begun(fresh),
        stream.converter.role_sent ==> stream.begun(fresh) == stream,
        !stream.converter.role_sent ==> stream.begun(fresh).events.len() == stream.events.len() + 1,
{
}

} // verus!
