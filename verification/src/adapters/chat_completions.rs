//! A request of the Chat Completions API as a request of the Responses API.
use vstd::prelude::*;

use crate::duplicate::Duplicate;
use crate::error::{bad_request, outcome, AppError, AppErrorView, AppResult};
use crate::ids::{are_simple_uuids, fresh_id, fresh_ids, is_simple_uuid, item_id, prefixed_id};
use crate::json::{
    json_empty_object, json_object2, json_rendered, json_text, lemma_array_model, render_json,
    Json, JsonView,
};
use crate::models::chat::{
    ChatCompletionRequest, ChatCompletionRequestView, ChatMessage, ChatMessageView, ChatTool,
    ChatToolCall, ChatToolCallView, ChatToolView,
};
use crate::models::responses::{
    ContentItem, ContentItemView, ReasoningContentItem, ReasoningContentItemView, ReasoningRequest,
    ReasoningRequestView, ReasoningSummaryItem, ReasoningSummaryItemView, ResponseItem,
    ResponseItemView, ResponsesRequest, ResponsesRequestView, TextControls, TextControlsView,
    TextFormat, TextFormatView, ToolSpec, ToolSpecView,
};
use crate::sorting::{sort_by_name, sorted_by_name, Named};
use crate::text::{join, joined, same_text, trimmed};

pub mod content_laws;
pub mod request_laws;
pub mod stream;
pub mod stream_laws;

verus! {

// ---------------------------------------------------------------------------------------------
// Contents
// ---------------------------------------------------------------------------------------------

/// The text of an optional text.
pub fn owned_text(text: Option<&str>) -> (result: Option<String>)
    ensures
        result.deep_view() == text.deep_view(),
{
    match text {
        Some(inner) => Some(inner.to_string()),
        None => None,
    }
}

/// A text as the role that says it has it.
pub open spec fn text_content(role: Seq<char>, text: Seq<char>) -> ContentItemView {
    if role == "assistant"@ {
        ContentItemView::OutputText { text }
    } else {
        ContentItemView::InputText { text }
    }
}

/// The address of an image: as a text, inside an object, or beside it.
pub open spec fn image_url(object: JsonView) -> Option<Seq<char>> {
    let inner = match object.get("image_url"@) {
        Some(JsonView::Text(url)) => Some(url),
        Some(value) => value.get_str("url"@),
        None => None,
    };
    if inner is Some {
        inner
    } else {
        object.get_str("url"@)
    }
}

/// How closely an image is to be looked at.
pub open spec fn image_detail(object: JsonView) -> Option<Seq<char>> {
    if object.get_str("detail"@) is Some {
        object.get_str("detail"@)
    } else {
        match object.get("image_url"@) {
            Some(value) => value.get_str("detail"@),
            None => None,
        }
    }
}

/// A part of a chat message in the words of the Responses API. The assistant can only have said
/// texts, so a part of another kind becomes its JSON text.
pub open spec fn part_content(role: Seq<char>, part: JsonView) -> Option<ContentItemView> {
    let kind = part.get_str("type"@);
    let as_text = text_content(role, json_rendered(part));
    if !(part is Object) {
        None
    } else if kind == Some("image_url"@) {
        match image_url(part) {
            None => None,
            Some(url) => if role == "assistant"@ {
                Some(as_text)
            } else {
                Some(
                    ContentItemView::InputImage {
                        image_url: Some(url),
                        file_id: None,
                        detail: image_detail(part),
                    },
                )
            },
        }
    } else if kind == Some("text"@) || kind == Some("input_text"@) || kind == Some(
        "output_text"@,
    ) {
        match part.get_str("text"@) {
            Some(text) => Some(text_content(role, text)),
            None => None,
        }
    } else if role == "assistant"@ {
        Some(as_text)
    } else if kind == Some("input_image"@) {
        Some(
            ContentItemView::InputImage {
                image_url: image_url(part),
                file_id: part.get_str("file_id"@),
                detail: image_detail(part),
            },
        )
    } else if kind == Some("input_file"@) {
        Some(
            ContentItemView::InputFile {
                file_id: part.get_str("file_id"@),
                file_url: part.get_str("file_url"@),
                filename: part.get_str("filename"@),
                file_data: part.get_str("file_data"@),
            },
        )
    } else {
        Some(ContentItemView::Other(part))
    }
}

/// The first `count` parts of a chat message that have a form in the Responses API.
pub open spec fn part_contents(role: Seq<char>, parts: Seq<JsonView>, count: int) -> Seq<
    ContentItemView,
>
    decreases count,
{
    if count <= 0 {
        Seq::empty()
    } else {
        match part_content(role, parts[count - 1]) {
            Some(content) => part_contents(role, parts, count - 1).push(content),
            None => part_contents(role, parts, count - 1),
        }
    }
}

/// The content of a chat message in the words of the Responses API.
pub open spec fn response_content(role: Seq<char>, content: Option<JsonView>) -> Seq<
    ContentItemView,
> {
    match content {
        None => Seq::empty(),
        Some(JsonView::Null) => Seq::empty(),
        Some(JsonView::Text(text)) => seq![text_content(role, text)],
        Some(JsonView::Array(parts)) => part_contents(role, parts, parts.len() as int),
        Some(other) => seq![text_content(role, json_rendered(other))],
    }
}

fn text_content_item(role: &str, text: String) -> (result: ContentItem)
    ensures
        result.deep_view() == text_content(role@, text@),
{
    if same_text(role, "assistant") {
        ContentItem::OutputText { text }
    } else {
        ContentItem::InputText { text }
    }
}

fn extract_image_url(object: &Json) -> (result: Option<String>)
    ensures
        result.deep_view() == image_url(object.deep_view()),
{
    let inner = match object.get("image_url") {
        Some(Json::Text(url)) => Some(url.clone()),
        Some(value) => owned_text(value.get_str("url")),
        None => None,
    };
    if inner.is_some() {
        inner
    } else {
        owned_text(object.get_str("url"))
    }
}

fn extract_image_detail(object: &Json) -> (result: Option<String>)
    ensures
        result.deep_view() == image_detail(object.deep_view()),
{
    let own = optional_string(object, "detail");
    if own.is_some() {
        return own;
    }
    match object.get("image_url") {
        Some(value) => optional_string(value, "detail"),
        None => None,
    }
}

fn optional_string(object: &Json, key: &str) -> (result: Option<String>)
    ensures
        result.deep_view() == object.deep_view().get_str(key@),
{
    owned_text(object.get_str(key))
}

fn has_type(part: &Json, kind: &str) -> (result: bool)
    ensures
        result == (part.deep_view().get_str("type"@) == Some(kind@)),
{
    match part.get_str("type") {
        Some(given) => same_text(given, kind),
        None => false,
    }
}

/// A part of a chat message in the words of the Responses API.
pub fn chat_content_part_to_response_content(role: &str, part: &Json) -> (result: Option<
    ContentItem,
>)
    ensures
        result.deep_view() == part_content(role@, part.deep_view()),
{
    if !matches!(part, Json::Object(_)) {
        return None;
    }
    let is_assistant = same_text(role, "assistant");
    if has_type(part, "image_url") {
        match extract_image_url(part) {
            None => None,
            Some(url) => if is_assistant {
                Some(text_content_item(role, render_json(part)))
            } else {
                Some(
                    ContentItem::InputImage {
                        image_url: Some(url),
                        file_id: None,
                        detail: extract_image_detail(part),
                    },
                )
            },
        }
    } else if has_type(part, "text") || has_type(part, "input_text") || has_type(
        part,
        "output_text",
    ) {
        match part.get_str("text") {
            Some(text) => Some(text_content_item(role, text.to_string())),
            None => None,
        }
    } else if is_assistant {
        Some(text_content_item(role, render_json(part)))
    } else if has_type(part, "input_image") {
        Some(
            ContentItem::InputImage {
                image_url: extract_image_url(part),
                file_id: optional_string(part, "file_id"),
                detail: extract_image_detail(part),
            },
        )
    } else if has_type(part, "input_file") {
        Some(
            ContentItem::InputFile {
                file_id: optional_string(part, "file_id"),
                file_url: optional_string(part, "file_url"),
                filename: optional_string(part, "filename"),
                file_data: optional_string(part, "file_data"),
            },
        )
    } else {
        Some(ContentItem::Other(part.duplicate()))
    }
}

/// The content of a chat message in the words of the Responses API.
pub fn chat_content_to_response_content(role: &str, content: &Option<Json>) -> (result: Vec<
    ContentItem,
>)
    ensures
        result.deep_view() == response_content(role@, content.deep_view()),
{
    broadcast use lemma_array_model;

    let mut result: Vec<ContentItem> = Vec::new();
    assert(result.deep_view() =~= Seq::<ContentItemView>::empty());
    match content {
        None => {},
        Some(Json::Null) => {},
        Some(Json::Text(text)) => {
            result.push(text_content_item(role, text.clone()));
            assert(result.deep_view() =~= seq![text_content(role@, text@)]);
        },
        Some(Json::Array(parts)) => {
            let ghost models = parts.deep_view();
            for index in 0..parts.len()
                invariant
                    models == parts.deep_view(),
                    result.deep_view() == part_contents(role@, models, index as int),
            {
                let ghost before = result.deep_view();
                assert(models[index as int] == parts@[index as int].deep_view());
                match chat_content_part_to_response_content(role, &parts[index]) {
                    Some(item) => {
                        let ghost added = item.deep_view();
                        result.push(item);
                        assert(result.deep_view() =~= before.push(added));
                    },
                    None => {},
                }
            }
        },
        Some(other) => {
            let text = render_json(other);
            let ghost rendered = text@;
            result.push(text_content_item(role, text));
            assert(result.deep_view() =~= seq![text_content(role@, rendered)]);
        },
    }
    result
}

// ---------------------------------------------------------------------------------------------
// Tool outputs and tool calls
// ---------------------------------------------------------------------------------------------

/// The text of a part of a tool output: its text, or else its JSON text; null has none.
pub open spec fn part_text(part: JsonView) -> Option<Seq<char>> {
    match part.get_str("text"@) {
        Some(text) => Some(text),
        None => if part == JsonView::Null {
            None
        } else {
            Some(json_rendered(part))
        },
    }
}

/// The texts of the first `count` parts of a tool output.
pub open spec fn part_texts(parts: Seq<JsonView>, count: int) -> Seq<Seq<char>>
    decreases count,
{
    if count <= 0 {
        Seq::empty()
    } else {
        match part_text(parts[count - 1]) {
            Some(text) => part_texts(parts, count - 1).push(text),
            None => part_texts(parts, count - 1),
        }
    }
}

/// The output of a tool: parts become their texts, one to a line, unless that leaves nothing.
pub open spec fn tool_output(content: Option<JsonView>) -> JsonView {
    match content {
        None => JsonView::Null,
        Some(JsonView::Array(parts)) => {
            let text = joined(part_texts(parts, parts.len() as int), "\n"@);
            if text.len() == 0 {
                JsonView::Array(parts)
            } else {
                JsonView::Text(text)
            }
        },
        Some(value) => value,
    }
}

fn chat_content_part_text(part: &Json) -> (result: Option<String>)
    ensures
        result.deep_view() == part_text(part.deep_view()),
{
    if let Some(text) = part.get_str("text") {
        return Some(text.to_string());
    }
    if part.is_null() {
        None
    } else {
        Some(render_json(part))
    }
}

/// The output of a tool.
pub fn tool_output_value(content: &Option<Json>) -> (result: Json)
    ensures
        result.deep_view() == tool_output(content.deep_view()),
{
    broadcast use lemma_array_model;

    match content {
        None => Json::Null,
        Some(Json::Array(parts)) => {
            let ghost models = parts.deep_view();
            let mut texts: Vec<String> = Vec::new();
            assert(texts.deep_view() =~= Seq::<Seq<char>>::empty());
            for index in 0..parts.len()
                invariant
                    models == parts.deep_view(),
                    texts.deep_view() == part_texts(models, index as int),
            {
                let ghost before = texts.deep_view();
                assert(models[index as int] == parts@[index as int].deep_view());
                match chat_content_part_text(&parts[index]) {
                    Some(text) => {
                        let ghost added = text@;
                        texts.push(text);
                        assert(texts.deep_view() =~= before.push(added));
                    },
                    None => {},
                }
            }
            let text = join(&texts, "\n");
            if text.is_empty() {
                Json::Array(parts.duplicate())
            } else {
                Json::Text(text)
            }
        },
        Some(value) => value.duplicate(),
    }
}

/// The arguments of a tool call as text; a blank text is the empty object.
pub open spec fn arguments_string(arguments: Option<JsonView>) -> Seq<char> {
    match arguments {
        None => "{}"@,
        Some(JsonView::Text(text)) => if trimmed(text).len() == 0 {
            "{}"@
        } else {
            text
        },
        Some(value) => json_rendered(value),
    }
}

/// The arguments of a tool call as text.
pub fn arguments_to_string(arguments: &Option<Json>) -> (result: String)
    ensures
        result@ == arguments_string(arguments.deep_view()),
{
    match arguments {
        None => "{}".to_string(),
        Some(Json::Text(text)) => if text.as_str().trim().is_empty() {
            "{}".to_string()
        } else {
            text.clone()
        },
        Some(value) => render_json(value),
    }
}

/// A tool call of the assistant. One without an id gets `fresh`.
pub open spec fn call_item(call: ChatToolCallView, fresh: Seq<char>) -> Result<
    ResponseItemView,
    AppErrorView,
> {
    match call.function.name {
        None => Err(bad_request("Chat assistant tool_call is missing function name"@)),
        Some(name) => Ok(
            ResponseItemView::FunctionCall {
                id: None,
                name,
                namespace: None,
                arguments: arguments_string(call.function.arguments),
                call_id: match call.id {
                    Some(id) => id,
                    None => prefixed_id("call"@, fresh),
                },
            },
        ),
    }
}

/// The first `count` tool calls of a message, or the error of the first that has one.
pub open spec fn call_items(
    calls: Seq<ChatToolCallView>,
    fresh: Seq<Seq<char>>,
    count: int,
) -> Result<Seq<ResponseItemView>, AppErrorView>
    decreases count,
{
    if count <= 0 {
        Ok(Seq::empty())
    } else {
        match call_items(calls, fresh, count - 1) {
            Err(error) => Err(error),
            Ok(before) => match call_item(calls[count - 1], fresh[count - 1]) {
                Err(error) => Err(error),
                Ok(item) => Ok(before.push(item)),
            },
        }
    }
}

/// A tool call of the assistant.
pub fn chat_tool_call_to_response_item(tool_call: &ChatToolCall, fresh: &str) -> (result: AppResult<
    ResponseItem,
>)
    ensures
        outcome(result) == call_item(tool_call.deep_view(), fresh@),
{
    match &tool_call.function.name {
        None => Err(
            AppError::bad_request("Chat assistant tool_call is missing function name".to_string()),
        ),
        Some(name) => {
            let call_id = match &tool_call.id {
                Some(id) => id.clone(),
                None => item_id("call", fresh),
            };
            Ok(
                ResponseItem::FunctionCall {
                    id: None,
                    name: name.clone(),
                    namespace: None,
                    arguments: arguments_to_string(&tool_call.function.arguments),
                    call_id,
                },
            )
        },
    }
}

// ---------------------------------------------------------------------------------------------
// Messages
// ---------------------------------------------------------------------------------------------

/// Fresh ids for the items that a message may turn into.
#[derive(Debug, PartialEq)]
pub struct MessageIds {
    pub reasoning: String,
    pub calls: Vec<String>,
}

/// The model of [`MessageIds`].
pub struct MessageIdsView {
    pub reasoning: Seq<char>,
    pub calls: Seq<Seq<char>>,
}

impl DeepView for MessageIds {
    type V = MessageIdsView;

    open spec fn deep_view(&self) -> MessageIdsView {
        MessageIdsView { reasoning: self.reasoning@, calls: self.calls.deep_view() }
    }
}

/// The tool calls of a message.
pub open spec fn calls_of(message: ChatMessageView) -> Seq<ChatToolCallView> {
    match message.tool_calls {
        Some(calls) => calls,
        None => Seq::empty(),
    }
}

/// The reasoning of a message as an item, where there is any.
pub open spec fn reasoning_items(message: ChatMessageView, fresh: Seq<char>) -> Seq<
    ResponseItemView,
> {
    match message.reasoning_content {
        Some(text) => if text.len() > 0 {
            seq![
                ResponseItemView::Reasoning {
                    id: prefixed_id("rsn"@, fresh),
                    summary: Seq::empty(),
                    content: Some(seq![ReasoningContentItemView::ReasoningText { text }]),
                    encrypted_content: None,
                },
            ]
        } else {
            Seq::empty()
        },
        None => Seq::empty(),
    }
}

/// What a message says, as an item.
pub open spec fn said_item(message: ChatMessageView) -> ResponseItemView {
    ResponseItemView::Message {
        id: None,
        role: message.role,
        content: response_content(message.role, message.content),
        phase: None,
    }
}

/// The items for a message.
pub open spec fn message_items(message: ChatMessageView, fresh: MessageIdsView) -> Result<
    Seq<ResponseItemView>,
    AppErrorView,
> {
    if message.role == "tool"@ || message.role == "function"@ {
        let call_id = if message.tool_call_id is Some {
            message.tool_call_id
        } else {
            message.name
        };
        match call_id {
            None => Err(bad_request("Chat tool message is missing tool_call_id"@)),
            Some(call_id) => Ok(
                seq![
                    ResponseItemView::FunctionCallOutput {
                        call_id,
                        output: tool_output(message.content),
                    },
                ],
            ),
        }
    } else if message.role == "assistant"@ {
        let reasoning = reasoning_items(message, fresh.reasoning);
        let said = if response_content(message.role, message.content).len() > 0 {
            seq![said_item(message)]
        } else {
            Seq::empty()
        };
        match call_items(calls_of(message), fresh.calls, calls_of(message).len() as int) {
            Err(error) => Err(error),
            Ok(calls) => Ok(reasoning + said + calls),
        }
    } else {
        Ok(seq![said_item(message)])
    }
}

/// The items for the first `count` messages, or the error of the first that has one.
pub open spec fn conversation_items(
    messages: Seq<ChatMessageView>,
    fresh: Seq<MessageIdsView>,
    count: int,
) -> Result<Seq<ResponseItemView>, AppErrorView>
    decreases count,
{
    if count <= 0 {
        Ok(Seq::empty())
    } else {
        match conversation_items(messages, fresh, count - 1) {
            Err(error) => Err(error),
            Ok(before) => match message_items(messages[count - 1], fresh[count - 1]) {
                Err(error) => Err(error),
                Ok(items) => Ok(before + items),
            },
        }
    }
}

/// Whether `fresh` has an id for each item that the messages may turn into.
pub open spec fn ids_cover(messages: Seq<ChatMessageView>, fresh: Seq<MessageIdsView>) -> bool {
    &&& fresh.len() == messages.len()
    &&& forall|m: int|
        0 <= m < messages.len() ==> (#[trigger] fresh[m]).calls.len() == calls_of(messages[m]).len()
}

/// Whether all the ids are fresh ones.
pub open spec fn ids_are_fresh(fresh: Seq<MessageIdsView>) -> bool {
    forall|m: int|
        0 <= m < fresh.len() ==> is_simple_uuid((#[trigger] fresh[m]).reasoning)
            && are_simple_uuids(fresh[m].calls)
}

proof fn lemma_call_error_stays(
    calls: Seq<ChatToolCallView>,
    fresh: Seq<Seq<char>>,
    count: int,
    upto: int,
)
    requires
        0 <= upto <= count,
        call_items(calls, fresh, upto) is Err,
    ensures
        call_items(calls, fresh, count) == call_items(calls, fresh, upto),
    decreases count,
{
    if upto < count {
        lemma_call_error_stays(calls, fresh, count - 1, upto);
    }
}

proof fn lemma_conversation_error_stays(
    messages: Seq<ChatMessageView>,
    fresh: Seq<MessageIdsView>,
    count: int,
    upto: int,
)
    requires
        0 <= upto <= count,
        conversation_items(messages, fresh, upto) is Err,
    ensures
        conversation_items(messages, fresh, count) == conversation_items(messages, fresh, upto),
    decreases count,
{
    if upto < count {
        lemma_conversation_error_stays(messages, fresh, count - 1, upto);
    }
}

fn convert_calls(message: &ChatMessage, fresh: &Vec<String>) -> (result: AppResult<
    Vec<ResponseItem>,
>)
    requires
        fresh@.len() == calls_of(message.deep_view()).len(),
    ensures
        outcome(result) == call_items(
            calls_of(message.deep_view()),
            fresh.deep_view(),
            calls_of(message.deep_view()).len() as int,
        ),
{
    let mut items: Vec<ResponseItem> = Vec::new();
    assert(items.deep_view() =~= Seq::<ResponseItemView>::empty());
    if let Some(tool_calls) = &message.tool_calls {
        let ghost calls = tool_calls.deep_view();
        let ghost ids = fresh.deep_view();
        for index in 0..tool_calls.len()
            invariant
                calls == tool_calls.deep_view(),
                calls == calls_of(message.deep_view()),
                ids == fresh.deep_view(),
                ids.len() == calls.len(),
                call_items(calls, ids, index as int) == Ok::<Seq<ResponseItemView>, AppErrorView>(
                    items.deep_view(),
                ),
        {
            let ghost before = items.deep_view();
            assert(calls[index as int] == tool_calls@[index as int].deep_view());
            assert(ids[index as int] == fresh@[index as int]@);
            match chat_tool_call_to_response_item(&tool_calls[index], fresh[index].as_str()) {
                Ok(item) => {
                    let ghost added = item.deep_view();
                    items.push(item);
                    assert(items.deep_view() =~= before.push(added));
                },
                Err(error) => {
                    proof {
                        lemma_call_error_stays(calls, ids, calls.len() as int, index + 1);
                    }
                    return Err(error);
                },
            }
        }
    }
    Ok(items)
}

fn say(message: &ChatMessage, content: Vec<ContentItem>) -> (result: ResponseItem)
    requires
        content.deep_view() == response_content(
            message.deep_view().role,
            message.deep_view().content,
        ),
    ensures
        result.deep_view() == said_item(message.deep_view()),
{
    ResponseItem::Message { id: None, role: message.role.clone(), content, phase: None }
}

/// The items for a message. Items without an id get theirs from `fresh`.
pub fn convert_message(message: &ChatMessage, fresh: &MessageIds) -> (result: AppResult<
    Vec<ResponseItem>,
>)
    requires
        fresh.deep_view().calls.len() == calls_of(message.deep_view()).len(),
    ensures
        outcome(result) == message_items(message.deep_view(), fresh.deep_view()),
{
    let role = message.role.as_str();
    let mut items: Vec<ResponseItem> = Vec::new();
    assert(items.deep_view() =~= Seq::<ResponseItemView>::empty());
    if same_text(role, "tool") || same_text(role, "function") {
        let call_id = match &message.tool_call_id {
            Some(id) => id.clone(),
            None => match &message.name {
                Some(name) => name.clone(),
                None => {
                    return Err(
                        AppError::bad_request(
                            "Chat tool message is missing tool_call_id".to_string(),
                        ),
                    );
                },
            },
        };
        let item = ResponseItem::FunctionCallOutput {
            call_id,
            output: tool_output_value(&message.content),
        };
        let ghost added = item.deep_view();
        items.push(item);
        assert(items.deep_view() =~= seq![added]);
        return Ok(items);
    }
    let content = chat_content_to_response_content(role, &message.content);
    if !same_text(role, "assistant") {
        items.push(say(message, content));
        assert(items.deep_view() =~= seq![said_item(message.deep_view())]);
        return Ok(items);
    }
    if let Some(text) = &message.reasoning_content {
        if !text.is_empty() {
            let summary: Vec<ReasoningSummaryItem> = Vec::new();
            let parts = vec![ReasoningContentItem::ReasoningText { text: text.clone() }];
            assert(summary.deep_view() =~= Seq::<ReasoningSummaryItemView>::empty());
            assert(parts.deep_view() =~= seq![
                ReasoningContentItemView::ReasoningText { text: text@ },
            ]);
            items.push(
                ResponseItem::Reasoning {
                    id: item_id("rsn", fresh.reasoning.as_str()),
                    summary,
                    content: Some(parts),
                    encrypted_content: None,
                },
            );
        }
    }
    let ghost reasoning = reasoning_items(message.deep_view(), fresh.deep_view().reasoning);
    assert(items.deep_view() =~= reasoning);
    let ghost said = if content@.len() > 0 {
        seq![said_item(message.deep_view())]
    } else {
        Seq::empty()
    };
    if content.len() > 0 {
        items.push(say(message, content));
    }
    assert(items.deep_view() =~= reasoning + said);
    match convert_calls(message, &fresh.calls) {
        Ok(mut calls) => {
            let ghost added = calls.deep_view();
            items.append(&mut calls);
            assert(items.deep_view() =~= reasoning + said + added);
            Ok(items)
        },
        Err(error) => Err(error),
    }
}

/// The items for a conversation.
pub fn convert_messages(messages: &Vec<ChatMessage>, fresh: &Vec<MessageIds>) -> (result: AppResult<
    Vec<ResponseItem>,
>)
    requires
        ids_cover(messages.deep_view(), fresh.deep_view()),
    ensures
        outcome(result) == conversation_items(
            messages.deep_view(),
            fresh.deep_view(),
            messages@.len() as int,
        ),
{
    let ghost models = messages.deep_view();
    let ghost ids = fresh.deep_view();
    let mut items: Vec<ResponseItem> = Vec::new();
    assert(items.deep_view() =~= Seq::<ResponseItemView>::empty());
    for index in 0..messages.len()
        invariant
            models == messages.deep_view(),
            ids == fresh.deep_view(),
            ids_cover(models, ids),
            conversation_items(models, ids, index as int) == Ok::<
                Seq<ResponseItemView>,
                AppErrorView,
            >(items.deep_view()),
    {
        let ghost before = items.deep_view();
        assert(models[index as int] == messages@[index as int].deep_view());
        assert(ids[index as int] == fresh@[index as int].deep_view());
        match convert_message(&messages[index], &fresh[index]) {
            Ok(mut added) => {
                let ghost extra = added.deep_view();
                items.append(&mut added);
                assert(items.deep_view() =~= before + extra);
            },
            Err(error) => {
                proof {
                    lemma_conversation_error_stays(models, ids, models.len() as int, index + 1);
                }
                return Err(error);
            },
        }
    }
    Ok(items)
}

// ---------------------------------------------------------------------------------------------
// Tools and formats
// ---------------------------------------------------------------------------------------------

impl Named for ToolSpec {
    open spec fn name_of(model: ToolSpecView) -> Seq<char> {
        match model {
            ToolSpecView::Function { name, description, strict, parameters } => name,
            ToolSpecView::Namespace { name, description, tools } => name,
            ToolSpecView::ToolSearch { execution, description, parameters } => "tool_search"@,
            ToolSpecView::LocalShell => "local_shell"@,
            ToolSpecView::WebSearch {
                external_web_access,
                filters,
                user_location,
                search_context_size,
                search_content_types,
            } => "web_search"@,
            ToolSpecView::Custom { name, description, format } => name,
            ToolSpecView::ImageGeneration { output_format } => "image_generation"@,
        }
    }

    fn name(&self) -> (result: &str) {
        match self {
            ToolSpec::Function { name, .. } => name.as_str(),
            ToolSpec::Namespace { name, .. } => name.as_str(),
            ToolSpec::ToolSearch { .. } => "tool_search",
            ToolSpec::LocalShell => "local_shell",
            ToolSpec::WebSearch { .. } => "web_search",
            ToolSpec::Custom { name, .. } => name.as_str(),
            ToolSpec::ImageGeneration { .. } => "image_generation",
        }
    }
}

/// A chat tool in the words of the Responses API. The search tool runs on the server.
pub open spec fn tool_spec(tool: ChatToolView) -> ToolSpecView {
    if tool.kind == "function"@ && tool.function.name == "web_search"@ {
        ToolSpecView::WebSearch {
            external_web_access: Some(true),
            filters: None,
            user_location: None,
            search_context_size: None,
            search_content_types: None,
        }
    } else {
        ToolSpecView::Function {
            name: tool.function.name,
            description: tool.function.description,
            strict: tool.function.strict,
            parameters: match tool.function.parameters {
                Some(parameters) => parameters,
                None => JsonView::Object(
                    map![
                        "type"@ => JsonView::Text("object"@),
                        "properties"@ => JsonView::Object(Map::empty()),
                    ],
                ),
            },
        }
    }
}

/// The tools of a request, in the order of their names.
pub open spec fn tool_specs(tools: Option<Seq<ChatToolView>>) -> Seq<ToolSpecView> {
    sorted_by_name::<ToolSpec>(
        match tools {
            Some(tools) => tools.map_values(|tool: ChatToolView| tool_spec(tool)),
            None => Seq::empty(),
        },
    )
}

fn convert_tool(tool: &ChatTool) -> (result: ToolSpec)
    ensures
        result.deep_view() == tool_spec(tool.deep_view()),
{
    if same_text(tool.kind.as_str(), "function") && same_text(
        tool.function.name.as_str(),
        "web_search",
    ) {
        return ToolSpec::WebSearch {
            external_web_access: Some(true),
            filters: None,
            user_location: None,
            search_context_size: None,
            search_content_types: None,
        };
    }
    let parameters = match &tool.function.parameters {
        Some(parameters) => parameters.duplicate(),
        None => json_object2("type", json_text("object"), "properties", json_empty_object()),
    };
    ToolSpec::Function {
        name: tool.function.name.clone(),
        description: tool.function.description.clone(),
        strict: tool.function.strict,
        parameters,
    }
}

/// The tools of a request, in the order of their names.
pub fn convert_tools(tools: &Option<Vec<ChatTool>>) -> (result: Vec<ToolSpec>)
    ensures
        result.deep_view() == tool_specs(tools.deep_view()),
{
    let mut converted: Vec<ToolSpec> = Vec::new();
    match tools {
        Some(tools) => {
            for index in 0..tools.len()
                invariant
                    converted@.len() == index,
                    forall|k: int|
                        0 <= k < index ==> #[trigger] converted@[k].deep_view() == tool_spec(
                            tools@[k].deep_view(),
                        ),
            {
                converted.push(convert_tool(&tools[index]));
            }
            assert(converted.deep_view() =~= tools.deep_view().map_values(
                |tool: ChatToolView| tool_spec(tool),
            ));
        },
        None => {
            assert(converted.deep_view() =~= Seq::<ToolSpecView>::empty());
        },
    }
    sort_by_name(converted)
}

/// The format that a request asks for: a JSON schema, or nothing.
pub open spec fn text_controls(format: Option<JsonView>) -> Option<TextControlsView> {
    match format {
        None => None,
        Some(format) => if format.get_str("type"@) != Some("json_schema"@) {
            None
        } else {
            match format.get("json_schema"@) {
                Some(JsonView::Object(fields)) => {
                    let schema = JsonView::Object(fields);
                    Some(
                        TextControlsView {
                            verbosity: None,
                            format: Some(
                                TextFormatView {
                                    kind: "json_schema"@,
                                    strict: schema.get("strict"@) == Some(JsonView::Bool(true)),
                                    schema: match schema.get("schema"@) {
                                        Some(schema) => schema,
                                        None => JsonView::Object(Map::empty()),
                                    },
                                    name: match schema.get_str("name"@) {
                                        Some(name) => name,
                                        None => "response"@,
                                    },
                                },
                            ),
                        },
                    )
                },
                _ => None,
            }
        },
    }
}

/// The format that a request asks for.
pub fn convert_response_format(format: &Option<Json>) -> (result: Option<TextControls>)
    ensures
        result.deep_view() == text_controls(format.deep_view()),
{
    let format = match format {
        Some(format) => format,
        None => {
            return None;
        },
    };
    if !has_type(format, "json_schema") {
        return None;
    }
    let schema = match format.get("json_schema") {
        Some(schema) => schema,
        None => {
            return None;
        },
    };
    if !matches!(schema, Json::Object(_)) {
        return None;
    }
    let strict = match schema.get("strict") {
        Some(Json::Bool(strict)) => *strict,
        _ => false,
    };
    let name = match schema.get_str("name") {
        Some(name) => name.to_string(),
        None => "response".to_string(),
    };
    let inner = match schema.get("schema") {
        Some(inner) => inner.duplicate(),
        None => json_empty_object(),
    };
    Some(
        TextControls {
            verbosity: None,
            format: Some(
                TextFormat { kind: "json_schema".to_string(), strict, schema: inner, name },
            ),
        },
    )
}

// ---------------------------------------------------------------------------------------------
// The whole request
// ---------------------------------------------------------------------------------------------

/// A request of the Chat Completions API as a request of the Responses API.
pub open spec fn converted_request(
    request: ChatCompletionRequestView,
    fresh: Seq<MessageIdsView>,
) -> Result<ResponsesRequestView, AppErrorView> {
    match conversation_items(request.messages, fresh, request.messages.len() as int) {
        Err(error) => Err(error),
        Ok(input) => Ok(
            ResponsesRequestView {
                model: request.model,
                instructions: Seq::empty(),
                input,
                tools: tool_specs(request.tools),
                tool_choice: match request.tool_choice {
                    Some(choice) => choice,
                    None => JsonView::Text("auto"@),
                },
                parallel_tool_calls: request.parallel_tool_calls,
                reasoning: match request.reasoning_effort {
                    Some(effort) => Some(
                        ReasoningRequestView { effort: Some(effort), summary: None },
                    ),
                    None => None,
                },
                store: false,
                stream: true,
                included: Seq::empty(),
                service_tier: None,
                prompt_cache_key: None,
                text: text_controls(request.response_format),
                client_metadata: None,
                previous_response_id: None,
                temperature: request.temperature,
                top_p: request.top_p,
                max_output_tokens: request.max_output_tokens,
                frequency_penalty: request.frequency_penalty,
                presence_penalty: request.presence_penalty,
                truncation: None,
                metadata: None,
                stop: request.stop,
                extra_body: request.extra_body,
            },
        ),
    }
}

/// Converts a request. Items without an id get theirs from `fresh`.
pub fn convert_request_with_ids(request: ChatCompletionRequest, fresh: &Vec<MessageIds>) -> (result:
    AppResult<ResponsesRequest>)
    requires
        ids_cover(request.deep_view().messages, fresh.deep_view()),
    ensures
        outcome(result) == converted_request(request.deep_view(), fresh.deep_view()),
{
    let input = match convert_messages(&request.messages, fresh) {
        Ok(input) => input,
        Err(error) => {
            return Err(error);
        },
    };
    let tools = convert_tools(&request.tools);
    let tool_choice = match request.tool_choice {
        Some(choice) => choice,
        None => json_text("auto"),
    };
    let reasoning = match request.reasoning_effort {
        Some(effort) => Some(ReasoningRequest { effort: Some(effort), summary: None }),
        None => None,
    };
    let included: Vec<String> = Vec::new();
    assert(included.deep_view() =~= Seq::<Seq<char>>::empty());
    Ok(
        ResponsesRequest {
            model: request.model,
            instructions: String::new(),
            input,
            tools,
            tool_choice,
            parallel_tool_calls: request.parallel_tool_calls,
            reasoning,
            store: false,
            stream: true,
            included,
            service_tier: None,
            prompt_cache_key: None,
            text: convert_response_format(&request.response_format),
            client_metadata: None,
            previous_response_id: None,
            temperature: request.temperature,
            top_p: request.top_p,
            max_output_tokens: request.max_output_tokens,
            frequency_penalty: request.frequency_penalty,
            presence_penalty: request.presence_penalty,
            truncation: None,
            metadata: None,
            stop: request.stop,
            extra_body: request.extra_body,
        },
    )
}

/// Converts a request.
pub fn convert_request(request: ChatCompletionRequest) -> (result: AppResult<ResponsesRequest>)
    ensures
        exists|fresh: Seq<MessageIdsView>|
            #![trigger ids_cover(request.deep_view().messages, fresh)]
            {
                &&& ids_cover(request.deep_view().messages, fresh)
                &&& ids_are_fresh(fresh)
                &&& outcome(result) == converted_request(request.deep_view(), fresh)
            },
{
    let ghost models = request.messages.deep_view();
    let mut fresh: Vec<MessageIds> = Vec::new();
    for index in 0..request.messages.len()
        invariant
            models == request.messages.deep_view(),
            fresh@.len() == index,
            forall|m: int|
                0 <= m < index ==> {
                    let ids = (#[trigger] fresh@[m]).deep_view();
                    &&& ids.calls.len() == calls_of(models[m]).len()
                    &&& is_simple_uuid(ids.reasoning)
                    &&& are_simple_uuids(ids.calls)
                },
    {
        assert(models[index as int] == request.messages@[index as int].deep_view());
        let count: usize = match &request.messages[index].tool_calls {
            Some(calls) => calls.len(),
            None => 0,
        };
        fresh.push(MessageIds { reasoning: fresh_id(), calls: fresh_ids(count) });
    }
    proof {
        let ids = fresh.deep_view();
        assert forall|m: int| 0 <= m < models.len() implies (#[trigger] ids[m]).calls.len()
            == calls_of(models[m]).len() by {
            assert(ids[m] == fresh@[m].deep_view());
        }
        assert forall|m: int| 0 <= m < ids.len() implies is_simple_uuid((#[trigger] ids[m]).reasoning)
            && are_simple_uuids(ids[m].calls) by {
            assert(ids[m] == fresh@[m].deep_view());
        }
    }
    convert_request_with_ids(request, &fresh)
}

} // verus!
