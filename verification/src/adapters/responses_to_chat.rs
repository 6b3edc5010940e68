//! Lowering of a Responses request to a chat request.
use vstd::prelude::*;

use crate::duplicate::Duplicate;
use crate::error::{bad_request, outcome, AppError, AppErrorView, AppResult};
use crate::json::{
    json_object1, json_object2, json_object3, json_parsed, json_rendered, lemma_array_model,
    parse_json, render_json, Json, JsonNumber, JsonNumberView, JsonView,
};
use crate::models::chat::{
    ChatFunctionCall, ChatFunctionCallView, ChatMessage, ChatMessageView, ChatThinking,
    ChatThinkingView, ChatTool, ChatToolCall, ChatToolCallView, ChatToolView,
};
use crate::models::responses::{
    LocalShellAction, LocalShellActionView, ResponseItem, ResponseItemView, ResponsesRequest,
    ResponsesRequestView, TextFormat, TextFormatView,
};
use crate::text::{decimal, decimal_text, join, joined, lowered, same_text, trimmed};

use self::content::{
    chat_content, message_content_to_chat_value, plain_text, reasoning_item_text, reasoning_text,
    search_arguments, search_placeholder, stringify_tool_output, web_search_arguments,
    web_search_placeholder_result,
};
use self::tools::{
    build_tool_registry, lower_tools, lowered_tools, request_problem, tool_registry,
    validate_request, ToolKindView, ToolRegistry,
};

pub mod content;
pub mod laws;
pub mod tools;

verus! {

/// A request in the form that a chat backend takes.
#[derive(Debug, PartialEq)]
pub struct LoweredTurn {
    pub messages: Vec<ChatMessage>,
    pub tools: Vec<ChatTool>,
    pub tool_registry: ToolRegistry,
    pub response_format: Option<Json>,
    pub reasoning_effort: Option<String>,
    pub frequency_penalty: Option<JsonNumber>,
    pub presence_penalty: Option<JsonNumber>,
}

/// The model of [`LoweredTurn`].
pub struct LoweredTurnView {
    pub messages: Seq<ChatMessageView>,
    pub tools: Seq<ChatToolView>,
    pub tool_registry: Map<Seq<char>, ToolKindView>,
    pub response_format: Option<JsonView>,
    pub reasoning_effort: Option<Seq<char>>,
    pub frequency_penalty: Option<JsonNumberView>,
    pub presence_penalty: Option<JsonNumberView>,
}

impl DeepView for LoweredTurn {
    type V = LoweredTurnView;

    open spec fn deep_view(&self) -> LoweredTurnView {
        LoweredTurnView {
            messages: self.messages.deep_view(),
            tools: self.tools.deep_view(),
            tool_registry: self.tool_registry.deep_view(),
            response_format: self.response_format.deep_view(),
            reasoning_effort: self.reasoning_effort.deep_view(),
            frequency_penalty: self.frequency_penalty.deep_view(),
            presence_penalty: self.presence_penalty.deep_view(),
        }
    }
}

/// Reasoning that waits for the assistant message it belongs to.
#[derive(Debug, PartialEq)]
pub struct PendingReasoning {
    pub text: String,
    pub signature: Option<String>,
}

/// The model of [`PendingReasoning`].
pub struct PendingReasoningView {
    pub text: Seq<char>,
    pub signature: Option<Seq<char>>,
}

impl DeepView for PendingReasoning {
    type V = PendingReasoningView;

    open spec fn deep_view(&self) -> PendingReasoningView {
        PendingReasoningView {
            text: self.text@,
            signature: self.signature.deep_view(),
        }
    }
}

/// A message with nothing but a role and a content.
pub open spec fn plain_message(role: Seq<char>, content: Option<JsonView>) -> ChatMessageView {
    ChatMessageView {
        role,
        content,
        tool_call_id: None,
        name: None,
        reasoning_content: None,
        thinking: None,
        tool_calls: None,
    }
}

/// The message that carries the result of a tool call.
pub open spec fn tool_message(call_id: Option<Seq<char>>, text: Seq<char>) -> ChatMessageView {
    ChatMessageView {
        tool_call_id: call_id,
        ..plain_message("tool"@, Some(JsonView::Text(text)))
    }
}

fn make_message(role: String, content: Option<Json>) -> (result: ChatMessage)
    ensures
        result.deep_view() == plain_message(role@, content.deep_view()),
{
    ChatMessage {
        role,
        content,
        tool_call_id: None,
        name: None,
        reasoning_content: None,
        thinking: None,
        tool_calls: None,
    }
}

fn make_tool_message(call_id: Option<String>, text: String) -> (result: ChatMessage)
    ensures
        result.deep_view() == tool_message(call_id.deep_view(), text@),
{
    ChatMessage {
        role: "tool".to_string(),
        content: Some(Json::Text(text)),
        tool_call_id: call_id,
        name: None,
        reasoning_content: None,
        thinking: None,
        tool_calls: None,
    }
}

// ---------------------------------------------------------------------------------------------
// Reasoning that waits for its message
// ---------------------------------------------------------------------------------------------

impl PendingReasoningView {
    /// Two reasonings in a row: their texts one after the other, and the first signature.
    pub open spec fn followed_by(self, text: Seq<char>, signature: Option<Seq<char>>) -> Self {
        PendingReasoningView {
            text: if self.text.len() > 0 && text.len() > 0 {
                self.text + "\n\n"@ + text
            } else if self.text.len() == 0 {
                text
            } else {
                self.text
            },
            signature: if self.signature is None {
                signature
            } else {
                self.signature
            },
        }
    }

    /// The signed form of the reasoning, where there is a signature.
    pub open spec fn thinking(self) -> Option<ChatThinkingView> {
        match self.signature {
            Some(signature) => Some(
                ChatThinkingView { content: self.text, signature: Some(signature) },
            ),
            None => None,
        }
    }
}

/// `message` with the pending reasoning attached, where there is any.
pub open spec fn with_reasoning(
    message: ChatMessageView,
    pending: Option<PendingReasoningView>,
) -> ChatMessageView {
    match pending {
        Some(reasoning) => ChatMessageView {
            reasoning_content: Some(reasoning.text),
            thinking: reasoning.thinking(),
            ..message
        },
        None => message,
    }
}

impl PendingReasoning {
    fn from_parts(text: String, signature: Option<String>) -> (result: Self)
        ensures
            result.deep_view() == (PendingReasoningView {
                text: text@,
                signature: signature.deep_view(),
            }),
    {
        PendingReasoning { text, signature }
    }

    fn append(&mut self, text: String, signature: Option<String>)
        ensures
            final(self).deep_view() == old(self).deep_view().followed_by(
                text@,
                signature.deep_view(),
            ),
    {
        if !self.text.is_empty() && !text.is_empty() {
            self.text.push_str("\n\n");
            self.text.push_str(text.as_str());
        } else if self.text.is_empty() {
            self.text = text;
        }
        if self.signature.is_none() {
            self.signature = signature;
        }
    }

    fn into_chat_parts(self) -> (result: (Option<String>, Option<ChatThinking>))
        ensures
            result.0.deep_view() == Some(self.deep_view().text),
            result.1.deep_view() == self.deep_view().thinking(),
    {
        let thinking = match self.signature {
            Some(signature) => Some(
                ChatThinking { content: self.text.clone(), signature: Some(signature) },
            ),
            None => None,
        };
        (Some(self.text), thinking)
    }
}

fn attach_reasoning(message: ChatMessage, pending: Option<PendingReasoning>) -> (result: ChatMessage)
    ensures
        result.deep_view() == with_reasoning(message.deep_view(), pending.deep_view()),
{
    match pending {
        Some(reasoning) => {
            let (reasoning_content, thinking) = reasoning.into_chat_parts();
            let mut message = message;
            message.reasoning_content = reasoning_content;
            message.thinking = thinking;
            message
        },
        None => message,
    }
}

// ---------------------------------------------------------------------------------------------
// Tool calls
// ---------------------------------------------------------------------------------------------

/// A call of a function tool.
pub open spec fn function_call(
    call_id: Seq<char>,
    index: usize,
    name: Seq<char>,
    arguments: JsonView,
) -> ChatToolCallView {
    ChatToolCallView {
        id: Some(call_id),
        index: Some(index),
        kind: "function"@,
        function: ChatFunctionCallView { name: Some(name), arguments: Some(arguments) },
    }
}

/// Whether a further tool call joins `message`: an assistant message that calls tools, or that
/// has no content.
pub open spec fn takes_tool_calls(message: ChatMessageView) -> bool {
    message.role == "assistant"@ && (message.tool_calls is Some || message.content is None)
}

/// The tool calls of a message.
pub open spec fn calls_of(message: ChatMessageView) -> Seq<ChatToolCallView> {
    match message.tool_calls {
        Some(calls) => calls,
        None => Seq::empty(),
    }
}

/// `messages` with one more tool call: in the last message if that one takes tool calls, else in
/// a message of its own. Pending reasoning goes to that message, unless it has reasoning already.
pub open spec fn with_tool_call(
    messages: Seq<ChatMessageView>,
    call_id: Seq<char>,
    name: Seq<char>,
    arguments: JsonView,
    pending: Option<PendingReasoningView>,
) -> Seq<ChatMessageView> {
    if messages.len() > 0 && takes_tool_calls(messages.last()) {
        let last = messages.last();
        let calls = calls_of(last);
        let joined_message = ChatMessageView {
            tool_calls: Some(
                calls.push(function_call(call_id, calls.len() as usize, name, arguments)),
            ),
            ..last
        };
        messages.drop_last().push(
            if last.reasoning_content is None {
                with_reasoning(joined_message, pending)
            } else {
                joined_message
            },
        )
    } else {
        messages.push(
            with_reasoning(
                ChatMessageView {
                    tool_calls: Some(seq![function_call(call_id, 0, name, arguments)]),
                    ..plain_message("assistant"@, None)
                },
                pending,
            ),
        )
    }
}

fn make_function_call(call_id: String, index: usize, name: String, arguments: Json) -> (result:
    ChatToolCall)
    ensures
        result.deep_view() == function_call(call_id@, index, name@, arguments.deep_view()),
{
    ChatToolCall {
        id: Some(call_id),
        index: Some(index),
        kind: "function".to_string(),
        function: ChatFunctionCall { name: Some(name), arguments: Some(arguments) },
    }
}

/// Appends a tool call to a conversation.
pub fn append_tool_call(
    messages: &mut Vec<ChatMessage>,
    call_id: String,
    name: String,
    arguments: Json,
    pending_reasoning: Option<PendingReasoning>,
)
    ensures
        final(messages).deep_view() == with_tool_call(
            old(messages).deep_view(),
            call_id@,
            name@,
            arguments.deep_view(),
            pending_reasoning.deep_view(),
        ),
{
    let ghost before = messages.deep_view();
    let ghost arguments_model = arguments.deep_view();
    match messages.pop() {
        Some(mut last) => {
            let ghost last_model = last.deep_view();
            assert(messages.deep_view() =~= before.drop_last());
            assert(last_model == before.last());
            if same_text(last.role.as_str(), "assistant") && (last.tool_calls.is_some()
                || last.content.is_none()) {
                let mut calls: Vec<ChatToolCall> = match last.tool_calls {
                    Some(calls) => calls,
                    None => {
                        let calls: Vec<ChatToolCall> = Vec::new();
                        assert(calls.deep_view() =~= Seq::<ChatToolCallView>::empty());
                        calls
                    },
                };
                assert(calls.deep_view() == calls_of(last_model));
                let call = make_function_call(call_id, calls.len(), name, arguments);
                calls.push(call);
                assert(calls.deep_view() =~= calls_of(last_model).push(call.deep_view()));
                last.tool_calls = Some(calls);
                if last.reasoning_content.is_none() {
                    last = attach_reasoning(last, pending_reasoning);
                }
                messages.push(last);
                assert(messages.deep_view() =~= before.drop_last().push(last.deep_view()));
                return;
            }
            messages.push(last);
            assert(messages.deep_view() =~= before);
        },
        None => {
            assert(messages.deep_view() =~= before);
        },
    }
    let calls = vec![make_function_call(call_id, 0, name, arguments)];
    assert(calls.deep_view() =~= seq![function_call(call_id@, 0, name@, arguments_model)]);
    let mut message = make_message("assistant".to_string(), None);
    message.tool_calls = Some(calls);
    let message = attach_reasoning(message, pending_reasoning);
    let ghost added = message.deep_view();
    messages.push(message);
    assert(messages.deep_view() =~= before.push(added));
}

/// The arguments of a shell call as JSON.
pub open spec fn shell_arguments(action: LocalShellActionView) -> JsonView {
    match action {
        LocalShellActionView::Exec(exec) => exec.json(),
    }
}

// ---------------------------------------------------------------------------------------------
// Conversation items
// ---------------------------------------------------------------------------------------------

/// A conversation that is being lowered: the messages so far, and the reasoning that no message
/// has taken yet.
pub struct Lowering {
    pub messages: Seq<ChatMessageView>,
    pub pending: Option<PendingReasoningView>,
}

/// The role under which a message goes upstream.
pub open spec fn chat_role(role: Seq<char>) -> Seq<char> {
    if role == "developer"@ {
        "system"@
    } else {
        role
    }
}

/// A signature that says something.
pub open spec fn filled_signature(signature: Option<Seq<char>>) -> Option<Seq<char>> {
    match signature {
        Some(text) => if text.len() > 0 {
            Some(text)
        } else {
            None
        },
        None => None,
    }
}

/// The arguments of a call, with what was read from their text.
pub open spec fn read_arguments(parsed: Result<JsonView, Seq<char>>) -> Result<
    JsonView,
    AppErrorView,
> {
    match parsed {
        Ok(value) => Ok(value),
        Err(message) => Err(bad_request("invalid JSON tool arguments: "@ + message)),
    }
}

/// The conversation after a call of a tool.
pub open spec fn after_call(
    state: Lowering,
    call_id: Seq<char>,
    name: Seq<char>,
    arguments: JsonView,
) -> Lowering {
    Lowering {
        messages: with_tool_call(state.messages, call_id, name, arguments, state.pending),
        pending: None,
    }
}

/// The conversation after the result of a tool.
pub open spec fn after_result(state: Lowering, call_id: Option<Seq<char>>, text: Seq<char>) -> Lowering {
    Lowering { messages: state.messages.push(tool_message(call_id, text)), ..state }
}

/// The conversation after one more item.
pub open spec fn lowered_item(state: Lowering, item: ResponseItemView) -> Result<
    Lowering,
    AppErrorView,
> {
    match item {
        ResponseItemView::Message { id, role, content, phase } => {
            let message = plain_message(chat_role(role), Some(chat_content(content)));
            if chat_role(role) == "assistant"@ {
                Ok(
                    Lowering {
                        messages: state.messages.push(with_reasoning(message, state.pending)),
                        pending: None,
                    },
                )
            } else {
                Ok(Lowering { messages: state.messages.push(message), ..state })
            }
        },
        ResponseItemView::Reasoning { id, summary, content, encrypted_content } => {
            let text = reasoning_text(summary, content);
            let signature = filled_signature(encrypted_content);
            Ok(
                Lowering {
                    pending: Some(
                        match state.pending {
                            Some(pending) => pending.followed_by(text, signature),
                            None => PendingReasoningView { text, signature },
                        },
                    ),
                    ..state
                },
            )
        },
        ResponseItemView::FunctionCall { id, name, namespace, arguments, call_id } => {
            match read_arguments(json_parsed(arguments)) {
                Ok(value) => Ok(after_call(state, call_id, name, value)),
                Err(error) => Err(error),
            }
        },
        ResponseItemView::CustomToolCall { status, call_id, name, input } => Ok(
            after_call(
                state,
                call_id,
                name,
                JsonView::Object(map!["input"@ => JsonView::Text(input)]),
            ),
        ),
        ResponseItemView::ToolSearchCall { call_id, status, execution, arguments } => {
            if execution != "client"@ {
                Err(bad_request("only tool_search calls with execution=client are supported"@))
            } else {
                let id = match call_id {
                    Some(id) => id,
                    None => "tool_search_missing_call_id"@,
                };
                Ok(after_call(state, id, "tool_search"@, arguments))
            }
        },
        ResponseItemView::LocalShellCall { id, call_id, status, action } => {
            match (call_id, id) {
                (Some(call), _) => Ok(
                    after_call(state, call, "local_shell"@, shell_arguments(action)),
                ),
                (None, Some(call)) => Ok(
                    after_call(state, call, "local_shell"@, shell_arguments(action)),
                ),
                (None, None) => Err(bad_request("local_shell_call missing call_id"@)),
            }
        },
        ResponseItemView::FunctionCallOutput { call_id, output } => Ok(
            after_result(state, Some(call_id), plain_text(output)),
        ),
        ResponseItemView::CustomToolCallOutput { call_id, name, output } => Ok(
            after_result(state, Some(call_id), plain_text(output)),
        ),
        ResponseItemView::ToolSearchOutput { call_id, status, execution, tools } => Ok(
            after_result(
                state,
                call_id,
                json_rendered(
                    JsonView::Object(
                        map![
                            "status"@ => JsonView::Text(status),
                            "execution"@ => JsonView::Text(execution),
                            "tools"@ => JsonView::Array(tools),
                        ],
                    ),
                ),
            ),
        ),
        ResponseItemView::WebSearchCall { id, status, action } => {
            let call_id = match id {
                Some(id) => id,
                None => "web_search_missing_replay_"@ + decimal(state.messages.len()),
            };
            Ok(
                after_result(
                    after_call(state, call_id, "web_search"@, search_arguments(action)),
                    Some(call_id),
                    search_placeholder(action),
                ),
            )
        },
        ResponseItemView::ImageGenerationCall { id, status, result } => Ok(state),
    }
}

/// The conversation after all of `items`, or the error of the first item that has one.
pub open spec fn lowered_items(state: Lowering, items: Seq<ResponseItemView>) -> Result<
    Lowering,
    AppErrorView,
>
    decreases items.len(),
{
    if items.len() == 0 {
        Ok(state)
    } else {
        match lowered_items(state, items.drop_last()) {
            Ok(before) => lowered_item(before, items.last()),
            Err(error) => Err(error),
        }
    }
}

/// An error stays the outcome, whatever follows.
proof fn lemma_lowered_error_stays(state: Lowering, items: Seq<ResponseItemView>, upto: int)
    requires
        0 <= upto <= items.len(),
        lowered_items(state, items.take(upto)) is Err,
    ensures
        lowered_items(state, items) == lowered_items(state, items.take(upto)),
    decreases items.len(),
{
    if upto == items.len() {
        assert(items.take(upto) =~= items);
    } else {
        assert(items.drop_last().take(upto) =~= items.take(upto));
        lemma_lowered_error_stays(state, items.drop_last(), upto);
    }
}

fn normalize_chat_role(role: &str) -> (result: String)
    ensures
        result@ == chat_role(role@),
{
    if same_text(role, "developer") {
        "system".to_string()
    } else {
        role.to_string()
    }
}

/// The arguments of a call, with what was read from their text.
pub fn arguments_or_error(parsed: Result<Json, String>) -> (result: AppResult<Json>)
    ensures
        outcome(result) == read_arguments(outcome(parsed)),
{
    match parsed {
        Ok(value) => Ok(value),
        Err(err) => {
            let mut message = "invalid JSON tool arguments: ".to_string();
            message.push_str(err.as_str());
            Err(AppError::bad_request(message))
        },
    }
}

fn parse_json_string(raw: &str) -> (result: AppResult<Json>)
    ensures
        outcome(result) == read_arguments(json_parsed(raw@)),
{
    arguments_or_error(parse_json(raw))
}

fn nonempty_signature(signature: &Option<String>) -> (result: Option<String>)
    ensures
        result.deep_view() == filled_signature(signature.deep_view()),
{
    match signature {
        Some(text) => if text.is_empty() {
            None
        } else {
            Some(text.clone())
        },
        None => None,
    }
}

fn push_result(messages: &mut Vec<ChatMessage>, call_id: Option<String>, text: String)
    ensures
        final(messages).deep_view() == old(messages).deep_view().push(
            tool_message(call_id.deep_view(), text@),
        ),
{
    let ghost before = messages.deep_view();
    let message = make_tool_message(call_id, text);
    let ghost added = message.deep_view();
    messages.push(message);
    assert(messages.deep_view() =~= before.push(added));
}

/// Lowers one item of a conversation.
fn lower_item(
    messages: &mut Vec<ChatMessage>,
    pending_reasoning: &mut Option<PendingReasoning>,
    item: &ResponseItem,
) -> (result: AppResult<()>)
    ensures
        match lowered_item(
            Lowering {
                messages: old(messages).deep_view(),
                pending: old(pending_reasoning).deep_view(),
            },
            item.deep_view(),
        ) {
            Ok(after) => {
                &&& result is Ok
                &&& final(messages).deep_view() == after.messages
                &&& final(pending_reasoning).deep_view() == after.pending
            },
            Err(error) => result matches Err(e) && e.deep_view() == error,
        },
{
    broadcast use lemma_array_model;

    let ghost before = messages.deep_view();
    match item {
        ResponseItem::Message { id: _, role, content, phase: _ } => {
            let text = message_content_to_chat_value(content);
            let normalized_role = normalize_chat_role(role.as_str());
            let is_assistant = same_text(normalized_role.as_str(), "assistant");
            let mut message = make_message(normalized_role, Some(text));
            if is_assistant {
                message = attach_reasoning(message, pending_reasoning.take());
            }
            let ghost added = message.deep_view();
            messages.push(message);
            assert(messages.deep_view() =~= before.push(added));
        },
        ResponseItem::Reasoning { id: _, summary, content, encrypted_content } => {
            let text = reasoning_item_text(summary, content);
            let signature = nonempty_signature(encrypted_content);
            let reasoning = match pending_reasoning.take() {
                Some(mut existing) => {
                    existing.append(text, signature);
                    existing
                },
                None => PendingReasoning::from_parts(text, signature),
            };
            *pending_reasoning = Some(reasoning);
        },
        ResponseItem::FunctionCall { id: _, name, namespace: _, arguments, call_id } => {
            match parse_json_string(arguments.as_str()) {
                Ok(value) => append_tool_call(
                    messages,
                    call_id.clone(),
                    name.clone(),
                    value,
                    pending_reasoning.take(),
                ),
                Err(error) => {
                    return Err(error);
                },
            }
        },
        ResponseItem::CustomToolCall { status: _, call_id, name, input } => append_tool_call(
            messages,
            call_id.clone(),
            name.clone(),
            json_object1("input", Json::Text(input.clone())),
            pending_reasoning.take(),
        ),
        ResponseItem::ToolSearchCall { call_id, status: _, execution, arguments } => {
            if !same_text(execution.as_str(), "client") {
                return Err(
                    AppError::bad_request(
                        "only tool_search calls with execution=client are supported".to_string(),
                    ),
                );
            }
            let id = match call_id {
                Some(id) => id.clone(),
                None => "tool_search_missing_call_id".to_string(),
            };
            append_tool_call(
                messages,
                id,
                "tool_search".to_string(),
                arguments.duplicate(),
                pending_reasoning.take(),
            );
        },
        ResponseItem::LocalShellCall { id, call_id, status: _, action } => {
            let call = match call_id {
                Some(call) => call.clone(),
                None => match id {
                    Some(call) => call.clone(),
                    None => {
                        return Err(
                            AppError::bad_request("local_shell_call missing call_id".to_string()),
                        );
                    },
                },
            };
            let LocalShellAction::Exec(exec) = action;
            append_tool_call(
                messages,
                call,
                "local_shell".to_string(),
                exec.to_json(),
                pending_reasoning.take(),
            );
        },
        ResponseItem::FunctionCallOutput { call_id, output } => push_result(
            messages,
            Some(call_id.clone()),
            stringify_tool_output(output),
        ),
        ResponseItem::CustomToolCallOutput { call_id, name: _, output } => push_result(
            messages,
            Some(call_id.clone()),
            stringify_tool_output(output),
        ),
        ResponseItem::ToolSearchOutput { call_id, status, execution, tools } => {
            let listing = json_object3(
                "status",
                Json::Text(status.clone()),
                "execution",
                Json::Text(execution.clone()),
                "tools",
                Json::Array(tools.duplicate()),
            );
            push_result(messages, call_id.duplicate(), render_json(&listing));
        },
        ResponseItem::WebSearchCall { id, status: _, action } => {
            let call_id = match id {
                Some(id) => id.clone(),
                None => {
                    let mut generated = "web_search_missing_replay_".to_string();
                    generated.push_str(decimal_text(messages.len()).as_str());
                    generated
                },
            };
            append_tool_call(
                messages,
                call_id.clone(),
                "web_search".to_string(),
                web_search_arguments(action),
                pending_reasoning.take(),
            );
            push_result(messages, Some(call_id), web_search_placeholder_result(action));
        },
        ResponseItem::ImageGenerationCall { .. } => {},
    }
    Ok(())
}

// ---------------------------------------------------------------------------------------------
// System messages
// ---------------------------------------------------------------------------------------------

/// How many messages at the beginning are system messages.
pub open spec fn system_prefix(messages: Seq<ChatMessageView>) -> nat
    decreases messages.len(),
{
    if messages.len() > 0 && messages[0].role == "system"@ {
        1 + system_prefix(messages.drop_first())
    } else {
        0
    }
}

/// The texts of `messages` that are not empty.
pub open spec fn message_texts(messages: Seq<ChatMessageView>) -> Seq<Seq<char>>
    decreases messages.len(),
{
    if messages.len() == 0 {
        Seq::empty()
    } else {
        match messages.last().content {
            Some(content) => if plain_text(content).len() > 0 {
                message_texts(messages.drop_last()).push(plain_text(content))
            } else {
                message_texts(messages.drop_last())
            },
            None => message_texts(messages.drop_last()),
        }
    }
}

/// The conversation with its leading system messages made one.
pub open spec fn hoisted(messages: Seq<ChatMessageView>) -> Seq<ChatMessageView> {
    let prefix = system_prefix(messages) as int;
    let texts = message_texts(messages.take(prefix));
    if prefix == 0 {
        messages
    } else if texts.len() == 0 {
        messages.skip(prefix)
    } else {
        seq![plain_message("system"@, Some(JsonView::Text(joined(texts, "\n\n"@))))]
            + messages.skip(prefix)
    }
}

proof fn lemma_system_prefix(messages: Seq<ChatMessageView>, upto: int)
    requires
        0 <= upto <= messages.len(),
        forall|k: int| 0 <= k < upto ==> (#[trigger] messages[k]).role == "system"@,
        upto < messages.len() ==> messages[upto].role != "system"@,
    ensures
        system_prefix(messages) == upto,
    decreases messages.len(),
{
    if upto > 0 {
        assert(messages[0].role == "system"@);
        let rest = messages.drop_first();
        assert forall|k: int| 0 <= k < upto - 1 implies (#[trigger] rest[k]).role == "system"@ by {
            assert(rest[k] == messages[k + 1]);
        }
        lemma_system_prefix(rest, upto - 1);
    }
}

/// Makes the leading system messages of a conversation one message. Later ones stay where they
/// are.
pub fn hoist_system_messages(messages: &mut Vec<ChatMessage>)
    ensures
        final(messages).deep_view() == hoisted(old(messages).deep_view()),
{
    let ghost before = messages.deep_view();
    let mut prefix_end: usize = 0;
    while prefix_end < messages.len() && same_text(messages[prefix_end].role.as_str(), "system")
        invariant
            before == messages.deep_view(),
            *messages == *old(messages),
            prefix_end <= messages@.len(),
            forall|k: int| 0 <= k < prefix_end ==> (#[trigger] before[k]).role == "system"@,
        decreases messages.len() - prefix_end,
    {
        assert(before[prefix_end as int] == messages@[prefix_end as int].deep_view());
        prefix_end = prefix_end + 1;
    }
    proof {
        if prefix_end < messages@.len() {
            assert(before[prefix_end as int] == messages@[prefix_end as int].deep_view());
        }
        lemma_system_prefix(before, prefix_end as int);
    }
    if prefix_end == 0 {
        return;
    }
    let mut system_texts: Vec<String> = Vec::new();
    assert(system_texts.deep_view() =~= message_texts(before.take(0)));
    for index in 0..prefix_end
        invariant
            before == messages.deep_view(),
            *messages == *old(messages),
            prefix_end <= messages@.len(),
            system_texts.deep_view() == message_texts(before.take(index as int)),
    {
        let ghost texts = system_texts.deep_view();
        proof {
            assert(before.take(index + 1).drop_last() =~= before.take(index as int));
            assert(before.take(index + 1).last() == messages@[index as int].deep_view());
        }
        if let Some(content) = &messages[index].content {
            let text = stringify_tool_output(content);
            if !text.is_empty() {
                let ghost added = text@;
                system_texts.push(text);
                assert(system_texts.deep_view() =~= texts.push(added));
            }
        }
    }
    let mut rest = messages.split_off(prefix_end);
    assert(rest.deep_view() =~= before.skip(prefix_end as int));
    messages.clear();
    if system_texts.len() > 0 {
        messages.push(
            make_message("system".to_string(), Some(Json::Text(join(&system_texts, "\n\n")))),
        );
    }
    let ghost head = messages.deep_view();
    messages.append(&mut rest);
    assert(messages.deep_view() =~= head + before.skip(prefix_end as int));
    assert(messages.deep_view() =~= hoisted(before));
}

// ---------------------------------------------------------------------------------------------
// The whole request
// ---------------------------------------------------------------------------------------------

/// The effort that goes upstream: everything below the highest level is sent as `high`.
pub open spec fn upstream_effort(effort: Seq<char>) -> Option<Seq<char>> {
    let level = lowered(trimmed(effort));
    if trimmed(effort).len() == 0 {
        None
    } else if level == "max"@ || level == "xhigh"@ {
        Some("max"@)
    } else {
        Some("high"@)
    }
}

/// The effort that goes upstream.
pub fn normalize_reasoning_effort(effort: &str) -> (result: Option<String>)
    ensures
        result.deep_view() == upstream_effort(effort@),
{
    let value = effort.trim();
    if value.is_empty() {
        return None;
    }
    let level = value.to_ascii_lowercase();
    if same_text(level.as_str(), "max") || same_text(level.as_str(), "xhigh") {
        Some("max".to_string())
    } else {
        Some("high".to_string())
    }
}

/// The effort that a request asks for, or else the default.
pub open spec fn requested_effort(
    request: ResponsesRequestView,
    default_reasoning_effort: Seq<char>,
) -> Seq<char> {
    match request.reasoning {
        Some(reasoning) => match reasoning.effort {
            Some(effort) => effort,
            None => default_reasoning_effort,
        },
        None => default_reasoning_effort,
    }
}

/// The response format that a request asks for, in chat form.
pub open spec fn response_format(request: ResponsesRequestView) -> Option<JsonView> {
    match request.text {
        Some(text) => match text.format {
            Some(format) => Some(format_json(format)),
            None => None,
        },
        None => None,
    }
}

/// A response format in chat form.
pub open spec fn format_json(format: TextFormatView) -> JsonView {
    JsonView::Object(
        map![
            "type"@ => JsonView::Text(format.kind),
            "json_schema"@ => JsonView::Object(
                map![
                    "name"@ => JsonView::Text(format.name),
                    "schema"@ => format.schema,
                    "strict"@ => JsonView::Bool(format.strict),
                ],
            ),
        ],
    )
}

/// The messages that the lowering of a request starts from: those of earlier turns, or else the
/// instructions of the request.
pub open spec fn starting_messages(
    request: ResponsesRequestView,
    baseline: Seq<ChatMessageView>,
) -> Seq<ChatMessageView> {
    if baseline.len() == 0 && request.instructions.len() > 0 {
        seq![plain_message("system"@, Some(JsonView::Text(request.instructions)))]
    } else {
        baseline
    }
}

/// The messages of a whole conversation. Reasoning that no message took gets one of its own.
pub open spec fn conversation(state: Lowering) -> Seq<ChatMessageView> {
    hoisted(
        match state.pending {
            Some(pending) => state.messages.push(
                with_reasoning(plain_message("assistant"@, None), Some(pending)),
            ),
            None => state.messages,
        },
    )
}

/// A request in the form that a chat backend takes.
pub open spec fn lowered_request(
    request: ResponsesRequestView,
    baseline: Seq<ChatMessageView>,
    default_reasoning_effort: Seq<char>,
    image_agent_active: bool,
) -> Result<LoweredTurnView, AppErrorView> {
    match request_problem(request) {
        Some(problem) => Err(bad_request(problem)),
        None => match lowered_tools(request.tools) {
            Err(error) => Err(error),
            Ok(tools) => match tool_registry(request.tools, image_agent_active) {
                Err(error) => Err(error),
                Ok(registry) => match lowered_items(
                    Lowering { messages: starting_messages(request, baseline), pending: None },
                    request.input,
                ) {
                    Err(error) => Err(error),
                    Ok(state) => Ok(
                        LoweredTurnView {
                            messages: conversation(state),
                            tools,
                            tool_registry: registry,
                            response_format: response_format(request),
                            reasoning_effort: upstream_effort(
                                requested_effort(request, default_reasoning_effort),
                            ),
                            frequency_penalty: request.frequency_penalty,
                            presence_penalty: request.presence_penalty,
                        },
                    ),
                },
            },
        },
    }
}

fn lower_format(format: &TextFormat) -> (result: Json)
    ensures
        result.deep_view() == format_json(format.deep_view()),
{
    json_object2(
        "type",
        Json::Text(format.kind.clone()),
        "json_schema",
        json_object3(
            "name",
            Json::Text(format.name.clone()),
            "schema",
            format.schema.duplicate(),
            "strict",
            Json::Bool(format.strict),
        ),
    )
}

/// Lowers a request with the highest effort as the default, and without an image agent.
pub fn lower_request(request: &ResponsesRequest, baseline_messages: Vec<ChatMessage>) -> (result:
    AppResult<LoweredTurn>)
    ensures
        outcome(result) == lowered_request(
            request.deep_view(),
            baseline_messages.deep_view(),
            DEFAULT_REASONING_EFFORT@,
            false,
        ),
{
    lower_request_with_options(request, baseline_messages, DEFAULT_REASONING_EFFORT, false)
}

/// The effort of a request that asks for none.
pub const DEFAULT_REASONING_EFFORT: &'static str = "max";

/// Lowers a request. The image tool runs on the server where the image agent is active, and is a
/// tool of the client elsewhere.
pub fn lower_request_with_options(
    request: &ResponsesRequest,
    baseline_messages: Vec<ChatMessage>,
    default_reasoning_effort: &str,
    image_agent_active: bool,
) -> (result: AppResult<LoweredTurn>)
    ensures
        outcome(result) == lowered_request(
            request.deep_view(),
            baseline_messages.deep_view(),
            default_reasoning_effort@,
            image_agent_active,
        ),
{
    match validate_request(request) {
        Ok(()) => {},
        Err(error) => {
            return Err(error);
        },
    }
    let mut messages = baseline_messages;
    let ghost baseline = messages.deep_view();
    if messages.len() == 0 && !request.instructions.is_empty() {
        messages.push(
            make_message("system".to_string(), Some(Json::Text(request.instructions.clone()))),
        );
    }
    let ghost start = Lowering { messages: messages.deep_view(), pending: None };
    assert(start.messages =~= starting_messages(request.deep_view(), baseline));
    let tools = match lower_tools(&request.tools) {
        Ok(tools) => tools,
        Err(error) => {
            return Err(error);
        },
    };
    let registry = match build_tool_registry(&request.tools, image_agent_active) {
        Ok(registry) => registry,
        Err(error) => {
            return Err(error);
        },
    };
    let ghost items = request.input.deep_view();
    let mut pending_reasoning: Option<PendingReasoning> = None;
    for index in 0..request.input.len()
        invariant
            items == request.input.deep_view(),
            start == (Lowering {
                messages: starting_messages(request.deep_view(), baseline),
                pending: None,
            }),
            request_problem(request.deep_view()) is None,
            lowered_tools(request.deep_view().tools) is Ok,
            tool_registry(request.deep_view().tools, image_agent_active) is Ok,
            baseline == baseline_messages.deep_view(),
            lowered_items(start, items.take(index as int)) == Ok::<Lowering, AppErrorView>(
                Lowering {
                    messages: messages.deep_view(),
                    pending: pending_reasoning.deep_view(),
                },
            ),
    {
        proof {
            assert(items.take(index + 1).drop_last() =~= items.take(index as int));
            assert(items.take(index + 1).last() == request.input@[index as int].deep_view());
        }
        match lower_item(&mut messages, &mut pending_reasoning, &request.input[index]) {
            Ok(()) => {},
            Err(error) => {
                proof {
                    lemma_lowered_error_stays(start, items, index + 1);
                }
                return Err(error);
            },
        }
    }
    assert(items.take(items.len() as int) =~= items);
    let ghost state = Lowering {
        messages: messages.deep_view(),
        pending: pending_reasoning.deep_view(),
    };
    if pending_reasoning.is_some() {
        let message = attach_reasoning(
            make_message("assistant".to_string(), None),
            pending_reasoning,
        );
        let ghost before = messages.deep_view();
        let ghost added = message.deep_view();
        messages.push(message);
        assert(messages.deep_view() =~= before.push(added));
    }
    hoist_system_messages(&mut messages);
    assert(messages.deep_view() == conversation(state));
    let response_format = match &request.text {
        Some(text) => match &text.format {
            Some(format) => Some(lower_format(format)),
            None => None,
        },
        None => None,
    };
    let effort: &str = match &request.reasoning {
        Some(reasoning) => match &reasoning.effort {
            Some(effort) => effort.as_str(),
            None => default_reasoning_effort,
        },
        None => default_reasoning_effort,
    };
    Ok(
        LoweredTurn {
            messages,
            tools,
            tool_registry: registry,
            response_format,
            reasoning_effort: normalize_reasoning_effort(effort),
            frequency_penalty: request.frequency_penalty.duplicate(),
            presence_penalty: request.presence_penalty.duplicate(),
        },
    )
}

// ---------------------------------------------------------------------------------------------
// Laws
// ---------------------------------------------------------------------------------------------

/// Whether the tool calls of every message are numbered from 0 in their order.
pub open spec fn calls_numbered(messages: Seq<ChatMessageView>) -> bool {
    forall|m: int, k: int|
        0 <= m < messages.len() && 0 <= k < calls_of(messages[m]).len() ==> (
        #[trigger] calls_of(messages[m])[k]).index == Some(k as usize)
}

/// One more tool call keeps the tool calls of every message numbered in their order.
pub proof fn law_tool_calls_stay_numbered(
    messages: Seq<ChatMessageView>,
    call_id: Seq<char>,
    name: Seq<char>,
    arguments: JsonView,
    pending: Option<PendingReasoningView>,
)
    requires
        calls_numbered(messages),
    ensures
        calls_numbered(with_tool_call(messages, call_id, name, arguments, pending)),
{
    let after = with_tool_call(messages, call_id, name, arguments, pending);
    assert forall|m: int, k: int|
        0 <= m < after.len() && 0 <= k < calls_of(after[m]).len() implies (
    #[trigger] calls_of(after[m])[k]).index == Some(k as usize) by {
        if m < messages.len() && after[m] == messages[m] {
            assert(calls_of(messages[m])[k].index == Some(k as usize));
        } else if messages.len() > 0 && takes_tool_calls(messages.last()) {
            let calls = calls_of(messages.last());
            if k < calls.len() {
                assert(calls_of(messages[messages.len() - 1])[k].index == Some(k as usize));
            }
        }
    }
}

/// A tool call touches no message but the last, and loses none.
pub proof fn law_tool_call_keeps_earlier_messages(
    messages: Seq<ChatMessageView>,
    call_id: Seq<char>,
    name: Seq<char>,
    arguments: JsonView,
    pending: Option<PendingReasoningView>,
)
    ensures
        ({
            let after = with_tool_call(messages, call_id, name, arguments, pending);
            &&& messages.len() <= after.len() <= messages.len() + 1
            &&& after.drop_last() == (if after.len() == messages.len() {
                messages.drop_last()
            } else {
                messages
            })
            &&& takes_tool_calls(after.last())
            &&& calls_of(after.last()).last().id == Some(call_id)
        }),
{
    let after = with_tool_call(messages, call_id, name, arguments, pending);
    if messages.len() > 0 && takes_tool_calls(messages.last()) {
        assert(after.drop_last() =~= messages.drop_last());
    } else {
        assert(after.drop_last() =~= messages);
    }
}

/// Everything from the first message on that is no system message stays as it is and where it
/// is, later system messages included.
pub proof fn law_hoisting_keeps_the_rest(messages: Seq<ChatMessageView>)
    ensures
        ({
            let rest = messages.skip(system_prefix(messages) as int);
            &&& hoisted(messages).len() <= rest.len() + 1
            &&& hoisted(messages).skip(hoisted(messages).len() - rest.len()) == rest
        }),
{
    lemma_system_prefix_bound(messages);
    let prefix = system_prefix(messages) as int;
    let rest = messages.skip(prefix);
    if prefix == 0 {
        assert(rest =~= messages);
    }
    assert(hoisted(messages).skip(hoisted(messages).len() - rest.len()) =~= rest);
}

/// Hoisting a second time changes nothing.
pub proof fn law_hoisting_twice_is_hoisting_once(messages: Seq<ChatMessageView>)
    ensures
        hoisted(hoisted(messages)) == hoisted(messages),
{
    lemma_system_prefix_bound(messages);
    let prefix = system_prefix(messages) as int;
    let rest = messages.skip(prefix);
    let texts = message_texts(messages.take(prefix));
    let once = hoisted(messages);
    if prefix > 0 {
        assert(rest.len() > 0 ==> rest[0] == messages[prefix]);
        if texts.len() == 0 {
            lemma_system_prefix(once, 0);
        } else {
            let text = joined(texts, "\n\n"@);
            let head = plain_message("system"@, Some(JsonView::Text(text)));
            assert(once[0] == head);
            assert forall|k: int| 0 <= k < 1 implies (#[trigger] once[k]).role == "system"@ by {}
            if once.len() > 1 {
                assert(once[1] == rest[0]);
            }
            lemma_system_prefix(once, 1);
            lemma_message_texts_filled(messages.take(prefix));
            lemma_joined_filled(texts, "\n\n"@);
            assert(once.take(1) =~= seq![head]);
            assert(seq![head].drop_last() =~= Seq::empty());
            assert(message_texts(Seq::<ChatMessageView>::empty()) =~= Seq::empty());
            assert(message_texts(seq![head]) =~= seq![text]);
            assert(hoisted(once) =~= once);
        }
    }
}

proof fn lemma_system_prefix_bound(messages: Seq<ChatMessageView>)
    ensures
        system_prefix(messages) <= messages.len(),
        system_prefix(messages) < messages.len() ==> messages[system_prefix(messages) as int].role
            != "system"@,
    decreases messages.len(),
{
    if messages.len() > 0 && messages[0].role == "system"@ {
        lemma_system_prefix_bound(messages.drop_first());
    }
}

proof fn lemma_message_texts_filled(messages: Seq<ChatMessageView>)
    ensures
        forall|k: int|
            0 <= k < message_texts(messages).len() ==> (#[trigger] message_texts(messages)[k]).len()
                > 0,
    decreases messages.len(),
{
    if messages.len() > 0 {
        lemma_message_texts_filled(messages.drop_last());
        let before = message_texts(messages.drop_last());
        assert forall|k: int| 0 <= k < message_texts(messages).len() implies (
        #[trigger] message_texts(messages)[k]).len() > 0 by {
            if k < before.len() {
                assert(message_texts(messages)[k] == before[k]);
            }
        }
    }
}

proof fn lemma_joined_filled(parts: Seq<Seq<char>>, separator: Seq<char>)
    requires
        parts.len() > 0,
        forall|k: int| 0 <= k < parts.len() ==> (#[trigger] parts[k]).len() > 0,
    ensures
        joined(parts, separator).len() > 0,
{
    assert(parts.last() == parts[parts.len() - 1]);
}

} // verus!
