//! The Chat Completions API: requests, messages and streamed chunks.
use vstd::prelude::*;

use crate::duplicate::Duplicate;
use crate::json::{find_entry, map_of, Json, JsonMap, JsonNumber, JsonNumberView, JsonView};

verus! {

/// A message of a chat conversation.
#[derive(Debug, PartialEq)]
pub struct ChatMessage {
    pub role: String,
    pub content: Option<Json>,
    pub tool_call_id: Option<String>,
    pub name: Option<String>,
    pub reasoning_content: Option<String>,
    pub thinking: Option<ChatThinking>,
    pub tool_calls: Option<Vec<ChatToolCall>>,
}

/// The model of [`ChatMessage`].
pub struct ChatMessageView {
    pub role: Seq<char>,
    pub content: Option<JsonView>,
    pub tool_call_id: Option<Seq<char>>,
    pub name: Option<Seq<char>>,
    pub reasoning_content: Option<Seq<char>>,
    pub thinking: Option<ChatThinkingView>,
    pub tool_calls: Option<Seq<ChatToolCallView>>,
}

impl DeepView for ChatMessage {
    type V = ChatMessageView;

    open spec fn deep_view(&self) -> ChatMessageView {
        ChatMessageView {
            role: self.role@,
            content: self.content.deep_view(),
            tool_call_id: self.tool_call_id.deep_view(),
            name: self.name.deep_view(),
            reasoning_content: self.reasoning_content.deep_view(),
            thinking: self.thinking.deep_view(),
            tool_calls: self.tool_calls.deep_view(),
        }
    }
}

impl Duplicate for ChatMessage {
    fn duplicate(&self) -> (copy: Self) {
        ChatMessage {
            role: self.role.clone(),
            content: self.content.duplicate(),
            tool_call_id: self.tool_call_id.duplicate(),
            name: self.name.duplicate(),
            reasoning_content: self.reasoning_content.duplicate(),
            thinking: self.thinking.duplicate(),
            tool_calls: self.tool_calls.duplicate(),
        }
    }
}

/// Reasoning text with the signature that vouches for it.
#[derive(Debug, PartialEq)]
pub struct ChatThinking {
    pub content: String,
    pub signature: Option<String>,
}

/// The model of [`ChatThinking`].
pub struct ChatThinkingView {
    pub content: Seq<char>,
    pub signature: Option<Seq<char>>,
}

impl DeepView for ChatThinking {
    type V = ChatThinkingView;

    open spec fn deep_view(&self) -> ChatThinkingView {
        ChatThinkingView {
            content: self.content@,
            signature: self.signature.deep_view(),
        }
    }
}

impl Duplicate for ChatThinking {
    fn duplicate(&self) -> (copy: Self) {
        ChatThinking {
            content: self.content.clone(),
            signature: self.signature.duplicate(),
        }
    }
}

/// A call of a tool.
#[derive(Debug, PartialEq)]
pub struct ChatToolCall {
    pub id: Option<String>,
    pub index: Option<usize>,
    pub kind: String,
    pub function: ChatFunctionCall,
}

/// The model of [`ChatToolCall`].
pub struct ChatToolCallView {
    pub id: Option<Seq<char>>,
    pub index: Option<usize>,
    pub kind: Seq<char>,
    pub function: ChatFunctionCallView,
}

impl DeepView for ChatToolCall {
    type V = ChatToolCallView;

    open spec fn deep_view(&self) -> ChatToolCallView {
        ChatToolCallView {
            id: self.id.deep_view(),
            index: self.index.deep_view(),
            kind: self.kind@,
            function: self.function.deep_view(),
        }
    }
}

impl Duplicate for ChatToolCall {
    fn duplicate(&self) -> (copy: Self) {
        ChatToolCall {
            id: self.id.duplicate(),
            index: self.index.duplicate(),
            kind: self.kind.clone(),
            function: self.function.duplicate(),
        }
    }
}

/// The function that a tool call names, with its arguments.
#[derive(Debug, PartialEq)]
pub struct ChatFunctionCall {
    pub name: Option<String>,
    pub arguments: Option<Json>,
}

/// The model of [`ChatFunctionCall`].
pub struct ChatFunctionCallView {
    pub name: Option<Seq<char>>,
    pub arguments: Option<JsonView>,
}

impl DeepView for ChatFunctionCall {
    type V = ChatFunctionCallView;

    open spec fn deep_view(&self) -> ChatFunctionCallView {
        ChatFunctionCallView {
            name: self.name.deep_view(),
            arguments: self.arguments.deep_view(),
        }
    }
}

impl Duplicate for ChatFunctionCall {
    fn duplicate(&self) -> (copy: Self) {
        ChatFunctionCall {
            name: self.name.duplicate(),
            arguments: self.arguments.duplicate(),
        }
    }
}

/// A tool that a chat request offers.
#[derive(Debug, PartialEq)]
pub struct ChatTool {
    pub kind: String,
    pub function: ChatToolDefinition,
}

/// The model of [`ChatTool`].
pub struct ChatToolView {
    pub kind: Seq<char>,
    pub function: ChatToolDefinitionView,
}

impl DeepView for ChatTool {
    type V = ChatToolView;

    open spec fn deep_view(&self) -> ChatToolView {
        ChatToolView {
            kind: self.kind@,
            function: self.function.deep_view(),
        }
    }
}

impl Duplicate for ChatTool {
    fn duplicate(&self) -> (copy: Self) {
        ChatTool {
            kind: self.kind.clone(),
            function: self.function.duplicate(),
        }
    }
}

/// The definition of a function tool.
#[derive(Debug, PartialEq)]
pub struct ChatToolDefinition {
    pub name: String,
    pub description: String,
    pub parameters: Option<Json>,
    pub strict: bool,
}

/// The model of [`ChatToolDefinition`].
pub struct ChatToolDefinitionView {
    pub name: Seq<char>,
    pub description: Seq<char>,
    pub parameters: Option<JsonView>,
    pub strict: bool,
}

impl DeepView for ChatToolDefinition {
    type V = ChatToolDefinitionView;

    open spec fn deep_view(&self) -> ChatToolDefinitionView {
        ChatToolDefinitionView {
            name: self.name@,
            description: self.description@,
            parameters: self.parameters.deep_view(),
            strict: self.strict,
        }
    }
}

impl Duplicate for ChatToolDefinition {
    fn duplicate(&self) -> (copy: Self) {
        ChatToolDefinition {
            name: self.name.clone(),
            description: self.description.clone(),
            parameters: self.parameters.duplicate(),
            strict: self.strict,
        }
    }
}

/// A request of the Chat Completions API.
#[derive(Debug, PartialEq)]
pub struct ChatCompletionRequest {
    pub model: String,
    pub messages: Vec<ChatMessage>,
    pub stream: bool,
    pub tools: Option<Vec<ChatTool>>,
    pub tool_choice: Option<Json>,
    pub parallel_tool_calls: bool,
    pub reasoning_effort: Option<String>,
    pub response_format: Option<Json>,
    pub stream_options: Option<Json>,
    pub temperature: Option<JsonNumber>,
    pub top_p: Option<JsonNumber>,
    pub max_output_tokens: Option<i64>,
    pub frequency_penalty: Option<JsonNumber>,
    pub presence_penalty: Option<JsonNumber>,
    pub stop: Option<Json>,
    pub extra_body: JsonMap,
}

/// The model of [`ChatCompletionRequest`].
pub struct ChatCompletionRequestView {
    pub model: Seq<char>,
    pub messages: Seq<ChatMessageView>,
    pub stream: bool,
    pub tools: Option<Seq<ChatToolView>>,
    pub tool_choice: Option<JsonView>,
    pub parallel_tool_calls: bool,
    pub reasoning_effort: Option<Seq<char>>,
    pub response_format: Option<JsonView>,
    pub stream_options: Option<JsonView>,
    pub temperature: Option<JsonNumberView>,
    pub top_p: Option<JsonNumberView>,
    pub max_output_tokens: Option<i64>,
    pub frequency_penalty: Option<JsonNumberView>,
    pub presence_penalty: Option<JsonNumberView>,
    pub stop: Option<JsonView>,
    pub extra_body: Map<Seq<char>, JsonView>,
}

impl DeepView for ChatCompletionRequest {
    type V = ChatCompletionRequestView;

    open spec fn deep_view(&self) -> ChatCompletionRequestView {
        ChatCompletionRequestView {
            model: self.model@,
            messages: self.messages.deep_view(),
            stream: self.stream,
            tools: self.tools.deep_view(),
            tool_choice: self.tool_choice.deep_view(),
            parallel_tool_calls: self.parallel_tool_calls,
            reasoning_effort: self.reasoning_effort.deep_view(),
            response_format: self.response_format.deep_view(),
            stream_options: self.stream_options.deep_view(),
            temperature: self.temperature.deep_view(),
            top_p: self.top_p.deep_view(),
            max_output_tokens: self.max_output_tokens.deep_view(),
            frequency_penalty: self.frequency_penalty.deep_view(),
            presence_penalty: self.presence_penalty.deep_view(),
            stop: self.stop.deep_view(),
            extra_body: map_of(self.extra_body.deep_view()),
        }
    }
}

impl Duplicate for ChatCompletionRequest {
    fn duplicate(&self) -> (copy: Self) {
        ChatCompletionRequest {
            model: self.model.clone(),
            messages: self.messages.duplicate(),
            stream: self.stream,
            tools: self.tools.duplicate(),
            tool_choice: self.tool_choice.duplicate(),
            parallel_tool_calls: self.parallel_tool_calls,
            reasoning_effort: self.reasoning_effort.duplicate(),
            response_format: self.response_format.duplicate(),
            stream_options: self.stream_options.duplicate(),
            temperature: self.temperature.duplicate(),
            top_p: self.top_p.duplicate(),
            max_output_tokens: self.max_output_tokens.duplicate(),
            frequency_penalty: self.frequency_penalty.duplicate(),
            presence_penalty: self.presence_penalty.duplicate(),
            stop: self.stop.duplicate(),
            extra_body: self.extra_body.duplicate(),
        }
    }
}

/// A chunk of a streamed chat completion.
#[derive(Debug, PartialEq)]
pub struct ChatCompletionChunk {
    pub id: String,
    pub choices: Vec<ChatChunkChoice>,
    pub usage: Option<Json>,
}

/// The model of [`ChatCompletionChunk`].
pub struct ChatCompletionChunkView {
    pub id: Seq<char>,
    pub choices: Seq<ChatChunkChoiceView>,
    pub usage: Option<JsonView>,
}

impl DeepView for ChatCompletionChunk {
    type V = ChatCompletionChunkView;

    open spec fn deep_view(&self) -> ChatCompletionChunkView {
        ChatCompletionChunkView {
            id: self.id@,
            choices: self.choices.deep_view(),
            usage: self.usage.deep_view(),
        }
    }
}

impl Duplicate for ChatCompletionChunk {
    fn duplicate(&self) -> (copy: Self) {
        ChatCompletionChunk {
            id: self.id.clone(),
            choices: self.choices.duplicate(),
            usage: self.usage.duplicate(),
        }
    }
}

/// One choice of a chunk.
#[derive(Debug, PartialEq)]
pub struct ChatChunkChoice {
    pub index: usize,
    pub delta: ChatDelta,
    pub finish_reason: Option<String>,
    pub stop_reason: Option<Json>,
}

/// The model of [`ChatChunkChoice`].
pub struct ChatChunkChoiceView {
    pub index: usize,
    pub delta: ChatDeltaView,
    pub finish_reason: Option<Seq<char>>,
    pub stop_reason: Option<JsonView>,
}

impl DeepView for ChatChunkChoice {
    type V = ChatChunkChoiceView;

    open spec fn deep_view(&self) -> ChatChunkChoiceView {
        ChatChunkChoiceView {
            index: self.index,
            delta: self.delta.deep_view(),
            finish_reason: self.finish_reason.deep_view(),
            stop_reason: self.stop_reason.deep_view(),
        }
    }
}

impl Duplicate for ChatChunkChoice {
    fn duplicate(&self) -> (copy: Self) {
        ChatChunkChoice {
            index: self.index,
            delta: self.delta.duplicate(),
            finish_reason: self.finish_reason.duplicate(),
            stop_reason: self.stop_reason.duplicate(),
        }
    }
}

/// What a chunk adds to a choice.
#[derive(Debug, PartialEq)]
pub struct ChatDelta {
    pub content: Option<String>,
    pub reasoning_content: Option<String>,
    pub tool_calls: Option<Vec<ChatToolCall>>,
    pub function_call: Option<ChatFunctionCall>,
    pub refusal: Option<String>,
    pub extra: JsonMap,
}

/// The model of [`ChatDelta`].
pub struct ChatDeltaView {
    pub content: Option<Seq<char>>,
    pub reasoning_content: Option<Seq<char>>,
    pub tool_calls: Option<Seq<ChatToolCallView>>,
    pub function_call: Option<ChatFunctionCallView>,
    pub refusal: Option<Seq<char>>,
    pub extra: Map<Seq<char>, JsonView>,
}

impl DeepView for ChatDelta {
    type V = ChatDeltaView;

    open spec fn deep_view(&self) -> ChatDeltaView {
        ChatDeltaView {
            content: self.content.deep_view(),
            reasoning_content: self.reasoning_content.deep_view(),
            tool_calls: self.tool_calls.deep_view(),
            function_call: self.function_call.deep_view(),
            refusal: self.refusal.deep_view(),
            extra: map_of(self.extra.deep_view()),
        }
    }
}

impl Duplicate for ChatDelta {
    fn duplicate(&self) -> (copy: Self) {
        ChatDelta {
            content: self.content.duplicate(),
            reasoning_content: self.reasoning_content.duplicate(),
            tool_calls: self.tool_calls.duplicate(),
            function_call: self.function_call.duplicate(),
            refusal: self.refusal.duplicate(),
            extra: self.extra.duplicate(),
        }
    }
}

impl ChatDeltaView {
    /// The reasoning text of a delta: its own field, or else one of the names that other backends
    /// give it.
    pub open spec fn reasoning_delta(self) -> Option<Seq<char>> {
        let extra = JsonView::Object(self.extra);
        if self.reasoning_content is Some {
            self.reasoning_content
        } else if extra.get_str("reasoning"@) is Some {
            extra.get_str("reasoning"@)
        } else {
            match extra.get("thinking"@) {
                Some(thinking) => thinking.get_str("content"@),
                None => None,
            }
        }
    }

    /// The signature that a delta carries for its reasoning.
    pub open spec fn reasoning_signature_delta(self) -> Option<Seq<char>> {
        match JsonView::Object(self.extra).get("thinking"@) {
            Some(thinking) => thinking.get_str("signature"@),
            None => None,
        }
    }
}

impl ChatDelta {
    /// The reasoning text of a delta.
    pub fn reasoning_delta(&self) -> (result: Option<&str>)
        ensures
            result.deep_view() == self.deep_view().reasoning_delta(),
    {
        if let Some(text) = &self.reasoning_content {
            return Some(text.as_str());
        }
        if let Some(value) = find_entry(&self.extra, "reasoning") {
            if let Some(text) = value.as_str() {
                return Some(text);
            }
        }
        match find_entry(&self.extra, "thinking") {
            Some(thinking) => thinking.get_str("content"),
            None => None,
        }
    }

    /// The signature that a delta carries for its reasoning.
    pub fn reasoning_signature_delta(&self) -> (result: Option<&str>)
        ensures
            result.deep_view() == self.deep_view().reasoning_signature_delta(),
    {
        match find_entry(&self.extra, "thinking") {
            Some(thinking) => thinking.get_str("signature"),
            None => None,
        }
    }
}

} // verus!
