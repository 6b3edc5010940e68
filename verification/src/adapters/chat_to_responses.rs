//! The chunks of a chat completion, gathered into the items of a response.
use vstd::prelude::*;

use crate::duplicate::Duplicate;
use crate::error::{outcome, upstream_error, AppError, AppErrorView, AppResult};
use crate::ids::{fresh_id, fresh_ids, is_simple_uuid, are_simple_uuids, item_id, prefixed_id};
use crate::json::{
    json_empty_object, json_parsed, json_rendered, parse_json, render_json, Json, JsonView,
};
use crate::models::chat::{
    ChatChunkChoice, ChatChunkChoiceView, ChatCompletionChunk, ChatCompletionChunkView,
    ChatFunctionCall, ChatFunctionCallView, ChatMessage, ChatMessageView, ChatThinking,
    ChatThinkingView, ChatToolCall, ChatToolCallView,
};
use crate::models::responses::{
    ContentItem, ContentItemView, LocalShellAction, LocalShellActionView, LocalShellExecAction,
    ReasoningContentItem, ReasoningContentItemView, ReasoningSummaryItem, ReasoningSummaryItemView,
    ResponseItem, ResponseItemView, WebSearchAction, WebSearchActionView,
};
use crate::models::shell_call::shell_action;
use crate::text::{lowered, trimmed};

use super::responses_to_chat::content::{plain_text, stringify_tool_output};
use super::responses_to_chat::tools::{
    ToolKind, ToolKindView, ToolRegistry, ANALYZE_IMAGE_TOOL_NAME,
};
use self::arguments::{argument_payload, extract_json_arguments};

pub mod arguments;
pub mod content_laws;
pub mod stream_laws;

verus! {

/// Something that a chunk adds to the canonical stream.
#[derive(Debug, PartialEq)]
pub enum StreamEmission {
    OutputItemAdded(ResponseItem),
    OutputTextDelta(String),
    ContentPartAdded,
    ContentPartDone { text: String },
    ReasoningItemAdded(ResponseItem),
    ReasoningTextDelta(String),
    ReasoningSignatureDelta(String),
    ReasoningSummaryPartAdded,
    ReasoningSummaryPartDone { text: String },
    FunctionCallArgumentsDelta {
        call_id: String,
        name: Option<String>,
        delta: String,
    },
    RefusalDelta(String),
}

/// The model of [`StreamEmission`].
pub enum StreamEmissionView {
    OutputItemAdded(ResponseItemView),
    OutputTextDelta(Seq<char>),
    ContentPartAdded,
    ContentPartDone { text: Seq<char> },
    ReasoningItemAdded(ResponseItemView),
    ReasoningTextDelta(Seq<char>),
    ReasoningSignatureDelta(Seq<char>),
    ReasoningSummaryPartAdded,
    ReasoningSummaryPartDone { text: Seq<char> },
    FunctionCallArgumentsDelta {
        call_id: Seq<char>,
        name: Option<Seq<char>>,
        delta: Seq<char>,
    },
    RefusalDelta(Seq<char>),
}

impl DeepView for StreamEmission {
    type V = StreamEmissionView;

    open spec fn deep_view(&self) -> StreamEmissionView {
        match self {
            StreamEmission::OutputItemAdded(inner) => StreamEmissionView::OutputItemAdded(inner.deep_view()),
            StreamEmission::OutputTextDelta(inner) => StreamEmissionView::OutputTextDelta(inner@),
            StreamEmission::ContentPartAdded => StreamEmissionView::ContentPartAdded,
            StreamEmission::ContentPartDone { text } => StreamEmissionView::ContentPartDone {
                text: text@,
            },
            StreamEmission::ReasoningItemAdded(inner) => StreamEmissionView::ReasoningItemAdded(inner.deep_view()),
            StreamEmission::ReasoningTextDelta(inner) => StreamEmissionView::ReasoningTextDelta(inner@),
            StreamEmission::ReasoningSignatureDelta(inner) => StreamEmissionView::ReasoningSignatureDelta(inner@),
            StreamEmission::ReasoningSummaryPartAdded => StreamEmissionView::ReasoningSummaryPartAdded,
            StreamEmission::ReasoningSummaryPartDone { text } => StreamEmissionView::ReasoningSummaryPartDone {
                text: text@,
            },
            StreamEmission::FunctionCallArgumentsDelta { call_id, name, delta } => StreamEmissionView::FunctionCallArgumentsDelta {
                call_id: call_id@,
                name: name.deep_view(),
                delta: delta@,
            },
            StreamEmission::RefusalDelta(inner) => StreamEmissionView::RefusalDelta(inner@),
        }
    }
}

/// A tool call of a finished turn.
#[derive(Debug, PartialEq)]
pub struct ResolvedToolCall {
    pub kind: ToolKind,
    pub arguments: Json,
    pub public_item: ResponseItem,
    pub internal_call: ChatToolCall,
}

/// The model of [`ResolvedToolCall`].
pub struct ResolvedToolCallView {
    pub kind: ToolKindView,
    pub arguments: JsonView,
    pub public_item: ResponseItemView,
    pub internal_call: ChatToolCallView,
}

impl DeepView for ResolvedToolCall {
    type V = ResolvedToolCallView;

    open spec fn deep_view(&self) -> ResolvedToolCallView {
        ResolvedToolCallView {
            kind: self.kind.deep_view(),
            arguments: self.arguments.deep_view(),
            public_item: self.public_item.deep_view(),
            internal_call: self.internal_call.deep_view(),
        }
    }
}

/// A finished turn of the assistant.
#[derive(Debug, PartialEq)]
pub struct FinalizedAssistantTurn {
    pub message_item: Option<ResponseItem>,
    pub reasoning_item: Option<ResponseItem>,
    pub tool_calls: Vec<ResolvedToolCall>,
    pub internal_assistant_message: Option<ChatMessage>,
    pub content_part_emitted: bool,
    pub reasoning_part_emitted: bool,
    pub refusal_text: String,
    pub finish_reason: Option<String>,
    pub stop_sequence: Option<String>,
}

/// The model of [`FinalizedAssistantTurn`].
pub struct FinalizedAssistantTurnView {
    pub message_item: Option<ResponseItemView>,
    pub reasoning_item: Option<ResponseItemView>,
    pub tool_calls: Seq<ResolvedToolCallView>,
    pub internal_assistant_message: Option<ChatMessageView>,
    pub content_part_emitted: bool,
    pub reasoning_part_emitted: bool,
    pub refusal_text: Seq<char>,
    pub finish_reason: Option<Seq<char>>,
    pub stop_sequence: Option<Seq<char>>,
}

impl DeepView for FinalizedAssistantTurn {
    type V = FinalizedAssistantTurnView;

    open spec fn deep_view(&self) -> FinalizedAssistantTurnView {
        FinalizedAssistantTurnView {
            message_item: self.message_item.deep_view(),
            reasoning_item: self.reasoning_item.deep_view(),
            tool_calls: self.tool_calls.deep_view(),
            internal_assistant_message: self.internal_assistant_message.deep_view(),
            content_part_emitted: self.content_part_emitted,
            reasoning_part_emitted: self.reasoning_part_emitted,
            refusal_text: self.refusal_text@,
            finish_reason: self.finish_reason.deep_view(),
            stop_sequence: self.stop_sequence.deep_view(),
        }
    }
}

/// A tool call that is being streamed.
#[derive(Debug, PartialEq)]
pub struct ToolCallAccumulator {
    pub id: Option<String>,
    pub name: Option<String>,
    pub arguments_text: String,
}

/// The model of [`ToolCallAccumulator`].
pub struct ToolCallAccumulatorView {
    pub id: Option<Seq<char>>,
    pub name: Option<Seq<char>>,
    pub arguments_text: Seq<char>,
}

impl DeepView for ToolCallAccumulator {
    type V = ToolCallAccumulatorView;

    open spec fn deep_view(&self) -> ToolCallAccumulatorView {
        ToolCallAccumulatorView {
            id: self.id.deep_view(),
            name: self.name.deep_view(),
            arguments_text: self.arguments_text@,
        }
    }
}

/// Fresh ids for the items that a choice may begin.
#[derive(Debug, PartialEq)]
pub struct ChoiceIds {
    pub reasoning: String,
    pub message: String,
    pub calls: Vec<String>,
    pub function_call: String,
}

/// The model of [`ChoiceIds`].
pub struct ChoiceIdsView {
    pub reasoning: Seq<char>,
    pub message: Seq<char>,
    pub calls: Seq<Seq<char>>,
    pub function_call: Seq<char>,
}

impl DeepView for ChoiceIds {
    type V = ChoiceIdsView;

    open spec fn deep_view(&self) -> ChoiceIdsView {
        ChoiceIdsView {
            reasoning: self.reasoning@,
            message: self.message@,
            calls: self.calls.deep_view(),
            function_call: self.function_call@,
        }
    }
}

/// What the chunks of a turn have added up to.
#[derive(Debug, PartialEq)]
pub struct StreamState {
    message_id: Option<String>,
    reasoning_id: Option<String>,
    output_text: String,
    reasoning_text: String,
    reasoning_signature: Option<String>,
    tool_calls: StreamedCalls,
    content_part_emitted: bool,
    reasoning_part_emitted: bool,
    refusal_text: String,
    finish_reason: Option<String>,
    stop_sequence: Option<String>,
}

/// The model of [`StreamState`].
pub struct StreamStateView {
    pub message_id: Option<Seq<char>>,
    pub reasoning_id: Option<Seq<char>>,
    pub output_text: Seq<char>,
    pub reasoning_text: Seq<char>,
    pub reasoning_signature: Option<Seq<char>>,
    pub tool_calls: Seq<(usize, ToolCallAccumulatorView)>,
    pub content_part_emitted: bool,
    pub reasoning_part_emitted: bool,
    pub refusal_text: Seq<char>,
    pub finish_reason: Option<Seq<char>>,
    pub stop_sequence: Option<Seq<char>>,
}

impl DeepView for StreamState {
    type V = StreamStateView;

    closed spec fn deep_view(&self) -> StreamStateView {
        StreamStateView {
            message_id: self.message_id.deep_view(),
            reasoning_id: self.reasoning_id.deep_view(),
            output_text: self.output_text@,
            reasoning_text: self.reasoning_text@,
            reasoning_signature: self.reasoning_signature.deep_view(),
            tool_calls: self.tool_calls.deep_view(),
            content_part_emitted: self.content_part_emitted,
            reasoning_part_emitted: self.reasoning_part_emitted,
            refusal_text: self.refusal_text@,
            finish_reason: self.finish_reason.deep_view(),
            stop_sequence: self.stop_sequence.deep_view(),
        }
    }
}

// ---------------------------------------------------------------------------------------------
// Tool calls that are being streamed
// ---------------------------------------------------------------------------------------------

/// Whether the calls are in strictly ascending order of their indices.
pub open spec fn calls_ascending(calls: Seq<(usize, ToolCallAccumulatorView)>) -> bool {
    forall|i: int, j: int|
        0 <= i < j < calls.len() ==> (#[trigger] calls[i]).0 < (#[trigger] calls[j]).0
}

/// The place of the first call with an index that is not below `index`.
pub open spec fn call_place(calls: Seq<(usize, ToolCallAccumulatorView)>, index: usize) -> int
    decreases calls.len(),
{
    if calls.len() > 0 && calls.last().0 >= index {
        call_place(calls.drop_last(), index)
    } else {
        calls.len() as int
    }
}

/// Whether a call with the given index is being streamed.
pub open spec fn has_call(calls: Seq<(usize, ToolCallAccumulatorView)>, index: usize) -> bool {
    let place = call_place(calls, index);
    0 <= place < calls.len() && calls[place].0 == index
}

/// What has been streamed of the call with the given index.
pub open spec fn call_at(calls: Seq<(usize, ToolCallAccumulatorView)>, index: usize) -> ToolCallAccumulatorView {
    if has_call(calls, index) {
        calls[call_place(calls, index)].1
    } else {
        ToolCallAccumulatorView { id: None, name: None, arguments_text: Seq::empty() }
    }
}

/// `calls` with `call` under `index`.
pub open spec fn with_call(
    calls: Seq<(usize, ToolCallAccumulatorView)>,
    index: usize,
    call: ToolCallAccumulatorView,
) -> Seq<(usize, ToolCallAccumulatorView)> {
    let place = call_place(calls, index);
    if has_call(calls, index) {
        calls.update(place, (index, call))
    } else {
        calls.insert(place, (index, call))
    }
}

proof fn lemma_call_place(calls: Seq<(usize, ToolCallAccumulatorView)>, index: usize, place: int)
    requires
        0 <= place <= calls.len(),
        forall|k: int| place <= k < calls.len() ==> (#[trigger] calls[k]).0 >= index,
        place > 0 ==> calls[place - 1].0 < index,
    ensures
        call_place(calls, index) == place,
    decreases calls.len(),
{
    if place < calls.len() {
        assert(calls.last() == calls[calls.len() - 1]);
        lemma_call_place(calls.drop_last(), index, place);
    }
}

/// A delta of a tool call, as it arrives.
pub struct CallDelta {
    pub index: usize,
    pub id: Option<Seq<char>>,
    pub name: Option<Seq<char>>,
    pub arguments: Option<JsonView>,
}

/// A call after a delta, and what the delta adds to the stream. A call that carries arguments has
/// an id from then on: the one that came with it, or `fresh`.
pub open spec fn call_after(
    call: ToolCallAccumulatorView,
    delta: CallDelta,
    fresh: Seq<char>,
) -> (ToolCallAccumulatorView, Seq<StreamEmissionView>) {
    let name = if delta.name is Some {
        delta.name
    } else {
        call.name
    };
    let known_id = if call.id is Some {
        call.id
    } else {
        delta.id
    };
    match delta.arguments {
        None => (ToolCallAccumulatorView { id: known_id, name, ..call }, Seq::empty()),
        Some(value) => {
            let id = match known_id {
                Some(id) => id,
                None => prefixed_id("call"@, fresh),
            };
            let fragment = plain_text(value);
            (
                ToolCallAccumulatorView {
                    id: Some(id),
                    name,
                    arguments_text: call.arguments_text + fragment,
                },
                if fragment.len() > 0 {
                    seq![
                        StreamEmissionView::FunctionCallArgumentsDelta {
                            call_id: id,
                            name,
                            delta: fragment,
                        },
                    ]
                } else {
                    Seq::empty()
                },
            )
        },
    }
}

/// What a turn has come to, and what its last chunk has added to the stream so far.
pub struct Progress {
    pub state: StreamStateView,
    pub emissions: Seq<StreamEmissionView>,
}

impl Progress {
    pub open spec fn emit(self, emission: StreamEmissionView) -> Progress {
        Progress { emissions: self.emissions.push(emission), ..self }
    }

    /// The turn after a delta of a tool call.
    pub open spec fn tool_call(self, delta: CallDelta, fresh: Seq<char>) -> Progress {
        let (call, added) = call_after(call_at(self.state.tool_calls, delta.index), delta, fresh);
        Progress {
            state: StreamStateView {
                tool_calls: with_call(self.state.tool_calls, delta.index, call),
                ..self.state
            },
            emissions: self.emissions + added,
        }
    }

    /// The turn after the first `count` of `calls`.
    pub open spec fn tool_calls(
        self,
        calls: Seq<ChatToolCallView>,
        fresh: Seq<Seq<char>>,
        count: int,
    ) -> Progress
        decreases count,
    {
        if count <= 0 {
            self
        } else {
            self.tool_calls(calls, fresh, count - 1).tool_call(
                delta_of(calls[count - 1]),
                fresh[count - 1],
            )
        }
    }

    /// The turn after a piece of reasoning.
    pub open spec fn reasoning(self, text: Seq<char>, fresh: Seq<char>) -> Progress {
        let id = prefixed_id("rsn"@, fresh);
        let begun = if self.state.reasoning_id is None {
            Progress {
                state: StreamStateView {
                    reasoning_id: Some(id),
                    reasoning_part_emitted: false,
                    ..self.state
                },
                ..self
            }.emit(
                StreamEmissionView::ReasoningItemAdded(
                    ResponseItemView::Reasoning {
                        id,
                        summary: Seq::empty(),
                        content: Some(Seq::empty()),
                        encrypted_content: None,
                    },
                ),
            )
        } else {
            self
        };
        let opened = if !begun.state.reasoning_part_emitted {
            begun.emit(StreamEmissionView::ReasoningSummaryPartAdded)
        } else {
            begun
        };
        Progress {
            state: StreamStateView {
                reasoning_part_emitted: true,
                reasoning_text: opened.state.reasoning_text + text,
                ..opened.state
            },
            ..opened
        }.emit(StreamEmissionView::ReasoningTextDelta(text))
    }

    /// The turn after a signature; one without reasoning before it is passed over.
    pub open spec fn signature(self, signature: Seq<char>) -> Progress {
        if self.state.reasoning_id is Some {
            Progress {
                state: StreamStateView { reasoning_signature: Some(signature), ..self.state },
                ..self
            }.emit(StreamEmissionView::ReasoningSignatureDelta(signature))
        } else {
            self
        }
    }

    /// The turn after a piece of the answer.
    pub open spec fn content(self, text: Seq<char>, fresh: Seq<char>) -> Progress {
        let id = prefixed_id("msg"@, fresh);
        let begun = if self.state.message_id is None {
            Progress {
                state: StreamStateView {
                    message_id: Some(id),
                    content_part_emitted: false,
                    ..self.state
                },
                ..self
            }.emit(
                StreamEmissionView::OutputItemAdded(assistant_item(Some(id), Seq::empty())),
            )
        } else {
            self
        };
        let opened = if !begun.state.content_part_emitted {
            begun.emit(StreamEmissionView::ContentPartAdded)
        } else {
            begun
        };
        Progress {
            state: StreamStateView {
                content_part_emitted: true,
                output_text: opened.state.output_text + text,
                ..opened.state
            },
            ..opened
        }.emit(StreamEmissionView::OutputTextDelta(text))
    }

    /// The turn after a piece of a refusal.
    pub open spec fn refusal(self, text: Seq<char>) -> Progress {
        Progress {
            state: StreamStateView { refusal_text: self.state.refusal_text + text, ..self.state },
            ..self
        }.emit(StreamEmissionView::RefusalDelta(text))
    }

    /// The turn after one choice of a chunk.
    pub open spec fn choice(self, choice: ChatChunkChoiceView, fresh: ChoiceIdsView) -> Progress {
        let reasoned = match filled_text(choice.delta.reasoning_delta()) {
            Some(text) => self.reasoning(text, fresh.reasoning),
            None => self,
        };
        let signed = match filled_text(choice.delta.reasoning_signature_delta()) {
            Some(signature) => reasoned.signature(signature),
            None => reasoned,
        };
        let answered = match filled_text(choice.delta.content) {
            Some(text) => signed.content(text, fresh.message),
            None => signed,
        };
        let refused = match filled_text(choice.delta.refusal) {
            Some(text) => answered.refusal(text),
            None => answered,
        };
        let ended = Progress {
            state: StreamStateView {
                finish_reason: if choice.finish_reason is Some {
                    choice.finish_reason
                } else {
                    refused.state.finish_reason
                },
                stop_sequence: match choice.stop_reason {
                    Some(JsonView::Text(stop)) => if stop.len() > 0 {
                        Some(stop)
                    } else {
                        refused.state.stop_sequence
                    },
                    _ => refused.state.stop_sequence,
                },
                ..refused.state
            },
            ..refused
        };
        let called = match choice.delta.tool_calls {
            Some(calls) => ended.tool_calls(calls, fresh.calls, calls.len() as int),
            None => ended,
        };
        match choice.delta.function_call {
            Some(call) => called.tool_call(
                CallDelta { index: 0, id: None, name: call.name, arguments: call.arguments },
                fresh.function_call,
            ),
            None => called,
        }
    }

    /// The turn after the first `count` choices of a chunk.
    pub open spec fn choices(
        self,
        choices: Seq<ChatChunkChoiceView>,
        fresh: Seq<ChoiceIdsView>,
        count: int,
    ) -> Progress
        decreases count,
    {
        if count <= 0 {
            self
        } else {
            self.choices(choices, fresh, count - 1).choice(choices[count - 1], fresh[count - 1])
        }
    }
}

/// The text, unless it is empty.
pub open spec fn filled_text(text: Option<Seq<char>>) -> Option<Seq<char>> {
    match text {
        Some(inner) => if inner.len() > 0 {
            Some(inner)
        } else {
            None
        },
        None => None,
    }
}

/// A tool call of a chunk as a delta; one without an index belongs to the first call.
pub open spec fn delta_of(call: ChatToolCallView) -> CallDelta {
    CallDelta {
        index: match call.index {
            Some(index) => index,
            None => 0,
        },
        id: call.id,
        name: call.function.name,
        arguments: call.function.arguments,
    }
}

/// A message of the assistant.
pub open spec fn assistant_item(id: Option<Seq<char>>, text: Seq<char>) -> ResponseItemView {
    ResponseItemView::Message {
        id,
        role: "assistant"@,
        content: seq![ContentItemView::OutputText { text }],
        phase: None,
    }
}

/// Whether `fresh` holds an id for everything that the choices may begin.
pub open spec fn ids_cover(choices: Seq<ChatChunkChoiceView>, fresh: Seq<ChoiceIdsView>) -> bool {
    &&& fresh.len() == choices.len()
    &&& forall|k: int|
        0 <= k < choices.len() ==> (#[trigger] fresh[k]).calls.len() == (match choices[k].delta.tool_calls {
            Some(calls) => calls.len(),
            None => 0,
        })
}

/// Whether all the ids are fresh ones.
pub open spec fn ids_are_fresh(fresh: Seq<ChoiceIdsView>) -> bool {
    forall|k: int|
        0 <= k < fresh.len() ==> {
            &&& is_simple_uuid((#[trigger] fresh[k]).reasoning)
            &&& is_simple_uuid(fresh[k].message)
            &&& are_simple_uuids(fresh[k].calls)
            &&& is_simple_uuid(fresh[k].function_call)
        }
}

/// The turn after a chunk.
pub open spec fn chunk_applied(
    state: StreamStateView,
    chunk: ChatCompletionChunkView,
    fresh: Seq<ChoiceIdsView>,
) -> Progress {
    Progress { state, emissions: Seq::empty() }.choices(
        chunk.choices,
        fresh,
        chunk.choices.len() as int,
    )
}

fn make_choice_ids(choice: &ChatChunkChoice) -> (result: ChoiceIds)
    ensures
        is_simple_uuid(result.deep_view().reasoning),
        is_simple_uuid(result.deep_view().message),
        are_simple_uuids(result.deep_view().calls),
        is_simple_uuid(result.deep_view().function_call),
        result.deep_view().calls.len() == (match choice.deep_view().delta.tool_calls {
            Some(calls) => calls.len(),
            None => 0,
        }),
{
    let count: usize = match &choice.delta.tool_calls {
        Some(calls) => calls.len(),
        None => 0,
    };
    ChoiceIds {
        reasoning: fresh_id(),
        message: fresh_id(),
        calls: fresh_ids(count),
        function_call: fresh_id(),
    }
}

fn nonempty(text: Option<&str>) -> (result: Option<&str>)
    ensures
        result.deep_view() == filled_text(text.deep_view()),
{
    match text {
        Some(inner) => if inner.is_empty() {
            None
        } else {
            Some(inner)
        },
        None => None,
    }
}

fn as_text(text: &Option<String>) -> (result: Option<&str>)
    ensures
        result.deep_view() == text.deep_view(),
{
    match text {
        Some(inner) => Some(inner.as_str()),
        None => None,
    }
}

impl ToolCallAccumulator {
    fn empty() -> (result: Self)
        ensures
            result.deep_view() == (ToolCallAccumulatorView {
                id: None,
                name: None,
                arguments_text: Seq::empty(),
            }),
    {
        ToolCallAccumulator { id: None, name: None, arguments_text: String::new() }
    }

    /// The id of the call. A call without one takes `upstream_id`, or else `fresh`.
    fn ensure_call_id(&mut self, upstream_id: Option<&str>, fresh: &str) -> (result: String)
        ensures
            final(self).deep_view() == (ToolCallAccumulatorView {
                id: Some(result@),
                ..old(self).deep_view()
            }),
            result@ == (match (old(self).deep_view().id, upstream_id.deep_view()) {
                (Some(id), _) => id,
                (None, Some(id)) => id,
                (None, None) => prefixed_id("call"@, fresh@),
            }),
    {
        let id = match &self.id {
            Some(id) => id.clone(),
            None => match upstream_id {
                Some(id) => id.to_string(),
                None => item_id("call", fresh),
            },
        };
        self.id = Some(id.clone());
        id
    }
}

/// The tool calls that are being streamed, in the order of their indices.
#[derive(Debug, PartialEq)]
struct StreamedCalls {
    calls: Vec<(usize, ToolCallAccumulator)>,
}

impl DeepView for StreamedCalls {
    type V = Seq<(usize, ToolCallAccumulatorView)>;

    closed spec fn deep_view(&self) -> Seq<(usize, ToolCallAccumulatorView)> {
        self.calls.deep_view()
    }
}

impl StreamedCalls {
    #[verifier::type_invariant]
    spec fn inv(&self) -> bool {
        calls_ascending(self.calls.deep_view())
    }

    fn new() -> (result: Self)
        ensures
            result.deep_view() == Seq::<(usize, ToolCallAccumulatorView)>::empty(),
    {
        let calls: Vec<(usize, ToolCallAccumulator)> = Vec::new();
        assert(calls.deep_view() =~= Seq::<(usize, ToolCallAccumulatorView)>::empty());
        StreamedCalls { calls }
    }
}

/// Appends a piece of arguments: the text of a string, or the JSON text of any other value.
pub fn append_argument_fragment(buffer: &mut String, value: &Json)
    ensures
        final(buffer)@ == old(buffer)@ + plain_text(value.deep_view()),
{
    buffer.push_str(stringify_tool_output(value).as_str());
}

impl StreamState {
    /// The text of the refusal so far.
    pub fn refusal_text(&self) -> (result: &str)
        ensures
            result@ == self.deep_view().refusal_text,
    {
        self.refusal_text.as_str()
    }

    fn apply_tool_call_delta(
        &mut self,
        index: usize,
        upstream_id: Option<&str>,
        name: Option<&str>,
        arguments: Option<&Json>,
        fresh: &str,
        emissions: &mut Vec<StreamEmission>,
    )
        ensures
            (Progress { state: final(self).deep_view(), emissions: final(emissions).deep_view() })
                == (Progress {
                state: old(self).deep_view(),
                emissions: old(emissions).deep_view(),
            }).tool_call(
                CallDelta {
                    index,
                    id: upstream_id.deep_view(),
                    name: name.deep_view(),
                    arguments: arguments.deep_view(),
                },
                fresh@,
            ),
    {
        proof {
            use_type_invariant(&self.tool_calls);
        }
        let ghost before = self.tool_calls.deep_view();
        let ghost emitted = emissions.deep_view();
        let ghost delta = CallDelta {
            index,
            id: upstream_id.deep_view(),
            name: name.deep_view(),
            arguments: arguments.deep_view(),
        };
        let mut calls: Vec<(usize, ToolCallAccumulator)> = Vec::new();
        std::mem::swap(&mut calls, &mut self.tool_calls.calls);
        let mut place: usize = calls.len();
        while place > 0 && calls[place - 1].0 >= index
            invariant
                place <= calls@.len(),
                before == calls.deep_view(),
                forall|k: int| place <= k < before.len() ==> (#[trigger] before[k]).0 >= index,
            decreases place,
        {
            assert(before[place - 1] == calls@[place - 1].deep_view());
            place = place - 1;
        }
        proof {
            if place > 0 {
                assert(before[place - 1] == calls@[place - 1].deep_view());
            }
            lemma_call_place(before, index, place as int);
        }
        let found = place < calls.len() && calls[place].0 == index;
        assert(found == has_call(before, index));
        let mut entry = if found {
            calls.remove(place).1
        } else {
            ToolCallAccumulator::empty()
        };
        let ghost rest = calls.deep_view();
        assert(rest =~= if found {
            before.remove(place as int)
        } else {
            before
        });
        assert(entry.deep_view() == call_at(before, index));
        if let Some(name) = name {
            entry.name = Some(name.to_string());
        }
        if upstream_id.is_some() && entry.id.is_none() {
            let _ = entry.ensure_call_id(upstream_id, fresh);
        }
        if let Some(arguments) = arguments {
            let call_id = entry.ensure_call_id(upstream_id, fresh);
            let fragment = stringify_tool_output(arguments);
            append_argument_fragment(&mut entry.arguments_text, arguments);
            if !fragment.is_empty() {
                let emission = StreamEmission::FunctionCallArgumentsDelta {
                    call_id,
                    name: entry.name.duplicate(),
                    delta: fragment,
                };
                let ghost added = emission.deep_view();
                emissions.push(emission);
                assert(emissions.deep_view() =~= emitted + seq![added]);
            } else {
                assert(emissions.deep_view() =~= emitted + Seq::empty());
            }
        } else {
            assert(emissions.deep_view() =~= emitted + Seq::empty());
        }
        let ghost call = entry.deep_view();
        calls.insert(place, (index, entry));
        proof {
            assert(calls.deep_view() =~= rest.insert(place as int, (index, call)));
            assert(calls.deep_view() =~= with_call(before, index, call));
            lemma_with_call_ascending(before, index, call);
        }
        self.tool_calls = StreamedCalls { calls };
    }

    fn apply_choice(
        &mut self,
        choice: &ChatChunkChoice,
        fresh: &ChoiceIds,
        emissions: &mut Vec<StreamEmission>,
    )
        requires
            fresh.deep_view().calls.len() == (match choice.deep_view().delta.tool_calls {
                Some(calls) => calls.len(),
                None => 0,
            }),
        ensures
            (Progress { state: final(self).deep_view(), emissions: final(emissions).deep_view() })
                == (Progress {
                state: old(self).deep_view(),
                emissions: old(emissions).deep_view(),
            }).choice(choice.deep_view(), fresh.deep_view()),
    {
        let ghost start = Progress { state: self.deep_view(), emissions: emissions.deep_view() };
        if let Some(text) = nonempty(choice.delta.reasoning_delta()) {
            self.apply_reasoning(text, fresh.reasoning.as_str(), emissions);
        }
        if let Some(signature) = nonempty(choice.delta.reasoning_signature_delta()) {
            if self.reasoning_id.is_some() {
                self.reasoning_signature = Some(signature.to_string());
                push_emission(
                    emissions,
                    StreamEmission::ReasoningSignatureDelta(signature.to_string()),
                );
            }
        }
        if let Some(text) = nonempty(as_text(&choice.delta.content)) {
            self.apply_content(text, fresh.message.as_str(), emissions);
        }
        if let Some(text) = nonempty(as_text(&choice.delta.refusal)) {
            self.refusal_text.push_str(text);
            push_emission(emissions, StreamEmission::RefusalDelta(text.to_string()));
        }
        if let Some(reason) = &choice.finish_reason {
            self.finish_reason = Some(reason.clone());
        }
        if let Some(Json::Text(stop)) = &choice.stop_reason {
            if !stop.is_empty() {
                self.stop_sequence = Some(stop.clone());
            }
        }
        let ghost ended = Progress { state: self.deep_view(), emissions: emissions.deep_view() };
        if let Some(tool_calls) = &choice.delta.tool_calls {
            let ghost calls = tool_calls.deep_view();
            let ghost ids = fresh.calls.deep_view();
            for index in 0..tool_calls.len()
                invariant
                    calls == tool_calls.deep_view(),
                    ids == fresh.calls.deep_view(),
                    ids.len() == calls.len(),
                    (Progress { state: self.deep_view(), emissions: emissions.deep_view() })
                        == ended.tool_calls(calls, ids, index as int),
            {
                let tool_call = &tool_calls[index];
                let position: usize = match tool_call.index {
                    Some(position) => position,
                    None => 0,
                };
                assert(calls[index as int] == tool_call.deep_view());
                assert(ids[index as int] == fresh.calls@[index as int]@);
                self.apply_tool_call_delta(
                    position,
                    as_text(&tool_call.id),
                    as_text(&tool_call.function.name),
                    tool_call.function.arguments.as_ref(),
                    fresh.calls[index].as_str(),
                    emissions,
                );
            }
        }
        if let Some(function_call) = &choice.delta.function_call {
            self.apply_tool_call_delta(
                0,
                None,
                as_text(&function_call.name),
                function_call.arguments.as_ref(),
                fresh.function_call.as_str(),
                emissions,
            );
        }
    }

    fn apply_reasoning(&mut self, text: &str, fresh: &str, emissions: &mut Vec<StreamEmission>)
        ensures
            (Progress { state: final(self).deep_view(), emissions: final(emissions).deep_view() })
                == (Progress {
                state: old(self).deep_view(),
                emissions: old(emissions).deep_view(),
            }).reasoning(text@, fresh@),
    {
        if self.reasoning_id.is_none() {
            let id = item_id("rsn", fresh);
            let summary: Vec<ReasoningSummaryItem> = Vec::new();
            let content: Vec<ReasoningContentItem> = Vec::new();
            assert(summary.deep_view() =~= Seq::<ReasoningSummaryItemView>::empty());
            assert(content.deep_view() =~= Seq::<ReasoningContentItemView>::empty());
            self.reasoning_id = Some(id.clone());
            self.reasoning_part_emitted = false;
            push_emission(
                emissions,
                StreamEmission::ReasoningItemAdded(
                    ResponseItem::Reasoning {
                        id,
                        summary,
                        content: Some(content),
                        encrypted_content: None,
                    },
                ),
            );
        }
        if !self.reasoning_part_emitted {
            push_emission(emissions, StreamEmission::ReasoningSummaryPartAdded);
            self.reasoning_part_emitted = true;
        }
        self.reasoning_text.push_str(text);
        push_emission(emissions, StreamEmission::ReasoningTextDelta(text.to_string()));
    }

    fn apply_content(&mut self, text: &str, fresh: &str, emissions: &mut Vec<StreamEmission>)
        ensures
            (Progress { state: final(self).deep_view(), emissions: final(emissions).deep_view() })
                == (Progress {
                state: old(self).deep_view(),
                emissions: old(emissions).deep_view(),
            }).content(text@, fresh@),
    {
        if self.message_id.is_none() {
            let id = item_id("msg", fresh);
            self.message_id = Some(id.clone());
            self.content_part_emitted = false;
            push_emission(
                emissions,
                StreamEmission::OutputItemAdded(make_assistant_item(Some(id), String::new())),
            );
        }
        if !self.content_part_emitted {
            push_emission(emissions, StreamEmission::ContentPartAdded);
            self.content_part_emitted = true;
        }
        self.output_text.push_str(text);
        push_emission(emissions, StreamEmission::OutputTextDelta(text.to_string()));
    }

    /// Takes in a chunk. Items that it begins get their ids from `fresh`.
    pub fn apply_chunk_with_ids(&mut self, chunk: &ChatCompletionChunk, fresh: &Vec<ChoiceIds>) -> (result:
        Vec<StreamEmission>)
        requires
            ids_cover(chunk.deep_view().choices, fresh.deep_view()),
        ensures
            (Progress { state: final(self).deep_view(), emissions: result.deep_view() })
                == chunk_applied(old(self).deep_view(), chunk.deep_view(), fresh.deep_view()),
    {
        let ghost choices = chunk.choices.deep_view();
        let ghost ids = fresh.deep_view();
        let mut emissions: Vec<StreamEmission> = Vec::new();
        let ghost start = Progress { state: self.deep_view(), emissions: Seq::empty() };
        assert(emissions.deep_view() =~= start.emissions);
        for index in 0..chunk.choices.len()
            invariant
                choices == chunk.choices.deep_view(),
                ids == fresh.deep_view(),
                ids_cover(choices, ids),
                (Progress { state: self.deep_view(), emissions: emissions.deep_view() })
                    == start.choices(choices, ids, index as int),
        {
            assert(choices[index as int] == chunk.choices@[index as int].deep_view());
            assert(ids[index as int] == fresh@[index as int].deep_view());
            self.apply_choice(&chunk.choices[index], &fresh[index], &mut emissions);
        }
        emissions
    }

    /// Takes in a chunk and returns what it adds to the stream.
    pub fn apply_chunk(&mut self, chunk: &ChatCompletionChunk) -> (result: Vec<StreamEmission>)
        ensures
            exists|fresh: Seq<ChoiceIdsView>|
                #![trigger ids_cover(chunk.deep_view().choices, fresh)]
                {
                    &&& ids_cover(chunk.deep_view().choices, fresh)
                    &&& ids_are_fresh(fresh)
                    &&& (Progress { state: final(self).deep_view(), emissions: result.deep_view() })
                        == chunk_applied(old(self).deep_view(), chunk.deep_view(), fresh)
                },
    {
        let ghost choices = chunk.choices.deep_view();
        let mut fresh: Vec<ChoiceIds> = Vec::new();
        for index in 0..chunk.choices.len()
            invariant
                choices == chunk.choices.deep_view(),
                ids_cover(choices.take(index as int), fresh.deep_view()),
                ids_are_fresh(fresh.deep_view()),
        {
            let ghost before = fresh.deep_view();
            assert(choices[index as int] == chunk.choices@[index as int].deep_view());
            let ids = make_choice_ids(&chunk.choices[index]);
            let ghost added = ids.deep_view();
            fresh.push(ids);
            proof {
                let after = fresh.deep_view();
                assert(after =~= before.push(added));
                let seen = choices.take(index + 1);
                assert forall|k: int| 0 <= k < seen.len() implies (#[trigger] after[k]).calls.len()
                    == (match seen[k].delta.tool_calls {
                    Some(calls) => calls.len(),
                    None => 0,
                }) by {
                    if k < index {
                        assert(after[k] == before[k]);
                        assert(seen[k] == choices.take(index as int)[k]);
                    }
                }
            }
        }
        assert(choices.take(choices.len() as int) =~= choices);
        self.apply_chunk_with_ids(chunk, &fresh)
    }
}

/// A turn of which nothing has been streamed yet.
pub open spec fn new_state() -> StreamStateView {
    StreamStateView {
        message_id: None,
        reasoning_id: None,
        output_text: Seq::empty(),
        reasoning_text: Seq::empty(),
        reasoning_signature: None,
        tool_calls: Seq::empty(),
        content_part_emitted: false,
        reasoning_part_emitted: false,
        refusal_text: Seq::empty(),
        finish_reason: None,
        stop_sequence: None,
    }
}

impl Default for StreamState {
    fn default() -> (result: Self)
        ensures
            result.deep_view() == new_state(),
    {
        StreamState {
            message_id: None,
            reasoning_id: None,
            output_text: String::new(),
            reasoning_text: String::new(),
            reasoning_signature: None,
            tool_calls: StreamedCalls::new(),
            content_part_emitted: false,
            reasoning_part_emitted: false,
            refusal_text: String::new(),
            finish_reason: None,
            stop_sequence: None,
        }
    }
}

fn push_emission(emissions: &mut Vec<StreamEmission>, emission: StreamEmission)
    ensures
        final(emissions).deep_view() == old(emissions).deep_view().push(emission.deep_view()),
{
    let ghost added = emission.deep_view();
    emissions.push(emission);
    assert(emissions.deep_view() =~= old(emissions).deep_view().push(added));
}

fn make_assistant_item(id: Option<String>, text: String) -> (result: ResponseItem)
    ensures
        result.deep_view() == assistant_item(id.deep_view(), text@),
{
    let content = vec![ContentItem::OutputText { text }];
    assert(content.deep_view() =~= seq![ContentItemView::OutputText { text: text@ }]);
    ResponseItem::Message { id, role: "assistant".to_string(), content, phase: None }
}

proof fn lemma_call_place_bounds(calls: Seq<(usize, ToolCallAccumulatorView)>, index: usize)
    requires
        calls_ascending(calls),
    ensures
        0 <= call_place(calls, index) <= calls.len(),
        forall|k: int| 0 <= k < call_place(calls, index) ==> (#[trigger] calls[k]).0 < index,
        forall|k: int| call_place(calls, index) <= k < calls.len() ==> (#[trigger] calls[k]).0 >= index,
    decreases calls.len(),
{
    if calls.len() > 0 && calls.last().0 >= index {
        let shorter = calls.drop_last();
        assert(calls_ascending(shorter));
        lemma_call_place_bounds(shorter, index);
        let place = call_place(calls, index);
        assert forall|k: int| 0 <= k < place implies (#[trigger] calls[k]).0 < index by {
            assert(calls[k] == shorter[k]);
        }
        assert forall|k: int| place <= k < calls.len() implies (#[trigger] calls[k]).0 >= index by {
            if k < shorter.len() {
                assert(calls[k] == shorter[k]);
            }
        }
    }
}

proof fn lemma_with_call_ascending(
    calls: Seq<(usize, ToolCallAccumulatorView)>,
    index: usize,
    call: ToolCallAccumulatorView,
)
    requires
        calls_ascending(calls),
    ensures
        calls_ascending(with_call(calls, index, call)),
{
    lemma_call_place_bounds(calls, index);
    let place = call_place(calls, index);
    let after = with_call(calls, index, call);
    assert forall|i: int, j: int| 0 <= i < j < after.len() implies (#[trigger] after[i]).0 < (
    #[trigger] after[j]).0 by {
        if has_call(calls, index) {
            if i != place {
                assert(after[i] == calls[i]);
            }
            if j != place {
                assert(after[j] == calls[j]);
            }
            assert(calls[i].0 < calls[j].0);
        } else {
            let from = |k: int|
                if k < place {
                    k
                } else {
                    k - 1
                };
            if i != place {
                assert(after[i] == calls[from(i)]);
            }
            if j != place {
                assert(after[j] == calls[from(j)]);
            }
        }
    }
}

// ---------------------------------------------------------------------------------------------
// The finished turn
// ---------------------------------------------------------------------------------------------

/// The arguments that have been streamed for a call, or the error that they are no JSON. `parsed`
/// is what was read from them.
pub open spec fn streamed_arguments(
    name: Seq<char>,
    text: Seq<char>,
    parsed: Result<JsonView, Seq<char>>,
) -> Result<JsonView, AppErrorView> {
    if trimmed(text).len() == 0 {
        Ok(JsonView::Object(Map::empty()))
    } else {
        match parsed {
            Ok(value) => Ok(value),
            Err(message) => Err(
                upstream_error(
                    "failed to parse upstream tool arguments for "@ + name + ": "@ + message,
                ),
            ),
        }
    }
}

/// The item that the client sees of a tool call.
pub open spec fn public_item(kind: ToolKindView, arguments: JsonView, call_id: Seq<char>) -> Result<
    ResponseItemView,
    AppErrorView,
> {
    match kind {
        ToolKindView::Function { public_name, namespace } => Ok(
            ResponseItemView::FunctionCall {
                id: None,
                name: public_name,
                namespace,
                arguments: json_rendered(arguments),
                call_id,
            },
        ),
        ToolKindView::Custom { public_name } => Ok(
            ResponseItemView::CustomToolCall {
                status: None,
                call_id,
                name: public_name,
                input: match arguments.get_str("input"@) {
                    Some(input) => input,
                    None => json_rendered(arguments),
                },
            },
        ),
        ToolKindView::LocalShell => match shell_action(arguments) {
            Ok(action) => Ok(
                ResponseItemView::LocalShellCall {
                    id: None,
                    call_id: Some(call_id),
                    status: "completed"@,
                    action: LocalShellActionView::Exec(action),
                },
            ),
            Err(message) => Err(
                upstream_error("invalid upstream local_shell arguments: "@ + message),
            ),
        },
        ToolKindView::ToolSearch => Ok(
            ResponseItemView::ToolSearchCall {
                call_id: Some(call_id),
                status: None,
                execution: "client"@,
                arguments,
            },
        ),
        ToolKindView::WebSearch => Ok(
            ResponseItemView::WebSearchCall {
                id: Some(call_id),
                status: Some("completed"@),
                action: Some(
                    WebSearchActionView::Search {
                        query: arguments.get_str("query"@),
                        queries: None,
                    },
                ),
            },
        ),
        ToolKindView::ImageAnalysis => Ok(
            ResponseItemView::FunctionCall {
                id: None,
                name: ANALYZE_IMAGE_TOOL_NAME@,
                namespace: None,
                arguments: json_rendered(arguments),
                call_id,
            },
        ),
    }
}

/// A tool call of a finished turn, or why it cannot be served. `parsed` is what was read from its
/// arguments.
pub open spec fn resolved_call(
    call: ToolCallAccumulatorView,
    registry: Map<Seq<char>, ToolKindView>,
    parsed: Result<JsonView, Seq<char>>,
    fresh: Seq<char>,
) -> Result<ResolvedToolCallView, AppErrorView> {
    match call.name {
        None => Err(upstream_error("upstream tool call chunk missing function name"@)),
        Some(name) => if !registry.dom().contains(lowered(name)) {
            Err(upstream_error("unknown tool returned by upstream: "@ + name))
        } else {
            match streamed_arguments(name, call.arguments_text, parsed) {
                Err(error) => Err(error),
                Ok(arguments) => {
                    let kind = registry[lowered(name)];
                    let call_id = match call.id {
                        Some(id) => id,
                        None => prefixed_id("call"@, fresh),
                    };
                    match public_item(kind, arguments, call_id) {
                        Err(error) => Err(error),
                        Ok(item) => Ok(
                            ResolvedToolCallView {
                                kind,
                                arguments,
                                public_item: item,
                                internal_call: ChatToolCallView {
                                    id: Some(call_id),
                                    index: Some(0),
                                    kind: "function"@,
                                    function: ChatFunctionCallView {
                                        name: Some(name),
                                        arguments: Some(arguments),
                                    },
                                },
                            },
                        ),
                    }
                },
            }
        },
    }
}

/// The first `count` tool calls of a finished turn, or the error of the first that has one.
pub open spec fn resolved_calls(
    calls: Seq<(usize, ToolCallAccumulatorView)>,
    registry: Map<Seq<char>, ToolKindView>,
    parsed: Seq<Result<JsonView, Seq<char>>>,
    fresh: Seq<Seq<char>>,
    count: int,
) -> Result<Seq<ResolvedToolCallView>, AppErrorView>
    decreases count,
{
    if count <= 0 {
        Ok(Seq::empty())
    } else {
        match resolved_calls(calls, registry, parsed, fresh, count - 1) {
            Err(error) => Err(error),
            Ok(before) => match resolved_call(
                calls[count - 1].1,
                registry,
                parsed[count - 1],
                fresh[count - 1],
            ) {
                Err(error) => Err(error),
                Ok(call) => Ok(before.push(call)),
            },
        }
    }
}

proof fn lemma_resolved_error_stays(
    calls: Seq<(usize, ToolCallAccumulatorView)>,
    registry: Map<Seq<char>, ToolKindView>,
    parsed: Seq<Result<JsonView, Seq<char>>>,
    fresh: Seq<Seq<char>>,
    count: int,
    upto: int,
)
    requires
        0 <= upto <= count,
        resolved_calls(calls, registry, parsed, fresh, upto) is Err,
    ensures
        resolved_calls(calls, registry, parsed, fresh, count) == resolved_calls(
            calls,
            registry,
            parsed,
            fresh,
            upto,
        ),
    decreases count,
{
    if upto < count {
        lemma_resolved_error_stays(calls, registry, parsed, fresh, count - 1, upto);
    }
}

/// The answer of a turn, where it gave one.
pub open spec fn message_item(state: StreamStateView) -> Option<ResponseItemView> {
    match state.message_id {
        Some(id) => Some(assistant_item(Some(id), state.output_text)),
        None => None,
    }
}

/// The reasoning of a turn, where it gave some.
pub open spec fn reasoning_item(state: StreamStateView) -> Option<ResponseItemView> {
    match state.reasoning_id {
        Some(id) => Some(
            ResponseItemView::Reasoning {
                id,
                summary: Seq::empty(),
                content: Some(
                    seq![ReasoningContentItemView::ReasoningText { text: state.reasoning_text }],
                ),
                encrypted_content: state.reasoning_signature,
            },
        ),
        None => None,
    }
}

/// The turn as a chat message, for the turns that follow. A turn that gave nothing has none.
pub open spec fn internal_message(
    state: StreamStateView,
    calls: Seq<ResolvedToolCallView>,
) -> Option<ChatMessageView> {
    if state.message_id is None && state.reasoning_id is None && calls.len() == 0 {
        None
    } else {
        Some(
            ChatMessageView {
                role: "assistant"@,
                content: if state.message_id is Some {
                    Some(JsonView::Text(state.output_text))
                } else {
                    None
                },
                tool_call_id: None,
                name: None,
                reasoning_content: if state.reasoning_id is Some {
                    Some(state.reasoning_text)
                } else {
                    None
                },
                thinking: if state.reasoning_id is Some && state.reasoning_signature is Some {
                    Some(
                        ChatThinkingView {
                            content: state.reasoning_text,
                            signature: state.reasoning_signature,
                        },
                    )
                } else {
                    None
                },
                tool_calls: if calls.len() > 0 {
                    Some(calls.map_values(|call: ResolvedToolCallView| call.internal_call))
                } else {
                    None
                },
            },
        )
    }
}

/// The models of several values that were read, or of the errors.
pub open spec fn json_outcomes(results: Seq<Result<Json, String>>) -> Seq<
    Result<JsonView, Seq<char>>,
> {
    Seq::new(results.len(), |k: int| outcome(results[k]))
}

/// What is read from the arguments of each call.
pub open spec fn parsed_arguments(calls: Seq<(usize, ToolCallAccumulatorView)>) -> Seq<
    Result<JsonView, Seq<char>>,
> {
    Seq::new(calls.len(), |k: int| json_parsed(argument_payload(calls[k].1.arguments_text)))
}

/// A finished turn, or why it cannot be served. `parsed` is what was read from the arguments of
/// each call.
pub open spec fn finished_turn(
    state: StreamStateView,
    registry: Map<Seq<char>, ToolKindView>,
    parsed: Seq<Result<JsonView, Seq<char>>>,
    fresh: Seq<Seq<char>>,
) -> Result<FinalizedAssistantTurnView, AppErrorView> {
    match resolved_calls(
        state.tool_calls,
        registry,
        parsed,
        fresh,
        state.tool_calls.len() as int,
    ) {
        Err(error) => Err(error),
        Ok(calls) => Ok(
            FinalizedAssistantTurnView {
                message_item: message_item(state),
                reasoning_item: reasoning_item(state),
                tool_calls: calls,
                internal_assistant_message: internal_message(state, calls),
                content_part_emitted: state.content_part_emitted,
                reasoning_part_emitted: state.reasoning_part_emitted,
                refusal_text: state.refusal_text,
                finish_reason: state.finish_reason,
                stop_sequence: state.stop_sequence,
            },
        ),
    }
}

fn read_arguments(name: &str, text: &str, parsed: &Result<Json, String>) -> (result: AppResult<Json>)
    ensures
        outcome(result) == streamed_arguments(name@, text@, outcome(*parsed)),
{
    if text.trim().is_empty() {
        return Ok(json_empty_object());
    }
    match parsed {
        Ok(value) => Ok(value.duplicate()),
        Err(err) => {
            let mut message = "failed to parse upstream tool arguments for ".to_string();
            message.push_str(name);
            message.push_str(": ");
            message.push_str(err.as_str());
            Err(AppError::upstream(message))
        },
    }
}

fn optional_owned(text: Option<&str>) -> (result: Option<String>)
    ensures
        result.deep_view() == text.deep_view(),
{
    match text {
        Some(inner) => Some(inner.to_string()),
        None => None,
    }
}

fn make_public_item(kind: &ToolKind, arguments: &Json, call_id: &String) -> (result: AppResult<
    ResponseItem,
>)
    ensures
        outcome(result) == public_item(kind.deep_view(), arguments.deep_view(), call_id@),
{
    match kind {
        ToolKind::Function { public_name, namespace } => Ok(
            ResponseItem::FunctionCall {
                id: None,
                name: public_name.clone(),
                namespace: namespace.duplicate(),
                arguments: render_json(arguments),
                call_id: call_id.clone(),
            },
        ),
        ToolKind::Custom { public_name } => {
            let input = match arguments.get_str("input") {
                Some(input) => input.to_string(),
                None => render_json(arguments),
            };
            Ok(
                ResponseItem::CustomToolCall {
                    status: None,
                    call_id: call_id.clone(),
                    name: public_name.clone(),
                    input,
                },
            )
        },
        ToolKind::LocalShell => match LocalShellExecAction::from_json(arguments) {
            Ok(action) => Ok(
                ResponseItem::LocalShellCall {
                    id: None,
                    call_id: Some(call_id.clone()),
                    status: "completed".to_string(),
                    action: LocalShellAction::Exec(action),
                },
            ),
            Err(err) => {
                let mut message = "invalid upstream local_shell arguments: ".to_string();
                message.push_str(err.as_str());
                Err(AppError::upstream(message))
            },
        },
        ToolKind::ToolSearch => Ok(
            ResponseItem::ToolSearchCall {
                call_id: Some(call_id.clone()),
                status: None,
                execution: "client".to_string(),
                arguments: arguments.duplicate(),
            },
        ),
        ToolKind::WebSearch => Ok(
            ResponseItem::WebSearchCall {
                id: Some(call_id.clone()),
                status: Some("completed".to_string()),
                action: Some(
                    WebSearchAction::Search {
                        query: optional_owned(arguments.get_str("query")),
                        queries: None,
                    },
                ),
            },
        ),
        ToolKind::ImageAnalysis => Ok(
            ResponseItem::FunctionCall {
                id: None,
                name: ANALYZE_IMAGE_TOOL_NAME.to_string(),
                namespace: None,
                arguments: render_json(arguments),
                call_id: call_id.clone(),
            },
        ),
    }
}

/// A tool call of a finished turn, with what was read from its arguments.
pub fn resolve_call(
    call: &ToolCallAccumulator,
    registry: &ToolRegistry,
    parsed: &Result<Json, String>,
    fresh: &str,
) -> (result: AppResult<ResolvedToolCall>)
    ensures
        outcome(result) == resolved_call(
            call.deep_view(),
            registry.deep_view(),
            outcome(*parsed),
            fresh@,
        ),
{
    let name = match &call.name {
        Some(name) => name,
        None => {
            return Err(
                AppError::upstream("upstream tool call chunk missing function name".to_string()),
            );
        },
    };
    let name_lc = name.as_str().to_ascii_lowercase();
    let kind = match registry.get(name_lc.as_str()) {
        Some(kind) => kind,
        None => {
            let mut message = "unknown tool returned by upstream: ".to_string();
            message.push_str(name.as_str());
            return Err(AppError::upstream(message));
        },
    };
    let arguments = match read_arguments(name.as_str(), call.arguments_text.as_str(), parsed) {
        Ok(arguments) => arguments,
        Err(error) => {
            return Err(error);
        },
    };
    let call_id = match &call.id {
        Some(id) => id.clone(),
        None => item_id("call", fresh),
    };
    let public_item = match make_public_item(kind, &arguments, &call_id) {
        Ok(item) => item,
        Err(error) => {
            return Err(error);
        },
    };
    let internal_call = ChatToolCall {
        id: Some(call_id),
        index: Some(0),
        kind: "function".to_string(),
        function: ChatFunctionCall {
            name: Some(name.clone()),
            arguments: Some(arguments.duplicate()),
        },
    };
    Ok(ResolvedToolCall { kind: kind.duplicate(), arguments, public_item, internal_call })
}

impl StreamState {
    /// How many tool calls have been streamed.
    pub fn call_count(&self) -> (result: usize)
        ensures
            result == self.deep_view().tool_calls.len(),
    {
        self.tool_calls.calls.len()
    }

    /// Ends the turn, with what was read from the arguments of each call. Tool calls that have no
    /// id yet get one from `fresh`.
    pub fn finalize_parsed(
        self,
        registry: &ToolRegistry,
        parsed: &Vec<Result<Json, String>>,
        fresh: &Vec<String>,
    ) -> (result: AppResult<FinalizedAssistantTurn>)
        requires
            parsed@.len() == self.deep_view().tool_calls.len(),
            fresh@.len() == self.deep_view().tool_calls.len(),
        ensures
            outcome(result) == finished_turn(
                self.deep_view(),
                registry.deep_view(),
                json_outcomes(parsed@),
                fresh.deep_view(),
            ),
    {
        let ghost values = json_outcomes(parsed@);
        let ghost state = self.deep_view();
        let ghost names = registry.deep_view();
        let ghost ids = fresh.deep_view();
        let calls = &self.tool_calls.calls;
        let mut resolved_tool_calls: Vec<ResolvedToolCall> = Vec::new();
        let mut internal_tool_calls: Vec<ChatToolCall> = Vec::new();
        assert(resolved_tool_calls.deep_view() =~= Seq::<ResolvedToolCallView>::empty());
        for index in 0..calls.len()
            invariant
                state.tool_calls == calls.deep_view(),
                ids == fresh.deep_view(),
                ids.len() == state.tool_calls.len(),
                values == json_outcomes(parsed@),
                parsed@.len() == state.tool_calls.len(),
                names == registry.deep_view(),
                state == self.deep_view(),
                resolved_calls(state.tool_calls, names, values, ids, index as int) == Ok::<
                    Seq<ResolvedToolCallView>,
                    AppErrorView,
                >(resolved_tool_calls.deep_view()),
                internal_tool_calls@.len() == resolved_tool_calls@.len(),
                forall|k: int|
                    0 <= k < internal_tool_calls@.len()
                        ==> #[trigger] internal_tool_calls@[k].deep_view()
                        == resolved_tool_calls@[k].deep_view().internal_call,
        {
            assert(state.tool_calls[index as int].1 == calls@[index as int].1.deep_view());
            assert(ids[index as int] == fresh@[index as int]@);
            match resolve_call(&calls[index].1, registry, &parsed[index], fresh[index].as_str()) {
                Ok(call) => {
                    let ghost before = resolved_tool_calls.deep_view();
                    let ghost added = call.deep_view();
                    internal_tool_calls.push(call.internal_call.duplicate());
                    resolved_tool_calls.push(call);
                    assert(resolved_tool_calls.deep_view() =~= before.push(added));
                },
                Err(error) => {
                    proof {
                        lemma_resolved_error_stays(
                            state.tool_calls,
                            names,
                            values,
                            ids,
                            state.tool_calls.len() as int,
                            index + 1,
                        );
                    }
                    return Err(error);
                },
            }
        }
        let ghost resolved = resolved_tool_calls.deep_view();
        assert(internal_tool_calls.deep_view() =~= resolved.map_values(
            |call: ResolvedToolCallView| call.internal_call,
        ));
        let message_item = match &self.message_id {
            Some(id) => Some(make_assistant_item(Some(id.clone()), self.output_text.clone())),
            None => None,
        };
        let reasoning_item = match &self.reasoning_id {
            Some(id) => {
                let summary: Vec<ReasoningSummaryItem> = Vec::new();
                let content = vec![
                    ReasoningContentItem::ReasoningText { text: self.reasoning_text.clone() },
                ];
                assert(summary.deep_view() =~= Seq::<ReasoningSummaryItemView>::empty());
                assert(content.deep_view() =~= seq![
                    ReasoningContentItemView::ReasoningText { text: state.reasoning_text },
                ]);
                Some(
                    ResponseItem::Reasoning {
                        id: id.clone(),
                        summary,
                        content: Some(content),
                        encrypted_content: self.reasoning_signature.duplicate(),
                    },
                )
            },
            None => None,
        };
        let internal_assistant_message = if message_item.is_some() || reasoning_item.is_some()
            || internal_tool_calls.len() > 0 {
            let thinking = match (&self.reasoning_id, &self.reasoning_signature) {
                (Some(_), Some(signature)) => Some(
                    ChatThinking {
                        content: self.reasoning_text.clone(),
                        signature: Some(signature.clone()),
                    },
                ),
                _ => None,
            };
            Some(
                ChatMessage {
                    role: "assistant".to_string(),
                    content: if message_item.is_some() {
                        Some(Json::Text(self.output_text.clone()))
                    } else {
                        None
                    },
                    tool_call_id: None,
                    name: None,
                    reasoning_content: if reasoning_item.is_some() {
                        Some(self.reasoning_text.clone())
                    } else {
                        None
                    },
                    thinking,
                    tool_calls: if internal_tool_calls.len() > 0 {
                        Some(internal_tool_calls)
                    } else {
                        None
                    },
                },
            )
        } else {
            None
        };
        Ok(
            FinalizedAssistantTurn {
                message_item,
                reasoning_item,
                tool_calls: resolved_tool_calls,
                internal_assistant_message,
                content_part_emitted: self.content_part_emitted,
                reasoning_part_emitted: self.reasoning_part_emitted,
                refusal_text: self.refusal_text,
                finish_reason: self.finish_reason,
                stop_sequence: self.stop_sequence,
            },
        )
    }

    /// Ends the turn. Tool calls that have no id yet get one from `fresh`.
    pub fn finalize_with_ids(self, registry: &ToolRegistry, fresh: &Vec<String>) -> (result:
        AppResult<FinalizedAssistantTurn>)
        requires
            fresh@.len() == self.deep_view().tool_calls.len(),
        ensures
            outcome(result) == finished_turn(
                self.deep_view(),
                registry.deep_view(),
                parsed_arguments(self.deep_view().tool_calls),
                fresh.deep_view(),
            ),
    {
        let ghost calls = self.tool_calls.calls.deep_view();
        let mut parsed: Vec<Result<Json, String>> = Vec::new();
        for index in 0..self.tool_calls.calls.len()
            invariant
                calls == self.tool_calls.calls.deep_view(),
                parsed@.len() == index,
                forall|k: int|
                    0 <= k < index ==> outcome(#[trigger] parsed@[k]) == json_parsed(
                        argument_payload(calls[k].1.arguments_text),
                    ),
        {
            let text = self.tool_calls.calls[index].1.arguments_text.as_str();
            assert(calls[index as int].1.arguments_text == text@);
            parsed.push(parse_json(extract_json_arguments(text)));
        }
        assert(json_outcomes(parsed@) =~= parsed_arguments(calls));
        self.finalize_parsed(registry, &parsed, fresh)
    }

    /// Ends the turn.
    pub fn finalize(self, registry: &ToolRegistry) -> (result: AppResult<FinalizedAssistantTurn>)
        ensures
            exists|fresh: Seq<Seq<char>>|
                #![trigger are_simple_uuids(fresh)]
                {
                    &&& fresh.len() == self.deep_view().tool_calls.len()
                    &&& are_simple_uuids(fresh)
                    &&& outcome(result) == finished_turn(
                        self.deep_view(),
                        registry.deep_view(),
                        parsed_arguments(self.deep_view().tool_calls),
                        fresh,
                    )
                },
    {
        let fresh = fresh_ids(self.call_count());
        self.finalize_with_ids(registry, &fresh)
    }
}

// ---------------------------------------------------------------------------------------------
// Laws
// ---------------------------------------------------------------------------------------------

/// The answer text that has been streamed.
pub open spec fn streamed_text(emissions: Seq<StreamEmissionView>) -> Seq<char>
    decreases emissions.len(),
{
    if emissions.len() == 0 {
        Seq::empty()
    } else {
        match emissions.last() {
            StreamEmissionView::OutputTextDelta(text) => streamed_text(emissions.drop_last()) + text,
            _ => streamed_text(emissions.drop_last()),
        }
    }
}

/// The reasoning text that has been streamed.
pub open spec fn streamed_reasoning(emissions: Seq<StreamEmissionView>) -> Seq<char>
    decreases emissions.len(),
{
    if emissions.len() == 0 {
        Seq::empty()
    } else {
        match emissions.last() {
            StreamEmissionView::ReasoningTextDelta(text) => {
                streamed_reasoning(emissions.drop_last()) + text
            },
            _ => streamed_reasoning(emissions.drop_last()),
        }
    }
}

/// The refusal that has been streamed.
pub open spec fn streamed_refusal(emissions: Seq<StreamEmissionView>) -> Seq<char>
    decreases emissions.len(),
{
    if emissions.len() == 0 {
        Seq::empty()
    } else {
        match emissions.last() {
            StreamEmissionView::RefusalDelta(text) => streamed_refusal(emissions.drop_last())
                + text,
            _ => streamed_refusal(emissions.drop_last()),
        }
    }
}

/// What a turn holds is what it held at `start` and what has been streamed since, and the ids
/// that its items had at `start` are still theirs.
pub open spec fn accounts_for(progress: Progress, start: StreamStateView) -> bool {
    &&& progress.state.output_text == start.output_text + streamed_text(progress.emissions)
    &&& progress.state.reasoning_text == start.reasoning_text + streamed_reasoning(
        progress.emissions,
    )
    &&& progress.state.refusal_text == start.refusal_text + streamed_refusal(progress.emissions)
    &&& start.message_id is Some ==> progress.state.message_id == start.message_id
    &&& start.reasoning_id is Some ==> progress.state.reasoning_id == start.reasoning_id
    &&& progress.state.message_id is None ==> streamed_text(progress.emissions).len() == 0
    &&& progress.state.reasoning_id is None ==> streamed_reasoning(progress.emissions).len() == 0
}

proof fn lemma_emit(progress: Progress, emission: StreamEmissionView)
    ensures
        streamed_text(progress.emit(emission).emissions) == (match emission {
            StreamEmissionView::OutputTextDelta(text) => streamed_text(progress.emissions) + text,
            _ => streamed_text(progress.emissions),
        }),
        streamed_reasoning(progress.emit(emission).emissions) == (match emission {
            StreamEmissionView::ReasoningTextDelta(text) => streamed_reasoning(progress.emissions)
                + text,
            _ => streamed_reasoning(progress.emissions),
        }),
        streamed_refusal(progress.emit(emission).emissions) == (match emission {
            StreamEmissionView::RefusalDelta(text) => streamed_refusal(progress.emissions) + text,
            _ => streamed_refusal(progress.emissions),
        }),
{
    assert(progress.emit(emission).emissions.drop_last() =~= progress.emissions);
}

proof fn lemma_reasoning_accounts(
    progress: Progress,
    start: StreamStateView,
    text: Seq<char>,
    fresh: Seq<char>,
)
    requires
        accounts_for(progress, start),
    ensures
        accounts_for(progress.reasoning(text, fresh), start),
{
    let id = prefixed_id("rsn"@, fresh);
    let item = StreamEmissionView::ReasoningItemAdded(
        ResponseItemView::Reasoning {
            id,
            summary: Seq::empty(),
            content: Some(Seq::empty()),
            encrypted_content: None,
        },
    );
    let named = Progress {
        state: StreamStateView {
            reasoning_id: Some(id),
            reasoning_part_emitted: false,
            ..progress.state
        },
        ..progress
    };
    lemma_emit(named, item);
    let begun = if progress.state.reasoning_id is None {
        named.emit(item)
    } else {
        progress
    };
    lemma_emit(begun, StreamEmissionView::ReasoningSummaryPartAdded);
    let opened = if !begun.state.reasoning_part_emitted {
        begun.emit(StreamEmissionView::ReasoningSummaryPartAdded)
    } else {
        begun
    };
    let grown = Progress {
        state: StreamStateView {
            reasoning_part_emitted: true,
            reasoning_text: opened.state.reasoning_text + text,
            ..opened.state
        },
        ..opened
    };
    lemma_emit(grown, StreamEmissionView::ReasoningTextDelta(text));
    let after = progress.reasoning(text, fresh);
    assert(after.state.reasoning_text =~= start.reasoning_text + streamed_reasoning(
        after.emissions,
    ));
}

proof fn lemma_content_accounts(
    progress: Progress,
    start: StreamStateView,
    text: Seq<char>,
    fresh: Seq<char>,
)
    requires
        accounts_for(progress, start),
    ensures
        accounts_for(progress.content(text, fresh), start),
{
    let id = prefixed_id("msg"@, fresh);
    let item = StreamEmissionView::OutputItemAdded(assistant_item(Some(id), Seq::empty()));
    let named = Progress {
        state: StreamStateView {
            message_id: Some(id),
            content_part_emitted: false,
            ..progress.state
        },
        ..progress
    };
    lemma_emit(named, item);
    let begun = if progress.state.message_id is None {
        named.emit(item)
    } else {
        progress
    };
    lemma_emit(begun, StreamEmissionView::ContentPartAdded);
    let opened = if !begun.state.content_part_emitted {
        begun.emit(StreamEmissionView::ContentPartAdded)
    } else {
        begun
    };
    let grown = Progress {
        state: StreamStateView {
            content_part_emitted: true,
            output_text: opened.state.output_text + text,
            ..opened.state
        },
        ..opened
    };
    lemma_emit(grown, StreamEmissionView::OutputTextDelta(text));
    let after = progress.content(text, fresh);
    assert(after.state.output_text =~= start.output_text + streamed_text(after.emissions));
}

proof fn lemma_tool_call_accounts(
    progress: Progress,
    start: StreamStateView,
    delta: CallDelta,
    fresh: Seq<char>,
)
    requires
        accounts_for(progress, start),
    ensures
        accounts_for(progress.tool_call(delta, fresh), start),
{
    let (call, added) = call_after(call_at(progress.state.tool_calls, delta.index), delta, fresh);
    let after = progress.tool_call(delta, fresh);
    if added.len() == 0 {
        assert(after.emissions =~= progress.emissions);
    } else {
        lemma_emit(progress, added[0]);
        assert(after.emissions =~= progress.emit(added[0]).emissions);
    }
}

proof fn lemma_tool_calls_account(
    progress: Progress,
    start: StreamStateView,
    calls: Seq<ChatToolCallView>,
    fresh: Seq<Seq<char>>,
    count: int,
)
    requires
        accounts_for(progress, start),
    ensures
        accounts_for(progress.tool_calls(calls, fresh, count), start),
    decreases count,
{
    if count > 0 {
        lemma_tool_calls_account(progress, start, calls, fresh, count - 1);
        lemma_tool_call_accounts(
            progress.tool_calls(calls, fresh, count - 1),
            start,
            delta_of(calls[count - 1]),
            fresh[count - 1],
        );
    }
}

proof fn lemma_choice_accounts(
    progress: Progress,
    start: StreamStateView,
    choice: ChatChunkChoiceView,
    fresh: ChoiceIdsView,
)
    requires
        accounts_for(progress, start),
    ensures
        accounts_for(progress.choice(choice, fresh), start),
{
    let reasoned = match filled_text(choice.delta.reasoning_delta()) {
        Some(text) => {
            lemma_reasoning_accounts(progress, start, text, fresh.reasoning);
            progress.reasoning(text, fresh.reasoning)
        },
        None => progress,
    };
    let signed = match filled_text(choice.delta.reasoning_signature_delta()) {
        Some(signature) => {
            lemma_emit(
                Progress {
                    state: StreamStateView {
                        reasoning_signature: Some(signature),
                        ..reasoned.state
                    },
                    ..reasoned
                },
                StreamEmissionView::ReasoningSignatureDelta(signature),
            );
            reasoned.signature(signature)
        },
        None => reasoned,
    };
    assert(accounts_for(signed, start));
    let answered = match filled_text(choice.delta.content) {
        Some(text) => {
            lemma_content_accounts(signed, start, text, fresh.message);
            signed.content(text, fresh.message)
        },
        None => signed,
    };
    let refused = match filled_text(choice.delta.refusal) {
        Some(text) => {
            lemma_emit(
                Progress {
                    state: StreamStateView {
                        refusal_text: answered.state.refusal_text + text,
                        ..answered.state
                    },
                    ..answered
                },
                StreamEmissionView::RefusalDelta(text),
            );
            assert(answered.refusal(text).state.refusal_text =~= start.refusal_text
                + streamed_refusal(answered.refusal(text).emissions));
            answered.refusal(text)
        },
        None => answered,
    };
    assert(accounts_for(refused, start));
    let ended = Progress {
        state: StreamStateView {
            finish_reason: if choice.finish_reason is Some {
                choice.finish_reason
            } else {
                refused.state.finish_reason
            },
            stop_sequence: match choice.stop_reason {
                Some(JsonView::Text(stop)) => if stop.len() > 0 {
                    Some(stop)
                } else {
                    refused.state.stop_sequence
                },
                _ => refused.state.stop_sequence,
            },
            ..refused.state
        },
        ..refused
    };
    assert(accounts_for(ended, start));
    let called = match choice.delta.tool_calls {
        Some(calls) => {
            lemma_tool_calls_account(ended, start, calls, fresh.calls, calls.len() as int);
            ended.tool_calls(calls, fresh.calls, calls.len() as int)
        },
        None => ended,
    };
    if let Some(call) = choice.delta.function_call {
        lemma_tool_call_accounts(
            called,
            start,
            CallDelta { index: 0, id: None, name: call.name, arguments: call.arguments },
            fresh.function_call,
        );
    }
}

proof fn lemma_choices_account(
    progress: Progress,
    start: StreamStateView,
    choices: Seq<ChatChunkChoiceView>,
    fresh: Seq<ChoiceIdsView>,
    count: int,
)
    requires
        accounts_for(progress, start),
    ensures
        accounts_for(progress.choices(choices, fresh, count), start),
    decreases count,
{
    if count > 0 {
        lemma_choices_account(progress, start, choices, fresh, count - 1);
        lemma_choice_accounts(
            progress.choices(choices, fresh, count - 1),
            start,
            choices[count - 1],
            fresh[count - 1],
        );
    }
}

/// The texts that a turn gathers are exactly the texts that it streams, chunk by chunk, and an
/// item keeps its id once it has begun.
pub proof fn law_gathered_text_is_streamed_text(
    state: StreamStateView,
    chunk: ChatCompletionChunkView,
    fresh: Seq<ChoiceIdsView>,
)
    ensures
        accounts_for(chunk_applied(state, chunk, fresh), state),
{
    let start = Progress { state, emissions: Seq::empty() };
    assert(state.output_text =~= state.output_text + streamed_text(start.emissions));
    assert(state.reasoning_text =~= state.reasoning_text + streamed_reasoning(start.emissions));
    assert(state.refusal_text =~= state.refusal_text + streamed_refusal(start.emissions));
    lemma_choices_account(start, state, chunk.choices, fresh, chunk.choices.len() as int);
}

/// A finished turn has one resolved call for each streamed call, in the order of their indices,
/// and hands the same calls to the turns that follow.
pub proof fn law_finished_turn_keeps_every_call(
    state: StreamStateView,
    registry: Map<Seq<char>, ToolKindView>,
    parsed: Seq<Result<JsonView, Seq<char>>>,
    fresh: Seq<Seq<char>>,
)
    requires
        finished_turn(state, registry, parsed, fresh) is Ok,
    ensures
        ({
            let turn = finished_turn(state, registry, parsed, fresh)->Ok_0;
            &&& turn.tool_calls.len() == state.tool_calls.len()
            &&& forall|k: int|
                0 <= k < turn.tool_calls.len() ==> resolved_call(
                    state.tool_calls[k].1,
                    registry,
                    parsed[k],
                    fresh[k],
                ) == Ok::<ResolvedToolCallView, AppErrorView>(#[trigger] turn.tool_calls[k])
            &&& state.tool_calls.len() > 0 ==> {
                &&& turn.internal_assistant_message matches Some(message)
                &&& message.tool_calls == Some(
                    turn.tool_calls.map_values(|call: ResolvedToolCallView| call.internal_call),
                )
            }
        }),
{
    lemma_resolved_each(
        state.tool_calls,
        registry,
        parsed,
        fresh,
        state.tool_calls.len() as int,
    );
}

proof fn lemma_resolved_each(
    calls: Seq<(usize, ToolCallAccumulatorView)>,
    registry: Map<Seq<char>, ToolKindView>,
    parsed: Seq<Result<JsonView, Seq<char>>>,
    fresh: Seq<Seq<char>>,
    count: int,
)
    requires
        0 <= count <= calls.len(),
        resolved_calls(calls, registry, parsed, fresh, count) is Ok,
    ensures
        resolved_calls(calls, registry, parsed, fresh, count)->Ok_0.len() == count,
        forall|k: int|
            0 <= k < count ==> resolved_call(calls[k].1, registry, parsed[k], fresh[k]) == Ok::<
                ResolvedToolCallView,
                AppErrorView,
            >(#[trigger] resolved_calls(calls, registry, parsed, fresh, count)->Ok_0[k]),
    decreases count,
{
    if count > 0 {
        lemma_resolved_each(calls, registry, parsed, fresh, count - 1);
        let before = resolved_calls(calls, registry, parsed, fresh, count - 1)->Ok_0;
        let after = resolved_calls(calls, registry, parsed, fresh, count)->Ok_0;
        assert forall|k: int| 0 <= k < count implies resolved_call(calls[k].1, registry, parsed[k], fresh[k])
            == Ok::<ResolvedToolCallView, AppErrorView>(#[trigger] after[k]) by {
            if k < count - 1 {
                assert(after[k] == before[k]);
            }
        }
    }
}

} // verus!
