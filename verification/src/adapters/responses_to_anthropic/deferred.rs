//! The response stream as a message stream that shows reasoning only once it is known what it
//! leads to, and reports its usage once, at the end.
use vstd::prelude::*;

use crate::collections::TextSet;
use crate::digest::{digest_text, text_digest};
use crate::error::outcome;
use crate::ids::{fresh_id, is_simple_uuid, item_id, prefixed_id};
use crate::json::{json_empty_object, Json, JsonView};
use crate::models::anthropic::{
    AnthropicContentBlockStart, AnthropicContentBlockStartView, AnthropicDelta, AnthropicDeltaView,
    AnthropicErrorBody, AnthropicErrorBodyView, AnthropicMessageDeltaBody,
    AnthropicMessageDeltaBodyView, AnthropicMessageResponse, AnthropicMessageUsage,
    AnthropicMessageUsageView, AnthropicOutputTokensDetails, AnthropicOutputTokensDetailsView,
    AnthropicStreamEvent, AnthropicStreamEventView, AnthropicUsage, AnthropicUsageView,
    SYNTHETIC_SIGNATURE_PREFIX,
};
use crate::models::responses::TerminalReason;
use crate::sse::{SseEvent, SseEventView};
use crate::text::{byte_len, concat, concatenated, same_text};

use super::message::{MessageAccumulator, MessageAccumulatorView};
use super::reasoning::{ReasoningEgressState, ReasoningEgressStateView};
use super::resource::{
    arguments_text, broken_off, broken_off_reason, count_under, failure_message,
    get_arguments_text, get_count, get_output_detail, get_text_or_empty, message_end,
    output_detail, read_usage, response_failure_message, response_message_end, text_or_empty,
    usage_with_details,
};
use super::{
    estimate_output_tokens, estimated_tokens, larger, make_message_start, make_search_usage,
    message_start, push_event, push_search_events, search_events, search_usage,
};

verus! {

/// The signature of a thinking block that came without one: a digest of its text, so that the
/// same text always has the same signature.
pub open spec fn stand_in_signature(text: Seq<char>) -> Seq<char> {
    SYNTHETIC_SIGNATURE_PREFIX@ + text_digest(text)
}

/// The signature of a thinking block that came without one.
pub fn synthetic_signature(thinking_text: &str) -> (result: String)
    ensures
        result@ == stand_in_signature(thinking_text@),
{
    let mut result = SYNTHETIC_SIGNATURE_PREFIX.to_string();
    result.push_str(digest_text(thinking_text).as_str());
    result
}

/// Whether a tool runs on the server and its calls are hidden from the client.
pub open spec fn is_hidden_tool(name: Seq<char>) -> bool {
    name == "web_search"@
}

fn is_hidden_server_tool(name: &str) -> (result: bool)
    ensures
        result == is_hidden_tool(name@),
{
    same_text(name, "web_search")
}

/// The block that the stream has open.
#[derive(Debug, PartialEq)]
pub enum ContentBlockState {
    Text { index: usize },
    ToolUse { index: usize, call_id: String },
}

/// The model of [`ContentBlockState`].
pub enum ContentBlockStateView {
    Text { index: usize },
    ToolUse { index: usize, call_id: Seq<char> },
}

impl DeepView for ContentBlockState {
    type V = ContentBlockStateView;

    open spec fn deep_view(&self) -> ContentBlockStateView {
        match self {
            ContentBlockState::Text { index } => ContentBlockStateView::Text {
                index: *index,
            },
            ContentBlockState::ToolUse { index, call_id } => ContentBlockStateView::ToolUse {
                index: *index,
                call_id: call_id@,
            },
        }
    }
}

/// Turns the events of a response stream into those of a message stream, holding reasoning back until it is known what it leads to.
#[derive(Debug, PartialEq)]
pub struct AnthropicStreamConverter {
    model: String,
    message_id: String,
    next_block_index: usize,
    open_block: Option<ContentBlockState>,
    started: bool,
    completed: bool,
    pending_input_tokens: Option<u64>,
    estimated_output_bytes: usize,
    last_output_tokens: u64,
    web_search_count: u64,
    emitted_tool_call_ids: TextSet,
    closed_tool_call_ids: TextSet,
    reasoning: ReasoningEgressState,
    suppress_reasoning: bool,
}

/// The model of [`AnthropicStreamConverter`].
pub struct AnthropicStreamConverterView {
    pub model: Seq<char>,
    pub message_id: Seq<char>,
    pub next_block_index: usize,
    pub open_block: Option<ContentBlockStateView>,
    pub started: bool,
    pub completed: bool,
    pub pending_input_tokens: Option<u64>,
    pub estimated_output_bytes: usize,
    pub last_output_tokens: u64,
    pub web_search_count: u64,
    pub emitted_tool_call_ids: Set<Seq<char>>,
    pub closed_tool_call_ids: Set<Seq<char>>,
    pub reasoning: ReasoningEgressStateView,
    pub suppress_reasoning: bool,
}

impl DeepView for AnthropicStreamConverter {
    type V = AnthropicStreamConverterView;

    closed spec fn deep_view(&self) -> AnthropicStreamConverterView {
        AnthropicStreamConverterView {
            model: self.model@,
            message_id: self.message_id@,
            next_block_index: self.next_block_index,
            open_block: self.open_block.deep_view(),
            started: self.started,
            completed: self.completed,
            pending_input_tokens: self.pending_input_tokens.deep_view(),
            estimated_output_bytes: self.estimated_output_bytes,
            last_output_tokens: self.last_output_tokens,
            web_search_count: self.web_search_count,
            emitted_tool_call_ids: self.emitted_tool_call_ids.deep_view(),
            closed_tool_call_ids: self.closed_tool_call_ids.deep_view(),
            reasoning: self.reasoning.deep_view(),
            suppress_reasoning: self.suppress_reasoning,
        }
    }
}

impl ContentBlockStateView {
    /// The index of the block.
    pub open spec fn position(self) -> usize {
        match self {
            ContentBlockStateView::Text { index } => index,
            ContentBlockStateView::ToolUse { index, call_id } => index,
        }
    }
}

// ---------------------------------------------------------------------------------------------
// The model of the conversion
// ---------------------------------------------------------------------------------------------

/// A converter, and the events that it has put out for the event at hand.
pub struct Stream {
    pub converter: AnthropicStreamConverterView,
    pub events: Seq<AnthropicStreamEventView>,
}

/// The deltas of a thinking block that came in pieces.
pub open spec fn thinking_deltas(chunks: Seq<Seq<char>>, index: usize) -> Seq<AnthropicStreamEventView> {
    chunks.map_values(
        |chunk: Seq<char>|
            AnthropicStreamEventView::ContentBlockDelta {
                index,
                delta: AnthropicDeltaView::ThinkingDelta { thinking: chunk },
            },
    )
}

/// A whole thinking block.
pub open spec fn thinking_block(
    chunks: Seq<Seq<char>>,
    signature: Option<Seq<char>>,
    index: usize,
) -> Seq<AnthropicStreamEventView> {
    seq![
        AnthropicStreamEventView::ContentBlockStart {
            index,
            content_block: AnthropicContentBlockStartView::Thinking { thinking: Seq::empty() },
        },
    ] + thinking_deltas(chunks, index) + seq![
        AnthropicStreamEventView::ContentBlockDelta {
            index,
            delta: AnthropicDeltaView::SignatureDelta {
                signature: match signature {
                    Some(signature) => signature,
                    None => stand_in_signature(concatenated(chunks)),
                },
            },
        },
        AnthropicStreamEventView::ContentBlockStop { index },
    ]
}

/// A whole text block.
pub open spec fn text_block(text: Seq<char>, index: usize) -> Seq<AnthropicStreamEventView> {
    seq![
        AnthropicStreamEventView::ContentBlockStart {
            index,
            content_block: AnthropicContentBlockStartView::Text { text: Seq::empty() },
        },
        AnthropicStreamEventView::ContentBlockDelta {
            index,
            delta: AnthropicDeltaView::TextDelta { text },
        },
        AnthropicStreamEventView::ContentBlockStop { index },
    ]
}

impl Stream {
    pub open spec fn emit(self, event: AnthropicStreamEventView) -> Stream {
        Stream { events: self.events.push(event), ..self }
    }

    /// The stream has begun.
    pub open spec fn begun(self) -> Stream {
        if self.converter.started {
            self
        } else {
            Stream {
                converter: AnthropicStreamConverterView { started: true, ..self.converter },
                ..self
            }.emit(
                message_start(
                    self.converter.message_id,
                    self.converter.model,
                    self.converter.pending_input_tokens,
                ),
            )
        }
    }

    /// No block is open.
    pub open spec fn closed(self) -> Stream {
        match self.converter.open_block {
            None => self,
            Some(block) => Stream {
                converter: AnthropicStreamConverterView {
                    open_block: None,
                    closed_tool_call_ids: match block {
                        ContentBlockStateView::ToolUse { index, call_id } => {
                            self.converter.closed_tool_call_ids.insert(call_id)
                        },
                        _ => self.converter.closed_tool_call_ids,
                    },
                    ..self.converter
                },
                ..self
            }.emit(AnthropicStreamEventView::ContentBlockStop { index: block.position() }),
        }
    }

    /// Whole blocks with `count` numbers have been put out.
    pub open spec fn shown(self, blocks: Seq<AnthropicStreamEventView>, count: int) -> Stream {
        Stream {
            converter: AnthropicStreamConverterView {
                next_block_index: (self.converter.next_block_index + count) as usize,
                ..self.converter
            },
            events: self.events + blocks,
        }
    }

    pub open spec fn with_reasoning(self, reasoning: ReasoningEgressStateView) -> Stream {
        Stream {
            converter: AnthropicStreamConverterView { reasoning, ..self.converter },
            ..self
        }
    }

    /// Text or a tool call is about to be shown.
    pub open spec fn content_started(self) -> Stream {
        self.with_reasoning(
            ReasoningEgressStateView { content_started: true, ..self.converter.reasoning },
        )
    }

    /// The turn calls tools.
    pub open spec fn calling_tools(self) -> Stream {
        self.with_reasoning(
            ReasoningEgressStateView { has_tool_calls: true, ..self.converter.reasoning },
        )
    }

    /// Reasoning that was held back has been shown as thinking.
    pub open spec fn flushed(self) -> Stream {
        let reasoning = self.converter.reasoning;
        if reasoning.reasoning_buffer.len() == 0 {
            self
        } else {
            let ready = self.closed();
            ready.shown(
                thinking_block(
                    reasoning.reasoning_buffer,
                    reasoning.reasoning_signature,
                    ready.converter.next_block_index,
                ),
                1,
            ).with_reasoning(
                ReasoningEgressStateView {
                    reasoning_buffer: Seq::empty(),
                    reasoning_signature: None,
                    ..reasoning
                },
            )
        }
    }

    /// Reasoning that was held back to the end has been shown: as the answer if it is one, else as
    /// thinking.
    pub open spec fn resolved(self, clean_stop: bool) -> Stream {
        let reasoning = self.converter.reasoning;
        if reasoning.reasoning_buffer.len() > 0 && reasoning.is_answer(clean_stop) {
            let ready = self.with_reasoning(
                ReasoningEgressStateView {
                    reasoning_buffer: Seq::empty(),
                    reasoning_signature: None,
                    content_started: true,
                    ..reasoning
                },
            ).closed();
            ready.shown(
                text_block(
                    concatenated(reasoning.reasoning_buffer),
                    ready.converter.next_block_index,
                ),
                1,
            )
        } else {
            self.flushed()
        }
    }

    /// A new block is open.
    pub open spec fn opened(
        self,
        block: ContentBlockStateView,
        start: AnthropicContentBlockStartView,
    ) -> Stream {
        let index = self.converter.next_block_index;
        Stream {
            converter: AnthropicStreamConverterView {
                next_block_index: (index + 1) as usize,
                open_block: Some(block),
                ..self.converter
            },
            ..self
        }.emit(AnthropicStreamEventView::ContentBlockStart { index, content_block: start })
    }

    pub open spec fn opened_text(self) -> Stream {
        self.opened(
            ContentBlockStateView::Text { index: self.converter.next_block_index },
            AnthropicContentBlockStartView::Text { text: Seq::empty() },
        )
    }

    /// A text block is open, after the reasoning that led to it.
    pub open spec fn text_begun(self) -> Stream {
        self.flushed().closed().content_started().opened_text()
    }

    /// Whether the block of the given tool call is open.
    pub open spec fn in_tool_call(self, call_id: Seq<char>) -> bool {
        self.converter.open_block matches Some(ContentBlockStateView::ToolUse {
            index,
            call_id: open_call_id,
        }) && open_call_id == call_id
    }

    /// The block of the given tool call is open, after the reasoning that led to it.
    pub open spec fn opened_tool(self, call_id: Seq<char>, name: Seq<char>) -> Stream {
        if self.in_tool_call(call_id) {
            self
        } else {
            let ready = self.flushed().content_started().closed();
            ready.opened(
                ContentBlockStateView::ToolUse {
                    index: ready.converter.next_block_index,
                    call_id,
                },
                AnthropicContentBlockStartView::ToolUse {
                    id: call_id,
                    name,
                    input: JsonView::Object(Map::empty()),
                },
            )
        }
    }

    /// The output has grown by `text`.
    pub open spec fn recorded(self, text: Seq<char>) -> Stream {
        let bytes = self.converter.estimated_output_bytes.saturating_add(byte_len(text));
        if text.len() == 0 {
            self
        } else {
            Stream {
                converter: AnthropicStreamConverterView {
                    estimated_output_bytes: bytes,
                    last_output_tokens: larger(
                        self.converter.last_output_tokens,
                        estimated_tokens(bytes),
                    ),
                    ..self.converter
                },
                ..self
            }
        }
    }

    /// The open block has grown by `delta`, which stands for `text`.
    pub open spec fn grown(self, delta: AnthropicDeltaView, text: Seq<char>) -> Stream {
        match self.converter.open_block {
            Some(block) => self.emit(
                AnthropicStreamEventView::ContentBlockDelta { index: block.position(), delta },
            ).recorded(text),
            None => self,
        }
    }

    /// A tool call is over.
    pub open spec fn tool_call_done(self, call_id: Seq<char>) -> Stream {
        Stream {
            converter: AnthropicStreamConverterView {
                emitted_tool_call_ids: self.converter.emitted_tool_call_ids.insert(call_id),
                ..self.converter
            },
            ..self
        }
    }

    /// The message ends.
    pub open spec fn ended(
        self,
        stop_reason: Seq<char>,
        stop_sequence: Option<JsonView>,
        input_tokens: Option<u64>,
        details: Option<AnthropicOutputTokensDetailsView>,
    ) -> Stream {
        self.emit(
            AnthropicStreamEventView::MessageDelta {
                delta: AnthropicMessageDeltaBodyView {
                    stop_reason: Some(stop_reason),
                    stop_sequence,
                },
                usage: AnthropicUsageView {
                    input_tokens,
                    output_tokens: Some(self.converter.last_output_tokens),
                    output_tokens_details: details,
                    server_tool_use: search_usage(self.converter.web_search_count),
                },
            },
        ).emit(AnthropicStreamEventView::MessageStop)
    }

    /// The first estimate of the input is kept until the real count is known.
    pub open spec fn created(self, data: JsonView) -> Stream {
        Stream {
            converter: AnthropicStreamConverterView {
                pending_input_tokens: if self.converter.pending_input_tokens is Some {
                    self.converter.pending_input_tokens
                } else {
                    estimated_input_tokens(data)
                },
                ..self.converter
            },
            ..self
        }.begun()
    }

    pub open spec fn item_added(self, data: JsonView) -> Stream {
        let stream = self.begun();
        match data.get("item"@) {
            None => stream,
            Some(item) => if item.get_str("type"@) == Some("message"@) {
                stream.text_begun()
            } else {
                stream
            },
        }
    }

    pub open spec fn text_delta(self, data: JsonView) -> Stream {
        let stream = self.begun();
        match data.get_str("delta"@) {
            None => stream,
            Some(text) => {
                let open = if stream.converter.open_block matches Some(
                    ContentBlockStateView::Text { index },
                ) {
                    stream
                } else {
                    stream.text_begun()
                };
                open.grown(AnthropicDeltaView::TextDelta { text }, text)
            },
        }
    }

    /// Reasoning is counted, and held back unless the client is not to see it.
    pub open spec fn reasoning_delta(self, data: JsonView) -> Stream {
        let stream = self.begun();
        match data.get_str("delta"@) {
            None => stream,
            Some(text) => if stream.converter.suppress_reasoning {
                stream.recorded(text)
            } else if text.len() == 0 || stream.converter.reasoning.is_late() {
                stream
            } else {
                let counted = stream.recorded(text);
                counted.with_reasoning(
                    ReasoningEgressStateView {
                        reasoning_buffer: counted.converter.reasoning.reasoning_buffer.push(text),
                        ..counted.converter.reasoning
                    },
                )
            },
        }
    }

    pub open spec fn reasoning_signature_delta(self, data: JsonView) -> Stream {
        if self.converter.suppress_reasoning {
            self
        } else {
            let stream = self.begun();
            let reasoning = stream.converter.reasoning;
            match data.get_str("signature"@) {
                None => stream,
                Some(signature) => if signature.len() == 0 || reasoning.is_late() {
                    stream
                } else {
                    stream.with_reasoning(
                        ReasoningEgressStateView {
                            reasoning_signature: Some(
                                match reasoning.reasoning_signature {
                                    Some(before) => before + signature,
                                    None => signature,
                                },
                            ),
                            ..reasoning
                        },
                    )
                },
            }
        }
    }

    /// Whether the block of a tool call has been closed, or the call is over.
    pub open spec fn knows_call(self, call_id: Seq<char>) -> bool {
        self.converter.emitted_tool_call_ids.contains(call_id)
            || self.converter.closed_tool_call_ids.contains(call_id)
    }

    pub open spec fn arguments_delta(self, data: JsonView) -> Stream {
        let stream = self.begun();
        let name = text_or_empty(data, "name"@);
        match (data.get_str("call_id"@), data.get_str("delta"@)) {
            (Some(call_id), Some(delta)) => if stream.knows_call(call_id) || is_hidden_tool(name)
                || delta.len() == 0 {
                stream
            } else {
                stream.calling_tools().opened_tool(call_id, name).grown(
                    AnthropicDeltaView::InputJsonDelta { partial_json: delta },
                    delta,
                )
            },
            _ => stream,
        }
    }

    /// The whole tool call at once, or what is left of it.
    pub open spec fn whole_call(
        self,
        call_id: Seq<char>,
        name: Seq<char>,
        arguments: Seq<char>,
        show_empty: bool,
    ) -> Stream {
        let open = self.opened_tool(call_id, name);
        let filled = if arguments.len() > 0 || show_empty {
            open.grown(AnthropicDeltaView::InputJsonDelta { partial_json: arguments }, arguments)
        } else {
            open
        };
        filled.closed().tool_call_done(call_id)
    }

    pub open spec fn arguments_done(self, data: JsonView) -> Stream {
        let stream = self.begun();
        match data.get_str("call_id"@) {
            None => stream,
            Some(call_id) => if is_hidden_tool(text_or_empty(data, "name"@)) {
                stream
            } else {
                let calling = stream.calling_tools();
                if calling.converter.emitted_tool_call_ids.contains(call_id) {
                    calling
                } else if calling.converter.closed_tool_call_ids.contains(call_id) {
                    calling.tool_call_done(call_id)
                } else if calling.in_tool_call(call_id) {
                    calling.closed().tool_call_done(call_id)
                } else {
                    calling.whole_call(
                        call_id,
                        text_or_empty(data, "name"@),
                        arguments_text(data),
                        false,
                    )
                }
            },
        }
    }

    /// A finished tool call as a block of its own, unless it has been shown already.
    pub open spec fn tool_use_block(self, item: JsonView) -> Stream {
        let calling = self.calling_tools();
        let call_id = text_or_empty(item, "call_id"@);
        if calling.converter.emitted_tool_call_ids.contains(call_id) {
            calling
        } else if calling.converter.closed_tool_call_ids.contains(call_id) {
            calling.tool_call_done(call_id)
        } else {
            calling.whole_call(call_id, text_or_empty(item, "name"@), arguments_text(item), true)
        }
    }

    pub open spec fn item_done(self, data: JsonView) -> Stream {
        match data.get("item"@) {
            None => self,
            Some(item) => {
                let kind = item.get_str("type"@);
                if kind == Some("message"@) {
                    if self.converter.open_block matches Some(
                        ContentBlockStateView::Text { index },
                    ) {
                        self.closed()
                    } else {
                        self
                    }
                } else if kind == Some("function_call"@) || kind == Some("custom_tool_call"@) {
                    if is_hidden_tool(text_or_empty(item, "name"@)) {
                        self
                    } else {
                        self.closed().tool_use_block(item)
                    }
                } else {
                    self
                }
            },
        }
    }

    pub open spec fn completed(self, name: Seq<char>, data: JsonView) -> Stream {
        let closed = Stream {
            converter: AnthropicStreamConverterView { completed: true, ..self.converter },
            ..self
        }.resolved(is_clean_stop(name, data)).closed();
        let usage = response_usage(data);
        let counted = match usage {
            None => closed,
            Some(usage) => Stream {
                converter: AnthropicStreamConverterView {
                    pending_input_tokens: Some(usage.input_tokens),
                    last_output_tokens: larger(
                        usage.output_tokens,
                        closed.converter.last_output_tokens,
                    ),
                    ..closed.converter
                },
                ..closed
            },
        };
        let (stop_reason, stop_sequence) = message_end(
            data,
            counted.converter.reasoning.has_tool_calls,
        );
        counted.ended(
            stop_reason,
            stop_sequence,
            match usage {
                Some(usage) => Some(usage.input_tokens),
                None => None,
            },
            match usage {
                Some(usage) => usage.output_tokens_details,
                None => None,
            },
        )
    }

    /// A failure ends the stream by itself.
    pub open spec fn failed(self, data: JsonView) -> Stream {
        Stream {
            converter: AnthropicStreamConverterView { completed: true, ..self.converter },
            ..self
        }.emit(
            AnthropicStreamEventView::Error {
                error: AnthropicErrorBodyView {
                    kind: "api_error"@,
                    message: failure_message(data),
                },
            },
        )
    }

    /// A search is shown after the reasoning that led to it. Reasoning may go on after it.
    pub open spec fn web_search_results(self, data: JsonView) -> Stream {
        let ready = self.begun().flushed().closed();
        let shown = ready.shown(search_events(data, ready.converter.next_block_index), 2);
        Stream {
            converter: AnthropicStreamConverterView {
                web_search_count: (ready.converter.web_search_count + 1) as u64,
                ..shown.converter
            },
            ..shown
        }
    }

    /// The stream after one event.
    pub open spec fn after(self, event: SseEventView) -> Stream {
        let name = event.event;
        let data = event.data;
        if name == "response.created"@ {
            self.created(data)
        } else if name == "response.output_item.added"@ {
            self.item_added(data)
        } else if name == "response.output_text.delta"@ {
            self.text_delta(data)
        } else if name == "response.reasoning_text.delta"@ || name
            == "response.reasoning_summary_text.delta"@ {
            self.reasoning_delta(data)
        } else if name == "response.reasoning_summary_text.signature_delta"@ {
            self.reasoning_signature_delta(data)
        } else if name == "response.function_call_arguments.delta"@ {
            self.arguments_delta(data)
        } else if name == "response.function_call_arguments.done"@ {
            self.arguments_done(data)
        } else if name == "response.output_item.done"@ {
            self.item_done(data)
        } else if name == "response.completed"@ || name == "response.incomplete"@ {
            self.completed(name, data)
        } else if name == "response.failed"@ {
            self.failed(data)
        } else if name == "response.web_search_results"@ {
            self.web_search_results(data)
        } else {
            self
        }
    }

    /// The stream after the last event.
    pub open spec fn finalized(self) -> Stream {
        if self.converter.completed {
            self
        } else {
            let ready = self.begun().flushed().closed();
            let ended = ready.ended(
                broken_off(ready.converter.reasoning.has_tool_calls),
                None,
                ready.converter.pending_input_tokens,
                None,
            );
            Stream {
                converter: AnthropicStreamConverterView { completed: true, ..ended.converter },
                ..ended
            }
        }
    }
}

/// The estimate of the input tokens that the first event carries.
pub open spec fn estimated_input_tokens(data: JsonView) -> Option<u64> {
    match data.get("response"@) {
        Some(response) => count_under(response, "estimated_input_tokens"@),
        None => None,
    }
}

fn response_estimated_input_tokens(data: &Json) -> (result: Option<u64>)
    ensures
        result == estimated_input_tokens(data.deep_view()),
{
    match data.get("response") {
        Some(response) => get_count(response, "estimated_input_tokens"),
        None => None,
    }
}

/// The usage that a terminal event reports. Backends name the tokens spent on thinking in two
/// ways.
pub open spec fn response_usage(data: JsonView) -> Option<AnthropicMessageUsageView> {
    let named = if output_detail(data, "reasoning_tokens"@) is Some {
        output_detail(data, "reasoning_tokens"@)
    } else {
        output_detail(data, "thinking_tokens"@)
    };
    usage_with_details(
        data,
        match named {
            Some(value) => match value.as_u64() {
                Some(tokens) => Some(tokens as u64),
                None => None,
            },
            None => None,
        },
    )
}

/// The usage that a terminal event reports.
pub fn read_response_usage(data: &Json) -> (result: Option<AnthropicMessageUsage>)
    ensures
        result.deep_view() == response_usage(data.deep_view()),
{
    let named = match get_output_detail(data, "reasoning_tokens") {
        Some(value) => Some(value),
        None => get_output_detail(data, "thinking_tokens"),
    };
    let thinking_tokens = match named {
        Some(value) => value.as_u64(),
        None => None,
    };
    read_usage(data, thinking_tokens)
}

/// Whether a terminal event says that the model stopped of its own accord. The reason that the
/// event names decides; an event that names none goes by its own name.
pub open spec fn is_clean_stop(name: Seq<char>, data: JsonView) -> bool {
    let reason = match data.get("response"@) {
        Some(response) => response.get_str("terminal_reason"@),
        None => None,
    };
    match reason {
        Some(reason) => TerminalReason::named(reason) == TerminalReason::Stop,
        None => name == "response.completed"@,
    }
}

fn response_is_clean_stop(name: &str, data: &Json) -> (result: bool)
    ensures
        result == is_clean_stop(name@, data.deep_view()),
{
    let reason = match data.get("response") {
        Some(response) => response.get_str("terminal_reason"),
        None => None,
    };
    match reason {
        Some(reason) => TerminalReason::from_finish_reason(reason).is_clean_stop(),
        None => same_text(name, "response.completed"),
    }
}

/// A converter that has seen nothing yet.
pub open spec fn new_converter(
    model: Seq<char>,
    message_id: Seq<char>,
    suppress_reasoning: bool,
) -> AnthropicStreamConverterView {
    AnthropicStreamConverterView {
        model,
        message_id,
        next_block_index: 0,
        open_block: None,
        started: false,
        completed: false,
        pending_input_tokens: None,
        estimated_output_bytes: 0,
        last_output_tokens: 0,
        web_search_count: 0,
        emitted_tool_call_ids: Set::empty(),
        closed_tool_call_ids: Set::empty(),
        reasoning: ReasoningEgressStateView::empty(),
        suppress_reasoning,
    }
}

impl AnthropicStreamConverterView {
    /// Whether one more event cannot exhaust the numbers that count blocks and searches.
    pub open spec fn has_room(self) -> bool {
        self.next_block_index <= usize::MAX - 4 && self.web_search_count < u64::MAX
    }
}

// ---------------------------------------------------------------------------------------------
// The converter
// ---------------------------------------------------------------------------------------------

impl AnthropicStreamConverter {
    /// A converter that shows reasoning, and whose message gets a fresh id.
    pub fn new(model: String) -> (result: Self)
        ensures
            exists|fresh: Seq<char>|
                #![trigger is_simple_uuid(fresh)]
                is_simple_uuid(fresh) && result.deep_view() == new_converter(
                    model@,
                    prefixed_id("msg"@, fresh),
                    false,
                ),
    {
        Self::with_reasoning_suppression(model, false)
    }

    /// A converter whose message gets a fresh id.
    pub fn with_reasoning_suppression(model: String, suppress_reasoning: bool) -> (result: Self)
        ensures
            exists|fresh: Seq<char>|
                #![trigger is_simple_uuid(fresh)]
                is_simple_uuid(fresh) && result.deep_view() == new_converter(
                    model@,
                    prefixed_id("msg"@, fresh),
                    suppress_reasoning,
                ),
    {
        let fresh = fresh_id();
        Self::with_message_id(model, item_id("msg", fresh.as_str()), suppress_reasoning)
    }

    /// A converter for the message with the given id.
    pub fn with_message_id(model: String, message_id: String, suppress_reasoning: bool) -> (result:
        Self)
        ensures
            result.deep_view() == new_converter(model@, message_id@, suppress_reasoning),
    {
        AnthropicStreamConverter {
            model,
            message_id,
            next_block_index: 0,
            open_block: None,
            started: false,
            completed: false,
            pending_input_tokens: None,
            estimated_output_bytes: 0,
            last_output_tokens: 0,
            web_search_count: 0,
            emitted_tool_call_ids: TextSet::new(),
            closed_tool_call_ids: TextSet::new(),
            reasoning: ReasoningEgressState::default(),
            suppress_reasoning,
        }
    }

    /// Whether one more event cannot exhaust the numbers that count blocks and searches.
    pub fn has_room(&self) -> (result: bool)
        ensures
            result == self.deep_view().has_room(),
    {
        self.next_block_index <= usize::MAX - 4 && self.web_search_count < u64::MAX
    }

    /// Converts one event.
    pub fn convert(&mut self, event: &SseEvent) -> (result: Vec<AnthropicStreamEvent>)
        requires
            old(self).deep_view().has_room(),
        ensures
            (Stream { converter: final(self).deep_view(), events: result.deep_view() }) == (Stream {
                converter: old(self).deep_view(),
                events: Seq::empty(),
            }).after(event.deep_view()),
    {
        let mut output: Vec<AnthropicStreamEvent> = Vec::new();
        assert(output.deep_view() =~= Seq::<AnthropicStreamEventView>::empty());
        let name = event.event.as_str();
        let data = &event.data;
        if same_text(name, "response.created") {
            self.handle_created(data, &mut output);
        } else if same_text(name, "response.output_item.added") {
            self.handle_item_added(data, &mut output);
        } else if same_text(name, "response.output_text.delta") {
            self.handle_text_delta(data, &mut output);
        } else if same_text(name, "response.reasoning_text.delta") || same_text(
            name,
            "response.reasoning_summary_text.delta",
        ) {
            self.handle_reasoning_delta(data, &mut output);
        } else if same_text(name, "response.reasoning_summary_text.signature_delta") {
            self.handle_reasoning_signature_delta(data, &mut output);
        } else if same_text(name, "response.function_call_arguments.delta") {
            self.handle_function_call_arguments_delta(data, &mut output);
        } else if same_text(name, "response.function_call_arguments.done") {
            self.handle_function_call_arguments_done(data, &mut output);
        } else if same_text(name, "response.output_item.done") {
            self.handle_item_done(data, &mut output);
        } else if same_text(name, "response.completed") || same_text(name, "response.incomplete") {
            self.handle_completed(name, data, &mut output);
        } else if same_text(name, "response.failed") {
            self.handle_failed(data, &mut output);
        } else if same_text(name, "response.web_search_results") {
            self.handle_web_search_results(data, &mut output);
        }
        output
    }

    /// Ends the stream. A message that has neither been completed nor failed is closed as it
    /// stands; after that there is nothing to put out.
    pub fn finalize(&mut self) -> (result: Vec<AnthropicStreamEvent>)
        requires
            old(self).deep_view().has_room(),
        ensures
            (Stream { converter: final(self).deep_view(), events: result.deep_view() }) == (Stream {
                converter: old(self).deep_view(),
                events: Seq::empty(),
            }).finalized(),
    {
        let mut output: Vec<AnthropicStreamEvent> = Vec::new();
        assert(output.deep_view() =~= Seq::<AnthropicStreamEventView>::empty());
        if self.completed {
            return output;
        }
        self.ensure_started(&mut output);
        self.flush_reasoning_as_thinking(&mut output);
        self.close_open_block(&mut output);
        let reason = broken_off_reason(self.reasoning.has_tool_calls);
        let input_tokens = self.pending_input_tokens;
        self.end_message(reason, None, input_tokens, None, &mut output);
        self.completed = true;
        output
    }

    fn ensure_started(&mut self, output: &mut Vec<AnthropicStreamEvent>)
        ensures
            (Stream { converter: final(self).deep_view(), events: final(output).deep_view() }) == (
            Stream {
                converter: old(self).deep_view(),
                events: old(output).deep_view(),
            }).begun(),
    {
        if !self.started {
            self.started = true;
            push_event(
                output,
                make_message_start(
                    self.message_id.clone(),
                    self.model.clone(),
                    self.pending_input_tokens,
                ),
            );
        }
    }

    fn close_open_block(&mut self, output: &mut Vec<AnthropicStreamEvent>)
        ensures
            (Stream { converter: final(self).deep_view(), events: final(output).deep_view() }) == (
            Stream {
                converter: old(self).deep_view(),
                events: old(output).deep_view(),
            }).closed(),
    {
        if let Some(block) = self.open_block.take() {
            let index: usize = match block {
                ContentBlockState::Text { index } => index,
                ContentBlockState::ToolUse { index, call_id } => {
                    self.closed_tool_call_ids.insert(call_id);
                    index
                },
            };
            push_event(output, AnthropicStreamEvent::ContentBlockStop { index });
        }
    }

    fn flush_reasoning_as_thinking(&mut self, output: &mut Vec<AnthropicStreamEvent>)
        requires
            old(self).deep_view().next_block_index < usize::MAX,
        ensures
            (Stream { converter: final(self).deep_view(), events: final(output).deep_view() }) == (
            Stream {
                converter: old(self).deep_view(),
                events: old(output).deep_view(),
            }).flushed(),
    {
        if !self.reasoning.has_buffered() {
            return;
        }
        self.close_open_block(output);
        let ghost before = output.deep_view();
        let index: usize = self.next_block_index;
        self.next_block_index = index + 1;
        push_event(
            output,
            AnthropicStreamEvent::ContentBlockStart {
                index,
                content_block: AnthropicContentBlockStart::Thinking { thinking: String::new() },
            },
        );
        let ghost started = output.deep_view();
        let chunks = self.reasoning.take_chunks();
        let ghost pieces = chunks.deep_view();
        assert(started =~= started + thinking_deltas(pieces.take(0), index));
        for at in 0..chunks.len()
            invariant
                pieces == chunks.deep_view(),
                output.deep_view() == started + thinking_deltas(pieces.take(at as int), index),
        {
            push_event(
                output,
                AnthropicStreamEvent::ContentBlockDelta {
                    index,
                    delta: AnthropicDelta::ThinkingDelta { thinking: chunks[at].clone() },
                },
            );
            assert(output.deep_view() =~= started + thinking_deltas(pieces.take(at + 1), index));
        }
        assert(pieces.take(pieces.len() as int) =~= pieces);
        let signature = match self.reasoning.take_signature() {
            Some(signature) => signature,
            None => synthetic_signature(concat(&chunks).as_str()),
        };
        push_event(
            output,
            AnthropicStreamEvent::ContentBlockDelta {
                index,
                delta: AnthropicDelta::SignatureDelta { signature },
            },
        );
        push_event(output, AnthropicStreamEvent::ContentBlockStop { index });
        assert(output.deep_view() =~= before + thinking_block(
            pieces,
            old(self).deep_view().reasoning.reasoning_signature,
            index,
        ));
    }

    fn flush_reasoning_terminal(&mut self, clean_stop: bool, output: &mut Vec<AnthropicStreamEvent>)
        requires
            old(self).deep_view().next_block_index < usize::MAX,
        ensures
            (Stream { converter: final(self).deep_view(), events: final(output).deep_view() }) == (
            Stream {
                converter: old(self).deep_view(),
                events: old(output).deep_view(),
            }).resolved(clean_stop),
    {
        if !self.reasoning.has_buffered() {
            return;
        }
        if !self.reasoning.should_promote(clean_stop) {
            self.flush_reasoning_as_thinking(output);
            return;
        }
        let promoted = self.reasoning.take_buffer();
        self.reasoning.reasoning_signature = None;
        self.reasoning.note_content_started();
        self.close_open_block(output);
        let ghost before = output.deep_view();
        let ghost text = promoted@;
        let index: usize = self.next_block_index;
        self.next_block_index = index + 1;
        push_event(
            output,
            AnthropicStreamEvent::ContentBlockStart {
                index,
                content_block: AnthropicContentBlockStart::Text { text: String::new() },
            },
        );
        push_event(
            output,
            AnthropicStreamEvent::ContentBlockDelta {
                index,
                delta: AnthropicDelta::TextDelta { text: promoted },
            },
        );
        push_event(output, AnthropicStreamEvent::ContentBlockStop { index });
        assert(output.deep_view() =~= before + text_block(text, index));
    }

    fn start_text_block(&mut self, output: &mut Vec<AnthropicStreamEvent>)
        requires
            old(self).deep_view().next_block_index < usize::MAX,
        ensures
            (Stream { converter: final(self).deep_view(), events: final(output).deep_view() }) == (
            Stream {
                converter: old(self).deep_view(),
                events: old(output).deep_view(),
            }).opened_text(),
    {
        let index: usize = self.next_block_index;
        self.next_block_index = index + 1;
        self.open_block = Some(ContentBlockState::Text { index });
        push_event(
            output,
            AnthropicStreamEvent::ContentBlockStart {
                index,
                content_block: AnthropicContentBlockStart::Text { text: String::new() },
            },
        );
    }

    fn begin_text(&mut self, output: &mut Vec<AnthropicStreamEvent>)
        requires
            old(self).deep_view().has_room(),
        ensures
            (Stream { converter: final(self).deep_view(), events: final(output).deep_view() }) == (
            Stream {
                converter: old(self).deep_view(),
                events: old(output).deep_view(),
            }).text_begun(),
    {
        self.flush_reasoning_as_thinking(output);
        self.close_open_block(output);
        self.reasoning.note_content_started();
        self.start_text_block(output);
    }

    fn is_open_tool(&self, call_id: &str) -> (result: bool)
        ensures
            result == (Stream {
                converter: self.deep_view(),
                events: Seq::empty(),
            }).in_tool_call(call_id@),
    {
        match &self.open_block {
            Some(ContentBlockState::ToolUse { index: _, call_id: open_call_id }) => same_text(
                open_call_id.as_str(),
                call_id,
            ),
            _ => false,
        }
    }

    fn ensure_tool_block(
        &mut self,
        call_id: &str,
        name: &str,
        output: &mut Vec<AnthropicStreamEvent>,
    )
        requires
            old(self).deep_view().has_room(),
        ensures
            (Stream { converter: final(self).deep_view(), events: final(output).deep_view() }) == (
            Stream {
                converter: old(self).deep_view(),
                events: old(output).deep_view(),
            }).opened_tool(call_id@, name@),
    {
        if self.is_open_tool(call_id) {
            return;
        }
        self.flush_reasoning_as_thinking(output);
        self.reasoning.note_content_started();
        self.close_open_block(output);
        let index: usize = self.next_block_index;
        self.next_block_index = index + 1;
        self.open_block = Some(
            ContentBlockState::ToolUse { index, call_id: call_id.to_string() },
        );
        push_event(
            output,
            AnthropicStreamEvent::ContentBlockStart {
                index,
                content_block: AnthropicContentBlockStart::ToolUse {
                    id: call_id.to_string(),
                    name: name.to_string(),
                    input: json_empty_object(),
                },
            },
        );
    }

    fn open_index(&self) -> (result: Option<usize>)
        ensures
            result == (match self.deep_view().open_block {
                Some(block) => Some(block.position()),
                None => None,
            }),
    {
        match &self.open_block {
            Some(ContentBlockState::Text { index }) => Some(*index),
            Some(ContentBlockState::ToolUse { index, call_id: _ }) => Some(*index),
            None => None,
        }
    }

    fn grow_open_block(
        &mut self,
        delta: AnthropicDelta,
        text: &str,
        output: &mut Vec<AnthropicStreamEvent>,
    )
        ensures
            (Stream { converter: final(self).deep_view(), events: final(output).deep_view() }) == (
            Stream {
                converter: old(self).deep_view(),
                events: old(output).deep_view(),
            }).grown(delta.deep_view(), text@),
    {
        if let Some(index) = self.open_index() {
            push_event(output, AnthropicStreamEvent::ContentBlockDelta { index, delta });
            self.record_output_delta(text);
        }
    }

    fn record_output_delta(&mut self, delta: &str)
        ensures
            forall|events: Seq<AnthropicStreamEventView>|
                (Stream { converter: final(self).deep_view(), events }) == #[trigger] (Stream {
                    converter: old(self).deep_view(),
                    events,
                }).recorded(delta@),
    {
        if delta.is_empty() {
            return;
        }
        self.estimated_output_bytes = self.estimated_output_bytes.saturating_add(delta.len());
        let tokens: u64 = estimate_output_tokens(self.estimated_output_bytes);
        if tokens > self.last_output_tokens {
            self.last_output_tokens = tokens;
        }
    }

    fn end_message(
        &self,
        stop_reason: String,
        stop_sequence: Option<Json>,
        input_tokens: Option<u64>,
        details: Option<AnthropicOutputTokensDetails>,
        output: &mut Vec<AnthropicStreamEvent>,
    )
        ensures
            (Stream { converter: self.deep_view(), events: final(output).deep_view() }) == (
            Stream { converter: self.deep_view(), events: old(output).deep_view() }).ended(
                stop_reason@,
                stop_sequence.deep_view(),
                input_tokens,
                details.deep_view(),
            ),
    {
        push_event(
            output,
            AnthropicStreamEvent::MessageDelta {
                delta: AnthropicMessageDeltaBody {
                    stop_reason: Some(stop_reason),
                    stop_sequence,
                },
                usage: AnthropicUsage {
                    input_tokens,
                    output_tokens: Some(self.last_output_tokens),
                    output_tokens_details: details,
                    server_tool_use: make_search_usage(self.web_search_count),
                },
            },
        );
        push_event(output, AnthropicStreamEvent::MessageStop);
    }

    fn handle_created(&mut self, data: &Json, output: &mut Vec<AnthropicStreamEvent>)
        ensures
            (Stream { converter: final(self).deep_view(), events: final(output).deep_view() }) == (
            Stream {
                converter: old(self).deep_view(),
                events: old(output).deep_view(),
            }).created(data.deep_view()),
    {
        if self.pending_input_tokens.is_none() {
            self.pending_input_tokens = response_estimated_input_tokens(data);
        }
        self.ensure_started(output);
    }

    fn handle_item_added(&mut self, data: &Json, output: &mut Vec<AnthropicStreamEvent>)
        requires
            old(self).deep_view().has_room(),
        ensures
            (Stream { converter: final(self).deep_view(), events: final(output).deep_view() }) == (
            Stream {
                converter: old(self).deep_view(),
                events: old(output).deep_view(),
            }).item_added(data.deep_view()),
    {
        self.ensure_started(output);
        if let Some(item) = data.get("item") {
            if let Some(kind) = item.get_str("type") {
                if same_text(kind, "message") {
                    self.begin_text(output);
                }
            }
        }
    }

    fn handle_text_delta(&mut self, data: &Json, output: &mut Vec<AnthropicStreamEvent>)
        requires
            old(self).deep_view().has_room(),
        ensures
            (Stream { converter: final(self).deep_view(), events: final(output).deep_view() }) == (
            Stream {
                converter: old(self).deep_view(),
                events: old(output).deep_view(),
            }).text_delta(data.deep_view()),
    {
        self.ensure_started(output);
        if let Some(delta) = data.get_str("delta") {
            if !matches!(self.open_block, Some(ContentBlockState::Text { .. })) {
                self.begin_text(output);
            }
            self.grow_open_block(
                AnthropicDelta::TextDelta { text: delta.to_string() },
                delta,
                output,
            );
        }
    }

    fn handle_reasoning_delta(&mut self, data: &Json, output: &mut Vec<AnthropicStreamEvent>)
        ensures
            (Stream { converter: final(self).deep_view(), events: final(output).deep_view() }) == (
            Stream {
                converter: old(self).deep_view(),
                events: old(output).deep_view(),
            }).reasoning_delta(data.deep_view()),
    {
        self.ensure_started(output);
        if let Some(delta) = data.get_str("delta") {
            if self.suppress_reasoning {
                self.record_output_delta(delta);
                return;
            }
            if delta.is_empty() || self.reasoning.is_late_reasoning() {
                return;
            }
            self.record_output_delta(delta);
            self.reasoning.push_reasoning(delta);
        }
    }

    fn handle_reasoning_signature_delta(
        &mut self,
        data: &Json,
        output: &mut Vec<AnthropicStreamEvent>,
    )
        ensures
            (Stream { converter: final(self).deep_view(), events: final(output).deep_view() }) == (
            Stream {
                converter: old(self).deep_view(),
                events: old(output).deep_view(),
            }).reasoning_signature_delta(data.deep_view()),
    {
        if self.suppress_reasoning {
            return;
        }
        self.ensure_started(output);
        if let Some(signature) = data.get_str("signature") {
            if signature.is_empty() || self.reasoning.is_late_reasoning() {
                return;
            }
            self.reasoning.push_signature(signature);
        }
    }

    fn handle_function_call_arguments_delta(
        &mut self,
        data: &Json,
        output: &mut Vec<AnthropicStreamEvent>,
    )
        requires
            old(self).deep_view().has_room(),
        ensures
            (Stream { converter: final(self).deep_view(), events: final(output).deep_view() }) == (
            Stream {
                converter: old(self).deep_view(),
                events: old(output).deep_view(),
            }).arguments_delta(data.deep_view()),
    {
        self.ensure_started(output);
        let call_id = match data.get_str("call_id") {
            Some(call_id) => call_id,
            None => {
                return;
            },
        };
        if self.emitted_tool_call_ids.contains(call_id) || self.closed_tool_call_ids.contains(
            call_id,
        ) {
            return;
        }
        let name = get_text_or_empty(data, "name");
        if is_hidden_server_tool(name) {
            return;
        }
        let delta = match data.get_str("delta") {
            Some(delta) => delta,
            None => {
                return;
            },
        };
        if delta.is_empty() {
            return;
        }
        self.reasoning.note_tool_calls();
        self.ensure_tool_block(call_id, name, output);
        self.grow_open_block(
            AnthropicDelta::InputJsonDelta { partial_json: delta.to_string() },
            delta,
            output,
        );
    }

    fn handle_function_call_arguments_done(
        &mut self,
        data: &Json,
        output: &mut Vec<AnthropicStreamEvent>,
    )
        requires
            old(self).deep_view().has_room(),
        ensures
            (Stream { converter: final(self).deep_view(), events: final(output).deep_view() }) == (
            Stream {
                converter: old(self).deep_view(),
                events: old(output).deep_view(),
            }).arguments_done(data.deep_view()),
    {
        self.ensure_started(output);
        let call_id = match data.get_str("call_id") {
            Some(call_id) => call_id,
            None => {
                return;
            },
        };
        let name = get_text_or_empty(data, "name");
        if is_hidden_server_tool(name) {
            return;
        }
        self.reasoning.note_tool_calls();
        if self.emitted_tool_call_ids.contains(call_id) {
            return;
        }
        if self.closed_tool_call_ids.contains(call_id) {
            self.emitted_tool_call_ids.insert(call_id.to_string());
            return;
        }
        if self.is_open_tool(call_id) {
            self.close_open_block(output);
            self.emitted_tool_call_ids.insert(call_id.to_string());
            return;
        }
        self.show_whole_call(call_id, name, get_arguments_text(data), false, output);
    }

    fn show_whole_call(
        &mut self,
        call_id: &str,
        name: &str,
        arguments: &str,
        show_empty: bool,
        output: &mut Vec<AnthropicStreamEvent>,
    )
        requires
            old(self).deep_view().has_room(),
        ensures
            (Stream { converter: final(self).deep_view(), events: final(output).deep_view() }) == (
            Stream {
                converter: old(self).deep_view(),
                events: old(output).deep_view(),
            }).whole_call(call_id@, name@, arguments@, show_empty),
    {
        self.ensure_tool_block(call_id, name, output);
        if !arguments.is_empty() || show_empty {
            self.grow_open_block(
                AnthropicDelta::InputJsonDelta { partial_json: arguments.to_string() },
                arguments,
                output,
            );
        }
        self.close_open_block(output);
        self.emitted_tool_call_ids.insert(call_id.to_string());
    }

    fn emit_tool_use_block(&mut self, item: &Json, output: &mut Vec<AnthropicStreamEvent>)
        requires
            old(self).deep_view().has_room(),
        ensures
            (Stream { converter: final(self).deep_view(), events: final(output).deep_view() }) == (
            Stream {
                converter: old(self).deep_view(),
                events: old(output).deep_view(),
            }).tool_use_block(item.deep_view()),
    {
        self.reasoning.note_tool_calls();
        let call_id = get_text_or_empty(item, "call_id");
        if self.emitted_tool_call_ids.contains(call_id) {
            return;
        }
        if self.closed_tool_call_ids.contains(call_id) {
            self.emitted_tool_call_ids.insert(call_id.to_string());
            return;
        }
        self.show_whole_call(
            call_id,
            get_text_or_empty(item, "name"),
            get_arguments_text(item),
            true,
            output,
        );
    }

    fn handle_item_done(&mut self, data: &Json, output: &mut Vec<AnthropicStreamEvent>)
        requires
            old(self).deep_view().has_room(),
        ensures
            (Stream { converter: final(self).deep_view(), events: final(output).deep_view() }) == (
            Stream {
                converter: old(self).deep_view(),
                events: old(output).deep_view(),
            }).item_done(data.deep_view()),
    {
        let item = match data.get("item") {
            Some(item) => item,
            None => {
                return;
            },
        };
        let kind = match item.get_str("type") {
            Some(kind) => kind,
            None => {
                return;
            },
        };
        if same_text(kind, "message") {
            if matches!(self.open_block, Some(ContentBlockState::Text { .. })) {
                self.close_open_block(output);
            }
        } else if same_text(kind, "function_call") || same_text(kind, "custom_tool_call") {
            if is_hidden_server_tool(get_text_or_empty(item, "name")) {
                return;
            }
            self.close_open_block(output);
            self.emit_tool_use_block(item, output);
        }
    }

    fn handle_completed(&mut self, name: &str, data: &Json, output: &mut Vec<AnthropicStreamEvent>)
        requires
            old(self).deep_view().has_room(),
        ensures
            (Stream { converter: final(self).deep_view(), events: final(output).deep_view() }) == (
            Stream {
                converter: old(self).deep_view(),
                events: old(output).deep_view(),
            }).completed(name@, data.deep_view()),
    {
        self.completed = true;
        let clean_stop = response_is_clean_stop(name, data);
        self.flush_reasoning_terminal(clean_stop, output);
        self.close_open_block(output);
        let usage = read_response_usage(data);
        let mut input_tokens: Option<u64> = None;
        let mut details: Option<AnthropicOutputTokensDetails> = None;
        if let Some(usage) = usage {
            input_tokens = Some(usage.input_tokens);
            self.pending_input_tokens = Some(usage.input_tokens);
            if usage.output_tokens > self.last_output_tokens {
                self.last_output_tokens = usage.output_tokens;
            }
            details = usage.output_tokens_details;
        }
        let (stop_reason, stop_sequence) = response_message_end(
            data,
            self.reasoning.has_tool_calls,
        );
        self.end_message(stop_reason, stop_sequence, input_tokens, details, output);
    }

    fn handle_failed(&mut self, data: &Json, output: &mut Vec<AnthropicStreamEvent>)
        ensures
            (Stream { converter: final(self).deep_view(), events: final(output).deep_view() }) == (
            Stream {
                converter: old(self).deep_view(),
                events: old(output).deep_view(),
            }).failed(data.deep_view()),
    {
        push_event(
            output,
            AnthropicStreamEvent::Error {
                error: AnthropicErrorBody {
                    kind: "api_error".to_string(),
                    message: response_failure_message(data),
                },
            },
        );
        self.completed = true;
    }

    fn handle_web_search_results(&mut self, data: &Json, output: &mut Vec<AnthropicStreamEvent>)
        requires
            old(self).deep_view().has_room(),
        ensures
            (Stream { converter: final(self).deep_view(), events: final(output).deep_view() }) == (
            Stream {
                converter: old(self).deep_view(),
                events: old(output).deep_view(),
            }).web_search_results(data.deep_view()),
    {
        self.ensure_started(output);
        self.flush_reasoning_as_thinking(output);
        self.close_open_block(output);
        self.web_search_count = self.web_search_count + 1;
        let index: usize = self.next_block_index;
        self.next_block_index = index + 2;
        push_search_events(data, index, output);
    }
}

// ---------------------------------------------------------------------------------------------
// The collector
// ---------------------------------------------------------------------------------------------

/// Gathers the events of a response stream into a whole message.
pub struct AnthropicStreamCollector {
    inner: AnthropicStreamConverter,
    message: MessageAccumulator,
}

/// The model of [`AnthropicStreamCollector`].
pub struct AnthropicStreamCollectorView {
    pub inner: AnthropicStreamConverterView,
    pub message: MessageAccumulatorView,
}

impl DeepView for AnthropicStreamCollector {
    type V = AnthropicStreamCollectorView;

    closed spec fn deep_view(&self) -> AnthropicStreamCollectorView {
        AnthropicStreamCollectorView {
            inner: self.inner.deep_view(),
            message: self.message.deep_view(),
        }
    }
}

impl AnthropicStreamCollectorView {
    /// The collector after one event: it takes in what the converter puts out.
    pub open spec fn after(self, event: SseEventView) -> Self {
        let stream = Stream { converter: self.inner, events: Seq::empty() }.after(event);
        AnthropicStreamCollectorView {
            inner: stream.converter,
            message: self.message.with_usage(response_usage(event.data)).after_all(stream.events),
        }
    }
}

impl AnthropicStreamCollector {
    /// A collector that shows reasoning, and whose message gets a fresh id.
    pub fn new(model: String) -> (result: Self)
        ensures
            exists|fresh: Seq<char>|
                #![trigger is_simple_uuid(fresh)]
                is_simple_uuid(fresh) && result.deep_view() == (AnthropicStreamCollectorView {
                    inner: new_converter(model@, prefixed_id("msg"@, fresh), false),
                    message: MessageAccumulatorView::empty(model@),
                }),
    {
        Self::with_reasoning_suppression(model, false)
    }

    /// A collector whose message gets a fresh id.
    pub fn with_reasoning_suppression(model: String, suppress_reasoning: bool) -> (result: Self)
        ensures
            exists|fresh: Seq<char>|
                #![trigger is_simple_uuid(fresh)]
                is_simple_uuid(fresh) && result.deep_view() == (AnthropicStreamCollectorView {
                    inner: new_converter(
                        model@,
                        prefixed_id("msg"@, fresh),
                        suppress_reasoning,
                    ),
                    message: MessageAccumulatorView::empty(model@),
                }),
    {
        let inner = AnthropicStreamConverter::with_reasoning_suppression(
            model.clone(),
            suppress_reasoning,
        );
        AnthropicStreamCollector { inner, message: MessageAccumulator::new(model) }
    }

    /// Whether one more event cannot exhaust the numbers that count blocks and searches.
    pub fn has_room(&self) -> (result: bool)
        ensures
            result == self.deep_view().inner.has_room(),
    {
        self.inner.has_room()
    }

    /// Takes in one event.
    pub fn process(&mut self, event: &SseEvent)
        requires
            old(self).deep_view().inner.has_room(),
        ensures
            final(self).deep_view() == old(self).deep_view().after(event.deep_view()),
    {
        self.message.set_usage(read_response_usage(&event.data));
        let events = self.inner.convert(event);
        self.message.process_all(events);
    }

    /// The whole message, or the error that the stream reported. A message whose stream never
    /// began takes its id from `fresh`.
    pub fn into_response_with_id(self, fresh: &str) -> (result: Result<
        AnthropicMessageResponse,
        AnthropicErrorBody,
    >)
        ensures
            outcome(result) == self.deep_view().message.response(fresh@),
    {
        self.message.into_response(fresh)
    }

    /// The whole message, or the error that the stream reported.
    pub fn into_response(self) -> (result: Result<AnthropicMessageResponse, AnthropicErrorBody>)
        ensures
            exists|fresh: Seq<char>|
                #![trigger is_simple_uuid(fresh)]
                is_simple_uuid(fresh) && outcome(result) == self.deep_view().message.response(fresh),
    {
        let fresh = fresh_id();
        self.into_response_with_id(fresh.as_str())
    }
}

} // verus!
