//! The response stream as a message stream, event by event.
use vstd::prelude::*;

use crate::collections::TextSet;
use crate::duplicate::Duplicate;
use crate::error::outcome;
use crate::ids::{fresh_id, is_simple_uuid, item_id, prefixed_id};
use crate::json::{
    json_empty_object, json_object1, json_rendered, json_text, lemma_array_model, render_json, Json,
    JsonView,
};
use crate::models::anthropic::{
    AnthropicContentBlockStart, AnthropicContentBlockStartView, AnthropicDelta, AnthropicDeltaView,
    AnthropicErrorBody, AnthropicErrorBodyView, AnthropicMessageDeltaBody,
    AnthropicMessageDeltaBodyView, AnthropicMessageResponse, AnthropicMessageStart,
    AnthropicMessageStartView, AnthropicMessageUsage, AnthropicMessageUsageView,
    AnthropicOutputTokensDetails, AnthropicServerToolUse, AnthropicServerToolUseView,
    AnthropicStreamEvent, AnthropicStreamEventView, AnthropicUsage, AnthropicUsageView,
};
use crate::sse::{SseEvent, SseEventView};
use crate::text::{byte_len, same_text};

use self::message::{MessageAccumulator, MessageAccumulatorView};
use self::resource::{
    arguments_text, broken_off, broken_off_reason, failure_message, get_arguments_text,
    get_output_detail, get_text_or_empty, message_end, output_detail, read_usage,
    response_failure_message, response_message_end, text_or_empty, token_details,
    usage_with_details,
};

pub mod call_laws;
pub mod content_laws;
pub mod end_laws;
pub mod deferred;
pub mod deferred_content_laws;
pub mod deferred_laws;
pub mod laws;
pub mod message;
pub mod reasoning;
pub mod resource;
pub mod wire;

verus! {

/// The block that the stream has open.
#[derive(Debug, PartialEq)]
pub enum ContentBlockState {
    Thinking { index: usize },
    Text { index: usize },
    ToolUse { index: usize, call_id: String },
}

/// The model of [`ContentBlockState`].
pub enum ContentBlockStateView {
    Thinking { index: usize },
    Text { index: usize },
    ToolUse { index: usize, call_id: Seq<char> },
}

impl DeepView for ContentBlockState {
    type V = ContentBlockStateView;

    open spec fn deep_view(&self) -> ContentBlockStateView {
        match self {
            ContentBlockState::Thinking { index } => ContentBlockStateView::Thinking {
                index: *index,
            },
            ContentBlockState::Text { index } => ContentBlockStateView::Text {
                index: *index,
            },
            ContentBlockState::ToolUse { index, call_id } => ContentBlockStateView::ToolUse {
                index: *index,
                call_id: call_id@,
            },
        }
    }
}

/// Turns the events of a response stream into those of a message stream, as they come.
#[derive(Debug, PartialEq)]
pub struct AnthropicStreamConverter {
    model: String,
    message_id: String,
    next_block_index: usize,
    open_block: Option<ContentBlockState>,
    has_tool_calls: bool,
    started: bool,
    completed: bool,
    pending_input_tokens: Option<u64>,
    estimated_output_bytes: usize,
    estimated_thinking_bytes: usize,
    last_output_tokens: u64,
    last_thinking_tokens: u64,
    web_search_count: u64,
    emitted_tool_call_ids: TextSet,
    closed_tool_call_ids: TextSet,
}

/// The model of [`AnthropicStreamConverter`].
pub struct AnthropicStreamConverterView {
    pub model: Seq<char>,
    pub message_id: Seq<char>,
    pub next_block_index: usize,
    pub open_block: Option<ContentBlockStateView>,
    pub has_tool_calls: bool,
    pub started: bool,
    pub completed: bool,
    pub pending_input_tokens: Option<u64>,
    pub estimated_output_bytes: usize,
    pub estimated_thinking_bytes: usize,
    pub last_output_tokens: u64,
    pub last_thinking_tokens: u64,
    pub web_search_count: u64,
    pub emitted_tool_call_ids: Set<Seq<char>>,
    pub closed_tool_call_ids: Set<Seq<char>>,
}

impl DeepView for AnthropicStreamConverter {
    type V = AnthropicStreamConverterView;

    closed spec fn deep_view(&self) -> AnthropicStreamConverterView {
        AnthropicStreamConverterView {
            model: self.model@,
            message_id: self.message_id@,
            next_block_index: self.next_block_index,
            open_block: self.open_block.deep_view(),
            has_tool_calls: self.has_tool_calls,
            started: self.started,
            completed: self.completed,
            pending_input_tokens: self.pending_input_tokens.deep_view(),
            estimated_output_bytes: self.estimated_output_bytes,
            estimated_thinking_bytes: self.estimated_thinking_bytes,
            last_output_tokens: self.last_output_tokens,
            last_thinking_tokens: self.last_thinking_tokens,
            web_search_count: self.web_search_count,
            emitted_tool_call_ids: self.emitted_tool_call_ids.deep_view(),
            closed_tool_call_ids: self.closed_tool_call_ids.deep_view(),
        }
    }
}

impl ContentBlockStateView {
    /// The index of the block.
    pub open spec fn position(self) -> usize {
        match self {
            ContentBlockStateView::Thinking { index } => index,
            ContentBlockStateView::Text { index } => index,
            ContentBlockStateView::ToolUse { index, call_id } => index,
        }
    }
}

/// The estimated number of tokens that `bytes` bytes of output stand for: one for every four, a
/// part of one counted whole.
pub open spec fn estimated_tokens(bytes: usize) -> u64 {
    (bytes as int / 4 + if bytes as int % 4 > 0 {
        1int
    } else {
        0
    }) as u64
}

/// The estimated number of tokens that `bytes` bytes of output stand for.
pub fn estimate_output_tokens(bytes: usize) -> (result: u64)
    ensures
        result == estimated_tokens(bytes),
{
    let whole: u64 = (bytes / 4) as u64;
    if bytes % 4 > 0 {
        whole + 1
    } else {
        whole
    }
}

/// The usage of a server tool, where it ran.
pub open spec fn search_usage(count: u64) -> Option<AnthropicServerToolUseView> {
    if count > 0 {
        Some(AnthropicServerToolUseView { web_search_requests: count })
    } else {
        None
    }
}

/// The usage of a server tool, where it ran.
pub fn make_search_usage(count: u64) -> (result: Option<AnthropicServerToolUse>)
    ensures
        result.deep_view() == search_usage(count),
{
    if count > 0 {
        Some(AnthropicServerToolUse { web_search_requests: count })
    } else {
        None
    }
}

/// The event that a message stream begins with.
pub open spec fn message_start(id: Seq<char>, model: Seq<char>, input_tokens: Option<u64>) -> AnthropicStreamEventView {
    AnthropicStreamEventView::MessageStart {
        message: AnthropicMessageStartView {
            id,
            kind: "message"@,
            role: "assistant"@,
            content: Seq::empty(),
            model,
            stop_reason: None,
            stop_sequence: None,
            usage: AnthropicUsageView {
                input_tokens: Some(
                    match input_tokens {
                        Some(tokens) => tokens,
                        None => 0,
                    },
                ),
                output_tokens: Some(0),
                output_tokens_details: None,
                server_tool_use: None,
            },
        },
    }
}

/// The event that a message stream begins with.
pub fn make_message_start(id: String, model: String, input_tokens: Option<u64>) -> (result:
    AnthropicStreamEvent)
    ensures
        result.deep_view() == message_start(id@, model@, input_tokens),
{
    let content: Vec<Json> = Vec::new();
    assert(content.deep_view() =~= Seq::<JsonView>::empty());
    AnthropicStreamEvent::MessageStart {
        message: AnthropicMessageStart {
            id,
            kind: "message".to_string(),
            role: "assistant".to_string(),
            content,
            model,
            stop_reason: None,
            stop_sequence: None,
            usage: AnthropicUsage {
                input_tokens: Some(
                    match input_tokens {
                        Some(tokens) => tokens,
                        None => 0,
                    },
                ),
                output_tokens: Some(0),
                output_tokens_details: None,
                server_tool_use: None,
            },
        },
    }
}

/// Appends an event.
pub fn push_event(output: &mut Vec<AnthropicStreamEvent>, event: AnthropicStreamEvent)
    ensures
        final(output).deep_view() == old(output).deep_view().push(event.deep_view()),
{
    let ghost added = event.deep_view();
    output.push(event);
    assert(output.deep_view() =~= old(output).deep_view().push(added));
}

/// The blocks that show a search on the server: the call with its query, then its results.
pub open spec fn search_events(data: JsonView, index: usize) -> Seq<AnthropicStreamEventView> {
    let tool_use_id = text_or_empty(data, "tool_use_id"@);
    let results = match data.get("results"@) {
        Some(results) => results,
        None => JsonView::Array(Seq::empty()),
    };
    seq![
        AnthropicStreamEventView::ContentBlockStart {
            index,
            content_block: AnthropicContentBlockStartView::ServerToolUse {
                id: tool_use_id,
                name: "web_search"@,
            },
        },
        AnthropicStreamEventView::ContentBlockDelta {
            index,
            delta: AnthropicDeltaView::InputJsonDelta {
                partial_json: json_rendered(
                    JsonView::Object(
                        map!["query"@ => JsonView::Text(text_or_empty(data, "query"@))],
                    ),
                ),
            },
        },
        AnthropicStreamEventView::ContentBlockStop { index },
        AnthropicStreamEventView::ContentBlockStart {
            index: (index + 1) as usize,
            content_block: AnthropicContentBlockStartView::WebSearchToolResult {
                tool_use_id,
                content: results,
            },
        },
        AnthropicStreamEventView::ContentBlockStop { index: (index + 1) as usize },
    ]
}

/// Appends the blocks that show a search on the server.
pub fn push_search_events(data: &Json, index: usize, output: &mut Vec<AnthropicStreamEvent>)
    requires
        index < usize::MAX,
    ensures
        final(output).deep_view() == old(output).deep_view() + search_events(
            data.deep_view(),
            index,
        ),
{
    broadcast use lemma_array_model;

    let ghost before = output.deep_view();
    let tool_use_id = get_text_or_empty(data, "tool_use_id").to_string();
    let query = get_text_or_empty(data, "query");
    let results = match data.get("results") {
        Some(results) => results.duplicate(),
        None => {
            let items: Vec<Json> = Vec::new();
            assert(items.deep_view() =~= Seq::<JsonView>::empty());
            Json::Array(items)
        },
    };
    push_event(
        output,
        AnthropicStreamEvent::ContentBlockStart {
            index,
            content_block: AnthropicContentBlockStart::ServerToolUse {
                id: tool_use_id.clone(),
                name: "web_search".to_string(),
            },
        },
    );
    push_event(
        output,
        AnthropicStreamEvent::ContentBlockDelta {
            index,
            delta: AnthropicDelta::InputJsonDelta {
                partial_json: render_json(&json_object1("query", json_text(query))),
            },
        },
    );
    push_event(output, AnthropicStreamEvent::ContentBlockStop { index });
    push_event(
        output,
        AnthropicStreamEvent::ContentBlockStart {
            index: index + 1,
            content_block: AnthropicContentBlockStart::WebSearchToolResult {
                tool_use_id,
                content: results,
            },
        },
    );
    push_event(output, AnthropicStreamEvent::ContentBlockStop { index: index + 1 });
    assert(output.deep_view() =~= before + search_events(data.deep_view(), index));
}

// ---------------------------------------------------------------------------------------------
// The model of the conversion
// ---------------------------------------------------------------------------------------------

/// A converter, and the events that it has put out for the event at hand.
pub struct Stream {
    pub converter: AnthropicStreamConverterView,
    pub events: Seq<AnthropicStreamEventView>,
}

impl Stream {
    pub open spec fn emit(self, event: AnthropicStreamEventView) -> Stream {
        Stream { events: self.events.push(event), ..self }
    }

    /// The stream has begun.
    pub open spec fn begun(self) -> Stream {
        if self.converter.started {
            self
        } else {
            Stream {
                converter: AnthropicStreamConverterView { started: true, ..self.converter },
                ..self
            }.emit(AnthropicStreamEventView::Ping).emit(
                message_start(
                    self.converter.message_id,
                    self.converter.model,
                    self.converter.pending_input_tokens,
                ),
            )
        }
    }

    /// No block is open.
    pub open spec fn closed(self) -> Stream {
        match self.converter.open_block {
            None => self,
            Some(block) => Stream {
                converter: AnthropicStreamConverterView {
                    open_block: None,
                    closed_tool_call_ids: match block {
                        ContentBlockStateView::ToolUse { index, call_id } => {
                            self.converter.closed_tool_call_ids.insert(call_id)
                        },
                        _ => self.converter.closed_tool_call_ids,
                    },
                    ..self.converter
                },
                ..self
            }.emit(AnthropicStreamEventView::ContentBlockStop { index: block.position() }),
        }
    }

    /// A new block is open.
    pub open spec fn opened(
        self,
        block: ContentBlockStateView,
        start: AnthropicContentBlockStartView,
    ) -> Stream {
        let index = self.converter.next_block_index;
        Stream {
            converter: AnthropicStreamConverterView {
                next_block_index: (index + 1) as usize,
                open_block: Some(block),
                ..self.converter
            },
            ..self
        }.emit(AnthropicStreamEventView::ContentBlockStart { index, content_block: start })
    }

    pub open spec fn opened_text(self) -> Stream {
        self.opened(
            ContentBlockStateView::Text { index: self.converter.next_block_index },
            AnthropicContentBlockStartView::Text { text: Seq::empty() },
        )
    }

    pub open spec fn opened_thinking(self) -> Stream {
        self.opened(
            ContentBlockStateView::Thinking { index: self.converter.next_block_index },
            AnthropicContentBlockStartView::Thinking { thinking: Seq::empty() },
        )
    }

    /// Whether the block of the given tool call is open.
    pub open spec fn in_tool_call(self, call_id: Seq<char>) -> bool {
        self.converter.open_block matches Some(ContentBlockStateView::ToolUse {
            index,
            call_id: open_call_id,
        }) && open_call_id == call_id
    }

    /// The block of the given tool call is open.
    pub open spec fn opened_tool(self, call_id: Seq<char>, name: Seq<char>) -> Stream {
        if self.in_tool_call(call_id) {
            self
        } else {
            let ready = self.closed();
            ready.opened(
                ContentBlockStateView::ToolUse {
                    index: ready.converter.next_block_index,
                    call_id,
                },
                AnthropicContentBlockStartView::ToolUse {
                    id: call_id,
                    name,
                    input: JsonView::Object(Map::empty()),
                },
            )
        }
    }

    /// The open block has grown by `delta`, which stands for `text`.
    pub open spec fn grown(
        self,
        delta: AnthropicDeltaView,
        text: Seq<char>,
        is_thinking: bool,
    ) -> Stream {
        match self.converter.open_block {
            Some(block) => self.emit(
                AnthropicStreamEventView::ContentBlockDelta { index: block.position(), delta },
            ).recorded(text, is_thinking),
            None => self,
        }
    }

    /// The output has grown by `text`. Where the estimate of its tokens grows, the client is told.
    pub open spec fn recorded(self, text: Seq<char>, is_thinking: bool) -> Stream {
        let output_bytes = self.converter.estimated_output_bytes.saturating_add(byte_len(text));
        let thinking_bytes = self.converter.estimated_thinking_bytes.saturating_add(byte_len(text));
        let tokens = estimated_tokens(output_bytes);
        if text.len() == 0 {
            self
        } else {
            let counted = Stream {
                converter: AnthropicStreamConverterView {
                    estimated_output_bytes: output_bytes,
                    estimated_thinking_bytes: if is_thinking {
                        thinking_bytes
                    } else {
                        self.converter.estimated_thinking_bytes
                    },
                    last_thinking_tokens: if is_thinking {
                        estimated_tokens(thinking_bytes)
                    } else {
                        self.converter.last_thinking_tokens
                    },
                    ..self.converter
                },
                ..self
            };
            if tokens <= self.converter.last_output_tokens {
                counted
            } else {
                Stream {
                    converter: AnthropicStreamConverterView {
                        last_output_tokens: tokens,
                        ..counted.converter
                    },
                    ..counted
                }.emit(
                    AnthropicStreamEventView::MessageDelta {
                        delta: AnthropicMessageDeltaBodyView {
                            stop_reason: None,
                            stop_sequence: None,
                        },
                        usage: AnthropicUsageView {
                            input_tokens: None,
                            output_tokens: Some(tokens),
                            output_tokens_details: None,
                            server_tool_use: None,
                        },
                    },
                )
            }
        }
    }

    /// A tool call is over.
    pub open spec fn tool_call_done(self, call_id: Seq<char>) -> Stream {
        Stream {
            converter: AnthropicStreamConverterView {
                emitted_tool_call_ids: self.converter.emitted_tool_call_ids.insert(call_id),
                ..self.converter
            },
            ..self
        }
    }

    /// The turn calls tools.
    pub open spec fn calling_tools(self) -> Stream {
        Stream {
            converter: AnthropicStreamConverterView { has_tool_calls: true, ..self.converter },
            ..self
        }
    }

    /// The message ends.
    pub open spec fn ended(
        self,
        stop_reason: Seq<char>,
        stop_sequence: Option<JsonView>,
        input_tokens: Option<u64>,
    ) -> Stream {
        self.emit(
            AnthropicStreamEventView::MessageDelta {
                delta: AnthropicMessageDeltaBodyView {
                    stop_reason: Some(stop_reason),
                    stop_sequence,
                },
                usage: AnthropicUsageView {
                    input_tokens,
                    output_tokens: Some(self.converter.last_output_tokens),
                    output_tokens_details: token_details(
                        if self.converter.last_thinking_tokens > 0 {
                            Some(self.converter.last_thinking_tokens)
                        } else {
                            None
                        },
                    ),
                    server_tool_use: search_usage(self.converter.web_search_count),
                },
            },
        ).emit(AnthropicStreamEventView::MessageStop)
    }

    pub open spec fn item_added(self, data: JsonView) -> Stream {
        let stream = self.begun();
        match data.get("item"@) {
            None => stream,
            Some(item) => if item.get_str("type"@) == Some("message"@) {
                stream.closed().opened_text()
            } else if item.get_str("type"@) == Some("reasoning"@) {
                stream.closed().opened_thinking()
            } else {
                stream
            },
        }
    }

    pub open spec fn text_delta(self, data: JsonView) -> Stream {
        let stream = self.begun();
        match data.get_str("delta"@) {
            None => stream,
            Some(text) => {
                let open = if stream.converter.open_block matches Some(
                    ContentBlockStateView::Text { index },
                ) {
                    stream
                } else {
                    stream.closed().opened_text()
                };
                open.grown(AnthropicDeltaView::TextDelta { text }, text, false)
            },
        }
    }

    pub open spec fn reasoning_delta(self, data: JsonView) -> Stream {
        let stream = self.begun();
        match data.get_str("delta"@) {
            None => stream,
            Some(text) => {
                let open = if stream.converter.open_block matches Some(
                    ContentBlockStateView::Thinking { index },
                ) {
                    stream
                } else {
                    stream.closed().opened_thinking()
                };
                open.grown(AnthropicDeltaView::ThinkingDelta { thinking: text }, text, true)
            },
        }
    }

    pub open spec fn reasoning_signature_delta(self, data: JsonView) -> Stream {
        let stream = self.begun();
        match (data.get_str("signature"@), stream.converter.open_block) {
            (Some(signature), Some(ContentBlockStateView::Thinking { index })) => stream.emit(
                AnthropicStreamEventView::ContentBlockDelta {
                    index,
                    delta: AnthropicDeltaView::SignatureDelta { signature },
                },
            ),
            _ => stream,
        }
    }

    /// Whether the block of a tool call has been closed, or the call is over.
    pub open spec fn knows_call(self, call_id: Seq<char>) -> bool {
        self.converter.emitted_tool_call_ids.contains(call_id)
            || self.converter.closed_tool_call_ids.contains(call_id)
    }

    pub open spec fn arguments_delta(self, data: JsonView) -> Stream {
        let stream = self.begun();
        match (data.get_str("call_id"@), data.get_str("delta"@)) {
            (Some(call_id), Some(delta)) => if stream.knows_call(call_id) || delta.len() == 0 {
                stream
            } else {
                stream.calling_tools().opened_tool(call_id, text_or_empty(data, "name"@)).grown(
                    AnthropicDeltaView::InputJsonDelta { partial_json: delta },
                    delta,
                    false,
                )
            },
            _ => stream,
        }
    }

    /// The whole tool call at once, or what is left of it.
    pub open spec fn whole_call(
        self,
        call_id: Seq<char>,
        name: Seq<char>,
        arguments: Seq<char>,
        show_empty: bool,
    ) -> Stream {
        let open = self.opened_tool(call_id, name);
        let filled = if arguments.len() > 0 || show_empty {
            open.grown(
                AnthropicDeltaView::InputJsonDelta { partial_json: arguments },
                arguments,
                false,
            )
        } else {
            open
        };
        filled.closed().tool_call_done(call_id)
    }

    pub open spec fn arguments_done(self, data: JsonView) -> Stream {
        let stream = self.begun();
        match data.get_str("call_id"@) {
            None => stream,
            Some(call_id) => {
                let calling = stream.calling_tools();
                if calling.converter.emitted_tool_call_ids.contains(call_id) {
                    calling
                } else if calling.converter.closed_tool_call_ids.contains(call_id) {
                    calling.tool_call_done(call_id)
                } else if calling.in_tool_call(call_id) {
                    calling.closed().tool_call_done(call_id)
                } else {
                    calling.whole_call(
                        call_id,
                        text_or_empty(data, "name"@),
                        arguments_text(data),
                        false,
                    )
                }
            },
        }
    }

    /// A finished tool call as a block of its own, unless it has been shown already.
    pub open spec fn tool_use_block(self, item: JsonView) -> Stream {
        let calling = self.calling_tools();
        let call_id = text_or_empty(item, "call_id"@);
        if calling.converter.emitted_tool_call_ids.contains(call_id) {
            calling
        } else if calling.converter.closed_tool_call_ids.contains(call_id) {
            calling.tool_call_done(call_id)
        } else {
            calling.whole_call(call_id, text_or_empty(item, "name"@), arguments_text(item), true)
        }
    }

    pub open spec fn item_done(self, data: JsonView) -> Stream {
        match data.get("item"@) {
            None => self,
            Some(item) => {
                let kind = item.get_str("type"@);
                if kind == Some("message"@) {
                    if self.converter.open_block matches Some(
                        ContentBlockStateView::Text { index },
                    ) {
                        self.closed()
                    } else {
                        self
                    }
                } else if kind == Some("reasoning"@) {
                    if self.converter.open_block matches Some(
                        ContentBlockStateView::Thinking { index },
                    ) {
                        self.closed()
                    } else {
                        self
                    }
                } else if kind == Some("function_call"@) || kind == Some("custom_tool_call"@) {
                    self.closed().tool_use_block(item)
                } else {
                    self
                }
            },
        }
    }

    pub open spec fn completed(self, data: JsonView) -> Stream {
        let closed = Stream {
            converter: AnthropicStreamConverterView { completed: true, ..self.converter },
            ..self
        }.closed();
        let usage = response_usage(data);
        let counted = match usage {
            None => closed,
            Some(usage) => Stream {
                converter: AnthropicStreamConverterView {
                    pending_input_tokens: Some(usage.input_tokens),
                    last_thinking_tokens: match usage.output_tokens_details {
                        Some(details) => larger(
                            closed.converter.last_thinking_tokens,
                            details.thinking_tokens,
                        ),
                        None => closed.converter.last_thinking_tokens,
                    },
                    last_output_tokens: larger(
                        usage.output_tokens,
                        closed.converter.last_output_tokens,
                    ),
                    ..closed.converter
                },
                ..closed
            },
        };
        let (stop_reason, stop_sequence) = message_end(data, counted.converter.has_tool_calls);
        counted.ended(
            stop_reason,
            stop_sequence,
            match usage {
                Some(usage) => Some(usage.input_tokens),
                None => None,
            },
        )
    }

    pub open spec fn failed(self, data: JsonView) -> Stream {
        self.emit(
            AnthropicStreamEventView::Error {
                error: AnthropicErrorBodyView {
                    kind: "api_error"@,
                    message: failure_message(data),
                },
            },
        )
    }

    pub open spec fn web_search_results(self, data: JsonView) -> Stream {
        let ready = self.begun().closed();
        let index = ready.converter.next_block_index;
        Stream {
            converter: AnthropicStreamConverterView {
                web_search_count: (ready.converter.web_search_count + 1) as u64,
                next_block_index: (index + 2) as usize,
                ..ready.converter
            },
            events: ready.events + search_events(data, index),
        }
    }

    /// The stream after one event.
    pub open spec fn after(self, event: SseEventView) -> Stream {
        let name = event.event;
        let data = event.data;
        if name == "response.created"@ {
            self.begun()
        } else if name == "response.output_item.added"@ {
            self.item_added(data)
        } else if name == "response.output_text.delta"@ {
            self.text_delta(data)
        } else if name == "response.reasoning_text.delta"@ || name
            == "response.reasoning_summary_text.delta"@ {
            self.reasoning_delta(data)
        } else if name == "response.reasoning_summary_text.signature_delta"@ {
            self.reasoning_signature_delta(data)
        } else if name == "response.function_call_arguments.delta"@ {
            self.arguments_delta(data)
        } else if name == "response.function_call_arguments.done"@ {
            self.arguments_done(data)
        } else if name == "response.output_item.done"@ {
            self.item_done(data)
        } else if name == "response.completed"@ || name == "response.incomplete"@ {
            self.completed(data)
        } else if name == "response.failed"@ {
            self.failed(data)
        } else if name == "response.web_search_results"@ {
            self.web_search_results(data)
        } else {
            self
        }
    }

    /// The stream after the last event.
    pub open spec fn finalized(self) -> Stream {
        if self.converter.completed {
            self
        } else {
            let ready = self.begun().closed();
            let ended = ready.ended(
                broken_off(ready.converter.has_tool_calls),
                None,
                ready.converter.pending_input_tokens,
            );
            Stream {
                converter: AnthropicStreamConverterView { completed: true, ..ended.converter },
                ..ended
            }
        }
    }
}

/// The larger of two numbers.
pub open spec fn larger(one: u64, other: u64) -> u64 {
    if one >= other {
        one
    } else {
        other
    }
}

/// The usage that a terminal event reports.
pub open spec fn response_usage(data: JsonView) -> Option<AnthropicMessageUsageView> {
    usage_with_details(
        data,
        match output_detail(data, "thinking_tokens"@) {
            Some(value) => match value.as_u64() {
                Some(tokens) => Some(tokens as u64),
                None => None,
            },
            None => None,
        },
    )
}

/// The usage that a terminal event reports.
pub fn read_response_usage(data: &Json) -> (result: Option<AnthropicMessageUsage>)
    ensures
        result.deep_view() == response_usage(data.deep_view()),
{
    let thinking_tokens = match get_output_detail(data, "thinking_tokens") {
        Some(value) => value.as_u64(),
        None => None,
    };
    read_usage(data, thinking_tokens)
}

/// A converter that has seen nothing yet.
pub open spec fn new_converter(model: Seq<char>, message_id: Seq<char>) -> AnthropicStreamConverterView {
    AnthropicStreamConverterView {
        model,
        message_id,
        next_block_index: 0,
        open_block: None,
        has_tool_calls: false,
        started: false,
        completed: false,
        pending_input_tokens: None,
        estimated_output_bytes: 0,
        estimated_thinking_bytes: 0,
        last_output_tokens: 0,
        last_thinking_tokens: 0,
        web_search_count: 0,
        emitted_tool_call_ids: Set::empty(),
        closed_tool_call_ids: Set::empty(),
    }
}

impl AnthropicStreamConverterView {
    /// Whether one more event cannot exhaust the numbers that count blocks and searches.
    pub open spec fn has_room(self) -> bool {
        self.next_block_index <= usize::MAX - 4 && self.web_search_count < u64::MAX
    }
}

// ---------------------------------------------------------------------------------------------
// The converter
// ---------------------------------------------------------------------------------------------

impl AnthropicStreamConverter {
    /// A converter whose message gets a fresh id.
    pub fn new(model: String) -> (result: Self)
        ensures
            exists|fresh: Seq<char>|
                #![trigger is_simple_uuid(fresh)]
                is_simple_uuid(fresh) && result.deep_view() == new_converter(
                    model@,
                    prefixed_id("msg"@, fresh),
                ),
    {
        let fresh = fresh_id();
        Self::with_message_id(model, item_id("msg", fresh.as_str()))
    }

    /// A converter for the message with the given id.
    pub fn with_message_id(model: String, message_id: String) -> (result: Self)
        ensures
            result.deep_view() == new_converter(model@, message_id@),
    {
        AnthropicStreamConverter {
            model,
            message_id,
            next_block_index: 0,
            open_block: None,
            has_tool_calls: false,
            started: false,
            completed: false,
            pending_input_tokens: None,
            estimated_output_bytes: 0,
            estimated_thinking_bytes: 0,
            last_output_tokens: 0,
            last_thinking_tokens: 0,
            web_search_count: 0,
            emitted_tool_call_ids: TextSet::new(),
            closed_tool_call_ids: TextSet::new(),
        }
    }

    /// Whether one more event cannot exhaust the numbers that count blocks and searches.
    pub fn has_room(&self) -> (result: bool)
        ensures
            result == self.deep_view().has_room(),
    {
        self.next_block_index <= usize::MAX - 4 && self.web_search_count < u64::MAX
    }

    /// Converts one event.
    pub fn convert(&mut self, event: &SseEvent) -> (result: Vec<AnthropicStreamEvent>)
        requires
            old(self).deep_view().has_room(),
        ensures
            (Stream { converter: final(self).deep_view(), events: result.deep_view() }) == (Stream {
                converter: old(self).deep_view(),
                events: Seq::empty(),
            }).after(event.deep_view()),
    {
        let mut output: Vec<AnthropicStreamEvent> = Vec::new();
        assert(output.deep_view() =~= Seq::<AnthropicStreamEventView>::empty());
        let name = event.event.as_str();
        let data = &event.data;
        if same_text(name, "response.created") {
            self.ensure_started(&mut output);
        } else if same_text(name, "response.output_item.added") {
            self.handle_item_added(data, &mut output);
        } else if same_text(name, "response.output_text.delta") {
            self.handle_text_delta(data, &mut output);
        } else if same_text(name, "response.reasoning_text.delta") || same_text(
            name,
            "response.reasoning_summary_text.delta",
        ) {
            self.handle_reasoning_delta(data, &mut output);
        } else if same_text(name, "response.reasoning_summary_text.signature_delta") {
            self.handle_reasoning_signature_delta(data, &mut output);
        } else if same_text(name, "response.function_call_arguments.delta") {
            self.handle_function_call_arguments_delta(data, &mut output);
        } else if same_text(name, "response.function_call_arguments.done") {
            self.handle_function_call_arguments_done(data, &mut output);
        } else if same_text(name, "response.output_item.done") {
            self.handle_item_done(data, &mut output);
        } else if same_text(name, "response.completed") || same_text(name, "response.incomplete") {
            self.handle_completed(data, &mut output);
        } else if same_text(name, "response.failed") {
            self.handle_failed(data, &mut output);
        } else if same_text(name, "response.web_search_results") {
            self.handle_web_search_results(data, &mut output);
        }
        output
    }

    /// Ends the stream. A message that has not been completed is closed as it stands; after that,
    /// or after a completed message, there is nothing to put out.
    pub fn finalize(&mut self) -> (result: Vec<AnthropicStreamEvent>)
        ensures
            (Stream { converter: final(self).deep_view(), events: result.deep_view() }) == (Stream {
                converter: old(self).deep_view(),
                events: Seq::empty(),
            }).finalized(),
    {
        let mut output: Vec<AnthropicStreamEvent> = Vec::new();
        assert(output.deep_view() =~= Seq::<AnthropicStreamEventView>::empty());
        if self.completed {
            return output;
        }
        self.ensure_started(&mut output);
        self.close_open_block(&mut output);
        let reason = broken_off_reason(self.has_tool_calls);
        let input_tokens = self.pending_input_tokens;
        self.end_message(reason, None, input_tokens, &mut output);
        self.completed = true;
        output
    }

    fn ensure_started(&mut self, output: &mut Vec<AnthropicStreamEvent>)
        ensures
            (Stream { converter: final(self).deep_view(), events: final(output).deep_view() }) == (
            Stream { converter: old(self).deep_view(), events: old(output).deep_view() }).begun(),
    {
        if !self.started {
            self.started = true;
            push_event(output, AnthropicStreamEvent::Ping);
            push_event(
                output,
                make_message_start(
                    self.message_id.clone(),
                    self.model.clone(),
                    self.pending_input_tokens,
                ),
            );
        }
    }

    fn close_open_block(&mut self, output: &mut Vec<AnthropicStreamEvent>)
        ensures
            (Stream { converter: final(self).deep_view(), events: final(output).deep_view() }) == (
            Stream { converter: old(self).deep_view(), events: old(output).deep_view() }).closed(),
    {
        if let Some(block) = self.open_block.take() {
            let index: usize = match block {
                ContentBlockState::Thinking { index } => index,
                ContentBlockState::Text { index } => index,
                ContentBlockState::ToolUse { index, call_id } => {
                    self.closed_tool_call_ids.insert(call_id);
                    index
                },
            };
            push_event(output, AnthropicStreamEvent::ContentBlockStop { index });
        }
    }

    fn start_text_block(&mut self, output: &mut Vec<AnthropicStreamEvent>)
        requires
            old(self).deep_view().next_block_index < usize::MAX,
        ensures
            (Stream { converter: final(self).deep_view(), events: final(output).deep_view() }) == (
            Stream {
                converter: old(self).deep_view(),
                events: old(output).deep_view(),
            }).opened_text(),
    {
        let index: usize = self.next_block_index;
        self.next_block_index = index + 1;
        self.open_block = Some(ContentBlockState::Text { index });
        push_event(
            output,
            AnthropicStreamEvent::ContentBlockStart {
                index,
                content_block: AnthropicContentBlockStart::Text { text: String::new() },
            },
        );
    }

    fn start_thinking_block(&mut self, output: &mut Vec<AnthropicStreamEvent>)
        requires
            old(self).deep_view().next_block_index < usize::MAX,
        ensures
            (Stream { converter: final(self).deep_view(), events: final(output).deep_view() }) == (
            Stream {
                converter: old(self).deep_view(),
                events: old(output).deep_view(),
            }).opened_thinking(),
    {
        let index: usize = self.next_block_index;
        self.next_block_index = index + 1;
        self.open_block = Some(ContentBlockState::Thinking { index });
        push_event(
            output,
            AnthropicStreamEvent::ContentBlockStart {
                index,
                content_block: AnthropicContentBlockStart::Thinking { thinking: String::new() },
            },
        );
    }

    fn is_open_tool(&self, call_id: &str) -> (result: bool)
        ensures
            result == (Stream {
                converter: self.deep_view(),
                events: Seq::empty(),
            }).in_tool_call(call_id@),
    {
        match &self.open_block {
            Some(ContentBlockState::ToolUse { index: _, call_id: open_call_id }) => same_text(
                open_call_id.as_str(),
                call_id,
            ),
            _ => false,
        }
    }

    fn ensure_tool_block(
        &mut self,
        call_id: &str,
        name: &str,
        output: &mut Vec<AnthropicStreamEvent>,
    )
        requires
            old(self).deep_view().next_block_index < usize::MAX,
        ensures
            (Stream { converter: final(self).deep_view(), events: final(output).deep_view() }) == (
            Stream {
                converter: old(self).deep_view(),
                events: old(output).deep_view(),
            }).opened_tool(call_id@, name@),
    {
        if self.is_open_tool(call_id) {
            return;
        }
        self.close_open_block(output);
        let index: usize = self.next_block_index;
        self.next_block_index = index + 1;
        self.open_block = Some(
            ContentBlockState::ToolUse { index, call_id: call_id.to_string() },
        );
        push_event(
            output,
            AnthropicStreamEvent::ContentBlockStart {
                index,
                content_block: AnthropicContentBlockStart::ToolUse {
                    id: call_id.to_string(),
                    name: name.to_string(),
                    input: json_empty_object(),
                },
            },
        );
    }

    fn open_index(&self) -> (result: Option<usize>)
        ensures
            result == (match self.deep_view().open_block {
                Some(block) => Some(block.position()),
                None => None,
            }),
    {
        match &self.open_block {
            Some(ContentBlockState::Thinking { index }) => Some(*index),
            Some(ContentBlockState::Text { index }) => Some(*index),
            Some(ContentBlockState::ToolUse { index, call_id: _ }) => Some(*index),
            None => None,
        }
    }

    fn grow_open_block(
        &mut self,
        delta: AnthropicDelta,
        text: &str,
        is_thinking: bool,
        output: &mut Vec<AnthropicStreamEvent>,
    )
        ensures
            (Stream { converter: final(self).deep_view(), events: final(output).deep_view() }) == (
            Stream {
                converter: old(self).deep_view(),
                events: old(output).deep_view(),
            }).grown(delta.deep_view(), text@, is_thinking),
    {
        if let Some(index) = self.open_index() {
            push_event(output, AnthropicStreamEvent::ContentBlockDelta { index, delta });
            self.record_output_delta(text, is_thinking, output);
        }
    }

    fn record_output_delta(
        &mut self,
        delta: &str,
        is_thinking: bool,
        output: &mut Vec<AnthropicStreamEvent>,
    )
        ensures
            (Stream { converter: final(self).deep_view(), events: final(output).deep_view() }) == (
            Stream {
                converter: old(self).deep_view(),
                events: old(output).deep_view(),
            }).recorded(delta@, is_thinking),
    {
        if delta.is_empty() {
            return;
        }
        self.estimated_output_bytes = self.estimated_output_bytes.saturating_add(delta.len());
        let tokens: u64 = estimate_output_tokens(self.estimated_output_bytes);
        if is_thinking {
            self.estimated_thinking_bytes = self.estimated_thinking_bytes.saturating_add(
                delta.len(),
            );
            self.last_thinking_tokens = estimate_output_tokens(self.estimated_thinking_bytes);
        }
        if tokens <= self.last_output_tokens {
            return;
        }
        self.last_output_tokens = tokens;
        push_event(
            output,
            AnthropicStreamEvent::MessageDelta {
                delta: AnthropicMessageDeltaBody { stop_reason: None, stop_sequence: None },
                usage: AnthropicUsage {
                    input_tokens: None,
                    output_tokens: Some(tokens),
                    output_tokens_details: None,
                    server_tool_use: None,
                },
            },
        );
    }

    fn output_tokens_details(&self) -> (result: Option<AnthropicOutputTokensDetails>)
        ensures
            result.deep_view() == token_details(
                if self.deep_view().last_thinking_tokens > 0 {
                    Some(self.deep_view().last_thinking_tokens)
                } else {
                    None
                },
            ),
    {
        if self.last_thinking_tokens > 0 {
            Some(AnthropicOutputTokensDetails { thinking_tokens: self.last_thinking_tokens })
        } else {
            None
        }
    }

    fn end_message(
        &self,
        stop_reason: String,
        stop_sequence: Option<Json>,
        input_tokens: Option<u64>,
        output: &mut Vec<AnthropicStreamEvent>,
    )
        ensures
            (Stream { converter: self.deep_view(), events: final(output).deep_view() }) == (
            Stream { converter: self.deep_view(), events: old(output).deep_view() }).ended(
                stop_reason@,
                stop_sequence.deep_view(),
                input_tokens,
            ),
    {
        push_event(
            output,
            AnthropicStreamEvent::MessageDelta {
                delta: AnthropicMessageDeltaBody {
                    stop_reason: Some(stop_reason),
                    stop_sequence,
                },
                usage: AnthropicUsage {
                    input_tokens,
                    output_tokens: Some(self.last_output_tokens),
                    output_tokens_details: self.output_tokens_details(),
                    server_tool_use: make_search_usage(self.web_search_count),
                },
            },
        );
        push_event(output, AnthropicStreamEvent::MessageStop);
    }

    fn handle_item_added(&mut self, data: &Json, output: &mut Vec<AnthropicStreamEvent>)
        requires
            old(self).deep_view().has_room(),
        ensures
            (Stream { converter: final(self).deep_view(), events: final(output).deep_view() }) == (
            Stream {
                converter: old(self).deep_view(),
                events: old(output).deep_view(),
            }).item_added(data.deep_view()),
    {
        self.ensure_started(output);
        if let Some(item) = data.get("item") {
            if let Some(kind) = item.get_str("type") {
                if same_text(kind, "message") {
                    self.close_open_block(output);
                    self.start_text_block(output);
                } else if same_text(kind, "reasoning") {
                    self.close_open_block(output);
                    self.start_thinking_block(output);
                }
            }
        }
    }

    fn handle_text_delta(&mut self, data: &Json, output: &mut Vec<AnthropicStreamEvent>)
        requires
            old(self).deep_view().has_room(),
        ensures
            (Stream { converter: final(self).deep_view(), events: final(output).deep_view() }) == (
            Stream {
                converter: old(self).deep_view(),
                events: old(output).deep_view(),
            }).text_delta(data.deep_view()),
    {
        self.ensure_started(output);
        if let Some(delta) = data.get_str("delta") {
            if !matches!(self.open_block, Some(ContentBlockState::Text { .. })) {
                self.close_open_block(output);
                self.start_text_block(output);
            }
            self.grow_open_block(
                AnthropicDelta::TextDelta { text: delta.to_string() },
                delta,
                false,
                output,
            );
        }
    }

    fn handle_reasoning_delta(&mut self, data: &Json, output: &mut Vec<AnthropicStreamEvent>)
        requires
            old(self).deep_view().has_room(),
        ensures
            (Stream { converter: final(self).deep_view(), events: final(output).deep_view() }) == (
            Stream {
                converter: old(self).deep_view(),
                events: old(output).deep_view(),
            }).reasoning_delta(data.deep_view()),
    {
        self.ensure_started(output);
        if let Some(delta) = data.get_str("delta") {
            if !matches!(self.open_block, Some(ContentBlockState::Thinking { .. })) {
                self.close_open_block(output);
                self.start_thinking_block(output);
            }
            self.grow_open_block(
                AnthropicDelta::ThinkingDelta { thinking: delta.to_string() },
                delta,
                true,
                output,
            );
        }
    }

    fn handle_reasoning_signature_delta(
        &mut self,
        data: &Json,
        output: &mut Vec<AnthropicStreamEvent>,
    )
        ensures
            (Stream { converter: final(self).deep_view(), events: final(output).deep_view() }) == (
            Stream {
                converter: old(self).deep_view(),
                events: old(output).deep_view(),
            }).reasoning_signature_delta(data.deep_view()),
    {
        self.ensure_started(output);
        if let Some(signature) = data.get_str("signature") {
            if let Some(ContentBlockState::Thinking { index }) = &self.open_block {
                push_event(
                    output,
                    AnthropicStreamEvent::ContentBlockDelta {
                        index: *index,
                        delta: AnthropicDelta::SignatureDelta { signature: signature.to_string() },
                    },
                );
            }
        }
    }

    fn handle_function_call_arguments_delta(
        &mut self,
        data: &Json,
        output: &mut Vec<AnthropicStreamEvent>,
    )
        requires
            old(self).deep_view().has_room(),
        ensures
            (Stream { converter: final(self).deep_view(), events: final(output).deep_view() }) == (
            Stream {
                converter: old(self).deep_view(),
                events: old(output).deep_view(),
            }).arguments_delta(data.deep_view()),
    {
        self.ensure_started(output);
        let call_id = match data.get_str("call_id") {
            Some(call_id) => call_id,
            None => {
                return;
            },
        };
        if self.emitted_tool_call_ids.contains(call_id) || self.closed_tool_call_ids.contains(
            call_id,
        ) {
            return;
        }
        let delta = match data.get_str("delta") {
            Some(delta) => delta,
            None => {
                return;
            },
        };
        if delta.is_empty() {
            return;
        }
        self.has_tool_calls = true;
        self.ensure_tool_block(call_id, get_text_or_empty(data, "name"), output);
        self.grow_open_block(
            AnthropicDelta::InputJsonDelta { partial_json: delta.to_string() },
            delta,
            false,
            output,
        );
    }

    fn handle_function_call_arguments_done(
        &mut self,
        data: &Json,
        output: &mut Vec<AnthropicStreamEvent>,
    )
        requires
            old(self).deep_view().has_room(),
        ensures
            (Stream { converter: final(self).deep_view(), events: final(output).deep_view() }) == (
            Stream {
                converter: old(self).deep_view(),
                events: old(output).deep_view(),
            }).arguments_done(data.deep_view()),
    {
        self.ensure_started(output);
        let call_id = match data.get_str("call_id") {
            Some(call_id) => call_id,
            None => {
                return;
            },
        };
        self.has_tool_calls = true;
        if self.emitted_tool_call_ids.contains(call_id) {
            return;
        }
        if self.closed_tool_call_ids.contains(call_id) {
            self.emitted_tool_call_ids.insert(call_id.to_string());
            return;
        }
        if self.is_open_tool(call_id) {
            self.close_open_block(output);
            self.emitted_tool_call_ids.insert(call_id.to_string());
            return;
        }
        self.show_whole_call(
            call_id,
            get_text_or_empty(data, "name"),
            get_arguments_text(data),
            false,
            output,
        );
    }

    fn show_whole_call(
        &mut self,
        call_id: &str,
        name: &str,
        arguments: &str,
        show_empty: bool,
        output: &mut Vec<AnthropicStreamEvent>,
    )
        requires
            old(self).deep_view().next_block_index < usize::MAX,
        ensures
            (Stream { converter: final(self).deep_view(), events: final(output).deep_view() }) == (
            Stream {
                converter: old(self).deep_view(),
                events: old(output).deep_view(),
            }).whole_call(call_id@, name@, arguments@, show_empty),
    {
        self.ensure_tool_block(call_id, name, output);
        if !arguments.is_empty() || show_empty {
            self.grow_open_block(
                AnthropicDelta::InputJsonDelta { partial_json: arguments.to_string() },
                arguments,
                false,
                output,
            );
        }
        self.close_open_block(output);
        self.emitted_tool_call_ids.insert(call_id.to_string());
    }

    fn emit_tool_use_block(&mut self, item: &Json, output: &mut Vec<AnthropicStreamEvent>)
        requires
            old(self).deep_view().has_room(),
        ensures
            (Stream { converter: final(self).deep_view(), events: final(output).deep_view() }) == (
            Stream {
                converter: old(self).deep_view(),
                events: old(output).deep_view(),
            }).tool_use_block(item.deep_view()),
    {
        self.has_tool_calls = true;
        let call_id = get_text_or_empty(item, "call_id");
        if self.emitted_tool_call_ids.contains(call_id) {
            return;
        }
        if self.closed_tool_call_ids.contains(call_id) {
            self.emitted_tool_call_ids.insert(call_id.to_string());
            return;
        }
        self.show_whole_call(
            call_id,
            get_text_or_empty(item, "name"),
            get_arguments_text(item),
            true,
            output,
        );
    }

    fn handle_item_done(&mut self, data: &Json, output: &mut Vec<AnthropicStreamEvent>)
        requires
            old(self).deep_view().has_room(),
        ensures
            (Stream { converter: final(self).deep_view(), events: final(output).deep_view() }) == (
            Stream {
                converter: old(self).deep_view(),
                events: old(output).deep_view(),
            }).item_done(data.deep_view()),
    {
        let item = match data.get("item") {
            Some(item) => item,
            None => {
                return;
            },
        };
        let kind = match item.get_str("type") {
            Some(kind) => kind,
            None => {
                return;
            },
        };
        if same_text(kind, "message") {
            if matches!(self.open_block, Some(ContentBlockState::Text { .. })) {
                self.close_open_block(output);
            }
        } else if same_text(kind, "reasoning") {
            if matches!(self.open_block, Some(ContentBlockState::Thinking { .. })) {
                self.close_open_block(output);
            }
        } else if same_text(kind, "function_call") || same_text(kind, "custom_tool_call") {
            self.close_open_block(output);
            self.emit_tool_use_block(item, output);
        }
    }

    fn handle_completed(&mut self, data: &Json, output: &mut Vec<AnthropicStreamEvent>)
        ensures
            (Stream { converter: final(self).deep_view(), events: final(output).deep_view() }) == (
            Stream {
                converter: old(self).deep_view(),
                events: old(output).deep_view(),
            }).completed(data.deep_view()),
    {
        self.completed = true;
        self.close_open_block(output);
        let usage = read_response_usage(data);
        let mut input_tokens: Option<u64> = None;
        if let Some(usage) = &usage {
            input_tokens = Some(usage.input_tokens);
            self.pending_input_tokens = Some(usage.input_tokens);
            if let Some(details) = &usage.output_tokens_details {
                if details.thinking_tokens > self.last_thinking_tokens {
                    self.last_thinking_tokens = details.thinking_tokens;
                }
            }
            if usage.output_tokens > self.last_output_tokens {
                self.last_output_tokens = usage.output_tokens;
            }
        }
        let (stop_reason, stop_sequence) = response_message_end(data, self.has_tool_calls);
        self.end_message(stop_reason, stop_sequence, input_tokens, output);
    }

    fn handle_failed(&mut self, data: &Json, output: &mut Vec<AnthropicStreamEvent>)
        ensures
            (Stream { converter: final(self).deep_view(), events: final(output).deep_view() }) == (
            Stream {
                converter: old(self).deep_view(),
                events: old(output).deep_view(),
            }).failed(data.deep_view()),
    {
        push_event(
            output,
            AnthropicStreamEvent::Error {
                error: AnthropicErrorBody {
                    kind: "api_error".to_string(),
                    message: response_failure_message(data),
                },
            },
        );
    }

    fn handle_web_search_results(&mut self, data: &Json, output: &mut Vec<AnthropicStreamEvent>)
        requires
            old(self).deep_view().has_room(),
        ensures
            (Stream { converter: final(self).deep_view(), events: final(output).deep_view() }) == (
            Stream {
                converter: old(self).deep_view(),
                events: old(output).deep_view(),
            }).web_search_results(data.deep_view()),
    {
        self.ensure_started(output);
        self.close_open_block(output);
        self.web_search_count = self.web_search_count + 1;
        let index: usize = self.next_block_index;
        self.next_block_index = index + 2;
        push_search_events(data, index, output);
    }
}

// ---------------------------------------------------------------------------------------------
// The collector
// ---------------------------------------------------------------------------------------------

/// Gathers the events of a response stream into a whole message.
pub struct AnthropicStreamCollector {
    inner: AnthropicStreamConverter,
    message: MessageAccumulator,
}

/// The model of [`AnthropicStreamCollector`].
pub struct AnthropicStreamCollectorView {
    pub inner: AnthropicStreamConverterView,
    pub message: MessageAccumulatorView,
}

impl DeepView for AnthropicStreamCollector {
    type V = AnthropicStreamCollectorView;

    closed spec fn deep_view(&self) -> AnthropicStreamCollectorView {
        AnthropicStreamCollectorView {
            inner: self.inner.deep_view(),
            message: self.message.deep_view(),
        }
    }
}

impl AnthropicStreamCollectorView {
    /// The collector after one event: it takes in what the converter puts out.
    pub open spec fn after(self, event: SseEventView) -> Self {
        let stream = Stream { converter: self.inner, events: Seq::empty() }.after(event);
        AnthropicStreamCollectorView {
            inner: stream.converter,
            message: self.message.with_usage(response_usage(event.data)).after_all(stream.events),
        }
    }
}

impl AnthropicStreamCollector {
    /// A collector whose message gets a fresh id.
    pub fn new(model: String) -> (result: Self)
        ensures
            exists|fresh: Seq<char>|
                #![trigger is_simple_uuid(fresh)]
                is_simple_uuid(fresh) && result.deep_view() == (AnthropicStreamCollectorView {
                    inner: new_converter(model@, prefixed_id("msg"@, fresh)),
                    message: MessageAccumulatorView::empty(model@),
                }),
    {
        let inner = AnthropicStreamConverter::new(model.clone());
        AnthropicStreamCollector { inner, message: MessageAccumulator::new(model) }
    }

    /// Whether one more event cannot exhaust the numbers that count blocks and searches.
    pub fn has_room(&self) -> (result: bool)
        ensures
            result == self.deep_view().inner.has_room(),
    {
        self.inner.has_room()
    }

    /// Takes in one event.
    pub fn process(&mut self, event: &SseEvent)
        requires
            old(self).deep_view().inner.has_room(),
        ensures
            final(self).deep_view() == old(self).deep_view().after(event.deep_view()),
    {
        self.message.set_usage(read_response_usage(&event.data));
        let events = self.inner.convert(event);
        self.message.process_all(events);
    }

    /// The whole message, or the error that the stream reported. A message whose stream never
    /// began takes its id from `fresh`.
    pub fn into_response_with_id(self, fresh: &str) -> (result: Result<
        AnthropicMessageResponse,
        AnthropicErrorBody,
    >)
        ensures
            outcome(result) == self.deep_view().message.response(fresh@),
    {
        self.message.into_response(fresh)
    }

    /// The whole message, or the error that the stream reported.
    pub fn into_response(self) -> (result: Result<AnthropicMessageResponse, AnthropicErrorBody>)
        ensures
            exists|fresh: Seq<char>|
                #![trigger is_simple_uuid(fresh)]
                is_simple_uuid(fresh) && outcome(result) == self.deep_view().message.response(fresh),
    {
        let fresh = fresh_id();
        self.into_response_with_id(fresh.as_str())
    }
}

} // verus!
