//! A whole message, gathered from the events of its stream.
use vstd::prelude::*;

use crate::error::outcome;
use crate::ids::{item_id, prefixed_id};
use crate::json::{json_empty_object, json_parsed, parse_json, Json, JsonView};
use crate::models::anthropic::{
    AnthropicContentBlockStart, AnthropicContentBlockStartView, AnthropicDelta, AnthropicDeltaView,
    AnthropicErrorBody, AnthropicErrorBodyView, AnthropicMessageResponse,
    AnthropicMessageResponseView, AnthropicMessageUsage, AnthropicMessageUsageView,
    AnthropicOutputTokensDetails, AnthropicOutputTokensDetailsView, AnthropicResponseContentBlock,
    AnthropicResponseContentBlockView, AnthropicStreamEvent, AnthropicStreamEventView,
};

verus! {

/// A block that is being gathered.
#[derive(Debug, PartialEq)]
pub enum AccumulatedBlock {
    Thinking { text: String, signature: Option<String> },
    Text { text: String },
    ToolUse {
        id: String,
        name: String,
        input: String,
    },
    ServerToolUse {
        id: String,
        name: String,
        input: String,
    },
    WebSearchToolResult { tool_use_id: String, content: Json },
}

/// The model of [`AccumulatedBlock`].
pub enum AccumulatedBlockView {
    Thinking { text: Seq<char>, signature: Option<Seq<char>> },
    Text { text: Seq<char> },
    ToolUse {
        id: Seq<char>,
        name: Seq<char>,
        input: Seq<char>,
    },
    ServerToolUse {
        id: Seq<char>,
        name: Seq<char>,
        input: Seq<char>,
    },
    WebSearchToolResult { tool_use_id: Seq<char>, content: JsonView },
}

impl DeepView for AccumulatedBlock {
    type V = AccumulatedBlockView;

    open spec fn deep_view(&self) -> AccumulatedBlockView {
        match self {
            AccumulatedBlock::Thinking { text, signature } => AccumulatedBlockView::Thinking {
                text: text@,
                signature: signature.deep_view(),
            },
            AccumulatedBlock::Text { text } => AccumulatedBlockView::Text {
                text: text@,
            },
            AccumulatedBlock::ToolUse { id, name, input } => AccumulatedBlockView::ToolUse {
                id: id@,
                name: name@,
                input: input@,
            },
            AccumulatedBlock::ServerToolUse { id, name, input } => AccumulatedBlockView::ServerToolUse {
                id: id@,
                name: name@,
                input: input@,
            },
            AccumulatedBlock::WebSearchToolResult { tool_use_id, content } => AccumulatedBlockView::WebSearchToolResult {
                tool_use_id: tool_use_id@,
                content: content.deep_view(),
            },
        }
    }
}

/// A message that is gathered from the events of its stream.
#[derive(Debug, PartialEq)]
pub struct MessageAccumulator {
    pub message_id: Option<String>,
    pub model: String,
    pub stop_reason: Option<String>,
    pub stop_sequence: Option<Json>,
    pub blocks: Vec<AccumulatedBlock>,
    pub current_block: Option<AccumulatedBlock>,
    pub input_tokens: u64,
    pub output_tokens: u64,
    pub output_tokens_details: Option<AnthropicOutputTokensDetails>,
    pub error: Option<AnthropicErrorBody>,
}

/// The model of [`MessageAccumulator`].
pub struct MessageAccumulatorView {
    pub message_id: Option<Seq<char>>,
    pub model: Seq<char>,
    pub stop_reason: Option<Seq<char>>,
    pub stop_sequence: Option<JsonView>,
    pub blocks: Seq<AccumulatedBlockView>,
    pub current_block: Option<AccumulatedBlockView>,
    pub input_tokens: u64,
    pub output_tokens: u64,
    pub output_tokens_details: Option<AnthropicOutputTokensDetailsView>,
    pub error: Option<AnthropicErrorBodyView>,
}

impl DeepView for MessageAccumulator {
    type V = MessageAccumulatorView;

    open spec fn deep_view(&self) -> MessageAccumulatorView {
        MessageAccumulatorView {
            message_id: self.message_id.deep_view(),
            model: self.model@,
            stop_reason: self.stop_reason.deep_view(),
            stop_sequence: self.stop_sequence.deep_view(),
            blocks: self.blocks.deep_view(),
            current_block: self.current_block.deep_view(),
            input_tokens: self.input_tokens,
            output_tokens: self.output_tokens,
            output_tokens_details: self.output_tokens_details.deep_view(),
            error: self.error.deep_view(),
        }
    }
}

/// A block that has just been opened.
pub open spec fn opened_block(start: AnthropicContentBlockStartView) -> AccumulatedBlockView {
    match start {
        AnthropicContentBlockStartView::Text { text } => AccumulatedBlockView::Text {
            text: Seq::empty(),
        },
        AnthropicContentBlockStartView::Thinking { thinking } => AccumulatedBlockView::Thinking {
            text: Seq::empty(),
            signature: None,
        },
        AnthropicContentBlockStartView::ToolUse { id, name, input } => {
            AccumulatedBlockView::ToolUse { id, name, input: Seq::empty() }
        },
        AnthropicContentBlockStartView::ServerToolUse { id, name } => {
            AccumulatedBlockView::ServerToolUse { id, name, input: Seq::empty() }
        },
        AnthropicContentBlockStartView::WebSearchToolResult { tool_use_id, content } => {
            AccumulatedBlockView::WebSearchToolResult { tool_use_id, content }
        },
    }
}

/// A block after a delta. A delta of another kind changes nothing.
pub open spec fn grown_block(block: AccumulatedBlockView, delta: AnthropicDeltaView) -> AccumulatedBlockView {
    match (block, delta) {
        (AccumulatedBlockView::Text { text }, AnthropicDeltaView::TextDelta { text: added }) => {
            AccumulatedBlockView::Text { text: text + added }
        },
        (
            AccumulatedBlockView::Thinking { text, signature },
            AnthropicDeltaView::ThinkingDelta { thinking },
        ) => AccumulatedBlockView::Thinking { text: text + thinking, signature },
        (
            AccumulatedBlockView::Thinking { text, signature },
            AnthropicDeltaView::SignatureDelta { signature: given },
        ) => AccumulatedBlockView::Thinking { text, signature: Some(given) },
        (
            AccumulatedBlockView::ToolUse { id, name, input },
            AnthropicDeltaView::InputJsonDelta { partial_json },
        ) => AccumulatedBlockView::ToolUse { id, name, input: input + partial_json },
        (
            AccumulatedBlockView::ServerToolUse { id, name, input },
            AnthropicDeltaView::InputJsonDelta { partial_json },
        ) => AccumulatedBlockView::ServerToolUse { id, name, input: input + partial_json },
        _ => block,
    }
}

impl MessageAccumulatorView {
    /// A message of which nothing is known but the model.
    pub open spec fn empty(model: Seq<char>) -> Self {
        MessageAccumulatorView {
            message_id: None,
            model,
            stop_reason: None,
            stop_sequence: None,
            blocks: Seq::empty(),
            current_block: None,
            input_tokens: 0,
            output_tokens: 0,
            output_tokens_details: None,
            error: None,
        }
    }

    /// The message with the usage that a terminal event reports, where it reports one.
    pub open spec fn with_usage(self, usage: Option<AnthropicMessageUsageView>) -> Self {
        match usage {
            Some(usage) => MessageAccumulatorView {
                input_tokens: usage.input_tokens,
                output_tokens: usage.output_tokens,
                output_tokens_details: usage.output_tokens_details,
                ..self
            },
            None => self,
        }
    }

    /// The message after one event of its stream.
    pub open spec fn after(self, event: AnthropicStreamEventView) -> Self {
        match event {
            AnthropicStreamEventView::MessageStart { message } => MessageAccumulatorView {
                message_id: Some(message.id),
                input_tokens: match message.usage.input_tokens {
                    Some(tokens) => tokens,
                    None => 0,
                },
                output_tokens: match message.usage.output_tokens {
                    Some(tokens) => tokens,
                    None => 0,
                },
                ..self
            },
            AnthropicStreamEventView::ContentBlockStart { index, content_block } => {
                MessageAccumulatorView { current_block: Some(opened_block(content_block)), ..self }
            },
            AnthropicStreamEventView::ContentBlockDelta { index, delta } => MessageAccumulatorView {
                current_block: match self.current_block {
                    Some(block) => Some(grown_block(block, delta)),
                    None => None,
                },
                ..self
            },
            AnthropicStreamEventView::ContentBlockStop { index } => match self.current_block {
                Some(block) => MessageAccumulatorView {
                    blocks: self.blocks.push(block),
                    current_block: None,
                    ..self
                },
                None => self,
            },
            AnthropicStreamEventView::MessageDelta { delta, usage } => MessageAccumulatorView {
                stop_reason: if delta.stop_reason is Some {
                    delta.stop_reason
                } else {
                    self.stop_reason
                },
                stop_sequence: if delta.stop_sequence is Some {
                    delta.stop_sequence
                } else {
                    self.stop_sequence
                },
                output_tokens: match usage.output_tokens {
                    Some(tokens) => tokens,
                    None => self.output_tokens,
                },
                output_tokens_details: if usage.output_tokens_details is Some {
                    usage.output_tokens_details
                } else {
                    self.output_tokens_details
                },
                ..self
            },
            AnthropicStreamEventView::Error { error } => MessageAccumulatorView {
                error: Some(error),
                ..self
            },
            AnthropicStreamEventView::Ping => self,
            AnthropicStreamEventView::MessageStop => self,
        }
    }

    /// The message after the events of its stream.
    pub open spec fn after_all(self, events: Seq<AnthropicStreamEventView>) -> Self
        decreases events.len(),
    {
        if events.len() == 0 {
            self
        } else {
            self.after_all(events.drop_last()).after(events.last())
        }
    }

    /// The whole message, or the error that its stream reported.
    pub open spec fn response(self, fresh: Seq<char>) -> Result<
        AnthropicMessageResponseView,
        AnthropicErrorBodyView,
    > {
        match self.error {
            Some(error) => Err(error),
            None => Ok(
                AnthropicMessageResponseView {
                    id: match self.message_id {
                        Some(id) => id,
                        None => prefixed_id("msg"@, fresh),
                    },
                    kind: "message"@,
                    role: "assistant"@,
                    content: self.blocks.map_values(|block: AccumulatedBlockView| whole_block(block)),
                    model: self.model,
                    stop_reason: match self.stop_reason {
                        Some(reason) => reason,
                        None => "end_turn"@,
                    },
                    stop_sequence: self.stop_sequence,
                    usage: AnthropicMessageUsageView {
                        input_tokens: self.input_tokens,
                        output_tokens: self.output_tokens,
                        output_tokens_details: self.output_tokens_details,
                    },
                },
            ),
        }
    }
}

/// The input of a tool, with what was read from its text: the empty object where it is no JSON.
pub open spec fn read_input(parsed: Result<JsonView, Seq<char>>) -> JsonView {
    match parsed {
        Ok(value) => value,
        Err(_) => JsonView::Object(Map::empty()),
    }
}

/// The input that has been streamed for a tool.
pub open spec fn whole_input(text: Seq<char>) -> JsonView {
    read_input(json_parsed(text))
}

/// A block of a whole message.
pub open spec fn whole_block(block: AccumulatedBlockView) -> AnthropicResponseContentBlockView {
    match block {
        AccumulatedBlockView::Text { text } => AnthropicResponseContentBlockView::Text { text },
        AccumulatedBlockView::Thinking { text, signature } => {
            AnthropicResponseContentBlockView::Thinking { thinking: text, signature }
        },
        AccumulatedBlockView::ToolUse { id, name, input } => {
            AnthropicResponseContentBlockView::ToolUse { id, name, input: whole_input(input) }
        },
        AccumulatedBlockView::ServerToolUse { id, name, input } => {
            AnthropicResponseContentBlockView::ServerToolUse { id, name, input: whole_input(input) }
        },
        AccumulatedBlockView::WebSearchToolResult { tool_use_id, content } => {
            AnthropicResponseContentBlockView::WebSearchToolResult { tool_use_id, content }
        },
    }
}

fn open_block(start: AnthropicContentBlockStart) -> (result: AccumulatedBlock)
    ensures
        result.deep_view() == opened_block(start.deep_view()),
{
    match start {
        AnthropicContentBlockStart::Text { .. } => AccumulatedBlock::Text { text: String::new() },
        AnthropicContentBlockStart::Thinking { .. } => AccumulatedBlock::Thinking {
            text: String::new(),
            signature: None,
        },
        AnthropicContentBlockStart::ToolUse { id, name, input: _ } => AccumulatedBlock::ToolUse {
            id,
            name,
            input: String::new(),
        },
        AnthropicContentBlockStart::ServerToolUse { id, name } => AccumulatedBlock::ServerToolUse {
            id,
            name,
            input: String::new(),
        },
        AnthropicContentBlockStart::WebSearchToolResult { tool_use_id, content } => {
            AccumulatedBlock::WebSearchToolResult { tool_use_id, content }
        },
    }
}

fn grow_block(block: AccumulatedBlock, delta: AnthropicDelta) -> (result: AccumulatedBlock)
    ensures
        result.deep_view() == grown_block(block.deep_view(), delta.deep_view()),
{
    match (block, delta) {
        (AccumulatedBlock::Text { mut text }, AnthropicDelta::TextDelta { text: added }) => {
            text.push_str(added.as_str());
            AccumulatedBlock::Text { text }
        },
        (
            AccumulatedBlock::Thinking { mut text, signature },
            AnthropicDelta::ThinkingDelta { thinking },
        ) => {
            text.push_str(thinking.as_str());
            AccumulatedBlock::Thinking { text, signature }
        },
        (
            AccumulatedBlock::Thinking { text, signature: _ },
            AnthropicDelta::SignatureDelta { signature },
        ) => AccumulatedBlock::Thinking { text, signature: Some(signature) },
        (
            AccumulatedBlock::ToolUse { id, name, mut input },
            AnthropicDelta::InputJsonDelta { partial_json },
        ) => {
            input.push_str(partial_json.as_str());
            AccumulatedBlock::ToolUse { id, name, input }
        },
        (
            AccumulatedBlock::ServerToolUse { id, name, mut input },
            AnthropicDelta::InputJsonDelta { partial_json },
        ) => {
            input.push_str(partial_json.as_str());
            AccumulatedBlock::ServerToolUse { id, name, input }
        },
        (block, _) => block,
    }
}

/// The input of a tool, with what was read from its text.
pub fn input_or_empty(parsed: Result<Json, String>) -> (result: Json)
    ensures
        result.deep_view() == read_input(outcome(parsed)),
{
    match parsed {
        Ok(value) => value,
        Err(_) => json_empty_object(),
    }
}

fn parse_input(text: &str) -> (result: Json)
    ensures
        result.deep_view() == whole_input(text@),
{
    input_or_empty(parse_json(text))
}

fn close_block(block: AccumulatedBlock) -> (result: AnthropicResponseContentBlock)
    ensures
        result.deep_view() == whole_block(block.deep_view()),
{
    match block {
        AccumulatedBlock::Text { text } => AnthropicResponseContentBlock::Text { text },
        AccumulatedBlock::Thinking { text, signature } => AnthropicResponseContentBlock::Thinking {
            thinking: text,
            signature,
        },
        AccumulatedBlock::ToolUse { id, name, input } => AnthropicResponseContentBlock::ToolUse {
            id,
            name,
            input: parse_input(input.as_str()),
        },
        AccumulatedBlock::ServerToolUse { id, name, input } => {
            AnthropicResponseContentBlock::ServerToolUse {
                id,
                name,
                input: parse_input(input.as_str()),
            }
        },
        AccumulatedBlock::WebSearchToolResult { tool_use_id, content } => {
            AnthropicResponseContentBlock::WebSearchToolResult { tool_use_id, content }
        },
    }
}

fn count_or_zero(count: Option<u64>) -> (result: u64)
    ensures
        result == (match count {
            Some(count) => count,
            None => 0,
        }),
{
    match count {
        Some(count) => count,
        None => 0,
    }
}

impl MessageAccumulator {
    /// A message of which nothing is known but the model.
    pub fn new(model: String) -> (result: Self)
        ensures
            result.deep_view() == MessageAccumulatorView::empty(model@),
    {
        let blocks: Vec<AccumulatedBlock> = Vec::new();
        assert(blocks.deep_view() =~= Seq::<AccumulatedBlockView>::empty());
        MessageAccumulator {
            message_id: None,
            model,
            stop_reason: None,
            stop_sequence: None,
            blocks,
            current_block: None,
            input_tokens: 0,
            output_tokens: 0,
            output_tokens_details: None,
            error: None,
        }
    }

    /// Takes in the usage that a terminal event reports.
    pub fn set_usage(&mut self, usage: Option<AnthropicMessageUsage>)
        ensures
            final(self).deep_view() == old(self).deep_view().with_usage(usage.deep_view()),
    {
        if let Some(usage) = usage {
            self.input_tokens = usage.input_tokens;
            self.output_tokens = usage.output_tokens;
            self.output_tokens_details = usage.output_tokens_details;
        }
    }

    /// Takes in one event of the stream.
    pub fn process(&mut self, event: AnthropicStreamEvent)
        ensures
            final(self).deep_view() == old(self).deep_view().after(event.deep_view()),
    {
        match event {
            AnthropicStreamEvent::MessageStart { message } => {
                self.message_id = Some(message.id);
                self.input_tokens = count_or_zero(message.usage.input_tokens);
                self.output_tokens = count_or_zero(message.usage.output_tokens);
            },
            AnthropicStreamEvent::ContentBlockStart { index: _, content_block } => {
                self.current_block = Some(open_block(content_block));
            },
            AnthropicStreamEvent::ContentBlockDelta { index: _, delta } => {
                if let Some(block) = self.current_block.take() {
                    self.current_block = Some(grow_block(block, delta));
                }
            },
            AnthropicStreamEvent::ContentBlockStop { index: _ } => {
                if let Some(block) = self.current_block.take() {
                    let ghost before = self.blocks.deep_view();
                    let ghost added = block.deep_view();
                    self.blocks.push(block);
                    assert(self.blocks.deep_view() =~= before.push(added));
                }
            },
            AnthropicStreamEvent::MessageDelta { delta, usage } => {
                if delta.stop_reason.is_some() {
                    self.stop_reason = delta.stop_reason;
                }
                if delta.stop_sequence.is_some() {
                    self.stop_sequence = delta.stop_sequence;
                }
                if let Some(output_tokens) = usage.output_tokens {
                    self.output_tokens = output_tokens;
                }
                if usage.output_tokens_details.is_some() {
                    self.output_tokens_details = usage.output_tokens_details;
                }
            },
            AnthropicStreamEvent::Error { error } => {
                self.error = Some(error);
            },
            AnthropicStreamEvent::Ping => {},
            AnthropicStreamEvent::MessageStop => {},
        }
    }

    /// Takes in the events of a stream in their order.
    pub fn process_all(&mut self, events: Vec<AnthropicStreamEvent>)
        ensures
            final(self).deep_view() == old(self).deep_view().after_all(events.deep_view()),
    {
        let ghost given = events@;
        let ghost models = events.deep_view();
        let ghost start = self.deep_view();
        for event in iter: events
            invariant
                iter.seq() == given,
                models.len() == given.len(),
                forall|k: int| 0 <= k < given.len() ==> #[trigger] models[k] == given[k].deep_view(),
                self.deep_view() == start.after_all(models.take(iter.index() as int)),
        {
            let ghost at = iter.index() as int;
            assert(models[at] == event.deep_view());
            self.process(event);
            assert(models.take(at + 1).drop_last() =~= models.take(at));
        }
        assert(models.take(models.len() as int) =~= models);
    }

    /// The whole message, or the error that its stream reported. A message whose stream never
    /// began takes its id from `fresh`.
    pub fn into_response(self, fresh: &str) -> (result: Result<
        AnthropicMessageResponse,
        AnthropicErrorBody,
    >)
        ensures
            outcome(result) == self.deep_view().response(fresh@),
    {
        let ghost state = self.deep_view();
        if let Some(error) = self.error {
            return Err(error);
        }
        let ghost given = self.blocks@;
        let mut content: Vec<AnthropicResponseContentBlock> = Vec::new();
        for block in iter: self.blocks
            invariant
                iter.seq() == given,
                content@.len() == iter.index(),
                forall|k: int|
                    0 <= k < content@.len() ==> #[trigger] content@[k].deep_view() == whole_block(
                        given[k].deep_view(),
                    ),
        {
            content.push(close_block(block));
        }
        assert(content.deep_view() =~= state.blocks.map_values(
            |block: AccumulatedBlockView| whole_block(block),
        ));
        let id = match self.message_id {
            Some(id) => id,
            None => item_id("msg", fresh),
        };
        let stop_reason = match self.stop_reason {
            Some(reason) => reason,
            None => "end_turn".to_string(),
        };
        Ok(
            AnthropicMessageResponse {
                id,
                kind: "message".to_string(),
                role: "assistant".to_string(),
                content,
                model: self.model,
                stop_reason,
                stop_sequence: self.stop_sequence,
                usage: AnthropicMessageUsage {
                    input_tokens: self.input_tokens,
                    output_tokens: self.output_tokens,
                    output_tokens_details: self.output_tokens_details,
                },
            },
        )
    }
}

} // verus!
