//! The Messages API: requests, streamed events and whole messages.
use vstd::prelude::*;

use crate::duplicate::Duplicate;
use crate::json::{Json, JsonNumber, JsonNumberView, JsonView};

verus! {

/// What a signature begins with that vouches for no provider.
pub const SYNTHETIC_SIGNATURE_PREFIX: &'static str = "llmconduit-synthetic:";

/// A request of the Messages API.
#[derive(Debug, PartialEq)]
pub struct AnthropicRequest {
    pub model: String,
    pub max_tokens: Option<u64>,
    pub system: Option<AnthropicSystemContent>,
    pub messages: Vec<AnthropicMessage>,
    pub tools: Option<Vec<AnthropicTool>>,
    pub tool_choice: Option<AnthropicToolChoice>,
    pub stream: bool,
    pub temperature: Option<JsonNumber>,
    pub top_p: Option<JsonNumber>,
    pub top_k: Option<u64>,
    pub stop_sequences: Option<Vec<String>>,
    pub metadata: Option<Json>,
    pub thinking: Option<AnthropicThinking>,
    pub output_config: Option<Json>,
}

/// The model of [`AnthropicRequest`].
pub struct AnthropicRequestView {
    pub model: Seq<char>,
    pub max_tokens: Option<u64>,
    pub system: Option<AnthropicSystemContentView>,
    pub messages: Seq<AnthropicMessageView>,
    pub tools: Option<Seq<AnthropicToolView>>,
    pub tool_choice: Option<AnthropicToolChoiceView>,
    pub stream: bool,
    pub temperature: Option<JsonNumberView>,
    pub top_p: Option<JsonNumberView>,
    pub top_k: Option<u64>,
    pub stop_sequences: Option<Seq<Seq<char>>>,
    pub metadata: Option<JsonView>,
    pub thinking: Option<AnthropicThinkingView>,
    pub output_config: Option<JsonView>,
}

impl DeepView for AnthropicRequest {
    type V = AnthropicRequestView;

    open spec fn deep_view(&self) -> AnthropicRequestView {
        AnthropicRequestView {
            model: self.model@,
            max_tokens: self.max_tokens.deep_view(),
            system: self.system.deep_view(),
            messages: self.messages.deep_view(),
            tools: self.tools.deep_view(),
            tool_choice: self.tool_choice.deep_view(),
            stream: self.stream,
            temperature: self.temperature.deep_view(),
            top_p: self.top_p.deep_view(),
            top_k: self.top_k.deep_view(),
            stop_sequences: self.stop_sequences.deep_view(),
            metadata: self.metadata.deep_view(),
            thinking: self.thinking.deep_view(),
            output_config: self.output_config.deep_view(),
        }
    }
}

/// The system prompt of a request.
#[derive(Debug, PartialEq)]
pub enum AnthropicSystemContent {
    Text(String),
    Blocks(Vec<AnthropicTextBlock>),
}

/// The model of [`AnthropicSystemContent`].
pub enum AnthropicSystemContentView {
    Text(Seq<char>),
    Blocks(Seq<AnthropicTextBlockView>),
}

impl DeepView for AnthropicSystemContent {
    type V = AnthropicSystemContentView;

    open spec fn deep_view(&self) -> AnthropicSystemContentView {
        match self {
            AnthropicSystemContent::Text(inner) => AnthropicSystemContentView::Text(inner@),
            AnthropicSystemContent::Blocks(inner) => AnthropicSystemContentView::Blocks(inner.deep_view()),
        }
    }
}

impl Duplicate for AnthropicSystemContent {
    fn duplicate(&self) -> (copy: Self) {
        match self {
            AnthropicSystemContent::Text(inner) => AnthropicSystemContent::Text(inner.clone()),
            AnthropicSystemContent::Blocks(inner) => AnthropicSystemContent::Blocks(inner.duplicate()),
        }
    }
}

/// A block of a system prompt.
#[derive(Debug, PartialEq)]
pub enum AnthropicTextBlock {
    Text { text: String },
}

/// The model of [`AnthropicTextBlock`].
pub enum AnthropicTextBlockView {
    Text { text: Seq<char> },
}

impl DeepView for AnthropicTextBlock {
    type V = AnthropicTextBlockView;

    open spec fn deep_view(&self) -> AnthropicTextBlockView {
        match self {
            AnthropicTextBlock::Text { text } => AnthropicTextBlockView::Text {
                text: text@,
            },
        }
    }
}

impl Duplicate for AnthropicTextBlock {
    fn duplicate(&self) -> (copy: Self) {
        match self {
            AnthropicTextBlock::Text { text } => AnthropicTextBlock::Text {
                text: text.clone(),
            },
        }
    }
}

/// A message of a conversation.
#[derive(Debug, PartialEq)]
pub struct AnthropicMessage {
    pub role: String,
    pub content: AnthropicContent,
}

/// The model of [`AnthropicMessage`].
pub struct AnthropicMessageView {
    pub role: Seq<char>,
    pub content: AnthropicContentView,
}

impl DeepView for AnthropicMessage {
    type V = AnthropicMessageView;

    open spec fn deep_view(&self) -> AnthropicMessageView {
        AnthropicMessageView {
            role: self.role@,
            content: self.content.deep_view(),
        }
    }
}

/// Where an image comes from.
#[derive(Debug, PartialEq)]
pub struct AnthropicImageSource {
    pub kind: String,
    pub media_type: Option<String>,
    pub data: Option<String>,
    pub url: Option<String>,
    pub file_id: Option<String>,
}

/// The model of [`AnthropicImageSource`].
pub struct AnthropicImageSourceView {
    pub kind: Seq<char>,
    pub media_type: Option<Seq<char>>,
    pub data: Option<Seq<char>>,
    pub url: Option<Seq<char>>,
    pub file_id: Option<Seq<char>>,
}

impl DeepView for AnthropicImageSource {
    type V = AnthropicImageSourceView;

    open spec fn deep_view(&self) -> AnthropicImageSourceView {
        AnthropicImageSourceView {
            kind: self.kind@,
            media_type: self.media_type.deep_view(),
            data: self.data.deep_view(),
            url: self.url.deep_view(),
            file_id: self.file_id.deep_view(),
        }
    }
}

impl Duplicate for AnthropicImageSource {
    fn duplicate(&self) -> (copy: Self) {
        AnthropicImageSource {
            kind: self.kind.clone(),
            media_type: self.media_type.duplicate(),
            data: self.data.duplicate(),
            url: self.url.duplicate(),
            file_id: self.file_id.duplicate(),
        }
    }
}

/// A tool that a request offers.
#[derive(Debug, PartialEq)]
pub struct AnthropicTool {
    pub name: String,
    pub description: Option<String>,
    pub input_schema: Json,
}

/// The model of [`AnthropicTool`].
pub struct AnthropicToolView {
    pub name: Seq<char>,
    pub description: Option<Seq<char>>,
    pub input_schema: JsonView,
}

impl DeepView for AnthropicTool {
    type V = AnthropicToolView;

    open spec fn deep_view(&self) -> AnthropicToolView {
        AnthropicToolView {
            name: self.name@,
            description: self.description.deep_view(),
            input_schema: self.input_schema.deep_view(),
        }
    }
}

impl Duplicate for AnthropicTool {
    fn duplicate(&self) -> (copy: Self) {
        AnthropicTool {
            name: self.name.clone(),
            description: self.description.duplicate(),
            input_schema: self.input_schema.duplicate(),
        }
    }
}

/// Which tool the model has to call.
#[derive(Debug, PartialEq)]
pub enum AnthropicToolChoice {
    Auto,
    Any,
    NoTool,
    Tool { name: String },
}

/// The model of [`AnthropicToolChoice`].
pub enum AnthropicToolChoiceView {
    Auto,
    Any,
    NoTool,
    Tool { name: Seq<char> },
}

impl DeepView for AnthropicToolChoice {
    type V = AnthropicToolChoiceView;

    open spec fn deep_view(&self) -> AnthropicToolChoiceView {
        match self {
            AnthropicToolChoice::Auto => AnthropicToolChoiceView::Auto,
            AnthropicToolChoice::Any => AnthropicToolChoiceView::Any,
            AnthropicToolChoice::NoTool => AnthropicToolChoiceView::NoTool,
            AnthropicToolChoice::Tool { name } => AnthropicToolChoiceView::Tool {
                name: name@,
            },
        }
    }
}

impl Duplicate for AnthropicToolChoice {
    fn duplicate(&self) -> (copy: Self) {
        match self {
            AnthropicToolChoice::Auto => AnthropicToolChoice::Auto,
            AnthropicToolChoice::Any => AnthropicToolChoice::Any,
            AnthropicToolChoice::NoTool => AnthropicToolChoice::NoTool,
            AnthropicToolChoice::Tool { name } => AnthropicToolChoice::Tool {
                name: name.clone(),
            },
        }
    }
}

/// Whether and how much the model thinks.
#[derive(Debug, PartialEq)]
pub enum AnthropicThinking {
    Disabled,
    Adaptive { budget_tokens: Option<u64> },
    Enabled { budget_tokens: Option<u64> },
}

/// The model of [`AnthropicThinking`].
pub enum AnthropicThinkingView {
    Disabled,
    Adaptive { budget_tokens: Option<u64> },
    Enabled { budget_tokens: Option<u64> },
}

impl DeepView for AnthropicThinking {
    type V = AnthropicThinkingView;

    open spec fn deep_view(&self) -> AnthropicThinkingView {
        match self {
            AnthropicThinking::Disabled => AnthropicThinkingView::Disabled,
            AnthropicThinking::Adaptive { budget_tokens } => AnthropicThinkingView::Adaptive {
                budget_tokens: budget_tokens.deep_view(),
            },
            AnthropicThinking::Enabled { budget_tokens } => AnthropicThinkingView::Enabled {
                budget_tokens: budget_tokens.deep_view(),
            },
        }
    }
}

impl Duplicate for AnthropicThinking {
    fn duplicate(&self) -> (copy: Self) {
        match self {
            AnthropicThinking::Disabled => AnthropicThinking::Disabled,
            AnthropicThinking::Adaptive { budget_tokens } => AnthropicThinking::Adaptive {
                budget_tokens: budget_tokens.duplicate(),
            },
            AnthropicThinking::Enabled { budget_tokens } => AnthropicThinking::Enabled {
                budget_tokens: budget_tokens.duplicate(),
            },
        }
    }
}

/// An event of a streamed message.
#[allow(inconsistent_fields)]
#[derive(Debug, PartialEq)]
pub enum AnthropicStreamEvent {
    Ping,
    MessageStart { message: AnthropicMessageStart },
    ContentBlockStart { index: usize, content_block: AnthropicContentBlockStart },
    ContentBlockDelta { index: usize, delta: AnthropicDelta },
    ContentBlockStop { index: usize },
    MessageDelta { delta: AnthropicMessageDeltaBody, usage: AnthropicUsage },
    MessageStop,
    Error { error: AnthropicErrorBody },
}

/// The model of [`AnthropicStreamEvent`].
#[allow(inconsistent_fields)]
pub enum AnthropicStreamEventView {
    Ping,
    MessageStart { message: AnthropicMessageStartView },
    ContentBlockStart { index: usize, content_block: AnthropicContentBlockStartView },
    ContentBlockDelta { index: usize, delta: AnthropicDeltaView },
    ContentBlockStop { index: usize },
    MessageDelta { delta: AnthropicMessageDeltaBodyView, usage: AnthropicUsageView },
    MessageStop,
    Error { error: AnthropicErrorBodyView },
}

impl DeepView for AnthropicStreamEvent {
    type V = AnthropicStreamEventView;

    open spec fn deep_view(&self) -> AnthropicStreamEventView {
        match self {
            AnthropicStreamEvent::Ping => AnthropicStreamEventView::Ping,
            AnthropicStreamEvent::MessageStart { message } => AnthropicStreamEventView::MessageStart {
                message: message.deep_view(),
            },
            AnthropicStreamEvent::ContentBlockStart { index, content_block } => AnthropicStreamEventView::ContentBlockStart {
                index: *index,
                content_block: content_block.deep_view(),
            },
            AnthropicStreamEvent::ContentBlockDelta { index, delta } => AnthropicStreamEventView::ContentBlockDelta {
                index: *index,
                delta: delta.deep_view(),
            },
            AnthropicStreamEvent::ContentBlockStop { index } => AnthropicStreamEventView::ContentBlockStop {
                index: *index,
            },
            AnthropicStreamEvent::MessageDelta { delta, usage } => AnthropicStreamEventView::MessageDelta {
                delta: delta.deep_view(),
                usage: usage.deep_view(),
            },
            AnthropicStreamEvent::MessageStop => AnthropicStreamEventView::MessageStop,
            AnthropicStreamEvent::Error { error } => AnthropicStreamEventView::Error {
                error: error.deep_view(),
            },
        }
    }
}

impl Duplicate for AnthropicStreamEvent {
    fn duplicate(&self) -> (copy: Self) {
        match self {
            AnthropicStreamEvent::Ping => AnthropicStreamEvent::Ping,
            AnthropicStreamEvent::MessageStart { message } => AnthropicStreamEvent::MessageStart {
                message: message.duplicate(),
            },
            AnthropicStreamEvent::ContentBlockStart { index, content_block } => AnthropicStreamEvent::ContentBlockStart {
                index: *index,
                content_block: content_block.duplicate(),
            },
            AnthropicStreamEvent::ContentBlockDelta { index, delta } => AnthropicStreamEvent::ContentBlockDelta {
                index: *index,
                delta: delta.duplicate(),
            },
            AnthropicStreamEvent::ContentBlockStop { index } => AnthropicStreamEvent::ContentBlockStop {
                index: *index,
            },
            AnthropicStreamEvent::MessageDelta { delta, usage } => AnthropicStreamEvent::MessageDelta {
                delta: delta.duplicate(),
                usage: usage.duplicate(),
            },
            AnthropicStreamEvent::MessageStop => AnthropicStreamEvent::MessageStop,
            AnthropicStreamEvent::Error { error } => AnthropicStreamEvent::Error {
                error: error.duplicate(),
            },
        }
    }
}

/// The message that a stream begins with.
#[derive(Debug, PartialEq)]
pub struct AnthropicMessageStart {
    pub id: String,
    pub kind: String,
    pub role: String,
    pub content: Vec<Json>,
    pub model: String,
    pub stop_reason: Option<String>,
    pub stop_sequence: Option<Json>,
    pub usage: AnthropicUsage,
}

/// The model of [`AnthropicMessageStart`].
pub struct AnthropicMessageStartView {
    pub id: Seq<char>,
    pub kind: Seq<char>,
    pub role: Seq<char>,
    pub content: Seq<JsonView>,
    pub model: Seq<char>,
    pub stop_reason: Option<Seq<char>>,
    pub stop_sequence: Option<JsonView>,
    pub usage: AnthropicUsageView,
}

impl DeepView for AnthropicMessageStart {
    type V = AnthropicMessageStartView;

    open spec fn deep_view(&self) -> AnthropicMessageStartView {
        AnthropicMessageStartView {
            id: self.id@,
            kind: self.kind@,
            role: self.role@,
            content: self.content.deep_view(),
            model: self.model@,
            stop_reason: self.stop_reason.deep_view(),
            stop_sequence: self.stop_sequence.deep_view(),
            usage: self.usage.deep_view(),
        }
    }
}

impl Duplicate for AnthropicMessageStart {
    fn duplicate(&self) -> (copy: Self) {
        AnthropicMessageStart {
            id: self.id.clone(),
            kind: self.kind.clone(),
            role: self.role.clone(),
            content: self.content.duplicate(),
            model: self.model.clone(),
            stop_reason: self.stop_reason.duplicate(),
            stop_sequence: self.stop_sequence.duplicate(),
            usage: self.usage.duplicate(),
        }
    }
}

/// The block that a stream opens.
#[derive(Debug, PartialEq)]
pub enum AnthropicContentBlockStart {
    Text { text: String },
    Thinking { thinking: String },
    ToolUse {
        id: String,
        name: String,
        input: Json,
    },
    ServerToolUse { id: String, name: String },
    WebSearchToolResult { tool_use_id: String, content: Json },
}

/// The model of [`AnthropicContentBlockStart`].
pub enum AnthropicContentBlockStartView {
    Text { text: Seq<char> },
    Thinking { thinking: Seq<char> },
    ToolUse {
        id: Seq<char>,
        name: Seq<char>,
        input: JsonView,
    },
    ServerToolUse { id: Seq<char>, name: Seq<char> },
    WebSearchToolResult { tool_use_id: Seq<char>, content: JsonView },
}

impl DeepView for AnthropicContentBlockStart {
    type V = AnthropicContentBlockStartView;

    open spec fn deep_view(&self) -> AnthropicContentBlockStartView {
        match self {
            AnthropicContentBlockStart::Text { text } => AnthropicContentBlockStartView::Text {
                text: text@,
            },
            AnthropicContentBlockStart::Thinking { thinking } => AnthropicContentBlockStartView::Thinking {
                thinking: thinking@,
            },
            AnthropicContentBlockStart::ToolUse { id, name, input } => AnthropicContentBlockStartView::ToolUse {
                id: id@,
                name: name@,
                input: input.deep_view(),
            },
            AnthropicContentBlockStart::ServerToolUse { id, name } => AnthropicContentBlockStartView::ServerToolUse {
                id: id@,
                name: name@,
            },
            AnthropicContentBlockStart::WebSearchToolResult { tool_use_id, content } => AnthropicContentBlockStartView::WebSearchToolResult {
                tool_use_id: tool_use_id@,
                content: content.deep_view(),
            },
        }
    }
}

impl Duplicate for AnthropicContentBlockStart {
    fn duplicate(&self) -> (copy: Self) {
        match self {
            AnthropicContentBlockStart::Text { text } => AnthropicContentBlockStart::Text {
                text: text.clone(),
            },
            AnthropicContentBlockStart::Thinking { thinking } => AnthropicContentBlockStart::Thinking {
                thinking: thinking.clone(),
            },
            AnthropicContentBlockStart::ToolUse { id, name, input } => AnthropicContentBlockStart::ToolUse {
                id: id.clone(),
                name: name.clone(),
                input: input.duplicate(),
            },
            AnthropicContentBlockStart::ServerToolUse { id, name } => AnthropicContentBlockStart::ServerToolUse {
                id: id.clone(),
                name: name.clone(),
            },
            AnthropicContentBlockStart::WebSearchToolResult { tool_use_id, content } => AnthropicContentBlockStart::WebSearchToolResult {
                tool_use_id: tool_use_id.clone(),
                content: content.duplicate(),
            },
        }
    }
}

/// What a stream adds to the open block.
#[derive(Debug, PartialEq)]
pub enum AnthropicDelta {
    TextDelta { text: String },
    ThinkingDelta { thinking: String },
    SignatureDelta { signature: String },
    InputJsonDelta { partial_json: String },
}

/// The model of [`AnthropicDelta`].
pub enum AnthropicDeltaView {
    TextDelta { text: Seq<char> },
    ThinkingDelta { thinking: Seq<char> },
    SignatureDelta { signature: Seq<char> },
    InputJsonDelta { partial_json: Seq<char> },
}

impl DeepView for AnthropicDelta {
    type V = AnthropicDeltaView;

    open spec fn deep_view(&self) -> AnthropicDeltaView {
        match self {
            AnthropicDelta::TextDelta { text } => AnthropicDeltaView::TextDelta {
                text: text@,
            },
            AnthropicDelta::ThinkingDelta { thinking } => AnthropicDeltaView::ThinkingDelta {
                thinking: thinking@,
            },
            AnthropicDelta::SignatureDelta { signature } => AnthropicDeltaView::SignatureDelta {
                signature: signature@,
            },
            AnthropicDelta::InputJsonDelta { partial_json } => AnthropicDeltaView::InputJsonDelta {
                partial_json: partial_json@,
            },
        }
    }
}

impl Duplicate for AnthropicDelta {
    fn duplicate(&self) -> (copy: Self) {
        match self {
            AnthropicDelta::TextDelta { text } => AnthropicDelta::TextDelta {
                text: text.clone(),
            },
            AnthropicDelta::ThinkingDelta { thinking } => AnthropicDelta::ThinkingDelta {
                thinking: thinking.clone(),
            },
            AnthropicDelta::SignatureDelta { signature } => AnthropicDelta::SignatureDelta {
                signature: signature.clone(),
            },
            AnthropicDelta::InputJsonDelta { partial_json } => AnthropicDelta::InputJsonDelta {
                partial_json: partial_json.clone(),
            },
        }
    }
}

/// How a message ended.
#[derive(Debug, PartialEq)]
pub struct AnthropicMessageDeltaBody {
    pub stop_reason: Option<String>,
    pub stop_sequence: Option<Json>,
}

/// The model of [`AnthropicMessageDeltaBody`].
pub struct AnthropicMessageDeltaBodyView {
    pub stop_reason: Option<Seq<char>>,
    pub stop_sequence: Option<JsonView>,
}

impl DeepView for AnthropicMessageDeltaBody {
    type V = AnthropicMessageDeltaBodyView;

    open spec fn deep_view(&self) -> AnthropicMessageDeltaBodyView {
        AnthropicMessageDeltaBodyView {
            stop_reason: self.stop_reason.deep_view(),
            stop_sequence: self.stop_sequence.deep_view(),
        }
    }
}

impl Duplicate for AnthropicMessageDeltaBody {
    fn duplicate(&self) -> (copy: Self) {
        AnthropicMessageDeltaBody {
            stop_reason: self.stop_reason.duplicate(),
            stop_sequence: self.stop_sequence.duplicate(),
        }
    }
}

/// The tokens that an event reports.
#[derive(Debug, PartialEq)]
pub struct AnthropicUsage {
    pub input_tokens: Option<u64>,
    pub output_tokens: Option<u64>,
    pub output_tokens_details: Option<AnthropicOutputTokensDetails>,
    pub server_tool_use: Option<AnthropicServerToolUse>,
}

/// The model of [`AnthropicUsage`].
pub struct AnthropicUsageView {
    pub input_tokens: Option<u64>,
    pub output_tokens: Option<u64>,
    pub output_tokens_details: Option<AnthropicOutputTokensDetailsView>,
    pub server_tool_use: Option<AnthropicServerToolUseView>,
}

impl DeepView for AnthropicUsage {
    type V = AnthropicUsageView;

    open spec fn deep_view(&self) -> AnthropicUsageView {
        AnthropicUsageView {
            input_tokens: self.input_tokens.deep_view(),
            output_tokens: self.output_tokens.deep_view(),
            output_tokens_details: self.output_tokens_details.deep_view(),
            server_tool_use: self.server_tool_use.deep_view(),
        }
    }
}

impl Duplicate for AnthropicUsage {
    fn duplicate(&self) -> (copy: Self) {
        AnthropicUsage {
            input_tokens: self.input_tokens.duplicate(),
            output_tokens: self.output_tokens.duplicate(),
            output_tokens_details: self.output_tokens_details.duplicate(),
            server_tool_use: self.server_tool_use.duplicate(),
        }
    }
}

/// How many of the output tokens were spent on thinking.
#[derive(Debug, PartialEq)]
pub struct AnthropicOutputTokensDetails {
    pub thinking_tokens: u64,
}

/// The model of [`AnthropicOutputTokensDetails`].
pub struct AnthropicOutputTokensDetailsView {
    pub thinking_tokens: u64,
}

impl DeepView for AnthropicOutputTokensDetails {
    type V = AnthropicOutputTokensDetailsView;

    open spec fn deep_view(&self) -> AnthropicOutputTokensDetailsView {
        AnthropicOutputTokensDetailsView {
            thinking_tokens: self.thinking_tokens,
        }
    }
}

impl Duplicate for AnthropicOutputTokensDetails {
    fn duplicate(&self) -> (copy: Self) {
        AnthropicOutputTokensDetails {
            thinking_tokens: self.thinking_tokens,
        }
    }
}

/// How often a server tool ran.
#[derive(Debug, PartialEq)]
pub struct AnthropicServerToolUse {
    pub web_search_requests: u64,
}

/// The model of [`AnthropicServerToolUse`].
pub struct AnthropicServerToolUseView {
    pub web_search_requests: u64,
}

impl DeepView for AnthropicServerToolUse {
    type V = AnthropicServerToolUseView;

    open spec fn deep_view(&self) -> AnthropicServerToolUseView {
        AnthropicServerToolUseView {
            web_search_requests: self.web_search_requests,
        }
    }
}

impl Duplicate for AnthropicServerToolUse {
    fn duplicate(&self) -> (copy: Self) {
        AnthropicServerToolUse {
            web_search_requests: self.web_search_requests,
        }
    }
}

/// An error as the client sees it.
#[derive(Debug, PartialEq)]
pub struct AnthropicErrorBody {
    pub kind: String,
    pub message: String,
}

/// The model of [`AnthropicErrorBody`].
pub struct AnthropicErrorBodyView {
    pub kind: Seq<char>,
    pub message: Seq<char>,
}

impl DeepView for AnthropicErrorBody {
    type V = AnthropicErrorBodyView;

    open spec fn deep_view(&self) -> AnthropicErrorBodyView {
        AnthropicErrorBodyView {
            kind: self.kind@,
            message: self.message@,
        }
    }
}

impl Duplicate for AnthropicErrorBody {
    fn duplicate(&self) -> (copy: Self) {
        AnthropicErrorBody {
            kind: self.kind.clone(),
            message: self.message.clone(),
        }
    }
}

/// A whole message.
#[derive(Debug, PartialEq)]
pub struct AnthropicMessageResponse {
    pub id: String,
    pub kind: String,
    pub role: String,
    pub content: Vec<AnthropicResponseContentBlock>,
    pub model: String,
    pub stop_reason: String,
    pub stop_sequence: Option<Json>,
    pub usage: AnthropicMessageUsage,
}

/// The model of [`AnthropicMessageResponse`].
pub struct AnthropicMessageResponseView {
    pub id: Seq<char>,
    pub kind: Seq<char>,
    pub role: Seq<char>,
    pub content: Seq<AnthropicResponseContentBlockView>,
    pub model: Seq<char>,
    pub stop_reason: Seq<char>,
    pub stop_sequence: Option<JsonView>,
    pub usage: AnthropicMessageUsageView,
}

impl DeepView for AnthropicMessageResponse {
    type V = AnthropicMessageResponseView;

    open spec fn deep_view(&self) -> AnthropicMessageResponseView {
        AnthropicMessageResponseView {
            id: self.id@,
            kind: self.kind@,
            role: self.role@,
            content: self.content.deep_view(),
            model: self.model@,
            stop_reason: self.stop_reason@,
            stop_sequence: self.stop_sequence.deep_view(),
            usage: self.usage.deep_view(),
        }
    }
}

impl Duplicate for AnthropicMessageResponse {
    fn duplicate(&self) -> (copy: Self) {
        AnthropicMessageResponse {
            id: self.id.clone(),
            kind: self.kind.clone(),
            role: self.role.clone(),
            content: self.content.duplicate(),
            model: self.model.clone(),
            stop_reason: self.stop_reason.clone(),
            stop_sequence: self.stop_sequence.duplicate(),
            usage: self.usage.duplicate(),
        }
    }
}

/// The tokens of a whole message.
#[derive(Debug, PartialEq)]
pub struct AnthropicMessageUsage {
    pub input_tokens: u64,
    pub output_tokens: u64,
    pub output_tokens_details: Option<AnthropicOutputTokensDetails>,
}

/// The model of [`AnthropicMessageUsage`].
pub struct AnthropicMessageUsageView {
    pub input_tokens: u64,
    pub output_tokens: u64,
    pub output_tokens_details: Option<AnthropicOutputTokensDetailsView>,
}

impl DeepView for AnthropicMessageUsage {
    type V = AnthropicMessageUsageView;

    open spec fn deep_view(&self) -> AnthropicMessageUsageView {
        AnthropicMessageUsageView {
            input_tokens: self.input_tokens,
            output_tokens: self.output_tokens,
            output_tokens_details: self.output_tokens_details.deep_view(),
        }
    }
}

impl Duplicate for AnthropicMessageUsage {
    fn duplicate(&self) -> (copy: Self) {
        AnthropicMessageUsage {
            input_tokens: self.input_tokens,
            output_tokens: self.output_tokens,
            output_tokens_details: self.output_tokens_details.duplicate(),
        }
    }
}

/// A block of a whole message.
#[derive(Debug, PartialEq)]
pub enum AnthropicResponseContentBlock {
    Text { text: String },
    Thinking { thinking: String, signature: Option<String> },
    ToolUse {
        id: String,
        name: String,
        input: Json,
    },
    ServerToolUse {
        id: String,
        name: String,
        input: Json,
    },
    WebSearchToolResult { tool_use_id: String, content: Json },
}

/// The model of [`AnthropicResponseContentBlock`].
pub enum AnthropicResponseContentBlockView {
    Text { text: Seq<char> },
    Thinking { thinking: Seq<char>, signature: Option<Seq<char>> },
    ToolUse {
        id: Seq<char>,
        name: Seq<char>,
        input: JsonView,
    },
    ServerToolUse {
        id: Seq<char>,
        name: Seq<char>,
        input: JsonView,
    },
    WebSearchToolResult { tool_use_id: Seq<char>, content: JsonView },
}

impl DeepView for AnthropicResponseContentBlock {
    type V = AnthropicResponseContentBlockView;

    open spec fn deep_view(&self) -> AnthropicResponseContentBlockView {
        match self {
            AnthropicResponseContentBlock::Text { text } => AnthropicResponseContentBlockView::Text {
                text: text@,
            },
            AnthropicResponseContentBlock::Thinking { thinking, signature } => AnthropicResponseContentBlockView::Thinking {
                thinking: thinking@,
                signature: signature.deep_view(),
            },
            AnthropicResponseContentBlock::ToolUse { id, name, input } => AnthropicResponseContentBlockView::ToolUse {
                id: id@,
                name: name@,
                input: input.deep_view(),
            },
            AnthropicResponseContentBlock::ServerToolUse { id, name, input } => AnthropicResponseContentBlockView::ServerToolUse {
                id: id@,
                name: name@,
                input: input.deep_view(),
            },
            AnthropicResponseContentBlock::WebSearchToolResult { tool_use_id, content } => AnthropicResponseContentBlockView::WebSearchToolResult {
                tool_use_id: tool_use_id@,
                content: content.deep_view(),
            },
        }
    }
}

impl Duplicate for AnthropicResponseContentBlock {
    fn duplicate(&self) -> (copy: Self) {
        match self {
            AnthropicResponseContentBlock::Text { text } => AnthropicResponseContentBlock::Text {
                text: text.clone(),
            },
            AnthropicResponseContentBlock::Thinking { thinking, signature } => AnthropicResponseContentBlock::Thinking {
                thinking: thinking.clone(),
                signature: signature.duplicate(),
            },
            AnthropicResponseContentBlock::ToolUse { id, name, input } => AnthropicResponseContentBlock::ToolUse {
                id: id.clone(),
                name: name.clone(),
                input: input.duplicate(),
            },
            AnthropicResponseContentBlock::ServerToolUse { id, name, input } => AnthropicResponseContentBlock::ServerToolUse {
                id: id.clone(),
                name: name.clone(),
                input: input.duplicate(),
            },
            AnthropicResponseContentBlock::WebSearchToolResult { tool_use_id, content } => AnthropicResponseContentBlock::WebSearchToolResult {
                tool_use_id: tool_use_id.clone(),
                content: content.duplicate(),
            },
        }
    }
}

/// The content of a message.
#[derive(Debug, PartialEq)]
pub enum AnthropicContent {
    Text(String),
    Blocks(Vec<AnthropicContentBlock>),
}

/// The model of [`AnthropicContent`].
pub enum AnthropicContentView {
    Text(Seq<char>),
    Blocks(Seq<AnthropicContentBlockView>),
}

/// A block of the content of a message.
#[allow(inconsistent_fields)]
#[derive(Debug, PartialEq)]
pub enum AnthropicContentBlock {
    Text { text: String },
    Image { source: AnthropicImageSource },
    ToolUse { id: String, name: String, input: Json },
    ToolResult { tool_use_id: String, content: Option<AnthropicContent>, is_error: Option<bool> },
    ServerToolUse { id: String, name: String, input: Json },
    WebSearchToolResult { tool_use_id: String, content: Json },
    Thinking { thinking: String, signature: Option<String> },
    RedactedThinking { data: String },
    Other(Json),
}

/// The model of [`AnthropicContentBlock`].
#[allow(inconsistent_fields)]
pub enum AnthropicContentBlockView {
    Text { text: Seq<char> },
    Image { source: AnthropicImageSourceView },
    ToolUse { id: Seq<char>, name: Seq<char>, input: JsonView },
    ToolResult {
        tool_use_id: Seq<char>,
        content: Option<AnthropicContentView>,
        is_error: Option<bool>,
    },
    ServerToolUse { id: Seq<char>, name: Seq<char>, input: JsonView },
    WebSearchToolResult { tool_use_id: Seq<char>, content: JsonView },
    Thinking { thinking: Seq<char>, signature: Option<Seq<char>> },
    RedactedThinking { data: Seq<char> },
    Other(JsonView),
}

impl AnthropicContent {
    pub open spec fn model(&self) -> AnthropicContentView
        decreases self,
    {
        match self {
            AnthropicContent::Text(text) => AnthropicContentView::Text(text@),
            AnthropicContent::Blocks(blocks) => AnthropicContentView::Blocks(
                Seq::new(
                    blocks@.len(),
                    |i: int|
                        if 0 <= i < blocks@.len() {
                            blocks@[i].model()
                        } else {
                            AnthropicContentBlockView::Other(JsonView::Null)
                        },
                ),
            ),
        }
    }
}

impl AnthropicContentBlock {
    pub open spec fn model(&self) -> AnthropicContentBlockView
        decreases self,
    {
        match self {
            AnthropicContentBlock::Text { text } => AnthropicContentBlockView::Text { text: text@ },
            AnthropicContentBlock::Image { source } => AnthropicContentBlockView::Image {
                source: source.deep_view(),
            },
            AnthropicContentBlock::ToolUse { id, name, input } => AnthropicContentBlockView::ToolUse {
                id: id@,
                name: name@,
                input: input.deep_view(),
            },
            AnthropicContentBlock::ToolResult { tool_use_id, content, is_error } =>
            AnthropicContentBlockView::ToolResult {
                tool_use_id: tool_use_id@,
                content: match content {
                    Some(inner) => Some(inner.model()),
                    None => None,
                },
                is_error: *is_error,
            },
            AnthropicContentBlock::ServerToolUse { id, name, input } =>
            AnthropicContentBlockView::ServerToolUse {
                id: id@,
                name: name@,
                input: input.deep_view(),
            },
            AnthropicContentBlock::WebSearchToolResult { tool_use_id, content } =>
            AnthropicContentBlockView::WebSearchToolResult {
                tool_use_id: tool_use_id@,
                content: content.deep_view(),
            },
            AnthropicContentBlock::Thinking { thinking, signature } =>
            AnthropicContentBlockView::Thinking {
                thinking: thinking@,
                signature: signature.deep_view(),
            },
            AnthropicContentBlock::RedactedThinking { data } =>
            AnthropicContentBlockView::RedactedThinking { data: data@ },
            AnthropicContentBlock::Other(value) => AnthropicContentBlockView::Other(
                value.deep_view(),
            ),
        }
    }
}

impl DeepView for AnthropicContent {
    type V = AnthropicContentView;

    open spec fn deep_view(&self) -> AnthropicContentView {
        self.model()
    }
}

impl DeepView for AnthropicContentBlock {
    type V = AnthropicContentBlockView;

    open spec fn deep_view(&self) -> AnthropicContentBlockView {
        self.model()
    }
}

/// The model of a list of blocks is the list of the models of its blocks.
pub broadcast proof fn lemma_blocks_model(blocks: Vec<AnthropicContentBlock>)
    ensures
        #[trigger] AnthropicContent::Blocks(blocks).deep_view() == AnthropicContentView::Blocks(
            blocks.deep_view(),
        ),
{
    assert(AnthropicContent::Blocks(blocks).deep_view()->Blocks_0 =~= blocks.deep_view());
}

} // verus!
