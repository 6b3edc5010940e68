//! The Responses API: requests, conversation items and tools.
use vstd::prelude::*;

use crate::collections::TextMap;
use crate::duplicate::Duplicate;
use crate::json::{
    json_optional_text, lemma_array_model, lemma_object_model, map_of, optional_map, optional_text,
    set_entry, Json, JsonMap, JsonNumber, JsonNumberView, JsonView,
};
use crate::text::same_text;

verus! {

/// A request of the Responses API.
#[derive(Debug, PartialEq)]
pub struct ResponsesRequest {
    pub model: String,
    pub instructions: String,
    pub input: Vec<ResponseItem>,
    pub tools: Vec<ToolSpec>,
    pub tool_choice: Json,
    pub parallel_tool_calls: bool,
    pub reasoning: Option<ReasoningRequest>,
    pub store: bool,
    pub stream: bool,
    pub included: Vec<String>,
    pub service_tier: Option<String>,
    pub prompt_cache_key: Option<String>,
    pub text: Option<TextControls>,
    pub client_metadata: Option<JsonMap>,
    pub previous_response_id: Option<String>,
    pub temperature: Option<JsonNumber>,
    pub top_p: Option<JsonNumber>,
    pub max_output_tokens: Option<i64>,
    pub frequency_penalty: Option<JsonNumber>,
    pub presence_penalty: Option<JsonNumber>,
    pub truncation: Option<String>,
    pub metadata: Option<JsonMap>,
    pub stop: Option<Json>,
    pub extra_body: JsonMap,
}

/// The model of [`ResponsesRequest`].
pub struct ResponsesRequestView {
    pub model: Seq<char>,
    pub instructions: Seq<char>,
    pub input: Seq<ResponseItemView>,
    pub tools: Seq<ToolSpecView>,
    pub tool_choice: JsonView,
    pub parallel_tool_calls: bool,
    pub reasoning: Option<ReasoningRequestView>,
    pub store: bool,
    pub stream: bool,
    pub included: Seq<Seq<char>>,
    pub service_tier: Option<Seq<char>>,
    pub prompt_cache_key: Option<Seq<char>>,
    pub text: Option<TextControlsView>,
    pub client_metadata: Option<Map<Seq<char>, JsonView>>,
    pub previous_response_id: Option<Seq<char>>,
    pub temperature: Option<JsonNumberView>,
    pub top_p: Option<JsonNumberView>,
    pub max_output_tokens: Option<i64>,
    pub frequency_penalty: Option<JsonNumberView>,
    pub presence_penalty: Option<JsonNumberView>,
    pub truncation: Option<Seq<char>>,
    pub metadata: Option<Map<Seq<char>, JsonView>>,
    pub stop: Option<JsonView>,
    pub extra_body: Map<Seq<char>, JsonView>,
}

impl DeepView for ResponsesRequest {
    type V = ResponsesRequestView;

    open spec fn deep_view(&self) -> ResponsesRequestView {
        ResponsesRequestView {
            model: self.model@,
            instructions: self.instructions@,
            input: self.input.deep_view(),
            tools: self.tools.deep_view(),
            tool_choice: self.tool_choice.deep_view(),
            parallel_tool_calls: self.parallel_tool_calls,
            reasoning: self.reasoning.deep_view(),
            store: self.store,
            stream: self.stream,
            included: self.included.deep_view(),
            service_tier: self.service_tier.deep_view(),
            prompt_cache_key: self.prompt_cache_key.deep_view(),
            text: self.text.deep_view(),
            client_metadata: optional_map(self.client_metadata),
            previous_response_id: self.previous_response_id.deep_view(),
            temperature: self.temperature.deep_view(),
            top_p: self.top_p.deep_view(),
            max_output_tokens: self.max_output_tokens.deep_view(),
            frequency_penalty: self.frequency_penalty.deep_view(),
            presence_penalty: self.presence_penalty.deep_view(),
            truncation: self.truncation.deep_view(),
            metadata: optional_map(self.metadata),
            stop: self.stop.deep_view(),
            extra_body: map_of(self.extra_body.deep_view()),
        }
    }
}

impl Duplicate for ResponsesRequest {
    fn duplicate(&self) -> (copy: Self) {
        ResponsesRequest {
            model: self.model.clone(),
            instructions: self.instructions.clone(),
            input: self.input.duplicate(),
            tools: self.tools.duplicate(),
            tool_choice: self.tool_choice.duplicate(),
            parallel_tool_calls: self.parallel_tool_calls,
            reasoning: self.reasoning.duplicate(),
            store: self.store,
            stream: self.stream,
            included: self.included.duplicate(),
            service_tier: self.service_tier.duplicate(),
            prompt_cache_key: self.prompt_cache_key.duplicate(),
            text: self.text.duplicate(),
            client_metadata: self.client_metadata.duplicate(),
            previous_response_id: self.previous_response_id.duplicate(),
            temperature: self.temperature.duplicate(),
            top_p: self.top_p.duplicate(),
            max_output_tokens: self.max_output_tokens.duplicate(),
            frequency_penalty: self.frequency_penalty.duplicate(),
            presence_penalty: self.presence_penalty.duplicate(),
            truncation: self.truncation.duplicate(),
            metadata: self.metadata.duplicate(),
            stop: self.stop.duplicate(),
            extra_body: self.extra_body.duplicate(),
        }
    }
}

/// An item of a conversation.
#[allow(inconsistent_fields)]
#[derive(Debug, PartialEq)]
pub enum ResponseItem {
    Message {
        id: Option<String>,
        role: String,
        content: Vec<ContentItem>,
        phase: Option<String>,
    },
    Reasoning {
        id: String,
        summary: Vec<ReasoningSummaryItem>,
        content: Option<Vec<ReasoningContentItem>>,
        encrypted_content: Option<String>,
    },
    FunctionCall {
        id: Option<String>,
        name: String,
        namespace: Option<String>,
        arguments: String,
        call_id: String,
    },
    FunctionCallOutput { call_id: String, output: Json },
    CustomToolCall {
        status: Option<String>,
        call_id: String,
        name: String,
        input: String,
    },
    CustomToolCallOutput {
        call_id: String,
        name: Option<String>,
        output: Json,
    },
    ToolSearchCall {
        call_id: Option<String>,
        status: Option<String>,
        execution: String,
        arguments: Json,
    },
    ToolSearchOutput {
        call_id: Option<String>,
        status: String,
        execution: String,
        tools: Vec<Json>,
    },
    LocalShellCall {
        id: Option<String>,
        call_id: Option<String>,
        status: String,
        action: LocalShellAction,
    },
    WebSearchCall {
        id: Option<String>,
        status: Option<String>,
        action: Option<WebSearchAction>,
    },
    ImageGenerationCall {
        id: Option<String>,
        status: Option<String>,
        result: Option<String>,
    },
}

/// The model of [`ResponseItem`].
#[allow(inconsistent_fields)]
pub enum ResponseItemView {
    Message {
        id: Option<Seq<char>>,
        role: Seq<char>,
        content: Seq<ContentItemView>,
        phase: Option<Seq<char>>,
    },
    Reasoning {
        id: Seq<char>,
        summary: Seq<ReasoningSummaryItemView>,
        content: Option<Seq<ReasoningContentItemView>>,
        encrypted_content: Option<Seq<char>>,
    },
    FunctionCall {
        id: Option<Seq<char>>,
        name: Seq<char>,
        namespace: Option<Seq<char>>,
        arguments: Seq<char>,
        call_id: Seq<char>,
    },
    FunctionCallOutput { call_id: Seq<char>, output: JsonView },
    CustomToolCall {
        status: Option<Seq<char>>,
        call_id: Seq<char>,
        name: Seq<char>,
        input: Seq<char>,
    },
    CustomToolCallOutput {
        call_id: Seq<char>,
        name: Option<Seq<char>>,
        output: JsonView,
    },
    ToolSearchCall {
        call_id: Option<Seq<char>>,
        status: Option<Seq<char>>,
        execution: Seq<char>,
        arguments: JsonView,
    },
    ToolSearchOutput {
        call_id: Option<Seq<char>>,
        status: Seq<char>,
        execution: Seq<char>,
        tools: Seq<JsonView>,
    },
    LocalShellCall {
        id: Option<Seq<char>>,
        call_id: Option<Seq<char>>,
        status: Seq<char>,
        action: LocalShellActionView,
    },
    WebSearchCall {
        id: Option<Seq<char>>,
        status: Option<Seq<char>>,
        action: Option<WebSearchActionView>,
    },
    ImageGenerationCall {
        id: Option<Seq<char>>,
        status: Option<Seq<char>>,
        result: Option<Seq<char>>,
    },
}

impl DeepView for ResponseItem {
    type V = ResponseItemView;

    open spec fn deep_view(&self) -> ResponseItemView {
        match self {
            ResponseItem::Message { id, role, content, phase } => ResponseItemView::Message {
                id: id.deep_view(),
                role: role@,
                content: content.deep_view(),
                phase: phase.deep_view(),
            },
            ResponseItem::Reasoning { id, summary, content, encrypted_content } => ResponseItemView::Reasoning {
                id: id@,
                summary: summary.deep_view(),
                content: content.deep_view(),
                encrypted_content: encrypted_content.deep_view(),
            },
            ResponseItem::FunctionCall { id, name, namespace, arguments, call_id } => ResponseItemView::FunctionCall {
                id: id.deep_view(),
                name: name@,
                namespace: namespace.deep_view(),
                arguments: arguments@,
                call_id: call_id@,
            },
            ResponseItem::FunctionCallOutput { call_id, output } => ResponseItemView::FunctionCallOutput {
                call_id: call_id@,
                output: output.deep_view(),
            },
            ResponseItem::CustomToolCall { status, call_id, name, input } => ResponseItemView::CustomToolCall {
                status: status.deep_view(),
                call_id: call_id@,
                name: name@,
                input: input@,
            },
            ResponseItem::CustomToolCallOutput { call_id, name, output } => ResponseItemView::CustomToolCallOutput {
                call_id: call_id@,
                name: name.deep_view(),
                output: output.deep_view(),
            },
            ResponseItem::ToolSearchCall { call_id, status, execution, arguments } => ResponseItemView::ToolSearchCall {
                call_id: call_id.deep_view(),
                status: status.deep_view(),
                execution: execution@,
                arguments: arguments.deep_view(),
            },
            ResponseItem::ToolSearchOutput { call_id, status, execution, tools } => ResponseItemView::ToolSearchOutput {
                call_id: call_id.deep_view(),
                status: status@,
                execution: execution@,
                tools: tools.deep_view(),
            },
            ResponseItem::LocalShellCall { id, call_id, status, action } => ResponseItemView::LocalShellCall {
                id: id.deep_view(),
                call_id: call_id.deep_view(),
                status: status@,
                action: action.deep_view(),
            },
            ResponseItem::WebSearchCall { id, status, action } => ResponseItemView::WebSearchCall {
                id: id.deep_view(),
                status: status.deep_view(),
                action: action.deep_view(),
            },
            ResponseItem::ImageGenerationCall { id, status, result } => ResponseItemView::ImageGenerationCall {
                id: id.deep_view(),
                status: status.deep_view(),
                result: result.deep_view(),
            },
        }
    }
}

impl Duplicate for ResponseItem {
    fn duplicate(&self) -> (copy: Self) {
        match self {
            ResponseItem::Message { id, role, content, phase } => ResponseItem::Message {
                id: id.duplicate(),
                role: role.clone(),
                content: content.duplicate(),
                phase: phase.duplicate(),
            },
            ResponseItem::Reasoning { id, summary, content, encrypted_content } => ResponseItem::Reasoning {
                id: id.clone(),
                summary: summary.duplicate(),
                content: content.duplicate(),
                encrypted_content: encrypted_content.duplicate(),
            },
            ResponseItem::FunctionCall { id, name, namespace, arguments, call_id } => ResponseItem::FunctionCall {
                id: id.duplicate(),
                name: name.clone(),
                namespace: namespace.duplicate(),
                arguments: arguments.clone(),
                call_id: call_id.clone(),
            },
            ResponseItem::FunctionCallOutput { call_id, output } => ResponseItem::FunctionCallOutput {
                call_id: call_id.clone(),
                output: output.duplicate(),
            },
            ResponseItem::CustomToolCall { status, call_id, name, input } => ResponseItem::CustomToolCall {
                status: status.duplicate(),
                call_id: call_id.clone(),
                name: name.clone(),
                input: input.clone(),
            },
            ResponseItem::CustomToolCallOutput { call_id, name, output } => ResponseItem::CustomToolCallOutput {
                call_id: call_id.clone(),
                name: name.duplicate(),
                output: output.duplicate(),
            },
            ResponseItem::ToolSearchCall { call_id, status, execution, arguments } => ResponseItem::ToolSearchCall {
                call_id: call_id.duplicate(),
                status: status.duplicate(),
                execution: execution.clone(),
                arguments: arguments.duplicate(),
            },
            ResponseItem::ToolSearchOutput { call_id, status, execution, tools } => ResponseItem::ToolSearchOutput {
                call_id: call_id.duplicate(),
                status: status.clone(),
                execution: execution.clone(),
                tools: tools.duplicate(),
            },
            ResponseItem::LocalShellCall { id, call_id, status, action } => ResponseItem::LocalShellCall {
                id: id.duplicate(),
                call_id: call_id.duplicate(),
                status: status.clone(),
                action: action.duplicate(),
            },
            ResponseItem::WebSearchCall { id, status, action } => ResponseItem::WebSearchCall {
                id: id.duplicate(),
                status: status.duplicate(),
                action: action.duplicate(),
            },
            ResponseItem::ImageGenerationCall { id, status, result } => ResponseItem::ImageGenerationCall {
                id: id.duplicate(),
                status: status.duplicate(),
                result: result.duplicate(),
            },
        }
    }
}

/// A part of the content of a message.
#[derive(Debug, PartialEq)]
pub enum ContentItem {
    InputText { text: String },
    OutputText { text: String },
    InputImage {
        image_url: Option<String>,
        file_id: Option<String>,
        detail: Option<String>,
    },
    InputFile {
        file_id: Option<String>,
        file_url: Option<String>,
        filename: Option<String>,
        file_data: Option<String>,
    },
    Other(Json),
}

/// The model of [`ContentItem`].
pub enum ContentItemView {
    InputText { text: Seq<char> },
    OutputText { text: Seq<char> },
    InputImage {
        image_url: Option<Seq<char>>,
        file_id: Option<Seq<char>>,
        detail: Option<Seq<char>>,
    },
    InputFile {
        file_id: Option<Seq<char>>,
        file_url: Option<Seq<char>>,
        filename: Option<Seq<char>>,
        file_data: Option<Seq<char>>,
    },
    Other(JsonView),
}

impl DeepView for ContentItem {
    type V = ContentItemView;

    open spec fn deep_view(&self) -> ContentItemView {
        match self {
            ContentItem::InputText { text } => ContentItemView::InputText {
                text: text@,
            },
            ContentItem::OutputText { text } => ContentItemView::OutputText {
                text: text@,
            },
            ContentItem::InputImage { image_url, file_id, detail } => ContentItemView::InputImage {
                image_url: image_url.deep_view(),
                file_id: file_id.deep_view(),
                detail: detail.deep_view(),
            },
            ContentItem::InputFile { file_id, file_url, filename, file_data } => ContentItemView::InputFile {
                file_id: file_id.deep_view(),
                file_url: file_url.deep_view(),
                filename: filename.deep_view(),
                file_data: file_data.deep_view(),
            },
            ContentItem::Other(inner) => ContentItemView::Other(inner.deep_view()),
        }
    }
}

impl Duplicate for ContentItem {
    fn duplicate(&self) -> (copy: Self) {
        match self {
            ContentItem::InputText { text } => ContentItem::InputText {
                text: text.clone(),
            },
            ContentItem::OutputText { text } => ContentItem::OutputText {
                text: text.clone(),
            },
            ContentItem::InputImage { image_url, file_id, detail } => ContentItem::InputImage {
                image_url: image_url.duplicate(),
                file_id: file_id.duplicate(),
                detail: detail.duplicate(),
            },
            ContentItem::InputFile { file_id, file_url, filename, file_data } => ContentItem::InputFile {
                file_id: file_id.duplicate(),
                file_url: file_url.duplicate(),
                filename: filename.duplicate(),
                file_data: file_data.duplicate(),
            },
            ContentItem::Other(inner) => ContentItem::Other(inner.duplicate()),
        }
    }
}

/// A part of the summary of a reasoning item.
#[derive(Debug, PartialEq)]
pub enum ReasoningSummaryItem {
    SummaryText { text: String },
}

/// The model of [`ReasoningSummaryItem`].
pub enum ReasoningSummaryItemView {
    SummaryText { text: Seq<char> },
}

impl DeepView for ReasoningSummaryItem {
    type V = ReasoningSummaryItemView;

    open spec fn deep_view(&self) -> ReasoningSummaryItemView {
        match self {
            ReasoningSummaryItem::SummaryText { text } => ReasoningSummaryItemView::SummaryText {
                text: text@,
            },
        }
    }
}

impl Duplicate for ReasoningSummaryItem {
    fn duplicate(&self) -> (copy: Self) {
        match self {
            ReasoningSummaryItem::SummaryText { text } => ReasoningSummaryItem::SummaryText {
                text: text.clone(),
            },
        }
    }
}

/// A part of the text of a reasoning item.
#[derive(Debug, PartialEq)]
pub enum ReasoningContentItem {
    ReasoningText { text: String },
    Text { text: String },
}

/// The model of [`ReasoningContentItem`].
pub enum ReasoningContentItemView {
    ReasoningText { text: Seq<char> },
    Text { text: Seq<char> },
}

impl DeepView for ReasoningContentItem {
    type V = ReasoningContentItemView;

    open spec fn deep_view(&self) -> ReasoningContentItemView {
        match self {
            ReasoningContentItem::ReasoningText { text } => ReasoningContentItemView::ReasoningText {
                text: text@,
            },
            ReasoningContentItem::Text { text } => ReasoningContentItemView::Text {
                text: text@,
            },
        }
    }
}

impl Duplicate for ReasoningContentItem {
    fn duplicate(&self) -> (copy: Self) {
        match self {
            ReasoningContentItem::ReasoningText { text } => ReasoningContentItem::ReasoningText {
                text: text.clone(),
            },
            ReasoningContentItem::Text { text } => ReasoningContentItem::Text {
                text: text.clone(),
            },
        }
    }
}

/// What a shell call asks for.
#[derive(Debug, PartialEq)]
pub enum LocalShellAction {
    Exec(LocalShellExecAction),
}

/// The model of [`LocalShellAction`].
pub enum LocalShellActionView {
    Exec(LocalShellExecActionView),
}

impl DeepView for LocalShellAction {
    type V = LocalShellActionView;

    open spec fn deep_view(&self) -> LocalShellActionView {
        match self {
            LocalShellAction::Exec(inner) => LocalShellActionView::Exec(inner.deep_view()),
        }
    }
}

impl Duplicate for LocalShellAction {
    fn duplicate(&self) -> (copy: Self) {
        match self {
            LocalShellAction::Exec(inner) => LocalShellAction::Exec(inner.duplicate()),
        }
    }
}

/// A command to run in a local shell.
#[derive(Debug, PartialEq)]
pub struct LocalShellExecAction {
    pub command: Vec<String>,
    pub timeout_ms: Option<u64>,
    pub working_directory: Option<String>,
    pub env: Option<TextMap<String>>,
    pub user: Option<String>,
}

/// The model of [`LocalShellExecAction`].
pub struct LocalShellExecActionView {
    pub command: Seq<Seq<char>>,
    pub timeout_ms: Option<u64>,
    pub working_directory: Option<Seq<char>>,
    pub env: Option<Map<Seq<char>, Seq<char>>>,
    pub user: Option<Seq<char>>,
}

impl DeepView for LocalShellExecAction {
    type V = LocalShellExecActionView;

    open spec fn deep_view(&self) -> LocalShellExecActionView {
        LocalShellExecActionView {
            command: self.command.deep_view(),
            timeout_ms: self.timeout_ms.deep_view(),
            working_directory: self.working_directory.deep_view(),
            env: self.env.deep_view(),
            user: self.user.deep_view(),
        }
    }
}

impl Duplicate for LocalShellExecAction {
    fn duplicate(&self) -> (copy: Self) {
        LocalShellExecAction {
            command: self.command.duplicate(),
            timeout_ms: self.timeout_ms.duplicate(),
            working_directory: self.working_directory.duplicate(),
            env: self.env.duplicate(),
            user: self.user.duplicate(),
        }
    }
}

/// What a web search call asked for.
#[derive(Debug, PartialEq)]
pub enum WebSearchAction {
    Search { query: Option<String>, queries: Option<Vec<String>> },
    OpenPage { url: Option<String> },
    FindInPage { url: Option<String>, pattern: Option<String> },
    Other,
}

/// The model of [`WebSearchAction`].
pub enum WebSearchActionView {
    Search { query: Option<Seq<char>>, queries: Option<Seq<Seq<char>>> },
    OpenPage { url: Option<Seq<char>> },
    FindInPage { url: Option<Seq<char>>, pattern: Option<Seq<char>> },
    Other,
}

impl DeepView for WebSearchAction {
    type V = WebSearchActionView;

    open spec fn deep_view(&self) -> WebSearchActionView {
        match self {
            WebSearchAction::Search { query, queries } => WebSearchActionView::Search {
                query: query.deep_view(),
                queries: queries.deep_view(),
            },
            WebSearchAction::OpenPage { url } => WebSearchActionView::OpenPage {
                url: url.deep_view(),
            },
            WebSearchAction::FindInPage { url, pattern } => WebSearchActionView::FindInPage {
                url: url.deep_view(),
                pattern: pattern.deep_view(),
            },
            WebSearchAction::Other => WebSearchActionView::Other,
        }
    }
}

impl Duplicate for WebSearchAction {
    fn duplicate(&self) -> (copy: Self) {
        match self {
            WebSearchAction::Search { query, queries } => WebSearchAction::Search {
                query: query.duplicate(),
                queries: queries.duplicate(),
            },
            WebSearchAction::OpenPage { url } => WebSearchAction::OpenPage {
                url: url.duplicate(),
            },
            WebSearchAction::FindInPage { url, pattern } => WebSearchAction::FindInPage {
                url: url.duplicate(),
                pattern: pattern.duplicate(),
            },
            WebSearchAction::Other => WebSearchAction::Other,
        }
    }
}

/// A tool that a request offers to the model.
#[derive(Debug, PartialEq)]
pub enum ToolSpec {
    Function {
        name: String,
        description: String,
        strict: bool,
        parameters: Json,
    },
    Namespace {
        name: String,
        description: String,
        tools: Vec<NamespaceToolSpec>,
    },
    ToolSearch {
        execution: String,
        description: String,
        parameters: Json,
    },
    LocalShell,
    WebSearch {
        external_web_access: Option<bool>,
        filters: Option<Json>,
        user_location: Option<Json>,
        search_context_size: Option<String>,
        search_content_types: Option<Vec<String>>,
    },
    Custom {
        name: String,
        description: String,
        format: CustomToolFormat,
    },
    ImageGeneration { output_format: Option<String> },
}

/// The model of [`ToolSpec`].
pub enum ToolSpecView {
    Function {
        name: Seq<char>,
        description: Seq<char>,
        strict: bool,
        parameters: JsonView,
    },
    Namespace {
        name: Seq<char>,
        description: Seq<char>,
        tools: Seq<NamespaceToolSpecView>,
    },
    ToolSearch {
        execution: Seq<char>,
        description: Seq<char>,
        parameters: JsonView,
    },
    LocalShell,
    WebSearch {
        external_web_access: Option<bool>,
        filters: Option<JsonView>,
        user_location: Option<JsonView>,
        search_context_size: Option<Seq<char>>,
        search_content_types: Option<Seq<Seq<char>>>,
    },
    Custom {
        name: Seq<char>,
        description: Seq<char>,
        format: CustomToolFormatView,
    },
    ImageGeneration { output_format: Option<Seq<char>> },
}

impl DeepView for ToolSpec {
    type V = ToolSpecView;

    open spec fn deep_view(&self) -> ToolSpecView {
        match self {
            ToolSpec::Function { name, description, strict, parameters } => ToolSpecView::Function {
                name: name@,
                description: description@,
                strict: *strict,
                parameters: parameters.deep_view(),
            },
            ToolSpec::Namespace { name, description, tools } => ToolSpecView::Namespace {
                name: name@,
                description: description@,
                tools: tools.deep_view(),
            },
            ToolSpec::ToolSearch { execution, description, parameters } => ToolSpecView::ToolSearch {
                execution: execution@,
                description: description@,
                parameters: parameters.deep_view(),
            },
            ToolSpec::LocalShell => ToolSpecView::LocalShell,
            ToolSpec::WebSearch { external_web_access, filters, user_location, search_context_size, search_content_types } => ToolSpecView::WebSearch {
                external_web_access: external_web_access.deep_view(),
                filters: filters.deep_view(),
                user_location: user_location.deep_view(),
                search_context_size: search_context_size.deep_view(),
                search_content_types: search_content_types.deep_view(),
            },
            ToolSpec::Custom { name, description, format } => ToolSpecView::Custom {
                name: name@,
                description: description@,
                format: format.deep_view(),
            },
            ToolSpec::ImageGeneration { output_format } => ToolSpecView::ImageGeneration {
                output_format: output_format.deep_view(),
            },
        }
    }
}

impl Duplicate for ToolSpec {
    fn duplicate(&self) -> (copy: Self) {
        match self {
            ToolSpec::Function { name, description, strict, parameters } => ToolSpec::Function {
                name: name.clone(),
                description: description.clone(),
                strict: *strict,
                parameters: parameters.duplicate(),
            },
            ToolSpec::Namespace { name, description, tools } => ToolSpec::Namespace {
                name: name.clone(),
                description: description.clone(),
                tools: tools.duplicate(),
            },
            ToolSpec::ToolSearch { execution, description, parameters } => ToolSpec::ToolSearch {
                execution: execution.clone(),
                description: description.clone(),
                parameters: parameters.duplicate(),
            },
            ToolSpec::LocalShell => ToolSpec::LocalShell,
            ToolSpec::WebSearch { external_web_access, filters, user_location, search_context_size, search_content_types } => ToolSpec::WebSearch {
                external_web_access: external_web_access.duplicate(),
                filters: filters.duplicate(),
                user_location: user_location.duplicate(),
                search_context_size: search_context_size.duplicate(),
                search_content_types: search_content_types.duplicate(),
            },
            ToolSpec::Custom { name, description, format } => ToolSpec::Custom {
                name: name.clone(),
                description: description.clone(),
                format: format.duplicate(),
            },
            ToolSpec::ImageGeneration { output_format } => ToolSpec::ImageGeneration {
                output_format: output_format.duplicate(),
            },
        }
    }
}

/// A tool inside a namespace.
#[derive(Debug, PartialEq)]
pub enum NamespaceToolSpec {
    Function {
        name: String,
        description: String,
        strict: bool,
        parameters: Json,
    },
}

/// The model of [`NamespaceToolSpec`].
pub enum NamespaceToolSpecView {
    Function {
        name: Seq<char>,
        description: Seq<char>,
        strict: bool,
        parameters: JsonView,
    },
}

impl DeepView for NamespaceToolSpec {
    type V = NamespaceToolSpecView;

    open spec fn deep_view(&self) -> NamespaceToolSpecView {
        match self {
            NamespaceToolSpec::Function { name, description, strict, parameters } => NamespaceToolSpecView::Function {
                name: name@,
                description: description@,
                strict: *strict,
                parameters: parameters.deep_view(),
            },
        }
    }
}

impl Duplicate for NamespaceToolSpec {
    fn duplicate(&self) -> (copy: Self) {
        match self {
            NamespaceToolSpec::Function { name, description, strict, parameters } => NamespaceToolSpec::Function {
                name: name.clone(),
                description: description.clone(),
                strict: *strict,
                parameters: parameters.duplicate(),
            },
        }
    }
}

/// The format of the input of a custom tool.
#[derive(Debug, PartialEq)]
pub struct CustomToolFormat {
    pub kind: String,
    pub syntax: String,
    pub definition: String,
}

/// The model of [`CustomToolFormat`].
pub struct CustomToolFormatView {
    pub kind: Seq<char>,
    pub syntax: Seq<char>,
    pub definition: Seq<char>,
}

impl DeepView for CustomToolFormat {
    type V = CustomToolFormatView;

    open spec fn deep_view(&self) -> CustomToolFormatView {
        CustomToolFormatView {
            kind: self.kind@,
            syntax: self.syntax@,
            definition: self.definition@,
        }
    }
}

impl Duplicate for CustomToolFormat {
    fn duplicate(&self) -> (copy: Self) {
        CustomToolFormat {
            kind: self.kind.clone(),
            syntax: self.syntax.clone(),
            definition: self.definition.clone(),
        }
    }
}

/// How much the model is asked to reason.
#[derive(Debug, PartialEq)]
pub struct ReasoningRequest {
    pub effort: Option<String>,
    pub summary: Option<String>,
}

/// The model of [`ReasoningRequest`].
pub struct ReasoningRequestView {
    pub effort: Option<Seq<char>>,
    pub summary: Option<Seq<char>>,
}

impl DeepView for ReasoningRequest {
    type V = ReasoningRequestView;

    open spec fn deep_view(&self) -> ReasoningRequestView {
        ReasoningRequestView {
            effort: self.effort.deep_view(),
            summary: self.summary.deep_view(),
        }
    }
}

impl Duplicate for ReasoningRequest {
    fn duplicate(&self) -> (copy: Self) {
        ReasoningRequest {
            effort: self.effort.duplicate(),
            summary: self.summary.duplicate(),
        }
    }
}

/// How the answer text is shaped.
#[derive(Debug, PartialEq)]
pub struct TextControls {
    pub verbosity: Option<String>,
    pub format: Option<TextFormat>,
}

/// The model of [`TextControls`].
pub struct TextControlsView {
    pub verbosity: Option<Seq<char>>,
    pub format: Option<TextFormatView>,
}

impl DeepView for TextControls {
    type V = TextControlsView;

    open spec fn deep_view(&self) -> TextControlsView {
        TextControlsView {
            verbosity: self.verbosity.deep_view(),
            format: self.format.deep_view(),
        }
    }
}

impl Duplicate for TextControls {
    fn duplicate(&self) -> (copy: Self) {
        TextControls {
            verbosity: self.verbosity.duplicate(),
            format: self.format.duplicate(),
        }
    }
}

/// A JSON schema that the answer has to match.
#[derive(Debug, PartialEq)]
pub struct TextFormat {
    pub kind: String,
    pub strict: bool,
    pub schema: Json,
    pub name: String,
}

/// The model of [`TextFormat`].
pub struct TextFormatView {
    pub kind: Seq<char>,
    pub strict: bool,
    pub schema: JsonView,
    pub name: Seq<char>,
}

impl DeepView for TextFormat {
    type V = TextFormatView;

    open spec fn deep_view(&self) -> TextFormatView {
        TextFormatView {
            kind: self.kind@,
            strict: self.strict,
            schema: self.schema.deep_view(),
            name: self.name@,
        }
    }
}

impl Duplicate for TextFormat {
    fn duplicate(&self) -> (copy: Self) {
        TextFormat {
            kind: self.kind.clone(),
            strict: self.strict,
            schema: self.schema.duplicate(),
            name: self.name.clone(),
        }
    }
}

/// A text for each element of `texts`.
pub open spec fn text_array(texts: Seq<Seq<char>>) -> JsonView {
    JsonView::Array(texts.map_values(|text: Seq<char>| JsonView::Text(text)))
}

impl LocalShellExecActionView {
    /// The command as a JSON object; what it leaves open is null.
    pub open spec fn json(self) -> JsonView {
        JsonView::Object(
            map![
                "command"@ => text_array(self.command),
                "timeout_ms"@ => match self.timeout_ms {
                    Some(timeout) => JsonView::Num(JsonNumberView::Integer(timeout as int)),
                    None => JsonView::Null,
                },
                "working_directory"@ => optional_text(self.working_directory),
                "env"@ => match self.env {
                    Some(env) => JsonView::Object(
                        env.map_values(|text: Seq<char>| JsonView::Text(text)),
                    ),
                    None => JsonView::Null,
                },
                "user"@ => optional_text(self.user),
            ],
        )
    }
}

/// A JSON array of texts.
pub fn json_text_array(texts: &Vec<String>) -> (result: Json)
    ensures
        result.deep_view() == text_array(texts.deep_view()),
{
    broadcast use lemma_array_model;

    let mut items: Vec<Json> = Vec::new();
    for index in 0..texts.len()
        invariant
            items@.len() == index,
            forall|k: int|
                0 <= k < index ==> #[trigger] items@[k].deep_view() == JsonView::Text(texts@[k]@),
    {
        items.push(Json::Text(texts[index].clone()));
    }
    assert(items.deep_view() =~= texts.deep_view().map_values(
        |text: Seq<char>| JsonView::Text(text),
    ));
    Json::Array(items)
}

/// A JSON object with a text under each key.
pub fn json_text_object(texts: &TextMap<String>) -> (result: Json)
    ensures
        result.deep_view() == JsonView::Object(
            texts.deep_view().map_values(|text: Seq<char>| JsonView::Text(text)),
        ),
{
    broadcast use lemma_object_model;

    let ghost expected = texts.deep_view().map_values(|text: Seq<char>| JsonView::Text(text));
    let mut entries: JsonMap = Vec::new();
    let ghost listed = texts.listed();
    let count: usize = texts.len();
    for index in 0..count
        invariant
            count == listed.len(),
            listed == texts.listed(),
            forall|k: int|
                0 <= k < index ==> map_of(entries.deep_view()).dom().contains(#[trigger] listed[k].0),
            forall|key: Seq<char>|
                #[trigger] map_of(entries.deep_view()).dom().contains(key) ==> {
                    &&& texts.deep_view().dom().contains(key)
                    &&& map_of(entries.deep_view())[key] == JsonView::Text(texts.deep_view()[key])
                },
    {
        let key = texts.key_at(index);
        let value = texts.value_at(index);
        set_entry(&mut entries, key.clone(), Json::Text(value.clone()));
    }
    proof {
        texts.lemma_listed();
        assert(map_of(entries.deep_view()) =~= expected) by {
            assert forall|key: Seq<char>| texts.deep_view().dom().contains(key) implies map_of(
                entries.deep_view(),
            ).dom().contains(key) by {
                let k = choose|k: int| 0 <= k < listed.len() && (#[trigger] listed[k]).0 == key;
                assert(map_of(entries.deep_view()).dom().contains(listed[k].0));
            }
        }
    }
    Json::Object(entries)
}

impl LocalShellExecAction {
    /// The command as a JSON object; what it leaves open is null.
    pub fn to_json(&self) -> (result: Json)
        ensures
            result.deep_view() == self.deep_view().json(),
    {
        broadcast use lemma_object_model;

        let mut entries: JsonMap = Vec::new();
        set_entry(&mut entries, "command".to_string(), json_text_array(&self.command));
        let timeout = match self.timeout_ms {
            Some(timeout) => Json::Num(JsonNumber::Unsigned(timeout)),
            None => Json::Null,
        };
        set_entry(&mut entries, "timeout_ms".to_string(), timeout);
        set_entry(
            &mut entries,
            "working_directory".to_string(),
            json_optional_text(&self.working_directory),
        );
        let env = match &self.env {
            Some(env) => json_text_object(env),
            None => Json::Null,
        };
        set_entry(&mut entries, "env".to_string(), env);
        set_entry(&mut entries, "user".to_string(), json_optional_text(&self.user));
        Json::Object(entries)
    }
}

/// Why a response came to its end.
#[derive(Clone, Copy, Debug, PartialEq, Eq, Structural)]
pub enum TerminalReason {
    Stop,
    Length,
    ToolCalls,
    ContentFilter,
    Other,
}

impl TerminalReason {
    /// The reason with the given name; one that has no name of its own is `Other`.
    pub open spec fn named(name: Seq<char>) -> TerminalReason {
        if name == "stop"@ {
            TerminalReason::Stop
        } else if name == "length"@ {
            TerminalReason::Length
        } else if name == "tool_calls"@ {
            TerminalReason::ToolCalls
        } else if name == "content_filter"@ {
            TerminalReason::ContentFilter
        } else {
            TerminalReason::Other
        }
    }

    /// The reason with the given name.
    pub fn from_finish_reason(name: &str) -> (result: TerminalReason)
        ensures
            result == TerminalReason::named(name@),
    {
        if same_text(name, "stop") {
            TerminalReason::Stop
        } else if same_text(name, "length") {
            TerminalReason::Length
        } else if same_text(name, "tool_calls") {
            TerminalReason::ToolCalls
        } else if same_text(name, "content_filter") {
            TerminalReason::ContentFilter
        } else {
            TerminalReason::Other
        }
    }

    /// Whether the model stopped of its own accord.
    pub fn is_clean_stop(self) -> (result: bool)
        ensures
            result == (self == TerminalReason::Stop),
    {
        self == TerminalReason::Stop
    }
}

} // verus!
