//! A request of the Messages API as a request of the Responses API.
use vstd::prelude::*;

use crate::duplicate::Duplicate;
use crate::error::{bad_request, outcome, AppError, AppErrorView, AppResult};
use crate::ids::{fresh_id, is_simple_uuid, item_id, prefixed_id};
use crate::json::{
    json_object1, json_object2, json_rendered, json_text, optional_map, render_json, set_entry,
    Json, JsonMap, JsonView,
};
use crate::models::anthropic::{
    lemma_blocks_model, AnthropicContent, AnthropicContentBlock, AnthropicContentBlockView,
    AnthropicContentView, AnthropicImageSource, AnthropicImageSourceView, AnthropicMessage,
    AnthropicMessageView, AnthropicRequest, AnthropicRequestView, AnthropicSystemContent,
    AnthropicSystemContentView, AnthropicTextBlock, AnthropicTextBlockView, AnthropicThinking,
    AnthropicThinkingView, AnthropicTool, AnthropicToolChoice, AnthropicToolChoiceView,
    AnthropicToolView, SYNTHETIC_SIGNATURE_PREFIX,
};
use crate::models::responses::{
    json_text_array, text_array, ContentItem, ContentItemView, ReasoningContentItem,
    ReasoningContentItemView, ReasoningRequest, ReasoningRequestView, ReasoningSummaryItem,
    ReasoningSummaryItemView, ResponseItem, ResponseItemView, ResponsesRequest,
    ResponsesRequestView, TextControls, TextControlsView, TextFormat, TextFormatView, ToolSpec,
    ToolSpecView,
};
use crate::sorting::{sort_by_name, sorted_by_name, Named};
use crate::text::{has_prefix, join, joined, same_text, trimmed};

use super::responses_to_anthropic::deferred::stand_in_signature;
use super::responses_to_chat::{normalize_reasoning_effort, upstream_effort};
use self::prompt::{
    is_skill_listing, looks_like_claude_code_skill_listing, split_user_text_segments,
    strip_billing_nonce, strip_date_injection, user_segments, without_lines, wrap_private_context,
    wrapped_context, InjectedLine, UserTextSegment, UserTextSegmentView,
};

pub mod laws;
pub mod prompt;
pub mod prompt_laws;

verus! {

// ---------------------------------------------------------------------------------------------
// Images
// ---------------------------------------------------------------------------------------------

/// An image that is found under an address or a file id.
pub open spec fn image_item(image_url: Option<Seq<char>>, file_id: Option<Seq<char>>) -> ContentItemView {
    ContentItemView::InputImage { image_url, file_id, detail: None }
}

/// The text, unless there is none or it is empty.
pub open spec fn filled(text: Option<Seq<char>>) -> Option<Seq<char>> {
    match text {
        Some(inner) => if inner.len() > 0 {
            Some(inner)
        } else {
            None
        },
        None => None,
    }
}

/// The content item for an image, or why its source makes no sense.
pub open spec fn image_content(source: AnthropicImageSourceView) -> Result<
    ContentItemView,
    AppErrorView,
> {
    if source.kind == "base64"@ {
        match filled(source.data) {
            None => Err(bad_request("Anthropic base64 image source is missing data"@)),
            Some(data) => {
                let media_type = match source.media_type {
                    Some(media_type) => media_type,
                    None => "image/png"@,
                };
                Ok(image_item(Some("data:"@ + media_type + ";base64,"@ + data), None))
            },
        }
    } else if source.kind == "url"@ {
        match filled(source.url) {
            None => Err(bad_request("Anthropic image source is missing url"@)),
            Some(url) => Ok(image_item(Some(url), None)),
        }
    } else if source.kind == "file"@ {
        match filled(source.file_id) {
            None => Err(bad_request("Anthropic file image source is missing file_id"@)),
            Some(file_id) => Ok(image_item(None, Some(file_id))),
        }
    } else {
        Err(bad_request("unsupported Anthropic image source type \""@ + source.kind + "\""@))
    }
}

fn nonempty(text: &Option<String>) -> (result: Option<&String>)
    ensures
        result.deep_view() == filled(text.deep_view()),
{
    match text {
        Some(inner) => if inner.is_empty() {
            None
        } else {
            Some(inner)
        },
        None => None,
    }
}

/// The signature of a provider. One that only stands in for it is none.
pub open spec fn provider_signature(signature: Option<Seq<char>>) -> Option<Seq<char>> {
    match filled(signature) {
        Some(signature) => if SYNTHETIC_SIGNATURE_PREFIX@.is_prefix_of(signature) {
            None
        } else {
            Some(signature)
        },
        None => None,
    }
}

fn keep_provider_signature(signature: &Option<String>) -> (result: Option<String>)
    ensures
        result.deep_view() == provider_signature(signature.deep_view()),
{
    match nonempty(signature) {
        Some(signature) => if has_prefix(signature.as_str(), SYNTHETIC_SIGNATURE_PREFIX) {
            None
        } else {
            Some(signature.clone())
        },
        None => None,
    }
}

/// A signature that stands in for the one of a provider does not come back as one of a provider.
pub proof fn law_stand_in_signatures_do_not_come_back(text: Seq<char>)
    ensures
        provider_signature(Some(stand_in_signature(text))) is None,
{
    let signature = stand_in_signature(text);
    assert(signature.take(SYNTHETIC_SIGNATURE_PREFIX@.len() as int) =~= SYNTHETIC_SIGNATURE_PREFIX@);
}

/// The content item for an image.
pub fn image_source_to_content_item(source: &AnthropicImageSource) -> (result: AppResult<
    ContentItem,
>)
    ensures
        outcome(result) == image_content(source.deep_view()),
{
    let kind = source.kind.as_str();
    if same_text(kind, "base64") {
        match nonempty(&source.data) {
            None => Err(
                AppError::bad_request("Anthropic base64 image source is missing data".to_string()),
            ),
            Some(data) => {
                let mut url = "data:".to_string();
                match &source.media_type {
                    Some(media_type) => url.push_str(media_type.as_str()),
                    None => url.push_str("image/png"),
                }
                url.push_str(";base64,");
                url.push_str(data.as_str());
                Ok(ContentItem::InputImage { image_url: Some(url), file_id: None, detail: None })
            },
        }
    } else if same_text(kind, "url") {
        match nonempty(&source.url) {
            None => Err(AppError::bad_request("Anthropic image source is missing url".to_string())),
            Some(url) => Ok(
                ContentItem::InputImage {
                    image_url: Some(url.clone()),
                    file_id: None,
                    detail: None,
                },
            ),
        }
    } else if same_text(kind, "file") {
        match nonempty(&source.file_id) {
            None => Err(
                AppError::bad_request("Anthropic file image source is missing file_id".to_string()),
            ),
            Some(file_id) => Ok(
                ContentItem::InputImage {
                    image_url: None,
                    file_id: Some(file_id.clone()),
                    detail: None,
                },
            ),
        }
    } else {
        let mut message = "unsupported Anthropic image source type \"".to_string();
        message.push_str(kind);
        message.push_str("\"");
        Err(AppError::bad_request(message))
    }
}

// ---------------------------------------------------------------------------------------------
// Tool results
// ---------------------------------------------------------------------------------------------

/// What the first `count` blocks of a tool result hold: their texts and their images.
pub open spec fn result_parts(blocks: Seq<AnthropicContentBlockView>, count: int) -> Result<
    (Seq<Seq<char>>, Seq<ContentItemView>),
    AppErrorView,
>
    decreases count,
{
    if count <= 0 {
        Ok((Seq::empty(), Seq::empty()))
    } else {
        match result_parts(blocks, count - 1) {
            Err(error) => Err(error),
            Ok((texts, images)) => match blocks[count - 1] {
                AnthropicContentBlockView::Text { text } => Ok((texts.push(text), images)),
                AnthropicContentBlockView::Image { source } => match image_content(source) {
                    Ok(image) => Ok((texts, images.push(image))),
                    Err(error) => Err(error),
                },
                _ => Ok((texts, images)),
            },
        }
    }
}

/// The output of a tool: its texts one to a line, or a word on its images, or nothing.
pub open spec fn result_output(texts: Seq<Seq<char>>, images: Seq<ContentItemView>) -> JsonView {
    if texts.len() > 0 {
        JsonView::Text(joined(texts, "\n"@))
    } else if images.len() > 0 {
        JsonView::Text("[image returned]"@)
    } else {
        JsonView::Null
    }
}

/// The output of a tool, and the images that came with it.
pub open spec fn tool_result(content: Option<AnthropicContentView>) -> Result<
    (JsonView, Seq<ContentItemView>),
    AppErrorView,
> {
    match content {
        Some(AnthropicContentView::Text(text)) => Ok((JsonView::Text(text), Seq::empty())),
        Some(AnthropicContentView::Blocks(blocks)) => match result_parts(
            blocks,
            blocks.len() as int,
        ) {
            Ok((texts, images)) => Ok((result_output(texts, images), images)),
            Err(error) => Err(error),
        },
        None => Ok((JsonView::Null, Seq::empty())),
    }
}

proof fn lemma_result_error_stays(blocks: Seq<AnthropicContentBlockView>, count: int, upto: int)
    requires
        0 <= upto <= count,
        result_parts(blocks, upto) is Err,
    ensures
        result_parts(blocks, count) == result_parts(blocks, upto),
    decreases count,
{
    if upto < count {
        lemma_result_error_stays(blocks, count - 1, upto);
    }
}

/// The output of a tool, and the images that came with it.
pub fn extract_tool_result_parts(content: &Option<AnthropicContent>) -> (result: AppResult<
    (Json, Vec<ContentItem>),
>)
    ensures
        outcome(result) == tool_result(content.deep_view()),
{
    broadcast use lemma_blocks_model;

    let mut images: Vec<ContentItem> = Vec::new();
    assert(images.deep_view() =~= Seq::<ContentItemView>::empty());
    match content {
        Some(AnthropicContent::Text(text)) => Ok((Json::Text(text.clone()), images)),
        Some(AnthropicContent::Blocks(blocks)) => {
            let ghost models = blocks.deep_view();
            let mut texts: Vec<String> = Vec::new();
            assert(texts.deep_view() =~= Seq::<Seq<char>>::empty());
            for index in 0..blocks.len()
                invariant
                    models == blocks.deep_view(),
                    content.deep_view() == Some(AnthropicContentView::Blocks(models)),
                    result_parts(models, index as int) == Ok::<
                        (Seq<Seq<char>>, Seq<ContentItemView>),
                        AppErrorView,
                    >((texts.deep_view(), images.deep_view())),
            {
                let ghost texts_before = texts.deep_view();
                let ghost images_before = images.deep_view();
                assert(models[index as int] == blocks@[index as int].deep_view());
                match &blocks[index] {
                    AnthropicContentBlock::Text { text } => {
                        texts.push(text.clone());
                        assert(texts.deep_view() =~= texts_before.push(text@));
                    },
                    AnthropicContentBlock::Image { source } => {
                        match image_source_to_content_item(source) {
                            Ok(image) => {
                                let ghost added = image.deep_view();
                                images.push(image);
                                assert(images.deep_view() =~= images_before.push(added));
                            },
                            Err(error) => {
                                proof {
                                    lemma_result_error_stays(
                                        models,
                                        models.len() as int,
                                        index + 1,
                                    );
                                }
                                return Err(error);
                            },
                        }
                    },
                    _ => {},
                }
            }
            let output = if texts.len() > 0 {
                Json::Text(join(&texts, "\n"))
            } else if images.len() > 0 {
                json_text("[image returned]")
            } else {
                Json::Null
            };
            Ok((output, images))
        },
        None => Ok((Json::Null, images)),
    }
}

// ---------------------------------------------------------------------------------------------
// Messages
// ---------------------------------------------------------------------------------------------

/// A message of the conversation.
pub open spec fn message_item(role: Seq<char>, content: Seq<ContentItemView>) -> ResponseItemView {
    ResponseItemView::Message { id: None, role, content, phase: None }
}

/// A text as the role that says it has it.
pub open spec fn text_item(role: Seq<char>, text: Seq<char>) -> ContentItemView {
    if role == "user"@ {
        ContentItemView::InputText { text }
    } else {
        ContentItemView::OutputText { text }
    }
}

/// The texts of a user message: what is left of the prompt, and private context as it is.
pub open spec fn user_texts(segments: Seq<UserTextSegmentView>) -> Seq<Seq<char>>
    decreases segments.len(),
{
    if segments.len() == 0 {
        Seq::empty()
    } else {
        let before = user_texts(segments.drop_last());
        match segments.last() {
            UserTextSegmentView::Prompt(text) => {
                let prompt = without_lines(text, InjectedLine::Date);
                if prompt.len() > 0 {
                    before.push(prompt)
                } else {
                    before
                }
            },
            UserTextSegmentView::PrivateContext(text) => before.push(text),
        }
    }
}

/// The call of a tool that the assistant made.
pub open spec fn call_item(id: Seq<char>, name: Seq<char>, input: JsonView) -> ResponseItemView {
    ResponseItemView::FunctionCall {
        id: None,
        name,
        namespace: None,
        arguments: json_rendered(input),
        call_id: id,
    }
}

/// A message that is being taken apart: the items so far, and the content of the next one.
pub struct Unpacking {
    pub items: Seq<ResponseItemView>,
    pub content: Seq<ContentItemView>,
}

impl Unpacking {
    /// What has been gathered becomes a message of its own, unless it is nothing.
    pub open spec fn flushed(self, role: Seq<char>) -> Unpacking {
        if self.content.len() > 0 {
            Unpacking {
                items: self.items.push(message_item(role, self.content)),
                content: Seq::empty(),
            }
        } else {
            self
        }
    }

    pub open spec fn with_item(self, item: ResponseItemView) -> Unpacking {
        Unpacking { items: self.items.push(item), ..self }
    }

    pub open spec fn with_content(self, content: ContentItemView) -> Unpacking {
        Unpacking { content: self.content.push(content), ..self }
    }

    /// The message after one more block. Thinking gets its id from `fresh`.
    pub open spec fn after(
        self,
        role: Seq<char>,
        block: AnthropicContentBlockView,
        fresh: Seq<char>,
    ) -> Result<Unpacking, AppErrorView> {
        match block {
            AnthropicContentBlockView::Text { text } => if role == "user"@ {
                Ok(
                    Unpacking {
                        content: self.content + user_texts(user_segments(text)).map_values(
                            |text: Seq<char>| ContentItemView::InputText { text },
                        ),
                        ..self
                    },
                )
            } else {
                Ok(self.with_content(ContentItemView::OutputText { text }))
            },
            AnthropicContentBlockView::Image { source } => match image_content(source) {
                Ok(image) => Ok(self.with_content(image)),
                Err(error) => Err(error),
            },
            AnthropicContentBlockView::ToolUse { id, name, input } => Ok(
                self.flushed(role).with_item(call_item(id, name, input)),
            ),
            AnthropicContentBlockView::ServerToolUse { id, name, input } => Ok(
                self.flushed(role).with_item(call_item(id, name, input)),
            ),
            AnthropicContentBlockView::ToolResult { tool_use_id, content, is_error } => {
                match tool_result(content) {
                    Err(error) => Err(error),
                    Ok((output, images)) => {
                        let answered = self.flushed(role).with_item(
                            ResponseItemView::FunctionCallOutput { call_id: tool_use_id, output },
                        );
                        Ok(
                            if images.len() > 0 {
                                answered.with_item(message_item("user"@, images))
                            } else {
                                answered
                            },
                        )
                    },
                }
            },
            AnthropicContentBlockView::WebSearchToolResult { tool_use_id, content } => Ok(
                self.flushed(role).with_item(
                    ResponseItemView::FunctionCallOutput { call_id: tool_use_id, output: content },
                ),
            ),
            AnthropicContentBlockView::Thinking { thinking, signature } => Ok(
                self.flushed(role).with_item(
                    ResponseItemView::Reasoning {
                        id: prefixed_id("rsn"@, fresh),
                        summary: Seq::empty(),
                        content: Some(
                            seq![ReasoningContentItemView::ReasoningText { text: thinking }],
                        ),
                        encrypted_content: provider_signature(signature),
                    },
                ),
            ),
            AnthropicContentBlockView::RedactedThinking { data } => Ok(self),
            AnthropicContentBlockView::Other(value) => Ok(
                self.with_content(ContentItemView::Other(value)),
            ),
        }
    }

    /// The message after its first `count` blocks.
    pub open spec fn after_all(
        self,
        role: Seq<char>,
        blocks: Seq<AnthropicContentBlockView>,
        fresh: Seq<Seq<char>>,
        count: int,
    ) -> Result<Unpacking, AppErrorView>
        decreases count,
    {
        if count <= 0 {
            Ok(self)
        } else {
            match self.after_all(role, blocks, fresh, count - 1) {
                Err(error) => Err(error),
                Ok(before) => before.after(role, blocks[count - 1], fresh[count - 1]),
            }
        }
    }
}

/// Whether a role gives instructions rather than says something.
pub open spec fn gives_instructions(role: Seq<char>) -> bool {
    role == "system"@ || role == "developer"@
}

/// The texts among the first `count` blocks, without the headers that clients inject.
pub open spec fn instruction_texts(blocks: Seq<AnthropicContentBlockView>, count: int) -> Seq<Seq<char>>
    decreases count,
{
    if count <= 0 {
        Seq::empty()
    } else {
        let before = instruction_texts(blocks, count - 1);
        match blocks[count - 1] {
            AnthropicContentBlockView::Text { text } => before.push(
                without_lines(text, InjectedLine::BillingHeader),
            ),
            _ => before,
        }
    }
}

/// The text of a message that gives instructions.
pub open spec fn instruction_text(content: AnthropicContentView) -> Seq<char> {
    match content {
        AnthropicContentView::Text(text) => without_lines(text, InjectedLine::BillingHeader),
        AnthropicContentView::Blocks(blocks) => joined(
            instruction_texts(blocks, blocks.len() as int),
            "\n"@,
        ),
    }
}

/// The items for a message that gives instructions: it stays where it is, as a message of the user
/// that is marked as private context.
pub open spec fn instruction_items(content: AnthropicContentView) -> Seq<ResponseItemView> {
    let text = trimmed(instruction_text(content));
    let label = if is_skill_listing(text) {
        "skill listing"@
    } else {
        "system message"@
    };
    if text.len() == 0 {
        Seq::empty()
    } else {
        seq![
            message_item(
                "user"@,
                seq![ContentItemView::InputText { text: wrapped_context(label, text) }],
            ),
        ]
    }
}

/// The items for a message.
pub open spec fn message_items(message: AnthropicMessageView, fresh: Seq<Seq<char>>) -> Result<
    Seq<ResponseItemView>,
    AppErrorView,
> {
    let role = message.role;
    if gives_instructions(role) {
        Ok(instruction_items(message.content))
    } else {
        match message.content {
            AnthropicContentView::Text(text) => if role == "user"@ {
                Ok(
                    user_texts(user_segments(text)).map_values(
                        |text: Seq<char>|
                            message_item(role, seq![ContentItemView::InputText { text }]),
                    ),
                )
            } else if text.len() > 0 {
                Ok(seq![message_item(role, seq![ContentItemView::OutputText { text }])])
            } else {
                Ok(Seq::empty())
            },
            AnthropicContentView::Blocks(blocks) => match (Unpacking {
                items: Seq::empty(),
                content: Seq::empty(),
            }).after_all(role, blocks, fresh, blocks.len() as int) {
                Ok(unpacked) => Ok(unpacked.flushed(role).items),
                Err(error) => Err(error),
            },
        }
    }
}

/// The items for the first `count` messages, or the error of the first that has one.
pub open spec fn conversation_items(
    messages: Seq<AnthropicMessageView>,
    fresh: Seq<Seq<Seq<char>>>,
    count: int,
) -> Result<Seq<ResponseItemView>, AppErrorView>
    decreases count,
{
    if count <= 0 {
        Ok(Seq::empty())
    } else {
        match conversation_items(messages, fresh, count - 1) {
            Err(error) => Err(error),
            Ok(before) => match message_items(messages[count - 1], fresh[count - 1]) {
                Err(error) => Err(error),
                Ok(items) => Ok(before + items),
            },
        }
    }
}

/// The blocks of a message.
pub open spec fn blocks_of(message: AnthropicMessageView) -> Seq<AnthropicContentBlockView> {
    match message.content {
        AnthropicContentView::Text(text) => Seq::empty(),
        AnthropicContentView::Blocks(blocks) => blocks,
    }
}

/// Whether `fresh` has a place for each block of each message.
pub open spec fn ids_cover(
    messages: Seq<AnthropicMessageView>,
    fresh: Seq<Seq<Seq<char>>>,
) -> bool {
    &&& fresh.len() == messages.len()
    &&& forall|m: int|
        0 <= m < messages.len() ==> (#[trigger] fresh[m]).len() == blocks_of(messages[m]).len()
}

/// Whether `fresh` has a fresh id for each block that is thinking.
pub open spec fn ids_are_fresh(
    messages: Seq<AnthropicMessageView>,
    fresh: Seq<Seq<Seq<char>>>,
) -> bool {
    forall|m: int, b: int|
        0 <= m < messages.len() && 0 <= b < blocks_of(messages[m]).len() && blocks_of(
            messages[m],
        )[b] is Thinking ==> is_simple_uuid(#[trigger] fresh[m][b])
}

fn make_message_item(role: &str, content: Vec<ContentItem>) -> (result: ResponseItem)
    ensures
        result.deep_view() == message_item(role@, content.deep_view()),
{
    ResponseItem::Message { id: None, role: role.to_string(), content, phase: None }
}

/// A message with a single text.
pub fn text_message_item(role: &str, text: &str) -> (result: ResponseItem)
    ensures
        result.deep_view() == message_item(role@, seq![text_item(role@, text@)]),
{
    let item = if same_text(role, "user") {
        ContentItem::InputText { text: text.to_string() }
    } else {
        ContentItem::OutputText { text: text.to_string() }
    };
    let content = vec![item];
    assert(content.deep_view() =~= seq![text_item(role@, text@)]);
    make_message_item(role, content)
}

/// The texts of a user message.
fn collect_user_texts(text: &str) -> (result: Vec<String>)
    ensures
        result.deep_view() == user_texts(user_segments(text@)),
{
    let segments = split_user_text_segments(text);
    let ghost models = segments.deep_view();
    let mut texts: Vec<String> = Vec::new();
    assert(texts.deep_view() =~= user_texts(models.take(0)));
    for index in 0..segments.len()
        invariant
            models == segments.deep_view(),
            texts.deep_view() == user_texts(models.take(index as int)),
    {
        let ghost before = texts.deep_view();
        proof {
            assert(models.take(index + 1).drop_last() =~= models.take(index as int));
            assert(models.take(index + 1).last() == segments@[index as int].deep_view());
        }
        match &segments[index] {
            UserTextSegment::Prompt(text) => {
                let prompt = strip_date_injection(text.as_str());
                if !prompt.is_empty() {
                    let ghost added = prompt@;
                    texts.push(prompt);
                    assert(texts.deep_view() =~= before.push(added));
                }
            },
            UserTextSegment::PrivateContext(text) => {
                texts.push(text.clone());
                assert(texts.deep_view() =~= before.push(text@));
            },
        }
    }
    assert(models.take(models.len() as int) =~= models);
    texts
}

fn flush_message(role: &str, items: &mut Vec<ResponseItem>, content: &mut Vec<ContentItem>)
    ensures
        (Unpacking { items: final(items).deep_view(), content: final(content).deep_view() }) == (
        Unpacking { items: old(items).deep_view(), content: old(content).deep_view() }).flushed(
            role@,
        ),
{
    if content.len() > 0 {
        let ghost before = items.deep_view();
        let mut gathered: Vec<ContentItem> = Vec::new();
        std::mem::swap(&mut gathered, content);
        assert(content.deep_view() =~= Seq::<ContentItemView>::empty());
        let item = make_message_item(role, gathered);
        let ghost added = item.deep_view();
        items.push(item);
        assert(items.deep_view() =~= before.push(added));
    }
}

fn push_item(items: &mut Vec<ResponseItem>, item: ResponseItem)
    ensures
        final(items).deep_view() == old(items).deep_view().push(item.deep_view()),
{
    let ghost before = items.deep_view();
    let ghost added = item.deep_view();
    items.push(item);
    assert(items.deep_view() =~= before.push(added));
}

fn push_content(content: &mut Vec<ContentItem>, item: ContentItem)
    ensures
        final(content).deep_view() == old(content).deep_view().push(item.deep_view()),
{
    let ghost before = content.deep_view();
    let ghost added = item.deep_view();
    content.push(item);
    assert(content.deep_view() =~= before.push(added));
}

/// Appends the call of a tool.
pub fn push_function_call(items: &mut Vec<ResponseItem>, call_id: &str, name: &str, input: &Json)
    ensures
        final(items).deep_view() == old(items).deep_view().push(
            call_item(call_id@, name@, input.deep_view()),
        ),
{
    push_item(
        items,
        ResponseItem::FunctionCall {
            id: None,
            name: name.to_string(),
            namespace: None,
            arguments: render_json(input),
            call_id: call_id.to_string(),
        },
    );
}

fn convert_block(
    role: &str,
    block: &AnthropicContentBlock,
    fresh: &str,
    items: &mut Vec<ResponseItem>,
    content: &mut Vec<ContentItem>,
) -> (result: AppResult<()>)
    ensures
        match (Unpacking {
            items: old(items).deep_view(),
            content: old(content).deep_view(),
        }).after(role@, block.deep_view(), fresh@) {
            Ok(after) => {
                &&& result is Ok
                &&& (Unpacking {
                    items: final(items).deep_view(),
                    content: final(content).deep_view(),
                }) == after
            },
            Err(error) => result matches Err(e) && e.deep_view() == error,
        },
{
    match block {
        AnthropicContentBlock::Text { text } => {
            if same_text(role, "user") {
                let texts = collect_user_texts(text.as_str());
                let ghost before = content.deep_view();
                let ghost added = texts.deep_view();
                for index in 0..texts.len()
                    invariant
                        added == texts.deep_view(),
                        content.deep_view() == before + added.take(index as int).map_values(
                            |text: Seq<char>| ContentItemView::InputText { text },
                        ),
                {
                    push_content(content, ContentItem::InputText { text: texts[index].clone() });
                    assert(content.deep_view() =~= before + added.take(index + 1).map_values(
                        |text: Seq<char>| ContentItemView::InputText { text },
                    ));
                }
                assert(added.take(added.len() as int) =~= added);
            } else {
                push_content(content, ContentItem::OutputText { text: text.clone() });
            }
        },
        AnthropicContentBlock::Image { source } => match image_source_to_content_item(source) {
            Ok(image) => push_content(content, image),
            Err(error) => {
                return Err(error);
            },
        },
        AnthropicContentBlock::ToolUse { id, name, input } => {
            flush_message(role, items, content);
            push_function_call(items, id.as_str(), name.as_str(), input);
        },
        AnthropicContentBlock::ServerToolUse { id, name, input } => {
            flush_message(role, items, content);
            push_function_call(items, id.as_str(), name.as_str(), input);
        },
        AnthropicContentBlock::ToolResult { tool_use_id, content: result_content, is_error: _ } => {
            flush_message(role, items, content);
            match extract_tool_result_parts(result_content) {
                Ok((output, images)) => {
                    push_item(
                        items,
                        ResponseItem::FunctionCallOutput { call_id: tool_use_id.clone(), output },
                    );
                    if images.len() > 0 {
                        push_item(items, make_message_item("user", images));
                    }
                },
                Err(error) => {
                    return Err(error);
                },
            }
        },
        AnthropicContentBlock::WebSearchToolResult { tool_use_id, content: results } => {
            flush_message(role, items, content);
            push_item(
                items,
                ResponseItem::FunctionCallOutput {
                    call_id: tool_use_id.clone(),
                    output: results.duplicate(),
                },
            );
        },
        AnthropicContentBlock::Thinking { thinking, signature } => {
            flush_message(role, items, content);
            let summary: Vec<ReasoningSummaryItem> = Vec::new();
            let text = vec![ReasoningContentItem::ReasoningText { text: thinking.clone() }];
            assert(summary.deep_view() =~= Seq::<ReasoningSummaryItemView>::empty());
            assert(text.deep_view() =~= seq![
                ReasoningContentItemView::ReasoningText { text: thinking@ },
            ]);
            let encrypted_content = keep_provider_signature(signature);
            push_item(
                items,
                ResponseItem::Reasoning {
                    id: item_id("rsn", fresh),
                    summary,
                    content: Some(text),
                    encrypted_content,
                },
            );
        },
        AnthropicContentBlock::RedactedThinking { .. } => {},
        AnthropicContentBlock::Other(value) => push_content(
            content,
            ContentItem::Other(value.duplicate()),
        ),
    }
    Ok(())
}

/// The items for a message that gives instructions.
pub fn emit_private_instruction_content(content: &AnthropicContent) -> (result: Vec<ResponseItem>)
    ensures
        result.deep_view() == instruction_items(content.deep_view()),
{
    broadcast use lemma_blocks_model;

    let text = match content {
        AnthropicContent::Text(text) => strip_billing_nonce(text.as_str()),
        AnthropicContent::Blocks(blocks) => {
            let ghost models = blocks.deep_view();
            let mut texts: Vec<String> = Vec::new();
            assert(texts.deep_view() =~= Seq::<Seq<char>>::empty());
            for index in 0..blocks.len()
                invariant
                    models == blocks.deep_view(),
                    texts.deep_view() == instruction_texts(models, index as int),
            {
                let ghost before = texts.deep_view();
                assert(models[index as int] == blocks@[index as int].deep_view());
                match &blocks[index] {
                    AnthropicContentBlock::Text { text } => {
                        let stripped = strip_billing_nonce(text.as_str());
                        let ghost added = stripped@;
                        texts.push(stripped);
                        assert(texts.deep_view() =~= before.push(added));
                    },
                    _ => {},
                }
            }
            join(&texts, "\n")
        },
    };
    let text = text.as_str().trim();
    let mut items: Vec<ResponseItem> = Vec::new();
    assert(items.deep_view() =~= Seq::<ResponseItemView>::empty());
    if text.is_empty() {
        return items;
    }
    let label = if looks_like_claude_code_skill_listing(text) {
        "skill listing"
    } else {
        "system message"
    };
    items.push(text_message_item("user", wrap_private_context(label, text).as_str()));
    assert(items.deep_view() =~= instruction_items(content.deep_view()));
    items
}

/// Whether a role gives instructions rather than says something.
pub fn is_private_instruction_role(role: &str) -> (result: bool)
    ensures
        result == gives_instructions(role@),
{
    same_text(role, "system") || same_text(role, "developer")
}

proof fn lemma_unpacking_error_stays(
    start: Unpacking,
    role: Seq<char>,
    blocks: Seq<AnthropicContentBlockView>,
    fresh: Seq<Seq<char>>,
    count: int,
    upto: int,
)
    requires
        0 <= upto <= count,
        start.after_all(role, blocks, fresh, upto) is Err,
    ensures
        start.after_all(role, blocks, fresh, count) == start.after_all(role, blocks, fresh, upto),
    decreases count,
{
    if upto < count {
        lemma_unpacking_error_stays(start, role, blocks, fresh, count - 1, upto);
    }
}

/// The items for a message. Thinking blocks get their ids from `fresh`.
pub fn convert_message(message: &AnthropicMessage, fresh: &Vec<String>) -> (result: AppResult<
    Vec<ResponseItem>,
>)
    requires
        fresh@.len() == blocks_of(message.deep_view()).len(),
    ensures
        outcome(result) == message_items(message.deep_view(), fresh.deep_view()),
{
    broadcast use lemma_blocks_model;

    let role = message.role.as_str();
    if is_private_instruction_role(role) {
        return Ok(emit_private_instruction_content(&message.content));
    }
    let mut items: Vec<ResponseItem> = Vec::new();
    assert(items.deep_view() =~= Seq::<ResponseItemView>::empty());
    match &message.content {
        AnthropicContent::Text(text) => {
            if same_text(role, "user") {
                let texts = collect_user_texts(text.as_str());
                let ghost given = texts.deep_view();
                for index in 0..texts.len()
                    invariant
                        given == texts.deep_view(),
                        role@ == "user"@,
                        items.deep_view() == given.take(index as int).map_values(
                            |text: Seq<char>|
                                message_item(role@, seq![ContentItemView::InputText { text }]),
                        ),
                {
                    push_item(&mut items, text_message_item(role, texts[index].as_str()));
                    assert(items.deep_view() =~= given.take(index + 1).map_values(
                        |text: Seq<char>|
                            message_item(role@, seq![ContentItemView::InputText { text }]),
                    ));
                }
                assert(given.take(given.len() as int) =~= given);
            } else if !text.is_empty() {
                push_item(&mut items, text_message_item(role, text.as_str()));
                assert(items.deep_view() =~= seq![
                    message_item(role@, seq![ContentItemView::OutputText { text: text@ }]),
                ]);
            }
        },
        AnthropicContent::Blocks(blocks) => {
            let ghost models = blocks.deep_view();
            let ghost ids = fresh.deep_view();
            let ghost start = Unpacking { items: Seq::empty(), content: Seq::empty() };
            let mut content: Vec<ContentItem> = Vec::new();
            assert(content.deep_view() =~= Seq::<ContentItemView>::empty());
            for index in 0..blocks.len()
                invariant
                    models == blocks.deep_view(),
                    ids == fresh.deep_view(),
                    ids.len() == models.len(),
                    start == (Unpacking { items: Seq::empty(), content: Seq::empty() }),
                    message.deep_view().content == AnthropicContentView::Blocks(models),
                    message.deep_view().role == role@,
                    !gives_instructions(role@),
                    start.after_all(role@, models, ids, index as int) == Ok::<
                        Unpacking,
                        AppErrorView,
                    >(Unpacking { items: items.deep_view(), content: content.deep_view() }),
            {
                assert(models[index as int] == blocks@[index as int].deep_view());
                assert(ids[index as int] == fresh@[index as int]@);
                match convert_block(
                    role,
                    &blocks[index],
                    fresh[index].as_str(),
                    &mut items,
                    &mut content,
                ) {
                    Ok(()) => {},
                    Err(error) => {
                        proof {
                            lemma_unpacking_error_stays(
                                start,
                                role@,
                                models,
                                ids,
                                models.len() as int,
                                index + 1,
                            );
                        }
                        return Err(error);
                    },
                }
            }
            flush_message(role, &mut items, &mut content);
        },
    }
    Ok(items)
}

proof fn lemma_conversation_error_stays(
    messages: Seq<AnthropicMessageView>,
    fresh: Seq<Seq<Seq<char>>>,
    count: int,
    upto: int,
)
    requires
        0 <= upto <= count,
        conversation_items(messages, fresh, upto) is Err,
    ensures
        conversation_items(messages, fresh, count) == conversation_items(messages, fresh, upto),
    decreases count,
{
    if upto < count {
        lemma_conversation_error_stays(messages, fresh, count - 1, upto);
    }
}

/// The items for a conversation.
pub fn convert_messages(messages: &Vec<AnthropicMessage>, fresh: &Vec<Vec<String>>) -> (result:
    AppResult<Vec<ResponseItem>>)
    requires
        ids_cover(messages.deep_view(), fresh.deep_view()),
    ensures
        outcome(result) == conversation_items(
            messages.deep_view(),
            fresh.deep_view(),
            messages@.len() as int,
        ),
{
    let ghost models = messages.deep_view();
    let ghost ids = fresh.deep_view();
    let mut items: Vec<ResponseItem> = Vec::new();
    assert(items.deep_view() =~= Seq::<ResponseItemView>::empty());
    for index in 0..messages.len()
        invariant
            models == messages.deep_view(),
            ids == fresh.deep_view(),
            ids_cover(models, ids),
            conversation_items(models, ids, index as int) == Ok::<
                Seq<ResponseItemView>,
                AppErrorView,
            >(items.deep_view()),
    {
        let ghost before = items.deep_view();
        assert(models[index as int] == messages@[index as int].deep_view());
        assert(ids[index as int] == fresh@[index as int].deep_view());
        match convert_message(&messages[index], &fresh[index]) {
            Ok(mut added) => {
                let ghost extra = added.deep_view();
                items.append(&mut added);
                assert(items.deep_view() =~= before + extra);
            },
            Err(error) => {
                proof {
                    lemma_conversation_error_stays(
                        models,
                        ids,
                        models.len() as int,
                        index + 1,
                    );
                }
                return Err(error);
            },
        }
    }
    Ok(items)
}

// ---------------------------------------------------------------------------------------------
// The parts of a request
// ---------------------------------------------------------------------------------------------

/// What an output configuration asks for.
pub struct ConvertedOutputConfig {
    pub text: Option<TextControls>,
    pub reasoning_effort: Option<String>,
}

/// The model of [`ConvertedOutputConfig`].
pub struct ConvertedOutputConfigView {
    pub text: Option<TextControlsView>,
    pub reasoning_effort: Option<Seq<char>>,
}

impl DeepView for ConvertedOutputConfig {
    type V = ConvertedOutputConfigView;

    open spec fn deep_view(&self) -> ConvertedOutputConfigView {
        ConvertedOutputConfigView {
            text: self.text.deep_view(),
            reasoning_effort: self.reasoning_effort.deep_view(),
        }
    }
}

/// The effort that an output configuration asks for.
pub open spec fn config_effort(effort: Option<JsonView>) -> Result<Option<Seq<char>>, AppErrorView> {
    match effort {
        None => Ok(None),
        Some(JsonView::Null) => Ok(None),
        Some(JsonView::Text(effort)) => Ok(upstream_effort(effort)),
        Some(_) => Err(bad_request("Anthropic output_config.effort must be a string"@)),
    }
}

/// The format that an output configuration asks for.
pub open spec fn config_format(format: Option<JsonView>) -> Result<
    Option<TextControlsView>,
    AppErrorView,
> {
    match format {
        None => Ok(None),
        Some(JsonView::Null) => Ok(None),
        Some(JsonView::Object(fields)) => {
            let object = JsonView::Object(fields);
            match object.get_str("type"@) {
                None => Err(bad_request("Anthropic output_config.format is missing type"@)),
                Some(kind) => if kind != "json_schema"@ {
                    Err(
                        bad_request(
                            "Anthropic output_config.format type \""@ + kind
                                + "\" is not supported by this gateway"@,
                        ),
                    )
                } else {
                    match object.get("schema"@) {
                        None => Err(
                            bad_request(
                                "Anthropic output_config.format json_schema is missing schema"@,
                            ),
                        ),
                        Some(schema) => Ok(
                            Some(
                                TextControlsView {
                                    verbosity: None,
                                    format: Some(
                                        TextFormatView {
                                            kind: "json_schema"@,
                                            strict: !(object.get("strict"@) == Some(
                                                JsonView::Bool(false),
                                            )),
                                            schema,
                                            name: match object.get_str("name"@) {
                                                Some(name) => if trimmed(name).len() > 0 {
                                                    name
                                                } else {
                                                    "response"@
                                                },
                                                None => "response"@,
                                            },
                                        },
                                    ),
                                },
                            ),
                        ),
                    }
                },
            }
        },
        Some(_) => Err(bad_request("Anthropic output_config.format must be a JSON object"@)),
    }
}

/// What an output configuration asks for, or why it makes no sense.
pub open spec fn output_config(config: Option<JsonView>) -> Result<
    ConvertedOutputConfigView,
    AppErrorView,
> {
    match config {
        None => Ok(ConvertedOutputConfigView { text: None, reasoning_effort: None }),
        Some(JsonView::Object(fields)) => {
            let object = JsonView::Object(fields);
            match config_effort(object.get("effort"@)) {
                Err(error) => Err(error),
                Ok(reasoning_effort) => match config_format(object.get("format"@)) {
                    Err(error) => Err(error),
                    Ok(text) => Ok(ConvertedOutputConfigView { text, reasoning_effort }),
                },
            }
        },
        Some(_) => Err(bad_request("Anthropic output_config must be a JSON object"@)),
    }
}

/// The effort that an output configuration asks for.
pub fn convert_output_config_effort(effort: Option<&Json>) -> (result: AppResult<Option<String>>)
    ensures
        outcome(result) == config_effort(effort.deep_view()),
{
    match effort {
        None => Ok(None),
        Some(Json::Null) => Ok(None),
        Some(Json::Text(effort)) => Ok(normalize_reasoning_effort(effort.as_str())),
        Some(_) => Err(
            AppError::bad_request("Anthropic output_config.effort must be a string".to_string()),
        ),
    }
}

fn convert_output_format(format: Option<&Json>) -> (result: AppResult<Option<TextControls>>)
    ensures
        outcome(result) == config_format(format.deep_view()),
{
    let object = match format {
        None => {
            return Ok(None);
        },
        Some(Json::Null) => {
            return Ok(None);
        },
        Some(value) => value,
    };
    if !matches!(object, Json::Object(_)) {
        return Err(
            AppError::bad_request(
                "Anthropic output_config.format must be a JSON object".to_string(),
            ),
        );
    }
    let kind = match object.get_str("type") {
        Some(kind) => kind,
        None => {
            return Err(
                AppError::bad_request("Anthropic output_config.format is missing type".to_string()),
            );
        },
    };
    if !same_text(kind, "json_schema") {
        let mut message = "Anthropic output_config.format type \"".to_string();
        message.push_str(kind);
        message.push_str("\" is not supported by this gateway");
        return Err(AppError::bad_request(message));
    }
    let schema = match object.get("schema") {
        Some(schema) => schema.duplicate(),
        None => {
            return Err(
                AppError::bad_request(
                    "Anthropic output_config.format json_schema is missing schema".to_string(),
                ),
            );
        },
    };
    let name = match object.get_str("name") {
        Some(name) => if name.trim().is_empty() {
            "response".to_string()
        } else {
            name.to_string()
        },
        None => "response".to_string(),
    };
    let strict = match object.get("strict") {
        Some(Json::Bool(strict)) => *strict,
        _ => true,
    };
    Ok(
        Some(
            TextControls {
                verbosity: None,
                format: Some(TextFormat { kind: "json_schema".to_string(), strict, schema, name }),
            },
        ),
    )
}

/// What an output configuration asks for.
pub fn convert_output_config(config: &Option<Json>) -> (result: AppResult<ConvertedOutputConfig>)
    ensures
        outcome(result) == output_config(config.deep_view()),
{
    let object = match config {
        None => {
            return Ok(ConvertedOutputConfig { text: None, reasoning_effort: None });
        },
        Some(value) => value,
    };
    if !matches!(object, Json::Object(_)) {
        return Err(
            AppError::bad_request("Anthropic output_config must be a JSON object".to_string()),
        );
    }
    let reasoning_effort = match convert_output_config_effort(object.get("effort")) {
        Ok(effort) => effort,
        Err(error) => {
            return Err(error);
        },
    };
    match convert_output_format(object.get("format")) {
        Ok(text) => Ok(ConvertedOutputConfig { text, reasoning_effort }),
        Err(error) => Err(error),
    }
}

/// The reasoning of a request whose output configuration may name an effort of its own.
pub open spec fn with_config_effort(
    reasoning: Option<ReasoningRequestView>,
    effort: Option<Seq<char>>,
) -> Option<ReasoningRequestView> {
    match effort {
        None => reasoning,
        Some(effort) => Some(
            ReasoningRequestView {
                effort: Some(effort),
                summary: match reasoning {
                    Some(reasoning) => reasoning.summary,
                    None => None,
                },
            },
        ),
    }
}

/// The reasoning of a request whose output configuration may name an effort of its own.
pub fn apply_output_config_effort(
    reasoning: Option<ReasoningRequest>,
    effort: Option<String>,
) -> (result: Option<ReasoningRequest>)
    ensures
        result.deep_view() == with_config_effort(reasoning.deep_view(), effort.deep_view()),
{
    match (reasoning, effort) {
        (Some(reasoning), Some(effort)) => Some(
            ReasoningRequest { effort: Some(effort), summary: reasoning.summary },
        ),
        (None, Some(effort)) => Some(ReasoningRequest { effort: Some(effort), summary: None }),
        (reasoning, None) => reasoning,
    }
}

/// The effort that a budget of thinking tokens stands for.
pub open spec fn budget_effort(budget: u64) -> Seq<char> {
    if budget <= 5000 {
        "low"@
    } else if budget <= 20000 {
        "medium"@
    } else {
        "high"@
    }
}

/// The effort that a budget of thinking tokens stands for.
pub fn thinking_effort_for_budget(budget: u64) -> (result: String)
    ensures
        result@ == budget_effort(budget),
{
    if budget <= 5_000 {
        "low".to_string()
    } else if budget <= 20_000 {
        "medium".to_string()
    } else {
        "high".to_string()
    }
}

/// The reasoning that a request asks for.
pub open spec fn thinking_request(thinking: Option<AnthropicThinkingView>) -> Option<
    ReasoningRequestView,
> {
    match thinking {
        None => None,
        Some(AnthropicThinkingView::Disabled) => None,
        Some(AnthropicThinkingView::Adaptive { budget_tokens }) => Some(
            ReasoningRequestView { effort: None, summary: None },
        ),
        Some(AnthropicThinkingView::Enabled { budget_tokens }) => Some(
            ReasoningRequestView {
                effort: Some(
                    budget_effort(
                        match budget_tokens {
                            Some(budget) => budget,
                            None => 10000,
                        },
                    ),
                ),
                summary: None,
            },
        ),
    }
}

/// The reasoning that a request asks for.
pub fn convert_thinking(thinking: &Option<AnthropicThinking>) -> (result: Option<ReasoningRequest>)
    ensures
        result.deep_view() == thinking_request(thinking.deep_view()),
{
    match thinking {
        None => None,
        Some(AnthropicThinking::Disabled) => None,
        Some(AnthropicThinking::Adaptive { .. }) => Some(
            ReasoningRequest { effort: None, summary: None },
        ),
        Some(AnthropicThinking::Enabled { budget_tokens }) => {
            let budget: u64 = match budget_tokens {
                Some(budget) => *budget,
                None => 10_000,
            };
            Some(
                ReasoningRequest {
                    effort: Some(thinking_effort_for_budget(budget)),
                    summary: None,
                },
            )
        },
    }
}

/// The text of a system prompt, without the headers that clients inject.
pub open spec fn system_text(system: Option<AnthropicSystemContentView>) -> Seq<char> {
    match system {
        None => Seq::empty(),
        Some(AnthropicSystemContentView::Text(text)) => without_lines(
            text,
            InjectedLine::BillingHeader,
        ),
        Some(AnthropicSystemContentView::Blocks(blocks)) => joined(
            blocks.map_values(
                |block: AnthropicTextBlockView|
                    without_lines(block->text, InjectedLine::BillingHeader),
            ),
            "\n"@,
        ),
    }
}

/// The text of a system prompt, without the headers that clients inject.
pub fn extract_system_text(system: &Option<AnthropicSystemContent>) -> (result: String)
    ensures
        result@ == system_text(system.deep_view()),
{
    match system {
        None => String::new(),
        Some(AnthropicSystemContent::Text(text)) => strip_billing_nonce(text.as_str()),
        Some(AnthropicSystemContent::Blocks(blocks)) => {
            let mut texts: Vec<String> = Vec::new();
            for index in 0..blocks.len()
                invariant
                    texts@.len() == index,
                    forall|k: int|
                        0 <= k < index ==> #[trigger] texts@[k]@ == without_lines(
                            blocks@[k].deep_view()->text,
                            InjectedLine::BillingHeader,
                        ),
            {
                let AnthropicTextBlock::Text { text } = &blocks[index];
                texts.push(strip_billing_nonce(text.as_str()));
            }
            assert(texts.deep_view() =~= blocks.deep_view().map_values(
                |block: AnthropicTextBlockView|
                    without_lines(block->text, InjectedLine::BillingHeader),
            ));
            join(&texts, "\n")
        },
    }
}

/// A tool choice in the words of the Responses API.
pub open spec fn tool_choice(choice: Option<AnthropicToolChoiceView>) -> JsonView {
    match choice {
        None => JsonView::Text("auto"@),
        Some(AnthropicToolChoiceView::Auto) => JsonView::Text("auto"@),
        Some(AnthropicToolChoiceView::Any) => JsonView::Text("required"@),
        Some(AnthropicToolChoiceView::NoTool) => JsonView::Text("none"@),
        Some(AnthropicToolChoiceView::Tool { name }) => JsonView::Object(
            map![
                "type"@ => JsonView::Text("function"@),
                "function"@ => JsonView::Object(map!["name"@ => JsonView::Text(name)]),
            ],
        ),
    }
}

/// A tool choice in the words of the Responses API.
pub fn convert_tool_choice(choice: &Option<AnthropicToolChoice>) -> (result: Json)
    ensures
        result.deep_view() == tool_choice(choice.deep_view()),
{
    match choice {
        None => json_text("auto"),
        Some(AnthropicToolChoice::Auto) => json_text("auto"),
        Some(AnthropicToolChoice::Any) => json_text("required"),
        Some(AnthropicToolChoice::NoTool) => json_text("none"),
        Some(AnthropicToolChoice::Tool { name }) => json_object2(
            "type",
            json_text("function"),
            "function",
            json_object1("name", Json::Text(name.clone())),
        ),
    }
}

/// The metadata of a request, which has to be an object.
pub open spec fn request_metadata(metadata: Option<JsonView>) -> Result<
    Option<Map<Seq<char>, JsonView>>,
    AppErrorView,
> {
    match metadata {
        None => Ok(None),
        Some(JsonView::Object(map)) => Ok(Some(map)),
        Some(_) => Err(bad_request("Anthropic metadata must be a JSON object"@)),
    }
}

/// The metadata of a request, which has to be an object.
pub fn convert_metadata(metadata: Option<Json>) -> (result: AppResult<Option<JsonMap>>)
    ensures
        match result {
            Ok(map) => request_metadata(metadata.deep_view()) == Ok::<
                Option<Map<Seq<char>, JsonView>>,
                AppErrorView,
            >(optional_map(map)),
            Err(error) => request_metadata(metadata.deep_view()) == Err::<
                Option<Map<Seq<char>, JsonView>>,
                AppErrorView,
            >(error.deep_view()),
        },
{
    broadcast use crate::json::lemma_object_model;

    match metadata {
        None => Ok(None),
        Some(Json::Object(map)) => Ok(Some(map)),
        Some(_) => Err(
            AppError::bad_request("Anthropic metadata must be a JSON object".to_string()),
        ),
    }
}

impl Named for AnthropicTool {
    open spec fn name_of(model: AnthropicToolView) -> Seq<char> {
        model.name
    }

    fn name(&self) -> (result: &str) {
        self.name.as_str()
    }
}

/// A tool in the words of the Responses API. The search tool runs on the server.
pub open spec fn tool_spec(tool: AnthropicToolView) -> ToolSpecView {
    if tool.name == "web_search"@ {
        ToolSpecView::WebSearch {
            external_web_access: None,
            filters: None,
            user_location: None,
            search_context_size: None,
            search_content_types: None,
        }
    } else {
        ToolSpecView::Function {
            name: tool.name,
            description: match tool.description {
                Some(description) => description,
                None => Seq::empty(),
            },
            strict: false,
            parameters: tool.input_schema,
        }
    }
}

/// The tools of a request, in the order of their names.
pub open spec fn tool_specs(tools: Option<Seq<AnthropicToolView>>) -> Seq<ToolSpecView> {
    match tools {
        None => Seq::empty(),
        Some(tools) => sorted_by_name::<AnthropicTool>(tools).map_values(
            |tool: AnthropicToolView| tool_spec(tool),
        ),
    }
}

fn convert_tool(tool: AnthropicTool) -> (result: ToolSpec)
    ensures
        result.deep_view() == tool_spec(tool.deep_view()),
{
    if same_text(tool.name.as_str(), "web_search") {
        ToolSpec::WebSearch {
            external_web_access: None,
            filters: None,
            user_location: None,
            search_context_size: None,
            search_content_types: None,
        }
    } else {
        let description = match tool.description {
            Some(description) => description,
            None => String::new(),
        };
        ToolSpec::Function {
            name: tool.name,
            description,
            strict: false,
            parameters: tool.input_schema,
        }
    }
}

/// The tools of a request, in the order of their names.
pub fn convert_tools(tools: &Option<Vec<AnthropicTool>>) -> (result: Vec<ToolSpec>)
    ensures
        result.deep_view() == tool_specs(tools.deep_view()),
{
    let mut result: Vec<ToolSpec> = Vec::new();
    match tools {
        None => {
            assert(result.deep_view() =~= Seq::<ToolSpecView>::empty());
        },
        Some(tools) => {
            let sorted = sort_by_name(tools.duplicate());
            let ghost given = sorted@;
            let ghost models = sorted.deep_view();
            for tool in iter: sorted
                invariant
                    iter.seq() == given,
                    result@.len() == iter.index(),
                    forall|k: int|
                        0 <= k < result@.len() ==> #[trigger] result@[k].deep_view() == tool_spec(
                            given[k].deep_view(),
                        ),
            {
                result.push(convert_tool(tool));
            }
            assert(result.deep_view() =~= models.map_values(
                |tool: AnthropicToolView| tool_spec(tool),
            ));
        },
    }
    result
}

// ---------------------------------------------------------------------------------------------
// The whole request
// ---------------------------------------------------------------------------------------------

/// The fields that are passed on as they are.
pub open spec fn extra_fields(stop_sequences: Option<Seq<Seq<char>>>) -> Map<Seq<char>, JsonView> {
    match stop_sequences {
        Some(sequences) => if sequences.len() > 0 {
            map!["stop"@ => text_array(sequences)]
        } else {
            Map::empty()
        },
        None => Map::empty(),
    }
}

/// The limit on the output, which has to fit a signed number.
pub open spec fn output_limit(max_tokens: Option<u64>) -> Result<Option<i64>, AppErrorView> {
    match max_tokens {
        None => Ok(None),
        Some(limit) => if limit <= i64::MAX {
            Ok(Some(limit as i64))
        } else {
            Err(bad_request("Anthropic max_tokens exceeds supported range"@))
        },
    }
}

/// A request of the Messages API as a request of the Responses API.
pub open spec fn converted_request(
    request: AnthropicRequestView,
    fresh: Seq<Seq<Seq<char>>>,
) -> Result<ResponsesRequestView, AppErrorView> {
    if request.top_k is Some {
        Err(bad_request("Anthropic top_k is not supported by this gateway"@))
    } else {
        match conversation_items(request.messages, fresh, request.messages.len() as int) {
            Err(error) => Err(error),
            Ok(input) => match request_metadata(request.metadata) {
                Err(error) => Err(error),
                Ok(metadata) => match output_config(request.output_config) {
                    Err(error) => Err(error),
                    Ok(config) => match output_limit(request.max_tokens) {
                        Err(error) => Err(error),
                        Ok(max_output_tokens) => Ok(
                            ResponsesRequestView {
                                model: request.model,
                                instructions: trimmed(system_text(request.system)),
                                input,
                                tools: tool_specs(request.tools),
                                tool_choice: tool_choice(request.tool_choice),
                                parallel_tool_calls: false,
                                reasoning: with_config_effort(
                                    thinking_request(request.thinking),
                                    config.reasoning_effort,
                                ),
                                store: false,
                                stream: true,
                                included: Seq::empty(),
                                service_tier: None,
                                prompt_cache_key: None,
                                text: config.text,
                                client_metadata: None,
                                previous_response_id: None,
                                temperature: request.temperature,
                                top_p: request.top_p,
                                max_output_tokens,
                                frequency_penalty: None,
                                presence_penalty: None,
                                truncation: None,
                                metadata,
                                stop: None,
                                extra_body: extra_fields(request.stop_sequences),
                            },
                        ),
                    },
                },
            },
        }
    }
}

/// An id for each block of a message that is thinking, and nothing for the others.
fn thinking_ids(message: &AnthropicMessage) -> (result: Vec<String>)
    ensures
        result@.len() == blocks_of(message.deep_view()).len(),
        forall|b: int|
            0 <= b < result@.len() && blocks_of(message.deep_view())[b] is Thinking
                ==> is_simple_uuid(#[trigger] result.deep_view()[b]),
{
    broadcast use lemma_blocks_model;

    let mut ids: Vec<String> = Vec::new();
    if let AnthropicContent::Blocks(blocks) = &message.content {
        let ghost models = blocks.deep_view();
        for index in 0..blocks.len()
            invariant
                models == blocks.deep_view(),
                ids@.len() == index,
                forall|b: int|
                    0 <= b < index && models[b] is Thinking ==> is_simple_uuid(
                        #[trigger] ids@[b]@,
                    ),
        {
            assert(models[index as int] == blocks@[index as int].deep_view());
            if matches!(&blocks[index], AnthropicContentBlock::Thinking { .. }) {
                ids.push(fresh_id());
            } else {
                ids.push(String::new());
            }
        }
        assert forall|b: int| 0 <= b < ids@.len() && models[b] is Thinking implies is_simple_uuid(
            #[trigger] ids.deep_view()[b],
        ) by {
            assert(is_simple_uuid(ids@[b]@));
        }
    }
    ids
}

/// Converts a request. Thinking blocks get their ids from `fresh`.
pub fn convert_request_with_ids(request: AnthropicRequest, fresh: &Vec<Vec<String>>) -> (result:
    AppResult<ResponsesRequest>)
    requires
        ids_cover(request.deep_view().messages, fresh.deep_view()),
    ensures
        outcome(result) == converted_request(request.deep_view(), fresh.deep_view()),
{
    if request.top_k.is_some() {
        return Err(
            AppError::bad_request("Anthropic top_k is not supported by this gateway".to_string()),
        );
    }
    let input = match convert_messages(&request.messages, fresh) {
        Ok(input) => input,
        Err(error) => {
            return Err(error);
        },
    };
    let system = extract_system_text(&request.system);
    let instructions = system.as_str().trim().to_string();
    let tools = convert_tools(&request.tools);
    let reasoning = convert_thinking(&request.thinking);
    let mut extra_body: JsonMap = Vec::new();
    if let Some(sequences) = &request.stop_sequences {
        if sequences.len() > 0 {
            set_entry(&mut extra_body, "stop".to_string(), json_text_array(sequences));
        }
    }
    let tool_choice = convert_tool_choice(&request.tool_choice);
    let metadata = match convert_metadata(request.metadata) {
        Ok(metadata) => metadata,
        Err(error) => {
            return Err(error);
        },
    };
    let config = match convert_output_config(&request.output_config) {
        Ok(config) => config,
        Err(error) => {
            return Err(error);
        },
    };
    let reasoning = apply_output_config_effort(reasoning, config.reasoning_effort);
    let max_output_tokens = match request.max_tokens {
        None => None,
        Some(limit) => if limit <= i64::MAX as u64 {
            Some(limit as i64)
        } else {
            return Err(
                AppError::bad_request("Anthropic max_tokens exceeds supported range".to_string()),
            );
        },
    };
    let included: Vec<String> = Vec::new();
    assert(included.deep_view() =~= Seq::<Seq<char>>::empty());
    Ok(
        ResponsesRequest {
            model: request.model,
            instructions,
            input,
            tools,
            tool_choice,
            parallel_tool_calls: false,
            reasoning,
            store: false,
            stream: true,
            included,
            service_tier: None,
            prompt_cache_key: None,
            text: config.text,
            client_metadata: None,
            previous_response_id: None,
            temperature: request.temperature,
            top_p: request.top_p,
            max_output_tokens,
            frequency_penalty: None,
            presence_penalty: None,
            truncation: None,
            metadata,
            stop: None,
            extra_body,
        },
    )
}

/// Converts a request.
pub fn convert_request(request: AnthropicRequest) -> (result: AppResult<ResponsesRequest>)
    ensures
        exists|fresh: Seq<Seq<Seq<char>>>|
            #![trigger ids_cover(request.deep_view().messages, fresh)]
            {
                &&& ids_cover(request.deep_view().messages, fresh)
                &&& ids_are_fresh(request.deep_view().messages, fresh)
                &&& outcome(result) == converted_request(request.deep_view(), fresh)
            },
{
    let ghost models = request.messages.deep_view();
    let mut fresh: Vec<Vec<String>> = Vec::new();
    for index in 0..request.messages.len()
        invariant
            models == request.messages.deep_view(),
            fresh@.len() == index,
            forall|m: int|
                0 <= m < index ==> (#[trigger] fresh@[m]).deep_view().len() == blocks_of(
                    models[m],
                ).len(),
            forall|m: int, b: int|
                0 <= m < index && 0 <= b < blocks_of(models[m]).len() && blocks_of(models[m])[b] is Thinking
                    ==> is_simple_uuid(#[trigger] fresh@[m].deep_view()[b]),
    {
        assert(models[index as int] == request.messages@[index as int].deep_view());
        fresh.push(thinking_ids(&request.messages[index]));
    }
    proof {
        let ids = fresh.deep_view();
        assert forall|m: int| 0 <= m < models.len() implies (#[trigger] ids[m]).len() == blocks_of(
            models[m],
        ).len() by {
            assert(ids[m] == fresh@[m].deep_view());
        }
        assert forall|m: int, b: int|
            0 <= m < models.len() && 0 <= b < blocks_of(models[m]).len() && blocks_of(
                models[m],
            )[b] is Thinking implies is_simple_uuid(#[trigger] ids[m][b]) by {
            assert(is_simple_uuid(fresh@[m].deep_view()[b]));
        }
    }
    convert_request_with_ids(request, &fresh)
}

// ---------------------------------------------------------------------------------------------
// Laws
// ---------------------------------------------------------------------------------------------

proof fn lemma_earlier_items(
    messages: Seq<AnthropicMessageView>,
    fresh: Seq<Seq<Seq<char>>>,
    more: Seq<AnthropicMessageView>,
    more_fresh: Seq<Seq<Seq<char>>>,
    count: int,
)
    requires
        fresh.len() == messages.len(),
        0 <= count <= messages.len(),
    ensures
        conversation_items(messages + more, fresh + more_fresh, count) == conversation_items(
            messages,
            fresh,
            count,
        ),
    decreases count,
{
    if count > 0 {
        lemma_earlier_items(messages, fresh, more, more_fresh, count - 1);
    }
}

proof fn lemma_items_grow(
    messages: Seq<AnthropicMessageView>,
    fresh: Seq<Seq<Seq<char>>>,
    from: int,
    count: int,
)
    requires
        0 <= from <= count,
        conversation_items(messages, fresh, count) is Ok,
    ensures
        conversation_items(messages, fresh, from) is Ok,
        conversation_items(messages, fresh, from)->Ok_0.is_prefix_of(
            conversation_items(messages, fresh, count)->Ok_0,
        ),
    decreases count,
{
    if from < count {
        lemma_items_grow(messages, fresh, from, count - 1);
        let shorter = conversation_items(messages, fresh, from)->Ok_0;
        let before = conversation_items(messages, fresh, count - 1)->Ok_0;
        let after = conversation_items(messages, fresh, count)->Ok_0;
        assert(shorter =~= after.take(shorter.len() as int));
    }
}

/// A conversation only grows at its end: what earlier messages turned into stays in front, item by
/// item, whatever messages follow.
pub proof fn law_conversation_grows_at_its_end(
    messages: Seq<AnthropicMessageView>,
    fresh: Seq<Seq<Seq<char>>>,
    more: Seq<AnthropicMessageView>,
    more_fresh: Seq<Seq<Seq<char>>>,
)
    requires
        ids_cover(messages, fresh),
        ids_cover(more, more_fresh),
        conversation_items(
            messages + more,
            fresh + more_fresh,
            (messages + more).len() as int,
        ) is Ok,
    ensures
        conversation_items(messages, fresh, messages.len() as int) is Ok,
        conversation_items(messages, fresh, messages.len() as int)->Ok_0.is_prefix_of(
            conversation_items(
                messages + more,
                fresh + more_fresh,
                (messages + more).len() as int,
            )->Ok_0,
        ),
{
    lemma_items_grow(
        messages + more,
        fresh + more_fresh,
        messages.len() as int,
        (messages + more).len() as int,
    );
    lemma_earlier_items(messages, fresh, more, more_fresh, messages.len() as int);
}

/// The instructions come from the system prompt alone: messages that give instructions stay in the
/// conversation.
pub proof fn law_instructions_come_from_the_system_prompt(
    one: AnthropicRequestView,
    other: AnthropicRequestView,
    one_fresh: Seq<Seq<Seq<char>>>,
    other_fresh: Seq<Seq<Seq<char>>>,
)
    requires
        one.system == other.system,
        converted_request(one, one_fresh) is Ok,
        converted_request(other, other_fresh) is Ok,
    ensures
        converted_request(one, one_fresh)->Ok_0.instructions == converted_request(
            other,
            other_fresh,
        )->Ok_0.instructions,
{
}

} // verus!
