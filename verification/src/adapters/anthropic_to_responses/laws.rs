//! What a request of the Messages API becomes: every word, call, result and image of it, in its place.
use vstd::prelude::*;

use crate::error::AppErrorView;
use crate::json::{json_rendered, JsonView};
use crate::models::anthropic::{
    AnthropicContentBlockView, AnthropicContentView, AnthropicImageSourceView, AnthropicMessageView,
    AnthropicRequestView, AnthropicSystemContentView, AnthropicThinkingView, AnthropicTextBlockView,
    AnthropicToolChoiceView, AnthropicToolView,
};
use crate::models::responses::{
    ContentItemView, ReasoningContentItemView, ResponseItemView, ToolSpecView,
};
use crate::sorting::law_sorting_keeps_values;
use crate::text::{has_part, joined, lines, lowered, split_first, trim_front, trimmed};

use super::prompt::{
    enclosed_segments, is_local_command, is_skill_bullet, is_skill_listing, skill_bullets,
    tag_segments, user_segments, without_lines, InjectedLine, UserTextSegmentView,
};
use super::{
    converted_request, gives_instructions, image_content, message_items, result_parts, tool_result,
    user_texts, Unpacking, SYNTHETIC_SIGNATURE_PREFIX,
};

verus! {

// ---------------------------------------------------------------------------------------------
// Blocks
// ---------------------------------------------------------------------------------------------

/// What a message has been unpacked into before any of its blocks.
spec fn nothing() -> Unpacking {
    Unpacking { items: Seq::empty(), content: Seq::empty() }
}

proof fn lemma_block_keeps_items(
    state: Unpacking,
    role: Seq<char>,
    block: AnthropicContentBlockView,
    fresh: Seq<char>,
    item: ResponseItemView,
)
    requires
        state.after(role, block, fresh) is Ok,
        state.items.contains(item),
    ensures
        state.after(role, block, fresh)->Ok_0.items.contains(item),
{
    let k = choose|k: int| 0 <= k < state.items.len() && state.items[k] == item;
    assert(state.after(role, block, fresh)->Ok_0.items[k] == item);
}

proof fn lemma_blocks_keep_items(
    role: Seq<char>,
    blocks: Seq<AnthropicContentBlockView>,
    fresh: Seq<Seq<char>>,
    from: int,
    count: int,
    item: ResponseItemView,
)
    requires
        0 <= from <= count,
        nothing().after_all(role, blocks, fresh, count) is Ok,
        nothing().after_all(role, blocks, fresh, from) matches Ok(state) && state.items.contains(
            item,
        ),
    ensures
        nothing().after_all(role, blocks, fresh, count)->Ok_0.items.contains(item),
    decreases count,
{
    if from < count {
        lemma_blocks_keep_items(role, blocks, fresh, from, count - 1, item);
        lemma_block_keeps_items(
            nothing().after_all(role, blocks, fresh, count - 1)->Ok_0,
            role,
            blocks[count - 1],
            fresh[count - 1],
            item,
        );
    }
}

proof fn lemma_earlier_blocks_are_fine(
    role: Seq<char>,
    blocks: Seq<AnthropicContentBlockView>,
    fresh: Seq<Seq<char>>,
    from: int,
    count: int,
)
    requires
        0 <= from <= count,
        nothing().after_all(role, blocks, fresh, count) is Ok,
    ensures
        nothing().after_all(role, blocks, fresh, from) is Ok,
    decreases count,
{
    if from < count {
        lemma_earlier_blocks_are_fine(role, blocks, fresh, from, count - 1);
    }
}

/// An item that a block turns into is among the items of its message.
proof fn lemma_item_of_block(
    message: AnthropicMessageView,
    fresh: Seq<Seq<char>>,
    blocks: Seq<AnthropicContentBlockView>,
    at: int,
    item: ResponseItemView,
)
    requires
        !gives_instructions(message.role),
        message.content == AnthropicContentView::Blocks(blocks),
        message_items(message, fresh) is Ok,
        0 <= at < blocks.len(),
        forall|state: Unpacking|
            (#[trigger] state.after(message.role, blocks[at], fresh[at])) matches Ok(after)
                ==> after.items.contains(item),
    ensures
        message_items(message, fresh)->Ok_0.contains(item),
{
    let role = message.role;
    let count = blocks.len() as int;
    let all = nothing().after_all(role, blocks, fresh, count);
    lemma_earlier_blocks_are_fine(role, blocks, fresh, at + 1, count);
    lemma_earlier_blocks_are_fine(role, blocks, fresh, at, count);
    let before = nothing().after_all(role, blocks, fresh, at)->Ok_0;
    assert(before.after(role, blocks[at], fresh[at]) == nothing().after_all(
        role,
        blocks,
        fresh,
        at + 1,
    ));
    lemma_blocks_keep_items(role, blocks, fresh, at + 1, count, item);
    let items = all->Ok_0.items;
    let k = choose|k: int| 0 <= k < items.len() && items[k] == item;
    assert(all->Ok_0.flushed(role).items[k] == item);
}

/// A message whose content is blocks.
pub open spec fn says_blocks(
    message: AnthropicMessageView,
    blocks: Seq<AnthropicContentBlockView>,
) -> bool {
    !gives_instructions(message.role) && message.content == AnthropicContentView::Blocks(blocks)
}

/// The result of a tool that is a text becomes the output of its call, word for word and under its
/// id, whether the text stands alone or in a list.
pub proof fn law_result_texts_are_kept(
    message: AnthropicMessageView,
    fresh: Seq<Seq<char>>,
    blocks: Seq<AnthropicContentBlockView>,
    at: int,
    tool_use_id: Seq<char>,
    text: Seq<char>,
    is_error: Option<bool>,
)
    requires
        says_blocks(message, blocks),
        message_items(message, fresh) is Ok,
        0 <= at < blocks.len(),
        blocks[at] == (AnthropicContentBlockView::ToolResult {
            tool_use_id,
            content: Some(AnthropicContentView::Text(text)),
            is_error,
        }) || blocks[at] == (AnthropicContentBlockView::ToolResult {
            tool_use_id,
            content: Some(
                AnthropicContentView::Blocks(seq![AnthropicContentBlockView::Text { text }]),
            ),
            is_error,
        }),
    ensures
        message_items(message, fresh)->Ok_0.contains(
            ResponseItemView::FunctionCallOutput {
                call_id: tool_use_id,
                output: JsonView::Text(text),
            },
        ),
{
    let one = seq![AnthropicContentBlockView::Text { text }];
    assert(result_parts(one, 0) == Ok::<
        (Seq<Seq<char>>, Seq<ContentItemView>),
        AppErrorView,
    >((Seq::empty(), Seq::empty())));
    assert(result_parts(one, 1)->Ok_0.0 =~= seq![text]);
    assert(joined(seq![text], "\n"@) == text);
    let item = ResponseItemView::FunctionCallOutput {
        call_id: tool_use_id,
        output: JsonView::Text(text),
    };
    let role = message.role;
    assert forall|state: Unpacking|
        (#[trigger] state.after(role, blocks[at], fresh[at])) matches Ok(after) implies state.after(
        role,
        blocks[at],
        fresh[at],
    )->Ok_0.items.contains(item) by {
        let after = state.after(role, blocks[at], fresh[at])->Ok_0;
        let place = state.flushed(role).items.len() as int;
        assert(after.items[place] == item);
    }
    lemma_item_of_block(message, fresh, blocks, at, item);
}

/// The texts of a result in several parts become its output, one to a line and in their order.
pub proof fn law_result_lines_are_kept(first: Seq<char>, second: Seq<char>)
    ensures
        tool_result(
            Some(
                AnthropicContentView::Blocks(
                    seq![
                        AnthropicContentBlockView::Text { text: first },
                        AnthropicContentBlockView::Text { text: second },
                    ],
                ),
            ),
        ) == Ok::<(JsonView, Seq<ContentItemView>), AppErrorView>(
            (JsonView::Text(first + "\n"@ + second), Seq::empty()),
        ),
{
    let blocks = seq![
        AnthropicContentBlockView::Text { text: first },
        AnthropicContentBlockView::Text { text: second },
    ];
    reveal_with_fuel(result_parts, 3);
    assert(result_parts(blocks, 2)->Ok_0.0 =~= seq![first, second]);
    assert(seq![first, second].drop_last() =~= seq![first]);
    assert(joined(seq![first], "\n"@) == first);
}

/// An image in the result of a tool is shown to the model: right behind the result, as the user's.
pub proof fn law_result_images_are_kept(
    state: Unpacking,
    role: Seq<char>,
    fresh: Seq<char>,
    tool_use_id: Seq<char>,
    is_error: Option<bool>,
    source: AnthropicImageSourceView,
    image: ContentItemView,
)
    requires
        image_content(source) == Ok::<ContentItemView, AppErrorView>(image),
    ensures
        ({
            let block = AnthropicContentBlockView::ToolResult {
                tool_use_id,
                content: Some(
                    AnthropicContentView::Blocks(seq![AnthropicContentBlockView::Image { source }]),
                ),
                is_error,
            };
            &&& state.after(role, block, fresh) matches Ok(after)
            &&& after.items.len() >= 2
            &&& after.items[after.items.len() - 2] matches ResponseItemView::FunctionCallOutput {
                call_id,
                output,
            }
            &&& call_id == tool_use_id
            &&& output is Text
            &&& after.items.last() matches ResponseItemView::Message {
                id,
                role: shown_to,
                content,
                phase,
            }
            &&& shown_to == "user"@
            &&& content == seq![image]
        }),
{
    let blocks = seq![AnthropicContentBlockView::Image { source }];
    reveal_with_fuel(result_parts, 2);
    assert(result_parts(blocks, 1)->Ok_0.1 =~= seq![image]);
}

/// A call of a tool becomes a call with its id, its name and its input, and what was said before it
/// stands before it.
pub proof fn law_calls_are_kept(
    message: AnthropicMessageView,
    fresh: Seq<Seq<char>>,
    blocks: Seq<AnthropicContentBlockView>,
    at: int,
    id: Seq<char>,
    name: Seq<char>,
    input: JsonView,
)
    requires
        says_blocks(message, blocks),
        message_items(message, fresh) is Ok,
        0 <= at < blocks.len(),
        blocks[at] == (AnthropicContentBlockView::ToolUse { id, name, input }) || blocks[at] == (
        AnthropicContentBlockView::ServerToolUse { id, name, input }),
    ensures
        message_items(message, fresh)->Ok_0.contains(
            ResponseItemView::FunctionCall {
                id: None,
                name,
                namespace: None,
                arguments: json_rendered(input),
                call_id: id,
            },
        ),
        forall|state: Unpacking|
            (#[trigger] state.after(message.role, blocks[at], fresh[at])) matches Ok(after)
                && after.content.len() == 0 && after.items.last() is FunctionCall && (
            state.content.len() > 0 ==> after.items[after.items.len() - 2]
                == (ResponseItemView::Message {
                id: None,
                role: message.role,
                content: state.content,
                phase: None,
            })),
{
    let role = message.role;
    let item = ResponseItemView::FunctionCall {
        id: None,
        name,
        namespace: None,
        arguments: json_rendered(input),
        call_id: id,
    };
    assert forall|state: Unpacking|
        (#[trigger] state.after(role, blocks[at], fresh[at])) matches Ok(after) implies state.after(
        role,
        blocks[at],
        fresh[at],
    )->Ok_0.items.contains(item) by {
        let after = state.after(role, blocks[at], fresh[at])->Ok_0;
        assert(after.items[after.items.len() - 1] == item);
    }
    lemma_item_of_block(message, fresh, blocks, at, item);
}

/// The result of a search becomes the output of its call, as it came.
pub proof fn law_search_results_are_kept(
    message: AnthropicMessageView,
    fresh: Seq<Seq<char>>,
    blocks: Seq<AnthropicContentBlockView>,
    at: int,
    tool_use_id: Seq<char>,
    content: JsonView,
)
    requires
        says_blocks(message, blocks),
        message_items(message, fresh) is Ok,
        0 <= at < blocks.len(),
        blocks[at] == (AnthropicContentBlockView::WebSearchToolResult { tool_use_id, content }),
    ensures
        message_items(message, fresh)->Ok_0.contains(
            ResponseItemView::FunctionCallOutput { call_id: tool_use_id, output: content },
        ),
{
    let role = message.role;
    let item = ResponseItemView::FunctionCallOutput { call_id: tool_use_id, output: content };
    assert forall|state: Unpacking|
        (#[trigger] state.after(role, blocks[at], fresh[at])) matches Ok(after) implies state.after(
        role,
        blocks[at],
        fresh[at],
    )->Ok_0.items.contains(item) by {
        let after = state.after(role, blocks[at], fresh[at])->Ok_0;
        assert(after.items[after.items.len() - 1] == item);
    }
    lemma_item_of_block(message, fresh, blocks, at, item);
}

/// Whether an item is reasoning in the given words, signed as given.
pub open spec fn is_reasoning(
    item: ResponseItemView,
    words: Seq<char>,
    signature: Option<Seq<char>>,
) -> bool {
    &&& item matches ResponseItemView::Reasoning { id, summary, content, encrypted_content }
    &&& summary.len() == 0
    &&& content == Some(seq![ReasoningContentItemView::ReasoningText { text: words }])
    &&& encrypted_content == signature
}

/// Thinking becomes reasoning in the same words. A signature of the provider stays with it; an empty
/// one, or one that only stands in for it, does not.
pub proof fn law_thinking_is_kept(
    message: AnthropicMessageView,
    fresh: Seq<Seq<char>>,
    blocks: Seq<AnthropicContentBlockView>,
    at: int,
    thinking: Seq<char>,
    signature: Option<Seq<char>>,
)
    requires
        says_blocks(message, blocks),
        message_items(message, fresh) is Ok,
        0 <= at < blocks.len(),
        blocks[at] == (AnthropicContentBlockView::Thinking { thinking, signature }),
    ensures
        exists|item: ResponseItemView| #[trigger]
            message_items(message, fresh)->Ok_0.contains(item) && is_reasoning(
                item,
                thinking,
                match signature {
                    Some(given) => if given.len() > 0 && !SYNTHETIC_SIGNATURE_PREFIX@.is_prefix_of(
                        given,
                    ) {
                        Some(given)
                    } else {
                        None
                    },
                    None => None,
                },
            ),
{
    let role = message.role;
    let empty = nothing().after(role, blocks[at], fresh[at])->Ok_0;
    let item = empty.items.last();
    assert forall|state: Unpacking|
        (#[trigger] state.after(role, blocks[at], fresh[at])) matches Ok(after) implies state.after(
        role,
        blocks[at],
        fresh[at],
    )->Ok_0.items.contains(item) by {
        let after = state.after(role, blocks[at], fresh[at])->Ok_0;
        assert(after.items[after.items.len() - 1] == item);
    }
    lemma_item_of_block(message, fresh, blocks, at, item);
}

/// What messages say among items, in order.
pub open spec fn said(items: Seq<ResponseItemView>) -> Seq<ContentItemView>
    decreases items.len(),
{
    if items.len() == 0 {
        Seq::empty()
    } else {
        match items.last() {
            ResponseItemView::Message { id, role, content, phase } => said(items.drop_last())
                + content,
            _ => said(items.drop_last()),
        }
    }
}

pub broadcast proof fn lemma_said_push(items: Seq<ResponseItemView>, item: ResponseItemView)
    ensures
        #[trigger] said(items.push(item)) == (match item {
            ResponseItemView::Message { id, role, content, phase } => said(items) + content,
            _ => said(items),
        }),
{
    assert(items.push(item).drop_last() =~= items);
}

/// The texts of the first `count` blocks, in order.
pub open spec fn block_texts(
    blocks: Seq<AnthropicContentBlockView>,
    count: int,
) -> Seq<ContentItemView>
    decreases count,
{
    if count <= 0 {
        Seq::empty()
    } else {
        match blocks[count - 1] {
            AnthropicContentBlockView::Text { text } => block_texts(blocks, count - 1).push(
                ContentItemView::OutputText { text },
            ),
            _ => block_texts(blocks, count - 1),
        }
    }
}

/// Whether a block is what an assistant says, thinks or calls.
pub open spec fn is_assistants(block: AnthropicContentBlockView) -> bool {
    block is Text || block is ToolUse || block is ServerToolUse || block is Thinking || block
        is RedactedThinking
}

proof fn lemma_assistant_texts(
    role: Seq<char>,
    blocks: Seq<AnthropicContentBlockView>,
    fresh: Seq<Seq<char>>,
    count: int,
)
    requires
        role != "user"@,
        0 <= count <= blocks.len(),
        forall|k: int| 0 <= k < count ==> is_assistants(#[trigger] blocks[k]),
    ensures
        nothing().after_all(role, blocks, fresh, count) matches Ok(state) && said(state.items)
            + state.content == block_texts(blocks, count),
    decreases count,
{
    broadcast use lemma_said_push;

    if count > 0 {
        lemma_assistant_texts(role, blocks, fresh, count - 1);
        let before = nothing().after_all(role, blocks, fresh, count - 1)->Ok_0;
        let after = nothing().after_all(role, blocks, fresh, count)->Ok_0;
        assert(said(before.flushed(role).items) + before.flushed(role).content =~= said(
            before.items,
        ) + before.content);
        assert(said(after.items) + after.content =~= block_texts(blocks, count));
    } else {
        assert(said(nothing().items) + nothing().content =~= Seq::empty());
    }
}

/// What an assistant said is kept text for text, in order, between its calls and its thoughts.
pub proof fn law_assistant_texts_are_kept(
    message: AnthropicMessageView,
    fresh: Seq<Seq<char>>,
    blocks: Seq<AnthropicContentBlockView>,
)
    requires
        says_blocks(message, blocks),
        message.role != "user"@,
        forall|k: int| 0 <= k < blocks.len() ==> is_assistants(#[trigger] blocks[k]),
    ensures
        message_items(message, fresh) matches Ok(items) && said(items) == block_texts(
            blocks,
            blocks.len() as int,
        ),
{
    broadcast use lemma_said_push;

    lemma_assistant_texts(message.role, blocks, fresh, blocks.len() as int);
    let state = nothing().after_all(message.role, blocks, fresh, blocks.len() as int)->Ok_0;
    assert(said(state.items) + state.content =~= said(state.flushed(message.role).items)) by {
        if state.content.len() == 0 {
            assert(said(state.items) + state.content =~= said(state.items));
        }
    }
}

/// A text of the user that holds nothing a client injects is kept as it was written.
pub proof fn law_prompt_blocks_are_kept(state: Unpacking, text: Seq<char>, fresh: Seq<char>)
    requires
        user_texts(user_segments(text)) == seq![text],
    ensures
        state.after("user"@, AnthropicContentBlockView::Text { text }, fresh) matches Ok(after)
            && after.items == state.items && after.content == state.content.push(
            ContentItemView::InputText { text },
        ),
{
    let after = state.after("user"@, AnthropicContentBlockView::Text { text }, fresh)->Ok_0;
    assert(after.content =~= state.content.push(ContentItemView::InputText { text }));
}

/// An image of the user is kept among what the user says.
pub proof fn law_images_are_kept(
    state: Unpacking,
    role: Seq<char>,
    source: AnthropicImageSourceView,
    fresh: Seq<char>,
)
    ensures
        ({
            let after = state.after(role, AnthropicContentBlockView::Image { source }, fresh);
            &&& after is Ok <==> image_content(source) is Ok
            &&& after matches Ok(after) ==> after.content == state.content.push(
                image_content(source)->Ok_0,
            ) && after.items == state.items
        }),
{
}

/// An image is found where its source says: in its own data, under an address, or as a file. A source
/// that says nothing is refused.
pub proof fn law_images_are_found(source: AnthropicImageSourceView)
    ensures
        ({
            let image = image_content(source);
            let told = |text: Option<Seq<char>>| text matches Some(inner) && inner.len() > 0;
            &&& source.kind == "base64"@ ==> {
                &&& image is Ok <==> told(source.data)
                &&& image matches Ok(image) ==> image == (ContentItemView::InputImage {
                    image_url: Some(
                        "data:"@ + (match source.media_type {
                            Some(kind) => kind,
                            None => "image/png"@,
                        }) + ";base64,"@ + source.data->0,
                    ),
                    file_id: None,
                    detail: None,
                })
            }
            &&& source.kind == "url"@ ==> {
                &&& image is Ok <==> told(source.url)
                &&& image matches Ok(image) ==> image == (ContentItemView::InputImage {
                    image_url: source.url,
                    file_id: None,
                    detail: None,
                })
            }
            &&& source.kind == "file"@ ==> {
                &&& image is Ok <==> told(source.file_id)
                &&& image matches Ok(image) ==> image == (ContentItemView::InputImage {
                    image_url: None,
                    file_id: source.file_id,
                    detail: None,
                })
            }
            &&& image is Ok ==> source.kind == "base64"@ || source.kind == "url"@ || source.kind
                == "file"@
        }),
{
    reveal_strlit("base64");
    reveal_strlit("url");
    reveal_strlit("file");
    assert("base64"@.len() == 6);
    assert("url"@.len() == 3);
    assert("file"@.len() == 4);
}

// ---------------------------------------------------------------------------------------------
// Injected context
// ---------------------------------------------------------------------------------------------

/// Whether a stretch is private context that ends in the given words.
pub open spec fn is_context(segment: UserTextSegmentView, words: Seq<char>) -> bool {
    segment matches UserTextSegmentView::PrivateContext(text) && text.len() > words.len()
        && text.skip(text.len() - words.len()) == words
}

/// What a tag encloses is marked as private context, word for word, and what stands around it stays
/// the user's prompt, in its place.
pub proof fn law_tagged_context_is_told_apart(
    tag: Seq<char>,
    label: Seq<char>,
    text: Seq<char>,
    before: Seq<char>,
    after: Seq<char>,
    inner: Seq<char>,
    rest: Seq<char>,
)
    requires
        split_first(text, "<"@ + tag + ">"@) == Some((before, after)),
        split_first(after, "</"@ + tag + ">"@) == Some((inner, rest)),
        !has_part(rest, "<"@ + tag + ">"@),
        rest.len() < text.len(),
        trimmed(before).len() > 0,
        trimmed(inner).len() > 0,
        trimmed(rest).len() > 0,
    ensures
        ({
            let segments = tag_segments(text, tag, label);
            &&& segments.len() == 3
            &&& segments[0] == UserTextSegmentView::Prompt(trimmed(before))
            &&& is_context(segments[1], trimmed(inner))
            &&& segments[2] == UserTextSegmentView::Prompt(trimmed(rest))
        }),
{
    let open = "<"@ + tag + ">"@;
    let close = "</"@ + tag + ">"@;
    reveal_with_fuel(super::prompt::enclosed_segments, 2);
    reveal_strlit("The client supplied this ");
    let segments = tag_segments(text, tag, label);
    let words = trimmed(inner);
    let context = super::prompt::wrapped_context(label, words);
    assert("The client supplied this "@.len() > 0);
    assert(context.skip(context.len() - words.len()) =~= words);
    assert(segments[1] == UserTextSegmentView::PrivateContext(context));
}

/// A list of skills is no prompt: it is marked as private context, word for word. The echo of a
/// command that ran in the client is left out.
pub proof fn law_listings_and_echoes_are_no_prompts(text: Seq<char>)
    ensures
        trimmed(text).len() > 0 && is_skill_listing(trimmed(text)) ==> user_segments(text).len()
            == 1 && is_context(user_segments(text)[0], trimmed(text)),
        trimmed(text).len() > 0 && !is_skill_listing(trimmed(text)) && is_local_command(
            trimmed(text),
        ) ==> user_segments(text).len() == 0,
        trimmed(text).len() == 0 ==> user_segments(text).len() == 0,
{
    reveal_strlit("The client supplied this ");
    let words = trimmed(text);
    let context = super::prompt::wrapped_context("skill listing"@, words);
    assert("The client supplied this "@.len() > 0);
    assert(context.skip(context.len() - words.len()) =~= words);
}

/// A message of the system in the midst of a conversation stays there, as words to the model that
/// are marked as private context; one that says nothing is left out.
pub proof fn law_inner_instructions_stay(
    message: AnthropicMessageView,
    fresh: Seq<Seq<char>>,
    text: Seq<char>,
)
    requires
        gives_instructions(message.role),
        message.content == AnthropicContentView::Text(text),
    ensures
        ({
            let words = trimmed(without_lines(text, InjectedLine::BillingHeader));
            let items = message_items(message, fresh);
            &&& items matches Ok(items)
            &&& words.len() == 0 ==> items.len() == 0
            &&& words.len() > 0 ==> {
                &&& items.len() == 1
                &&& items[0] matches ResponseItemView::Message { id, role, content, phase }
                &&& role == "user"@
                &&& content.len() == 1
                &&& content[0] matches ContentItemView::InputText { text: told }
                &&& is_context(UserTextSegmentView::PrivateContext(told), words)
            }
        }),
{
    reveal_strlit("The client supplied this ");
    let words = trimmed(without_lines(text, InjectedLine::BillingHeader));
    assert("The client supplied this "@.len() > 0);
    if words.len() > 0 {
        let label = if is_skill_listing(words) {
            "skill listing"@
        } else {
            "system message"@
        };
        let context = super::prompt::wrapped_context(label, words);
        assert(context.skip(context.len() - words.len()) =~= words);
    }
}

// ---------------------------------------------------------------------------------------------
// Requests
// ---------------------------------------------------------------------------------------------

/// What a request asks for beside its conversation is asked for in the words of the Responses API:
/// the model, the sampling and the limit as they are, the system prompt without injected headers,
/// and the stop strings in their order.
pub proof fn law_settings_are_kept(request: AnthropicRequestView, fresh: Seq<Seq<Seq<char>>>)
    requires
        converted_request(request, fresh) is Ok,
    ensures
        ({
            let asked = converted_request(request, fresh)->Ok_0;
            &&& asked.model == request.model
            &&& asked.temperature == request.temperature
            &&& asked.top_p == request.top_p
            &&& asked.stream
            &&& !asked.store
            &&& !asked.parallel_tool_calls
            &&& asked.previous_response_id is None
            &&& request.max_tokens is None <==> asked.max_output_tokens is None
            &&& request.max_tokens matches Some(limit) ==> asked.max_output_tokens == Some(
                limit as i64,
            ) && limit <= i64::MAX
            &&& request.top_k is None
            &&& request.system is None ==> asked.instructions.len() == 0
            &&& request.system matches Some(AnthropicSystemContentView::Text(text))
                ==> asked.instructions == trimmed(
                without_lines(text, InjectedLine::BillingHeader),
            )
            &&& request.metadata matches Some(metadata) ==> metadata matches JsonView::Object(map)
                && asked.metadata == Some(map)
            &&& request.stop_sequences matches Some(stops) ==> stops.len() > 0 ==> {
                &&& asked.extra_body.dom().contains("stop"@)
                &&& asked.extra_body["stop"@] matches JsonView::Array(told)
                &&& told.len() == stops.len()
                &&& forall|k: int|
                    0 <= k < told.len() ==> #[trigger] told[k] == JsonView::Text(stops[k])
            }
            &&& request.stop_sequences is None ==> asked.extra_body.dom().len() == 0
        }),
{
    if request.system is None {
        crate::text::lemma_trimmed_is_piece(Seq::empty());
    }
}

/// The choice of a tool is asked for in the words of the Responses API.
pub proof fn law_tool_choices_are_kept(
    request: AnthropicRequestView,
    fresh: Seq<Seq<Seq<char>>>,
)
    requires
        converted_request(request, fresh) is Ok,
    ensures
        ({
            let asked = converted_request(request, fresh)->Ok_0.tool_choice;
            match request.tool_choice {
                None => asked == JsonView::Text("auto"@),
                Some(AnthropicToolChoiceView::Auto) => asked == JsonView::Text("auto"@),
                Some(AnthropicToolChoiceView::Any) => asked == JsonView::Text("required"@),
                Some(AnthropicToolChoiceView::NoTool) => asked == JsonView::Text("none"@),
                Some(AnthropicToolChoiceView::Tool { name }) => asked.get_str("type"@) == Some(
                    "function"@,
                ) && (asked.get("function"@) matches Some(function) && function.get_str("name"@)
                    == Some(name)),
            }
        }),
{
    reveal_strlit("type");
    reveal_strlit("function");
    assert("type"@.len() == 4);
    assert("function"@.len() == 8);
}

/// Every tool of a request is declared under its name, with its description and the schema of its
/// input; only the search runs on the server.
pub proof fn law_tools_are_kept(
    request: AnthropicRequestView,
    fresh: Seq<Seq<Seq<char>>>,
    tools: Seq<AnthropicToolView>,
    at: int,
)
    requires
        converted_request(request, fresh) is Ok,
        request.tools == Some(tools),
        0 <= at < tools.len(),
    ensures
        ({
            let asked = converted_request(request, fresh)->Ok_0.tools;
            let tool = tools[at];
            &&& asked.len() == tools.len()
            &&& tool.name != "web_search"@ ==> asked.contains(
                ToolSpecView::Function {
                    name: tool.name,
                    description: match tool.description {
                        Some(description) => description,
                        None => Seq::empty(),
                    },
                    strict: false,
                    parameters: tool.input_schema,
                },
            )
            &&& tool.name == "web_search"@ ==> exists|declared: ToolSpecView| #[trigger]
                asked.contains(declared) && declared is WebSearch
        }),
{
    let sorted = crate::sorting::sorted_by_name::<crate::models::anthropic::AnthropicTool>(tools);
    law_sorting_keeps_values::<crate::models::anthropic::AnthropicTool>(tools);
    broadcast use vstd::seq_lib::group_to_multiset_ensures;

    let tool = tools[at];
    assert(tools.contains(tool));
    assert(tools.to_multiset().count(tool) > 0);
    assert(sorted.to_multiset().count(tool) > 0);
    let k = choose|k: int| 0 <= k < sorted.len() && sorted[k] == tool;
    let asked = converted_request(request, fresh)->Ok_0.tools;
    assert(asked[k] == super::tool_spec(tool));
    assert(asked.contains(asked[k]));
}

/// Thinking that is asked for becomes reasoning: with a budget the effort that fits it, more for a
/// larger budget; without one the middle; and where the model decides, no effort at all. An effort
/// of the output configuration comes before all that.
pub proof fn law_thinking_is_asked_for(request: AnthropicRequestView, fresh: Seq<Seq<Seq<char>>>)
    requires
        converted_request(request, fresh) is Ok,
        request.output_config is None,
    ensures
        ({
            let asked = converted_request(request, fresh)->Ok_0.reasoning;
            match request.thinking {
                None => asked is None,
                Some(AnthropicThinkingView::Disabled) => asked is None,
                Some(AnthropicThinkingView::Adaptive { budget_tokens }) => asked matches Some(asked)
                    && asked.effort is None,
                Some(AnthropicThinkingView::Enabled { budget_tokens }) => {
                    let budget = match budget_tokens {
                        Some(budget) => budget,
                        None => 10000u64,
                    };
                    &&& asked matches Some(asked)
                    &&& asked.effort matches Some(effort)
                    &&& effort == "low"@ <==> budget <= 5000
                    &&& effort == "medium"@ <==> 5000 < budget <= 20000
                    &&& effort == "high"@ <==> 20000 < budget
                },
            }
        }),
{
    reveal_strlit("low");
    reveal_strlit("medium");
    reveal_strlit("high");
    assert("low"@.len() == 3);
    assert("medium"@.len() == 6);
    assert("high"@.len() == 4);
}

/// What the output configuration asks for is asked for: the schema of the answer under its name, and
/// an effort of `max` for the highest levels and `high` for all others.
pub proof fn law_output_config_is_kept(
    request: AnthropicRequestView,
    fresh: Seq<Seq<Seq<char>>>,
    config: JsonView,
)
    requires
        converted_request(request, fresh) is Ok,
        request.output_config == Some(config),
    ensures
        ({
            let asked = converted_request(request, fresh)->Ok_0;
            &&& config.get_str("effort"@) matches Some(effort) ==> trimmed(effort).len() > 0 ==> (
            asked.reasoning matches Some(reasoning) && reasoning.effort == Some(
                if lowered(trimmed(effort)) == "max"@ || lowered(trimmed(effort)) == "xhigh"@ {
                    "max"@
                } else {
                    "high"@
                },
            ))
            &&& config.get("format"@) matches Some(JsonView::Object(fields)) ==> {
                let format = JsonView::Object(fields);
                &&& asked.text matches Some(text)
                &&& text.format matches Some(told)
                &&& told.kind == "json_schema"@
                &&& format.get("schema"@) == Some(told.schema)
                &&& told.strict <==> format.get("strict"@) != Some(JsonView::Bool(false))
                &&& format.get_str("name"@) matches Some(name) ==> trimmed(name).len() > 0
                    ==> told.name == name
            }
            &&& config.get("format"@) is None ==> asked.text is None
        }),
{
}

// ---------------------------------------------------------------------------------------------
// The rest of what clients send
// ---------------------------------------------------------------------------------------------

/// A block of a kind that is not known is handed on as it came.
pub proof fn law_other_blocks_are_handed_on(
    role: Seq<char>,
    value: JsonView,
    fresh: Seq<Seq<char>>,
)
    requires
        role == "user"@ || role == "assistant"@,
    ensures
        ({
            let message = AnthropicMessageView {
                role,
                content: AnthropicContentView::Blocks(
                    seq![AnthropicContentBlockView::Other(value)],
                ),
            };
            &&& message_items(message, fresh) matches Ok(items)
            &&& items.len() == 1
            &&& items[0] matches ResponseItemView::Message { id, role: said_by, content, phase }
            &&& said_by == role
            &&& content == seq![ContentItemView::Other(value)]
        }),
{
    reveal_strlit("user");
    reveal_strlit("assistant");
    reveal_strlit("system");
    reveal_strlit("developer");
    assert("user"@.len() == 4);
    assert("assistant"@.len() == 9 && "assistant"@[0] == 'a');
    assert("system"@.len() == 6);
    assert("developer"@.len() == 9 && "developer"@[0] == 'd');
    reveal_with_fuel(Unpacking::after_all, 2);
    let blocks = seq![AnthropicContentBlockView::Other(value)];
    let start = Unpacking { items: Seq::empty(), content: Seq::empty() };
    let after = start.after_all(role, blocks, fresh, 1)->Ok_0;
    assert(after.content =~= seq![ContentItemView::Other(value)]);
}

/// Instructions in several blocks, in a message or in the system prompt, stand one to a line, each
/// without the headers that clients inject.
pub proof fn law_instructions_stand_on_their_lines(one: Seq<char>, other: Seq<char>)
    ensures
        ({
            let both = without_lines(one, InjectedLine::BillingHeader) + "\n"@ + without_lines(
                other,
                InjectedLine::BillingHeader,
            );
            &&& super::instruction_text(
                AnthropicContentView::Blocks(
                    seq![
                        AnthropicContentBlockView::Text { text: one },
                        AnthropicContentBlockView::Text { text: other },
                    ],
                ),
            ) == both
            &&& super::system_text(
                Some(
                    AnthropicSystemContentView::Blocks(
                        seq![
                            AnthropicTextBlockView::Text { text: one },
                            AnthropicTextBlockView::Text { text: other },
                        ],
                    ),
                ),
            ) == both
        }),
{
    reveal_with_fuel(super::instruction_texts, 3);
    reveal_with_fuel(joined, 3);
    let first = without_lines(one, InjectedLine::BillingHeader);
    let second = without_lines(other, InjectedLine::BillingHeader);
    let both = seq![first, second];
    assert(both.drop_last() =~= seq![first]);
    assert(joined(both, "\n"@) =~= first + "\n"@ + second);
    let blocks = seq![
        AnthropicContentBlockView::Text { text: one },
        AnthropicContentBlockView::Text { text: other },
    ];
    assert(super::instruction_texts(blocks, 2) =~= both);
    let system = seq![
        AnthropicTextBlockView::Text { text: one },
        AnthropicTextBlockView::Text { text: other },
    ];
    let texts = system.map_values(
        |block: AnthropicTextBlockView| without_lines(block->text, InjectedLine::BillingHeader),
    );
    assert(texts =~= both);
    assert(super::system_text(Some(AnthropicSystemContentView::Blocks(system))) == joined(
        texts,
        "\n"@,
    ));
}

/// A tag that is opened and never closed is prompt like the rest, with what it stands in front of.
pub proof fn law_open_tags_are_prompt(
    text: Seq<char>,
    open: Seq<char>,
    close: Seq<char>,
    label: Seq<char>,
    before: Seq<char>,
    after: Seq<char>,
)
    requires
        split_first(text, open) == Some((before, after)),
        split_first(after, close) is None,
        trimmed(open + after).len() > 0,
    ensures
        ({
            let segments = enclosed_segments(text, open, close, label);
            &&& segments.len() > 0
            &&& segments.last() == UserTextSegmentView::Prompt(trimmed(open + after))
            &&& trimmed(before).len() > 0 ==> segments.len() == 2 && segments[0]
                == UserTextSegmentView::Prompt(trimmed(before))
        }),
{
}

/// Of a prompt, only the lines that tell the date are taken away; private context stays as it is.
pub proof fn law_only_dates_go_from_prompts(text: Seq<char>)
    ensures
        without_lines(text, InjectedLine::Date).len() > 0 ==> user_texts(
            seq![UserTextSegmentView::Prompt(text)],
        ) == seq![without_lines(text, InjectedLine::Date)],
        without_lines(text, InjectedLine::Date).len() == 0 ==> user_texts(
            seq![UserTextSegmentView::Prompt(text)],
        ).len() == 0,
        user_texts(seq![UserTextSegmentView::PrivateContext(text)]) == seq![text],
{
    reveal_with_fuel(user_texts, 2);
    let prompt = seq![UserTextSegmentView::Prompt(text)];
    let context = seq![UserTextSegmentView::PrivateContext(text)];
    assert(prompt.drop_last() =~= Seq::empty());
    assert(context.drop_last() =~= Seq::empty());
    assert(user_texts(context) =~= seq![text]);
}

proof fn lemma_all_bullets(listed: Seq<Seq<char>>)
    requires
        forall|k: int| 0 <= k < listed.len() ==> is_skill_bullet(trim_front(#[trigger] listed[k])),
    ensures
        skill_bullets(listed) == listed.len(),
    decreases listed.len(),
{
    if listed.len() > 0 {
        let fewer = listed.drop_last();
        assert forall|k: int| 0 <= k < fewer.len() implies is_skill_bullet(
            trim_front(#[trigger] fewer[k]),
        ) by {
            assert(fewer[k] == listed[k]);
        }
        lemma_all_bullets(fewer);
        assert(is_skill_bullet(trim_front(listed[listed.len() - 1])));
    }
}

/// A list of skills is told by three of them and a word on when to use them; fewer make none.
pub proof fn law_three_skills_make_a_listing(text: Seq<char>)
    requires
        forall|k: int|
            0 <= k < lines(text).len() ==> is_skill_bullet(trim_front(#[trigger] lines(text)[k])),
    ensures
        has_part(text, "Use when"@) || has_part(text, "Invoke with"@) || has_part(
            text,
            "TRIGGER when"@,
        ) || has_part(text, "slash command"@) ==> (is_skill_listing(text) <==> lines(text).len()
            >= 3),
        !has_part(text, "Use when"@) && !has_part(text, "Invoke with"@) && !has_part(
            text,
            "TRIGGER when"@,
        ) && !has_part(text, "slash command"@) ==> !is_skill_listing(text),
{
    lemma_all_bullets(lines(text));
}

/// Only a text with all four marks of a command is the echo of one.
pub proof fn law_echoes_have_all_their_marks(text: Seq<char>)
    ensures
        is_local_command(text) ==> has_part(text, "</command-name>"@) && has_part(
            text,
            "<command-message>"@,
        ) && has_part(text, "</command-message>"@) && "<command-name>"@.is_prefix_of(text),
{
}

} // verus!
