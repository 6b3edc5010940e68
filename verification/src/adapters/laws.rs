//! What holds of a message on its whole way from a client to a backend.
use vstd::prelude::*;

use crate::json::{json_parsed, json_rendered, JsonView};
use crate::models::anthropic::{
    AnthropicContentBlockView, AnthropicContentView, AnthropicMessageView,
};
use crate::models::chat::ChatMessageView;
use crate::models::responses::{
    ReasoningContentItemView, ReasoningSummaryItemView, ResponseItemView,
};
use crate::text::{has_part, joined, trimmed};

use super::anthropic_to_responses::prompt::{
    is_local_command, is_skill_listing, retagged, tag_segments, user_segments, without_lines,
    InjectedLine, UserTextSegmentView,
};
use super::anthropic_to_responses::{user_texts, Unpacking};
use super::chat_completions::{call_items, calls_of, response_content, said_item, MessageIdsView};
use super::chat_to_responses::{finished_turn, resolved_calls, StreamStateView};
use super::responses_to_chat::content::{filled, reasoning_part, reasoning_text};
use super::responses_to_chat::tools::ToolKindView;
use super::responses_to_chat::{lowered_item, plain_message, Lowering};
use super::{anthropic_to_responses, chat_completions};

verus! {

/// A plain text message that comes in through the Chat Completions API goes to the backend as it
/// came.
pub proof fn law_chat_messages_come_through(
    role: Seq<char>,
    text: Seq<char>,
    fresh: MessageIdsView,
    state: Lowering,
)
    requires
        role != "tool"@,
        role != "function"@,
        role != "developer"@,
        state.pending is None,
    ensures
        ({
            let message = plain_message(role, Some(JsonView::Text(text)));
            &&& chat_completions::message_items(message, fresh) matches Ok(items)
            &&& items.len() == 1
            &&& lowered_item(state, items[0]) matches Ok(after)
            &&& after.messages == state.messages.push(message)
            &&& after.pending is None
        }),
{
    let message = plain_message(role, Some(JsonView::Text(text)));
    let items = seq![said_item(message)];
    assert(response_content(role, message.content).len() == 1);
    assert(calls_of(message) =~= Seq::empty());
    assert(call_items(calls_of(message), fresh.calls, 0) == Ok::<
        Seq<ResponseItemView>,
        crate::error::AppErrorView,
    >(Seq::empty()));
    assert(Seq::<ResponseItemView>::empty() + items + Seq::<ResponseItemView>::empty() =~= items);
}

/// A text that the assistant said reaches the backend as it was said.
pub proof fn law_assistant_texts_come_through(
    text: Seq<char>,
    fresh: Seq<Seq<char>>,
    state: Lowering,
)
    requires
        text.len() > 0,
        state.pending is None,
    ensures
        ({
            let message = AnthropicMessageView {
                role: "assistant"@,
                content: AnthropicContentView::Text(text),
            };
            &&& anthropic_to_responses::message_items(message, fresh) matches Ok(items)
            &&& items.len() == 1
            &&& lowered_item(state, items[0]) matches Ok(after)
            &&& after.messages == state.messages.push(
                plain_message("assistant"@, Some(JsonView::Text(text))),
            )
        }),
{
    reveal_strlit("assistant");
    reveal_strlit("system");
    reveal_strlit("developer");
    reveal_strlit("user");
    assert("assistant"@.len() != "system"@.len());
    assert("assistant"@[0] != "developer"@[0]);
    assert("assistant"@.len() != "user"@.len());
}

/// A prompt that holds nothing a client injects reaches the backend as the user wrote it.
pub proof fn law_prompts_come_through(text: Seq<char>, fresh: Seq<Seq<char>>, state: Lowering)
    requires
        trimmed(text).len() > 0,
        !is_skill_listing(trimmed(text)),
        !is_local_command(trimmed(text)),
        !has_part(text, "<"@ + "system-reminder"@ + ">"@),
        !has_part(text, "<"@ + "local-command-caveat"@ + ">"@),
        without_lines(text, InjectedLine::Date) == text,
    ensures
        ({
            let message = AnthropicMessageView {
                role: "user"@,
                content: AnthropicContentView::Text(text),
            };
            &&& anthropic_to_responses::message_items(message, fresh) matches Ok(items)
            &&& items.len() == 1
            &&& lowered_item(state, items[0]) matches Ok(after)
            &&& after.messages == state.messages.push(
                plain_message("user"@, Some(JsonView::Text(text))),
            )
            &&& after.pending == state.pending
        }),
{
    reveal_strlit("assistant");
    reveal_strlit("system");
    reveal_strlit("developer");
    reveal_strlit("user");
    assert("user"@.len() != "system"@.len());
    assert("user"@.len() != "developer"@.len());
    assert("user"@.len() != "assistant"@.len());
    let prompt = seq![UserTextSegmentView::Prompt(text)];
    assert(prompt.drop_last() =~= Seq::empty());
    assert(tag_segments(text, "system-reminder"@, "system reminder"@) == prompt);
    assert(tag_segments(text, "local-command-caveat"@, "local command caveat"@) == prompt);
    assert(retagged(prompt, "system-reminder"@, "system reminder"@) =~= prompt) by {
        reveal_with_fuel(retagged, 2);
    }
    assert(retagged(prompt, "local-command-caveat"@, "local command caveat"@) =~= prompt) by {
        reveal_with_fuel(retagged, 2);
    }
    assert(user_segments(text) == prompt);
    assert(user_texts(prompt) =~= seq![text]) by {
        reveal_with_fuel(user_texts, 2);
    }
}

proof fn lemma_user_is_no_instructor()
    ensures
        "user"@ != "system"@,
        "user"@ != "developer"@,
        "user"@ != "assistant"@,
        "assistant"@ != "system"@,
        "assistant"@ != "developer"@,
{
    reveal_strlit("assistant");
    reveal_strlit("system");
    reveal_strlit("developer");
    reveal_strlit("user");
    assert("user"@.len() == 4);
    assert("system"@.len() == 6);
    assert("developer"@.len() == 9 && "developer"@[0] == 'd');
    assert("assistant"@.len() == 9 && "assistant"@[0] == 'a');
}

/// The result of a tool that comes in through the Messages API reaches the backend under the id of
/// its call, word for word.
pub proof fn law_results_come_through(
    id: Seq<char>,
    text: Seq<char>,
    is_error: Option<bool>,
    fresh: Seq<Seq<char>>,
    state: Lowering,
)
    ensures
        ({
            let message = AnthropicMessageView {
                role: "user"@,
                content: AnthropicContentView::Blocks(
                    seq![
                        AnthropicContentBlockView::ToolResult {
                            tool_use_id: id,
                            content: Some(AnthropicContentView::Text(text)),
                            is_error,
                        },
                    ],
                ),
            };
            &&& anthropic_to_responses::message_items(message, fresh) matches Ok(items)
            &&& items.len() == 1
            &&& lowered_item(state, items[0]) matches Ok(after)
            &&& after.messages.len() == state.messages.len() + 1
            &&& after.messages.last().role == "tool"@
            &&& after.messages.last().tool_call_id == Some(id)
            &&& after.messages.last().content == Some(JsonView::Text(text))
        }),
{
    lemma_user_is_no_instructor();
    reveal_with_fuel(Unpacking::after_all, 2);
}

/// A call of a tool that the assistant made reaches the backend under its id and its name, with the
/// arguments that its input is written down as.
pub proof fn law_calls_come_through(
    id: Seq<char>,
    name: Seq<char>,
    input: JsonView,
    fresh: Seq<Seq<char>>,
    state: Lowering,
)
    ensures
        ({
            let message = AnthropicMessageView {
                role: "assistant"@,
                content: AnthropicContentView::Blocks(
                    seq![AnthropicContentBlockView::ToolUse { id, name, input }],
                ),
            };
            &&& anthropic_to_responses::message_items(message, fresh) matches Ok(items)
            &&& items.len() == 1
            &&& json_parsed(json_rendered(input)) matches Ok(read) ==> {
                &&& lowered_item(state, items[0]) matches Ok(after)
                &&& after.messages.last().role == "assistant"@
                &&& after.messages.last().tool_calls matches Some(calls)
                &&& calls.len() > 0
                &&& calls.last().id == Some(id)
                &&& calls.last().function.name == Some(name)
                &&& calls.last().function.arguments == Some(read)
            }
        }),
{
    lemma_user_is_no_instructor();
    reveal_with_fuel(Unpacking::after_all, 2);
}

/// The result of a tool that comes in through the Chat Completions API goes to the backend as it
/// came.
pub proof fn law_chat_results_come_through(
    id: Seq<char>,
    text: Seq<char>,
    fresh: MessageIdsView,
    state: Lowering,
)
    ensures
        ({
            let message = ChatMessageView {
                tool_call_id: Some(id),
                ..plain_message("tool"@, Some(JsonView::Text(text)))
            };
            &&& chat_completions::message_items(message, fresh) matches Ok(items)
            &&& items.len() == 1
            &&& lowered_item(state, items[0]) matches Ok(after)
            &&& after.messages == state.messages.push(message)
        }),
{
}

/// A turn that a client sends back is the one that was kept of it: the answer with the reasoning that
/// led to it, and the signature that it was signed with.
pub proof fn law_replayed_turns_are_those_that_were_kept(
    turn: StreamStateView,
    registry: Map<Seq<char>, ToolKindView>,
    parsed: Seq<Result<JsonView, Seq<char>>>,
    ids: Seq<Seq<char>>,
    state: Lowering,
)
    requires
        turn.message_id is Some,
        turn.reasoning_id is Some,
        turn.reasoning_text.len() > 0,
        turn.reasoning_signature matches Some(signature) ==> signature.len() > 0,
        turn.tool_calls.len() == 0,
        state.pending is None,
    ensures
        ({
            &&& finished_turn(turn, registry, parsed, ids) matches Ok(finished)
            &&& finished.reasoning_item matches Some(reasoning)
            &&& finished.message_item matches Some(answer)
            &&& finished.internal_assistant_message matches Some(kept)
            &&& lowered_item(state, reasoning) matches Ok(thought)
            &&& lowered_item(thought, answer) matches Ok(after)
            &&& after.pending is None
            &&& after.messages == state.messages.push(kept)
        }),
{
    reveal_with_fuel(resolved_calls, 1);
    reveal_with_fuel(Seq::filter, 2);
    reveal_with_fuel(joined, 2);
    lemma_user_is_no_instructor();
    let text = turn.reasoning_text;
    let parts = seq![ReasoningContentItemView::ReasoningText { text }];
    let contents = parts.map_values(|item: ReasoningContentItemView| reasoning_part(item));
    let none = Seq::<ReasoningSummaryItemView>::empty();
    let summaries = none.map_values(|item: ReasoningSummaryItemView| item->text);
    assert(contents =~= seq![text]);
    assert(summaries =~= Seq::empty());
    assert(seq![text].drop_last() =~= Seq::empty());
    assert(filled(seq![text]) =~= seq![text]);
    assert(filled(Seq::empty()) =~= Seq::empty());
    assert(Seq::<Seq<char>>::empty() + seq![text] =~= seq![text]);
    assert(reasoning_text(none, Some(parts)) == text);
    assert(finished_turn(turn, registry, parsed, ids) is Ok);
}

} // verus!
