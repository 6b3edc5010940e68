//! What a client gets to see of tool calls and searches: whose call it is, which tool it calls, and
//! the whole input, once.
use vstd::prelude::*;

use crate::json::{json_parsed, JsonView};
use crate::models::anthropic::{AnthropicResponseContentBlockView, AnthropicStreamEventView};
use crate::sse::SseEventView;

use super::content_laws::{lemma_after_append, lemma_after_push, lemma_event_names, same_block};
use super::laws::converted;
use super::message::{AccumulatedBlockView, MessageAccumulatorView};
use super::{AnthropicStreamConverterView, ContentBlockStateView, Stream};

verus! {

/// Whether an event is a piece of the arguments of the given call, and not an empty one.
pub open spec fn is_call_piece(event: SseEventView, call_id: Seq<char>) -> bool {
    &&& event.event == "response.function_call_arguments.delta"@
    &&& event.data.get_str("call_id"@) == Some(call_id)
    &&& event.data.get_str("delta"@) matches Some(delta)
    &&& delta.len() > 0
}

/// The pieces of arguments of the first `count` events, one after the other.
pub open spec fn joined_pieces(events: Seq<SseEventView>, count: int) -> Seq<char>
    decreases count,
{
    if count <= 0 {
        Seq::empty()
    } else {
        joined_pieces(events, count - 1) + events[count - 1].data.get_str("delta"@)->0
    }
}

/// The name that an event gives to a tool, or none.
pub open spec fn tool_name_in(data: JsonView) -> Seq<char> {
    match data.get_str("name"@) {
        Some(name) => name,
        None => Seq::empty(),
    }
}

/// Whether nothing has been shown of a call.
pub open spec fn is_new_call(converter: AnthropicStreamConverterView, call_id: Seq<char>) -> bool {
    &&& !converter.emitted_tool_call_ids.contains(call_id)
    &&& !converter.closed_tool_call_ids.contains(call_id)
    &&& !(converter.open_block matches Some(ContentBlockStateView::ToolUse { index, call_id: open })
        && open == call_id)
}

pub(super) proof fn lemma_call_names(name: Seq<char>)
    ensures
        name == "response.function_call_arguments.delta"@ || name
            == "response.function_call_arguments.done"@ || name == "response.output_item.done"@
            ==> name != "response.reasoning_summary_text.signature_delta"@,
        "response.function_call_arguments.delta"@ != "response.function_call_arguments.done"@,
        "response.function_call_arguments.delta"@ != "response.output_item.done"@,
        "response.function_call_arguments.done"@ != "response.output_item.done"@,
{
    reveal_strlit("response.function_call_arguments.delta");
    reveal_strlit("response.function_call_arguments.done");
    reveal_strlit("response.output_item.done");
    reveal_strlit("response.reasoning_summary_text.signature_delta");
    assert("response.function_call_arguments.delta"@.len() == 38);
    assert("response.function_call_arguments.done"@.len() == 37);
    assert("response.output_item.done"@.len() == 25);
    assert("response.reasoning_summary_text.signature_delta"@.len() == 47);
}

/// A reader has read no more than what opens, closes or counts.
proof fn lemma_ready(from: MessageAccumulatorView, converter: AnthropicStreamConverterView)
    requires
        same_block(from.current_block, converter.open_block),
    ensures
        ({
            let begun = (Stream { converter, events: Seq::empty() }).begun();
            let closed = begun.closed();
            let message = from.after_all(begun.events);
            &&& message.current_block == from.current_block
            &&& message.blocks == from.blocks
            &&& begun.converter == (AnthropicStreamConverterView { started: true, ..converter })
            &&& from.after_all(closed.events).current_block is None
            &&& from.after_all(closed.events).blocks == (match from.current_block {
                Some(block) => from.blocks.push(block),
                None => from.blocks,
            })
            &&& closed.converter.open_block is None
        }),
{
    broadcast use lemma_after_push;

}

/// The first piece of a call that has not been shown opens a block with the id of the call and the
/// name of its tool, and goes into it.
proof fn lemma_first_piece(
    from: MessageAccumulatorView,
    converter: AnthropicStreamConverterView,
    event: SseEventView,
    call_id: Seq<char>,
)
    requires
        same_block(from.current_block, converter.open_block),
        is_call_piece(event, call_id),
        is_new_call(converter, call_id),
    ensures
        ({
            let step = (Stream { converter, events: Seq::empty() }).after(event);
            let message = from.after_all(step.events);
            &&& message.current_block == Some(
                AccumulatedBlockView::ToolUse {
                    id: call_id,
                    name: tool_name_in(event.data),
                    input: event.data.get_str("delta"@)->0,
                },
            )
            &&& step.converter.open_block matches Some(
                ContentBlockStateView::ToolUse { index, call_id: open },
            ) && open == call_id
            &&& !step.converter.emitted_tool_call_ids.contains(call_id)
            &&& !step.converter.closed_tool_call_ids.contains(call_id)
            &&& step.converter.has_tool_calls
            &&& message.blocks == (match from.current_block {
                Some(block) => from.blocks.push(block),
                None => from.blocks,
            })
        }),
{
    broadcast use lemma_after_push;

    lemma_event_names(event.event);
    lemma_call_names(event.event);
    lemma_ready(from, converter);
    let delta = event.data.get_str("delta"@)->0;
    assert(Seq::<char>::empty() + delta =~= delta);
}

/// A further piece goes into the open block of its call.
proof fn lemma_next_piece(
    from: MessageAccumulatorView,
    converter: AnthropicStreamConverterView,
    event: SseEventView,
    call_id: Seq<char>,
)
    requires
        is_call_piece(event, call_id),
        from.current_block is Some,
        from.current_block->0 is ToolUse,
        converter.open_block matches Some(ContentBlockStateView::ToolUse { index, call_id: open })
            && open == call_id,
        !converter.emitted_tool_call_ids.contains(call_id),
        !converter.closed_tool_call_ids.contains(call_id),
    ensures
        ({
            let step = (Stream { converter, events: Seq::empty() }).after(event);
            let message = from.after_all(step.events);
            let block = from.current_block->0;
            &&& message.current_block == Some(
                AccumulatedBlockView::ToolUse {
                    id: block->ToolUse_id,
                    name: block->ToolUse_name,
                    input: block->ToolUse_input + event.data.get_str("delta"@)->0,
                },
            )
            &&& message.blocks == from.blocks
            &&& step.converter.open_block == converter.open_block
            &&& step.converter.emitted_tool_call_ids == converter.emitted_tool_call_ids
            &&& step.converter.closed_tool_call_ids == converter.closed_tool_call_ids
        }),
{
    broadcast use lemma_after_push;

    lemma_event_names(event.event);
    lemma_call_names(event.event);
}

/// A call whose arguments come in pieces is gathered as one block with its id, the name that came
/// with the first piece, and all the pieces in their order.
pub proof fn law_streamed_call_is_gathered_whole(
    from: MessageAccumulatorView,
    start: AnthropicStreamConverterView,
    events: Seq<SseEventView>,
    count: int,
    call_id: Seq<char>,
)
    requires
        count > 0,
        same_block(from.current_block, start.open_block),
        is_new_call(start, call_id),
        forall|k: int| 0 <= k < count ==> is_call_piece(#[trigger] events[k], call_id),
    ensures
        ({
            let all = converted(start, events, count);
            let message = from.after_all(all.events);
            &&& message.current_block == Some(
                AccumulatedBlockView::ToolUse {
                    id: call_id,
                    name: tool_name_in(events[0].data),
                    input: joined_pieces(events, count),
                },
            )
            &&& all.converter.open_block matches Some(
                ContentBlockStateView::ToolUse { index, call_id: open },
            ) && open == call_id
            &&& !all.converter.emitted_tool_call_ids.contains(call_id)
            &&& !all.converter.closed_tool_call_ids.contains(call_id)
        }),
    decreases count,
{
    let before = converted(start, events, count - 1);
    let event = events[count - 1];
    let step = (Stream { converter: before.converter, events: Seq::empty() }).after(event);
    lemma_after_append(from, before.events, step.events);
    if count == 1 {
        assert(before.events =~= Seq::empty());
        lemma_first_piece(from, start, event, call_id);
        let delta = event.data.get_str("delta"@)->0;
        assert(joined_pieces(events, 0) + delta =~= delta);
        assert(joined_pieces(events, 1) =~= delta);
    } else {
        law_streamed_call_is_gathered_whole(from, start, events, count - 1, call_id);
        lemma_next_piece(from.after_all(before.events), before.converter, event, call_id);
    }
}

/// When the arguments of a call that was shown piece by piece are over, its block is closed as it is:
/// what is said of them at the end is not added to it.
pub proof fn law_streamed_call_is_closed_as_it_is(
    from: MessageAccumulatorView,
    converter: AnthropicStreamConverterView,
    event: SseEventView,
    call_id: Seq<char>,
)
    requires
        same_block(from.current_block, converter.open_block),
        converter.open_block matches Some(ContentBlockStateView::ToolUse { index, call_id: open })
            && open == call_id,
        !converter.emitted_tool_call_ids.contains(call_id),
        !converter.closed_tool_call_ids.contains(call_id),
        event.event == "response.function_call_arguments.done"@,
        event.data.get_str("call_id"@) == Some(call_id),
    ensures
        ({
            let step = (Stream { converter, events: Seq::empty() }).after(event);
            let message = from.after_all(step.events);
            &&& message.current_block is None
            &&& message.blocks == from.blocks.push(from.current_block->0)
            &&& step.converter.emitted_tool_call_ids.contains(call_id)
            &&& step.converter.open_block is None
        }),
{
    broadcast use lemma_after_push;

    lemma_event_names(event.event);
    lemma_call_names(event.event);
}

/// What the event that ends the arguments of a call says of them.
pub open spec fn arguments_in(data: JsonView) -> Seq<char> {
    match data.get_str("arguments"@) {
        Some(text) => text,
        None => "{}"@,
    }
}

proof fn lemma_whole_call(
    from: MessageAccumulatorView,
    stream: Stream,
    call_id: Seq<char>,
    name: Seq<char>,
    arguments: Seq<char>,
    show_empty: bool,
)
    requires
        same_block(from.after_all(stream.events).current_block, stream.converter.open_block),
        !stream.in_tool_call(call_id),
    ensures
        ({
            let after = stream.whole_call(call_id, name, arguments, show_empty);
            let before = from.after_all(stream.events);
            let message = from.after_all(after.events);
            &&& message.current_block is None
            &&& message.blocks == (match before.current_block {
                Some(block) => before.blocks.push(block),
                None => before.blocks,
            }).push(AccumulatedBlockView::ToolUse { id: call_id, name, input: arguments })
            &&& after.converter.emitted_tool_call_ids.contains(call_id)
            &&& after.converter.open_block is None
            &&& after.converter.has_tool_calls == stream.converter.has_tool_calls
        }),
{
    broadcast use lemma_after_push;

    assert(Seq::<char>::empty() + arguments =~= arguments);
    if arguments.len() == 0 {
        assert(arguments =~= Seq::empty());
    }
}

/// A call that comes whole, without any piece before, is gathered as one block with its id, its name
/// and its whole arguments.
pub proof fn law_whole_call_is_gathered_whole(
    from: MessageAccumulatorView,
    converter: AnthropicStreamConverterView,
    event: SseEventView,
    call_id: Seq<char>,
)
    requires
        same_block(from.current_block, converter.open_block),
        is_new_call(converter, call_id),
        event.event == "response.function_call_arguments.done"@,
        event.data.get_str("call_id"@) == Some(call_id),
    ensures
        ({
            let step = (Stream { converter, events: Seq::empty() }).after(event);
            let message = from.after_all(step.events);
            &&& message.current_block is None
            &&& message.blocks.last() == (AccumulatedBlockView::ToolUse {
                id: call_id,
                name: tool_name_in(event.data),
                input: arguments_in(event.data),
            })
            &&& message.blocks.len() == from.blocks.len() + (if from.current_block is Some {
                2int
            } else {
                1
            })
            &&& step.converter.emitted_tool_call_ids.contains(call_id)
            &&& step.converter.has_tool_calls
        }),
{
    lemma_event_names(event.event);
    lemma_call_names(event.event);
    lemma_ready(from, converter);
    let begun = (Stream { converter, events: Seq::empty() }).begun();
    lemma_whole_call(
        from,
        begun.calling_tools(),
        call_id,
        tool_name_in(event.data),
        arguments_in(event.data),
        false,
    );
}

/// Whether an item is a call of a tool.
pub open spec fn is_call_item(item: JsonView) -> bool {
    item.get_str("type"@) == Some("function_call"@) || item.get_str("type"@) == Some(
        "custom_tool_call"@,
    )
}

pub(super) proof fn lemma_item_kinds(item: JsonView)
    requires
        is_call_item(item),
    ensures
        item.get_str("type"@) != Some("message"@),
        item.get_str("type"@) != Some("reasoning"@),
{
    reveal_strlit("function_call");
    reveal_strlit("custom_tool_call");
    reveal_strlit("message");
    reveal_strlit("reasoning");
    assert("function_call"@.len() == 13);
    assert("custom_tool_call"@.len() == 16);
    assert("message"@.len() == 7);
    assert("reasoning"@.len() == 9);
}

/// A finished call item that nothing has been shown of is gathered as one block with its id, its name
/// and its whole arguments.
pub proof fn law_call_item_is_gathered_whole(
    from: MessageAccumulatorView,
    converter: AnthropicStreamConverterView,
    event: SseEventView,
    item: JsonView,
    call_id: Seq<char>,
)
    requires
        same_block(from.current_block, converter.open_block),
        is_new_call(converter, call_id),
        event.event == "response.output_item.done"@,
        event.data.get("item"@) == Some(item),
        is_call_item(item),
        item.get_str("call_id"@) == Some(call_id),
    ensures
        ({
            let step = (Stream { converter, events: Seq::empty() }).after(event);
            let message = from.after_all(step.events);
            &&& message.current_block is None
            &&& message.blocks.last() == (AccumulatedBlockView::ToolUse {
                id: call_id,
                name: tool_name_in(item),
                input: arguments_in(item),
            })
            &&& step.converter.emitted_tool_call_ids.contains(call_id)
            &&& step.converter.has_tool_calls
        }),
{
    broadcast use lemma_after_push;

    lemma_event_names(event.event);
    lemma_call_names(event.event);
    lemma_item_kinds(item);
    let stream = Stream { converter, events: Seq::empty() };
    lemma_whole_call(
        from,
        stream.closed().calling_tools(),
        call_id,
        tool_name_in(item),
        arguments_in(item),
        true,
    );
}

/// Whether no block of a tool opens and no input is shown.
pub open spec fn shows_no_call(events: Seq<AnthropicStreamEventView>) -> bool {
    forall|k: int|
        0 <= k < events.len() ==> !((#[trigger] events[k]) matches
            AnthropicStreamEventView::ContentBlockStart { index, content_block }
            && content_block is ToolUse) && !(events[k] matches
            AnthropicStreamEventView::ContentBlockDelta { index, delta } && delta is InputJsonDelta)
}

/// A call that has been shown is not shown again, however it comes.
pub proof fn law_shown_calls_are_not_repeated(
    converter: AnthropicStreamConverterView,
    event: SseEventView,
    call_id: Seq<char>,
)
    requires
        converter.emitted_tool_call_ids.contains(call_id)
            || converter.closed_tool_call_ids.contains(call_id),
        event.event == "response.function_call_arguments.delta"@ && event.data.get_str("call_id"@)
            == Some(call_id) || event.event == "response.function_call_arguments.done"@
            && event.data.get_str("call_id"@) == Some(call_id) || event.event
            == "response.output_item.done"@ && (event.data.get("item"@) matches Some(item)
            && is_call_item(item) && item.get_str("call_id"@) == Some(call_id)),
    ensures
        shows_no_call((Stream { converter, events: Seq::empty() }).after(event).events),
{
    lemma_event_names(event.event);
    lemma_call_names(event.event);
    if let Some(item) = event.data.get("item"@) {
        if is_call_item(item) {
            lemma_item_kinds(item);
        }
    }
}

/// A gathered call says to the client which call it is, which tool it calls, and the input that its
/// whole text stands for.
pub proof fn law_gathered_call_is_told_whole(
    message: MessageAccumulatorView,
    fresh: Seq<char>,
    at: int,
    id: Seq<char>,
    name: Seq<char>,
    input: Seq<char>,
)
    requires
        message.response(fresh) is Ok,
        0 <= at < message.blocks.len(),
        message.blocks[at] == (AccumulatedBlockView::ToolUse { id, name, input }),
    ensures
        message.response(fresh)->Ok_0.content.len() == message.blocks.len(),
        match json_parsed(input) {
            Ok(value) => message.response(fresh)->Ok_0.content[at]
                == (AnthropicResponseContentBlockView::ToolUse { id, name, input: value }),
            Err(_) => message.response(fresh)->Ok_0.content[at]
                == (AnthropicResponseContentBlockView::ToolUse {
                id,
                name,
                input: JsonView::Object(Map::empty()),
            }),
        },
{
}

/// A search on the server is gathered as two blocks under its id: the call with its query, and the
/// results as they came.
pub proof fn law_search_is_gathered_whole(
    from: MessageAccumulatorView,
    converter: AnthropicStreamConverterView,
    event: SseEventView,
    id: Seq<char>,
    query: Seq<char>,
    results: JsonView,
)
    requires
        same_block(from.current_block, converter.open_block),
        event.event == "response.web_search_results"@,
        event.data.get_str("tool_use_id"@) == Some(id),
        event.data.get_str("query"@) == Some(query),
        event.data.get("results"@) == Some(results),
    ensures
        ({
            let step = (Stream { converter, events: Seq::empty() }).after(event);
            let message = from.after_all(step.events);
            let count = message.blocks.len();
            &&& message.current_block is None
            &&& count >= 2
            &&& message.blocks[count - 2] == (AccumulatedBlockView::ServerToolUse {
                id,
                name: "web_search"@,
                input: crate::json::json_rendered(
                    JsonView::Object(map!["query"@ => JsonView::Text(query)]),
                ),
            })
            &&& message.blocks[count - 1] == (AccumulatedBlockView::WebSearchToolResult {
                tool_use_id: id,
                content: results,
            })
            &&& step.converter.web_search_count == (converter.web_search_count + 1) as u64
        }),
{
    broadcast use lemma_after_push;

    lemma_event_names(event.event);
    reveal_strlit("response.web_search_results");
    lemma_ready(from, converter);
    let stream = Stream { converter, events: Seq::empty() };
    let ready = stream.begun().closed();
    let e = super::search_events(event.data, ready.converter.next_block_index);
    let after = stream.web_search_results(event.data);
    lemma_search_name();
    assert(after.events =~= ready.events.push(e[0]).push(e[1]).push(e[2]).push(e[3]).push(e[4]));
    let json = crate::json::json_rendered(
        JsonView::Object(map!["query"@ => JsonView::Text(query)]),
    );
    assert(Seq::<char>::empty() + json =~= json);
}

proof fn lemma_search_name()
    ensures
        "response.web_search_results"@ != "response.reasoning_summary_text.signature_delta"@,
        "response.web_search_results"@ != "response.function_call_arguments.delta"@,
        "response.web_search_results"@ != "response.function_call_arguments.done"@,
        "response.web_search_results"@ != "response.output_item.done"@,
        "response.web_search_results"@ != "response.completed"@,
        "response.web_search_results"@ != "response.incomplete"@,
        "response.web_search_results"@ != "response.failed"@,
{
    reveal_strlit("response.web_search_results");
    reveal_strlit("response.reasoning_summary_text.signature_delta");
    reveal_strlit("response.function_call_arguments.delta");
    reveal_strlit("response.function_call_arguments.done");
    reveal_strlit("response.output_item.done");
    reveal_strlit("response.completed");
    reveal_strlit("response.incomplete");
    reveal_strlit("response.failed");
    assert("response.web_search_results"@.len() == 27);
}

/// The signature of a piece of thinking goes into the open block of thinking, as it came.
pub proof fn law_signature_is_gathered(
    from: MessageAccumulatorView,
    converter: AnthropicStreamConverterView,
    event: SseEventView,
    signature: Seq<char>,
)
    requires
        from.current_block is Some,
        from.current_block->0 is Thinking,
        converter.open_block matches Some(ContentBlockStateView::Thinking { index }),
        event.event == "response.reasoning_summary_text.signature_delta"@,
        event.data.get_str("signature"@) == Some(signature),
    ensures
        ({
            let step = (Stream { converter, events: Seq::empty() }).after(event);
            let message = from.after_all(step.events);
            &&& message.blocks == from.blocks
            &&& message.current_block == Some(
                AccumulatedBlockView::Thinking {
                    text: from.current_block->0->Thinking_text,
                    signature: Some(signature),
                },
            )
        }),
{
    broadcast use lemma_after_push;

    lemma_event_names(event.event);
}

/// Signed thinking and searches are told to the client as they were gathered.
pub proof fn law_gathered_blocks_are_told_as_they_are(
    message: MessageAccumulatorView,
    fresh: Seq<char>,
    at: int,
)
    requires
        message.response(fresh) is Ok,
        0 <= at < message.blocks.len(),
    ensures
        ({
            let told = message.response(fresh)->Ok_0.content[at];
            match message.blocks[at] {
                AccumulatedBlockView::Text { text } => told
                    == (AnthropicResponseContentBlockView::Text { text }),
                AccumulatedBlockView::Thinking { text, signature } => told
                    == (AnthropicResponseContentBlockView::Thinking { thinking: text, signature }),
                AccumulatedBlockView::WebSearchToolResult { tool_use_id, content } => told
                    == (AnthropicResponseContentBlockView::WebSearchToolResult {
                    tool_use_id,
                    content,
                }),
                AccumulatedBlockView::ServerToolUse { id, name, input } => told matches
                    AnthropicResponseContentBlockView::ServerToolUse {
                    id: told_id,
                    name: told_name,
                    input: value,
                } && told_id == id && told_name == name && (json_parsed(input) is Ok ==> Ok::<
                    JsonView,
                    Seq<char>,
                >(value) == json_parsed(input)),
                _ => true,
            }
        }),
{
}

} // verus!
