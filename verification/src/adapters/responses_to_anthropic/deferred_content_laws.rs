//! What a client gets to read where reasoning is held back until it is known what it led to: every
//! word that came in, once, as answer or as thinking.
use vstd::prelude::*;

use crate::json::JsonView;
use crate::models::anthropic::{
    AnthropicContentBlockStartView, AnthropicDeltaView, AnthropicStreamEventView,
};
use crate::sse::SseEventView;
use crate::text::{byte_len, concatenated};

use super::call_laws::{
    arguments_in, is_call_item, lemma_call_names, lemma_item_kinds, tool_name_in,
};
use super::content_laws::{
    answer_in, block_text, block_thinking, content_text, content_thinking, is_reasoning_delta,
    lemma_after_append, lemma_after_push, lemma_blocks_push, lemma_blocks_thinking_push,
    lemma_event_names, lemma_response_reads_alike, lemma_shown_append, lemma_shown_push,
    message_text, message_thinking, reasoning_in, shown, whole_answer_in,
};
use super::deferred::{
    is_clean_stop, is_hidden_tool, new_converter, response_usage, text_block, thinking_block,
    thinking_deltas, AnthropicStreamCollectorView, AnthropicStreamConverterView,
    ContentBlockStateView, Stream,
};
use super::deferred_laws::converted;
use super::end_laws::{
    cut_off_reason, end_of, is_end, lemma_end_names, reported, response_in, stop_string,
};
use super::message::{AccumulatedBlockView, MessageAccumulatorView};
use super::search_events;

verus! {

// ---------------------------------------------------------------------------------------------
// Reading
// ---------------------------------------------------------------------------------------------

/// The reasoning that a converter holds back.
pub open spec fn held_by(converter: AnthropicStreamConverterView) -> Seq<char> {
    concatenated(converter.reasoning.reasoning_buffer)
}

/// The block that a reader has before it is the one that the converter has open.
pub open spec fn same_block(
    current: Option<AccumulatedBlockView>,
    open: Option<ContentBlockStateView>,
) -> bool {
    match open {
        None => current is None,
        Some(ContentBlockStateView::Text { index }) => current matches Some(
            AccumulatedBlockView::Text { text },
        ),
        Some(ContentBlockStateView::ToolUse { index, call_id }) => current matches Some(
            AccumulatedBlockView::ToolUse { id, name, input },
        ) && id == call_id,
    }
}

/// What a reader that had read `from` before has read by now.
spec fn reads(
    from: MessageAccumulatorView,
    stream: Stream,
    text: Seq<char>,
    thinking: Seq<char>,
) -> bool {
    let message = from.after_all(stream.events);
    &&& same_block(message.current_block, stream.converter.open_block)
    &&& message_text(message) == message_text(from) + text
    &&& message_thinking(message) == message_thinking(from) + thinking
    &&& shown(stream.events).text == text
    &&& shown(stream.events).thinking == thinking
}

proof fn lemma_reads_stay(
    from: MessageAccumulatorView,
    before: Stream,
    after: Stream,
    text: Seq<char>,
    thinking: Seq<char>,
)
    requires
        reads(from, before, text, thinking),
        after.events == before.events,
        after.converter.open_block == before.converter.open_block,
    ensures
        reads(from, after, text, thinking),
{
}

proof fn lemma_begun(
    from: MessageAccumulatorView,
    stream: Stream,
    text: Seq<char>,
    thinking: Seq<char>,
)
    requires
        reads(from, stream, text, thinking),
    ensures
        reads(from, stream.begun(), text, thinking),
        stream.begun().converter == (AnthropicStreamConverterView {
            started: true,
            ..stream.converter
        }),
{
    broadcast use lemma_shown_push, lemma_after_push;

}

proof fn lemma_closed(
    from: MessageAccumulatorView,
    stream: Stream,
    text: Seq<char>,
    thinking: Seq<char>,
)
    requires
        reads(from, stream, text, thinking),
    ensures
        reads(from, stream.closed(), text, thinking),
        stream.closed().converter.open_block is None,
        stream.closed().converter.reasoning == stream.converter.reasoning,
{
    broadcast use lemma_shown_push, lemma_after_push, lemma_blocks_push, lemma_blocks_thinking_push;

}

proof fn lemma_opened(
    from: MessageAccumulatorView,
    stream: Stream,
    text: Seq<char>,
    thinking: Seq<char>,
    block: ContentBlockStateView,
    start: AnthropicContentBlockStartView,
)
    requires
        reads(from, stream, text, thinking),
        stream.converter.open_block is None,
        match block {
            ContentBlockStateView::Text { index } => start is Text,
            ContentBlockStateView::ToolUse { index, call_id } => start is ToolUse
                && start->ToolUse_id == call_id,
        },
    ensures
        reads(from, stream.opened(block, start), text, thinking),
        stream.opened(block, start).converter.open_block == Some(block),
        stream.opened(block, start).converter.reasoning == stream.converter.reasoning,
{
    broadcast use lemma_shown_push, lemma_after_push;

    let message = from.after_all(stream.opened(block, start).events);
    assert(message_text(message) =~= message_text(from.after_all(stream.events)));
    assert(message_thinking(message) =~= message_thinking(from.after_all(stream.events)));
}

proof fn lemma_grown(
    from: MessageAccumulatorView,
    stream: Stream,
    text: Seq<char>,
    thinking: Seq<char>,
    delta: AnthropicDeltaView,
    added: Seq<char>,
)
    requires
        reads(from, stream, text, thinking),
        match stream.converter.open_block {
            Some(ContentBlockStateView::Text { index }) => delta is TextDelta,
            Some(ContentBlockStateView::ToolUse { index, call_id }) => delta is InputJsonDelta,
            None => false,
        },
    ensures
        reads(
            from,
            stream.grown(delta, added),
            text + (match delta {
                AnthropicDeltaView::TextDelta { text } => text,
                _ => Seq::empty(),
            }),
            thinking,
        ),
        stream.grown(delta, added).converter.open_block == stream.converter.open_block,
        stream.grown(delta, added).converter.reasoning == stream.converter.reasoning,
{
    broadcast use lemma_shown_push, lemma_after_push;

    let new = match delta {
        AnthropicDeltaView::TextDelta { text } => text,
        _ => Seq::empty(),
    };
    let after = stream.grown(delta, added);
    let event = AnthropicStreamEventView::ContentBlockDelta {
        index: stream.converter.open_block->0.position(),
        delta,
    };
    assert(after.events == stream.events.push(event));
    let before = from.after_all(stream.events);
    let message = from.after_all(after.events);
    assert(message == before.after(event));
    let block = before.current_block->0;
    assert(block_text(message.current_block->0) =~= block_text(block) + new);
    assert(block_thinking(message.current_block->0) =~= block_thinking(block));
    assert(message_text(message) =~= message_text(before) + new);
    assert(message_text(message) =~= message_text(from) + (text + new));
    assert(message_thinking(message) =~= message_thinking(before));
    assert(shown(after.events).text =~= text + new);
}

proof fn lemma_deltas(
    message: MessageAccumulatorView,
    events: Seq<AnthropicStreamEventView>,
    chunks: Seq<Seq<char>>,
    index: usize,
)
    requires
        message.after_all(events).current_block == Some(
            AccumulatedBlockView::Thinking { text: Seq::empty(), signature: None },
        ),
    ensures
        message.after_all(events + thinking_deltas(chunks, index)) == (MessageAccumulatorView {
            current_block: Some(
                AccumulatedBlockView::Thinking { text: concatenated(chunks), signature: None },
            ),
            ..message.after_all(events)
        }),
        shown(events + thinking_deltas(chunks, index)).thinking == shown(events).thinking
            + concatenated(chunks),
        shown(events + thinking_deltas(chunks, index)).text == shown(events).text,
        shown(events + thinking_deltas(chunks, index)).json == shown(events).json,
    decreases chunks.len(),
{
    broadcast use lemma_shown_push, lemma_after_push;

    if chunks.len() == 0 {
        assert(events + thinking_deltas(chunks, index) =~= events);
        assert(shown(events).thinking + concatenated(chunks) =~= shown(events).thinking);
    } else {
        let fewer = chunks.drop_last();
        lemma_deltas(message, events, fewer, index);
        let last = AnthropicStreamEventView::ContentBlockDelta {
            index,
            delta: AnthropicDeltaView::ThinkingDelta { thinking: chunks.last() },
        };
        assert(events + thinking_deltas(chunks, index) =~= (events + thinking_deltas(
            fewer,
            index,
        )).push(last));
        assert(shown(events).thinking + concatenated(fewer) + chunks.last() =~= shown(
            events,
        ).thinking + concatenated(chunks));
    }
}

proof fn lemma_thought(
    from: MessageAccumulatorView,
    stream: Stream,
    text: Seq<char>,
    thinking: Seq<char>,
    chunks: Seq<Seq<char>>,
    signature: Option<Seq<char>>,
)
    requires
        reads(from, stream, text, thinking),
        stream.converter.open_block is None,
    ensures
        ({
            let index = stream.converter.next_block_index;
            let after = stream.shown(thinking_block(chunks, signature, index), 1);
            &&& reads(from, after, text, thinking + concatenated(chunks))
            &&& from.after_all(after.events).blocks.last() matches AccumulatedBlockView::Thinking {
                text,
                signature: told,
            }
            &&& text == concatenated(chunks)
            &&& signature is Some ==> told == signature
            &&& told is Some
        }),
{
    broadcast use lemma_shown_push, lemma_after_push, lemma_blocks_push, lemma_blocks_thinking_push;

    let index = stream.converter.next_block_index;
    let block = thinking_block(chunks, signature, index);
    let after = stream.shown(block, 1);
    let begun = stream.events.push(block[0]);
    let told = begun + thinking_deltas(chunks, index);
    let sign = block[block.len() - 2];
    let stop = block[block.len() - 1];
    assert(after.events =~= told.push(sign).push(stop));
    lemma_deltas(from, begun, chunks, index);
    let before = from.after_all(stream.events);
    let message = from.after_all(after.events);
    assert(message_text(message) =~= message_text(before));
    assert(message_thinking(message) =~= message_thinking(before) + concatenated(chunks));
    assert(message_thinking(message) =~= message_thinking(from) + (thinking + concatenated(
        chunks,
    )));
}

proof fn lemma_said(
    from: MessageAccumulatorView,
    stream: Stream,
    text: Seq<char>,
    thinking: Seq<char>,
    said: Seq<char>,
)
    requires
        reads(from, stream, text, thinking),
        stream.converter.open_block is None,
    ensures
        reads(
            from,
            stream.shown(text_block(said, stream.converter.next_block_index), 1),
            text + said,
            thinking,
        ),
{
    broadcast use lemma_shown_push, lemma_after_push, lemma_blocks_push, lemma_blocks_thinking_push;

    let e = text_block(said, stream.converter.next_block_index);
    let after = stream.shown(e, 1);
    assert(after.events =~= stream.events.push(e[0]).push(e[1]).push(e[2]));
    let before = from.after_all(stream.events);
    let message = from.after_all(after.events);
    assert(Seq::<char>::empty() + said =~= said);
    assert(message_text(message) =~= message_text(before) + said);
    assert(message_text(message) =~= message_text(from) + (text + said));
    assert(message_thinking(message) =~= message_thinking(before));
}

proof fn lemma_flushed(
    from: MessageAccumulatorView,
    stream: Stream,
    text: Seq<char>,
    thinking: Seq<char>,
)
    requires
        reads(from, stream, text, thinking),
    ensures
        reads(from, stream.flushed(), text, thinking + held_by(stream.converter)),
        held_by(stream.flushed().converter).len() == 0,
        stream.flushed().converter.reasoning.reasoning_buffer.len() == 0,
        stream.flushed().converter.started == stream.converter.started,
{
    let reasoning = stream.converter.reasoning;
    if reasoning.reasoning_buffer.len() == 0 {
        assert(thinking + held_by(stream.converter) =~= thinking);
    } else {
        lemma_closed(from, stream, text, thinking);
        let ready = stream.closed();
        lemma_thought(
            from,
            ready,
            text,
            thinking,
            reasoning.reasoning_buffer,
            reasoning.reasoning_signature,
        );
    }
}

proof fn lemma_resolved(
    from: MessageAccumulatorView,
    stream: Stream,
    text: Seq<char>,
    thinking: Seq<char>,
    clean_stop: bool,
)
    requires
        reads(from, stream, text, thinking),
    ensures
        ({
            let held = held_by(stream.converter);
            let after = stream.resolved(clean_stop);
            &&& stream.converter.reasoning.is_answer(clean_stop) ==> reads(
                from,
                after,
                text + held,
                thinking,
            )
            &&& !stream.converter.reasoning.is_answer(clean_stop) ==> reads(
                from,
                after,
                text,
                thinking + held,
            )
            &&& held_by(after.converter).len() == 0
        }),
{
    let reasoning = stream.converter.reasoning;
    lemma_flushed(from, stream, text, thinking);
    if reasoning.reasoning_buffer.len() > 0 && reasoning.is_answer(clean_stop) {
        let marked = stream.with_reasoning(
            super::reasoning::ReasoningEgressStateView {
                reasoning_buffer: Seq::empty(),
                reasoning_signature: None,
                content_started: true,
                ..reasoning
            },
        );
        lemma_reads_stay(from, stream, marked, text, thinking);
        lemma_closed(from, marked, text, thinking);
        lemma_said(
            from,
            marked.closed(),
            text,
            thinking,
            concatenated(reasoning.reasoning_buffer),
        );
    } else if reasoning.reasoning_buffer.len() == 0 {
        assert(text + held_by(stream.converter) =~= text);
        assert(thinking + held_by(stream.converter) =~= thinking);
    }
}

proof fn lemma_text_begun(
    from: MessageAccumulatorView,
    stream: Stream,
    text: Seq<char>,
    thinking: Seq<char>,
)
    requires
        reads(from, stream, text, thinking),
    ensures
        reads(from, stream.text_begun(), text, thinking + held_by(stream.converter)),
        stream.text_begun().converter.open_block matches Some(ContentBlockStateView::Text { index }),
        held_by(stream.text_begun().converter).len() == 0,
{
    lemma_flushed(from, stream, text, thinking);
    let thought = thinking + held_by(stream.converter);
    lemma_closed(from, stream.flushed(), text, thought);
    let ready = stream.flushed().closed();
    lemma_reads_stay(from, ready, ready.content_started(), text, thought);
    lemma_opened(
        from,
        ready.content_started(),
        text,
        thought,
        ContentBlockStateView::Text { index: ready.converter.next_block_index },
        AnthropicContentBlockStartView::Text { text: Seq::empty() },
    );
}

proof fn lemma_opened_tool(
    from: MessageAccumulatorView,
    stream: Stream,
    text: Seq<char>,
    thinking: Seq<char>,
    call_id: Seq<char>,
    name: Seq<char>,
)
    requires
        reads(from, stream, text, thinking),
    ensures
        ({
            let after = stream.opened_tool(call_id, name);
            &&& after.in_tool_call(call_id)
            &&& stream.in_tool_call(call_id) ==> after == stream
            &&& !stream.in_tool_call(call_id) ==> reads(
                from,
                after,
                text,
                thinking + held_by(stream.converter),
            ) && held_by(after.converter).len() == 0 && from.after_all(after.events).current_block
                == Some(AccumulatedBlockView::ToolUse { id: call_id, name, input: Seq::empty() })
        }),
{
    broadcast use lemma_after_push;

    if !stream.in_tool_call(call_id) {
        lemma_flushed(from, stream, text, thinking);
        let thought = thinking + held_by(stream.converter);
        let flushed = stream.flushed();
        lemma_reads_stay(from, flushed, flushed.content_started(), text, thought);
        lemma_closed(from, flushed.content_started(), text, thought);
        let ready = flushed.content_started().closed();
        lemma_opened(
            from,
            ready,
            text,
            thought,
            ContentBlockStateView::ToolUse { index: ready.converter.next_block_index, call_id },
            AnthropicContentBlockStartView::ToolUse {
                id: call_id,
                name,
                input: JsonView::Object(Map::empty()),
            },
        );
    }
}

/// What was held back is either still held back or has been read as thinking.
spec fn held_on(
    from: MessageAccumulatorView,
    held: Seq<char>,
    stream: Stream,
    text: Seq<char>,
) -> bool {
    exists|thinking: Seq<char>| #[trigger]
        reads(from, stream, text, thinking) && thinking + held_by(stream.converter) == held
}

proof fn lemma_whole_call(
    from: MessageAccumulatorView,
    stream: Stream,
    text: Seq<char>,
    thinking: Seq<char>,
    call_id: Seq<char>,
    name: Seq<char>,
    arguments: Seq<char>,
    show_empty: bool,
)
    requires
        reads(from, stream, text, thinking),
    ensures
        held_on(
            from,
            thinking + held_by(stream.converter),
            stream.whole_call(call_id, name, arguments, show_empty),
            text,
        ),
        !stream.in_tool_call(call_id) ==> {
            let message = from.after_all(
                stream.whole_call(call_id, name, arguments, show_empty).events,
            );
            &&& message.current_block is None
            &&& message.blocks.len() > 0
            &&& message.blocks.last() == (AccumulatedBlockView::ToolUse {
                id: call_id,
                name,
                input: arguments,
            })
        },
{
    broadcast use lemma_after_push;

    lemma_opened_tool(from, stream, text, thinking, call_id, name);
    let open = stream.opened_tool(call_id, name);
    let delta = AnthropicDeltaView::InputJsonDelta { partial_json: arguments };
    let held = thinking + held_by(stream.converter);
    let thought = if stream.in_tool_call(call_id) {
        thinking
    } else {
        held
    };
    assert(reads(from, open, text, thought));
    assert(thought + held_by(open.converter) =~= held);
    lemma_grown(from, open, text, thought, delta, arguments);
    assert(text + Seq::<char>::empty() =~= text);
    let filled = if arguments.len() > 0 || show_empty {
        open.grown(delta, arguments)
    } else {
        open
    };
    lemma_closed(from, filled, text, thought);
    let done = filled.closed().tool_call_done(call_id);
    lemma_reads_stay(from, filled.closed(), done, text, thought);
    assert(reads(from, done, text, thought));
    assert(Seq::<char>::empty() + arguments =~= arguments);
    if !stream.in_tool_call(call_id) {
        let message = from.after_all(open.events);
        assert(from.after_all(filled.events).current_block == Some(
            AccumulatedBlockView::ToolUse { id: call_id, name, input: arguments },
        ));
    }
}

proof fn lemma_ended(
    from: MessageAccumulatorView,
    stream: Stream,
    text: Seq<char>,
    thinking: Seq<char>,
    stop_reason: Seq<char>,
    stop_sequence: Option<JsonView>,
    input_tokens: Option<u64>,
    details: Option<crate::models::anthropic::AnthropicOutputTokensDetailsView>,
)
    requires
        reads(from, stream, text, thinking),
    ensures
        reads(
            from,
            stream.ended(stop_reason, stop_sequence, input_tokens, details),
            text,
            thinking,
        ),
{
    broadcast use lemma_shown_push, lemma_after_push;

}

#[verifier::rlimit(50)]
proof fn lemma_search(
    from: MessageAccumulatorView,
    stream: Stream,
    text: Seq<char>,
    thinking: Seq<char>,
    data: JsonView,
)
    requires
        reads(from, stream, text, thinking),
    ensures
        reads(
            from,
            stream.web_search_results(data),
            text,
            thinking + held_by(stream.converter),
        ),
        held_by(stream.web_search_results(data).converter).len() == 0,
{
    broadcast use lemma_shown_push, lemma_after_push, lemma_blocks_push, lemma_blocks_thinking_push;

    lemma_begun(from, stream, text, thinking);
    lemma_flushed(from, stream.begun(), text, thinking);
    let thought = thinking + held_by(stream.converter);
    lemma_closed(from, stream.begun().flushed(), text, thought);
    let ready = stream.begun().flushed().closed();
    let e = search_events(data, ready.converter.next_block_index);
    let after = stream.web_search_results(data);
    assert(after.events =~= ready.events.push(e[0]).push(e[1]).push(e[2]).push(e[3]).push(e[4]));
    let message = from.after_all(after.events);
    assert(message_text(message) =~= message_text(from.after_all(ready.events)));
    assert(message_thinking(message) =~= message_thinking(from.after_all(ready.events)));
}

// ---------------------------------------------------------------------------------------------
// Single events
// ---------------------------------------------------------------------------------------------

/// The reasoning that an event adds to what is held back: none where the client is not to see it,
/// and none where it comes too late.
pub open spec fn reasoning_taken(
    converter: AnthropicStreamConverterView,
    event: SseEventView,
) -> Seq<char> {
    if converter.suppress_reasoning || converter.reasoning.content_started
        || converter.reasoning.has_tool_calls {
        Seq::empty()
    } else {
        reasoning_in(event)
    }
}

/// The reasoning that an event turns into the answer: all that was held back, where the model stops
/// of its own accord and has neither said anything nor called a tool nor signed its reasoning.
pub open spec fn reasoning_promoted(
    converter: AnthropicStreamConverterView,
    event: SseEventView,
) -> Seq<char> {
    let reasoning = converter.reasoning;
    if is_end(event.event) && is_clean_stop(event.event, event.data) && !reasoning.content_started
        && !reasoning.has_tool_calls && reasoning.reasoning_signature is None {
        held_by(converter)
    } else {
        Seq::empty()
    }
}

/// What one event other than the last does to what is read and to what is held back.
#[verifier::opaque]
spec fn step_keeps(
    from: MessageAccumulatorView,
    converter: AnthropicStreamConverterView,
    event: SseEventView,
    after: Stream,
) -> bool {
    &&& reads(from, after, answer_in(event), shown(after.events).thinking)
    &&& shown(after.events).thinking + held_by(after.converter) == held_by(converter)
        + reasoning_taken(converter, event)
}

/// Nothing of the answer and nothing of the reasoning comes with the event.
proof fn lemma_silent_event(
    from: MessageAccumulatorView,
    converter: AnthropicStreamConverterView,
    event: SseEventView,
    after: Stream,
    thinking: Seq<char>,
)
    requires
        event.event != "response.output_text.delta"@,
        !is_reasoning_delta(event.event),
        reads(from, after, Seq::empty(), thinking),
        thinking + held_by(after.converter) == held_by(converter),
    ensures
        step_keeps(from, converter, event, after),
{
    reveal(step_keeps);
    let none = Seq::<char>::empty();
    assert(answer_in(event) =~= none);
    assert(reasoning_taken(converter, event) =~= none);
    assert(held_by(converter) + none =~= held_by(converter));
}

proof fn lemma_at_first(from: MessageAccumulatorView, converter: AnthropicStreamConverterView)
    requires
        same_block(from.current_block, converter.open_block),
    ensures
        reads(
            from,
            Stream { converter, events: Seq::empty() },
            Seq::empty(),
            Seq::empty(),
        ),
        Seq::<char>::empty() + held_by(converter) == held_by(converter),
{
    let none = Seq::<char>::empty();
    assert(message_text(from) + none =~= message_text(from));
    assert(message_thinking(from) + none =~= message_thinking(from));
    assert(none + held_by(converter) =~= held_by(converter));
}

proof fn lemma_item_added(
    from: MessageAccumulatorView,
    converter: AnthropicStreamConverterView,
    event: SseEventView,
)
    requires
        same_block(from.current_block, converter.open_block),
        event.event != "response.output_text.delta"@,
        !is_reasoning_delta(event.event),
    ensures
        step_keeps(
            from,
            converter,
            event,
            (Stream { converter, events: Seq::empty() }).item_added(event.data),
        ),
{
    let none = Seq::<char>::empty();
    let stream = Stream { converter, events: Seq::empty() };
    let held = held_by(converter);
    lemma_at_first(from, converter);
    lemma_begun(from, stream, none, none);
    let begun = stream.begun();
    lemma_text_begun(from, begun, none, none);
    assert(none + held =~= held);
    assert(held + held_by(begun.text_begun().converter) =~= held);
    lemma_silent_event(from, converter, event, begun, none);
    lemma_silent_event(from, converter, event, begun.text_begun(), held);
}

proof fn lemma_text_delta(
    from: MessageAccumulatorView,
    converter: AnthropicStreamConverterView,
    event: SseEventView,
)
    requires
        same_block(from.current_block, converter.open_block),
        event.event == "response.output_text.delta"@,
        !is_reasoning_delta(event.event),
    ensures
        step_keeps(
            from,
            converter,
            event,
            (Stream { converter, events: Seq::empty() }).text_delta(event.data),
        ),
{
    reveal(step_keeps);
    let none = Seq::<char>::empty();
    let stream = Stream { converter, events: Seq::empty() };
    let held = held_by(converter);
    lemma_at_first(from, converter);
    lemma_begun(from, stream, none, none);
    let begun = stream.begun();
    assert(reasoning_taken(converter, event) =~= none);
    assert(held + none =~= held);
    if let Some(text) = event.data.get_str("delta"@) {
        lemma_text_begun(from, begun, none, none);
        let is_open = begun.converter.open_block matches Some(ContentBlockStateView::Text { index });
        let open = if is_open {
            begun
        } else {
            begun.text_begun()
        };
        let thought = if is_open {
            none
        } else {
            none + held
        };
        assert(reads(from, open, none, thought));
        assert(thought + held_by(open.converter) =~= held);
        lemma_grown(from, open, none, thought, AnthropicDeltaView::TextDelta { text }, text);
        assert(none + text =~= text);
    }
}

proof fn lemma_arguments_delta(
    from: MessageAccumulatorView,
    converter: AnthropicStreamConverterView,
    event: SseEventView,
)
    requires
        same_block(from.current_block, converter.open_block),
        event.event != "response.output_text.delta"@,
        !is_reasoning_delta(event.event),
    ensures
        step_keeps(
            from,
            converter,
            event,
            (Stream { converter, events: Seq::empty() }).arguments_delta(event.data),
        ),
{
    let none = Seq::<char>::empty();
    let data = event.data;
    let stream = Stream { converter, events: Seq::empty() };
    let held = held_by(converter);
    lemma_at_first(from, converter);
    lemma_begun(from, stream, none, none);
    let begun = stream.begun();
    lemma_silent_event(from, converter, event, begun, none);
    if let (Some(call_id), Some(delta)) = (data.get_str("call_id"@), data.get_str("delta"@)) {
        let calling = begun.calling_tools();
        lemma_reads_stay(from, begun, calling, none, none);
        let label = super::resource::text_or_empty(data, "name"@);
        lemma_opened_tool(from, calling, none, none, call_id, label);
        let open = calling.opened_tool(call_id, label);
        let thought = if calling.in_tool_call(call_id) {
            none
        } else {
            none + held
        };
        assert(reads(from, open, none, thought));
        assert(thought + held_by(open.converter) =~= held);
        let piece = AnthropicDeltaView::InputJsonDelta { partial_json: delta };
        lemma_grown(from, open, none, thought, piece, delta);
        assert(none + none =~= none);
        lemma_silent_event(from, converter, event, open.grown(piece, delta), thought);
    }
}

proof fn lemma_held_on(
    from: MessageAccumulatorView,
    converter: AnthropicStreamConverterView,
    event: SseEventView,
    after: Stream,
)
    requires
        event.event != "response.output_text.delta"@,
        !is_reasoning_delta(event.event),
        held_on(from, held_by(converter), after, Seq::empty()),
    ensures
        step_keeps(from, converter, event, after),
{
    let thinking = choose|thinking: Seq<char>| #[trigger]
        reads(from, after, Seq::empty(), thinking) && thinking + held_by(after.converter)
            == held_by(converter);
    lemma_silent_event(from, converter, event, after, thinking);
}

proof fn lemma_arguments_done(
    from: MessageAccumulatorView,
    converter: AnthropicStreamConverterView,
    event: SseEventView,
)
    requires
        same_block(from.current_block, converter.open_block),
        event.event != "response.output_text.delta"@,
        !is_reasoning_delta(event.event),
    ensures
        step_keeps(
            from,
            converter,
            event,
            (Stream { converter, events: Seq::empty() }).arguments_done(event.data),
        ),
{
    let none = Seq::<char>::empty();
    let data = event.data;
    let stream = Stream { converter, events: Seq::empty() };
    lemma_at_first(from, converter);
    lemma_begun(from, stream, none, none);
    let begun = stream.begun();
    lemma_silent_event(from, converter, event, begun, none);
    if let Some(call_id) = data.get_str("call_id"@) {
        let calling = begun.calling_tools();
        let name = super::resource::text_or_empty(data, "name"@);
        let arguments = super::resource::arguments_text(data);
        lemma_reads_stay(from, begun, calling, none, none);
        lemma_silent_event(from, converter, event, calling, none);
        lemma_reads_stay(from, calling, calling.tool_call_done(call_id), none, none);
        lemma_silent_event(from, converter, event, calling.tool_call_done(call_id), none);
        lemma_closed(from, calling, none, none);
        let closed = calling.closed().tool_call_done(call_id);
        lemma_reads_stay(from, calling.closed(), closed, none, none);
        lemma_silent_event(from, converter, event, closed, none);
        lemma_whole_call(from, calling, none, none, call_id, name, arguments, false);
        lemma_held_on(
            from,
            converter,
            event,
            calling.whole_call(call_id, name, arguments, false),
        );
    }
}

proof fn lemma_item_done(
    from: MessageAccumulatorView,
    converter: AnthropicStreamConverterView,
    event: SseEventView,
)
    requires
        same_block(from.current_block, converter.open_block),
        event.event != "response.output_text.delta"@,
        !is_reasoning_delta(event.event),
    ensures
        step_keeps(
            from,
            converter,
            event,
            (Stream { converter, events: Seq::empty() }).item_done(event.data),
        ),
{
    let none = Seq::<char>::empty();
    let stream = Stream { converter, events: Seq::empty() };
    lemma_at_first(from, converter);
    lemma_silent_event(from, converter, event, stream, none);
    lemma_closed(from, stream, none, none);
    lemma_silent_event(from, converter, event, stream.closed(), none);
    if let Some(item) = event.data.get("item"@) {
        let calling = stream.closed().calling_tools();
        let call_id = super::resource::text_or_empty(item, "call_id"@);
        let name = super::resource::text_or_empty(item, "name"@);
        let arguments = super::resource::arguments_text(item);
        lemma_reads_stay(from, stream.closed(), calling, none, none);
        lemma_silent_event(from, converter, event, calling, none);
        lemma_reads_stay(from, calling, calling.tool_call_done(call_id), none, none);
        lemma_silent_event(from, converter, event, calling.tool_call_done(call_id), none);
        lemma_whole_call(from, calling, none, none, call_id, name, arguments, true);
        lemma_held_on(
            from,
            converter,
            event,
            calling.whole_call(call_id, name, arguments, true),
        );
    }
}

proof fn lemma_searched(
    from: MessageAccumulatorView,
    converter: AnthropicStreamConverterView,
    event: SseEventView,
)
    requires
        same_block(from.current_block, converter.open_block),
        event.event != "response.output_text.delta"@,
        !is_reasoning_delta(event.event),
    ensures
        step_keeps(
            from,
            converter,
            event,
            (Stream { converter, events: Seq::empty() }).web_search_results(event.data),
        ),
{
    let none = Seq::<char>::empty();
    let stream = Stream { converter, events: Seq::empty() };
    let held = held_by(converter);
    lemma_at_first(from, converter);
    lemma_search(from, stream, none, none, event.data);
    let after = stream.web_search_results(event.data);
    assert((none + held) + held_by(after.converter) =~= held);
    lemma_silent_event(from, converter, event, after, none + held);
}

proof fn lemma_rest(
    from: MessageAccumulatorView,
    converter: AnthropicStreamConverterView,
    event: SseEventView,
)
    requires
        same_block(from.current_block, converter.open_block),
        event.event != "response.output_text.delta"@,
        !is_reasoning_delta(event.event),
    ensures
        ({
            let stream = Stream { converter, events: Seq::empty() };
            &&& step_keeps(from, converter, event, stream)
            &&& step_keeps(from, converter, event, stream.created(event.data))
            &&& step_keeps(from, converter, event, stream.failed(event.data))
            &&& step_keeps(from, converter, event, stream.reasoning_signature_delta(event.data))
        }),
{
    broadcast use lemma_shown_push, lemma_after_push;

    let none = Seq::<char>::empty();
    let stream = Stream { converter, events: Seq::empty() };
    lemma_at_first(from, converter);
    lemma_silent_event(from, converter, event, stream, none);
    let created = stream.created(event.data);
    let counted = Stream {
        converter: AnthropicStreamConverterView {
            started: converter.started,
            ..created.converter
        },
        ..stream
    };
    lemma_reads_stay(from, stream, counted, none, none);
    lemma_begun(from, counted, none, none);
    assert(created == counted.begun());
    lemma_silent_event(from, converter, event, created, none);
    lemma_silent_event(from, converter, event, stream.failed(event.data), none);
    lemma_begun(from, stream, none, none);
    let signed = stream.reasoning_signature_delta(event.data);
    if !converter.suppress_reasoning {
        lemma_reads_stay(from, stream.begun(), signed, none, none);
    }
    lemma_silent_event(from, converter, event, signed, none);
}

proof fn lemma_ends(
    from: MessageAccumulatorView,
    converter: AnthropicStreamConverterView,
    event: SseEventView,
)
    requires
        same_block(from.current_block, converter.open_block),
        event.event != "response.output_text.delta"@,
        !is_reasoning_delta(event.event),
        is_end(event.event),
    ensures
        ({
            let after = (Stream { converter, events: Seq::empty() }).completed(
                event.event,
                event.data,
            );
            let promoted = reasoning_promoted(converter, event);
            let thinking = shown(after.events).thinking;
            &&& reads(from, after, answer_in(event) + promoted, thinking)
            &&& promoted.len() > 0 ==> thinking.len() == 0
            &&& promoted.len() == 0 ==> thinking + held_by(after.converter) == held_by(converter)
                + reasoning_taken(converter, event)
            &&& held_by(after.converter).len() == 0
        }),
{
    let none = Seq::<char>::empty();
    let stream = Stream { converter, events: Seq::empty() };
    let held = held_by(converter);
    lemma_at_first(from, converter);
    lemma_completed(from, stream, event.event, event.data);
    let after = stream.completed(event.event, event.data);
    assert(answer_in(event) =~= none);
    assert(reasoning_taken(converter, event) =~= none);
    assert(held + none =~= held);
    if converter.reasoning.is_answer(is_clean_stop(event.event, event.data)) {
        assert(none + held =~= held);
        assert(held.len() == 0 ==> held =~= none);
    } else {
        assert(none + none =~= none);
        assert(held + held_by(after.converter) =~= held);
    }
}

#[verifier::rlimit(40)]
proof fn lemma_step(
    from: MessageAccumulatorView,
    converter: AnthropicStreamConverterView,
    event: SseEventView,
)
    requires
        same_block(from.current_block, converter.open_block),
    ensures
        ({
            let after = (Stream { converter, events: Seq::empty() }).after(event);
            let promoted = reasoning_promoted(converter, event);
            let thinking = shown(after.events).thinking;
            &&& reads(from, after, answer_in(event) + promoted, thinking)
            &&& promoted.len() > 0 ==> thinking.len() == 0 && held_by(after.converter).len() == 0
            &&& promoted.len() == 0 ==> thinking + held_by(after.converter) == held_by(converter)
                + reasoning_taken(converter, event)
            &&& is_end(event.event) ==> held_by(after.converter).len() == 0
        }),
{
    let name = event.event;
    lemma_event_names(name);
    lemma_call_names(name);
    if is_end(name) {
        lemma_end_names(name);
        lemma_ends(from, converter, event);
    } else {
        if name == "response.output_text.delta"@ {
            lemma_text_delta(from, converter, event);
        } else if is_reasoning_delta(name) {
            lemma_reasoning(from, converter, event);
        } else {
            lemma_rest(from, converter, event);
            if name == "response.output_item.added"@ {
                lemma_item_added(from, converter, event);
            } else if name == "response.function_call_arguments.delta"@ {
                lemma_arguments_delta(from, converter, event);
            } else if name == "response.function_call_arguments.done"@ {
                lemma_arguments_done(from, converter, event);
            } else if name == "response.output_item.done"@ {
                lemma_item_done(from, converter, event);
            } else if name == "response.web_search_results"@ {
                lemma_searched(from, converter, event);
            }
        }
        let after = (Stream { converter, events: Seq::empty() }).after(event);
        assert(step_keeps(from, converter, event, after));
        reveal(step_keeps);
        assert(answer_in(event) + reasoning_promoted(converter, event) =~= answer_in(event));
    }
}

proof fn lemma_reasoning(
    from: MessageAccumulatorView,
    converter: AnthropicStreamConverterView,
    event: SseEventView,
)
    requires
        same_block(from.current_block, converter.open_block),
        is_reasoning_delta(event.event),
        event.event != "response.output_text.delta"@,
    ensures
        ({
            let after = (Stream { converter, events: Seq::empty() }).reasoning_delta(event.data);
            &&& step_keeps(from, converter, event, after)
            &&& shown(after.events).text.len() == 0
            &&& shown(after.events).thinking.len() == 0
            &&& held_by(after.converter) == held_by(converter) + reasoning_taken(converter, event)
        }),
{
    reveal(step_keeps);
    let none = Seq::<char>::empty();
    let stream = Stream { converter, events: Seq::empty() };
    let held = held_by(converter);
    lemma_at_first(from, converter);
    lemma_begun(from, stream, none, none);
    let begun = stream.begun();
    let after = stream.reasoning_delta(event.data);
    lemma_reads_stay(from, begun, after, none, none);
    assert(answer_in(event) =~= none);
    assert(held + none =~= held);
    if let Some(text) = event.data.get_str("delta"@) {
        let buffer = converter.reasoning.reasoning_buffer;
        assert(buffer.push(text).drop_last() =~= buffer);
        assert(text.len() == 0 ==> text =~= none);
    }
    assert(held_by(after.converter) =~= held + reasoning_taken(converter, event));
    assert(none + held_by(after.converter) =~= held_by(after.converter));
}

proof fn lemma_completed(
    from: MessageAccumulatorView,
    stream: Stream,
    name: Seq<char>,
    data: JsonView,
)
    requires
        reads(from, stream, Seq::empty(), Seq::empty()),
    ensures
        ({
            let held = held_by(stream.converter);
            let after = stream.completed(name, data);
            let clean_stop = is_clean_stop(name, data);
            &&& stream.converter.reasoning.is_answer(clean_stop) ==> reads(
                from,
                after,
                held,
                Seq::empty(),
            )
            &&& !stream.converter.reasoning.is_answer(clean_stop) ==> reads(
                from,
                after,
                Seq::empty(),
                held,
            )
            &&& held_by(after.converter).len() == 0
            &&& after.converter.open_block is None
        }),
{
    let none = Seq::<char>::empty();
    let held = held_by(stream.converter);
    let clean_stop = is_clean_stop(name, data);
    let marked = Stream {
        converter: AnthropicStreamConverterView { completed: true, ..stream.converter },
        ..stream
    };
    lemma_reads_stay(from, stream, marked, none, none);
    lemma_resolved(from, marked, none, none, clean_stop);
    assert(none + held =~= held);
    let (text, thinking) = if stream.converter.reasoning.is_answer(clean_stop) {
        (held, none)
    } else {
        (none, held)
    };
    let resolved = marked.resolved(clean_stop);
    assert(reads(from, resolved, text, thinking));
    lemma_closed(from, resolved, text, thinking);
    let closed = resolved.closed();
    let after = stream.completed(name, data);
    let counted = Stream { converter: after.converter, events: closed.events };
    lemma_reads_stay(from, closed, counted, text, thinking);
    let (stop_reason, stop_sequence) = super::resource::message_end(
        data,
        counted.converter.reasoning.has_tool_calls,
    );
    let usage = response_usage(data);
    lemma_ended(
        from,
        counted,
        text,
        thinking,
        stop_reason,
        stop_sequence,
        match usage {
            Some(usage) => Some(usage.input_tokens),
            None => None,
        },
        match usage {
            Some(usage) => usage.output_tokens_details,
            None => None,
        },
    );
    assert(after.events =~= counted.ended(
        stop_reason,
        stop_sequence,
        match usage {
            Some(usage) => Some(usage.input_tokens),
            None => None,
        },
        match usage {
            Some(usage) => usage.output_tokens_details,
            None => None,
        },
    ).events);
}

// ---------------------------------------------------------------------------------------------
// Laws
// ---------------------------------------------------------------------------------------------

/// One event shows its own piece of the answer and nothing else as text, unless it promotes what was
/// held back; and what was held back, with the reasoning that the event brings, is either shown as
/// thinking or held back still.
pub proof fn law_event_keeps_every_word(converter: AnthropicStreamConverterView, event: SseEventView)
    ensures
        ({
            let after = (Stream { converter, events: Seq::empty() }).after(event);
            let promoted = reasoning_promoted(converter, event);
            &&& shown(after.events).text == answer_in(event) + promoted
            &&& promoted.len() == 0 ==> shown(after.events).thinking + held_by(after.converter)
                == held_by(converter) + reasoning_taken(converter, event)
            &&& promoted.len() > 0 ==> shown(after.events).thinking.len() == 0 && held_by(
                after.converter,
            ).len() == 0
            &&& is_end(event.event) ==> held_by(after.converter).len() == 0
        }),
{
    lemma_step(reader_of(converter), converter, event);
}

/// A reader who has the open block before them, and nothing else.
spec fn reader_of(converter: AnthropicStreamConverterView) -> MessageAccumulatorView {
    MessageAccumulatorView {
        current_block: match converter.open_block {
            None => None,
            Some(ContentBlockStateView::Text { index }) => Some(
                AccumulatedBlockView::Text { text: Seq::empty() },
            ),
            Some(ContentBlockStateView::ToolUse { index, call_id }) => Some(
                AccumulatedBlockView::ToolUse {
                    id: call_id,
                    name: Seq::empty(),
                    input: Seq::empty(),
                },
            ),
        },
        ..MessageAccumulatorView::empty(Seq::empty())
    }
}

/// Over any events before the end, the text deltas add up to the answer that came in: nothing is
/// lost, added, doubled or moved.
pub proof fn law_answer_comes_through(
    start: AnthropicStreamConverterView,
    events: Seq<SseEventView>,
    count: int,
)
    requires
        forall|k: int| 0 <= k < count ==> !is_end(#[trigger] events[k].event),
    ensures
        shown(converted(start, events, count).events).text == whole_answer_in(events, count),
    decreases count,
{
    if count > 0 {
        law_answer_comes_through(start, events, count - 1);
        let before = converted(start, events, count - 1);
        let event = events[count - 1];
        assert(!is_end(events[count - 1].event));
        law_event_keeps_every_word(before.converter, event);
        let step = (Stream { converter: before.converter, events: Seq::empty() }).after(event);
        lemma_shown_append(before.events, step.events);
        assert(answer_in(event) + reasoning_promoted(before.converter, event) =~= answer_in(event));
    }
}

/// Whether an event is nothing but a piece of reasoning.
pub open spec fn all_reasoning(events: Seq<SseEventView>, count: int) -> bool {
    forall|k: int| 0 <= k < count ==> is_reasoning_delta(#[trigger] events[k].event)
}

proof fn lemma_reasoning_held(
    start: AnthropicStreamConverterView,
    events: Seq<SseEventView>,
    count: int,
)
    requires
        all_reasoning(events, count),
        !start.suppress_reasoning,
        !start.reasoning.content_started,
        !start.reasoning.has_tool_calls,
    ensures
        ({
            let all = converted(start, events, count);
            &&& held_by(all.converter) == held_by(start) + super::content_laws::whole_reasoning_in(
                events,
                count,
            )
            &&& shown(all.events).text.len() == 0
            &&& shown(all.events).thinking.len() == 0
            &&& all.converter.reasoning.reasoning_signature == start.reasoning.reasoning_signature
            &&& !all.converter.suppress_reasoning
            &&& !all.converter.reasoning.content_started
            &&& !all.converter.reasoning.has_tool_calls
            &&& all.converter.open_block == start.open_block
        }),
    decreases count,
{
    let none = Seq::<char>::empty();
    if count > 0 {
        lemma_reasoning_held(start, events, count - 1);
        let before = converted(start, events, count - 1);
        let event = events[count - 1];
        assert(is_reasoning_delta(events[count - 1].event));
        lemma_event_names(event.event);
        lemma_reasoning(reader_of(before.converter), before.converter, event);
        let step = (Stream { converter: before.converter, events: Seq::empty() }).after(event);
        lemma_shown_append(before.events, step.events);
        let whole = super::content_laws::whole_reasoning_in(events, count - 1);
        assert(held_by(start) + whole + reasoning_in(event) =~= held_by(start) + (whole
            + reasoning_in(event)));
        assert(answer_in(event) =~= none);
    } else {
        assert(held_by(start) + none =~= held_by(start));
    }
}

/// Reasoning that a model answers behind is read as thinking, all of it and in front of the answer;
/// reasoning that a model ends with of its own accord is read as the answer, all of it; and reasoning
/// that a model was cut off in is read as thinking, all of it.
pub proof fn law_reasoning_is_read_whole(
    model: Seq<char>,
    message_id: Seq<char>,
    events: Seq<SseEventView>,
    count: int,
    next: SseEventView,
)
    requires
        all_reasoning(events, count),
    ensures
        ({
            let before = converted(new_converter(model, message_id, false), events, count);
            let out = (Stream { converter: before.converter, events: Seq::empty() }).after(
                next,
            ).events;
            let whole = super::content_laws::whole_reasoning_in(events, count);
            &&& next.event == "response.output_text.delta"@ && next.data.get_str("delta"@) is Some
                ==> shown(out).thinking == whole && shown(out).text == answer_in(next)
            &&& is_end(next.event) && is_clean_stop(next.event, next.data) ==> shown(out).text
                == whole && shown(out).thinking.len() == 0
            &&& is_end(next.event) && !is_clean_stop(next.event, next.data) ==> shown(out).thinking
                == whole && shown(out).text.len() == 0
        }),
{
    let none = Seq::<char>::empty();
    let start = new_converter(model, message_id, false);
    lemma_reasoning_held(start, events, count);
    let before = converted(start, events, count).converter;
    let whole = super::content_laws::whole_reasoning_in(events, count);
    assert(held_by(start) =~= none);
    assert(held_by(before) =~= whole);
    lemma_event_names(next.event);
    lemma_step(reader_of(before), before, next);
    let stream = Stream { converter: before, events: Seq::empty() };
    let after = stream.after(next);
    if next.event == "response.output_text.delta"@ {
        if let Some(text) = next.data.get_str("delta"@) {
            assert(message_text(reader_of(before)) + none =~= message_text(reader_of(before)));
            assert(message_thinking(reader_of(before)) + none =~= message_thinking(
                reader_of(before),
            ));
            assert(reads(reader_of(before), stream, none, none));
            lemma_begun(reader_of(before), stream, none, none);
            lemma_text_begun(reader_of(before), stream.begun(), none, none);
            assert(reasoning_promoted(before, next) =~= none);
            assert(reasoning_taken(before, next) =~= none);
            assert(held_by(after.converter).len() == 0);
            assert(shown(after.events).thinking =~= shown(after.events).thinking + held_by(
                after.converter,
            ));
            assert(whole + none =~= whole);
            assert(shown(after.events).thinking =~= whole);
            assert(shown(after.events).text =~= answer_in(next));
        }
    } else if is_end(next.event) {
        lemma_end_names(next.event);
        assert(answer_in(next) =~= none);
        assert(reasoning_taken(before, next) =~= none);
        assert(none + whole =~= whole);
        assert(shown(after.events).thinking =~= shown(after.events).thinking + held_by(
            after.converter,
        ));
        if is_clean_stop(next.event, next.data) {
            assert(shown(after.events).text =~= whole);
            if whole.len() == 0 {
                assert(shown(after.events).thinking =~= none);
            }
        } else {
            assert(shown(after.events).thinking =~= whole);
            assert(shown(after.events).text =~= none);
        }
    }
}

/// A client that is not to see reasoning sees none.
pub proof fn law_suppressed_reasoning_is_not_read(
    model: Seq<char>,
    message_id: Seq<char>,
    events: Seq<SseEventView>,
    count: int,
)
    ensures
        ({
            let all = converted(new_converter(model, message_id, true), events, count);
            &&& shown(all.events).thinking.len() == 0
            &&& shown(all.events).text == whole_answer_in(events, count)
        }),
{
    lemma_suppressed(model, message_id, events, count);
}

proof fn lemma_flag_stays_shown(stream: Stream, call_id: Seq<char>, name: Seq<char>)
    ensures
        stream.flushed().converter.suppress_reasoning == stream.converter.suppress_reasoning,
        stream.text_begun().converter.suppress_reasoning == stream.converter.suppress_reasoning,
        stream.opened_tool(call_id, name).converter.suppress_reasoning
            == stream.converter.suppress_reasoning,
{
}

proof fn lemma_flag_stays_ended(stream: Stream, name: Seq<char>, data: JsonView, clean_stop: bool)
    ensures
        stream.resolved(clean_stop).converter.suppress_reasoning
            == stream.converter.suppress_reasoning,
        stream.completed(name, data).converter.suppress_reasoning
            == stream.converter.suppress_reasoning,
{
    lemma_flag_stays_shown(stream, name, name);
    let marked = Stream {
        converter: AnthropicStreamConverterView { completed: true, ..stream.converter },
        ..stream
    };
    lemma_flag_stays_shown(marked, name, name);
}

proof fn lemma_flag_stays_called(
    stream: Stream,
    call_id: Seq<char>,
    name: Seq<char>,
    arguments: Seq<char>,
    show_empty: bool,
)
    ensures
        stream.whole_call(call_id, name, arguments, show_empty).converter.suppress_reasoning
            == stream.converter.suppress_reasoning,
{
    lemma_flag_stays_shown(stream, call_id, name);
}

#[verifier::rlimit(50)]
proof fn lemma_flag_stays(converter: AnthropicStreamConverterView, event: SseEventView)
    ensures
        (Stream { converter, events: Seq::empty() }).after(event).converter.suppress_reasoning
            == converter.suppress_reasoning,
{
    let stream = Stream { converter, events: Seq::empty() };
    let data = event.data;
    let begun = stream.begun();
    let name = super::resource::text_or_empty(data, "name"@);
    assert(stream.created(data).converter.suppress_reasoning == converter.suppress_reasoning);
    lemma_flag_stays_shown(begun, name, name);
    assert(stream.item_added(data).converter.suppress_reasoning == converter.suppress_reasoning);
    assert(stream.text_delta(data).converter.suppress_reasoning == converter.suppress_reasoning);
    assert(stream.reasoning_delta(data).converter.suppress_reasoning
        == converter.suppress_reasoning);
    assert(stream.reasoning_signature_delta(data).converter.suppress_reasoning
        == converter.suppress_reasoning);
    let calling = begun.calling_tools();
    if let Some(call_id) = data.get_str("call_id"@) {
        lemma_flag_stays_shown(calling, call_id, name);
        lemma_flag_stays_called(
            calling,
            call_id,
            name,
            super::resource::arguments_text(data),
            false,
        );
    }
    assert(stream.arguments_delta(data).converter.suppress_reasoning
        == converter.suppress_reasoning);
    assert(stream.arguments_done(data).converter.suppress_reasoning
        == converter.suppress_reasoning);
    if let Some(item) = data.get("item"@) {
        lemma_flag_stays_called(
            stream.closed().calling_tools(),
            super::resource::text_or_empty(item, "call_id"@),
            super::resource::text_or_empty(item, "name"@),
            super::resource::arguments_text(item),
            true,
        );
    }
    assert(stream.item_done(data).converter.suppress_reasoning == converter.suppress_reasoning);
    lemma_flag_stays_ended(stream, event.event, data, true);
    assert(stream.web_search_results(data).converter.suppress_reasoning
        == converter.suppress_reasoning);
}

#[verifier::rlimit(60)]
proof fn lemma_suppressed(
    model: Seq<char>,
    message_id: Seq<char>,
    events: Seq<SseEventView>,
    count: int,
)
    ensures
        ({
            let all = converted(new_converter(model, message_id, true), events, count);
            &&& all.converter.suppress_reasoning
            &&& held_by(all.converter).len() == 0
            &&& shown(all.events).thinking.len() == 0
            &&& shown(all.events).text == whole_answer_in(events, count)
        }),
    decreases count,
{
    if count > 0 {
        lemma_suppressed(model, message_id, events, count - 1);
        let before = converted(new_converter(model, message_id, true), events, count - 1);
        let event = events[count - 1];
        law_event_keeps_every_word(before.converter, event);
        lemma_flag_stays(before.converter, event);
        let step = (Stream { converter: before.converter, events: Seq::empty() }).after(event);
        lemma_shown_append(before.events, step.events);
        assert(answer_in(event) + reasoning_promoted(before.converter, event) =~= answer_in(event));
        assert(shown(step.events).thinking + held_by(step.converter) =~= Seq::<char>::empty());
        assert((shown(step.events).thinking + held_by(step.converter)).len() == 0);
    }
}

/// A signature that came with the reasoning signs the thinking that the client reads.
pub proof fn law_signature_signs_the_thinking(
    from: MessageAccumulatorView,
    stream: Stream,
    signature: Seq<char>,
)
    requires
        same_block(from.after_all(stream.events).current_block, stream.converter.open_block),
        stream.converter.reasoning.reasoning_buffer.len() > 0,
        stream.converter.reasoning.reasoning_signature == Some(signature),
    ensures
        from.after_all(stream.flushed().events).blocks.last() == (AccumulatedBlockView::Thinking {
            text: held_by(stream.converter),
            signature: Some(signature),
        }),
{
    let text = shown(stream.events).text;
    let thinking = shown(stream.events).thinking;
    let base = from.after_all(stream.events);
    let none = Seq::<char>::empty();
    let rest = Stream { events: Seq::empty(), ..stream };
    assert(message_text(base) + none =~= message_text(base));
    assert(message_thinking(base) + none =~= message_thinking(base));
    assert(reads(base, rest, none, none));
    lemma_closed(base, rest, none, none);
    lemma_thought(
        base,
        rest.closed(),
        none,
        none,
        stream.converter.reasoning.reasoning_buffer,
        Some(signature),
    );
    assert(stream.flushed().events =~= stream.events + rest.flushed().events);
    lemma_after_append(from, stream.events, rest.flushed().events);
}

/// The pieces of a signature are put together in their order.
pub proof fn law_signature_is_put_together(
    converter: AnthropicStreamConverterView,
    event: SseEventView,
    signature: Seq<char>,
)
    requires
        event.event == "response.reasoning_summary_text.signature_delta"@,
        event.data.get_str("signature"@) == Some(signature),
        signature.len() > 0,
        !converter.suppress_reasoning,
        !converter.reasoning.content_started,
        !converter.reasoning.has_tool_calls,
    ensures
        (Stream { converter, events: Seq::empty() }).after(
            event,
        ).converter.reasoning.reasoning_signature == Some(
            match converter.reasoning.reasoning_signature {
                Some(before) => before + signature,
                None => signature,
            },
        ),
{
    lemma_event_names(event.event);
}

// ---------------------------------------------------------------------------------------------
// Calls
// ---------------------------------------------------------------------------------------------

/// Whether nothing has been shown of a call.
pub open spec fn is_new_call(converter: AnthropicStreamConverterView, call_id: Seq<char>) -> bool {
    &&& !converter.emitted_tool_call_ids.contains(call_id)
    &&& !converter.closed_tool_call_ids.contains(call_id)
    &&& !(converter.open_block matches Some(ContentBlockStateView::ToolUse { index, call_id: open })
        && open == call_id)
}

/// The first piece of a call opens a block under its id and its name; each piece goes into it as it
/// came.
pub proof fn law_pieces_of_a_call_are_gathered(
    from: MessageAccumulatorView,
    converter: AnthropicStreamConverterView,
    event: SseEventView,
    call_id: Seq<char>,
    delta: Seq<char>,
)
    requires
        same_block(from.current_block, converter.open_block),
        event.event == "response.function_call_arguments.delta"@,
        event.data.get_str("call_id"@) == Some(call_id),
        event.data.get_str("delta"@) == Some(delta),
        delta.len() > 0,
        !is_hidden_tool(tool_name_in(event.data)),
        !converter.emitted_tool_call_ids.contains(call_id),
        !converter.closed_tool_call_ids.contains(call_id),
    ensures
        ({
            let step = (Stream { converter, events: Seq::empty() }).after(event);
            let message = from.after_all(step.events);
            &&& step.converter.reasoning.has_tool_calls
            &&& is_new_call(converter, call_id) ==> message.current_block == Some(
                AccumulatedBlockView::ToolUse {
                    id: call_id,
                    name: tool_name_in(event.data),
                    input: delta,
                },
            )
            &&& !is_new_call(converter, call_id) ==> message == (MessageAccumulatorView {
                current_block: Some(
                    AccumulatedBlockView::ToolUse {
                        id: call_id,
                        name: from.current_block->0->ToolUse_name,
                        input: from.current_block->0->ToolUse_input + delta,
                    },
                ),
                ..from.after_all((Stream { converter, events: Seq::empty() }).begun().events)
            })
        }),
{
    broadcast use lemma_after_push;

    let none = Seq::<char>::empty();
    let stream = Stream { converter, events: Seq::empty() };
    assert(message_text(from) + none =~= message_text(from));
    assert(message_thinking(from) + none =~= message_thinking(from));
    assert(reads(from, stream, none, none)) by {
        broadcast use lemma_shown_push;

    }
    lemma_event_names(event.event);
    lemma_call_names(event.event);
    lemma_begun(from, stream, none, none);
    let calling = stream.begun().calling_tools();
    lemma_reads_stay(from, stream.begun(), calling, none, none);
    lemma_opened_tool(from, calling, none, none, call_id, tool_name_in(event.data));
    assert(none + delta =~= delta);
}

/// A call that comes whole, without any piece before, is gathered as one block with its id, its name
/// and its whole arguments.
pub proof fn law_whole_call_is_gathered_whole(
    from: MessageAccumulatorView,
    converter: AnthropicStreamConverterView,
    event: SseEventView,
    call_id: Seq<char>,
)
    requires
        same_block(from.current_block, converter.open_block),
        is_new_call(converter, call_id),
        event.event == "response.function_call_arguments.done"@,
        event.data.get_str("call_id"@) == Some(call_id),
        !is_hidden_tool(tool_name_in(event.data)),
    ensures
        ({
            let step = (Stream { converter, events: Seq::empty() }).after(event);
            let message = from.after_all(step.events);
            &&& message.current_block is None
            &&& message.blocks.last() == (AccumulatedBlockView::ToolUse {
                id: call_id,
                name: tool_name_in(event.data),
                input: arguments_in(event.data),
            })
            &&& step.converter.emitted_tool_call_ids.contains(call_id)
            &&& step.converter.reasoning.has_tool_calls
        }),
{
    let none = Seq::<char>::empty();
    let stream = Stream { converter, events: Seq::empty() };
    assert(message_text(from) + none =~= message_text(from));
    assert(message_thinking(from) + none =~= message_thinking(from));
    assert(reads(from, stream, none, none));
    lemma_event_names(event.event);
    lemma_call_names(event.event);
    lemma_begun(from, stream, none, none);
    let calling = stream.begun().calling_tools();
    lemma_reads_stay(from, stream.begun(), calling, none, none);
    lemma_whole_call(
        from,
        calling,
        none,
        none,
        call_id,
        tool_name_in(event.data),
        arguments_in(event.data),
        false,
    );
}

/// A finished call item that nothing has been shown of is gathered as one block with its id, its name
/// and its whole arguments.
pub proof fn law_call_item_is_gathered_whole(
    from: MessageAccumulatorView,
    converter: AnthropicStreamConverterView,
    event: SseEventView,
    item: JsonView,
    call_id: Seq<char>,
)
    requires
        same_block(from.current_block, converter.open_block),
        is_new_call(converter, call_id),
        event.event == "response.output_item.done"@,
        event.data.get("item"@) == Some(item),
        is_call_item(item),
        item.get_str("call_id"@) == Some(call_id),
        !is_hidden_tool(tool_name_in(item)),
    ensures
        ({
            let step = (Stream { converter, events: Seq::empty() }).after(event);
            let message = from.after_all(step.events);
            &&& message.current_block is None
            &&& message.blocks.last() == (AccumulatedBlockView::ToolUse {
                id: call_id,
                name: tool_name_in(item),
                input: arguments_in(item),
            })
            &&& step.converter.emitted_tool_call_ids.contains(call_id)
            &&& step.converter.reasoning.has_tool_calls
        }),
{
    let none = Seq::<char>::empty();
    let stream = Stream { converter, events: Seq::empty() };
    assert(message_text(from) + none =~= message_text(from));
    assert(message_thinking(from) + none =~= message_thinking(from));
    assert(reads(from, stream, none, none));
    lemma_event_names(event.event);
    lemma_call_names(event.event);
    lemma_item_kinds(item);
    lemma_closed(from, stream, none, none);
    let calling = stream.closed().calling_tools();
    lemma_reads_stay(from, stream.closed(), calling, none, none);
    lemma_whole_call(
        from,
        calling,
        none,
        none,
        call_id,
        tool_name_in(item),
        arguments_in(item),
        true,
    );
}

/// Searches that run on the server are not shown as calls.
pub proof fn law_hidden_calls_are_not_shown(
    converter: AnthropicStreamConverterView,
    event: SseEventView,
)
    requires
        event.event == "response.function_call_arguments.delta"@ || event.event
            == "response.function_call_arguments.done"@,
        event.data.get_str("name"@) == Some("web_search"@),
    ensures
        ({
            let stream = Stream { converter, events: Seq::empty() };
            stream.after(event) == stream.begun()
        }),
{
    lemma_event_names(event.event);
    lemma_call_names(event.event);
}

// ---------------------------------------------------------------------------------------------
// Ends
// ---------------------------------------------------------------------------------------------

/// A message that is over says why: it was cut off for the reason that the response gives, or it
/// calls tools, or it met the stop string that the response names, or it was complete.
pub proof fn law_message_says_why_it_ended(
    converter: AnthropicStreamConverterView,
    event: SseEventView,
)
    requires
        is_end(event.event),
    ensures
        ({
            let events = (Stream { converter, events: Seq::empty() }).after(event).events;
            let end = end_of(events);
            &&& events.len() >= 2
            &&& events.last() is MessageStop
            &&& end is MessageDelta
            &&& cut_off_reason(event) matches Some(reason) ==> end->MessageDelta_delta.stop_sequence
                is None && end->MessageDelta_delta.stop_reason == Some(
                if reason == "max_output_tokens"@ {
                    "max_tokens"@
                } else {
                    reason
                },
            )
            &&& cut_off_reason(event) is None && converter.reasoning.has_tool_calls
                ==> end->MessageDelta_delta.stop_reason == Some("tool_use"@)
            &&& cut_off_reason(event) is None && !converter.reasoning.has_tool_calls ==> (
            match stop_string(event) {
                Some(stop) => end->MessageDelta_delta.stop_reason == Some("stop_sequence"@)
                    && end->MessageDelta_delta.stop_sequence == Some(JsonView::Text(stop)),
                None => end->MessageDelta_delta.stop_reason == Some("end_turn"@)
                    && end->MessageDelta_delta.stop_sequence is None,
            })
        }),
{
    lemma_event_names(event.event);
    lemma_end_names(event.event);
}

/// A message that is over says what it took: what the response reports, but never less output than
/// was estimated before, and how many searches there were.
pub proof fn law_message_says_what_it_took(
    converter: AnthropicStreamConverterView,
    event: SseEventView,
)
    requires
        is_end(event.event),
    ensures
        ({
            let events = (Stream { converter, events: Seq::empty() }).after(event).events;
            let usage = end_of(events)->MessageDelta_usage;
            let input = reported(event, "input_tokens"@);
            let output = reported(event, "output_tokens"@);
            &&& input is Some && output is Some ==> {
                &&& usage.input_tokens == Some(input->0 as u64)
                &&& usage.output_tokens matches Some(told)
                &&& told >= output->0
                &&& told >= converter.last_output_tokens
                &&& told == output->0 || told == converter.last_output_tokens
            }
            &&& input is None || output is None ==> usage.input_tokens is None
                && usage.output_tokens == Some(converter.last_output_tokens)
            &&& converter.web_search_count == 0 ==> usage.server_tool_use is None
            &&& converter.web_search_count > 0 ==> (usage.server_tool_use matches Some(server)
                && server.web_search_requests == converter.web_search_count)
        }),
{
    lemma_event_names(event.event);
    lemma_end_names(event.event);
}

/// A failed response is told to the client in the words of its error.
pub proof fn law_failure_is_told(
    converter: AnthropicStreamConverterView,
    event: SseEventView,
    error: JsonView,
    words: Seq<char>,
)
    requires
        event.event == "response.failed"@,
        response_in(event) matches Some(response) && response.get("error"@) == Some(error),
        error.get_str("message"@) == Some(words),
    ensures
        ({
            let events = (Stream { converter, events: Seq::empty() }).after(event).events;
            &&& events.len() == 1
            &&& events[0] matches AnthropicStreamEventView::Error { error }
            &&& error.message == words
            &&& error.kind == "api_error"@
        }),
{
    lemma_event_names(event.event);
    lemma_end_names(event.event);
}

/// A message begins in the name of the assistant and of the model that was asked for, under its own
/// id, with nothing said yet.
pub proof fn law_message_says_who_speaks(converter: AnthropicStreamConverterView)
    requires
        !converter.started,
    ensures
        ({
            let events = (Stream { converter, events: Seq::empty() }).begun().events;
            &&& events.len() == 1
            &&& events[0] matches AnthropicStreamEventView::MessageStart { message }
            &&& message.id == converter.message_id
            &&& message.model == converter.model
            &&& message.role == "assistant"@
            &&& message.kind == "message"@
            &&& message.content.len() == 0
            &&& message.usage.output_tokens == Some(0u64)
            &&& message.usage.input_tokens == Some(
                match converter.pending_input_tokens {
                    Some(tokens) => tokens,
                    None => 0u64,
                },
            )
        }),
{
}

// ---------------------------------------------------------------------------------------------
// Collecting
// ---------------------------------------------------------------------------------------------

/// A collector after the first `count` events.
pub open spec fn collected(
    start: AnthropicStreamCollectorView,
    events: Seq<SseEventView>,
    count: int,
) -> AnthropicStreamCollectorView
    decreases count,
{
    if count <= 0 {
        start
    } else {
        collected(start, events, count - 1).after(events[count - 1])
    }
}

/// A collector that has seen nothing.
pub open spec fn new_collector(
    model: Seq<char>,
    message_id: Seq<char>,
    suppress_reasoning: bool,
) -> AnthropicStreamCollectorView {
    AnthropicStreamCollectorView {
        inner: new_converter(model, message_id, suppress_reasoning),
        message: MessageAccumulatorView::empty(model),
    }
}

/// What a collector has read and what the stream has shown so far, before and after one event.
#[verifier::opaque]
spec fn read_alike(
    start: AnthropicStreamCollectorView,
    after: AnthropicStreamCollectorView,
    all: Stream,
) -> bool {
    &&& after.inner == all.converter
    &&& same_block(after.message.current_block, after.inner.open_block)
    &&& message_text(after.message) == message_text(start.message) + shown(all.events).text
    &&& message_thinking(after.message) == message_thinking(start.message) + shown(
        all.events,
    ).thinking
}

proof fn lemma_read_on(
    start: AnthropicStreamCollectorView,
    before: AnthropicStreamCollectorView,
    all: Stream,
    from: MessageAccumulatorView,
    step: Stream,
)
    requires
        read_alike(start, before, all),
        from.current_block == before.message.current_block,
        from.blocks == before.message.blocks,
        reads(from, step, shown(step.events).text, shown(step.events).thinking),
    ensures
        read_alike(
            start,
            AnthropicStreamCollectorView {
                inner: step.converter,
                message: from.after_all(step.events),
            },
            Stream { converter: step.converter, events: all.events + step.events },
        ),
{
    reveal(read_alike);
    lemma_shown_append(all.events, step.events);
    assert(message_text(start.message) + shown(all.events).text + shown(step.events).text
        =~= message_text(start.message) + (shown(all.events).text + shown(step.events).text));
    assert(message_thinking(start.message) + shown(all.events).thinking + shown(
        step.events,
    ).thinking =~= message_thinking(start.message) + (shown(all.events).thinking + shown(
        step.events,
    ).thinking));
}

/// One event is read as it is shown.
#[verifier::opaque]
spec fn step_reads(from: MessageAccumulatorView, step: Stream) -> bool {
    reads(from, step, shown(step.events).text, shown(step.events).thinking)
}

proof fn lemma_step_reads(
    from: MessageAccumulatorView,
    converter: AnthropicStreamConverterView,
    event: SseEventView,
)
    requires
        same_block(from.current_block, converter.open_block),
    ensures
        step_reads(from, (Stream { converter, events: Seq::empty() }).after(event)),
{
    reveal(step_reads);
    lemma_step(from, converter, event);
}

proof fn lemma_collected_on(
    start: AnthropicStreamCollectorView,
    before: AnthropicStreamCollectorView,
    all: Stream,
    event: SseEventView,
    step: Stream,
)
    requires
        read_alike(start, before, all),
        step_reads(before.message.with_usage(response_usage(event.data)), step),
    ensures
        read_alike(
            start,
            AnthropicStreamCollectorView {
                inner: step.converter,
                message: before.message.with_usage(response_usage(event.data)).after_all(
                    step.events,
                ),
            },
            Stream { converter: step.converter, events: all.events + step.events },
        ),
{
    reveal(step_reads);
    lemma_read_on(
        start,
        before,
        all,
        before.message.with_usage(response_usage(event.data)),
        step,
    );
}

proof fn lemma_same_block(
    start: AnthropicStreamCollectorView,
    before: AnthropicStreamCollectorView,
    all: Stream,
    event: SseEventView,
)
    requires
        read_alike(start, before, all),
    ensures
        before.inner == all.converter,
        same_block(
            before.message.with_usage(response_usage(event.data)).current_block,
            all.converter.open_block,
        ),
{
    reveal(read_alike);
}

#[verifier::spinoff_prover]
#[verifier::rlimit(60)]
proof fn lemma_collected(
    start: AnthropicStreamCollectorView,
    events: Seq<SseEventView>,
    count: int,
)
    requires
        same_block(start.message.current_block, start.inner.open_block),
    ensures
        read_alike(
            start,
            collected(start, events, count),
            converted(start.inner, events, count),
        ),
    decreases count,
{
    if count > 0 {
        lemma_collected(start, events, count - 1);
        let before = collected(start, events, count - 1);
        let all = converted(start.inner, events, count - 1);
        let event = events[count - 1];
        let from = before.message.with_usage(response_usage(event.data));
        let step = (Stream { converter: all.converter, events: Seq::empty() }).after(event);
        lemma_same_block(start, before, all, event);
        lemma_step_reads(from, all.converter, event);
        lemma_collected_on(start, before, all, event, step);
    } else {
        reveal(read_alike);
        let none = Seq::<char>::empty();
        assert(message_text(start.message) + none =~= message_text(start.message));
        assert(message_thinking(start.message) + none =~= message_thinking(start.message));
    }
}

/// Over any events that leave no block open, the collected message says exactly what the text deltas
/// of the stream add up to, and thinks exactly what its thinking deltas add up to.
pub proof fn law_collected_message_says_what_is_streamed(
    model: Seq<char>,
    message_id: Seq<char>,
    suppress_reasoning: bool,
    events: Seq<SseEventView>,
    count: int,
    fresh: Seq<char>,
)
    requires
        ({
            let after = collected(
                new_collector(model, message_id, suppress_reasoning),
                events,
                count,
            );
            after.inner.open_block is None && after.message.response(fresh) is Ok
        }),
    ensures
        ({
            let whole = collected(
                new_collector(model, message_id, suppress_reasoning),
                events,
                count,
            ).message.response(fresh)->Ok_0;
            let all = converted(
                new_converter(model, message_id, suppress_reasoning),
                events,
                count,
            );
            &&& content_text(whole.content) == shown(all.events).text
            &&& content_thinking(whole.content) == shown(all.events).thinking
            &&& whole.role == "assistant"@
            &&& whole.kind == "message"@
        }),
{
    reveal(read_alike);
    let start = new_collector(model, message_id, suppress_reasoning);
    lemma_collected(start, events, count);
    lemma_response_reads_alike(collected(start, events, count).message, fresh);
    let all = converted(start.inner, events, count);
    assert(message_text(start.message) =~= Seq::<char>::empty());
    assert(message_thinking(start.message) =~= Seq::<char>::empty());
    assert(message_text(start.message) + shown(all.events).text =~= shown(all.events).text);
    assert(message_thinking(start.message) + shown(all.events).thinking =~= shown(
        all.events,
    ).thinking);
}

// ---------------------------------------------------------------------------------------------
// The rest of what is told
// ---------------------------------------------------------------------------------------------

/// A stream that breaks off ends all the same: what was held back is read as thinking, and it ends as
/// a call of tools where it calls some, and as a whole turn else.
pub proof fn law_broken_streams_are_ended(converter: AnthropicStreamConverterView)
    ensures
        ({
            let stream = Stream { converter, events: Seq::empty() };
            let after = stream.finalized();
            &&& converter.completed ==> after == stream
            &&& !converter.completed ==> {
                let end = end_of(after.events);
                &&& after.converter.completed
                &&& after.events.len() >= 2
                &&& after.events.last() is MessageStop
                &&& end is MessageDelta
                &&& end->MessageDelta_delta.stop_reason == Some(
                    if converter.reasoning.has_tool_calls {
                        "tool_use"@
                    } else {
                        "end_turn"@
                    },
                )
                &&& end->MessageDelta_usage.input_tokens == converter.pending_input_tokens
                &&& end->MessageDelta_usage.output_tokens == Some(converter.last_output_tokens)
                &&& shown(after.events).thinking == held_by(converter)
                &&& shown(after.events).text.len() == 0
            }
        }),
{
    broadcast use lemma_shown_push;

    if !converter.completed {
        let none = Seq::<char>::empty();
        let stream = Stream { converter, events: Seq::empty() };
        let from = reader_of(converter);
        lemma_at_first(from, converter);
        lemma_begun(from, stream, none, none);
        lemma_flushed(from, stream.begun(), none, none);
        let held = none + held_by(converter);
        assert(held =~= held_by(converter));
        lemma_closed(from, stream.begun().flushed(), none, held);
    }
}

/// Thinking that came without a signature is signed with one that stands in for it: a digest of its
/// text behind a mark of its own.
pub proof fn law_unsigned_thinking_is_signed(chunks: Seq<Seq<char>>, index: usize)
    ensures
        ({
            let block = thinking_block(chunks, None, index);
            &&& block.len() == chunks.len() + 3
            &&& block[block.len() - 2] matches AnthropicStreamEventView::ContentBlockDelta {
                index: at,
                delta: AnthropicDeltaView::SignatureDelta { signature },
            }
            &&& signature == crate::models::anthropic::SYNTHETIC_SIGNATURE_PREFIX@
                + crate::digest::text_digest(concatenated(chunks))
        }),
{
}

/// A response stops of its own accord exactly if it says that it stopped, or says nothing of its
/// reason and was completed.
pub proof fn law_clean_stops_are_told_apart(name: Seq<char>, data: JsonView)
    ensures
        data.get("response"@) is None ==> (is_clean_stop(name, data) <==> name
            == "response.completed"@),
        data.get("response"@) matches Some(response) ==> response.get("terminal_reason"@) is None
            ==> (is_clean_stop(name, data) <==> name == "response.completed"@),
{
}

/// The first estimate of the input that a response gives is the one that the message begins with.
pub proof fn law_first_estimate_is_told(
    converter: AnthropicStreamConverterView,
    event: SseEventView,
    response: JsonView,
    estimate: JsonView,
)
    requires
        event.event == "response.created"@,
        event.data.get("response"@) == Some(response),
        response.get("estimated_input_tokens"@) == Some(estimate),
        estimate.as_u64() is Some,
        !converter.started,
    ensures
        ({
            let step = (Stream { converter, events: Seq::empty() }).after(event);
            let tokens = match converter.pending_input_tokens {
                Some(tokens) => tokens as int,
                None => estimate.as_u64()->0,
            };
            &&& step.converter.pending_input_tokens == Some(tokens as u64)
            &&& step.events.len() == 1
            &&& step.events[0] matches AnthropicStreamEventView::MessageStart { message }
            &&& message.usage.input_tokens == Some(tokens as u64)
        }),
{
}

/// A message that is over says how many tokens went into thinking, under whichever name the response
/// reports them.
pub proof fn law_message_says_what_thinking_took(
    converter: AnthropicStreamConverterView,
    event: SseEventView,
    usage: JsonView,
    details: JsonView,
    count: JsonView,
)
    requires
        is_end(event.event),
        reported(event, "input_tokens"@) is Some,
        reported(event, "output_tokens"@) is Some,
        response_in(event) matches Some(response) && response.get("usage"@) == Some(usage),
        usage.get("output_tokens_details"@) == Some(details),
        details.get("reasoning_tokens"@) == Some(count) || details.get("reasoning_tokens"@) is None
            && details.get("thinking_tokens"@) == Some(count),
        count.as_u64() is Some,
    ensures
        ({
            let events = (Stream { converter, events: Seq::empty() }).after(event).events;
            &&& end_of(events)->MessageDelta_usage.output_tokens_details matches Some(told)
            &&& told.thinking_tokens == count.as_u64()->0
        }),
{
    lemma_event_names(event.event);
    lemma_end_names(event.event);
}

/// A text that is shown is counted by its bytes, and the estimate of the output covers all that was
/// counted.
pub proof fn law_shown_text_is_counted(stream: Stream, text: Seq<char>)
    requires
        text.len() > 0,
        stream.converter.estimated_output_bytes <= 4 * stream.converter.last_output_tokens,
        stream.converter.estimated_output_bytes + byte_len(text) <= usize::MAX,
    ensures
        ({
            let before = stream.converter;
            let after = stream.recorded(text).converter;
            &&& stream.recorded(text).events == stream.events
            &&& after.estimated_output_bytes == before.estimated_output_bytes + byte_len(text)
            &&& after.estimated_output_bytes <= 4 * after.last_output_tokens
            &&& after.last_output_tokens >= before.last_output_tokens
            &&& after.last_output_tokens == before.last_output_tokens || 4 * (
            after.last_output_tokens - 1) < after.estimated_output_bytes
        }),
{
    super::end_laws::law_tokens_cover_the_bytes(
        (stream.converter.estimated_output_bytes + byte_len(text)) as usize,
    );
}

} // verus!
