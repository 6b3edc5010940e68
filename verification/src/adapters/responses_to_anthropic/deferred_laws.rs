//! What holds of every message stream that comes out of the converter that holds reasoning back.
use vstd::prelude::*;

use crate::json::JsonView;
use crate::models::anthropic::{
    AnthropicContentBlockStartView, AnthropicDeltaView, AnthropicOutputTokensDetailsView,
    AnthropicStreamEventView,
};
use crate::sse::SseEventView;
use crate::text::concatenated;

use super::deferred::{
    is_clean_stop, new_converter, response_usage, text_block, thinking_block, thinking_deltas,
    AnthropicStreamConverterView, ContentBlockStateView, Stream,
};
use super::laws::{lemma_last_stays, lemma_names_differ};
use super::message_start;
use super::reasoning::ReasoningEgressStateView;
use super::resource::{arguments_text, broken_off, message_end, text_or_empty};
use super::search_events;
use super::wire::{
    block_numbers, law_blocks_are_numbered_in_order, law_message_begins_once, lemma_wire_append,
    lemma_wire_push, message_starts, silent, wire_run, wire_step, Wire,
};

verus! {

/// Where the stream of a converter stands.
pub open spec fn wire_of(converter: AnthropicStreamConverterView) -> Wire {
    Wire {
        open: match converter.open_block {
            Some(block) => Some(block.position()),
            None => None,
        },
        next: converter.next_block_index,
        started: converter.started,
    }
}

/// Before its stream has begun a converter has no block open, and a converter that hides reasoning
/// holds none back.
pub open spec fn sound(converter: AnthropicStreamConverterView) -> bool {
    &&& !converter.started ==> converter.open_block is None
    &&& converter.suppress_reasoning ==> converter.reasoning.reasoning_buffer.len() == 0
}

/// Whether an event shows reasoning.
pub open spec fn shows_reasoning(event: AnthropicStreamEventView) -> bool {
    match event {
        AnthropicStreamEventView::ContentBlockStart { index, content_block } => {
            content_block is Thinking
        },
        AnthropicStreamEventView::ContentBlockDelta { index, delta } => delta is ThinkingDelta
            || delta is SignatureDelta,
        _ => false,
    }
}

/// Whether none of `events` shows reasoning.
pub open spec fn hides_reasoning(events: Seq<AnthropicStreamEventView>) -> bool {
    forall|i: int| 0 <= i < events.len() ==> !shows_reasoning(#[trigger] events[i])
}

/// The events so far lead from `start` to where the converter stands, and show no reasoning that
/// is to be hidden.
spec fn on_wire(start: Wire, stream: Stream) -> bool {
    &&& wire_run(start, stream.events) == Some(wire_of(stream.converter))
    &&& stream.converter.suppress_reasoning ==> {
        &&& hides_reasoning(stream.events)
        &&& stream.converter.reasoning.reasoning_buffer.len() == 0
    }
}

/// What the parts of a step leave alone.
spec fn keeps(before: Stream, after: Stream) -> bool {
    &&& after.converter.started == before.converter.started
    &&& after.converter.web_search_count == before.converter.web_search_count
    &&& after.converter.next_block_index >= before.converter.next_block_index
}

proof fn lemma_emit(start: Wire, stream: Stream, event: AnthropicStreamEventView, after: AnthropicStreamConverterView)
    requires
        on_wire(start, stream),
        wire_step(wire_of(stream.converter), event) == Some(wire_of(after)),
        after.suppress_reasoning == stream.converter.suppress_reasoning,
        after.suppress_reasoning ==> !shows_reasoning(event)
            && after.reasoning.reasoning_buffer.len() == 0,
    ensures
        on_wire(start, Stream { converter: after, events: stream.events.push(event) }),
{
    lemma_wire_push(start, stream.events, event);
}

proof fn lemma_shown(start: Wire, stream: Stream, blocks: Seq<AnthropicStreamEventView>, count: int)
    requires
        on_wire(start, stream),
        stream.converter.open_block is None,
        0 <= count <= 2,
        stream.converter.next_block_index <= usize::MAX - 2,
        wire_run(wire_of(stream.converter), blocks) == Some(
            Wire {
                open: None,
                next: (stream.converter.next_block_index + count) as usize,
                started: stream.converter.started,
            },
        ),
        stream.converter.suppress_reasoning ==> hides_reasoning(blocks),
    ensures
        on_wire(start, stream.shown(blocks, count)),
{
    lemma_wire_append(start, stream.events, blocks);
    if stream.converter.suppress_reasoning {
        let all = stream.events + blocks;
        assert forall|i: int| 0 <= i < all.len() implies !shows_reasoning(#[trigger] all[i]) by {
            if i < stream.events.len() {
                assert(all[i] == stream.events[i]);
            } else {
                assert(all[i] == blocks[i - stream.events.len()]);
            }
        }
    }
}

proof fn lemma_begun(start: Wire, stream: Stream)
    requires
        on_wire(start, stream),
        sound(stream.converter),
    ensures
        on_wire(start, stream.begun()),
        stream.begun().converter == (AnthropicStreamConverterView {
            started: true,
            ..stream.converter
        }),
{
    if !stream.converter.started {
        lemma_emit(
            start,
            stream,
            message_start(
                stream.converter.message_id,
                stream.converter.model,
                stream.converter.pending_input_tokens,
            ),
            AnthropicStreamConverterView { started: true, ..stream.converter },
        );
    }
}

proof fn lemma_closed(start: Wire, stream: Stream)
    requires
        on_wire(start, stream),
    ensures
        on_wire(start, stream.closed()),
        stream.closed().converter.open_block is None,
        keeps(stream, stream.closed()),
        stream.closed().converter.next_block_index == stream.converter.next_block_index,
        stream.closed().converter.reasoning == stream.converter.reasoning,
        stream.closed().converter.completed == stream.converter.completed,
{
    if let Some(block) = stream.converter.open_block {
        lemma_emit(
            start,
            stream,
            AnthropicStreamEventView::ContentBlockStop { index: block.position() },
            stream.closed().converter,
        );
    }
}

proof fn lemma_thinking_deltas(wire: Wire, chunks: Seq<Seq<char>>, index: usize)
    requires
        wire.open == Some(index),
    ensures
        wire_run(wire, thinking_deltas(chunks, index)) == Some(wire),
    decreases chunks.len(),
{
    if chunks.len() > 0 {
        lemma_thinking_deltas(wire, chunks.drop_last(), index);
        assert(thinking_deltas(chunks, index).drop_last() =~= thinking_deltas(
            chunks.drop_last(),
            index,
        ));
    }
}

proof fn lemma_thinking_block(
    wire: Wire,
    chunks: Seq<Seq<char>>,
    signature: Option<Seq<char>>,
)
    requires
        wire.open is None,
        wire.next < usize::MAX,
    ensures
        wire_run(wire, thinking_block(chunks, signature, wire.next)) == Some(
            Wire { open: None, next: (wire.next + 1) as usize, ..wire },
        ),
{
    let index = wire.next;
    let block = thinking_block(chunks, signature, index);
    let first = block[0];
    let deltas = thinking_deltas(chunks, index);
    let signed = block[block.len() - 2];
    let stop = block[block.len() - 1];
    let open = Wire { open: Some(index), next: (index + 1) as usize, ..wire };
    assert(seq![first] =~= Seq::<AnthropicStreamEventView>::empty().push(first));
    lemma_wire_push(wire, Seq::empty(), first);
    lemma_wire_append(wire, seq![first], deltas);
    lemma_thinking_deltas(open, chunks, index);
    lemma_wire_push(wire, seq![first] + deltas, signed);
    lemma_wire_push(wire, (seq![first] + deltas).push(signed), stop);
    assert(block =~= (seq![first] + deltas).push(signed).push(stop));
}

proof fn lemma_text_block(wire: Wire, text: Seq<char>)
    requires
        wire.open is None,
        wire.next < usize::MAX,
    ensures
        wire_run(wire, text_block(text, wire.next)) == Some(
            Wire { open: None, next: (wire.next + 1) as usize, ..wire },
        ),
        hides_reasoning(text_block(text, wire.next)),
{
    let block = text_block(text, wire.next);
    lemma_wire_push(wire, Seq::empty(), block[0]);
    lemma_wire_push(wire, Seq::empty().push(block[0]), block[1]);
    lemma_wire_push(wire, Seq::empty().push(block[0]).push(block[1]), block[2]);
    assert(block =~= Seq::empty().push(block[0]).push(block[1]).push(block[2]));
}

proof fn lemma_flushed(start: Wire, stream: Stream)
    requires
        on_wire(start, stream),
        stream.converter.next_block_index <= usize::MAX - 2,
    ensures
        on_wire(start, stream.flushed()),
        keeps(stream, stream.flushed()),
        stream.flushed().converter.next_block_index <= stream.converter.next_block_index + 1,
        stream.flushed().converter.completed == stream.converter.completed,
        stream.flushed().converter.reasoning.reasoning_buffer.len() == 0,
{
    let reasoning = stream.converter.reasoning;
    if reasoning.reasoning_buffer.len() > 0 {
        lemma_closed(start, stream);
        let ready = stream.closed();
        lemma_thinking_block(
            wire_of(ready.converter),
            reasoning.reasoning_buffer,
            reasoning.reasoning_signature,
        );
        lemma_shown(
            start,
            ready,
            thinking_block(
                reasoning.reasoning_buffer,
                reasoning.reasoning_signature,
                ready.converter.next_block_index,
            ),
            1,
        );
    }
}

proof fn lemma_resolved(start: Wire, stream: Stream, clean_stop: bool)
    requires
        on_wire(start, stream),
        stream.converter.next_block_index <= usize::MAX - 2,
    ensures
        on_wire(start, stream.resolved(clean_stop)),
        keeps(stream, stream.resolved(clean_stop)),
        stream.resolved(clean_stop).converter.completed == stream.converter.completed,
{
    let reasoning = stream.converter.reasoning;
    lemma_flushed(start, stream);
    if reasoning.reasoning_buffer.len() > 0 && reasoning.is_answer(clean_stop) {
        let taken = stream.with_reasoning(
            ReasoningEgressStateView {
                reasoning_buffer: Seq::empty(),
                reasoning_signature: None,
                content_started: true,
                ..reasoning
            },
        );
        lemma_closed(start, taken);
        let ready = taken.closed();
        lemma_text_block(wire_of(ready.converter), concatenated(reasoning.reasoning_buffer));
        lemma_shown(
            start,
            ready,
            text_block(
                concatenated(reasoning.reasoning_buffer),
                ready.converter.next_block_index,
            ),
            1,
        );
    }
}

proof fn lemma_opened(
    start: Wire,
    stream: Stream,
    block: ContentBlockStateView,
    content_block: AnthropicContentBlockStartView,
)
    requires
        on_wire(start, stream),
        stream.converter.open_block is None,
        stream.converter.next_block_index < usize::MAX,
        block.position() == stream.converter.next_block_index,
        !(content_block is Thinking),
    ensures
        on_wire(start, stream.opened(block, content_block)),
{
    lemma_emit(
        start,
        stream,
        AnthropicStreamEventView::ContentBlockStart {
            index: stream.converter.next_block_index,
            content_block,
        },
        stream.opened(block, content_block).converter,
    );
}

proof fn lemma_text_begun(start: Wire, stream: Stream)
    requires
        on_wire(start, stream),
        stream.converter.next_block_index <= usize::MAX - 3,
    ensures
        on_wire(start, stream.text_begun()),
        stream.text_begun().converter.started == stream.converter.started,
{
    lemma_flushed(start, stream);
    lemma_closed(start, stream.flushed());
    let ready = stream.flushed().closed().content_started();
    lemma_opened(
        start,
        ready,
        ContentBlockStateView::Text { index: ready.converter.next_block_index },
        AnthropicContentBlockStartView::Text { text: Seq::empty() },
    );
}

proof fn lemma_grown(start: Wire, stream: Stream, delta: AnthropicDeltaView, text: Seq<char>)
    requires
        on_wire(start, stream),
        !(delta is ThinkingDelta) && !(delta is SignatureDelta),
    ensures
        on_wire(start, stream.grown(delta, text)),
        keeps(stream, stream.grown(delta, text)),
{
    if let Some(block) = stream.converter.open_block {
        lemma_emit(
            start,
            stream,
            AnthropicStreamEventView::ContentBlockDelta { index: block.position(), delta },
            stream.converter,
        );
    }
}

proof fn lemma_opened_tool(start: Wire, stream: Stream, call_id: Seq<char>, name: Seq<char>)
    requires
        on_wire(start, stream),
        stream.converter.next_block_index <= usize::MAX - 3,
    ensures
        on_wire(start, stream.opened_tool(call_id, name)),
        keeps(stream, stream.opened_tool(call_id, name)),
{
    if !stream.in_tool_call(call_id) {
        lemma_flushed(start, stream);
        lemma_closed(start, stream.flushed().content_started());
        let ready = stream.flushed().content_started().closed();
        lemma_opened(
            start,
            ready,
            ContentBlockStateView::ToolUse { index: ready.converter.next_block_index, call_id },
            AnthropicContentBlockStartView::ToolUse {
                id: call_id,
                name,
                input: JsonView::Object(Map::empty()),
            },
        );
    }
}

proof fn lemma_whole_call(
    start: Wire,
    stream: Stream,
    call_id: Seq<char>,
    name: Seq<char>,
    arguments: Seq<char>,
    show_empty: bool,
)
    requires
        on_wire(start, stream),
        stream.converter.next_block_index <= usize::MAX - 3,
    ensures
        on_wire(start, stream.whole_call(call_id, name, arguments, show_empty)),
        stream.whole_call(call_id, name, arguments, show_empty).converter.open_block is None,
{
    lemma_opened_tool(start, stream, call_id, name);
    let open = stream.opened_tool(call_id, name);
    let delta = AnthropicDeltaView::InputJsonDelta { partial_json: arguments };
    lemma_grown(start, open, delta, arguments);
    let filled = if arguments.len() > 0 || show_empty {
        open.grown(delta, arguments)
    } else {
        open
    };
    lemma_closed(start, filled);
}

proof fn lemma_ended(
    start: Wire,
    stream: Stream,
    stop_reason: Seq<char>,
    stop_sequence: Option<JsonView>,
    input_tokens: Option<u64>,
    details: Option<AnthropicOutputTokensDetailsView>,
)
    requires
        on_wire(start, stream),
        stream.converter.open_block is None,
    ensures
        on_wire(start, stream.ended(stop_reason, stop_sequence, input_tokens, details)),
        stream.ended(stop_reason, stop_sequence, input_tokens, details).converter
            == stream.converter,
        stream.ended(stop_reason, stop_sequence, input_tokens, details).events.last()
            == AnthropicStreamEventView::MessageStop,
{
    let ended = stream.ended(stop_reason, stop_sequence, input_tokens, details);
    let delta = ended.events[ended.events.len() - 2];
    assert(ended.events =~= stream.events.push(delta).push(AnthropicStreamEventView::MessageStop));
    lemma_emit(start, stream, delta, stream.converter);
    lemma_emit(
        start,
        stream.emit(delta),
        AnthropicStreamEventView::MessageStop,
        stream.converter,
    );
}

proof fn lemma_search(wire: Wire, data: JsonView)
    requires
        wire.open is None,
        wire.next < usize::MAX - 1,
    ensures
        wire_run(wire, search_events(data, wire.next)) == Some(
            Wire { open: None, next: (wire.next + 2) as usize, ..wire },
        ),
        hides_reasoning(search_events(data, wire.next)),
{
    let events = search_events(data, wire.next);
    let e1 = Seq::empty().push(events[0]);
    let e2 = e1.push(events[1]);
    let e3 = e2.push(events[2]);
    let e4 = e3.push(events[3]);
    lemma_wire_push(wire, Seq::empty(), events[0]);
    lemma_wire_push(wire, e1, events[1]);
    lemma_wire_push(wire, e2, events[2]);
    lemma_wire_push(wire, e3, events[3]);
    lemma_wire_push(wire, e4, events[4]);
    assert(events =~= e4.push(events[4]));
}

proof fn lemma_completed(start: Wire, stream: Stream, name: Seq<char>, data: JsonView)
    requires
        on_wire(start, stream),
        stream.converter.next_block_index <= usize::MAX - 2,
    ensures
        on_wire(start, stream.completed(name, data)),
        stream.completed(name, data).converter.open_block is None,
        stream.completed(name, data).converter.completed,
        stream.completed(name, data).events.len() > 0,
        stream.completed(name, data).events.last() == AnthropicStreamEventView::MessageStop,
{
    let marked = Stream {
        converter: AnthropicStreamConverterView { completed: true, ..stream.converter },
        ..stream
    };
    let clean_stop = is_clean_stop(name, data);
    lemma_resolved(start, marked, clean_stop);
    lemma_closed(start, marked.resolved(clean_stop));
    let closed = marked.resolved(clean_stop).closed();
    let after = stream.completed(name, data);
    let counted = Stream { converter: after.converter, events: closed.events };
    let usage = response_usage(data);
    let (stop_reason, stop_sequence) = message_end(
        data,
        counted.converter.reasoning.has_tool_calls,
    );
    lemma_ended(
        start,
        counted,
        stop_reason,
        stop_sequence,
        match usage {
            Some(usage) => Some(usage.input_tokens),
            None => None,
        },
        match usage {
            Some(usage) => usage.output_tokens_details,
            None => None,
        },
    );
}

proof fn lemma_created(start: Wire, stream: Stream, data: JsonView)
    requires
        on_wire(start, stream),
        sound(stream.converter),
        stream.converter.has_room(),
    ensures
        on_wire(start, stream.created(data)),
        sound(stream.created(data).converter),
{
    let seeded = Stream {
        converter: AnthropicStreamConverterView {
            pending_input_tokens: if stream.converter.pending_input_tokens is Some {
                stream.converter.pending_input_tokens
            } else {
                super::deferred::estimated_input_tokens(data)
            },
            ..stream.converter
        },
        ..stream
    };
    lemma_begun(start, seeded);
}

proof fn lemma_item_added(start: Wire, stream: Stream, data: JsonView)
    requires
        on_wire(start, stream),
        sound(stream.converter),
        stream.converter.has_room(),
    ensures
        on_wire(start, stream.item_added(data)),
        sound(stream.item_added(data).converter),
{
    lemma_begun(start, stream);
    lemma_text_begun(start, stream.begun());
}

proof fn lemma_text_delta(start: Wire, stream: Stream, data: JsonView)
    requires
        on_wire(start, stream),
        sound(stream.converter),
        stream.converter.has_room(),
    ensures
        on_wire(start, stream.text_delta(data)),
        sound(stream.text_delta(data).converter),
{
    lemma_begun(start, stream);
    let begun = stream.begun();
    if let Some(text) = data.get_str("delta"@) {
        let delta = AnthropicDeltaView::TextDelta { text };
        lemma_text_begun(start, begun);
        lemma_grown(start, begun, delta, text);
        lemma_grown(start, begun.text_begun(), delta, text);
    }
}

proof fn lemma_reasoning_delta(start: Wire, stream: Stream, data: JsonView)
    requires
        on_wire(start, stream),
        sound(stream.converter),
        stream.converter.has_room(),
    ensures
        on_wire(start, stream.reasoning_delta(data)),
        sound(stream.reasoning_delta(data).converter),
{
    lemma_begun(start, stream);
}

proof fn lemma_reasoning_signature_delta(start: Wire, stream: Stream, data: JsonView)
    requires
        on_wire(start, stream),
        sound(stream.converter),
        stream.converter.has_room(),
    ensures
        on_wire(start, stream.reasoning_signature_delta(data)),
        sound(stream.reasoning_signature_delta(data).converter),
{
    lemma_begun(start, stream);
}

proof fn lemma_arguments_delta(start: Wire, stream: Stream, data: JsonView)
    requires
        on_wire(start, stream),
        sound(stream.converter),
        stream.converter.has_room(),
    ensures
        on_wire(start, stream.arguments_delta(data)),
        sound(stream.arguments_delta(data).converter),
{
    lemma_begun(start, stream);
    if let (Some(call_id), Some(delta)) = (data.get_str("call_id"@), data.get_str("delta"@)) {
        let calling = stream.begun().calling_tools();
        let label = text_or_empty(data, "name"@);
        lemma_opened_tool(start, calling, call_id, label);
        lemma_grown(
            start,
            calling.opened_tool(call_id, label),
            AnthropicDeltaView::InputJsonDelta { partial_json: delta },
            delta,
        );
    }
}

proof fn lemma_arguments_done(start: Wire, stream: Stream, data: JsonView)
    requires
        on_wire(start, stream),
        sound(stream.converter),
        stream.converter.has_room(),
    ensures
        on_wire(start, stream.arguments_done(data)),
        sound(stream.arguments_done(data).converter),
{
    lemma_begun(start, stream);
    if let Some(call_id) = data.get_str("call_id"@) {
        let calling = stream.begun().calling_tools();
        lemma_closed(start, calling);
        lemma_whole_call(
            start,
            calling,
            call_id,
            text_or_empty(data, "name"@),
            arguments_text(data),
            false,
        );
    }
}

proof fn lemma_item_done(start: Wire, stream: Stream, data: JsonView)
    requires
        on_wire(start, stream),
        sound(stream.converter),
        stream.converter.has_room(),
    ensures
        on_wire(start, stream.item_done(data)),
        sound(stream.item_done(data).converter),
{
    lemma_closed(start, stream);
    if let Some(item) = data.get("item"@) {
        lemma_whole_call(
            start,
            stream.closed().calling_tools(),
            text_or_empty(item, "call_id"@),
            text_or_empty(item, "name"@),
            arguments_text(item),
            true,
        );
    }
}

proof fn lemma_failed(start: Wire, stream: Stream, data: JsonView)
    requires
        on_wire(start, stream),
        sound(stream.converter),
        stream.converter.has_room(),
    ensures
        on_wire(start, stream.failed(data)),
        sound(stream.failed(data).converter),
{
    lemma_emit(start, stream, stream.failed(data).events.last(), stream.failed(data).converter);
}

proof fn lemma_web_search_results(start: Wire, stream: Stream, data: JsonView)
    requires
        on_wire(start, stream),
        sound(stream.converter),
        stream.converter.has_room(),
    ensures
        on_wire(start, stream.web_search_results(data)),
        sound(stream.web_search_results(data).converter),
{
    lemma_begun(start, stream);
    let begun = stream.begun();
    lemma_flushed(start, begun);
    lemma_closed(start, begun.flushed());
    let ready = begun.flushed().closed();
    lemma_search(wire_of(ready.converter), data);
    lemma_shown(start, ready, search_events(data, ready.converter.next_block_index), 2);
}

/// Whatever event comes, the events that it turns into keep to the grammar of a message stream,
/// and a converter that hides reasoning shows none.
#[verifier::rlimit(80)]
pub proof fn law_events_keep_to_the_grammar(converter: AnthropicStreamConverterView, event: SseEventView)
    requires
        sound(converter),
        converter.has_room(),
    ensures
        ({
            let after = (Stream { converter, events: Seq::empty() }).after(event);
            &&& wire_run(wire_of(converter), after.events) == Some(wire_of(after.converter))
            &&& sound(after.converter)
            &&& after.converter.suppress_reasoning ==> hides_reasoning(after.events)
        }),
{
    let start = wire_of(converter);
    let stream = Stream { converter, events: Seq::empty() };
    assert(on_wire(start, stream));
    let data = event.data;
    let name = event.event;
    if name == "response.created"@ {
        lemma_created(start, stream, data);
    } else if name == "response.output_item.added"@ {
        lemma_item_added(start, stream, data);
    } else if name == "response.output_text.delta"@ {
        lemma_text_delta(start, stream, data);
    } else if name == "response.reasoning_text.delta"@ || name
        == "response.reasoning_summary_text.delta"@ {
        lemma_reasoning_delta(start, stream, data);
    } else if name == "response.reasoning_summary_text.signature_delta"@ {
        lemma_reasoning_signature_delta(start, stream, data);
    } else if name == "response.function_call_arguments.delta"@ {
        lemma_arguments_delta(start, stream, data);
    } else if name == "response.function_call_arguments.done"@ {
        lemma_arguments_done(start, stream, data);
    } else if name == "response.output_item.done"@ {
        lemma_item_done(start, stream, data);
    } else if name == "response.completed"@ || name == "response.incomplete"@ {
        lemma_completed(start, stream, name, data);
    } else if name == "response.failed"@ {
        lemma_failed(start, stream, data);
    } else if name == "response.web_search_results"@ {
        lemma_web_search_results(start, stream, data);
    }
}

/// Every stream ends: finalizing a converter whose message has neither been completed nor failed
/// closes what is open and stops the message, and finalizing it again puts out nothing.
pub proof fn law_finalize_ends_the_stream(converter: AnthropicStreamConverterView)
    requires
        sound(converter),
        converter.has_room(),
    ensures
        ({
            let after = (Stream { converter, events: Seq::empty() }).finalized();
            &&& wire_run(wire_of(converter), after.events) == Some(wire_of(after.converter))
            &&& after.converter.completed
            &&& converter.completed ==> after.events.len() == 0
            &&& !converter.completed ==> after.events.last()
                == AnthropicStreamEventView::MessageStop && after.converter.open_block is None
                && after.converter.started
            &&& converter.suppress_reasoning ==> hides_reasoning(after.events)
            &&& (Stream { converter: after.converter, events: Seq::empty() }).finalized() == (Stream {
                converter: after.converter,
                events: Seq::empty(),
            })
        }),
{
    let start = wire_of(converter);
    let stream = Stream { converter, events: Seq::empty() };
    assert(on_wire(start, stream));
    lemma_begun(start, stream);
    lemma_flushed(start, stream.begun());
    lemma_closed(start, stream.begun().flushed());
    let ready = stream.begun().flushed().closed();
    lemma_ended(
        start,
        ready,
        broken_off(ready.converter.reasoning.has_tool_calls),
        None,
        ready.converter.pending_input_tokens,
        None,
    );
}

/// A terminal event ends the stream: the message stops with no block open, and finalizing has
/// nothing to add.
pub proof fn law_completion_ends_the_stream(
    converter: AnthropicStreamConverterView,
    event: SseEventView,
)
    requires
        sound(converter),
        converter.has_room(),
        event.event == "response.completed"@ || event.event == "response.incomplete"@,
    ensures
        ({
            let after = (Stream { converter, events: Seq::empty() }).after(event);
            &&& after.events.len() > 0
            &&& after.events.last() == AnthropicStreamEventView::MessageStop
            &&& after.converter.open_block is None
            &&& (Stream { converter: after.converter, events: Seq::empty() }).finalized() == (Stream {
                converter: after.converter,
                events: Seq::empty(),
            })
        }),
{
    lemma_names_differ(event.event);
    let stream = Stream { converter, events: Seq::empty() };
    assert(on_wire(wire_of(converter), stream));
    lemma_completed(wire_of(converter), stream, event.event, event.data);
}

/// A failed stream ends at its error: finalizing has nothing to add.
pub proof fn law_failure_ends_the_stream(converter: AnthropicStreamConverterView, data: JsonView)
    ensures
        ({
            let after = (Stream { converter, events: Seq::empty() }).failed(data);
            &&& after.events.len() == 1
            &&& after.events.last() is Error
            &&& (Stream { converter: after.converter, events: Seq::empty() }).finalized() == (Stream {
                converter: after.converter,
                events: Seq::empty(),
            })
        }),
{
}

/// Reasoning that is held back when text begins is shown in one thinking block before the text,
/// piece by piece, and closed with a signature.
pub proof fn law_reasoning_precedes_the_text_it_led_to(stream: Stream)
    requires
        stream.converter.open_block is None,
        stream.converter.reasoning.reasoning_buffer.len() > 0,
        stream.converter.next_block_index <= usize::MAX - 3,
    ensures
        ({
            let index = stream.converter.next_block_index;
            let reasoning = stream.converter.reasoning;
            &&& stream.text_begun().events == stream.events + thinking_block(
                reasoning.reasoning_buffer,
                reasoning.reasoning_signature,
                index,
            ) + seq![
                AnthropicStreamEventView::ContentBlockStart {
                    index: (index + 1) as usize,
                    content_block: AnthropicContentBlockStartView::Text { text: Seq::empty() },
                },
            ]
            &&& stream.text_begun().converter.reasoning.reasoning_buffer.len() == 0
            &&& stream.text_begun().converter.reasoning.is_late()
        }),
{
    let index = stream.converter.next_block_index;
    let reasoning = stream.converter.reasoning;
    assert(stream.text_begun().events =~= stream.events + thinking_block(
        reasoning.reasoning_buffer,
        reasoning.reasoning_signature,
        index,
    ) + seq![
        AnthropicStreamEventView::ContentBlockStart {
            index: (index + 1) as usize,
            content_block: AnthropicContentBlockStartView::Text { text: Seq::empty() },
        },
    ]);
}

/// Reasoning becomes the answer only where the model stopped of its own accord, nothing else was
/// shown and the reasoning is not signed; then the client sees one text block with all of it.
pub proof fn law_reasoning_is_promoted_only_as_the_whole_answer(stream: Stream, clean_stop: bool)
    requires
        stream.converter.open_block is None,
        stream.converter.reasoning.reasoning_buffer.len() > 0,
    ensures
        ({
            let reasoning = stream.converter.reasoning;
            let index = stream.converter.next_block_index;
            let promoted = clean_stop && !reasoning.content_started && !reasoning.has_tool_calls
                && reasoning.reasoning_signature is None;
            stream.resolved(clean_stop).events == stream.events + (if promoted {
                text_block(concatenated(reasoning.reasoning_buffer), index)
            } else {
                thinking_block(reasoning.reasoning_buffer, reasoning.reasoning_signature, index)
            })
        }),
{
}

/// A new converter is sound.
pub proof fn law_new_converter_is_sound(
    model: Seq<char>,
    message_id: Seq<char>,
    suppress_reasoning: bool,
)
    ensures
        sound(new_converter(model, message_id, suppress_reasoning)),
        new_converter(model, message_id, suppress_reasoning).has_room(),
        wire_of(new_converter(model, message_id, suppress_reasoning)) == silent(),
{
}

// ---------------------------------------------------------------------------------------------
// Whole streams
// ---------------------------------------------------------------------------------------------

/// A converter after the first `count` events, and everything that they turned into.
pub open spec fn converted(
    start: AnthropicStreamConverterView,
    events: Seq<SseEventView>,
    count: int,
) -> Stream
    decreases count,
{
    if count <= 0 {
        Stream { converter: start, events: Seq::empty() }
    } else {
        let before = converted(start, events, count - 1);
        let step = (Stream { converter: before.converter, events: Seq::empty() }).after(
            events[count - 1],
        );
        Stream { converter: step.converter, events: before.events + step.events }
    }
}

/// Everything that comes out of a converter, with what ends the stream.
pub open spec fn converted_to_the_end(
    start: AnthropicStreamConverterView,
    events: Seq<SseEventView>,
    count: int,
) -> Stream {
    let before = converted(start, events, count);
    let step = (Stream { converter: before.converter, events: Seq::empty() }).finalized();
    Stream { converter: step.converter, events: before.events + step.events }
}

/// Whether there was room for each of the first `count` events.
pub open spec fn room_throughout(
    start: AnthropicStreamConverterView,
    events: Seq<SseEventView>,
    count: int,
) -> bool {
    forall|n: int| 0 <= n < count ==> (#[trigger] converted(start, events, n)).converter.has_room()
}

/// Over any events everything that comes out keeps to the grammar: the message begins at most once,
/// the blocks are numbered from zero, they never overlap, and what they grow by goes to the open
/// one.
pub proof fn law_whole_stream_keeps_to_the_grammar(
    model: Seq<char>,
    message_id: Seq<char>,
    suppress_reasoning: bool,
    events: Seq<SseEventView>,
    count: int,
)
    requires
        room_throughout(new_converter(model, message_id, suppress_reasoning), events, count),
    ensures
        ({
            let all = converted(new_converter(model, message_id, suppress_reasoning), events, count);
            &&& sound(all.converter)
            &&& wire_run(silent(), all.events) == Some(wire_of(all.converter))
            &&& message_starts(all.events) <= 1
            &&& forall|i: int|
                0 <= i < block_numbers(all.events).len() ==> #[trigger] block_numbers(
                    all.events,
                )[i] == i
        }),
    decreases count,
{
    let start = new_converter(model, message_id, suppress_reasoning);
    law_new_converter_is_sound(model, message_id, suppress_reasoning);
    let all = converted(start, events, count);
    if count > 0 {
        assert(room_throughout(start, events, count - 1));
        law_whole_stream_keeps_to_the_grammar(model, message_id, suppress_reasoning, events, count - 1);
        let before = converted(start, events, count - 1);
        assert(before.converter.has_room());
        law_events_keep_to_the_grammar(before.converter, events[count - 1]);
        let step = (Stream { converter: before.converter, events: Seq::empty() }).after(
            events[count - 1],
        );
        lemma_wire_append(silent(), before.events, step.events);
    }
    law_message_begins_once(silent(), all.events);
    law_blocks_are_numbered_in_order(silent(), all.events);
}

/// Once the response is over, no block of the whole stream is open and its last event stops the
/// message.
pub proof fn law_whole_stream_ends_with_the_response(
    model: Seq<char>,
    message_id: Seq<char>,
    suppress_reasoning: bool,
    events: Seq<SseEventView>,
    count: int,
)
    requires
        count > 0,
        room_throughout(new_converter(model, message_id, suppress_reasoning), events, count),
        events[count - 1].event == "response.completed"@ || events[count - 1].event
            == "response.incomplete"@,
    ensures
        ({
            let all = converted(new_converter(model, message_id, suppress_reasoning), events, count);
            &&& wire_run(silent(), all.events)->0.open is None
            &&& all.events.last() == AnthropicStreamEventView::MessageStop
        }),
{
    let start = new_converter(model, message_id, suppress_reasoning);
    law_whole_stream_keeps_to_the_grammar(model, message_id, suppress_reasoning, events, count);
    assert(room_throughout(start, events, count - 1));
    law_whole_stream_keeps_to_the_grammar(model, message_id, suppress_reasoning, events, count - 1);
    let before = converted(start, events, count - 1);
    assert(before.converter.has_room());
    law_completion_ends_the_stream(before.converter, events[count - 1]);
    let step = (Stream { converter: before.converter, events: Seq::empty() }).after(
        events[count - 1],
    );
    lemma_last_stays(before.events, step.events);
}

/// A finalized stream has exactly one beginning of a message, unless the response was over before
/// anything began the message.
pub proof fn law_finalized_stream_begins_once(
    model: Seq<char>,
    message_id: Seq<char>,
    suppress_reasoning: bool,
    events: Seq<SseEventView>,
    count: int,
)
    requires
        room_throughout(new_converter(model, message_id, suppress_reasoning), events, count + 1),
        ({
            let converter = converted(new_converter(model, message_id, suppress_reasoning), events, count).converter;
            converter.completed ==> converter.started
        }),
    ensures
        ({
            let all = converted_to_the_end(new_converter(model, message_id, suppress_reasoning), events, count);
            &&& message_starts(all.events) == 1
            &&& wire_run(silent(), all.events) == Some(wire_of(all.converter))
        }),
{
    let start = new_converter(model, message_id, suppress_reasoning);
    assert(room_throughout(start, events, count));
    law_whole_stream_keeps_to_the_grammar(model, message_id, suppress_reasoning, events, count);
    let before = converted(start, events, count);
    if count >= 0 {
        assert(before.converter.has_room());
    }
    law_finalize_ends_the_stream(before.converter);
    let step = (Stream { converter: before.converter, events: Seq::empty() }).finalized();
    lemma_wire_append(silent(), before.events, step.events);
    law_message_begins_once(silent(), converted_to_the_end(start, events, count).events);
}

} // verus!
