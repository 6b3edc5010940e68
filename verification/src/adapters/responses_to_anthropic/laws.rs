//! What holds of every message stream that comes out of the converter.
use vstd::prelude::*;

use crate::json::JsonView;
use crate::models::anthropic::{
    AnthropicContentBlockStartView, AnthropicDeltaView, AnthropicMessageDeltaBodyView,
    AnthropicStreamEventView, AnthropicUsageView,
};
use crate::sse::SseEventView;

use super::resource::text_or_empty;
use super::wire::{
    block_numbers, law_blocks_are_numbered_in_order, law_message_begins_once, lemma_wire_append,
    lemma_wire_push, message_starts, silent, wire_run, Wire,
};
use super::{
    estimated_tokens, message_start, search_events, AnthropicStreamConverterView,
    ContentBlockStateView, Stream,
};
use crate::text::byte_len;

verus! {

/// Where the stream of a converter stands.
pub open spec fn wire_of(converter: AnthropicStreamConverterView) -> Wire {
    Wire {
        open: match converter.open_block {
            Some(block) => Some(block.position()),
            None => None,
        },
        next: converter.next_block_index,
        started: converter.started,
    }
}

/// Before its stream has begun a converter has no block open.
pub open spec fn sound(converter: AnthropicStreamConverterView) -> bool {
    !converter.started ==> converter.open_block is None
}

/// The events so far lead from `start` to where the converter stands.
spec fn on_wire(start: Wire, stream: Stream) -> bool {
    wire_run(start, stream.events) == Some(wire_of(stream.converter))
}

proof fn lemma_begun(start: Wire, stream: Stream)
    requires
        on_wire(start, stream),
        sound(stream.converter),
    ensures
        on_wire(start, stream.begun()),
        stream.begun().converter.started,
        stream.begun().converter.open_block == stream.converter.open_block,
        stream.begun().converter.next_block_index == stream.converter.next_block_index,
        stream.begun().converter.web_search_count == stream.converter.web_search_count,
{
    if !stream.converter.started {
        let first = stream.events.push(AnthropicStreamEventView::Ping);
        lemma_wire_push(start, stream.events, AnthropicStreamEventView::Ping);
        lemma_wire_push(
            start,
            first,
            message_start(
                stream.converter.message_id,
                stream.converter.model,
                stream.converter.pending_input_tokens,
            ),
        );
    }
}

proof fn lemma_closed(start: Wire, stream: Stream)
    requires
        on_wire(start, stream),
    ensures
        on_wire(start, stream.closed()),
        stream.closed().converter.open_block is None,
        stream.closed().converter.started == stream.converter.started,
        stream.closed().converter.next_block_index == stream.converter.next_block_index,
        stream.closed().converter.web_search_count == stream.converter.web_search_count,
{
    if let Some(block) = stream.converter.open_block {
        lemma_wire_push(
            start,
            stream.events,
            AnthropicStreamEventView::ContentBlockStop { index: block.position() },
        );
    }
}

proof fn lemma_opened(
    start: Wire,
    stream: Stream,
    block: ContentBlockStateView,
    content_block: AnthropicContentBlockStartView,
)
    requires
        on_wire(start, stream),
        stream.converter.open_block is None,
        stream.converter.next_block_index < usize::MAX,
        block.position() == stream.converter.next_block_index,
    ensures
        on_wire(start, stream.opened(block, content_block)),
{
    lemma_wire_push(
        start,
        stream.events,
        AnthropicStreamEventView::ContentBlockStart {
            index: stream.converter.next_block_index,
            content_block,
        },
    );
}

proof fn lemma_recorded(start: Wire, stream: Stream, text: Seq<char>, is_thinking: bool)
    requires
        on_wire(start, stream),
    ensures
        on_wire(start, stream.recorded(text, is_thinking)),
        stream.recorded(text, is_thinking).converter.open_block == stream.converter.open_block,
        stream.recorded(text, is_thinking).converter.started == stream.converter.started,
        stream.recorded(text, is_thinking).converter.next_block_index
            == stream.converter.next_block_index,
{
    let tokens = estimated_tokens(
        stream.converter.estimated_output_bytes.saturating_add(byte_len(text)),
    );
    lemma_wire_push(
        start,
        stream.events,
        AnthropicStreamEventView::MessageDelta {
            delta: AnthropicMessageDeltaBodyView { stop_reason: None, stop_sequence: None },
            usage: AnthropicUsageView {
                input_tokens: None,
                output_tokens: Some(tokens),
                output_tokens_details: None,
                server_tool_use: None,
            },
        },
    );
}

proof fn lemma_grown(
    start: Wire,
    stream: Stream,
    delta: AnthropicDeltaView,
    text: Seq<char>,
    is_thinking: bool,
)
    requires
        on_wire(start, stream),
    ensures
        on_wire(start, stream.grown(delta, text, is_thinking)),
        stream.grown(delta, text, is_thinking).converter.open_block == stream.converter.open_block,
        stream.grown(delta, text, is_thinking).converter.started == stream.converter.started,
        stream.grown(delta, text, is_thinking).converter.next_block_index
            == stream.converter.next_block_index,
{
    if let Some(block) = stream.converter.open_block {
        let event = AnthropicStreamEventView::ContentBlockDelta { index: block.position(), delta };
        lemma_wire_push(start, stream.events, event);
        lemma_recorded(start, stream.emit(event), text, is_thinking);
    }
}

proof fn lemma_opened_tool(start: Wire, stream: Stream, call_id: Seq<char>, name: Seq<char>)
    requires
        on_wire(start, stream),
        stream.converter.next_block_index < usize::MAX,
    ensures
        on_wire(start, stream.opened_tool(call_id, name)),
        stream.opened_tool(call_id, name).converter.started == stream.converter.started,
{
    if !stream.in_tool_call(call_id) {
        lemma_closed(start, stream);
        let ready = stream.closed();
        lemma_opened(
            start,
            ready,
            ContentBlockStateView::ToolUse { index: ready.converter.next_block_index, call_id },
            AnthropicContentBlockStartView::ToolUse {
                id: call_id,
                name,
                input: JsonView::Object(Map::empty()),
            },
        );
    }
}

proof fn lemma_whole_call(
    start: Wire,
    stream: Stream,
    call_id: Seq<char>,
    name: Seq<char>,
    arguments: Seq<char>,
    show_empty: bool,
)
    requires
        on_wire(start, stream),
        stream.converter.next_block_index < usize::MAX,
    ensures
        on_wire(start, stream.whole_call(call_id, name, arguments, show_empty)),
        stream.whole_call(call_id, name, arguments, show_empty).converter.open_block is None,
{
    lemma_opened_tool(start, stream, call_id, name);
    let open = stream.opened_tool(call_id, name);
    let delta = AnthropicDeltaView::InputJsonDelta { partial_json: arguments };
    lemma_grown(start, open, delta, arguments, false);
    let filled = if arguments.len() > 0 || show_empty {
        open.grown(delta, arguments, false)
    } else {
        open
    };
    lemma_closed(start, filled);
}

proof fn lemma_ended(
    start: Wire,
    stream: Stream,
    stop_reason: Seq<char>,
    stop_sequence: Option<JsonView>,
    input_tokens: Option<u64>,
)
    requires
        on_wire(start, stream),
        stream.converter.open_block is None,
    ensures
        on_wire(start, stream.ended(stop_reason, stop_sequence, input_tokens)),
        stream.ended(stop_reason, stop_sequence, input_tokens).converter == stream.converter,
        stream.ended(stop_reason, stop_sequence, input_tokens).events.last()
            == AnthropicStreamEventView::MessageStop,
{
    let ended = stream.ended(stop_reason, stop_sequence, input_tokens);
    let delta = ended.events[ended.events.len() - 2];
    assert(ended.events =~= stream.events.push(delta).push(AnthropicStreamEventView::MessageStop));
    lemma_wire_push(start, stream.events, delta);
    lemma_wire_push(
        start,
        stream.events.push(delta),
        AnthropicStreamEventView::MessageStop,
    );
}

proof fn lemma_search_events(start: Wire, stream: Stream, data: JsonView)
    requires
        on_wire(start, stream),
        stream.converter.open_block is None,
        stream.converter.next_block_index < usize::MAX - 1,
    ensures
        wire_run(
            start,
            stream.events + search_events(data, stream.converter.next_block_index),
        ) == Some(
            Wire {
                open: None,
                next: (stream.converter.next_block_index + 2) as usize,
                started: stream.converter.started,
            },
        ),
{
    let index = stream.converter.next_block_index;
    let events = search_events(data, index);
    let wire = wire_of(stream.converter);
    lemma_wire_append(start, stream.events, events);
    assert(events.take(0) =~= Seq::empty());
    assert(events.take(5) =~= events);
    assert forall|k: int| 0 <= k < 5 implies events.take(k + 1) == (#[trigger] events.take(k)).push(
        events[k],
    ) by {
        assert(events.take(k + 1) =~= events.take(k).push(events[k]));
    }
    lemma_wire_push(wire, events.take(0), events[0]);
    lemma_wire_push(wire, events.take(1), events[1]);
    lemma_wire_push(wire, events.take(2), events[2]);
    lemma_wire_push(wire, events.take(3), events[3]);
    lemma_wire_push(wire, events.take(4), events[4]);
}

/// Whatever event comes, the events that it turns into keep to the grammar of a message stream:
/// blocks never overlap, carry ascending numbers, and are closed before the message stops.
pub proof fn law_events_keep_to_the_grammar(converter: AnthropicStreamConverterView, event: SseEventView)
    requires
        sound(converter),
        converter.has_room(),
    ensures
        ({
            let after = (Stream { converter, events: Seq::empty() }).after(event);
            &&& wire_run(wire_of(converter), after.events) == Some(wire_of(after.converter))
            &&& sound(after.converter)
        }),
{
    let start = wire_of(converter);
    let stream = Stream { converter, events: Seq::empty() };
    let data = event.data;
    lemma_begun(start, stream);
    let begun = stream.begun();
    lemma_closed(start, begun);
    lemma_closed(start, stream);
    let name = event.event;
    if name == "response.output_item.added"@ {
        let closed = begun.closed();
        lemma_opened(
            start,
            closed,
            ContentBlockStateView::Text { index: closed.converter.next_block_index },
            AnthropicContentBlockStartView::Text { text: Seq::empty() },
        );
        lemma_opened(
            start,
            closed,
            ContentBlockStateView::Thinking { index: closed.converter.next_block_index },
            AnthropicContentBlockStartView::Thinking { thinking: Seq::empty() },
        );
    } else if name == "response.output_text.delta"@ {
        if let Some(text) = data.get_str("delta"@) {
            let closed = begun.closed();
            lemma_opened(
                start,
                closed,
                ContentBlockStateView::Text { index: closed.converter.next_block_index },
                AnthropicContentBlockStartView::Text { text: Seq::empty() },
            );
            let delta = AnthropicDeltaView::TextDelta { text };
            lemma_grown(start, begun, delta, text, false);
            lemma_grown(start, closed.opened_text(), delta, text, false);
        }
    } else if name == "response.reasoning_text.delta"@ || name
        == "response.reasoning_summary_text.delta"@ {
        if let Some(text) = data.get_str("delta"@) {
            let closed = begun.closed();
            lemma_opened(
                start,
                closed,
                ContentBlockStateView::Thinking { index: closed.converter.next_block_index },
                AnthropicContentBlockStartView::Thinking { thinking: Seq::empty() },
            );
            let delta = AnthropicDeltaView::ThinkingDelta { thinking: text };
            lemma_grown(start, begun, delta, text, true);
            lemma_grown(start, closed.opened_thinking(), delta, text, true);
        }
    } else if name == "response.reasoning_summary_text.signature_delta"@ {
        if let (Some(signature), Some(ContentBlockStateView::Thinking { index })) = (
            data.get_str("signature"@),
            begun.converter.open_block,
        ) {
            lemma_wire_push(
                start,
                begun.events,
                AnthropicStreamEventView::ContentBlockDelta {
                    index,
                    delta: AnthropicDeltaView::SignatureDelta { signature },
                },
            );
        }
    } else if name == "response.function_call_arguments.delta"@ {
        if let (Some(call_id), Some(delta)) = (data.get_str("call_id"@), data.get_str("delta"@)) {
            let calling = begun.calling_tools();
            let label = text_or_empty(data, "name"@);
            lemma_opened_tool(start, calling, call_id, label);
            lemma_grown(
                start,
                calling.opened_tool(call_id, label),
                AnthropicDeltaView::InputJsonDelta { partial_json: delta },
                delta,
                false,
            );
        }
    } else if name == "response.function_call_arguments.done"@ {
        if let Some(call_id) = data.get_str("call_id"@) {
            let calling = begun.calling_tools();
            lemma_closed(start, calling);
            lemma_whole_call(
                start,
                calling,
                call_id,
                text_or_empty(data, "name"@),
                super::resource::arguments_text(data),
                false,
            );
        }
    } else if name == "response.output_item.done"@ {
        if let Some(item) = data.get("item"@) {
            let calling = stream.closed().calling_tools();
            lemma_whole_call(
                start,
                calling,
                text_or_empty(item, "call_id"@),
                text_or_empty(item, "name"@),
                super::resource::arguments_text(item),
                true,
            );
        }
    } else if name == "response.completed"@ || name == "response.incomplete"@ {
        lemma_completed(start, stream, data);
    } else if name == "response.failed"@ {
        lemma_wire_push(start, stream.events, stream.failed(data).events.last());
    } else if name == "response.web_search_results"@ {
        lemma_search_events(start, begun.closed(), data);
    }
}

proof fn lemma_completed(start: Wire, stream: Stream, data: JsonView)
    requires
        on_wire(start, stream),
    ensures
        on_wire(start, stream.completed(data)),
        stream.completed(data).converter.open_block is None,
        stream.completed(data).converter.completed,
        stream.completed(data).events.len() > 0,
        stream.completed(data).events.last() == AnthropicStreamEventView::MessageStop,
{
    let marked = Stream {
        converter: AnthropicStreamConverterView { completed: true, ..stream.converter },
        ..stream
    };
    lemma_closed(start, marked);
    let after = stream.completed(data);
    let counted = Stream { converter: after.converter, events: marked.closed().events };
    let (stop_reason, stop_sequence) = super::resource::message_end(
        data,
        counted.converter.has_tool_calls,
    );
    lemma_ended(
        start,
        counted,
        stop_reason,
        stop_sequence,
        match super::response_usage(data) {
            Some(usage) => Some(usage.input_tokens),
            None => None,
        },
    );
}

/// Every stream ends: finalizing a converter that has not completed its message closes what is
/// open and stops the message, and finalizing it again puts out nothing.
pub proof fn law_finalize_ends_the_stream(converter: AnthropicStreamConverterView)
    requires
        sound(converter),
    ensures
        ({
            let after = (Stream { converter, events: Seq::empty() }).finalized();
            &&& wire_run(wire_of(converter), after.events) == Some(wire_of(after.converter))
            &&& after.converter.completed
            &&& converter.completed ==> after.events.len() == 0
            &&& !converter.completed ==> after.events.last()
                == AnthropicStreamEventView::MessageStop && after.converter.open_block is None
                && after.converter.started
            &&& (Stream { converter: after.converter, events: Seq::empty() }).finalized() == (Stream {
                converter: after.converter,
                events: Seq::empty(),
            })
        }),
{
    let start = wire_of(converter);
    let stream = Stream { converter, events: Seq::empty() };
    lemma_begun(start, stream);
    lemma_closed(start, stream.begun());
    let ready = stream.begun().closed();
    lemma_ended(
        start,
        ready,
        super::resource::broken_off(ready.converter.has_tool_calls),
        None,
        ready.converter.pending_input_tokens,
    );
}

/// A terminal event ends the stream: the message stops with no block open, and finalizing has
/// nothing to add.
pub proof fn law_completion_ends_the_stream(
    converter: AnthropicStreamConverterView,
    event: SseEventView,
)
    requires
        sound(converter),
        converter.has_room(),
        event.event == "response.completed"@ || event.event == "response.incomplete"@,
    ensures
        ({
            let after = (Stream { converter, events: Seq::empty() }).after(event);
            &&& after.events.len() > 0
            &&& after.events.last() == AnthropicStreamEventView::MessageStop
            &&& after.converter.open_block is None
            &&& (Stream { converter: after.converter, events: Seq::empty() }).finalized() == (Stream {
                converter: after.converter,
                events: Seq::empty(),
            })
        }),
{
    lemma_names_differ(event.event);
    lemma_completed(wire_of(converter), Stream { converter, events: Seq::empty() }, event.data);
}

pub(super) proof fn lemma_names_differ(name: Seq<char>)
    requires
        name == "response.completed"@ || name == "response.incomplete"@,
    ensures
        name != "response.created"@,
        name != "response.output_item.added"@,
        name != "response.output_text.delta"@,
        name != "response.reasoning_text.delta"@,
        name != "response.reasoning_summary_text.delta"@,
        name != "response.reasoning_summary_text.signature_delta"@,
        name != "response.function_call_arguments.delta"@,
        name != "response.function_call_arguments.done"@,
        name != "response.output_item.done"@,
{
    reveal_strlit("response.completed");
    reveal_strlit("response.incomplete");
    reveal_strlit("response.created");
    reveal_strlit("response.output_item.added");
    reveal_strlit("response.output_text.delta");
    reveal_strlit("response.reasoning_text.delta");
    reveal_strlit("response.reasoning_summary_text.delta");
    reveal_strlit("response.reasoning_summary_text.signature_delta");
    reveal_strlit("response.function_call_arguments.delta");
    reveal_strlit("response.function_call_arguments.done");
    reveal_strlit("response.output_item.done");
    assert("response.completed"@.len() == 18);
    assert("response.incomplete"@.len() == 19);
    assert("response.created"@.len() == 16);
}

/// A new converter is sound.
pub proof fn law_new_converter_is_sound(model: Seq<char>, message_id: Seq<char>)
    ensures
        sound(super::new_converter(model, message_id)),
        super::new_converter(model, message_id).has_room(),
        wire_of(super::new_converter(model, message_id)) == silent(),
{
}

// ---------------------------------------------------------------------------------------------
// Whole streams
// ---------------------------------------------------------------------------------------------

/// A converter after the first `count` events, and everything that they turned into.
pub open spec fn converted(
    start: AnthropicStreamConverterView,
    events: Seq<SseEventView>,
    count: int,
) -> Stream
    decreases count,
{
    if count <= 0 {
        Stream { converter: start, events: Seq::empty() }
    } else {
        let before = converted(start, events, count - 1);
        let step = (Stream { converter: before.converter, events: Seq::empty() }).after(
            events[count - 1],
        );
        Stream { converter: step.converter, events: before.events + step.events }
    }
}

/// Everything that comes out of a converter, with what ends the stream.
pub open spec fn converted_to_the_end(
    start: AnthropicStreamConverterView,
    events: Seq<SseEventView>,
    count: int,
) -> Stream {
    let before = converted(start, events, count);
    let step = (Stream { converter: before.converter, events: Seq::empty() }).finalized();
    Stream { converter: step.converter, events: before.events + step.events }
}

/// Whether there was room for each of the first `count` events.
pub open spec fn room_throughout(
    start: AnthropicStreamConverterView,
    events: Seq<SseEventView>,
    count: int,
) -> bool {
    forall|n: int| 0 <= n < count ==> (#[trigger] converted(start, events, n)).converter.has_room()
}

/// Over any events everything that comes out keeps to the grammar: the message begins at most once,
/// the blocks are numbered from zero, they never overlap, and what they grow by goes to the open
/// one.
pub proof fn law_whole_stream_keeps_to_the_grammar(
    model: Seq<char>,
    message_id: Seq<char>,
    events: Seq<SseEventView>,
    count: int,
)
    requires
        room_throughout(super::new_converter(model, message_id), events, count),
    ensures
        ({
            let all = converted(super::new_converter(model, message_id), events, count);
            &&& sound(all.converter)
            &&& wire_run(silent(), all.events) == Some(wire_of(all.converter))
            &&& message_starts(all.events) <= 1
            &&& forall|i: int|
                0 <= i < block_numbers(all.events).len() ==> #[trigger] block_numbers(
                    all.events,
                )[i] == i
        }),
    decreases count,
{
    let start = super::new_converter(model, message_id);
    law_new_converter_is_sound(model, message_id);
    let all = converted(start, events, count);
    if count > 0 {
        assert(room_throughout(start, events, count - 1));
        law_whole_stream_keeps_to_the_grammar(model, message_id, events, count - 1);
        let before = converted(start, events, count - 1);
        assert(before.converter.has_room());
        law_events_keep_to_the_grammar(before.converter, events[count - 1]);
        let step = (Stream { converter: before.converter, events: Seq::empty() }).after(
            events[count - 1],
        );
        lemma_wire_append(silent(), before.events, step.events);
    }
    law_message_begins_once(silent(), all.events);
    law_blocks_are_numbered_in_order(silent(), all.events);
}

/// The last of several events is the last of those that came last.
pub(super) proof fn lemma_last_stays(
    events: Seq<AnthropicStreamEventView>,
    more: Seq<AnthropicStreamEventView>,
)
    requires
        more.len() > 0,
    ensures
        (events + more).last() == more.last(),
{
}

/// Once the response is over, no block of the whole stream is open and its last event stops the
/// message.
pub proof fn law_whole_stream_ends_with_the_response(
    model: Seq<char>,
    message_id: Seq<char>,
    events: Seq<SseEventView>,
    count: int,
)
    requires
        count > 0,
        room_throughout(super::new_converter(model, message_id), events, count),
        events[count - 1].event == "response.completed"@ || events[count - 1].event
            == "response.incomplete"@,
    ensures
        ({
            let all = converted(super::new_converter(model, message_id), events, count);
            &&& wire_run(silent(), all.events)->0.open is None
            &&& all.events.last() == AnthropicStreamEventView::MessageStop
        }),
{
    let start = super::new_converter(model, message_id);
    law_whole_stream_keeps_to_the_grammar(model, message_id, events, count);
    assert(room_throughout(start, events, count - 1));
    law_whole_stream_keeps_to_the_grammar(model, message_id, events, count - 1);
    let before = converted(start, events, count - 1);
    assert(before.converter.has_room());
    law_completion_ends_the_stream(before.converter, events[count - 1]);
    let step = (Stream { converter: before.converter, events: Seq::empty() }).after(
        events[count - 1],
    );
    lemma_last_stays(before.events, step.events);
}

/// A finalized stream has exactly one beginning of a message, unless the response was over before
/// anything began the message.
pub proof fn law_finalized_stream_begins_once(
    model: Seq<char>,
    message_id: Seq<char>,
    events: Seq<SseEventView>,
    count: int,
)
    requires
        room_throughout(super::new_converter(model, message_id), events, count),
        ({
            let converter = converted(super::new_converter(model, message_id), events, count).converter;
            converter.completed ==> converter.started
        }),
    ensures
        ({
            let all = converted_to_the_end(super::new_converter(model, message_id), events, count);
            &&& message_starts(all.events) == 1
            &&& wire_run(silent(), all.events) == Some(wire_of(all.converter))
        }),
{
    let start = super::new_converter(model, message_id);
    law_whole_stream_keeps_to_the_grammar(model, message_id, events, count);
    let before = converted(start, events, count);
    law_finalize_ends_the_stream(before.converter);
    let step = (Stream { converter: before.converter, events: Seq::empty() }).finalized();
    lemma_wire_append(silent(), before.events, step.events);
    law_message_begins_once(silent(), converted_to_the_end(start, events, count).events);
}

} // verus!
