//! What a client gets to read in a message stream, and in the message that it adds up to: the words
//! that the response stream carried, and no others.
use vstd::prelude::*;

use crate::json::JsonView;
use crate::models::anthropic::{
    AnthropicContentBlockStartView, AnthropicDeltaView, AnthropicResponseContentBlockView,
    AnthropicStreamEventView,
};
use crate::sse::SseEventView;

use super::laws::converted;
use super::message::{AccumulatedBlockView, MessageAccumulatorView};
use super::{
    new_converter, search_events, AnthropicStreamCollectorView, AnthropicStreamConverterView,
    ContentBlockStateView, Stream,
};

verus! {

// ---------------------------------------------------------------------------------------------
// What comes in
// ---------------------------------------------------------------------------------------------

/// The text that an event adds to the answer.
pub open spec fn answer_in(event: SseEventView) -> Seq<char> {
    if event.event == "response.output_text.delta"@ {
        match event.data.get_str("delta"@) {
            Some(text) => text,
            None => Seq::empty(),
        }
    } else {
        Seq::empty()
    }
}

/// Whether an event is a piece of reasoning.
pub open spec fn is_reasoning_delta(name: Seq<char>) -> bool {
    name == "response.reasoning_text.delta"@ || name == "response.reasoning_summary_text.delta"@
}

/// The text that an event adds to the reasoning.
pub open spec fn reasoning_in(event: SseEventView) -> Seq<char> {
    if is_reasoning_delta(event.event) {
        match event.data.get_str("delta"@) {
            Some(text) => text,
            None => Seq::empty(),
        }
    } else {
        Seq::empty()
    }
}

/// The answer that the first `count` events carry.
pub open spec fn whole_answer_in(events: Seq<SseEventView>, count: int) -> Seq<char>
    decreases count,
{
    if count <= 0 {
        Seq::empty()
    } else {
        whole_answer_in(events, count - 1) + answer_in(events[count - 1])
    }
}

/// The reasoning that the first `count` events carry.
pub open spec fn whole_reasoning_in(events: Seq<SseEventView>, count: int) -> Seq<char>
    decreases count,
{
    if count <= 0 {
        Seq::empty()
    } else {
        whole_reasoning_in(events, count - 1) + reasoning_in(events[count - 1])
    }
}

// ---------------------------------------------------------------------------------------------
// What goes out
// ---------------------------------------------------------------------------------------------

/// What the deltas of a message stream add up to, one kind at a time.
#[verifier::ext_equal]
pub struct Shown {
    pub text: Seq<char>,
    pub thinking: Seq<char>,
    pub json: Seq<char>,
}

impl Shown {
    pub open spec fn nothing() -> Shown {
        Shown { text: Seq::empty(), thinking: Seq::empty(), json: Seq::empty() }
    }

    pub open spec fn with(self, event: AnthropicStreamEventView) -> Shown {
        match event {
            AnthropicStreamEventView::ContentBlockDelta { index, delta } => match delta {
                AnthropicDeltaView::TextDelta { text } => Shown { text: self.text + text, ..self },
                AnthropicDeltaView::ThinkingDelta { thinking } => Shown {
                    thinking: self.thinking + thinking,
                    ..self
                },
                AnthropicDeltaView::InputJsonDelta { partial_json } => Shown {
                    json: self.json + partial_json,
                    ..self
                },
                _ => self,
            },
            _ => self,
        }
    }
}

/// What the deltas of `events` add up to.
pub open spec fn shown(events: Seq<AnthropicStreamEventView>) -> Shown
    decreases events.len(),
{
    if events.len() == 0 {
        Shown::nothing()
    } else {
        shown(events.drop_last()).with(events.last())
    }
}

pub broadcast proof fn lemma_shown_push(
    events: Seq<AnthropicStreamEventView>,
    event: AnthropicStreamEventView,
)
    ensures
        #[trigger] shown(events.push(event)) == shown(events).with(event),
{
    assert(events.push(event).drop_last() =~= events);
}

pub proof fn lemma_shown_append(
    events: Seq<AnthropicStreamEventView>,
    more: Seq<AnthropicStreamEventView>,
)
    ensures
        shown(events + more).text == shown(events).text + shown(more).text,
        shown(events + more).thinking == shown(events).thinking + shown(more).thinking,
        shown(events + more).json == shown(events).json + shown(more).json,
    decreases more.len(),
{
    if more.len() == 0 {
        assert(events + more =~= events);
        assert(shown(events).text + shown(more).text =~= shown(events).text);
        assert(shown(events).thinking + shown(more).thinking =~= shown(events).thinking);
        assert(shown(events).json + shown(more).json =~= shown(events).json);
    } else {
        lemma_shown_append(events, more.drop_last());
        assert((events + more).drop_last() =~= events + more.drop_last());
        assert((events + more).last() == more.last());
        assert(shown(events + more).text =~= shown(events).text + shown(more).text);
        assert(shown(events + more).thinking =~= shown(events).thinking + shown(more).thinking);
        assert(shown(events + more).json =~= shown(events).json + shown(more).json);
    }
}

// ---------------------------------------------------------------------------------------------
// What a reader gathers
// ---------------------------------------------------------------------------------------------

/// The answer text of a block.
pub open spec fn block_text(block: AccumulatedBlockView) -> Seq<char> {
    match block {
        AccumulatedBlockView::Text { text } => text,
        _ => Seq::empty(),
    }
}

/// The thinking of a block.
pub open spec fn block_thinking(block: AccumulatedBlockView) -> Seq<char> {
    match block {
        AccumulatedBlockView::Thinking { text, signature } => text,
        _ => Seq::empty(),
    }
}

/// The answer text of blocks.
pub open spec fn blocks_text(blocks: Seq<AccumulatedBlockView>) -> Seq<char>
    decreases blocks.len(),
{
    if blocks.len() == 0 {
        Seq::empty()
    } else {
        blocks_text(blocks.drop_last()) + block_text(blocks.last())
    }
}

/// The thinking of blocks.
pub open spec fn blocks_thinking(blocks: Seq<AccumulatedBlockView>) -> Seq<char>
    decreases blocks.len(),
{
    if blocks.len() == 0 {
        Seq::empty()
    } else {
        blocks_thinking(blocks.drop_last()) + block_thinking(blocks.last())
    }
}

/// The answer text of a message in the making.
pub open spec fn message_text(message: MessageAccumulatorView) -> Seq<char> {
    match message.current_block {
        Some(block) => blocks_text(message.blocks) + block_text(block),
        None => blocks_text(message.blocks),
    }
}

/// The thinking of a message in the making.
pub open spec fn message_thinking(message: MessageAccumulatorView) -> Seq<char> {
    match message.current_block {
        Some(block) => blocks_thinking(message.blocks) + block_thinking(block),
        None => blocks_thinking(message.blocks),
    }
}

/// The answer text of a whole message.
pub open spec fn content_text(content: Seq<AnthropicResponseContentBlockView>) -> Seq<char>
    decreases content.len(),
{
    if content.len() == 0 {
        Seq::empty()
    } else {
        content_text(content.drop_last()) + match content.last() {
            AnthropicResponseContentBlockView::Text { text } => text,
            _ => Seq::empty(),
        }
    }
}

/// The thinking of a whole message.
pub open spec fn content_thinking(content: Seq<AnthropicResponseContentBlockView>) -> Seq<char>
    decreases content.len(),
{
    if content.len() == 0 {
        Seq::empty()
    } else {
        content_thinking(content.drop_last()) + match content.last() {
            AnthropicResponseContentBlockView::Thinking { thinking, signature } => thinking,
            _ => Seq::empty(),
        }
    }
}

pub broadcast proof fn lemma_after_push(
    message: MessageAccumulatorView,
    events: Seq<AnthropicStreamEventView>,
    event: AnthropicStreamEventView,
)
    ensures
        #[trigger] message.after_all(events.push(event)) == message.after_all(events).after(event),
{
    assert(events.push(event).drop_last() =~= events);
}

pub proof fn lemma_after_append(
    message: MessageAccumulatorView,
    events: Seq<AnthropicStreamEventView>,
    more: Seq<AnthropicStreamEventView>,
)
    ensures
        message.after_all(events + more) == message.after_all(events).after_all(more),
    decreases more.len(),
{
    if more.len() == 0 {
        assert(events + more =~= events);
    } else {
        lemma_after_append(message, events, more.drop_last());
        assert((events + more).drop_last() =~= events + more.drop_last());
        assert((events + more).last() == more.last());
    }
}

pub broadcast proof fn lemma_blocks_push(blocks: Seq<AccumulatedBlockView>, block: AccumulatedBlockView)
    ensures
        #[trigger] blocks_text(blocks.push(block)) == blocks_text(blocks) + block_text(block),
{
    assert(blocks.push(block).drop_last() =~= blocks);
}

pub broadcast proof fn lemma_blocks_thinking_push(
    blocks: Seq<AccumulatedBlockView>,
    block: AccumulatedBlockView,
)
    ensures
        #[trigger] blocks_thinking(blocks.push(block)) == blocks_thinking(blocks)
            + block_thinking(block),
{
    assert(blocks.push(block).drop_last() =~= blocks);
}

/// A whole message reads as it was gathered.
pub proof fn lemma_response_reads_alike(message: MessageAccumulatorView, fresh: Seq<char>)
    requires
        message.response(fresh) is Ok,
    ensures
        content_text(message.response(fresh)->Ok_0.content) == blocks_text(message.blocks),
        content_thinking(message.response(fresh)->Ok_0.content) == blocks_thinking(message.blocks),
    decreases message.blocks.len(),
{
    let content = message.response(fresh)->Ok_0.content;
    if message.blocks.len() > 0 {
        let before = MessageAccumulatorView { blocks: message.blocks.drop_last(), ..message };
        lemma_response_reads_alike(before, fresh);
        assert(content.drop_last() =~= before.response(fresh)->Ok_0.content);
    }
}

/// The block that a reader has before it is the one that the converter has open.
pub open spec fn same_block(
    current: Option<AccumulatedBlockView>,
    open: Option<ContentBlockStateView>,
) -> bool {
    match open {
        None => current is None,
        Some(ContentBlockStateView::Text { index }) => current matches Some(
            AccumulatedBlockView::Text { text },
        ),
        Some(ContentBlockStateView::Thinking { index }) => current matches Some(
            AccumulatedBlockView::Thinking { text, signature },
        ),
        Some(ContentBlockStateView::ToolUse { index, call_id }) => current matches Some(
            AccumulatedBlockView::ToolUse { id, name, input },
        ) && id == call_id,
    }
}

/// What a reader that had read `from` before has read by now.
spec fn reads(
    from: MessageAccumulatorView,
    stream: Stream,
    text: Seq<char>,
    thinking: Seq<char>,
) -> bool {
    let message = from.after_all(stream.events);
    &&& same_block(message.current_block, stream.converter.open_block)
    &&& message_text(message) == message_text(from) + text
    &&& message_thinking(message) == message_thinking(from) + thinking
    &&& shown(stream.events).text == text
    &&& shown(stream.events).thinking == thinking
}

proof fn lemma_begun(
    from: MessageAccumulatorView,
    stream: Stream,
    text: Seq<char>,
    thinking: Seq<char>,
)
    requires
        reads(from, stream, text, thinking),
    ensures
        reads(from, stream.begun(), text, thinking),
        shown(stream.begun().events).json == shown(stream.events).json,
        stream.begun().converter == (AnthropicStreamConverterView {
            started: true,
            ..stream.converter
        }),
{
    broadcast use lemma_shown_push, lemma_after_push;

}

proof fn lemma_closed(
    from: MessageAccumulatorView,
    stream: Stream,
    text: Seq<char>,
    thinking: Seq<char>,
)
    requires
        reads(from, stream, text, thinking),
    ensures
        reads(from, stream.closed(), text, thinking),
        shown(stream.closed().events).json == shown(stream.events).json,
        stream.closed().converter.open_block is None,
{
    broadcast use lemma_shown_push, lemma_after_push, lemma_blocks_push, lemma_blocks_thinking_push;

}

proof fn lemma_opened(
    from: MessageAccumulatorView,
    stream: Stream,
    text: Seq<char>,
    thinking: Seq<char>,
    block: ContentBlockStateView,
    start: AnthropicContentBlockStartView,
)
    requires
        reads(from, stream, text, thinking),
        stream.converter.open_block is None,
        match block {
            ContentBlockStateView::Text { index } => start is Text,
            ContentBlockStateView::Thinking { index } => start is Thinking,
            ContentBlockStateView::ToolUse { index, call_id } => start is ToolUse
                && start->ToolUse_id == call_id,
        },
    ensures
        reads(from, stream.opened(block, start), text, thinking),
        shown(stream.opened(block, start).events).json == shown(stream.events).json,
        stream.opened(block, start).converter.open_block == Some(block),
{
    broadcast use lemma_shown_push, lemma_after_push;

    let message = from.after_all(stream.opened(block, start).events);
    assert(message_text(message) =~= message_text(from.after_all(stream.events)));
    assert(message_thinking(message) =~= message_thinking(from.after_all(stream.events)));
}

proof fn lemma_recorded(
    from: MessageAccumulatorView,
    stream: Stream,
    text: Seq<char>,
    thinking: Seq<char>,
    added: Seq<char>,
    is_thinking: bool,
)
    requires
        reads(from, stream, text, thinking),
    ensures
        reads(from, stream.recorded(added, is_thinking), text, thinking),
        shown(stream.recorded(added, is_thinking).events).json == shown(stream.events).json,
        stream.recorded(added, is_thinking).converter.open_block == stream.converter.open_block,
        stream.recorded(added, is_thinking).converter.emitted_tool_call_ids
            == stream.converter.emitted_tool_call_ids,
        stream.recorded(added, is_thinking).converter.closed_tool_call_ids
            == stream.converter.closed_tool_call_ids,
{
    broadcast use lemma_shown_push, lemma_after_push;

}

/// The words by which a delta grows the answer.
spec fn delta_text(delta: AnthropicDeltaView) -> Seq<char> {
    match delta {
        AnthropicDeltaView::TextDelta { text } => text,
        _ => Seq::empty(),
    }
}

/// The words by which a delta grows the thinking.
spec fn delta_thinking(delta: AnthropicDeltaView) -> Seq<char> {
    match delta {
        AnthropicDeltaView::ThinkingDelta { thinking } => thinking,
        _ => Seq::empty(),
    }
}

/// The JSON by which a delta grows the input of a tool.
spec fn delta_json(delta: AnthropicDeltaView) -> Seq<char> {
    match delta {
        AnthropicDeltaView::InputJsonDelta { partial_json } => partial_json,
        _ => Seq::empty(),
    }
}

/// Whether a delta is one for a block.
spec fn delta_fits(delta: AnthropicDeltaView, block: ContentBlockStateView) -> bool {
    match block {
        ContentBlockStateView::Text { index } => delta is TextDelta,
        ContentBlockStateView::Thinking { index } => delta is ThinkingDelta || delta
            is SignatureDelta,
        ContentBlockStateView::ToolUse { index, call_id } => delta is InputJsonDelta,
    }
}

proof fn lemma_delta_emitted(
    from: MessageAccumulatorView,
    stream: Stream,
    text: Seq<char>,
    thinking: Seq<char>,
    delta: AnthropicDeltaView,
)
    requires
        reads(from, stream, text, thinking),
        stream.converter.open_block matches Some(block) && delta_fits(delta, block),
    ensures
        ({
            let after = stream.emit(
                AnthropicStreamEventView::ContentBlockDelta {
                    index: stream.converter.open_block->0.position(),
                    delta,
                },
            );
            &&& reads(from, after, text + delta_text(delta), thinking + delta_thinking(delta))
            &&& shown(after.events).json == shown(stream.events).json + delta_json(delta)
        }),
{
    broadcast use lemma_shown_push, lemma_after_push;

    let after = stream.emit(
        AnthropicStreamEventView::ContentBlockDelta {
            index: stream.converter.open_block->0.position(),
            delta,
        },
    );
    let before = from.after_all(stream.events);
    let message = from.after_all(after.events);
    let block = before.current_block->0;
    assert(message == before.after(after.events.last()));
    assert(block_text(message.current_block->0) =~= block_text(block) + delta_text(delta));
    assert(block_thinking(message.current_block->0) =~= block_thinking(block) + delta_thinking(
        delta,
    ));
    assert(message_text(message) =~= message_text(before) + delta_text(delta));
    assert(message_thinking(message) =~= message_thinking(before) + delta_thinking(delta));
    assert(message_text(message) =~= message_text(from) + (text + delta_text(delta)));
    assert(message_thinking(message) =~= message_thinking(from) + (thinking + delta_thinking(delta)));
    assert(shown(after.events).text =~= text + delta_text(delta));
    assert(shown(after.events).thinking =~= thinking + delta_thinking(delta));
    assert(shown(after.events).json =~= shown(stream.events).json + delta_json(delta));
}

proof fn lemma_grown(
    from: MessageAccumulatorView,
    stream: Stream,
    text: Seq<char>,
    thinking: Seq<char>,
    delta: AnthropicDeltaView,
    added: Seq<char>,
    is_thinking: bool,
)
    requires
        reads(from, stream, text, thinking),
        stream.converter.open_block matches Some(block) && delta_fits(delta, block),
    ensures
        reads(
            from,
            stream.grown(delta, added, is_thinking),
            text + delta_text(delta),
            thinking + delta_thinking(delta),
        ),
        shown(stream.grown(delta, added, is_thinking).events).json == shown(stream.events).json
            + delta_json(delta),
        stream.grown(delta, added, is_thinking).converter.open_block == stream.converter.open_block,
        stream.grown(delta, added, is_thinking).converter.emitted_tool_call_ids
            == stream.converter.emitted_tool_call_ids,
        stream.grown(delta, added, is_thinking).converter.closed_tool_call_ids
            == stream.converter.closed_tool_call_ids,
{
    lemma_delta_emitted(from, stream, text, thinking, delta);
    let event = AnthropicStreamEventView::ContentBlockDelta {
        index: stream.converter.open_block->0.position(),
        delta,
    };
    lemma_recorded(
        from,
        stream.emit(event),
        text + delta_text(delta),
        thinking + delta_thinking(delta),
        added,
        is_thinking,
    );
}

/// Nothing of the answer or the thinking comes or goes where only the converter changes.
proof fn lemma_reads_stay(
    from: MessageAccumulatorView,
    before: Stream,
    after: Stream,
    text: Seq<char>,
    thinking: Seq<char>,
)
    requires
        reads(from, before, text, thinking),
        after.events == before.events,
        after.converter.open_block == before.converter.open_block,
    ensures
        reads(from, after, text, thinking),
{
}

proof fn lemma_opened_tool(
    from: MessageAccumulatorView,
    stream: Stream,
    text: Seq<char>,
    thinking: Seq<char>,
    call_id: Seq<char>,
    name: Seq<char>,
)
    requires
        reads(from, stream, text, thinking),
    ensures
        reads(from, stream.opened_tool(call_id, name), text, thinking),
        shown(stream.opened_tool(call_id, name).events).json == shown(stream.events).json,
        stream.opened_tool(call_id, name).in_tool_call(call_id),
{
    if !stream.in_tool_call(call_id) {
        lemma_closed(from, stream, text, thinking);
        let ready = stream.closed();
        lemma_opened(
            from,
            ready,
            text,
            thinking,
            ContentBlockStateView::ToolUse { index: ready.converter.next_block_index, call_id },
            AnthropicContentBlockStartView::ToolUse {
                id: call_id,
                name,
                input: JsonView::Object(Map::empty()),
            },
        );
    }
}

proof fn lemma_whole_call(
    from: MessageAccumulatorView,
    stream: Stream,
    text: Seq<char>,
    thinking: Seq<char>,
    call_id: Seq<char>,
    name: Seq<char>,
    arguments: Seq<char>,
    show_empty: bool,
)
    requires
        reads(from, stream, text, thinking),
    ensures
        reads(
            from,
            stream.whole_call(call_id, name, arguments, show_empty),
            text,
            thinking,
        ),
        shown(stream.whole_call(call_id, name, arguments, show_empty).events).json == shown(
            stream.events,
        ).json + arguments,
{
    lemma_opened_tool(from, stream, text, thinking, call_id, name);
    let open = stream.opened_tool(call_id, name);
    let delta = AnthropicDeltaView::InputJsonDelta { partial_json: arguments };
    lemma_grown(from, open, text, thinking, delta, arguments, false);
    assert(text + delta_text(delta) =~= text);
    assert(thinking + delta_thinking(delta) =~= thinking);
    let filled = if arguments.len() > 0 || show_empty {
        open.grown(delta, arguments, false)
    } else {
        open
    };
    assert(shown(filled.events).json =~= shown(stream.events).json + arguments);
    lemma_closed(from, filled, text, thinking);
    lemma_reads_stay(
        from,
        filled.closed(),
        filled.closed().tool_call_done(call_id),
        text,
        thinking,
    );
}

proof fn lemma_ended(
    from: MessageAccumulatorView,
    stream: Stream,
    text: Seq<char>,
    thinking: Seq<char>,
    stop_reason: Seq<char>,
    stop_sequence: Option<JsonView>,
    input_tokens: Option<u64>,
)
    requires
        reads(from, stream, text, thinking),
    ensures
        reads(from, stream.ended(stop_reason, stop_sequence, input_tokens), text, thinking),
        shown(stream.ended(stop_reason, stop_sequence, input_tokens).events).json == shown(
            stream.events,
        ).json,
{
    broadcast use lemma_shown_push, lemma_after_push;

}

proof fn lemma_search(
    from: MessageAccumulatorView,
    stream: Stream,
    text: Seq<char>,
    thinking: Seq<char>,
    data: JsonView,
)
    requires
        reads(from, stream, text, thinking),
    ensures
        reads(from, stream.web_search_results(data), text, thinking),
{
    broadcast use lemma_shown_push, lemma_after_push, lemma_blocks_push, lemma_blocks_thinking_push;

    lemma_begun(from, stream, text, thinking);
    lemma_closed(from, stream.begun(), text, thinking);
    let ready = stream.begun().closed();
    let e = search_events(data, ready.converter.next_block_index);
    let after = stream.web_search_results(data);
    assert(after.events =~= ready.events.push(e[0]).push(e[1]).push(e[2]).push(e[3]).push(e[4]));
    let message = from.after_all(after.events);
    assert(message_text(message) =~= message_text(from.after_all(ready.events)));
    assert(message_thinking(message) =~= message_thinking(from.after_all(ready.events)));
}

pub proof fn lemma_event_names(name: Seq<char>)
    ensures
        name == "response.output_text.delta"@ ==> name != "response.created"@ && name
            != "response.output_item.added"@ && !is_reasoning_delta(name),
        is_reasoning_delta(name) ==> name != "response.created"@ && name
            != "response.output_item.added"@,
        name == "response.reasoning_summary_text.signature_delta"@ || name
            == "response.function_call_arguments.delta"@ || name
            == "response.function_call_arguments.done"@ || name == "response.output_item.done"@
            || name == "response.completed"@ || name == "response.incomplete"@ || name
            == "response.failed"@ || name == "response.web_search_results"@ ==> name
            != "response.output_text.delta"@ && !is_reasoning_delta(name) && name
            != "response.created"@ && name != "response.output_item.added"@,
{
    reveal_strlit("response.created");
    reveal_strlit("response.output_item.added");
    reveal_strlit("response.output_text.delta");
    reveal_strlit("response.reasoning_text.delta");
    reveal_strlit("response.reasoning_summary_text.delta");
    reveal_strlit("response.reasoning_summary_text.signature_delta");
    reveal_strlit("response.function_call_arguments.delta");
    reveal_strlit("response.function_call_arguments.done");
    reveal_strlit("response.output_item.done");
    reveal_strlit("response.completed");
    reveal_strlit("response.incomplete");
    reveal_strlit("response.failed");
    reveal_strlit("response.web_search_results");
    assert("response.created"@.len() == 16);
    assert("response.output_item.added"@.len() == 26);
    assert("response.output_item.added"@[16] == 'i');
    assert("response.output_text.delta"@.len() == 26);
    assert("response.output_text.delta"@[16] == 't');
    assert("response.reasoning_text.delta"@.len() == 29);
    assert("response.reasoning_summary_text.delta"@.len() == 37);
    assert("response.reasoning_summary_text.delta"@[9] == 'r');
    assert("response.function_call_arguments.done"@[9] == 'f');
    assert("response.function_call_arguments.delta"@.len() == 38);
    assert("response.reasoning_summary_text.signature_delta"@.len() == 47);
    assert("response.output_item.done"@.len() == 25);
    assert("response.completed"@.len() == 18);
    assert("response.incomplete"@.len() == 19);
    assert("response.failed"@.len() == 15);
    assert("response.web_search_results"@.len() == 27);
}

/// One event adds its own words to the answer or to the thinking, and nothing else does.
proof fn lemma_step(
    from: MessageAccumulatorView,
    converter: AnthropicStreamConverterView,
    event: SseEventView,
)
    requires
        same_block(from.current_block, converter.open_block),
    ensures
        reads(
            from,
            (Stream { converter, events: Seq::empty() }).after(event),
            answer_in(event),
            reasoning_in(event),
        ),
{
    broadcast use lemma_shown_push, lemma_after_push;

    let none = Seq::<char>::empty();
    let stream = Stream { converter, events: Seq::empty() };
    assert(message_text(from) + none =~= message_text(from));
    assert(message_thinking(from) + none =~= message_thinking(from));
    assert(reads(from, stream, none, none));
    let name = event.event;
    let data = event.data;
    lemma_event_names(name);
    lemma_begun(from, stream, none, none);
    lemma_closed(from, stream, none, none);
    let begun = stream.begun();
    lemma_closed(from, begun, none, none);
    let closed = begun.closed();
    if name == "response.output_item.added"@ {
        lemma_opened(
            from,
            closed,
            none,
            none,
            ContentBlockStateView::Text { index: closed.converter.next_block_index },
            AnthropicContentBlockStartView::Text { text: Seq::empty() },
        );
        lemma_opened(
            from,
            closed,
            none,
            none,
            ContentBlockStateView::Thinking { index: closed.converter.next_block_index },
            AnthropicContentBlockStartView::Thinking { thinking: Seq::empty() },
        );
    } else if name == "response.output_text.delta"@ {
        if let Some(text) = data.get_str("delta"@) {
            lemma_opened(
                from,
                closed,
                none,
                none,
                ContentBlockStateView::Text { index: closed.converter.next_block_index },
                AnthropicContentBlockStartView::Text { text: Seq::empty() },
            );
            let open = if begun.converter.open_block matches Some(
                ContentBlockStateView::Text { index },
            ) {
                begun
            } else {
                closed.opened_text()
            };
            lemma_grown(
                from,
                open,
                none,
                none,
                AnthropicDeltaView::TextDelta { text },
                text,
                false,
            );
            assert(none + text =~= text);
            assert(none + none =~= none);
        }
    } else if is_reasoning_delta(name) {
        if let Some(text) = data.get_str("delta"@) {
            lemma_opened(
                from,
                closed,
                none,
                none,
                ContentBlockStateView::Thinking { index: closed.converter.next_block_index },
                AnthropicContentBlockStartView::Thinking { thinking: Seq::empty() },
            );
            let open = if begun.converter.open_block matches Some(
                ContentBlockStateView::Thinking { index },
            ) {
                begun
            } else {
                closed.opened_thinking()
            };
            lemma_grown(
                from,
                open,
                none,
                none,
                AnthropicDeltaView::ThinkingDelta { thinking: text },
                text,
                true,
            );
            assert(none + text =~= text);
            assert(none + none =~= none);
        }
    } else if name == "response.reasoning_summary_text.signature_delta"@ {
        if let (Some(signature), Some(ContentBlockStateView::Thinking { index })) = (
            data.get_str("signature"@),
            begun.converter.open_block,
        ) {
            lemma_delta_emitted(
                from,
                begun,
                none,
                none,
                AnthropicDeltaView::SignatureDelta { signature },
            );
            assert(none + none =~= none);
        }
    } else if name == "response.function_call_arguments.delta"@ {
        if let (Some(call_id), Some(delta)) = (data.get_str("call_id"@), data.get_str("delta"@)) {
            let calling = begun.calling_tools();
            lemma_reads_stay(from, begun, calling, none, none);
            let label = super::resource::text_or_empty(data, "name"@);
            lemma_opened_tool(from, calling, none, none, call_id, label);
            lemma_grown(
                from,
                calling.opened_tool(call_id, label),
                none,
                none,
                AnthropicDeltaView::InputJsonDelta { partial_json: delta },
                delta,
                false,
            );
            assert(none + none =~= none);
        }
    } else if name == "response.function_call_arguments.done"@ {
        if let Some(call_id) = data.get_str("call_id"@) {
            let calling = begun.calling_tools();
            lemma_reads_stay(from, begun, calling, none, none);
            lemma_closed(from, calling, none, none);
            lemma_whole_call(
                from,
                calling,
                none,
                none,
                call_id,
                super::resource::text_or_empty(data, "name"@),
                super::resource::arguments_text(data),
                false,
            );
        }
    } else if name == "response.output_item.done"@ {
        if let Some(item) = data.get("item"@) {
            let calling = stream.closed().calling_tools();
            lemma_reads_stay(from, stream.closed(), calling, none, none);
            lemma_whole_call(
                from,
                calling,
                none,
                none,
                super::resource::text_or_empty(item, "call_id"@),
                super::resource::text_or_empty(item, "name"@),
                super::resource::arguments_text(item),
                true,
            );
        }
    } else if name == "response.completed"@ || name == "response.incomplete"@ {
        lemma_completed(from, stream, none, none, data);
    } else if name == "response.web_search_results"@ {
        lemma_search(from, stream, none, none, data);
    }
}

proof fn lemma_completed(
    from: MessageAccumulatorView,
    stream: Stream,
    text: Seq<char>,
    thinking: Seq<char>,
    data: JsonView,
)
    requires
        reads(from, stream, text, thinking),
    ensures
        reads(from, stream.completed(data), text, thinking),
        shown(stream.completed(data).events).json == shown(stream.events).json,
{
    let marked = Stream {
        converter: AnthropicStreamConverterView { completed: true, ..stream.converter },
        ..stream
    };
    lemma_reads_stay(from, stream, marked, text, thinking);
    lemma_closed(from, marked, text, thinking);
    let after = stream.completed(data);
    let counted = Stream { converter: after.converter, events: marked.closed().events };
    lemma_reads_stay(from, marked.closed(), counted, text, thinking);
    let (stop_reason, stop_sequence) = super::resource::message_end(
        data,
        counted.converter.has_tool_calls,
    );
    lemma_ended(
        from,
        counted,
        text,
        thinking,
        stop_reason,
        stop_sequence,
        match super::response_usage(data) {
            Some(usage) => Some(usage.input_tokens),
            None => None,
        },
    );
}

// ---------------------------------------------------------------------------------------------
// Laws
// ---------------------------------------------------------------------------------------------

/// Over any events the text deltas add up to the answer that came in, and the thinking deltas to
/// the reasoning that came in: nothing is lost, added, doubled or moved.
pub proof fn law_words_come_through(
    model: Seq<char>,
    message_id: Seq<char>,
    events: Seq<SseEventView>,
    count: int,
)
    ensures
        ({
            let all = converted(new_converter(model, message_id), events, count);
            &&& shown(all.events).text == whole_answer_in(events, count)
            &&& shown(all.events).thinking == whole_reasoning_in(events, count)
        }),
{
    lemma_converted_reads(model, message_id, events, count);
}

proof fn lemma_converted_reads(
    model: Seq<char>,
    message_id: Seq<char>,
    events: Seq<SseEventView>,
    count: int,
)
    ensures
        reads(
            MessageAccumulatorView::empty(model),
            converted(new_converter(model, message_id), events, count),
            whole_answer_in(events, count),
            whole_reasoning_in(events, count),
        ),
    decreases count,
{
    let start = new_converter(model, message_id);
    let from = MessageAccumulatorView::empty(model);
    if count > 0 {
        lemma_converted_reads(model, message_id, events, count - 1);
        let before = converted(start, events, count - 1);
        let event = events[count - 1];
        let read = from.after_all(before.events);
        lemma_step(read, before.converter, event);
        let step = (Stream { converter: before.converter, events: Seq::empty() }).after(event);
        lemma_shown_append(before.events, step.events);
        lemma_after_append(from, before.events, step.events);
        let answer = whole_answer_in(events, count - 1);
        let reasoning = whole_reasoning_in(events, count - 1);
        assert(message_text(from) + answer + answer_in(event) =~= message_text(from) + (answer
            + answer_in(event)));
        assert(message_thinking(from) + reasoning + reasoning_in(event) =~= message_thinking(from)
            + (reasoning + reasoning_in(event)));
    } else {
        assert(message_text(from) + Seq::<char>::empty() =~= message_text(from));
        assert(message_thinking(from) + Seq::<char>::empty() =~= message_thinking(from));
    }
}

/// A collector after the first `count` events.
pub open spec fn collected(
    start: AnthropicStreamCollectorView,
    events: Seq<SseEventView>,
    count: int,
) -> AnthropicStreamCollectorView
    decreases count,
{
    if count <= 0 {
        start
    } else {
        collected(start, events, count - 1).after(events[count - 1])
    }
}

/// A collector that has seen nothing.
pub open spec fn new_collector(model: Seq<char>, message_id: Seq<char>) -> AnthropicStreamCollectorView {
    AnthropicStreamCollectorView {
        inner: new_converter(model, message_id),
        message: MessageAccumulatorView::empty(model),
    }
}

proof fn lemma_collected_reads(
    model: Seq<char>,
    message_id: Seq<char>,
    events: Seq<SseEventView>,
    count: int,
)
    ensures
        ({
            let after = collected(new_collector(model, message_id), events, count);
            &&& same_block(after.message.current_block, after.inner.open_block)
            &&& message_text(after.message) == whole_answer_in(events, count)
            &&& message_thinking(after.message) == whole_reasoning_in(events, count)
            &&& after.message.model == model
        }),
    decreases count,
{
    if count > 0 {
        lemma_collected_reads(model, message_id, events, count - 1);
        let before = collected(new_collector(model, message_id), events, count - 1);
        let event = events[count - 1];
        let from = before.message.with_usage(super::response_usage(event.data));
        lemma_step(from, before.inner, event);
        let step = (Stream { converter: before.inner, events: Seq::empty() }).after(event);
        lemma_model_stays(from, step.events);
    }
}

proof fn lemma_model_stays(message: MessageAccumulatorView, events: Seq<AnthropicStreamEventView>)
    ensures
        message.after_all(events).model == message.model,
    decreases events.len(),
{
    if events.len() > 0 {
        lemma_model_stays(message, events.drop_last());
    }
}

/// Over any events that leave no block open, the collected message says exactly the answer that came
/// in and thinks exactly the reasoning that came in, in the name of the model that was asked for.
pub proof fn law_collected_message_says_what_came_in(
    model: Seq<char>,
    message_id: Seq<char>,
    events: Seq<SseEventView>,
    count: int,
    fresh: Seq<char>,
)
    requires
        ({
            let after = collected(new_collector(model, message_id), events, count);
            after.inner.open_block is None && after.message.response(fresh) is Ok
        }),
    ensures
        ({
            let whole = collected(
                new_collector(model, message_id),
                events,
                count,
            ).message.response(fresh)->Ok_0;
            &&& content_text(whole.content) == whole_answer_in(events, count)
            &&& content_thinking(whole.content) == whole_reasoning_in(events, count)
            &&& whole.model == model
            &&& whole.role == "assistant"@
            &&& whole.kind == "message"@
        }),
{
    lemma_collected_reads(model, message_id, events, count);
    lemma_response_reads_alike(
        collected(new_collector(model, message_id), events, count).message,
        fresh,
    );
}

} // verus!
