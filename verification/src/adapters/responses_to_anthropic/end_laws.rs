//! How a message begins and ends: who speaks, why the message is over, and what it took.
use vstd::prelude::*;

use crate::json::JsonView;
use crate::models::anthropic::AnthropicStreamEventView;
use crate::sse::SseEventView;
use crate::text::byte_len;

use super::content_laws::lemma_event_names;
use super::message::MessageAccumulatorView;
use super::{estimated_tokens, AnthropicStreamConverterView, Stream};

verus! {

/// The event that ends a message, before its last word.
pub open spec fn end_of(events: Seq<AnthropicStreamEventView>) -> AnthropicStreamEventView {
    events[events.len() - 2]
}

/// Whether an event says that a response is over.
pub open spec fn is_end(name: Seq<char>) -> bool {
    name == "response.completed"@ || name == "response.incomplete"@
}

/// The response that an event carries.
pub open spec fn response_in(event: SseEventView) -> Option<JsonView> {
    event.data.get("response"@)
}

/// Why a response says that it was cut off.
pub open spec fn cut_off_reason(event: SseEventView) -> Option<Seq<char>> {
    match response_in(event) {
        Some(response) => match response.get("incomplete_details"@) {
            Some(details) => details.get_str("reason"@),
            None => None,
        },
        None => None,
    }
}

/// The stop string that a response says it ended with.
pub open spec fn stop_string(event: SseEventView) -> Option<Seq<char>> {
    match response_in(event) {
        Some(response) => match response.get_str("stop_sequence"@) {
            Some(stop) => if stop.len() > 0 {
                Some(stop)
            } else {
                None
            },
            None => None,
        },
        None => None,
    }
}

/// A count of tokens that a response reports.
pub open spec fn reported(event: SseEventView, key: Seq<char>) -> Option<int> {
    match response_in(event) {
        Some(response) => match response.get("usage"@) {
            Some(usage) => match usage.get(key) {
                Some(count) => count.as_u64(),
                None => None,
            },
            None => None,
        },
        None => None,
    }
}

pub(super) proof fn lemma_end_names(name: Seq<char>)
    requires
        is_end(name) || name == "response.failed"@,
    ensures
        name != "response.reasoning_summary_text.signature_delta"@,
        name != "response.function_call_arguments.delta"@,
        name != "response.function_call_arguments.done"@,
        name != "response.output_item.done"@,
        name == "response.failed"@ ==> !is_end(name),
{
    reveal_strlit("response.completed");
    reveal_strlit("response.incomplete");
    reveal_strlit("response.failed");
    reveal_strlit("response.reasoning_summary_text.signature_delta");
    reveal_strlit("response.function_call_arguments.delta");
    reveal_strlit("response.function_call_arguments.done");
    reveal_strlit("response.output_item.done");
    assert("response.completed"@.len() == 18);
    assert("response.incomplete"@.len() == 19);
    assert("response.failed"@.len() == 15);
    assert("response.output_item.done"@.len() == 25);
}

/// A message that is over says why: it was cut off for the reason that the response gives, or it
/// calls tools, or it met the stop string that the response names, or it was complete.
pub proof fn law_message_says_why_it_ended(
    converter: AnthropicStreamConverterView,
    event: SseEventView,
)
    requires
        is_end(event.event),
    ensures
        ({
            let events = (Stream { converter, events: Seq::empty() }).after(event).events;
            let end = end_of(events);
            &&& events.len() >= 2
            &&& end is MessageDelta
            &&& cut_off_reason(event) matches Some(reason) ==> end->MessageDelta_delta.stop_sequence
                is None && end->MessageDelta_delta.stop_reason == Some(
                if reason == "max_output_tokens"@ {
                    "max_tokens"@
                } else {
                    reason
                },
            )
            &&& cut_off_reason(event) is None && converter.has_tool_calls
                ==> end->MessageDelta_delta.stop_reason == Some("tool_use"@)
            &&& cut_off_reason(event) is None && !converter.has_tool_calls ==> (match stop_string(
                event,
            ) {
                Some(stop) => end->MessageDelta_delta.stop_reason == Some("stop_sequence"@)
                    && end->MessageDelta_delta.stop_sequence == Some(JsonView::Text(stop)),
                None => end->MessageDelta_delta.stop_reason == Some("end_turn"@)
                    && end->MessageDelta_delta.stop_sequence is None,
            })
        }),
{
    lemma_event_names(event.event);
    lemma_end_names(event.event);
}

/// A message that is over says what it took: what the response reports, but never less output than
/// was estimated before, and how many searches there were.
pub proof fn law_message_says_what_it_took(
    converter: AnthropicStreamConverterView,
    event: SseEventView,
)
    requires
        is_end(event.event),
    ensures
        ({
            let events = (Stream { converter, events: Seq::empty() }).after(event).events;
            let usage = end_of(events)->MessageDelta_usage;
            let input = reported(event, "input_tokens"@);
            let output = reported(event, "output_tokens"@);
            &&& input is Some && output is Some ==> {
                &&& usage.input_tokens == Some(input->0 as u64)
                &&& usage.output_tokens matches Some(told)
                &&& told >= output->0
                &&& told >= converter.last_output_tokens
                &&& told == output->0 || told == converter.last_output_tokens
            }
            &&& input is None || output is None ==> usage.input_tokens is None
                && usage.output_tokens == Some(converter.last_output_tokens)
            &&& converter.web_search_count == 0 ==> usage.server_tool_use is None
            &&& converter.web_search_count > 0 ==> (usage.server_tool_use matches Some(server)
                && server.web_search_requests == converter.web_search_count)
        }),
{
    lemma_event_names(event.event);
    lemma_end_names(event.event);
}

/// A failed response is told to the client in the words of its error.
pub proof fn law_failure_is_told(
    converter: AnthropicStreamConverterView,
    event: SseEventView,
    error: JsonView,
    words: Seq<char>,
)
    requires
        event.event == "response.failed"@,
        response_in(event) matches Some(response) && response.get("error"@) == Some(error),
        error.get_str("message"@) == Some(words),
    ensures
        ({
            let events = (Stream { converter, events: Seq::empty() }).after(event).events;
            &&& events.len() == 1
            &&& events[0] matches AnthropicStreamEventView::Error { error }
            &&& error.message == words
            &&& error.kind == "api_error"@
        }),
{
    lemma_event_names(event.event);
    lemma_end_names(event.event);
}

/// A message begins in the name of the assistant and of the model that was asked for, under its own
/// id, with nothing said yet.
pub proof fn law_message_says_who_speaks(converter: AnthropicStreamConverterView)
    requires
        !converter.started,
    ensures
        ({
            let events = (Stream { converter, events: Seq::empty() }).begun().events;
            &&& events.len() == 2
            &&& events[1] matches AnthropicStreamEventView::MessageStart { message }
            &&& message.id == converter.message_id
            &&& message.model == converter.model
            &&& message.role == "assistant"@
            &&& message.kind == "message"@
            &&& message.content.len() == 0
            &&& message.stop_reason is None
            &&& message.usage.output_tokens == Some(0u64)
            &&& message.usage.input_tokens == Some(
                match converter.pending_input_tokens {
                    Some(tokens) => tokens,
                    None => 0u64,
                },
            )
        }),
{
}

/// A gathered message ends as the last word on it says, and takes its id from its beginning.
pub proof fn law_gathered_message_ends_as_told(
    message: MessageAccumulatorView,
    event: AnthropicStreamEventView,
    fresh: Seq<char>,
)
    requires
        message.error is None,
    ensures
        ({
            let after = message.after(event).response(fresh);
            &&& event matches AnthropicStreamEventView::MessageDelta { delta, usage } ==> {
                &&& after matches Ok(whole)
                &&& delta.stop_reason matches Some(reason) ==> whole.stop_reason == reason
                &&& delta.stop_sequence is Some ==> whole.stop_sequence == delta.stop_sequence
                &&& usage.output_tokens matches Some(tokens) ==> whole.usage.output_tokens == tokens
                &&& usage.output_tokens_details is Some ==> whole.usage.output_tokens_details
                    == usage.output_tokens_details
                &&& whole.usage.input_tokens == message.input_tokens
            }
            &&& event matches AnthropicStreamEventView::MessageStart { message: begun } ==> {
                &&& after matches Ok(whole)
                &&& whole.id == begun.id
                &&& whole.model == message.model
                &&& begun.usage.input_tokens matches Some(tokens) ==> whole.usage.input_tokens
                    == tokens
            }
            &&& event matches AnthropicStreamEventView::Error { error } ==> after == Err::<
                crate::models::anthropic::AnthropicMessageResponseView,
                crate::models::anthropic::AnthropicErrorBodyView,
            >(error)
        }),
{
}

/// Usage that a response reports is what the gathered message says that it took.
pub proof fn law_reported_usage_is_taken_over(
    message: MessageAccumulatorView,
    input_tokens: u64,
    output_tokens: u64,
    fresh: Seq<char>,
)
    requires
        message.error is None,
    ensures
        ({
            let usage = crate::models::anthropic::AnthropicMessageUsageView {
                input_tokens,
                output_tokens,
                output_tokens_details: None,
            };
            let after = message.with_usage(Some(usage)).response(fresh);
            &&& after matches Ok(whole)
            &&& whole.usage.input_tokens == input_tokens
            &&& whole.usage.output_tokens == output_tokens
            &&& message.response(fresh) matches Ok(before)
            &&& whole.content == before.content
            &&& whole.stop_reason == before.stop_reason
        }),
{
}

/// A token stands for four bytes: what is estimated covers the bytes, and one token less would not.
pub proof fn law_tokens_cover_the_bytes(bytes: usize)
    ensures
        bytes <= 4 * estimated_tokens(bytes),
        bytes > 0 ==> 4 * (estimated_tokens(bytes) - 1) < bytes,
        bytes == 0 ==> estimated_tokens(bytes) == 0,
{
}

/// A text that is shown is counted by its bytes, and the estimate of the output covers all that was
/// counted; text that is thought is counted for itself as well.
pub proof fn law_shown_text_is_counted(stream: Stream, text: Seq<char>, is_thinking: bool)
    requires
        text.len() > 0,
        stream.converter.estimated_output_bytes <= 4 * stream.converter.last_output_tokens,
        stream.converter.estimated_output_bytes + byte_len(text) <= usize::MAX,
        stream.converter.estimated_thinking_bytes + byte_len(text) <= usize::MAX,
    ensures
        ({
            let before = stream.converter;
            let after = stream.recorded(text, is_thinking).converter;
            &&& after.estimated_output_bytes == before.estimated_output_bytes + byte_len(text)
            &&& after.estimated_output_bytes <= 4 * after.last_output_tokens
            &&& after.last_output_tokens >= before.last_output_tokens
            &&& after.last_output_tokens == before.last_output_tokens || 4 * (
            after.last_output_tokens - 1) < after.estimated_output_bytes
            &&& !is_thinking ==> after.last_thinking_tokens == before.last_thinking_tokens
            &&& is_thinking ==> {
                &&& after.estimated_thinking_bytes == before.estimated_thinking_bytes + byte_len(
                    text,
                )
                &&& after.estimated_thinking_bytes <= 4 * after.last_thinking_tokens
                &&& after.estimated_thinking_bytes > 0 ==> 4 * (after.last_thinking_tokens - 1)
                    < after.estimated_thinking_bytes
            }
        }),
{
    law_tokens_cover_the_bytes(
        (stream.converter.estimated_output_bytes + byte_len(text)) as usize,
    );
    law_tokens_cover_the_bytes(
        (stream.converter.estimated_thinking_bytes + byte_len(text)) as usize,
    );
}

/// A message that is over says how many tokens went into thinking: as many as the response reports,
/// but never fewer than were estimated before, and nothing where there were none.
pub proof fn law_message_says_what_thinking_took(
    converter: AnthropicStreamConverterView,
    event: SseEventView,
    thinking: JsonView,
    details: JsonView,
    usage: JsonView,
)
    requires
        is_end(event.event),
        reported(event, "input_tokens"@) is Some,
        reported(event, "output_tokens"@) is Some,
        response_in(event) matches Some(response) && response.get("usage"@) == Some(usage),
        usage.get("output_tokens_details"@) == Some(details),
        details.get("thinking_tokens"@) == Some(thinking),
        thinking.as_u64() is Some,
    ensures
        ({
            let events = (Stream { converter, events: Seq::empty() }).after(event).events;
            let told = end_of(events)->MessageDelta_usage.output_tokens_details;
            let count = thinking.as_u64()->0;
            &&& count == 0 && converter.last_thinking_tokens == 0 ==> told is None
            &&& count > 0 || converter.last_thinking_tokens > 0 ==> {
                &&& told matches Some(told)
                &&& told.thinking_tokens >= count
                &&& told.thinking_tokens >= converter.last_thinking_tokens
                &&& told.thinking_tokens == count || told.thinking_tokens
                    == converter.last_thinking_tokens
            }
        }),
{
    lemma_event_names(event.event);
    lemma_end_names(event.event);
}

/// A stream that breaks off ends all the same: as a call of tools where it calls some, and as a whole
/// turn else, with what is known of the input. One that is over is not ended again.
pub proof fn law_broken_streams_are_ended(converter: AnthropicStreamConverterView)
    ensures
        ({
            let stream = Stream { converter, events: Seq::empty() };
            let after = stream.finalized();
            &&& converter.completed ==> after == stream
            &&& !converter.completed ==> {
                let end = end_of(after.events);
                &&& after.converter.completed
                &&& after.events.len() >= 2
                &&& after.events.last() is MessageStop
                &&& end is MessageDelta
                &&& end->MessageDelta_delta.stop_sequence is None
                &&& end->MessageDelta_delta.stop_reason == Some(
                    if converter.has_tool_calls {
                        "tool_use"@
                    } else {
                        "end_turn"@
                    },
                )
                &&& end->MessageDelta_usage.input_tokens == converter.pending_input_tokens
                &&& end->MessageDelta_usage.output_tokens == Some(converter.last_output_tokens)
            }
        }),
{
}

/// Where the estimate of the output grows, the client is told the new estimate and nothing else.
pub proof fn law_growing_estimates_are_told(stream: Stream, text: Seq<char>, is_thinking: bool)
    ensures
        ({
            let after = stream.recorded(text, is_thinking);
            let before = stream.converter.last_output_tokens;
            &&& after.converter.last_output_tokens == before ==> after.events == stream.events
            &&& after.converter.last_output_tokens != before ==> {
                &&& after.events == stream.events.push(after.events.last())
                &&& after.events.last() is MessageDelta
                &&& after.events.last()->MessageDelta_delta.stop_reason is None
                &&& after.events.last()->MessageDelta_usage.output_tokens == Some(
                    after.converter.last_output_tokens,
                )
                &&& after.events.last()->MessageDelta_usage.input_tokens is None
            }
        }),
{
}

/// A failure that says nothing of itself is told as one of the gateway.
pub proof fn law_bare_failures_are_told(
    converter: AnthropicStreamConverterView,
    event: SseEventView,
)
    requires
        event.event == "response.failed"@,
        response_in(event) is None,
    ensures
        ({
            let events = (Stream { converter, events: Seq::empty() }).after(event).events;
            &&& events.len() == 1
            &&& events[0] matches AnthropicStreamEventView::Error { error }
            &&& error.message == "gateway error"@
        }),
{
    lemma_event_names(event.event);
    lemma_end_names(event.event);
}

/// A gathered message that was never begun gets an id of its own, and one that nobody ended ends as a
/// whole turn.
pub proof fn law_bare_messages_are_whole(model: Seq<char>, fresh: Seq<char>)
    ensures
        MessageAccumulatorView::empty(model).response(fresh) matches Ok(whole) && whole.id == "msg"@
            + "_"@ + fresh && whole.stop_reason == "end_turn"@ && whole.content.len() == 0
            && whole.model == model,
{
}

} // verus!
