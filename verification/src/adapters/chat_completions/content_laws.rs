//! What becomes of what a response says: it reaches the chat client as it came, piece by piece or as
//! a whole completion.
use vstd::prelude::*;

use crate::json::{json_rendered, JsonNumberView, JsonView};
use crate::sse::SseEventView;

use super::stream::{
    choice_json, completion, delta_json, gathered, item_call, listed_texts, message_json,
    response_output, response_usage, texts_under, tool_call_json, tool_calls_json, usage_json,
    ChatCompletionCollectorView, ChatCompletionStreamConverterView, ChatSseEventView, ChatStream,
    ChunkIdsView, Delta,
};
use super::stream_laws::{
    choice_of, converted, delta_part, lemma_keys_differ, lemma_names_differ, turned,
};
use crate::models::chat::ChatToolCallView;
use crate::text::{concatenated, joined};

verus! {

// ---------------------------------------------------------------------------------------------
// Reading
// ---------------------------------------------------------------------------------------------

/// The text, or nothing.
pub open spec fn or_nothing(text: Option<Seq<char>>) -> Seq<char> {
    match text {
        Some(text) => text,
        None => Seq::empty(),
    }
}

/// The text, or `default`.
pub open spec fn or_else(text: Option<Seq<char>>, default: Seq<char>) -> Seq<char> {
    match text {
        Some(text) => text,
        None => default,
    }
}

/// The text that a JSON value is, or nothing.
pub open spec fn text_of(value: Option<JsonView>) -> Seq<char> {
    match value {
        Some(JsonView::Text(text)) => text,
        _ => Seq::empty(),
    }
}

/// What the answer and the reasoning are.
#[verifier::ext_equal]
pub struct Words {
    pub answer: Seq<char>,
    pub reasoning: Seq<char>,
}

/// The words of the first `count` events of a response.
pub open spec fn words_in(events: Seq<SseEventView>, count: int) -> Words
    decreases count,
{
    if count <= 0 {
        Words { answer: Seq::empty(), reasoning: Seq::empty() }
    } else {
        let before = words_in(events, count - 1);
        let name = events[count - 1].event;
        let piece = or_nothing(events[count - 1].data.get_str("delta"@));
        if name == "response.output_text.delta"@ {
            Words { answer: before.answer + piece, ..before }
        } else if name == "response.reasoning_text.delta"@ || name
            == "response.reasoning_summary_text.delta"@ {
            Words { reasoning: before.reasoning + piece, ..before }
        } else {
            before
        }
    }
}

/// The words that a client reads in chunks.
pub open spec fn words_read(events: Seq<ChatSseEventView>) -> Words
    decreases events.len(),
{
    if events.len() == 0 {
        Words { answer: Seq::empty(), reasoning: Seq::empty() }
    } else {
        let before = words_read(events.drop_last());
        Words {
            answer: before.answer + text_of(delta_part(events.last(), "content"@)),
            reasoning: before.reasoning + text_of(
                delta_part(events.last(), "reasoning_content"@),
            ),
        }
    }
}

/// The tool call that a chunk shows.
pub open spec fn call_read(event: ChatSseEventView) -> Option<JsonView> {
    match delta_part(event, "tool_calls"@) {
        Some(JsonView::Array(calls)) => if calls.len() == 1 {
            Some(calls[0])
        } else {
            None
        },
        _ => None,
    }
}

/// Whether JSON describes the call of a function: its id, its name and the text of its arguments.
pub open spec fn describes_call(
    call: JsonView,
    id: Seq<char>,
    name: Seq<char>,
    arguments: Seq<char>,
) -> bool {
    &&& call.get_str("id"@) == Some(id)
    &&& call.get_str("type"@) == Some("function"@)
    &&& call.get("function"@) matches Some(function)
    &&& function.get_str("name"@) == Some(name)
    &&& function.get_str("arguments"@) == Some(arguments)
}

// ---------------------------------------------------------------------------------------------
// Names
// ---------------------------------------------------------------------------------------------

proof fn lemma_events_differ(name: Seq<char>)
    ensures
        name == "response.output_text.delta"@ ==> name != "response.created"@,
        name == "response.reasoning_text.delta"@ || name == "response.reasoning_summary_text.delta"@
            ==> name != "response.created"@ && name != "response.output_text.delta"@,
        name == "response.function_call_arguments.done"@ || name == "response.output_item.done"@
            ==> {
            &&& name != "response.created"@
            &&& name != "response.output_text.delta"@
            &&& name != "response.reasoning_text.delta"@
            &&& name != "response.reasoning_summary_text.delta"@
            &&& name != "response.function_call_arguments.delta"@
        },
        name == "response.function_call_arguments.delta"@ ==> {
            &&& name != "response.created"@
            &&& name != "response.output_text.delta"@
            &&& name != "response.reasoning_text.delta"@
            &&& name != "response.reasoning_summary_text.delta"@
        },
        name == "response.output_item.done"@ ==> name != "response.function_call_arguments.done"@,
        "response.completed"@ != "response.failed"@,
        "response.incomplete"@ != "response.failed"@,
{
    reveal_strlit("response.created");
    reveal_strlit("response.output_text.delta");
    reveal_strlit("response.reasoning_text.delta");
    reveal_strlit("response.reasoning_summary_text.delta");
    reveal_strlit("response.function_call_arguments.delta");
    reveal_strlit("response.function_call_arguments.done");
    reveal_strlit("response.output_item.done");
    reveal_strlit("response.completed");
    reveal_strlit("response.incomplete");
    reveal_strlit("response.failed");
    assert("response.created"@.len() == 16);
    assert("response.output_text.delta"@.len() == 26);
    assert("response.reasoning_text.delta"@.len() == 29);
    assert("response.reasoning_summary_text.delta"@[9] == 'r');
    assert("response.function_call_arguments.delta"@[9] == 'f');
    assert("response.function_call_arguments.delta"@.len() == 38);
    assert("response.function_call_arguments.done"@.len() == 37);
    assert("response.function_call_arguments.done"@[9] == 'f');
    assert("response.output_item.done"@.len() == 25);
    assert("response.completed"@.len() == 18);
    assert("response.incomplete"@.len() == 19);
    assert("response.failed"@.len() == 15);
}

proof fn lemma_more_keys_differ()
    ensures
        "id"@ != "object"@,
        "id"@ != "created"@,
        "id"@ != "model"@,
        "id"@ != "usage"@,
        "id"@ != "choices"@,
        "object"@ != "created"@,
        "object"@ != "model"@,
        "object"@ != "usage"@,
        "object"@ != "choices"@,
        "created"@ != "model"@,
        "created"@ != "usage"@,
        "created"@ != "choices"@,
        "model"@ != "usage"@,
        "model"@ != "choices"@,
        "usage"@ != "choices"@,
        "id"@ != "index"@,
        "id"@ != "type"@,
        "id"@ != "function"@,
        "index"@ != "type"@,
        "index"@ != "function"@,
        "type"@ != "function"@,
        "name"@ != "arguments"@,
        "index"@ != "message"@,
        "index"@ != "finish_reason"@,
        "message"@ != "finish_reason"@,
        "prompt_tokens"@ != "completion_tokens"@,
        "prompt_tokens"@ != "total_tokens"@,
        "completion_tokens"@ != "total_tokens"@,
        "prompt_tokens"@ != "prompt_tokens_details"@,
        "completion_tokens"@ != "prompt_tokens_details"@,
        "total_tokens"@ != "prompt_tokens_details"@,
        "prompt_tokens"@ != "completion_tokens_details"@,
        "completion_tokens"@ != "completion_tokens_details"@,
        "total_tokens"@ != "completion_tokens_details"@,
        "prompt_tokens_details"@ != "completion_tokens_details"@,
        "error"@ != "id"@,
        "error"@ != "object"@,
        "error"@ != "created"@,
        "error"@ != "model"@,
        "error"@ != "usage"@,
        "error"@ != "choices"@,
{
    reveal_strlit("id");
    reveal_strlit("object");
    reveal_strlit("created");
    reveal_strlit("model");
    reveal_strlit("usage");
    reveal_strlit("choices");
    reveal_strlit("index");
    reveal_strlit("type");
    reveal_strlit("function");
    reveal_strlit("name");
    reveal_strlit("arguments");
    reveal_strlit("message");
    reveal_strlit("finish_reason");
    reveal_strlit("prompt_tokens");
    reveal_strlit("completion_tokens");
    reveal_strlit("total_tokens");
    reveal_strlit("prompt_tokens_details");
    reveal_strlit("completion_tokens_details");
    reveal_strlit("error");
    assert("id"@.len() == 2);
    assert("object"@.len() == 6);
    assert("created"@.len() == 7 && "created"@[1] == 'r');
    assert("choices"@.len() == 7 && "choices"@[1] == 'h');
    assert("model"@.len() == 5 && "model"@[0] == 'm');
    assert("usage"@.len() == 5 && "usage"@[0] == 'u');
    assert("error"@.len() == 5 && "error"@[0] == 'e');
    assert("index"@.len() == 5);
    assert("type"@.len() == 4);
    assert("name"@.len() == 4);
    assert("function"@.len() == 8);
    assert("arguments"@.len() == 9);
    assert("message"@.len() == 7);
    assert("finish_reason"@.len() == 13);
    assert("prompt_tokens"@.len() == 13);
    assert("completion_tokens"@.len() == 17);
    assert("total_tokens"@.len() == 12);
    assert("prompt_tokens_details"@.len() == 21);
    assert("completion_tokens_details"@.len() == 25);
}

proof fn lemma_kinds_differ()
    ensures
        "message"@ != "reasoning"@,
        "function_call"@ != "message"@,
        "function_call"@ != "reasoning"@,
        "custom_tool_call"@ != "message"@,
        "custom_tool_call"@ != "reasoning"@,
        "custom_tool_call"@ != "function_call"@,
        "tool_search_call"@ != "message"@,
        "tool_search_call"@ != "reasoning"@,
        "tool_search_call"@ != "function_call"@,
        "tool_search_call"@ != "custom_tool_call"@,
        "local_shell_call"@ != "message"@,
        "local_shell_call"@ != "reasoning"@,
        "local_shell_call"@ != "function_call"@,
        "local_shell_call"@ != "custom_tool_call"@,
        "local_shell_call"@ != "tool_search_call"@,
{
    reveal_strlit("message");
    reveal_strlit("reasoning");
    reveal_strlit("function_call");
    reveal_strlit("custom_tool_call");
    reveal_strlit("tool_search_call");
    reveal_strlit("local_shell_call");
    assert("message"@.len() == 7);
    assert("reasoning"@.len() == 9);
    assert("function_call"@.len() == 13);
    assert("custom_tool_call"@.len() == 16 && "custom_tool_call"@[0] == 'c');
    assert("tool_search_call"@.len() == 16 && "tool_search_call"@[0] == 't');
    assert("local_shell_call"@.len() == 16 && "local_shell_call"@[0] == 'l');
}

// ---------------------------------------------------------------------------------------------
// Words
// ---------------------------------------------------------------------------------------------

proof fn lemma_read_push(events: Seq<ChatSseEventView>, event: ChatSseEventView)
    ensures
        words_read(events.push(event)) == (Words {
            answer: words_read(events).answer + text_of(delta_part(event, "content"@)),
            reasoning: words_read(events).reasoning + text_of(
                delta_part(event, "reasoning_content"@),
            ),
        }),
{
    assert(events.push(event).drop_last() =~= events);
}

proof fn lemma_read_append(events: Seq<ChatSseEventView>, more: Seq<ChatSseEventView>)
    ensures
        words_read(events + more).answer == words_read(events).answer + words_read(more).answer,
        words_read(events + more).reasoning == words_read(events).reasoning + words_read(
            more,
        ).reasoning,
    decreases more.len(),
{
    if more.len() == 0 {
        assert(events + more =~= events);
        assert(words_read(events).answer + words_read(more).answer =~= words_read(events).answer);
        assert(words_read(events).reasoning + words_read(more).reasoning =~= words_read(
            events,
        ).reasoning);
    } else {
        lemma_read_append(events, more.drop_last());
        assert((events + more).drop_last() =~= events + more.drop_last());
        assert((events + more).last() == more.last());
        assert(words_read(events + more).answer =~= words_read(events).answer + words_read(
            more,
        ).answer);
        assert(words_read(events + more).reasoning =~= words_read(events).reasoning + words_read(
            more,
        ).reasoning);
    }
}

/// What is read in a chunk that carries a delta.
proof fn lemma_delta_read(stream: ChatStream, delta: Delta, finish: Option<Seq<char>>, fresh: Seq<char>)
    ensures
        ({
            let event = stream.delta(delta, finish, fresh).events.last();
            &&& choice_of(event) == Some(choice_json(delta_json(delta), finish))
            &&& text_of(delta_part(event, "content"@)) == (match delta {
                Delta::Content(text) => text,
                _ => Seq::empty(),
            })
            &&& text_of(delta_part(event, "reasoning_content"@)) == (match delta {
                Delta::Reasoning(text) => text,
                _ => Seq::empty(),
            })
            &&& delta matches Delta::Call(call) ==> call_read(event) == Some(tool_call_json(call))
        }),
{
    lemma_keys_differ();
    let after = stream.delta(delta, finish, fresh);
    let event = after.events.last();
    assert(after.events == stream.events.push(event));
    let choice = choice_json(delta_json(delta), finish);
    assert(choice_of(event) == Some(choice));
    assert(choice.get("delta"@) == Some(delta_json(delta)));
    if let Delta::Call(call) = delta {
        let list = seq![call].map_values(|call: ChatToolCallView| tool_call_json(call));
        assert(list.len() == 1);
        assert(list[0] == tool_call_json(call));
        assert(delta_part(event, "tool_calls"@) == Some(tool_calls_json(seq![call])));
    }
}

proof fn lemma_delta_words(
    stream: ChatStream,
    delta: Delta,
    finish: Option<Seq<char>>,
    fresh: Seq<char>,
)
    ensures
        words_read(stream.delta(delta, finish, fresh).events) == (Words {
            answer: words_read(stream.events).answer + (match delta {
                Delta::Content(text) => text,
                _ => Seq::empty(),
            }),
            reasoning: words_read(stream.events).reasoning + (match delta {
                Delta::Reasoning(text) => text,
                _ => Seq::empty(),
            }),
        }),
{
    lemma_delta_read(stream, delta, finish, fresh);
    let after = stream.delta(delta, finish, fresh);
    assert(after.events == stream.events.push(after.events.last()));
    lemma_read_push(stream.events, after.events.last());
}

proof fn lemma_begun_words(stream: ChatStream, fresh: ChunkIdsView)
    ensures
        words_read(stream.begun(fresh).events) == words_read(stream.events),
{
    if !stream.converter.role_sent {
        let marked = ChatStream {
            converter: ChatCompletionStreamConverterView { role_sent: true, ..stream.converter },
            ..stream
        };
        lemma_delta_words(marked, Delta::Role, None, fresh.role);
        assert(words_read(stream.begun(fresh).events) =~= words_read(stream.events));
    }
}

proof fn lemma_call_words(stream: ChatStream, call: ChatToolCallView, fresh: ChunkIdsView)
    ensures
        words_read(stream.call(call, fresh).events) == words_read(stream.events),
{
    if let Some(call_id) = call.id {
        if !stream.converter.emitted_tool_calls.contains(call_id) {
            let pending = stream.converter.pending_tool_arguments;
            let filled = call.function.arguments is None && pending.dom().contains(call_id);
            let marked = ChatStream {
                converter: ChatCompletionStreamConverterView {
                    emitted_tool_calls: stream.converter.emitted_tool_calls.push(call_id),
                    pending_tool_arguments: if filled {
                        pending.remove(call_id)
                    } else {
                        pending
                    },
                    ..stream.converter
                },
                ..stream
            };
            lemma_begun_words(marked, fresh);
            let numbered = ChatToolCallView {
                index: Some(stream.converter.emitted_tool_calls.len() as usize),
                function: crate::models::chat::ChatFunctionCallView {
                    arguments: if filled {
                        Some(JsonView::Text(pending[call_id]))
                    } else {
                        call.function.arguments
                    },
                    ..call.function
                },
                ..call
            };
            lemma_delta_words(marked.begun(fresh), Delta::Call(numbered), None, fresh.body);
            assert(words_read(stream.call(call, fresh).events) =~= words_read(stream.events));
        }
    }
}

proof fn lemma_end_words(stream: ChatStream, data: JsonView, fresh: ChunkIdsView)
    ensures
        words_read(stream.completed(data, fresh).events) == words_read(stream.events),
        words_read(stream.failed(data).events) == words_read(stream.events),
{
    lemma_keys_differ();
    lemma_begun_words(stream, fresh);
    let begun = stream.begun(fresh);
    let finish = super::stream::event_finish(data, begun.converter.emitted_tool_calls.len() > 0);
    lemma_delta_words(begun, Delta::Nothing, Some(finish), fresh.body);
    let ended = begun.delta(Delta::Nothing, Some(finish), fresh.body);
    let usage = match data.get("response"@) {
        Some(response) => response_usage(response),
        None => None,
    };
    let reported = match usage {
        Some(usage) => if ended.converter.include_usage {
            ended.chunk(Seq::empty(), Some(usage_json(usage)), fresh.usage)
        } else {
            ended
        },
        None => ended,
    };
    if let Some(usage) = usage {
        if ended.converter.include_usage {
            lemma_read_push(ended.events, reported.events.last());
            assert(choice_of(reported.events.last()) is None);
        }
    }
    lemma_read_push(reported.events, ChatSseEventView::Done);
    assert(words_read(stream.completed(data, fresh).events) =~= words_read(stream.events));
    let error = ChatSseEventView::Data(
        JsonView::Object(
            map![
                "error"@ => JsonView::Object(
                    map!["message"@ => JsonView::Text(super::stream::error_message(data))],
                ),
            ],
        ),
    );
    lemma_read_push(stream.events, error);
    lemma_read_push(stream.events.push(error), ChatSseEventView::Done);
    assert(choice_of(error) is None);
    assert(words_read(stream.failed(data).events) =~= words_read(stream.events));
}

proof fn lemma_step_words(
    converter: ChatCompletionStreamConverterView,
    event: SseEventView,
    fresh: ChunkIdsView,
)
    ensures
        words_read(turned(converter, event, fresh).events) == words_in(seq![event], 1),
{
    reveal_with_fuel(words_in, 2);
    let name = event.event;
    let data = event.data;
    let stream = ChatStream { converter, events: Seq::empty() };
    let none = Seq::<char>::empty();
    lemma_events_differ(name);
    lemma_begun_words(stream, fresh);
    if name == "response.completed"@ || name == "response.incomplete"@ || name
        == "response.failed"@ {
        lemma_names_differ(name);
        lemma_end_words(stream, data, fresh);
    } else if name == "response.created"@ {
        let named = ChatStream {
            converter: ChatCompletionStreamConverterView {
                id: match data.get("response"@) {
                    Some(response) => response.get_str("id"@),
                    None => None,
                },
                ..converter
            },
            ..stream
        };
        lemma_begun_words(named, fresh);
    } else if name == "response.output_text.delta"@ {
        if let Some(text) = data.get_str("delta"@) {
            lemma_delta_words(stream.begun(fresh), Delta::Content(text), None, fresh.body);
        }
    } else if name == "response.reasoning_text.delta"@ || name
        == "response.reasoning_summary_text.delta"@ {
        if let Some(text) = data.get_str("delta"@) {
            lemma_delta_words(stream.begun(fresh), Delta::Reasoning(text), None, fresh.body);
        }
    } else if name == "response.function_call_arguments.done"@ {
        if let Some(call) = super::stream::named_call(data) {
            lemma_call_words(stream, call, fresh);
        }
    } else if name == "response.output_item.done"@ {
        if let Some(call) = super::stream::done_call(data) {
            lemma_call_words(stream, call, fresh);
        }
    }
    assert(words_read(turned(converter, event, fresh).events) =~= words_in(seq![event], 1));
}

/// Over any events the client reads exactly the answer and the reasoning that the events carry:
/// nothing is lost, added, doubled or moved.
pub proof fn law_words_come_through(
    start: ChatCompletionStreamConverterView,
    events: Seq<SseEventView>,
    fresh: Seq<ChunkIdsView>,
    count: int,
)
    ensures
        words_read(converted(start, events, fresh, count).events) == words_in(events, count),
    decreases count,
{
    if count > 0 {
        law_words_come_through(start, events, fresh, count - 1);
        reveal_with_fuel(words_in, 2);
        let before = converted(start, events, fresh, count - 1);
        let step = turned(before.converter, events[count - 1], fresh[count - 1]);
        lemma_step_words(before.converter, events[count - 1], fresh[count - 1]);
        lemma_read_append(before.events, step.events);
        assert(words_read(converted(start, events, fresh, count).events) =~= words_in(
            events,
            count,
        ));
    }
}

// ---------------------------------------------------------------------------------------------
// Calls
// ---------------------------------------------------------------------------------------------

/// What is read of a call that is shown now.
proof fn lemma_call_read(stream: ChatStream, call: ChatToolCallView, fresh: ChunkIdsView)
    requires
        call.id is Some,
        call.function.name is Some,
        call.function.arguments matches Some(JsonView::Text(_)),
        call.kind == "function"@,
        !stream.converter.emitted_tool_calls.contains(call.id->Some_0),
    ensures
        ({
            let after = stream.call(call, fresh);
            &&& after.events.len() > 0
            &&& call_read(after.events.last()) matches Some(told)
            &&& describes_call(
                told,
                call.id->Some_0,
                call.function.name->Some_0,
                call.function.arguments->Some_0->Text_0,
            )
            &&& told.get("index"@) == Some(
                JsonView::Num(
                    JsonNumberView::Integer(
                        (stream.converter.emitted_tool_calls.len() as usize) as int,
                    ),
                ),
            )
            &&& after.converter.emitted_tool_calls == stream.converter.emitted_tool_calls.push(
                call.id->Some_0,
            )
        }),
{
    lemma_more_keys_differ();
    let numbered = ChatToolCallView {
        index: Some(stream.converter.emitted_tool_calls.len() as usize),
        ..call
    };
    let marked = ChatStream {
        converter: ChatCompletionStreamConverterView {
            emitted_tool_calls: stream.converter.emitted_tool_calls.push(call.id->Some_0),
            ..stream.converter
        },
        ..stream
    };
    let after = stream.call(call, fresh);
    lemma_delta_read(marked.begun(fresh), Delta::Call(numbered), None, fresh.body);
    assert(after == marked.begun(fresh).delta(Delta::Call(numbered), None, fresh.body));
    assert(call_read(after.events.last()) == Some(tool_call_json(numbered)));
}

/// The chunk for the finished arguments of a call, where the call was not shown before, tells the
/// call id, the name and the arguments that the event carries, letter for letter.
pub proof fn law_finished_arguments_are_told(
    converter: ChatCompletionStreamConverterView,
    event: SseEventView,
    fresh: ChunkIdsView,
    id: Seq<char>,
    name: Seq<char>,
)
    requires
        event.event == "response.function_call_arguments.done"@,
        event.data.get_str("call_id"@) == Some(id),
        event.data.get_str("name"@) == Some(name),
        !converter.emitted_tool_calls.contains(id),
    ensures
        ({
            let step = turned(converter, event, fresh);
            &&& step.events.len() > 0
            &&& call_read(step.events.last()) matches Some(told)
            &&& describes_call(
                told,
                id,
                name,
                or_else(event.data.get_str("arguments"@), "{}"@),
            )
            &&& step.converter.emitted_tool_calls == converter.emitted_tool_calls.push(id)
        }),
{
    lemma_events_differ(event.event);
    let call = super::stream::named_call(event.data)->Some_0;
    lemma_call_read(ChatStream { converter, events: Seq::empty() }, call, fresh);
}

/// The chunk for a finished call item, where the call was not shown before, tells the call as the
/// item has it: a function by its arguments letter for letter, a custom tool by an object that holds
/// its input, the other two by the JSON of what they carry.
pub proof fn law_finished_calls_are_told(
    converter: ChatCompletionStreamConverterView,
    event: SseEventView,
    fresh: ChunkIdsView,
    item: JsonView,
    id: Seq<char>,
    name: Seq<char>,
)
    requires
        event.event == "response.output_item.done"@,
        event.data.get("item"@) == Some(item),
        item.get_str("call_id"@) == Some(id),
        item.get_str("name"@) == Some(name),
        !converter.emitted_tool_calls.contains(id),
    ensures
        ({
            let step = turned(converter, event, fresh);
            let kind = item.get_str("type"@);
            let told = call_read(step.events.last());
            &&& kind == Some("function_call"@) ==> told is Some && describes_call(
                told->Some_0,
                id,
                name,
                or_else(item.get_str("arguments"@), "{}"@),
            )
            &&& kind == Some("custom_tool_call"@) ==> told is Some && describes_call(
                told->Some_0,
                id,
                name,
                json_rendered(
                    JsonView::Object(
                        map!["input"@ => JsonView::Text(or_nothing(item.get_str("input"@)))],
                    ),
                ),
            )
            &&& kind == Some("tool_search_call"@) && item.get("arguments"@) is Some ==> told is Some
                && describes_call(
                told->Some_0,
                id,
                "tool_search"@,
                json_rendered(item.get("arguments"@)->Some_0),
            )
            &&& kind == Some("local_shell_call"@) && item.get("action"@) is Some ==> told is Some
                && describes_call(
                told->Some_0,
                id,
                "local_shell"@,
                json_rendered(item.get("action"@)->Some_0),
            )
        }),
{
    lemma_events_differ(event.event);
    lemma_kinds_differ();
    if let Some(call) = item_call(item) {
        lemma_call_read(ChatStream { converter, events: Seq::empty() }, call, fresh);
    }
}

/// A call that was shown is not shown again.
pub proof fn law_shown_calls_are_not_repeated(
    converter: ChatCompletionStreamConverterView,
    event: SseEventView,
    fresh: ChunkIdsView,
    id: Seq<char>,
)
    requires
        event.event == "response.function_call_arguments.done"@,
        event.data.get_str("call_id"@) == Some(id),
        converter.emitted_tool_calls.contains(id),
    ensures
        turned(converter, event, fresh) == (ChatStream { converter, events: Seq::empty() }),
{
    lemma_events_differ(event.event);
}

// ---------------------------------------------------------------------------------------------
// Chunks
// ---------------------------------------------------------------------------------------------

/// Whether an event is a chunk of the given answer.
pub open spec fn is_chunk_of(
    event: ChatSseEventView,
    converter: ChatCompletionStreamConverterView,
) -> bool {
    &&& event matches ChatSseEventView::Data(json)
    &&& converter.id is Some ==> json.get_str("id"@) == converter.id
    &&& json.get_str("object"@) == Some("chat.completion.chunk"@)
    &&& json.get("created"@) == Some(JsonView::Num(JsonNumberView::Integer(converter.created as int)))
    &&& json.get_str("model"@) == Some(converter.model)
}

proof fn lemma_chunk(
    stream: ChatStream,
    choices: Seq<JsonView>,
    usage: Option<JsonView>,
    fresh: Seq<char>,
)
    ensures
        stream.chunk(choices, usage, fresh).events == stream.events.push(
            stream.chunk(choices, usage, fresh).events.last(),
        ),
        is_chunk_of(stream.chunk(choices, usage, fresh).events.last(), stream.converter),
{
    lemma_more_keys_differ();
}

/// The answer bears the id of the response: every chunk of a piece of text carries it, together with
/// the model and the time that the stream was begun with, and the response that begins names it.
pub proof fn law_chunks_name_their_answer(
    converter: ChatCompletionStreamConverterView,
    event: SseEventView,
    fresh: ChunkIdsView,
    response: JsonView,
)
    ensures
        event.event == "response.created"@ && event.data.get("response"@) == Some(response)
            && response.get_str("id"@) is Some ==> {
            let step = turned(converter, event, fresh);
            &&& step.converter.id == response.get_str("id"@)
            &&& step.converter.model == converter.model
            &&& step.converter.created == converter.created
            &&& !converter.role_sent ==> step.events.len() == 1 && is_chunk_of(
                step.events[0],
                step.converter,
            )
        },
        event.event == "response.output_text.delta"@ && event.data.get_str("delta"@) is Some ==> {
            let step = turned(converter, event, fresh);
            &&& step.converter.id == converter.id
            &&& step.events.len() > 0
            &&& forall|k: int|
                0 <= k < step.events.len() ==> is_chunk_of(#[trigger] step.events[k], converter)
        },
{
    lemma_events_differ(event.event);
    let stream = ChatStream { converter, events: Seq::empty() };
    if event.event == "response.created"@ && event.data.get("response"@) == Some(response) {
        let named = ChatStream {
            converter: ChatCompletionStreamConverterView {
                id: response.get_str("id"@),
                role_sent: true,
                ..converter
            },
            ..stream
        };
        lemma_chunk(named, seq![choice_json(delta_json(Delta::Role), None)], None, fresh.role);
    }
    if event.event == "response.output_text.delta"@ {
        if let Some(text) = event.data.get_str("delta"@) {
            let marked = ChatStream {
                converter: ChatCompletionStreamConverterView { role_sent: true, ..converter },
                ..stream
            };
            lemma_chunk(marked, seq![choice_json(delta_json(Delta::Role), None)], None, fresh.role);
            lemma_chunk(
                stream.begun(fresh),
                seq![choice_json(delta_json(Delta::Content(text)), None)],
                None,
                fresh.body,
            );
        }
    }
}

/// A number that a usage reports, where it is a signed integer.
pub open spec fn counted(usage: JsonView, key: Seq<char>) -> Option<int> {
    match usage.get(key) {
        Some(JsonView::Num(JsonNumberView::Integer(n))) => if i64::MIN <= n <= i64::MAX {
            Some(n)
        } else {
            None
        },
        _ => None,
    }
}

/// Whether JSON tells a usage: the tokens that went in and came out, and how many there were in all.
pub open spec fn tells_usage(told: JsonView, usage: JsonView) -> bool {
    &&& counted(told, "prompt_tokens"@) == counted(usage, "input_tokens"@)
    &&& counted(told, "completion_tokens"@) == counted(usage, "output_tokens"@)
    &&& match counted(usage, "total_tokens"@) {
        Some(total) => counted(told, "total_tokens"@) == Some(total),
        None => ({
            let sum = counted(usage, "input_tokens"@)->Some_0 + counted(
                usage,
                "output_tokens"@,
            )->Some_0;
            i64::MIN <= sum <= i64::MAX ==> counted(told, "total_tokens"@) == Some(sum)
        }),
    }
    &&& match usage.get("input_tokens_details"@) {
        Some(details) => match counted(details, "cached_tokens"@) {
            Some(cached) => told.get("prompt_tokens_details"@) is Some && counted(
                told.get("prompt_tokens_details"@)->Some_0,
                "cached_tokens"@,
            ) == Some(cached),
            None => told.get("prompt_tokens_details"@) is None,
        },
        None => told.get("prompt_tokens_details"@) is None,
    }
    &&& match usage.get("output_tokens_details"@) {
        Some(details) => match counted(details, "reasoning_tokens"@) {
            Some(spent) => told.get("completion_tokens_details"@) is Some && counted(
                told.get("completion_tokens_details"@)->Some_0,
                "reasoning_tokens"@,
            ) == Some(spent),
            None => told.get("completion_tokens_details"@) is None,
        },
        None => told.get("completion_tokens_details"@) is None,
    }
}

proof fn lemma_usage_told(response: JsonView, usage: JsonView)
    requires
        response.get("usage"@) == Some(usage),
        counted(usage, "input_tokens"@) is Some,
        counted(usage, "output_tokens"@) is Some,
    ensures
        response_usage(response) is Some,
        tells_usage(usage_json(response_usage(response)->Some_0), usage),
{
    lemma_more_keys_differ();
}

/// A client that asked for it is told the usage of the response in the last chunk before the end,
/// and no client is told a usage that the response does not report.
pub proof fn law_usage_is_told(
    converter: ChatCompletionStreamConverterView,
    event: SseEventView,
    fresh: ChunkIdsView,
    response: JsonView,
    usage: JsonView,
)
    requires
        event.event == "response.completed"@ || event.event == "response.incomplete"@,
        event.data.get("response"@) == Some(response),
        response.get("usage"@) == Some(usage),
        counted(usage, "input_tokens"@) is Some,
        counted(usage, "output_tokens"@) is Some,
        converter.include_usage,
    ensures
        ({
            let events = turned(converter, event, fresh).events;
            &&& events.len() >= 3
            &&& events.last() == ChatSseEventView::Done
            &&& events[events.len() - 2] matches ChatSseEventView::Data(json)
            &&& json.get("usage"@) matches Some(told)
            &&& tells_usage(told, usage)
            &&& is_chunk_of(events[events.len() - 2], converter)
        }),
{
    lemma_names_differ(event.event);
    lemma_more_keys_differ();
    lemma_usage_told(response, usage);
    let stream = ChatStream { converter, events: Seq::empty() };
    let begun = stream.begun(fresh);
    let finish = super::stream::event_finish(
        event.data,
        begun.converter.emitted_tool_calls.len() > 0,
    );
    let ended = begun.delta(Delta::Nothing, Some(finish), fresh.body);
    lemma_chunk(
        ended,
        Seq::empty(),
        Some(usage_json(response_usage(response)->Some_0)),
        fresh.usage,
    );
}

/// A client that did not ask for it is told no usage.
pub proof fn law_usage_is_not_forced(
    converter: ChatCompletionStreamConverterView,
    event: SseEventView,
    fresh: ChunkIdsView,
)
    requires
        event.event == "response.completed"@ || event.event == "response.incomplete"@,
        !converter.include_usage,
    ensures
        ({
            let events = turned(converter, event, fresh).events;
            &&& events.last() == ChatSseEventView::Done
            &&& events[events.len() - 2] matches ChatSseEventView::Data(json)
            &&& json.get("usage"@) is None
            &&& events.len() == (if converter.role_sent {
                2int
            } else {
                3int
            })
        }),
{
    lemma_names_differ(event.event);
    lemma_more_keys_differ();
}

/// A failure is told by the text that the response failed with, and nothing else is.
pub proof fn law_failure_is_told(
    converter: ChatCompletionStreamConverterView,
    event: SseEventView,
    fresh: ChunkIdsView,
    response: JsonView,
    error: JsonView,
    message: Seq<char>,
)
    requires
        event.event == "response.failed"@,
        event.data.get("response"@) == Some(response),
        response.get("error"@) == Some(error),
        error.get_str("message"@) == Some(message),
    ensures
        ({
            let events = turned(converter, event, fresh).events;
            &&& events.len() == 2
            &&& events[0] matches ChatSseEventView::Data(json)
            &&& json.get("error"@) matches Some(told)
            &&& told.get_str("message"@) == Some(message)
            &&& events[1] == ChatSseEventView::Done
        }),
{
    lemma_names_differ(event.event);
}

// ---------------------------------------------------------------------------------------------
// Whole completions
// ---------------------------------------------------------------------------------------------

/// The texts of the first `count` parts, one after the other.
pub open spec fn parts_text(parts: Seq<JsonView>, count: int) -> Seq<char>
    decreases count,
{
    if count <= 0 {
        Seq::empty()
    } else {
        parts_text(parts, count - 1) + or_nothing(parts[count - 1].get_str("text"@))
    }
}

/// The answer in the first `count` items of an output.
pub open spec fn answer_in_items(items: Seq<JsonView>, count: int) -> Seq<char>
    decreases count,
{
    if count <= 0 {
        Seq::empty()
    } else {
        answer_in_items(items, count - 1) + (if items[count - 1].get_str("type"@) == Some(
            "message"@,
        ) {
            match items[count - 1].get("content"@) {
                Some(JsonView::Array(parts)) => parts_text(parts, parts.len() as int),
                _ => Seq::empty(),
            }
        } else {
            Seq::empty()
        })
    }
}

proof fn lemma_parts_text(parts: Seq<JsonView>, count: int)
    ensures
        concatenated(listed_texts(parts, count)) == parts_text(parts, count),
    decreases count,
{
    if count > 0 {
        lemma_parts_text(parts, count - 1);
        let before = listed_texts(parts, count - 1);
        match parts[count - 1].get_str("text"@) {
            Some(text) => {
                assert(before.push(text).drop_last() =~= before);
            },
            None => {
                assert(parts_text(parts, count) =~= parts_text(parts, count - 1));
            },
        }
    }
}

proof fn lemma_answer_gathered(items: Seq<JsonView>, count: int)
    ensures
        gathered(items, count).content == answer_in_items(items, count),
    decreases count,
{
    if count > 0 {
        lemma_answer_gathered(items, count - 1);
        lemma_kinds_differ();
        let item = items[count - 1];
        if item.get_str("type"@) == Some("message"@) {
            if let Some(JsonView::Array(parts)) = item.get("content"@) {
                lemma_parts_text(parts, parts.len() as int);
            }
            assert(concatenated(texts_under(item, "content"@)) == (match item.get("content"@) {
                Some(JsonView::Array(parts)) => parts_text(parts, parts.len() as int),
                _ => Seq::empty(),
            }));
        }
        assert(gathered(items, count).content =~= answer_in_items(items, count));
    }
}

/// The message of a completion.
pub open spec fn completed_message(completion: JsonView) -> Option<JsonView> {
    match completion.get("choices"@) {
        Some(JsonView::Array(choices)) => if choices.len() == 1 {
            choices[0].get("message"@)
        } else {
            None
        },
        _ => None,
    }
}

proof fn lemma_message(model: Seq<char>, response: JsonView, now: i64, fresh: Seq<char>)
    ensures
        completed_message(completion(model, response, now, fresh)) == Some(
            message_json(response_output(response)),
        ),
{
    lemma_more_keys_differ();
    let whole = completion(model, response, now, fresh);
    assert(whole.get("choices"@) is Some);
}

/// A whole completion says what the messages of the response say, one after the other. Only an answer
/// that is nothing but calls says nothing.
pub proof fn law_completion_says_the_answer(
    model: Seq<char>,
    response: JsonView,
    now: i64,
    fresh: Seq<char>,
    items: Seq<JsonView>,
)
    requires
        response.get("output"@) == Some(JsonView::Array(items)),
    ensures
        ({
            let answer = answer_in_items(items, items.len() as int);
            &&& completed_message(completion(model, response, now, fresh)) matches Some(message)
            &&& message.get_str("role"@) == Some("assistant"@)
            &&& answer.len() > 0 ==> message.get_str("content"@) == Some(answer)
            &&& text_of(message.get("content"@)) == answer
        }),
{
    lemma_keys_differ();
    lemma_message(model, response, now, fresh);
    lemma_answer_gathered(items, items.len() as int);
    let answer = answer_in_items(items, items.len() as int);
    let message = message_json(response_output(response));
    assert(text_of(message.get("content"@)) =~= answer);
}

/// A reasoning item is told by its summaries and its texts, each on a line of its own.
pub proof fn law_completion_says_the_reasoning(
    model: Seq<char>,
    response: JsonView,
    now: i64,
    fresh: Seq<char>,
    item: JsonView,
    summary: JsonView,
    text: JsonView,
    led: Seq<char>,
    followed: Seq<char>,
)
    requires
        response.get("output"@) == Some(JsonView::Array(seq![item])),
        item.get_str("type"@) == Some("reasoning"@),
        item.get("summary"@) == Some(JsonView::Array(seq![summary])),
        item.get("content"@) == Some(JsonView::Array(seq![text])),
        summary.get_str("text"@) == Some(led),
        text.get_str("text"@) == Some(followed),
    ensures
        completed_message(completion(model, response, now, fresh)) matches Some(message)
            && message.get_str("reasoning_content"@) == Some(led + "\n"@ + followed),
{
    lemma_keys_differ();
    lemma_kinds_differ();
    lemma_message(model, response, now, fresh);
    reveal_with_fuel(gathered, 2);
    reveal_with_fuel(listed_texts, 2);
    reveal_with_fuel(joined, 3);
    reveal_strlit("\n");
    let first = listed_texts(seq![summary], 1);
    let second = listed_texts(seq![text], 1);
    assert(first =~= seq![led]);
    assert(second =~= seq![followed]);
    let both = first + second;
    assert(both =~= seq![led, followed]);
    assert(both.drop_last() =~= seq![led]);
    assert(joined(both, "\n"@) =~= led + "\n"@ + followed);
    assert(gathered(seq![item], 1).reasoning =~= led + "\n"@ + followed);
    assert((led + "\n"@ + followed).len() > 0);
}

/// The place among the calls that the call at `at` has.
pub open spec fn call_rank(items: Seq<JsonView>, count: int) -> int
    decreases count,
{
    if count <= 0 {
        0
    } else if items[count - 1].get_str("type"@) == Some("function_call"@) && items[count
        - 1].get_str("call_id"@) is Some && items[count - 1].get_str("name"@) is Some {
        call_rank(items, count - 1) + 1
    } else {
        call_rank(items, count - 1)
    }
}

/// Whether the items are messages, reasoning and calls of functions.
pub open spec fn plain_items(items: Seq<JsonView>) -> bool {
    forall|k: int|
        0 <= k < items.len() ==> {
            ||| (#[trigger] items[k]).get_str("type"@) == Some("message"@)
            ||| items[k].get_str("type"@) == Some("reasoning"@)
            ||| items[k].get_str("type"@) == Some("function_call"@)
        }
}

proof fn lemma_calls_gathered(items: Seq<JsonView>, count: int, at: int)
    requires
        plain_items(items),
        0 <= count <= items.len(),
        0 <= at < count,
        items[at].get_str("type"@) == Some("function_call"@),
        items[at].get_str("call_id"@) is Some,
        items[at].get_str("name"@) is Some,
    ensures
        gathered(items, count).calls.len() == call_rank(items, count),
        0 <= call_rank(items, at) < gathered(items, count).calls.len(),
        ({
            let call = gathered(items, count).calls[call_rank(items, at)];
            &&& call.id == items[at].get_str("call_id"@)
            &&& call.kind == "function"@
            &&& call.function.name == items[at].get_str("name"@)
            &&& call.function.arguments == Some(
                JsonView::Text(or_else(items[at].get_str("arguments"@), "{}"@)),
            )
        }),
    decreases count,
{
    lemma_kinds_differ();
    lemma_rank(items, count);
    lemma_rank(items, at);
    if at < count - 1 {
        lemma_calls_gathered(items, count - 1, at);
    } else {
        lemma_rank(items, count - 1);
    }
}

proof fn lemma_rank(items: Seq<JsonView>, count: int)
    requires
        plain_items(items),
        count <= items.len(),
    ensures
        gathered(items, count).calls.len() == call_rank(items, count),
        0 <= call_rank(items, count),
    decreases count,
{
    lemma_kinds_differ();
    if count > 0 {
        lemma_rank(items, count - 1);
        assert(0 <= count - 1 < items.len());
        let item = items[count - 1];
        assert(item.get_str("type"@) == Some("message"@) || item.get_str("type"@) == Some(
            "reasoning"@,
        ) || item.get_str("type"@) == Some("function_call"@));
    }
}

/// A whole completion tells every call of a function that the response makes: its id, its name and
/// its arguments letter for letter, in the order of the response.
pub proof fn law_completion_tells_the_calls(
    model: Seq<char>,
    response: JsonView,
    now: i64,
    fresh: Seq<char>,
    items: Seq<JsonView>,
    at: int,
)
    requires
        response.get("output"@) == Some(JsonView::Array(items)),
        plain_items(items),
        0 <= at < items.len(),
        items[at].get_str("type"@) == Some("function_call"@),
        items[at].get_str("call_id"@) is Some,
        items[at].get_str("name"@) is Some,
    ensures
        ({
            &&& completed_message(completion(model, response, now, fresh)) matches Some(message)
            &&& message.get("tool_calls"@) matches Some(JsonView::Array(calls))
            &&& calls.len() == call_rank(items, items.len() as int)
            &&& 0 <= call_rank(items, at) < calls.len()
            &&& describes_call(
                calls[call_rank(items, at)],
                items[at].get_str("call_id"@)->Some_0,
                items[at].get_str("name"@)->Some_0,
                or_else(items[at].get_str("arguments"@), "{}"@),
            )
        }),
{
    lemma_keys_differ();
    lemma_more_keys_differ();
    lemma_message(model, response, now, fresh);
    lemma_calls_gathered(items, items.len() as int, at);
    let output = response_output(response);
    let told = output.calls.map_values(|call: ChatToolCallView| tool_call_json(call));
    let rank = call_rank(items, at);
    assert(told[rank] == tool_call_json(output.calls[rank]));
    assert(message_json(output).get("tool_calls"@) == Some(JsonView::Array(told)));
}

/// A whole completion bears the id, the model and the time of the response, and tells its usage.
pub proof fn law_completion_names_the_response(
    model: Seq<char>,
    response: JsonView,
    now: i64,
    fresh: Seq<char>,
)
    ensures
        ({
            let whole = completion(model, response, now, fresh);
            &&& response.get_str("id"@) is Some ==> whole.get_str("id"@) == response.get_str("id"@)
            &&& whole.get_str("object"@) == Some("chat.completion"@)
            &&& whole.get_str("model"@) == Some(or_else(response.get_str("model"@), model))
            &&& counted(whole, "created"@) == Some(
                match counted(response, "created_at"@) {
                    Some(created) => created,
                    None => now as int,
                },
            )
            &&& match response.get("usage"@) {
                None => whole.get("usage"@) is None,
                Some(usage) => counted(usage, "input_tokens"@) is Some && counted(
                    usage,
                    "output_tokens"@,
                ) is Some ==> whole.get("usage"@) is Some && tells_usage(
                    whole.get("usage"@)->Some_0,
                    usage,
                ),
            }
        }),
{
    lemma_more_keys_differ();
    if let Some(usage) = response.get("usage"@) {
        if counted(usage, "input_tokens"@) is Some && counted(usage, "output_tokens"@) is Some {
            lemma_usage_told(response, usage);
        }
    }
}

/// Why a completion says that it ended.
pub open spec fn completed_finish(completion: JsonView) -> Option<Seq<char>> {
    match completion.get("choices"@) {
        Some(JsonView::Array(choices)) => if choices.len() == 1 {
            choices[0].get_str("finish_reason"@)
        } else {
            None
        },
        _ => None,
    }
}

/// A whole completion that was cut off says so; another one says whether it ends with calls.
pub proof fn law_completion_says_why_it_ended(
    model: Seq<char>,
    response: JsonView,
    now: i64,
    fresh: Seq<char>,
)
    ensures
        ({
            let whole = completion(model, response, now, fresh);
            let told = completed_message(whole)->Some_0.get("tool_calls"@);
            &&& response.get_str("status"@) == Some("incomplete"@) ==> completed_finish(whole)
                == Some("length"@)
            &&& response.get_str("status"@) == Some("completed"@) && response.get(
                "incomplete_details"@,
            ) is None ==> completed_finish(whole) == Some(
                if told is Some {
                    "tool_calls"@
                } else {
                    "stop"@
                },
            )
        }),
{
    lemma_keys_differ();
    lemma_more_keys_differ();
    lemma_message(model, response, now, fresh);
    reveal_strlit("incomplete");
    reveal_strlit("completed");
    assert("incomplete"@.len() == 10);
    assert("completed"@.len() == 9);
    let whole = completion(model, response, now, fresh);
    assert(whole.get("choices"@) is Some);
}

// ---------------------------------------------------------------------------------------------
// Collecting
// ---------------------------------------------------------------------------------------------

/// A collector after the first `count` events.
pub open spec fn collected(
    start: ChatCompletionCollectorView,
    events: Seq<SseEventView>,
    count: int,
) -> ChatCompletionCollectorView
    decreases count,
{
    if count <= 0 {
        start
    } else {
        collected(start, events, count - 1).after(events[count - 1])
    }
}

proof fn lemma_collected_on(
    start: ChatCompletionCollectorView,
    events: Seq<SseEventView>,
    at: int,
    count: int,
)
    requires
        0 <= at <= count,
        forall|k: int|
            at <= k < count ==> {
                &&& (#[trigger] events[k]).event != "response.completed"@
                &&& events[k].event != "response.incomplete"@
                &&& events[k].event != "response.failed"@
            },
    ensures
        collected(start, events, count) == collected(start, events, at),
    decreases count,
{
    if at < count {
        lemma_collected_on(start, events, at, count - 1);
        assert(events[count - 1].event != "response.failed"@);
    }
}

/// The response that a stream ends with is the one that the whole completion is made of, and no
/// stream without an end makes one.
pub proof fn law_collected_completion_is_that_of_the_response(
    model: Seq<char>,
    events: Seq<SseEventView>,
    count: int,
    at: int,
    now: i64,
    fresh: Seq<char>,
)
    requires
        0 <= at < count,
        forall|k: int|
            0 <= k < count && k != at ==> {
                &&& (#[trigger] events[k]).event != "response.completed"@
                &&& events[k].event != "response.incomplete"@
                &&& events[k].event != "response.failed"@
            },
    ensures
        ({
            let start = ChatCompletionCollectorView { model, final_response: None, error: None };
            let name = events[at].event;
            let result = collected(start, events, count).response(now, fresh);
            &&& (name == "response.completed"@ || name == "response.incomplete"@)
                && events[at].data.get("response"@) is Some ==> result == Ok::<
                JsonView,
                crate::error::AppErrorView,
            >(completion(model, events[at].data.get("response"@)->Some_0, now, fresh))
            &&& name == "response.failed"@ ==> result is Err
            &&& name != "response.completed"@ && name != "response.incomplete"@ ==> result is Err
        }),
{
    let start = ChatCompletionCollectorView { model, final_response: None, error: None };
    lemma_events_differ(events[at].event);
    lemma_collected_on(start, events, 0, at);
    lemma_collected_on(start, events, at + 1, count);
}

// ---------------------------------------------------------------------------------------------
// The rest of what is told
// ---------------------------------------------------------------------------------------------

/// The pieces of the arguments of a call are kept together in their order until the call is shown.
pub proof fn law_pieces_of_arguments_are_kept(
    converter: ChatCompletionStreamConverterView,
    event: SseEventView,
    fresh: ChunkIdsView,
    id: Seq<char>,
    piece: Seq<char>,
)
    requires
        event.event == "response.function_call_arguments.delta"@,
        event.data.get_str("call_id"@) == Some(id),
        event.data.get_str("delta"@) == Some(piece),
    ensures
        ({
            let before = converter.pending_tool_arguments;
            let step = turned(converter, event, fresh);
            let after = step.converter.pending_tool_arguments;
            &&& step.events.len() == 0
            &&& after.dom().contains(id)
            &&& before.dom().contains(id) ==> after[id] == before[id] + piece
            &&& !before.dom().contains(id) ==> after[id] == piece
            &&& forall|other: Seq<char>|
                other != id && #[trigger] before.dom().contains(other) ==> after.dom().contains(
                    other,
                ) && after[other] == before[other]
        }),
{
    lemma_events_differ(event.event);
    assert(Seq::<char>::empty() + piece =~= piece);
}

/// The only choice of a chunk or of a completion is the first.
pub proof fn law_choices_are_the_first(
    stream: ChatStream,
    delta: Delta,
    finish: Option<Seq<char>>,
    fresh: Seq<char>,
)
    ensures
        ({
            let event = stream.delta(delta, finish, fresh).events.last();
            &&& choice_of(event) matches Some(choice)
            &&& choice.get("index"@) == Some(JsonView::Num(JsonNumberView::Integer(0)))
            &&& choice.get_str("finish_reason"@) == finish
        }),
{
    lemma_delta_read(stream, delta, finish, fresh);
    lemma_keys_differ();
}

/// A failure that says nothing of itself is told as one of the upstream.
pub proof fn law_bare_failures_are_told(
    converter: ChatCompletionStreamConverterView,
    event: SseEventView,
    fresh: ChunkIdsView,
)
    requires
        event.event == "response.failed"@,
        event.data.get("response"@) is None,
    ensures
        ({
            let events = turned(converter, event, fresh).events;
            &&& events.len() == 2
            &&& events[0] matches ChatSseEventView::Data(json)
            &&& json.get("error"@) matches Some(told)
            &&& told.get_str("message"@) == Some("upstream request failed"@)
        }),
{
    lemma_names_differ(event.event);
}

/// A collected failure is told in the words of its error, and a stream without an end in words of
/// its own; both are failures of the upstream.
pub proof fn law_collected_failures_are_told(
    model: Seq<char>,
    event: SseEventView,
    response: JsonView,
    error: JsonView,
    message: Seq<char>,
    now: i64,
    fresh: Seq<char>,
)
    requires
        event.event == "response.failed"@,
        event.data.get("response"@) == Some(response),
        response.get("error"@) == Some(error),
        error.get_str("message"@) == Some(message),
    ensures
        ({
            let start = ChatCompletionCollectorView { model, final_response: None, error: None };
            &&& start.after(event).response(now, fresh) matches Err(told)
            &&& told.kind == crate::error::AppErrorKind::Upstream
            &&& told.message == message
            &&& start.response(now, fresh) matches Err(cut)
            &&& cut.kind == crate::error::AppErrorKind::Upstream
            &&& cut.message == "stream ended before a final response resource was emitted"@
        }),
{
    lemma_names_differ(event.event);
}

/// A call of the shell without a call id goes by the id of its item, and a search for tools without
/// one by the name of its tool.
pub proof fn law_calls_go_by_an_id(item: JsonView, id: Seq<char>)
    ensures
        item.get_str("type"@) == Some("local_shell_call"@) && item.get("call_id"@) is None
            && item.get_str("id"@) == Some(id) ==> (item_call(item) matches Some(call) && call.id
            == Some(id) && call.function.name == Some("local_shell"@)),
        item.get_str("type"@) == Some("tool_search_call"@) && item.get("call_id"@) is None ==> (
        item_call(item) matches Some(call) && call.id == Some("tool_search"@) && call.function.name
            == Some("tool_search"@)),
        item.get_str("type"@) == Some("message"@) ==> item_call(item) is None,
{
    lemma_kinds_differ();
}

/// A response that says why it is incomplete was cut off, whatever its status says.
pub proof fn law_cut_off_responses_say_so(
    model: Seq<char>,
    response: JsonView,
    now: i64,
    fresh: Seq<char>,
    details: JsonView,
)
    requires
        response.get("incomplete_details"@) == Some(details),
        details.get("reason"@) is Some,
    ensures
        completed_finish(completion(model, response, now, fresh)) == Some("length"@),
        super::stream::event_finish(
            JsonView::Object(map!["response"@ => response]),
            true,
        ) == "length"@,
{
    lemma_more_keys_differ();
    let whole = completion(model, response, now, fresh);
    assert(whole.get("choices"@) is Some);
}

/// The time of an answer is that of the clock in whole seconds, and it never runs backwards.
pub proof fn law_time_is_told_in_seconds(now: crate::clock::TimeSpan, later: crate::clock::TimeSpan)
    ensures
        now.secs <= i64::MAX ==> super::stream::timestamp(now) == now.secs,
        now.secs <= later.secs ==> super::stream::timestamp(now) <= super::stream::timestamp(later),
{
}

} // verus!
