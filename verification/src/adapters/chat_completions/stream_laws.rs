//! What holds of a streamed chat completion from its first event to its last.
use vstd::prelude::*;

use crate::json::{JsonNumberView, JsonView};
use crate::models::chat::ChatToolCallView;
use crate::sse::SseEventView;

use super::stream::{
    choice_json, chunk_json, delta_json, done_call, error_message, event_finish, named_call,
    new_converter, response_usage, tool_call_json, tool_calls_json, usage_json,
    ChatCompletionStreamConverterView, ChatSseEventView, ChatStream, ChunkIdsView, Delta,
};

verus! {

// ---------------------------------------------------------------------------------------------
// What a client sees in an event
// ---------------------------------------------------------------------------------------------

/// The only choice of a chunk, where it has one.
pub open spec fn choice_of(event: ChatSseEventView) -> Option<JsonView> {
    match event {
        ChatSseEventView::Data(json) => match json.get("choices"@) {
            Some(JsonView::Array(choices)) => if choices.len() > 0 {
                Some(choices[0])
            } else {
                None
            },
            _ => None,
        },
        ChatSseEventView::Done => None,
    }
}

/// What the delta of a chunk has under `key`.
pub open spec fn delta_part(event: ChatSseEventView, key: Seq<char>) -> Option<JsonView> {
    match choice_of(event) {
        Some(choice) => match choice.get("delta"@) {
            Some(delta) => delta.get(key),
            None => None,
        },
        None => None,
    }
}

/// The id and the number of the tool call that a chunk shows.
pub open spec fn call_of(event: ChatSseEventView) -> Option<(Seq<char>, int)> {
    match delta_part(event, "tool_calls"@) {
        Some(JsonView::Array(calls)) => if calls.len() > 0 {
            match (calls[0].get("id"@), calls[0].get("index"@)) {
                (
                    Some(JsonView::Text(id)),
                    Some(JsonView::Num(JsonNumberView::Integer(index))),
                ) => Some((id, index)),
                _ => None,
            }
        } else {
            None
        },
        _ => None,
    }
}

/// What a client sees in an event.
pub struct Seen {
    /// The role that it announces.
    pub role: Option<JsonView>,
    /// Whether it carries a piece of the answer or of the reasoning.
    pub text: bool,
    /// Whether it carries tool calls.
    pub calls: bool,
    /// The tool call that it shows, with its number.
    pub call: Option<(Seq<char>, int)>,
    /// Why it says that the answer ended.
    pub finish: Option<JsonView>,
    /// Whether it is the mark that no more will come.
    pub done: bool,
}

impl Seen {
    /// Nothing of interest.
    spec fn nothing() -> Seen {
        Seen { role: None, text: false, calls: false, call: None, finish: None, done: false }
    }

    /// Whether it is something that only comes behind the role.
    pub open spec fn follows_role(self) -> bool {
        self.text || self.calls || self.finish is Some
    }
}

/// What a client sees in the given event.
#[verifier::opaque]
pub open spec fn seen(event: ChatSseEventView) -> Seen {
    Seen {
        role: delta_part(event, "role"@),
        text: delta_part(event, "content"@) is Some || delta_part(event, "reasoning_content"@)
            is Some,
        calls: delta_part(event, "tool_calls"@) is Some,
        call: call_of(event),
        finish: match choice_of(event) {
            Some(choice) => choice.get("finish_reason"@),
            None => None,
        },
        done: event is Done,
    }
}

/// The tool calls that events show, in their order.
pub open spec fn shown(events: Seq<ChatSseEventView>) -> Seq<(Seq<char>, int)>
    decreases events.len(),
{
    if events.len() == 0 {
        Seq::empty()
    } else {
        match seen(events.last()).call {
            Some(call) => shown(events.drop_last()).push(call),
            None => shown(events.drop_last()),
        }
    }
}

/// The role is announced at `at` and nowhere else, and what follows a role comes behind it.
pub open spec fn announced_at(events: Seq<ChatSseEventView>, at: int) -> bool {
    &&& 0 <= at < events.len()
    &&& seen(events[at]).role == Some(JsonView::Text("assistant"@))
    &&& forall|k: int|
        0 <= k < events.len() ==> {
            &&& seen(#[trigger] events[k]).role is Some ==> k == at
            &&& seen(events[k]).follows_role() ==> k > at
        }
}

/// Neither a role nor anything that follows one is in the events.
pub open spec fn unannounced(events: Seq<ChatSseEventView>) -> bool {
    forall|k: int|
        0 <= k < events.len() ==> seen(#[trigger] events[k]).role is None && !seen(
            events[k],
        ).follows_role()
}

/// Whether an event ends a response.
pub open spec fn is_terminal(name: Seq<char>) -> bool {
    name == "response.completed"@ || name == "response.incomplete"@ || name == "response.failed"@
}

// ---------------------------------------------------------------------------------------------
// Whole streams
// ---------------------------------------------------------------------------------------------

/// What one event turns into.
pub open spec fn turned(
    converter: ChatCompletionStreamConverterView,
    event: SseEventView,
    fresh: ChunkIdsView,
) -> ChatStream {
    ChatStream { converter, events: Seq::empty() }.after(event, fresh)
}

/// A converter after the first `count` events, and everything that they turned into. `fresh` are the
/// ids that each event was converted with.
pub open spec fn converted(
    start: ChatCompletionStreamConverterView,
    events: Seq<SseEventView>,
    fresh: Seq<ChunkIdsView>,
    count: int,
) -> ChatStream
    decreases count,
{
    if count <= 0 {
        ChatStream { converter: start, events: Seq::empty() }
    } else {
        let before = converted(start, events, fresh, count - 1);
        let step = turned(before.converter, events[count - 1], fresh[count - 1]);
        ChatStream { converter: step.converter, events: before.events + step.events }
    }
}

// ---------------------------------------------------------------------------------------------
// Single events
// ---------------------------------------------------------------------------------------------

pub(super) proof fn lemma_keys_differ()
    ensures
        "choices"@ != "id"@,
        "choices"@ != "object"@,
        "choices"@ != "created"@,
        "choices"@ != "model"@,
        "choices"@ != "usage"@,
        "choices"@ != "error"@,
        "delta"@ != "index"@,
        "delta"@ != "finish_reason"@,
        "finish_reason"@ != "index"@,
        "role"@ != "content"@,
        "role"@ != "reasoning_content"@,
        "role"@ != "tool_calls"@,
        "content"@ != "reasoning_content"@,
        "content"@ != "tool_calls"@,
        "reasoning_content"@ != "tool_calls"@,
        "id"@ != "index"@,
        "id"@ != "type"@,
        "id"@ != "function"@,
        "index"@ != "type"@,
        "index"@ != "function"@,
{
    reveal_strlit("choices");
    reveal_strlit("id");
    reveal_strlit("object");
    reveal_strlit("created");
    reveal_strlit("model");
    reveal_strlit("usage");
    reveal_strlit("error");
    reveal_strlit("delta");
    reveal_strlit("index");
    reveal_strlit("finish_reason");
    reveal_strlit("role");
    reveal_strlit("content");
    reveal_strlit("reasoning_content");
    reveal_strlit("tool_calls");
    reveal_strlit("type");
    reveal_strlit("function");
    assert("choices"@[0] == 'c' && "choices"@[1] == 'h');
    assert("created"@[1] == 'r');
    assert("delta"@[0] == 'd');
    assert("index"@[0] == 'i');
    assert("finish_reason"@[0] == 'f');
    assert("object"@.len() == 6);
    assert("choices"@.len() == 7);
    assert("reasoning_content"@.len() == 17);
    assert("tool_calls"@.len() == 10);
    assert("content"@.len() == 7);
    assert("role"@.len() == 4);
    assert("type"@.len() == 4);
    assert("function"@.len() == 8);
    assert("id"@.len() == 2);
    assert("model"@.len() == 5);
    assert("usage"@.len() == 5);
    assert("error"@.len() == 5);
}

/// What is seen in a chunk that carries a delta.
proof fn lemma_delta_seen(
    id: Seq<char>,
    created: i64,
    model: Seq<char>,
    delta: Delta,
    finish: Option<Seq<char>>,
)
    ensures
        seen(
            ChatSseEventView::Data(
                chunk_json(id, created, model, seq![choice_json(delta_json(delta), finish)], None),
            ),
        ) == (Seen {
            role: if delta is Role {
                Some(JsonView::Text("assistant"@))
            } else {
                None
            },
            text: delta is Content || delta is Reasoning,
            calls: delta is Call,
            call: match delta {
                Delta::Call(call) => match (call.id, call.index) {
                    (Some(id), Some(index)) => Some((id, index as int)),
                    _ => None,
                },
                _ => None,
            },
            finish: match finish {
                Some(text) => Some(JsonView::Text(text)),
                None => None,
            },
            done: false,
        }),
{
    reveal(seen);
    lemma_keys_differ();
    let choice = choice_json(delta_json(delta), finish);
    let event = ChatSseEventView::Data(chunk_json(id, created, model, seq![choice], None));
    assert(choice_of(event) == Some(choice));
    assert(choice.get("delta"@) == Some(delta_json(delta)));
    if let Delta::Call(call) = delta {
        let calls = tool_calls_json(seq![call]);
        assert(delta_part(event, "tool_calls"@) == Some(calls));
        let list = seq![call].map_values(|call: ChatToolCallView| tool_call_json(call));
        assert(list.len() == 1);
        assert(list[0] == tool_call_json(call));
    }
}

/// Neither a chunk without a choice nor an error shows anything.
proof fn lemma_rest_seen(
    id: Seq<char>,
    created: i64,
    model: Seq<char>,
    usage: Option<JsonView>,
    error: JsonView,
)
    ensures
        seen(ChatSseEventView::Data(chunk_json(id, created, model, Seq::empty(), usage)))
            == Seen::nothing(),
        seen(ChatSseEventView::Data(JsonView::Object(map!["error"@ => error]))) == Seen::nothing(),
        seen(ChatSseEventView::Done) == (Seen { done: true, ..Seen::nothing() }),
{
    reveal(seen);
    lemma_keys_differ();
}

proof fn lemma_shown_push(events: Seq<ChatSseEventView>, event: ChatSseEventView)
    ensures
        shown(events.push(event)) == (match seen(event).call {
            Some(call) => shown(events).push(call),
            None => shown(events),
        }),
{
    assert(events.push(event).drop_last() =~= events);
}

proof fn lemma_shown_append(events: Seq<ChatSseEventView>, more: Seq<ChatSseEventView>)
    ensures
        shown(events + more) == shown(events) + shown(more),
    decreases more.len(),
{
    if more.len() == 0 {
        assert(events + more =~= events);
        assert(shown(events) + shown(more) =~= shown(events));
    } else {
        lemma_shown_append(events, more.drop_last());
        assert((events + more).drop_last() =~= events + more.drop_last());
        assert((events + more).last() == more.last());
        assert(shown(events + more) =~= shown(events) + shown(more));
    }
}

/// What holds of the events that one event turns into.
#[verifier::opaque]
spec fn step_keeps(
    before: ChatCompletionStreamConverterView,
    after: ChatCompletionStreamConverterView,
    name: Seq<char>,
    data: JsonView,
    events: Seq<ChatSseEventView>,
) -> bool {
    &&& before.role_sent ==> after.role_sent && forall|k: int|
        0 <= k < events.len() ==> seen(#[trigger] events[k]).role is None
    &&& !before.role_sent && !after.role_sent ==> unannounced(events)
    &&& !before.role_sent && after.role_sent ==> announced_at(events, 0)
    &&& forall|k: int|
        0 <= k < events.len() && seen(#[trigger] events[k]).done ==> is_terminal(name) && k
            == events.len() - 1
    &&& is_terminal(name) ==> events.len() > 0 && seen(events.last()).done
    &&& forall|k: int|
        0 <= k < events.len() && seen(#[trigger] events[k]).finish is Some ==> (name
            == "response.completed"@ || name == "response.incomplete"@) && seen(events[k]).finish
            == Some(JsonView::Text(event_finish(data, before.emitted_tool_calls.len() > 0)))
    &&& name == "response.completed"@ || name == "response.incomplete"@ ==> exists|k: int|
        0 <= k < events.len() && seen(#[trigger] events[k]).finish is Some
    &&& forall|k: int|
        0 <= k < events.len() ==> (seen(#[trigger] events[k]).calls <==> seen(events[k]).call
            is Some)
    &&& after.emitted_tool_calls == before.emitted_tool_calls && shown(events).len() == 0 || {
        let id = after.emitted_tool_calls.last();
        &&& !before.emitted_tool_calls.contains(id)
        &&& after.emitted_tool_calls == before.emitted_tool_calls.push(id)
        &&& shown(events) == seq![(id, before.emitted_tool_calls.len() as int)]
    }
}

/// The chunk that announces the role, where it is still to be announced.
proof fn lemma_begun(stream: ChatStream, fresh: ChunkIdsView)
    requires
        stream.events.len() == 0,
    ensures
        stream.begun(fresh).converter == (ChatCompletionStreamConverterView {
            role_sent: true,
            ..stream.converter
        }),
        stream.converter.role_sent ==> stream.begun(fresh).events.len() == 0,
        !stream.converter.role_sent ==> stream.begun(fresh).events.len() == 1 && seen(
            stream.begun(fresh).events[0],
        ) == (Seen { role: Some(JsonView::Text("assistant"@)), ..Seen::nothing() }),
        shown(stream.begun(fresh).events).len() == 0,
{
    if !stream.converter.role_sent {
        let id = match stream.converter.id {
            Some(id) => id,
            None => crate::ids::prefixed_id("chatcmpl"@, fresh.role),
        };
        lemma_delta_seen(id, stream.converter.created, stream.converter.model, Delta::Role, None);
        let events = stream.begun(fresh).events;
        lemma_shown_push(stream.events, events[0]);
        assert(events =~= stream.events.push(events[0]));
    }
}

/// A delta behind the role.
proof fn lemma_delta(
    stream: ChatStream,
    delta: Delta,
    finish: Option<Seq<char>>,
    fresh: Seq<char>,
)
    ensures
        ({
            let after = stream.delta(delta, finish, fresh);
            &&& after.converter == stream.converter
            &&& after.events == stream.events.push(after.events.last())
            &&& seen(after.events.last()) == (Seen {
                role: if delta is Role {
                    Some(JsonView::Text("assistant"@))
                } else {
                    None
                },
                text: delta is Content || delta is Reasoning,
                calls: delta is Call,
                call: match delta {
                    Delta::Call(call) => match (call.id, call.index) {
                        (Some(id), Some(index)) => Some((id, index as int)),
                        _ => None,
                    },
                    _ => None,
                },
                finish: match finish {
                    Some(text) => Some(JsonView::Text(text)),
                    None => None,
                },
                done: false,
            })
        }),
{
    let id = match stream.converter.id {
        Some(id) => id,
        None => crate::ids::prefixed_id("chatcmpl"@, fresh),
    };
    lemma_delta_seen(id, stream.converter.created, stream.converter.model, delta, finish);
}

pub(super) proof fn lemma_names_differ(name: Seq<char>)
    requires
        is_terminal(name),
    ensures
        name != "response.created"@,
        name != "response.output_text.delta"@,
        name != "response.reasoning_text.delta"@,
        name != "response.reasoning_summary_text.delta"@,
        name != "response.function_call_arguments.delta"@,
        name != "response.function_call_arguments.done"@,
        name != "response.output_item.done"@,
        "response.failed"@ != "response.completed"@,
        "response.failed"@ != "response.incomplete"@,
{
    reveal_strlit("response.completed");
    reveal_strlit("response.incomplete");
    reveal_strlit("response.failed");
    reveal_strlit("response.created");
    reveal_strlit("response.output_text.delta");
    reveal_strlit("response.reasoning_text.delta");
    reveal_strlit("response.reasoning_summary_text.delta");
    reveal_strlit("response.function_call_arguments.delta");
    reveal_strlit("response.function_call_arguments.done");
    reveal_strlit("response.output_item.done");
    assert("response.completed"@.len() == 18);
    assert("response.incomplete"@.len() == 19);
    assert("response.failed"@.len() == 15);
    assert("response.created"@.len() == 16);
}

/// A text behind the role.
proof fn lemma_text_step(
    converter: ChatCompletionStreamConverterView,
    name: Seq<char>,
    data: JsonView,
    delta: Delta,
    fresh: ChunkIdsView,
)
    requires
        !is_terminal(name),
        delta is Content || delta is Reasoning,
    ensures
        ({
            let after = (ChatStream { converter, events: Seq::empty() }).begun(fresh).delta(
                delta,
                None,
                fresh.body,
            );
            step_keeps(converter, after.converter, name, data, after.events)
        }),
{
    reveal(step_keeps);
    let stream = ChatStream { converter, events: Seq::empty() };
    lemma_begun(stream, fresh);
    let begun = stream.begun(fresh);
    lemma_delta(begun, delta, None, fresh.body);
    let after = begun.delta(delta, None, fresh.body);
    lemma_shown_push(begun.events, after.events.last());
}

/// A tool call that has not been shown before, behind the role.
proof fn lemma_call_step(
    converter: ChatCompletionStreamConverterView,
    name: Seq<char>,
    data: JsonView,
    call: ChatToolCallView,
    fresh: ChunkIdsView,
)
    requires
        !is_terminal(name),
        converter.emitted_tool_calls.len() <= usize::MAX,
    ensures
        ({
            let after = (ChatStream { converter, events: Seq::empty() }).call(call, fresh);
            step_keeps(converter, after.converter, name, data, after.events)
        }),
{
    reveal(step_keeps);
    let stream = ChatStream { converter, events: Seq::empty() };
    let after = stream.call(call, fresh);
    if call.id is Some && !converter.emitted_tool_calls.contains(call.id->0) {
        let call_id = call.id->0;
        let noted = ChatStream {
            converter: ChatCompletionStreamConverterView {
                role_sent: converter.role_sent,
                ..after.converter
            },
            events: Seq::empty(),
        };
        lemma_begun(noted, fresh);
        let begun = noted.begun(fresh);
        let pending = converter.pending_tool_arguments;
        let filled = call.function.arguments is None && pending.dom().contains(call_id);
        let numbered = ChatToolCallView {
            index: Some(converter.emitted_tool_calls.len() as usize),
            function: crate::models::chat::ChatFunctionCallView {
                arguments: if filled {
                    Some(JsonView::Text(pending[call_id]))
                } else {
                    call.function.arguments
                },
                ..call.function
            },
            ..call
        };
        lemma_delta(begun, Delta::Call(numbered), None, fresh.body);
        assert(after == begun.delta(Delta::Call(numbered), None, fresh.body));
        lemma_shown_push(begun.events, after.events.last());
        assert(shown(begun.events) =~= Seq::empty());
        assert(shown(after.events) =~= seq![
            (call_id, converter.emitted_tool_calls.len() as int),
        ]);
        assert(after.converter.emitted_tool_calls == converter.emitted_tool_calls.push(call_id));
    }
}

proof fn lemma_completed_step(
    converter: ChatCompletionStreamConverterView,
    name: Seq<char>,
    data: JsonView,
    fresh: ChunkIdsView,
)
    requires
        name == "response.completed"@ || name == "response.incomplete"@,
    ensures
        ({
            let after = (ChatStream { converter, events: Seq::empty() }).completed(data, fresh);
            step_keeps(converter, after.converter, name, data, after.events)
        }),
{
    reveal(step_keeps);
    let stream = ChatStream { converter, events: Seq::empty() };
    lemma_begun(stream, fresh);
    let begun = stream.begun(fresh);
    let finish = event_finish(data, converter.emitted_tool_calls.len() > 0);
    lemma_delta(begun, Delta::Nothing, Some(finish), fresh.body);
    let ended = begun.delta(Delta::Nothing, Some(finish), fresh.body);
    lemma_shown_push(begun.events, ended.events.last());
    let id = match converter.id {
        Some(id) => id,
        None => crate::ids::prefixed_id("chatcmpl"@, fresh.usage),
    };
    let usage = match data.get("response"@) {
        Some(response) => response_usage(response),
        None => None,
    };
    let chunk = ChatSseEventView::Data(
        chunk_json(
            id,
            converter.created,
            converter.model,
            Seq::empty(),
            Some(usage_json(usage->0)),
        ),
    );
    lemma_rest_seen(
        id,
        converter.created,
        converter.model,
        Some(usage_json(usage->0)),
        JsonView::Null,
    );
    lemma_shown_push(ended.events, chunk);
    let reported = if usage is Some && converter.include_usage {
        ended.events.push(chunk)
    } else {
        ended.events
    };
    lemma_shown_push(reported, ChatSseEventView::Done);
    let after = stream.completed(data, fresh);
    assert(after.events =~= reported.push(ChatSseEventView::Done));
    assert(seen(ended.events.last()).finish is Some);
    let at = ended.events.len() - 1;
    assert(after.events[at] == ended.events.last());
}

proof fn lemma_failed_step(
    converter: ChatCompletionStreamConverterView,
    data: JsonView,
)
    ensures
        ({
            let after = (ChatStream { converter, events: Seq::empty() }).failed(data);
            step_keeps(converter, after.converter, "response.failed"@, data, after.events)
        }),
{
    reveal(step_keeps);
    lemma_names_differ("response.failed"@);
    let stream = ChatStream { converter, events: Seq::empty() };
    let error = JsonView::Object(map!["message"@ => JsonView::Text(error_message(data))]);
    lemma_rest_seen(Seq::empty(), 0, Seq::empty(), None, error);
    let first = ChatSseEventView::Data(JsonView::Object(map!["error"@ => error]));
    lemma_shown_push(stream.events, first);
    lemma_shown_push(stream.events.push(first), ChatSseEventView::Done);
    let after = stream.failed(data);
    assert(after.events =~= stream.events.push(first).push(ChatSseEventView::Done));
}

proof fn lemma_step(
    converter: ChatCompletionStreamConverterView,
    event: SseEventView,
    fresh: ChunkIdsView,
)
    requires
        converter.emitted_tool_calls.len() <= usize::MAX,
    ensures
        ({
            let after = turned(converter, event, fresh);
            step_keeps(converter, after.converter, event.event, event.data, after.events)
        }),
{
    let stream = ChatStream { converter, events: Seq::empty() };
    let name = event.event;
    let data = event.data;
    if is_terminal(name) {
        lemma_names_differ(name);
        if name == "response.failed"@ {
            lemma_failed_step(converter, data);
        } else {
            lemma_completed_step(converter, name, data, fresh);
        }
    } else if name == "response.created"@ {
        reveal(step_keeps);
        let known = ChatStream {
            converter: ChatCompletionStreamConverterView {
                id: match data.get("response"@) {
                    Some(response) => response.get_str("id"@),
                    None => None,
                },
                ..converter
            },
            ..stream
        };
        lemma_begun(known, fresh);
    } else if name == "response.output_text.delta"@ {
        reveal(step_keeps);
        if let Some(text) = data.get_str("delta"@) {
            lemma_text_step(converter, name, data, Delta::Content(text), fresh);
        }
    } else if name == "response.reasoning_text.delta"@ || name
        == "response.reasoning_summary_text.delta"@ {
        reveal(step_keeps);
        if let Some(text) = data.get_str("delta"@) {
            lemma_text_step(converter, name, data, Delta::Reasoning(text), fresh);
        }
    } else if name == "response.function_call_arguments.delta"@ {
        reveal(step_keeps);
    } else if name == "response.function_call_arguments.done"@ {
        reveal(step_keeps);
        if let Some(call) = named_call(data) {
            lemma_call_step(converter, name, data, call, fresh);
        }
    } else if name == "response.output_item.done"@ {
        reveal(step_keeps);
        if let Some(call) = done_call(data) {
            lemma_call_step(converter, name, data, call, fresh);
        }
    } else {
        reveal(step_keeps);
    }
}

// ---------------------------------------------------------------------------------------------
// Laws
// ---------------------------------------------------------------------------------------------

/// Whether the events announce the role as far as the converter has.
pub open spec fn role_kept(stream: ChatStream) -> bool {
    &&& !stream.converter.role_sent ==> unannounced(stream.events)
    &&& stream.converter.role_sent ==> exists|at: int| #[trigger] announced_at(stream.events, at)
}

/// Whether the events show the calls that the converter has numbered, each once and in their order.
pub open spec fn calls_kept(stream: ChatStream) -> bool {
    let calls = stream.converter.emitted_tool_calls;
    &&& calls.no_duplicates()
    &&& shown(stream.events).len() == calls.len()
    &&& forall|i: int| 0 <= i < calls.len() ==> #[trigger] shown(stream.events)[i] == (calls[i], i)
    &&& forall|k: int|
        0 <= k < stream.events.len() ==> (seen(#[trigger] stream.events[k]).calls <==> seen(
            stream.events[k],
        ).call is Some)
}

proof fn lemma_role_joined(before: ChatStream, step: ChatStream, name: Seq<char>, data: JsonView)
    requires
        role_kept(before),
        step_keeps(before.converter, step.converter, name, data, step.events),
    ensures
        role_kept(
            ChatStream { converter: step.converter, events: before.events + step.events },
        ),
{
    reveal(step_keeps);
    let events = before.events + step.events;
    let count = before.events.len() as int;
    assert forall|k: int| 0 <= k < events.len() implies #[trigger] events[k] == (if k < count {
        before.events[k]
    } else {
        step.events[k - count]
    }) by {}
    if before.converter.role_sent {
        let at = choose|at: int| #[trigger] announced_at(before.events, at);
        assert(announced_at(events, at));
    } else if step.converter.role_sent {
        assert(events[count] == step.events[0]);
        assert(announced_at(events, count));
    }
}

proof fn lemma_calls_joined(before: ChatStream, step: ChatStream, name: Seq<char>, data: JsonView)
    requires
        calls_kept(before),
        step_keeps(before.converter, step.converter, name, data, step.events),
    ensures
        calls_kept(
            ChatStream { converter: step.converter, events: before.events + step.events },
        ),
        step.converter.emitted_tool_calls.len() <= before.converter.emitted_tool_calls.len() + 1,
{
    reveal(step_keeps);
    let events = before.events + step.events;
    let count = before.events.len() as int;
    lemma_shown_append(before.events, step.events);
    assert forall|k: int| 0 <= k < events.len() implies (seen(#[trigger] events[k]).calls <==> seen(
        events[k],
    ).call is Some) by {
        assert(events[k] == (if k < count {
            before.events[k]
        } else {
            step.events[k - count]
        }));
    }
    let was = before.converter.emitted_tool_calls;
    let now = step.converter.emitted_tool_calls;
    if shown(step.events).len() == 0 {
        assert(shown(events) =~= shown(before.events));
        assert(now == was);
    } else {
        assert forall|i: int, j: int| 0 <= i < now.len() && 0 <= j < now.len() && i != j implies now[i]
            != now[j] by {
            if i < was.len() && j < was.len() {
                assert(was[i] != was[j]);
            } else if i < was.len() {
                assert(was[i] == now[i]);
            } else {
                assert(was[j] == now[j]);
            }
        }
    }
}

proof fn lemma_converted_keeps(
    start: ChatCompletionStreamConverterView,
    events: Seq<SseEventView>,
    fresh: Seq<ChunkIdsView>,
    count: int,
)
    requires
        !start.role_sent,
        start.emitted_tool_calls.len() == 0,
        count <= usize::MAX,
    ensures
        role_kept(converted(start, events, fresh, count)),
        calls_kept(converted(start, events, fresh, count)),
        converted(start, events, fresh, count).converter.emitted_tool_calls.len() <= if count > 0 {
            count
        } else {
            0
        },
    decreases count,
{
    if count > 0 {
        lemma_converted_keeps(start, events, fresh, count - 1);
        let before = converted(start, events, fresh, count - 1);
        let event = events[count - 1];
        lemma_step(before.converter, event, fresh[count - 1]);
        let step = turned(before.converter, event, fresh[count - 1]);
        lemma_role_joined(before, step, event.event, event.data);
        lemma_calls_joined(before, step, event.event, event.data);
    }
}

/// Over any events at most one chunk announces the role, which is the assistant's, and every chunk
/// with text, reasoning, tool calls or a finish reason comes behind it.
pub proof fn law_role_comes_once_and_first(
    model: Seq<char>,
    include_usage: bool,
    created: i64,
    events: Seq<SseEventView>,
    fresh: Seq<ChunkIdsView>,
    count: int,
)
    requires
        count <= usize::MAX,
    ensures
        role_kept(converted(new_converter(model, include_usage, created), events, fresh, count)),
{
    lemma_converted_keeps(
        new_converter(model, include_usage, created),
        events,
        fresh,
        count,
    );
}

/// Over any events each tool call is shown in at most one chunk, and the calls are numbered from
/// zero in the order in which they are shown.
pub proof fn law_calls_are_numbered_as_shown(
    model: Seq<char>,
    include_usage: bool,
    created: i64,
    events: Seq<SseEventView>,
    fresh: Seq<ChunkIdsView>,
    count: int,
)
    requires
        count <= usize::MAX,
    ensures
        ({
            let all = converted(
                new_converter(model, include_usage, created),
                events,
                fresh,
                count,
            );
            let calls = shown(all.events);
            &&& calls_kept(all)
            &&& forall|i: int| 0 <= i < calls.len() ==> (#[trigger] calls[i]).1 == i
            &&& forall|i: int, j: int|
                0 <= i < j < calls.len() ==> (#[trigger] calls[i]).0 != (#[trigger] calls[j]).0
        }),
{
    let start = new_converter(model, include_usage, created);
    lemma_converted_keeps(start, events, fresh, count);
    let all = converted(start, events, fresh, count);
    let calls = shown(all.events);
    let ids = all.converter.emitted_tool_calls;
    assert forall|i: int, j: int| 0 <= i < j < calls.len() implies (#[trigger] calls[i]).0 != (
    #[trigger] calls[j]).0 by {
        assert(shown(all.events)[i] == (ids[i], i));
        assert(shown(all.events)[j] == (ids[j], j));
    }
}

/// What the event at `at` turns into ends with the mark that no more will come if it ends the
/// response, and holds no such mark if it does not.
pub proof fn law_mark_comes_with_the_end(
    model: Seq<char>,
    include_usage: bool,
    created: i64,
    events: Seq<SseEventView>,
    fresh: Seq<ChunkIdsView>,
    at: int,
)
    requires
        0 <= at < usize::MAX,
    ensures
        ({
            let before = converted(new_converter(model, include_usage, created), events, fresh, at);
            let output = turned(before.converter, events[at], fresh[at]).events;
            &&& is_terminal(events[at].event) ==> output.len() > 0 && output.last()
                == ChatSseEventView::Done
            &&& !is_terminal(events[at].event) ==> forall|k: int|
                0 <= k < output.len() ==> (#[trigger] output[k]) != ChatSseEventView::Done
        }),
{
    reveal(step_keeps);
    reveal(seen);
    let start = new_converter(model, include_usage, created);
    lemma_converted_keeps(start, events, fresh, at);
    let before = converted(start, events, fresh, at);
    lemma_step(before.converter, events[at], fresh[at]);
    let output = turned(before.converter, events[at], fresh[at]).events;
    assert forall|k: int| 0 <= k < output.len() && !is_terminal(events[at].event) implies (
    #[trigger] output[k]) != ChatSseEventView::Done by {
        assert(!seen(output[k]).done);
    }
}

/// Whether one of the events carries tool calls.
pub open spec fn some_call_shown(events: Seq<ChatSseEventView>) -> bool {
    exists|k: int| 0 <= k < events.len() && seen(#[trigger] events[k]).calls
}

proof fn lemma_some_call_shown(events: Seq<ChatSseEventView>)
    requires
        forall|k: int|
            0 <= k < events.len() ==> (seen(#[trigger] events[k]).calls <==> seen(events[k]).call
                is Some),
    ensures
        some_call_shown(events) <==> shown(events).len() > 0,
    decreases events.len(),
{
    if events.len() > 0 {
        let before = events.drop_last();
        assert forall|k: int| 0 <= k < before.len() implies (seen(#[trigger] before[k]).calls
            <==> seen(before[k]).call is Some) by {
            assert(before[k] == events[k]);
        }
        lemma_some_call_shown(before);
        let last = events.len() - 1;
        assert(events[last] == events.last());
        if some_call_shown(events) {
            let k = choose|k: int| 0 <= k < events.len() && seen(#[trigger] events[k]).calls;
            if k < last {
                assert(before[k] == events[k]);
                assert(some_call_shown(before));
            }
        }
        if some_call_shown(before) {
            let k = choose|k: int| 0 <= k < before.len() && seen(#[trigger] before[k]).calls;
            assert(events[k] == before[k]);
        }
    }
}

/// A finish reason comes with the completed or the incomplete response and with nothing else. It is
/// the length if the response says that it was cut off, else the tool calls if one was shown before,
/// else a plain stop.
pub proof fn law_finish_reason_fits_the_stream(
    model: Seq<char>,
    include_usage: bool,
    created: i64,
    events: Seq<SseEventView>,
    fresh: Seq<ChunkIdsView>,
    at: int,
)
    requires
        0 <= at < usize::MAX,
    ensures
        ({
            let before = converted(new_converter(model, include_usage, created), events, fresh, at);
            let output = turned(before.converter, events[at], fresh[at]).events;
            let ends = events[at].event == "response.completed"@ || events[at].event
                == "response.incomplete"@;
            &&& ends <==> exists|k: int|
                0 <= k < output.len() && seen(#[trigger] output[k]).finish is Some
            &&& forall|k: int|
                0 <= k < output.len() && seen(#[trigger] output[k]).finish is Some ==> seen(
                    output[k],
                ).finish == Some(
                    JsonView::Text(event_finish(events[at].data, some_call_shown(before.events))),
                )
        }),
{
    reveal(step_keeps);
    let start = new_converter(model, include_usage, created);
    lemma_converted_keeps(start, events, fresh, at);
    let before = converted(start, events, fresh, at);
    lemma_step(before.converter, events[at], fresh[at]);
    lemma_some_call_shown(before.events);
}

} // verus!
