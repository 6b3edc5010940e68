//! What becomes of the words that a model streams: they reach the client, and the finished turn, as
//! they came.
use vstd::prelude::*;

use crate::error::{AppErrorKind, AppErrorView};
use crate::json::{json_parsed, json_rendered, JsonView};
use crate::models::chat::{
    ChatChunkChoiceView, ChatCompletionChunkView, ChatDeltaView, ChatToolCallView,
};
use crate::models::responses::{
    LocalShellActionView, LocalShellExecActionView, ReasoningContentItemView, ResponseItemView,
    WebSearchActionView,
};
use crate::models::shell_call::shell_action;
use crate::text::{lowered, trimmed};

use super::super::responses_to_chat::tools::{ToolKindView, ANALYZE_IMAGE_TOOL_NAME};
use super::arguments::argument_payload;
use super::stream_laws::{
    lemma_call_at_entry, lemma_choice_parts, lemma_choices_keep, lemma_said_calls_match,
    lemma_said_well_opened, lemma_streamed_keeps, lemma_streamed_on, lemma_tool_calls_match,
    lemma_with_call_entries, old_form, said, streamed,
};
use super::{
    call_after, call_at, call_place, calls_ascending, delta_of, finished_turn, has_call,
    lemma_call_place_bounds, lemma_emit, lemma_resolved_each, parsed_arguments, resolved_call,
    resolved_calls, streamed_reasoning, streamed_refusal, streamed_text, with_call, CallDelta,
    ChoiceIdsView, Progress, ResolvedToolCallView, StreamEmissionView, StreamStateView,
    ToolCallAccumulatorView,
};

verus! {

// ---------------------------------------------------------------------------------------------
// What comes in
// ---------------------------------------------------------------------------------------------

/// The text, or nothing.
pub open spec fn or_nothing(text: Option<Seq<char>>) -> Seq<char> {
    match text {
        Some(text) => text,
        None => Seq::empty(),
    }
}

/// The reasoning that a delta carries, under whichever name the backend gives it.
pub open spec fn reasoning_in(delta: ChatDeltaView) -> Seq<char> {
    match delta.reasoning_content {
        Some(text) => text,
        None => match JsonView::Object(delta.extra).get_str("reasoning"@) {
            Some(text) => text,
            None => match JsonView::Object(delta.extra).get("thinking"@) {
                Some(thinking) => or_nothing(thinking.get_str("content"@)),
                None => Seq::empty(),
            },
        },
    }
}

/// What the words of a choice are, one kind at a time.
#[verifier::ext_equal]
pub struct Words {
    pub answer: Seq<char>,
    pub reasoning: Seq<char>,
    pub refusal: Seq<char>,
}

impl Words {
    pub open spec fn none() -> Words {
        Words { answer: Seq::empty(), reasoning: Seq::empty(), refusal: Seq::empty() }
    }

    pub open spec fn then_those_of(self, choice: ChatChunkChoiceView) -> Words {
        Words {
            answer: self.answer + or_nothing(choice.delta.content),
            reasoning: self.reasoning + reasoning_in(choice.delta),
            refusal: self.refusal + or_nothing(choice.delta.refusal),
        }
    }

    /// These words and those of the first `count` choices.
    pub open spec fn then_all_of(self, choices: Seq<ChatChunkChoiceView>, count: int) -> Words
        decreases count,
    {
        if count <= 0 {
            self
        } else {
            self.then_all_of(choices, count - 1).then_those_of(choices[count - 1])
        }
    }
}

/// The words of the first `count` chunks.
pub open spec fn words_in(chunks: Seq<ChatCompletionChunkView>, count: int) -> Words
    decreases count,
{
    if count <= 0 {
        Words::none()
    } else {
        words_in(chunks, count - 1).then_all_of(
            chunks[count - 1].choices,
            chunks[count - 1].choices.len() as int,
        )
    }
}

/// The arguments that a delta adds to the call with the given index.
pub open spec fn piece_for(delta: CallDelta, index: usize) -> Seq<char> {
    if delta.index != index {
        Seq::empty()
    } else {
        match delta.arguments {
            None => Seq::empty(),
            Some(JsonView::Text(text)) => text,
            Some(value) => json_rendered(value),
        }
    }
}

/// A tool call of a chunk, which is one for the first call if it does not say which.
pub open spec fn as_delta(call: ChatToolCallView) -> CallDelta {
    CallDelta {
        index: match call.index {
            Some(index) => index,
            None => 0usize,
        },
        id: call.id,
        name: call.function.name,
        arguments: call.function.arguments,
    }
}

/// The arguments that the first `count` calls add to the call with the given index.
pub open spec fn pieces_for(calls: Seq<ChatToolCallView>, count: int, index: usize) -> Seq<char>
    decreases count,
{
    if count <= 0 {
        Seq::empty()
    } else {
        pieces_for(calls, count - 1, index) + piece_for(as_delta(calls[count - 1]), index)
    }
}

/// The arguments that a choice adds to the call with the given index.
pub open spec fn choice_pieces(choice: ChatChunkChoiceView, index: usize) -> Seq<char> {
    (match choice.delta.tool_calls {
        Some(calls) => pieces_for(calls, calls.len() as int, index),
        None => Seq::empty(),
    }) + (match choice.delta.function_call {
        Some(call) => piece_for(
            CallDelta { index: 0, id: None, name: call.name, arguments: call.arguments },
            index,
        ),
        None => Seq::empty(),
    })
}

/// The arguments that the first `count` choices add to the call with the given index.
pub open spec fn choices_pieces(
    choices: Seq<ChatChunkChoiceView>,
    count: int,
    index: usize,
) -> Seq<char>
    decreases count,
{
    if count <= 0 {
        Seq::empty()
    } else {
        choices_pieces(choices, count - 1, index) + choice_pieces(choices[count - 1], index)
    }
}

/// The arguments of the call with the given index in the first `count` chunks.
pub open spec fn arguments_in(
    chunks: Seq<ChatCompletionChunkView>,
    count: int,
    index: usize,
) -> Seq<char>
    decreases count,
{
    if count <= 0 {
        Seq::empty()
    } else {
        arguments_in(chunks, count - 1, index) + choices_pieces(
            chunks[count - 1].choices,
            chunks[count - 1].choices.len() as int,
            index,
        )
    }
}

// ---------------------------------------------------------------------------------------------
// Words
// ---------------------------------------------------------------------------------------------

/// What a stream has said so far.
spec fn said_in(emissions: Seq<StreamEmissionView>) -> Words {
    Words {
        answer: streamed_text(emissions),
        reasoning: streamed_reasoning(emissions),
        refusal: streamed_refusal(emissions),
    }
}

proof fn lemma_added(progress: Progress, added: Seq<StreamEmissionView>)
    requires
        added.len() <= 1,
        added.len() == 1 ==> added[0] is FunctionCallArgumentsDelta,
    ensures
        said_in(progress.emissions + added) == said_in(progress.emissions),
{
    if added.len() == 0 {
        assert(progress.emissions + added =~= progress.emissions);
    } else {
        lemma_emit(progress, added[0]);
        assert(progress.emissions + added =~= progress.emit(added[0]).emissions);
    }
}

proof fn lemma_calls_say_nothing(
    progress: Progress,
    calls: Seq<ChatToolCallView>,
    fresh: Seq<Seq<char>>,
    count: int,
)
    ensures
        said_in(progress.tool_calls(calls, fresh, count).emissions) == said_in(progress.emissions),
    decreases count,
{
    if count > 0 {
        lemma_calls_say_nothing(progress, calls, fresh, count - 1);
        let before = progress.tool_calls(calls, fresh, count - 1);
        lemma_call_says_nothing(before, delta_of(calls[count - 1]), fresh[count - 1]);
    }
}

proof fn lemma_call_says_nothing(progress: Progress, delta: CallDelta, fresh: Seq<char>)
    ensures
        said_in(progress.tool_call(delta, fresh).emissions) == said_in(progress.emissions),
{
    let (call, added) = call_after(call_at(progress.state.tool_calls, delta.index), delta, fresh);
    lemma_added(progress, added);
}

proof fn lemma_reasoning_says(progress: Progress, text: Seq<char>, fresh: Seq<char>)
    ensures
        said_in(progress.reasoning(text, fresh).emissions) == (Words {
            reasoning: streamed_reasoning(progress.emissions) + text,
            ..said_in(progress.emissions)
        }),
{
    let id = crate::ids::prefixed_id("rsn"@, fresh);
    let item = StreamEmissionView::ReasoningItemAdded(
        ResponseItemView::Reasoning {
            id,
            summary: Seq::empty(),
            content: Some(Seq::empty()),
            encrypted_content: None,
        },
    );
    let part = StreamEmissionView::ReasoningSummaryPartAdded;
    let delta = StreamEmissionView::ReasoningTextDelta(text);
    lemma_emit(progress, item);
    lemma_emit(progress, part);
    lemma_emit(progress, delta);
    lemma_emit(progress.emit(part), delta);
    lemma_emit(progress.emit(item), part);
    lemma_emit(progress.emit(item).emit(part), delta);
}

proof fn lemma_content_says(progress: Progress, text: Seq<char>, fresh: Seq<char>)
    ensures
        said_in(progress.content(text, fresh).emissions) == (Words {
            answer: streamed_text(progress.emissions) + text,
            ..said_in(progress.emissions)
        }),
{
    let id = crate::ids::prefixed_id("msg"@, fresh);
    let item = StreamEmissionView::OutputItemAdded(
        super::assistant_item(Some(id), Seq::empty()),
    );
    let part = StreamEmissionView::ContentPartAdded;
    let delta = StreamEmissionView::OutputTextDelta(text);
    lemma_emit(progress, item);
    lemma_emit(progress, part);
    lemma_emit(progress, delta);
    lemma_emit(progress.emit(part), delta);
    lemma_emit(progress.emit(item), part);
    lemma_emit(progress.emit(item).emit(part), delta);
}

proof fn lemma_choice_says(progress: Progress, choice: ChatChunkChoiceView, fresh: ChoiceIdsView)
    ensures
        said_in(progress.choice(choice, fresh).emissions) == said_in(
            progress.emissions,
        ).then_those_of(choice),
{
    lemma_choice_parts(progress, choice, fresh);
    lemma_said_says(progress, choice, fresh);
    let said = said(progress, choice, fresh);
    let called = match choice.delta.tool_calls {
        Some(calls) => {
            lemma_calls_say_nothing(said, calls, fresh.calls, calls.len() as int);
            said.tool_calls(calls, fresh.calls, calls.len() as int)
        },
        None => said,
    };
    if choice.delta.function_call is Some {
        lemma_call_says_nothing(called, old_form(choice), fresh.function_call);
    }
}

proof fn lemma_said_says(progress: Progress, choice: ChatChunkChoiceView, fresh: ChoiceIdsView)
    ensures
        said_in(said(progress, choice, fresh).emissions) == said_in(
            progress.emissions,
        ).then_those_of(choice),
{
    let none = Seq::<char>::empty();
    let delta = choice.delta;
    let before = said_in(progress.emissions);
    let reasoning = super::filled_text(delta.reasoning_delta());
    let reasoned = match reasoning {
        Some(text) => {
            lemma_reasoning_says(progress, text, fresh.reasoning);
            progress.reasoning(text, fresh.reasoning)
        },
        None => progress,
    };
    assert(said_in(reasoned.emissions).reasoning =~= before.reasoning + reasoning_in(delta));
    let signed = match super::filled_text(delta.reasoning_signature_delta()) {
        Some(signature) => {
            lemma_emit(reasoned, StreamEmissionView::ReasoningSignatureDelta(signature));
            reasoned.signature(signature)
        },
        None => reasoned,
    };
    assert(said_in(signed.emissions) == said_in(reasoned.emissions));
    let answered = match super::filled_text(delta.content) {
        Some(text) => {
            lemma_content_says(signed, text, fresh.message);
            signed.content(text, fresh.message)
        },
        None => signed,
    };
    assert(said_in(answered.emissions).answer =~= before.answer + or_nothing(delta.content));
    let refused = match super::filled_text(delta.refusal) {
        Some(text) => {
            lemma_emit(answered, StreamEmissionView::RefusalDelta(text));
            answered.refusal(text)
        },
        None => answered,
    };
    assert(said_in(refused.emissions).refusal =~= before.refusal + or_nothing(delta.refusal));
    assert(said(progress, choice, fresh).emissions == refused.emissions);
}

proof fn lemma_choices_say(
    progress: Progress,
    choices: Seq<ChatChunkChoiceView>,
    fresh: Seq<ChoiceIdsView>,
    count: int,
)
    ensures
        said_in(progress.choices(choices, fresh, count).emissions) == said_in(
            progress.emissions,
        ).then_all_of(choices, count),
    decreases count,
{
    if count > 0 {
        lemma_choices_say(progress, choices, fresh, count - 1);
        lemma_choice_says(
            progress.choices(choices, fresh, count - 1),
            choices[count - 1],
            fresh[count - 1],
        );
    }
}

/// Over any chunks the client is streamed exactly the answer, the reasoning and the refusal that the
/// chunks carry: nothing is lost, added, doubled or moved.
pub proof fn law_streamed_words_are_those_that_came_in(
    chunks: Seq<ChatCompletionChunkView>,
    fresh: Seq<Seq<ChoiceIdsView>>,
    count: int,
)
    ensures
        ({
            let all = streamed(chunks, fresh, count);
            &&& streamed_text(all.emissions) == words_in(chunks, count).answer
            &&& streamed_reasoning(all.emissions) == words_in(chunks, count).reasoning
            &&& streamed_refusal(all.emissions) == words_in(chunks, count).refusal
        }),
    decreases count,
{
    if count > 0 {
        law_streamed_words_are_those_that_came_in(chunks, fresh, count - 1);
        lemma_streamed_on(chunks, fresh, count);
        let choices = chunks[count - 1].choices;
        lemma_choices_say(
            streamed(chunks, fresh, count - 1),
            choices,
            fresh[count - 1],
            choices.len() as int,
        );
        assert(said_in(streamed(chunks, fresh, count - 1).emissions) == words_in(
            chunks,
            count - 1,
        ));
    }
}

/// Over any chunks the finished turn holds exactly the answer, the reasoning and the refusal that the
/// chunks carry, for the client and for the turns that follow.
pub proof fn law_finished_words_are_those_that_came_in(
    chunks: Seq<ChatCompletionChunkView>,
    fresh: Seq<Seq<ChoiceIdsView>>,
    count: int,
    registry: Map<Seq<char>, ToolKindView>,
    parsed: Seq<Result<JsonView, Seq<char>>>,
    ids: Seq<Seq<char>>,
)
    requires
        finished_turn(streamed(chunks, fresh, count).state, registry, parsed, ids) is Ok,
    ensures
        ({
            let turn = finished_turn(
                streamed(chunks, fresh, count).state,
                registry,
                parsed,
                ids,
            )->Ok_0;
            let words = words_in(chunks, count);
            &&& turn.message_item is Some <==> words.answer.len() > 0
            &&& turn.message_item matches Some(item) ==> {
                &&& item matches ResponseItemView::Message { id, role, content, phase }
                &&& role == "assistant"@
                &&& content == seq![
                    crate::models::responses::ContentItemView::OutputText { text: words.answer },
                ]
                &&& turn.internal_assistant_message matches Some(message)
                &&& message.content == Some(JsonView::Text(words.answer))
            }
            &&& turn.reasoning_item is Some <==> words.reasoning.len() > 0
            &&& turn.reasoning_item matches Some(item) ==> {
                &&& item matches ResponseItemView::Reasoning {
                    id,
                    summary,
                    content,
                    encrypted_content,
                }
                &&& content == Some(
                    seq![ReasoningContentItemView::ReasoningText { text: words.reasoning }],
                )
                &&& turn.internal_assistant_message matches Some(message)
                &&& message.reasoning_content == Some(words.reasoning)
            }
            &&& turn.refusal_text == words.refusal
            &&& turn.internal_assistant_message matches Some(message) ==> message.role
                == "assistant"@
        }),
{
    law_streamed_words_are_those_that_came_in(chunks, fresh, count);
    super::stream_laws::law_finished_turn_holds_what_was_streamed(
        chunks,
        fresh,
        count,
        registry,
        parsed,
        ids,
    );
    super::stream_laws::law_openings_come_once_and_first(chunks, fresh, count);
    lemma_streamed_keeps(chunks, fresh, count);
    let all = streamed(chunks, fresh, count);
    lemma_some_words(all.emissions);
    assert(all.state.output_text =~= words_in(chunks, count).answer);
    assert(all.state.reasoning_text =~= words_in(chunks, count).reasoning);
}

/// Something is said exactly if a delta says it.
proof fn lemma_some_words(emissions: Seq<StreamEmissionView>)
    requires
        super::stream_laws::all_say_something(emissions),
    ensures
        streamed_text(emissions).len() > 0 <==> exists|k: int|
            0 <= k < emissions.len() && (#[trigger] emissions[k]) is OutputTextDelta,
        streamed_reasoning(emissions).len() > 0 <==> exists|k: int|
            0 <= k < emissions.len() && (#[trigger] emissions[k]) is ReasoningTextDelta,
    decreases emissions.len(),
{
    if emissions.len() > 0 {
        let before = emissions.drop_last();
        let last = emissions.len() - 1;
        assert forall|k: int| 0 <= k < before.len() implies #[trigger] before[k] == emissions[k] by {}
        assert(super::stream_laws::all_say_something(before));
        lemma_some_words(before);
        assert(super::stream_laws::says_something(emissions[last]));
        if exists|k: int| 0 <= k < emissions.len() && (#[trigger] emissions[k]) is OutputTextDelta {
            let k = choose|k: int|
                0 <= k < emissions.len() && (#[trigger] emissions[k]) is OutputTextDelta;
            if k < last {
                assert(before[k] is OutputTextDelta);
            }
        }
        if exists|k: int|
            0 <= k < emissions.len() && (#[trigger] emissions[k]) is ReasoningTextDelta {
            let k = choose|k: int|
                0 <= k < emissions.len() && (#[trigger] emissions[k]) is ReasoningTextDelta;
            if k < last {
                assert(before[k] is ReasoningTextDelta);
            }
        }
        if exists|k: int| 0 <= k < before.len() && (#[trigger] before[k]) is OutputTextDelta {
            let k = choose|k: int|
                0 <= k < before.len() && (#[trigger] before[k]) is OutputTextDelta;
            assert(emissions[k] is OutputTextDelta);
        }
        if exists|k: int| 0 <= k < before.len() && (#[trigger] before[k]) is ReasoningTextDelta {
            let k = choose|k: int|
                0 <= k < before.len() && (#[trigger] before[k]) is ReasoningTextDelta;
            assert(emissions[k] is ReasoningTextDelta);
        }
    }
}

// ---------------------------------------------------------------------------------------------
// Arguments
// ---------------------------------------------------------------------------------------------

proof fn lemma_call_at_with(
    calls: Seq<(usize, ToolCallAccumulatorView)>,
    index: usize,
    call: ToolCallAccumulatorView,
    other: usize,
)
    requires
        calls_ascending(calls),
    ensures
        call_at(with_call(calls, index, call), other) == (if other == index {
            call
        } else {
            call_at(calls, other)
        }),
{
    let after = with_call(calls, index, call);
    lemma_with_call_entries(calls, index, call);
    lemma_call_place_bounds(calls, other);
    lemma_call_place_bounds(after, other);
    if other == index {
        lemma_call_at_entry(after, (index, call));
    } else if has_call(calls, other) {
        let entry = calls[call_place(calls, other)];
        assert(calls.contains(entry));
        lemma_call_at_entry(after, entry);
    } else if has_call(after, other) {
        let entry = after[call_place(after, other)];
        assert(after.contains(entry));
        lemma_call_at_entry(calls, entry);
    }
}

/// A delta adds its own arguments to its own call and nothing to any other; a name that it gives is
/// the name of the call from then on, and an id that it gives is the id of a call that had none.
pub proof fn law_delta_goes_to_its_call(
    progress: Progress,
    delta: CallDelta,
    fresh: Seq<char>,
    index: usize,
)
    requires
        calls_ascending(progress.state.tool_calls),
    ensures
        ({
            let before = call_at(progress.state.tool_calls, index);
            let after = call_at(progress.tool_call(delta, fresh).state.tool_calls, index);
            &&& after.arguments_text == before.arguments_text + piece_for(delta, index)
            &&& delta.index != index ==> after == before
            &&& delta.index == index && delta.name is Some ==> after.name == delta.name
            &&& delta.index == index && delta.name is None ==> after.name == before.name
            &&& before.id is Some ==> after.id == before.id
            &&& delta.index == index && before.id is None && delta.id is Some ==> after.id
                == delta.id
        }),
{
    let calls = progress.state.tool_calls;
    let (call, added) = call_after(call_at(calls, delta.index), delta, fresh);
    lemma_call_at_with(calls, delta.index, call, index);
    let before = call_at(calls, index);
    let after = call_at(progress.tool_call(delta, fresh).state.tool_calls, index);
    assert(after.arguments_text =~= before.arguments_text + piece_for(delta, index));
}

proof fn lemma_calls_arguments(
    progress: Progress,
    calls: Seq<ChatToolCallView>,
    fresh: Seq<Seq<char>>,
    count: int,
    index: usize,
)
    requires
        super::stream_laws::calls_match(progress),
        super::stream_laws::well_opened(progress),
    ensures
        call_at(progress.tool_calls(calls, fresh, count).state.tool_calls, index).arguments_text
            == call_at(progress.state.tool_calls, index).arguments_text + pieces_for(
            calls,
            count,
            index,
        ),
    decreases count,
{
    let start = call_at(progress.state.tool_calls, index).arguments_text;
    if count > 0 {
        lemma_calls_arguments(progress, calls, fresh, count - 1, index);
        lemma_tool_calls_match(progress, calls, fresh, count - 1);
        let before = progress.tool_calls(calls, fresh, count - 1);
        law_delta_goes_to_its_call(before, delta_of(calls[count - 1]), fresh[count - 1], index);
        assert(delta_of(calls[count - 1]) == as_delta(calls[count - 1]));
        assert(start + pieces_for(calls, count - 1, index) + piece_for(
            as_delta(calls[count - 1]),
            index,
        ) =~= start + pieces_for(calls, count, index));
    } else {
        assert(start + pieces_for(calls, count, index) =~= start);
    }
}

proof fn lemma_choice_arguments(
    progress: Progress,
    choice: ChatChunkChoiceView,
    fresh: ChoiceIdsView,
    index: usize,
)
    requires
        super::stream_laws::calls_match(progress),
        super::stream_laws::well_opened(progress),
    ensures
        call_at(progress.choice(choice, fresh).state.tool_calls, index).arguments_text == call_at(
            progress.state.tool_calls,
            index,
        ).arguments_text + choice_pieces(choice, index),
{
    lemma_choice_parts(progress, choice, fresh);
    lemma_said_well_opened(progress, choice, fresh);
    lemma_said_calls_match(progress, choice, fresh);
    let said = said(progress, choice, fresh);
    let start = call_at(progress.state.tool_calls, index).arguments_text;
    assert(said.state.tool_calls == progress.state.tool_calls);
    let streamed_pieces = match choice.delta.tool_calls {
        Some(calls) => pieces_for(calls, calls.len() as int, index),
        None => Seq::empty(),
    };
    let called = match choice.delta.tool_calls {
        Some(calls) => {
            lemma_calls_arguments(said, calls, fresh.calls, calls.len() as int, index);
            lemma_tool_calls_match(said, calls, fresh.calls, calls.len() as int);
            said.tool_calls(calls, fresh.calls, calls.len() as int)
        },
        None => said,
    };
    assert(call_at(called.state.tool_calls, index).arguments_text =~= start + streamed_pieces);
    if choice.delta.function_call is Some {
        law_delta_goes_to_its_call(called, old_form(choice), fresh.function_call, index);
    }
    assert(call_at(progress.choice(choice, fresh).state.tool_calls, index).arguments_text =~= start
        + choice_pieces(choice, index));
}

proof fn lemma_choices_arguments(
    progress: Progress,
    choices: Seq<ChatChunkChoiceView>,
    fresh: Seq<ChoiceIdsView>,
    count: int,
    index: usize,
)
    requires
        super::stream_laws::calls_match(progress),
        super::stream_laws::well_opened(progress),
    ensures
        call_at(progress.choices(choices, fresh, count).state.tool_calls, index).arguments_text
            == call_at(progress.state.tool_calls, index).arguments_text + choices_pieces(
            choices,
            count,
            index,
        ),
    decreases count,
{
    let start = call_at(progress.state.tool_calls, index).arguments_text;
    if count > 0 {
        lemma_choices_arguments(progress, choices, fresh, count - 1, index);
        lemma_choices_keep(progress, choices, fresh, count - 1);
        lemma_choice_arguments(
            progress.choices(choices, fresh, count - 1),
            choices[count - 1],
            fresh[count - 1],
            index,
        );
        assert(start + choices_pieces(choices, count - 1, index) + choice_pieces(
            choices[count - 1],
            index,
        ) =~= start + choices_pieces(choices, count, index));
    } else {
        assert(start + choices_pieces(choices, count, index) =~= start);
    }
}

/// Over any chunks each call has exactly the arguments that the chunks carry for its index, in their
/// order.
pub proof fn law_gathered_arguments_are_those_that_came_in(
    chunks: Seq<ChatCompletionChunkView>,
    fresh: Seq<Seq<ChoiceIdsView>>,
    count: int,
    index: usize,
)
    ensures
        call_at(streamed(chunks, fresh, count).state.tool_calls, index).arguments_text
            == arguments_in(chunks, count, index),
    decreases count,
{
    if count > 0 {
        law_gathered_arguments_are_those_that_came_in(chunks, fresh, count - 1, index);
        lemma_streamed_keeps(chunks, fresh, count - 1);
        lemma_streamed_on(chunks, fresh, count);
        let choices = chunks[count - 1].choices;
        lemma_choices_arguments(
            streamed(chunks, fresh, count - 1),
            choices,
            fresh[count - 1],
            choices.len() as int,
            index,
        );
    }
}

// ---------------------------------------------------------------------------------------------
// Calls of a finished turn
// ---------------------------------------------------------------------------------------------

/// The value that the arguments of a call stand for: what their JSON says, or the empty object where
/// there are none.
pub open spec fn meant_by(arguments: Seq<char>) -> JsonView {
    if trimmed(arguments).len() == 0 {
        JsonView::Object(Map::empty())
    } else {
        json_parsed(argument_payload(arguments))->Ok_0
    }
}

/// Whether the client is told of a call of the given kind as it was made: under its id and the name
/// that the client knows the tool by, with the value that its arguments stand for.
pub open spec fn tells_call(
    item: ResponseItemView,
    kind: ToolKindView,
    id: Seq<char>,
    value: JsonView,
) -> bool {
    match kind {
        ToolKindView::Function { public_name, namespace } => {
            &&& item matches ResponseItemView::FunctionCall {
                id: item_id,
                name,
                namespace: told,
                arguments,
                call_id,
            }
            &&& name == public_name
            &&& told == namespace
            &&& arguments == json_rendered(value)
            &&& call_id == id
        },
        ToolKindView::Custom { public_name } => {
            &&& item matches ResponseItemView::CustomToolCall { status, call_id, name, input }
            &&& name == public_name
            &&& call_id == id
            &&& match value.get_str("input"@) {
                Some(text) => input == text,
                None => input == json_rendered(value),
            }
        },
        ToolKindView::LocalShell => {
            &&& item matches ResponseItemView::LocalShellCall {
                id: item_id,
                call_id,
                status,
                action,
            }
            &&& call_id == Some(id)
            &&& status == "completed"@
            &&& action matches LocalShellActionView::Exec(command)
            &&& shell_action(value) == Ok::<LocalShellExecActionView, Seq<char>>(command)
        },
        ToolKindView::ToolSearch => {
            &&& item matches ResponseItemView::ToolSearchCall {
                call_id,
                status,
                execution,
                arguments,
            }
            &&& call_id == Some(id)
            &&& execution == "client"@
            &&& arguments == value
        },
        ToolKindView::WebSearch => {
            &&& item matches ResponseItemView::WebSearchCall { id: call_id, status, action }
            &&& call_id == Some(id)
            &&& status == Some("completed"@)
            &&& action == Some(
                WebSearchActionView::Search { query: value.get_str("query"@), queries: None },
            )
        },
        ToolKindView::ImageAnalysis => {
            &&& item matches ResponseItemView::FunctionCall {
                id: item_id,
                name,
                namespace,
                arguments,
                call_id,
            }
            &&& name == ANALYZE_IMAGE_TOOL_NAME@
            &&& arguments == json_rendered(value)
            &&& call_id == id
        },
    }
}

/// Over any chunks every call of the finished turn is told to the client, and kept for the turns that
/// follow, with the value that the arguments in the chunks stand for, under the id and the name that
/// it was streamed with.
pub proof fn law_finished_calls_say_what_came_in(
    chunks: Seq<ChatCompletionChunkView>,
    fresh: Seq<Seq<ChoiceIdsView>>,
    count: int,
    registry: Map<Seq<char>, ToolKindView>,
    ids: Seq<Seq<char>>,
    at: int,
)
    requires
        ({
            let state = streamed(chunks, fresh, count).state;
            &&& finished_turn(state, registry, parsed_arguments(state.tool_calls), ids) is Ok
            &&& 0 <= at < state.tool_calls.len()
        }),
    ensures
        ({
            let state = streamed(chunks, fresh, count).state;
            let turn = finished_turn(
                state,
                registry,
                parsed_arguments(state.tool_calls),
                ids,
            )->Ok_0;
            let (index, call) = state.tool_calls[at];
            let told = turn.tool_calls[at];
            let value = meant_by(arguments_in(chunks, count, index));
            &&& turn.tool_calls.len() == state.tool_calls.len()
            &&& call.name matches Some(name)
            &&& registry.dom().contains(lowered(name))
            &&& told.internal_call.id matches Some(id)
            &&& call.id is Some ==> call.id == Some(id)
            &&& told.internal_call.function.name == Some(name)
            &&& told.internal_call.function.arguments == Some(value)
            &&& told.internal_call.kind == "function"@
            &&& told.arguments == value
            &&& told.kind == registry[lowered(name)]
            &&& tells_call(told.public_item, registry[lowered(name)], id, value)
            &&& turn.internal_assistant_message matches Some(message)
            &&& message.tool_calls matches Some(kept)
            &&& kept.len() == state.tool_calls.len()
            &&& kept[at] == told.internal_call
        }),
{
    let state = streamed(chunks, fresh, count).state;
    let calls = state.tool_calls;
    let parsed = parsed_arguments(calls);
    let (index, call) = calls[at];
    lemma_streamed_keeps(chunks, fresh, count);
    assert(calls.contains(calls[at]));
    lemma_call_at_entry(calls, calls[at]);
    law_gathered_arguments_are_those_that_came_in(chunks, fresh, count, index);
    lemma_resolved_each(calls, registry, parsed, ids, calls.len() as int);
    let turn = finished_turn(state, registry, parsed, ids)->Ok_0;
    assert(resolved_call(call, registry, parsed[at], ids[at]) == Ok::<
        ResolvedToolCallView,
        AppErrorView,
    >(turn.tool_calls[at]));
    assert(parsed[at] == json_parsed(argument_payload(call.arguments_text)));
}

/// A turn that cannot be served is refused: one with a call that has no name, or calls a tool that
/// was not offered, or has arguments that say nothing.
pub proof fn law_faulty_turns_are_refused(
    state: StreamStateView,
    registry: Map<Seq<char>, ToolKindView>,
    ids: Seq<Seq<char>>,
    at: int,
)
    requires
        0 <= at < state.tool_calls.len(),
        ({
            let call = state.tool_calls[at].1;
            ||| call.name is None
            ||| call.name is Some && !registry.dom().contains(lowered(call.name->0))
            ||| trimmed(call.arguments_text).len() > 0 && json_parsed(
                argument_payload(call.arguments_text),
            ) is Err
        }),
    ensures
        finished_turn(state, registry, parsed_arguments(state.tool_calls), ids) matches Err(error)
            && error.kind == AppErrorKind::Upstream,
{
    let calls = state.tool_calls;
    let parsed = parsed_arguments(calls);
    lemma_refused(calls, registry, parsed, ids, calls.len() as int, at);
}

proof fn lemma_refused(
    calls: Seq<(usize, ToolCallAccumulatorView)>,
    registry: Map<Seq<char>, ToolKindView>,
    parsed: Seq<Result<JsonView, Seq<char>>>,
    ids: Seq<Seq<char>>,
    count: int,
    at: int,
)
    requires
        0 <= at < count <= calls.len(),
        resolved_call(calls[at].1, registry, parsed[at], ids[at]) is Err,
    ensures
        resolved_calls(calls, registry, parsed, ids, count) matches Err(error) && error.kind
            == AppErrorKind::Upstream,
    decreases count,
{
    if at < count - 1 {
        lemma_refused(calls, registry, parsed, ids, count - 1, at);
    } else {
        lemma_upstream_errors(calls, registry, parsed, ids, count - 1);
    }
}

proof fn lemma_upstream_errors(
    calls: Seq<(usize, ToolCallAccumulatorView)>,
    registry: Map<Seq<char>, ToolKindView>,
    parsed: Seq<Result<JsonView, Seq<char>>>,
    ids: Seq<Seq<char>>,
    count: int,
)
    ensures
        resolved_calls(calls, registry, parsed, ids, count) matches Err(error) ==> error.kind
            == AppErrorKind::Upstream,
    decreases count,
{
    if count > 0 {
        lemma_upstream_errors(calls, registry, parsed, ids, count - 1);
    }
}

// ---------------------------------------------------------------------------------------------
// Ends
// ---------------------------------------------------------------------------------------------

/// A turn ends for the last reason that the chunks give, and with the last stop string that they
/// name.
pub proof fn law_choice_says_why_it_ends(
    progress: Progress,
    choice: ChatChunkChoiceView,
    fresh: ChoiceIdsView,
)
    requires
        choice.delta.tool_calls is None,
        choice.delta.function_call is None,
    ensures
        ({
            let after = progress.choice(choice, fresh).state;
            &&& choice.finish_reason is Some ==> after.finish_reason == choice.finish_reason
            &&& choice.finish_reason is None ==> after.finish_reason
                == progress.state.finish_reason
            &&& choice.stop_reason matches Some(JsonView::Text(stop)) ==> stop.len() > 0
                ==> after.stop_sequence == Some(stop)
            &&& !(choice.stop_reason matches Some(JsonView::Text(stop)) && stop.len() > 0)
                ==> after.stop_sequence == progress.state.stop_sequence
            &&& after.tool_calls == progress.state.tool_calls
        }),
{
}

/// A signature that comes behind reasoning signs it, for the client and in the finished turn.
pub proof fn law_signatures_are_kept(
    progress: Progress,
    choice: ChatChunkChoiceView,
    fresh: ChoiceIdsView,
    signature: Seq<char>,
    thinking: JsonView,
)
    requires
        choice.delta.tool_calls is None,
        choice.delta.function_call is None,
        choice.delta.content is None,
        choice.delta.refusal is None,
        JsonView::Object(choice.delta.extra).get("thinking"@) == Some(thinking),
        thinking.get_str("signature"@) == Some(signature),
        signature.len() > 0,
        progress.state.reasoning_id is Some || reasoning_in(choice.delta).len() > 0,
    ensures
        ({
            let after = progress.choice(choice, fresh);
            &&& after.emissions.last() == StreamEmissionView::ReasoningSignatureDelta(signature)
            &&& super::reasoning_item(after.state) matches Some(item)
            &&& item matches ResponseItemView::Reasoning { id, summary, content, encrypted_content }
            &&& encrypted_content == Some(signature)
        }),
{
}

/// What a turn ends with is what its finish says.
pub proof fn law_finished_turn_says_why_it_ended(
    state: StreamStateView,
    registry: Map<Seq<char>, ToolKindView>,
    parsed: Seq<Result<JsonView, Seq<char>>>,
    ids: Seq<Seq<char>>,
)
    requires
        finished_turn(state, registry, parsed, ids) is Ok,
    ensures
        ({
            let turn = finished_turn(state, registry, parsed, ids)->Ok_0;
            &&& turn.finish_reason == state.finish_reason
            &&& turn.stop_sequence == state.stop_sequence
            &&& turn.content_part_emitted == state.content_part_emitted
            &&& turn.reasoning_part_emitted == state.reasoning_part_emitted
            &&& turn.internal_assistant_message is None <==> turn.message_item is None
                && turn.reasoning_item is None && turn.tool_calls.len() == 0
            &&& turn.internal_assistant_message matches Some(message) ==> {
                &&& message.tool_call_id is None
                &&& turn.message_item is None ==> message.content is None
                &&& turn.reasoning_item is None ==> message.reasoning_content is None
                &&& state.reasoning_id is Some && state.reasoning_signature is Some ==> (
                message.thinking matches Some(thinking) && thinking.content == state.reasoning_text
                    && thinking.signature == state.reasoning_signature)
                &&& turn.tool_calls.len() == 0 ==> message.tool_calls is None
            }
        }),
{
}

} // verus!
