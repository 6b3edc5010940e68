//! What holds of a turn over all of its chunks.
use vstd::prelude::*;

use crate::error::AppErrorView;
use crate::ids::prefixed_id;
use crate::json::JsonView;
use crate::models::chat::{ChatChunkChoiceView, ChatCompletionChunkView, ChatToolCallView};
use crate::models::responses::ResponseItemView;
use crate::models::shell_call::shell_action;
use crate::text::{lowered, trimmed};

use super::super::responses_to_chat::tools::ToolKindView;
use super::{
    accounts_for, assistant_item, call_after, call_at, call_place, calls_ascending, chunk_applied,
    delta_of, filled_text, finished_turn, has_call, lemma_call_place_bounds, lemma_choices_account,
    lemma_resolved_each, lemma_with_call_ascending, new_state, reasoning_item, resolved_call,
    resolved_calls, streamed_reasoning, streamed_refusal, streamed_text, with_call, CallDelta,
    ChoiceIdsView, Progress, ResolvedToolCallView, StreamEmissionView, StreamStateView,
    ToolCallAccumulatorView,
};

verus! {

// ---------------------------------------------------------------------------------------------
// Whole streams
// ---------------------------------------------------------------------------------------------

/// A turn after its first `count` chunks, and everything that they added to the stream. `fresh` are
/// the ids that each chunk was taken in with.
pub open spec fn streamed(
    chunks: Seq<ChatCompletionChunkView>,
    fresh: Seq<Seq<ChoiceIdsView>>,
    count: int,
) -> Progress
    decreases count,
{
    if count <= 0 {
        Progress { state: new_state(), emissions: Seq::empty() }
    } else {
        let before = streamed(chunks, fresh, count - 1);
        let step = chunk_applied(before.state, chunks[count - 1], fresh[count - 1]);
        Progress { state: step.state, emissions: before.emissions + step.emissions }
    }
}

impl Progress {
    /// The same turn, with something added to the stream before.
    spec fn behind(self, earlier: Seq<StreamEmissionView>) -> Progress {
        Progress { emissions: earlier + self.emissions, ..self }
    }
}

proof fn lemma_reasoning_behind(
    progress: Progress,
    earlier: Seq<StreamEmissionView>,
    text: Seq<char>,
    fresh: Seq<char>,
)
    ensures
        progress.behind(earlier).reasoning(text, fresh) == progress.reasoning(text, fresh).behind(
            earlier,
        ),
{
    assert(progress.behind(earlier).reasoning(text, fresh).emissions =~= progress.reasoning(
        text,
        fresh,
    ).behind(earlier).emissions);
}

proof fn lemma_content_behind(
    progress: Progress,
    earlier: Seq<StreamEmissionView>,
    text: Seq<char>,
    fresh: Seq<char>,
)
    ensures
        progress.behind(earlier).content(text, fresh) == progress.content(text, fresh).behind(
            earlier,
        ),
{
    assert(progress.behind(earlier).content(text, fresh).emissions =~= progress.content(
        text,
        fresh,
    ).behind(earlier).emissions);
}

proof fn lemma_tool_call_behind(
    progress: Progress,
    earlier: Seq<StreamEmissionView>,
    delta: CallDelta,
    fresh: Seq<char>,
)
    ensures
        progress.behind(earlier).tool_call(delta, fresh) == progress.tool_call(delta, fresh).behind(
            earlier,
        ),
{
    assert(progress.behind(earlier).tool_call(delta, fresh).emissions =~= progress.tool_call(
        delta,
        fresh,
    ).behind(earlier).emissions);
}

proof fn lemma_tool_calls_behind(
    progress: Progress,
    earlier: Seq<StreamEmissionView>,
    calls: Seq<ChatToolCallView>,
    fresh: Seq<Seq<char>>,
    count: int,
)
    ensures
        progress.behind(earlier).tool_calls(calls, fresh, count) == progress.tool_calls(
            calls,
            fresh,
            count,
        ).behind(earlier),
    decreases count,
{
    if count > 0 {
        lemma_tool_calls_behind(progress, earlier, calls, fresh, count - 1);
        lemma_tool_call_behind(
            progress.tool_calls(calls, fresh, count - 1),
            earlier,
            delta_of(calls[count - 1]),
            fresh[count - 1],
        );
    }
}

/// A turn after what a choice says apart from its tool calls.
pub(super) open spec fn said(progress: Progress, choice: ChatChunkChoiceView, fresh: ChoiceIdsView) -> Progress {
    progress.choice(
        ChatChunkChoiceView {
            delta: crate::models::chat::ChatDeltaView {
                tool_calls: None,
                function_call: None,
                ..choice.delta
            },
            ..choice
        },
        fresh,
    )
}

/// The delta for a call in the old form.
pub(super) open spec fn old_form(choice: ChatChunkChoiceView) -> CallDelta {
    let call = choice.delta.function_call->0;
    CallDelta { index: 0, id: None, name: call.name, arguments: call.arguments }
}

/// A choice says something, and then it calls tools.
pub(super) proof fn lemma_choice_parts(progress: Progress, choice: ChatChunkChoiceView, fresh: ChoiceIdsView)
    ensures
        progress.choice(choice, fresh) == ({
            let said = said(progress, choice, fresh);
            let called = match choice.delta.tool_calls {
                Some(calls) => said.tool_calls(calls, fresh.calls, calls.len() as int),
                None => said,
            };
            match choice.delta.function_call {
                Some(call) => called.tool_call(old_form(choice), fresh.function_call),
                None => called,
            }
        }),
{
}

proof fn lemma_said_behind(
    progress: Progress,
    earlier: Seq<StreamEmissionView>,
    choice: ChatChunkChoiceView,
    fresh: ChoiceIdsView,
)
    ensures
        said(progress.behind(earlier), choice, fresh) == said(progress, choice, fresh).behind(
            earlier,
        ),
{
    let reasoned = match filled_text(choice.delta.reasoning_delta()) {
        Some(text) => {
            lemma_reasoning_behind(progress, earlier, text, fresh.reasoning);
            progress.reasoning(text, fresh.reasoning)
        },
        None => progress,
    };
    let signed = match filled_text(choice.delta.reasoning_signature_delta()) {
        Some(signature) => {
            assert(reasoned.behind(earlier).signature(signature).emissions
                =~= reasoned.signature(signature).behind(earlier).emissions);
            reasoned.signature(signature)
        },
        None => reasoned,
    };
    let answered = match filled_text(choice.delta.content) {
        Some(text) => {
            lemma_content_behind(signed, earlier, text, fresh.message);
            signed.content(text, fresh.message)
        },
        None => signed,
    };
    if let Some(text) = filled_text(choice.delta.refusal) {
        assert(answered.behind(earlier).refusal(text).emissions =~= answered.refusal(text).behind(
            earlier,
        ).emissions);
    }
}

proof fn lemma_choice_behind(
    progress: Progress,
    earlier: Seq<StreamEmissionView>,
    choice: ChatChunkChoiceView,
    fresh: ChoiceIdsView,
)
    ensures
        progress.behind(earlier).choice(choice, fresh) == progress.choice(choice, fresh).behind(
            earlier,
        ),
{
    lemma_choice_parts(progress, choice, fresh);
    lemma_choice_parts(progress.behind(earlier), choice, fresh);
    lemma_said_behind(progress, earlier, choice, fresh);
    let said = said(progress, choice, fresh);
    let called = match choice.delta.tool_calls {
        Some(calls) => {
            lemma_tool_calls_behind(said, earlier, calls, fresh.calls, calls.len() as int);
            said.tool_calls(calls, fresh.calls, calls.len() as int)
        },
        None => said,
    };
    if choice.delta.function_call is Some {
        lemma_tool_call_behind(called, earlier, old_form(choice), fresh.function_call);
    }
}

proof fn lemma_choices_behind(
    progress: Progress,
    earlier: Seq<StreamEmissionView>,
    choices: Seq<ChatChunkChoiceView>,
    fresh: Seq<ChoiceIdsView>,
    count: int,
)
    ensures
        progress.behind(earlier).choices(choices, fresh, count) == progress.choices(
            choices,
            fresh,
            count,
        ).behind(earlier),
    decreases count,
{
    if count > 0 {
        lemma_choices_behind(progress, earlier, choices, fresh, count - 1);
        lemma_choice_behind(
            progress.choices(choices, fresh, count - 1),
            earlier,
            choices[count - 1],
            fresh[count - 1],
        );
    }
}

/// A whole stream goes on from where it stood, choice by choice.
pub(super) proof fn lemma_streamed_on(
    chunks: Seq<ChatCompletionChunkView>,
    fresh: Seq<Seq<ChoiceIdsView>>,
    count: int,
)
    requires
        count > 0,
    ensures
        streamed(chunks, fresh, count) == streamed(chunks, fresh, count - 1).choices(
            chunks[count - 1].choices,
            fresh[count - 1],
            chunks[count - 1].choices.len() as int,
        ),
{
    let before = streamed(chunks, fresh, count - 1);
    let start = Progress { state: before.state, emissions: Seq::empty() };
    let choices = chunks[count - 1].choices;
    assert(start.behind(before.emissions).emissions =~= before.emissions);
    lemma_choices_behind(
        start,
        before.emissions,
        choices,
        fresh[count - 1],
        choices.len() as int,
    );
}

// ---------------------------------------------------------------------------------------------
// Openings
// ---------------------------------------------------------------------------------------------

/// Nothing of an answer is in the stream.
pub open spec fn answer_absent(emissions: Seq<StreamEmissionView>) -> bool {
    forall|k: int|
        0 <= k < emissions.len() ==> !((#[trigger] emissions[k]) is OutputItemAdded)
            && !(emissions[k] is ContentPartAdded) && !(emissions[k] is OutputTextDelta)
}

/// The answer with the given id is announced at `at`, its part right behind, its first text right
/// behind that, and neither is announced anywhere else.
pub open spec fn answer_opened(emissions: Seq<StreamEmissionView>, at: int, id: Seq<char>) -> bool {
    &&& 0 <= at
    &&& at + 2 < emissions.len()
    &&& emissions[at] == StreamEmissionView::OutputItemAdded(assistant_item(Some(id), Seq::empty()))
    &&& emissions[at + 1] is ContentPartAdded
    &&& emissions[at + 2] is OutputTextDelta
    &&& forall|k: int|
        0 <= k < emissions.len() ==> {
            &&& (#[trigger] emissions[k]) is OutputItemAdded ==> k == at
            &&& emissions[k] is ContentPartAdded ==> k == at + 1
            &&& emissions[k] is OutputTextDelta ==> k >= at + 2
        }
}

/// The item that announces reasoning.
pub open spec fn begun_reasoning(id: Seq<char>) -> ResponseItemView {
    ResponseItemView::Reasoning {
        id,
        summary: Seq::empty(),
        content: Some(Seq::empty()),
        encrypted_content: None,
    }
}

/// Nothing of reasoning is in the stream.
pub open spec fn reasoning_absent(emissions: Seq<StreamEmissionView>) -> bool {
    forall|k: int|
        0 <= k < emissions.len() ==> !((#[trigger] emissions[k]) is ReasoningItemAdded)
            && !(emissions[k] is ReasoningSummaryPartAdded) && !(
        emissions[k] is ReasoningTextDelta)
}

/// The reasoning with the given id is announced at `at`, its part right behind, its first text right
/// behind that, and neither is announced anywhere else.
pub open spec fn reasoning_opened(
    emissions: Seq<StreamEmissionView>,
    at: int,
    id: Seq<char>,
) -> bool {
    &&& 0 <= at
    &&& at + 2 < emissions.len()
    &&& emissions[at] == StreamEmissionView::ReasoningItemAdded(begun_reasoning(id))
    &&& emissions[at + 1] is ReasoningSummaryPartAdded
    &&& emissions[at + 2] is ReasoningTextDelta
    &&& forall|k: int|
        0 <= k < emissions.len() ==> {
            &&& (#[trigger] emissions[k]) is ReasoningItemAdded ==> k == at
            &&& emissions[k] is ReasoningSummaryPartAdded ==> k == at + 1
            &&& emissions[k] is ReasoningTextDelta ==> k >= at + 2
        }
}

/// Whether something is no delta, or one that says something.
pub open spec fn says_something(emission: StreamEmissionView) -> bool {
    match emission {
        StreamEmissionView::OutputTextDelta(text) => text.len() > 0,
        StreamEmissionView::ReasoningTextDelta(text) => text.len() > 0,
        StreamEmissionView::ReasoningSignatureDelta(text) => text.len() > 0,
        StreamEmissionView::RefusalDelta(text) => text.len() > 0,
        StreamEmissionView::FunctionCallArgumentsDelta { call_id, name, delta } => delta.len() > 0,
        _ => true,
    }
}

/// Whether the stream opens the answer with the given id as [`answer_opened`] says, or has nothing
/// of an answer where there is no id.
pub open spec fn answer_kept(emissions: Seq<StreamEmissionView>, id: Option<Seq<char>>) -> bool {
    &&& id is None ==> answer_absent(emissions)
    &&& id is Some ==> exists|at: int| #[trigger] answer_opened(emissions, at, id->0)
}

/// The same of reasoning.
pub open spec fn reasoning_kept(emissions: Seq<StreamEmissionView>, id: Option<Seq<char>>) -> bool {
    &&& id is None ==> reasoning_absent(emissions)
    &&& id is Some ==> exists|at: int| #[trigger] reasoning_opened(emissions, at, id->0)
}

/// Whether no delta is empty.
pub open spec fn all_say_something(emissions: Seq<StreamEmissionView>) -> bool {
    forall|k: int| 0 <= k < emissions.len() ==> says_something(#[trigger] emissions[k])
}

/// Whether the stream opens what the turn has begun, each once and right before its first text, and
/// has no empty delta.
#[verifier::opaque]
pub(super) open spec fn well_opened(progress: Progress) -> bool {
    let state = progress.state;
    &&& answer_kept(progress.emissions, state.message_id)
    &&& state.message_id is Some ==> state.content_part_emitted
    &&& reasoning_kept(progress.emissions, state.reasoning_id)
    &&& state.reasoning_id is Some ==> state.reasoning_part_emitted
    &&& all_say_something(progress.emissions)
}

/// Whether something neither opens nor belongs to an answer.
spec fn beside_answer(emission: StreamEmissionView) -> bool {
    !(emission is OutputItemAdded) && !(emission is ContentPartAdded) && !(
    emission is OutputTextDelta)
}

/// Whether something neither opens nor belongs to reasoning.
spec fn beside_reasoning(emission: StreamEmissionView) -> bool {
    !(emission is ReasoningItemAdded) && !(emission is ReasoningSummaryPartAdded) && !(
    emission is ReasoningTextDelta)
}

proof fn lemma_answer_is_kept(emissions: Seq<StreamEmissionView>, at: int, id: Seq<char>)
    requires
        answer_opened(emissions, at, id),
    ensures
        answer_kept(emissions, Some(id)),
{
    let some = Some(id);
    assert(some->0 == id);
    assert(answer_opened(emissions, at, some->0));
    assert(exists|at: int| #[trigger] answer_opened(emissions, at, some->0));
    assert(answer_kept(emissions, some));
}

proof fn lemma_reasoning_is_kept(emissions: Seq<StreamEmissionView>, at: int, id: Seq<char>)
    requires
        reasoning_opened(emissions, at, id),
    ensures
        reasoning_kept(emissions, Some(id)),
{
    let some = Some(id);
    assert(some->0 == id);
    assert(reasoning_opened(emissions, at, some->0));
    assert(exists|at: int| #[trigger] reasoning_opened(emissions, at, some->0));
    assert(reasoning_kept(emissions, some));
}

proof fn lemma_answer_pushed(
    emissions: Seq<StreamEmissionView>,
    emission: StreamEmissionView,
    id: Option<Seq<char>>,
)
    requires
        beside_answer(emission) || (emission is OutputTextDelta && id is Some),
        answer_kept(emissions, id),
    ensures
        answer_kept(emissions.push(emission), id),
{
    let after = emissions.push(emission);
    match id {
        None => {
            assert forall|k: int| 0 <= k < after.len() implies !((#[trigger] after[k]) is OutputItemAdded)
                && !(after[k] is ContentPartAdded) && !(after[k] is OutputTextDelta) by {
                if k < emissions.len() {
                    assert(after[k] == emissions[k]);
                }
            }
        },
        Some(id) => {
            let at = choose|at: int| #[trigger] answer_opened(emissions, at, id);
            assert(after[at] == emissions[at]);
            assert(after[at + 1] == emissions[at + 1]);
            assert(after[at + 2] == emissions[at + 2]);
            assert forall|k: int| 0 <= k < after.len() implies {
                &&& (#[trigger] after[k]) is OutputItemAdded ==> k == at
                &&& after[k] is ContentPartAdded ==> k == at + 1
                &&& after[k] is OutputTextDelta ==> k >= at + 2
            } by {
                if k < emissions.len() {
                    assert(after[k] == emissions[k]);
                }
            }
            assert(answer_opened(after, at, id));
        },
    }
}

proof fn lemma_reasoning_pushed(
    emissions: Seq<StreamEmissionView>,
    emission: StreamEmissionView,
    id: Option<Seq<char>>,
)
    requires
        beside_reasoning(emission) || (emission is ReasoningTextDelta && id is Some),
        reasoning_kept(emissions, id),
    ensures
        reasoning_kept(emissions.push(emission), id),
{
    let after = emissions.push(emission);
    match id {
        None => {
            assert forall|k: int| 0 <= k < after.len() implies !(
            (#[trigger] after[k]) is ReasoningItemAdded) && !(
            after[k] is ReasoningSummaryPartAdded) && !(after[k] is ReasoningTextDelta) by {
                if k < emissions.len() {
                    assert(after[k] == emissions[k]);
                }
            }
        },
        Some(id) => {
            let at = choose|at: int| #[trigger] reasoning_opened(emissions, at, id);
            assert(after[at] == emissions[at]);
            assert(after[at + 1] == emissions[at + 1]);
            assert(after[at + 2] == emissions[at + 2]);
            assert forall|k: int| 0 <= k < after.len() implies {
                &&& (#[trigger] after[k]) is ReasoningItemAdded ==> k == at
                &&& after[k] is ReasoningSummaryPartAdded ==> k == at + 1
                &&& after[k] is ReasoningTextDelta ==> k >= at + 2
            } by {
                if k < emissions.len() {
                    assert(after[k] == emissions[k]);
                }
            }
            assert(reasoning_opened(after, at, id));
        },
    }
}

/// Something that opens nothing goes to the end of a well opened stream.
proof fn lemma_pushed(before: Progress, after: Progress, emission: StreamEmissionView)
    requires
        well_opened(before),
        after.emissions == before.emissions.push(emission),
        after.state.message_id == before.state.message_id,
        after.state.reasoning_id == before.state.reasoning_id,
        after.state.content_part_emitted == before.state.content_part_emitted,
        after.state.reasoning_part_emitted == before.state.reasoning_part_emitted,
        beside_answer(emission) || (emission is OutputTextDelta && before.state.message_id is Some),
        beside_reasoning(emission) || (emission is ReasoningTextDelta
            && before.state.reasoning_id is Some),
        says_something(emission),
    ensures
        well_opened(after),
{
    reveal(well_opened);
    lemma_answer_pushed(before.emissions, emission, before.state.message_id);
    lemma_reasoning_pushed(before.emissions, emission, before.state.reasoning_id);
    assert forall|k: int| 0 <= k < after.emissions.len() implies says_something(
        #[trigger] after.emissions[k],
    ) by {
        if k < before.emissions.len() {
            assert(after.emissions[k] == before.emissions[k]);
        }
    }
}

/// Where nothing is added and nothing is begun, a stream stays well opened.
proof fn lemma_same_openings(before: Progress, after: Progress)
    requires
        well_opened(before),
        after.emissions == before.emissions,
        after.state.message_id == before.state.message_id,
        after.state.reasoning_id == before.state.reasoning_id,
        after.state.content_part_emitted == before.state.content_part_emitted,
        after.state.reasoning_part_emitted == before.state.reasoning_part_emitted,
    ensures
        well_opened(after),
{
    reveal(well_opened);
}

proof fn lemma_content_well_opened(progress: Progress, text: Seq<char>, fresh: Seq<char>)
    requires
        well_opened(progress),
        text.len() > 0,
    ensures
        well_opened(progress.content(text, fresh)),
{
    reveal(well_opened);
    let after = progress.content(text, fresh);
    let delta = StreamEmissionView::OutputTextDelta(text);
    if progress.state.message_id is Some {
        assert(after.emissions =~= progress.emissions.push(delta));
        lemma_pushed(progress, after, delta);
    } else {
        let id = prefixed_id("msg"@, fresh);
        let item = StreamEmissionView::OutputItemAdded(assistant_item(Some(id), Seq::empty()));
        let part = StreamEmissionView::ContentPartAdded;
        let e0 = progress.emissions;
        let e1 = e0.push(item);
        let e2 = e1.push(part);
        let e3 = e2.push(delta);
        assert(after.emissions =~= e3);
        lemma_reasoning_pushed(e0, item, progress.state.reasoning_id);
        lemma_reasoning_pushed(e1, part, progress.state.reasoning_id);
        lemma_reasoning_pushed(e2, delta, progress.state.reasoning_id);
        let at = e0.len() as int;
        assert forall|k: int| 0 <= k < e3.len() implies {
            &&& (#[trigger] e3[k]) is OutputItemAdded ==> k == at
            &&& e3[k] is ContentPartAdded ==> k == at + 1
            &&& e3[k] is OutputTextDelta ==> k >= at + 2
            &&& says_something(e3[k])
        } by {
            if k < e0.len() {
                assert(e3[k] == e0[k]);
            }
        }
        assert(answer_opened(e3, at, id));
        lemma_answer_is_kept(e3, at, id);
        assert(after.state.message_id == Some(id));
        assert(after.state.content_part_emitted);
        assert(after.state.reasoning_id == progress.state.reasoning_id);
        assert(after.state.reasoning_part_emitted == progress.state.reasoning_part_emitted);
        assert(after.emissions == e3);
        assert(all_say_something(e3));
    }
}

proof fn lemma_reasoning_well_opened(progress: Progress, text: Seq<char>, fresh: Seq<char>)
    requires
        well_opened(progress),
        text.len() > 0,
    ensures
        well_opened(progress.reasoning(text, fresh)),
{
    reveal(well_opened);
    let after = progress.reasoning(text, fresh);
    let delta = StreamEmissionView::ReasoningTextDelta(text);
    if progress.state.reasoning_id is Some {
        assert(after.emissions =~= progress.emissions.push(delta));
        lemma_pushed(progress, after, delta);
    } else {
        let id = prefixed_id("rsn"@, fresh);
        let item = StreamEmissionView::ReasoningItemAdded(begun_reasoning(id));
        let part = StreamEmissionView::ReasoningSummaryPartAdded;
        let e0 = progress.emissions;
        let e1 = e0.push(item);
        let e2 = e1.push(part);
        let e3 = e2.push(delta);
        assert(after.emissions =~= e3);
        lemma_answer_pushed(e0, item, progress.state.message_id);
        lemma_answer_pushed(e1, part, progress.state.message_id);
        lemma_answer_pushed(e2, delta, progress.state.message_id);
        let at = e0.len() as int;
        assert forall|k: int| 0 <= k < e3.len() implies {
            &&& (#[trigger] e3[k]) is ReasoningItemAdded ==> k == at
            &&& e3[k] is ReasoningSummaryPartAdded ==> k == at + 1
            &&& e3[k] is ReasoningTextDelta ==> k >= at + 2
            &&& says_something(e3[k])
        } by {
            if k < e0.len() {
                assert(e3[k] == e0[k]);
            }
        }
        assert(reasoning_opened(e3, at, id));
        lemma_reasoning_is_kept(e3, at, id);
        assert(after.state.reasoning_id == Some(id));
        assert(after.state.reasoning_part_emitted);
        assert(after.state.message_id == progress.state.message_id);
        assert(after.state.content_part_emitted == progress.state.content_part_emitted);
        assert(after.emissions == e3);
        assert(all_say_something(e3));
    }
}

pub(super) proof fn lemma_said_well_opened(
    progress: Progress,
    choice: ChatChunkChoiceView,
    fresh: ChoiceIdsView,
)
    requires
        well_opened(progress),
    ensures
        well_opened(said(progress, choice, fresh)),
{
    let reasoned = match filled_text(choice.delta.reasoning_delta()) {
        Some(text) => {
            lemma_reasoning_well_opened(progress, text, fresh.reasoning);
            progress.reasoning(text, fresh.reasoning)
        },
        None => progress,
    };
    let signed = match filled_text(choice.delta.reasoning_signature_delta()) {
        Some(signature) => {
            if reasoned.state.reasoning_id is Some {
                lemma_pushed(
                    reasoned,
                    reasoned.signature(signature),
                    StreamEmissionView::ReasoningSignatureDelta(signature),
                );
            }
            reasoned.signature(signature)
        },
        None => reasoned,
    };
    let answered = match filled_text(choice.delta.content) {
        Some(text) => {
            lemma_content_well_opened(signed, text, fresh.message);
            signed.content(text, fresh.message)
        },
        None => signed,
    };
    let refused = match filled_text(choice.delta.refusal) {
        Some(text) => {
            lemma_pushed(answered, answered.refusal(text), StreamEmissionView::RefusalDelta(text));
            answered.refusal(text)
        },
        None => answered,
    };
    lemma_same_openings(refused, said(progress, choice, fresh));
}

proof fn lemma_tool_call_well_opened(progress: Progress, delta: CallDelta, fresh: Seq<char>)
    requires
        well_opened(progress),
    ensures
        well_opened(progress.tool_call(delta, fresh)),
{
    reveal(well_opened);
    let (call, added) = call_after(call_at(progress.state.tool_calls, delta.index), delta, fresh);
    let after = progress.tool_call(delta, fresh);
    if added.len() == 0 {
        assert(after.emissions =~= progress.emissions);
        lemma_same_openings(progress, after);
    } else {
        assert(after.emissions =~= progress.emissions.push(added[0]));
        lemma_pushed(progress, after, added[0]);
    }
}

// ---------------------------------------------------------------------------------------------
// Tool calls
// ---------------------------------------------------------------------------------------------

/// Whether there is a call with the given id.
pub open spec fn has_id(calls: Seq<(usize, ToolCallAccumulatorView)>, id: Seq<char>) -> bool {
    exists|j: int| 0 <= j < calls.len() && (#[trigger] calls[j]).1.id == Some(id)
}

/// Whether arguments of the call with the given id are in the stream.
pub open spec fn is_streamed(emissions: Seq<StreamEmissionView>, id: Seq<char>) -> bool {
    exists|k: int|
        0 <= k < emissions.len() && ((#[trigger] emissions[k]) matches
            StreamEmissionView::FunctionCallArgumentsDelta { call_id, name, delta }
            && call_id == id)
}

/// The arguments that have been streamed under the given id.
pub open spec fn streamed_call_arguments(
    emissions: Seq<StreamEmissionView>,
    id: Seq<char>,
) -> Seq<char>
    decreases emissions.len(),
{
    if emissions.len() == 0 {
        Seq::empty()
    } else {
        let before = streamed_call_arguments(emissions.drop_last(), id);
        match emissions.last() {
            StreamEmissionView::FunctionCallArgumentsDelta { call_id, name, delta } => if call_id
                == id {
                before + delta
            } else {
                before
            },
            _ => before,
        }
    }
}

/// Whether no two calls share an id.
pub open spec fn distinct_ids(calls: Seq<(usize, ToolCallAccumulatorView)>) -> bool {
    forall|i: int, j: int|
        0 <= i < j < calls.len() && (#[trigger] calls[i]).1.id is Some ==> calls[i].1.id != (
        #[trigger] calls[j]).1.id
}

/// Whether every call with an id holds what was streamed under it.
pub open spec fn arguments_match(progress: Progress) -> bool {
    let calls = progress.state.tool_calls;
    forall|j: int|
        0 <= j < calls.len() && (#[trigger] calls[j]).1.id is Some ==> calls[j].1.arguments_text
            == streamed_call_arguments(progress.emissions, calls[j].1.id->0)
}

/// Whether the calls are in the order of their indices, every streamed delta of arguments carries
/// the id of a call, and every call that has arguments has an id under which they were streamed.
pub open spec fn calls_match(progress: Progress) -> bool {
    let calls = progress.state.tool_calls;
    &&& calls_ascending(calls)
    &&& forall|k: int|
        0 <= k < progress.emissions.len() ==> ((#[trigger] progress.emissions[k]) matches
            StreamEmissionView::FunctionCallArgumentsDelta { call_id, name, delta } ==> has_id(
            calls,
            call_id,
        ))
    &&& forall|j: int|
        0 <= j < calls.len() && (#[trigger] calls[j]).1.arguments_text.len() > 0 ==> calls[j].1.id
            is Some && is_streamed(progress.emissions, calls[j].1.id->0)
    &&& distinct_ids(calls) ==> arguments_match(progress)
}

/// What is no delta of arguments adds nothing to any call.
proof fn lemma_arguments_beside(
    before: Seq<StreamEmissionView>,
    after: Seq<StreamEmissionView>,
    id: Seq<char>,
)
    requires
        before.len() <= after.len(),
        forall|k: int| 0 <= k < before.len() ==> #[trigger] after[k] == before[k],
        forall|k: int|
            before.len() <= k < after.len() ==> !((#[trigger] after[k]) is
            FunctionCallArgumentsDelta),
    ensures
        streamed_call_arguments(after, id) == streamed_call_arguments(before, id),
    decreases after.len(),
{
    if after.len() == before.len() {
        assert(after =~= before);
    } else {
        assert(after.last() == after[after.len() - 1]);
        lemma_arguments_beside(before, after.drop_last(), id);
    }
}

/// Under an id that no call has, nothing was streamed.
proof fn lemma_nothing_streamed(
    emissions: Seq<StreamEmissionView>,
    calls: Seq<(usize, ToolCallAccumulatorView)>,
    id: Seq<char>,
)
    requires
        !has_id(calls, id),
        forall|k: int|
            0 <= k < emissions.len() ==> ((#[trigger] emissions[k]) matches
                StreamEmissionView::FunctionCallArgumentsDelta { call_id, name, delta } ==> has_id(
                calls,
                call_id,
            )),
    ensures
        streamed_call_arguments(emissions, id) == Seq::<char>::empty(),
    decreases emissions.len(),
{
    if emissions.len() > 0 {
        let before = emissions.drop_last();
        assert forall|k: int| 0 <= k < before.len() implies ((#[trigger] before[k]) matches
            StreamEmissionView::FunctionCallArgumentsDelta { call_id, name, delta } ==> has_id(
            calls,
            call_id,
        )) by {
            assert(before[k] == emissions[k]);
        }
        lemma_nothing_streamed(before, calls, id);
        assert(emissions.last() == emissions[emissions.len() - 1]);
    }
}

/// Something that is no delta of arguments changes nothing about the calls.
proof fn lemma_calls_match_beside(before: Progress, after: Progress)
    requires
        calls_match(before),
        after.state.tool_calls == before.state.tool_calls,
        before.emissions.len() <= after.emissions.len(),
        forall|k: int|
            0 <= k < before.emissions.len() ==> #[trigger] after.emissions[k]
                == before.emissions[k],
        forall|k: int|
            before.emissions.len() <= k < after.emissions.len() ==> !(
            (#[trigger] after.emissions[k]) is FunctionCallArgumentsDelta),
    ensures
        calls_match(after),
{
    let calls = after.state.tool_calls;
    assert forall|j: int|
        0 <= j < calls.len() && (#[trigger] calls[j]).1.arguments_text.len() > 0 implies calls[j].1.id
        is Some && is_streamed(after.emissions, calls[j].1.id->0) by {
        let id = calls[j].1.id->0;
        assert(is_streamed(before.emissions, id));
        let k = choose|k: int|
            0 <= k < before.emissions.len() && ((#[trigger] before.emissions[k]) matches
                StreamEmissionView::FunctionCallArgumentsDelta { call_id, name, delta }
                && call_id == id);
        assert(after.emissions[k] == before.emissions[k]);
    }
    if distinct_ids(calls) {
        assert forall|j: int| 0 <= j < calls.len() && (#[trigger] calls[j]).1.id is Some implies
            calls[j].1.arguments_text == streamed_call_arguments(
            after.emissions,
            calls[j].1.id->0,
        ) by {
            lemma_arguments_beside(before.emissions, after.emissions, calls[j].1.id->0);
        }
    }
}

/// Where no two calls share an id after a delta, none did before, and every call holds what was
/// streamed under its id.
proof fn lemma_tool_call_arguments(progress: Progress, delta: CallDelta, fresh: Seq<char>)
    requires
        calls_match(progress),
        distinct_ids(progress.tool_call(delta, fresh).state.tool_calls),
    ensures
        arguments_match(progress.tool_call(delta, fresh)),
{
    let calls = progress.state.tool_calls;
    let old_call = call_at(calls, delta.index);
    let (call, added) = call_after(old_call, delta, fresh);
    let after = progress.tool_call(delta, fresh);
    let now = after.state.tool_calls;
    let place = call_place(calls, delta.index);
    lemma_call_place_bounds(calls, delta.index);
    lemma_with_call_ascending(calls, delta.index, call);
    let known = has_call(calls, delta.index);
    assert(now[place] == (delta.index, call));
    assert forall|i: int| 0 <= i < calls.len() && !(known && i == place) implies (#[trigger] calls[i])
        == now[if known || i < place {
        i
    } else {
        i + 1
    }] by {}
    assert(distinct_ids(calls)) by {
        assert forall|i: int, j: int|
            0 <= i < j < calls.len() && (#[trigger] calls[i]).1.id is Some implies calls[i].1.id
            != (#[trigger] calls[j]).1.id by {
            let to = |k: int|
                if known || k < place {
                    k
                } else {
                    k + 1
                };
            assert(now[to(i)].1.id == calls[i].1.id);
            assert(calls[j].1.id is Some ==> now[to(j)].1.id == calls[j].1.id);
        }
    }
    assert(arguments_match(progress));
    if call.id is Some && old_call.id is None {
        assert(!has_id(calls, call.id->0)) by {
            if has_id(calls, call.id->0) {
                let i = choose|i: int|
                    0 <= i < calls.len() && (#[trigger] calls[i]).1.id == Some(call.id->0);
                let j = if known || i < place {
                    i
                } else {
                    i + 1
                };
                assert(now[j].1.id == now[place].1.id);
                assert(j != place);
            }
        }
        lemma_nothing_streamed(progress.emissions, calls, call.id->0);
        assert(old_call.arguments_text.len() == 0) by {
            if known {
                assert(calls[place].1 == old_call);
            }
        }
    }
    assert forall|j: int| 0 <= j < now.len() && (#[trigger] now[j]).1.id is Some implies
        now[j].1.arguments_text == streamed_call_arguments(after.emissions, now[j].1.id->0) by {
        let id = now[j].1.id->0;
        if added.len() == 0 {
            assert(after.emissions =~= progress.emissions);
        } else {
            assert(after.emissions =~= progress.emissions.push(added[0]));
            assert(after.emissions.drop_last() =~= progress.emissions);
        }
        if j == place {
            if known {
                assert(calls[place].1 == old_call);
            }
            if old_call.id is Some {
                assert(old_call.arguments_text == streamed_call_arguments(
                    progress.emissions,
                    id,
                ));
            } else {
                assert(old_call.arguments_text =~= Seq::<char>::empty());
            }
            assert(call.arguments_text =~= old_call.arguments_text + (if added.len() > 0 {
                added[0]->delta
            } else {
                Seq::empty()
            }));
            assert(now[j].1.arguments_text =~= streamed_call_arguments(after.emissions, id));
        } else {
            let i = if known || j < place {
                j
            } else {
                j - 1
            };
            assert(calls[i] == now[j]);
            if added.len() > 0 {
                assert(now[place].1.id != now[j].1.id);
            }
        }
    }
}

pub(super) proof fn lemma_said_calls_match(
    progress: Progress,
    choice: ChatChunkChoiceView,
    fresh: ChoiceIdsView,
)
    requires
        calls_match(progress),
    ensures
        calls_match(said(progress, choice, fresh)),
{
    let reasoned = match filled_text(choice.delta.reasoning_delta()) {
        Some(text) => progress.reasoning(text, fresh.reasoning),
        None => progress,
    };
    lemma_calls_match_beside(progress, reasoned);
    let signed = match filled_text(choice.delta.reasoning_signature_delta()) {
        Some(signature) => reasoned.signature(signature),
        None => reasoned,
    };
    lemma_calls_match_beside(reasoned, signed);
    let answered = match filled_text(choice.delta.content) {
        Some(text) => signed.content(text, fresh.message),
        None => signed,
    };
    lemma_calls_match_beside(signed, answered);
    let refused = match filled_text(choice.delta.refusal) {
        Some(text) => answered.refusal(text),
        None => answered,
    };
    lemma_calls_match_beside(answered, refused);
    lemma_calls_match_beside(refused, said(progress, choice, fresh));
}

/// Putting a call under an index replaces what was under that index and keeps everything else.
pub(super) proof fn lemma_with_call_entries(
    calls: Seq<(usize, ToolCallAccumulatorView)>,
    index: usize,
    call: ToolCallAccumulatorView,
)
    requires
        calls_ascending(calls),
    ensures
        ({
            let after = with_call(calls, index, call);
            &&& calls_ascending(after)
            &&& after.contains((index, call))
            &&& forall|entry: (usize, ToolCallAccumulatorView)| #[trigger]
                after.contains(entry) ==> entry == (index, call) || (calls.contains(entry)
                    && entry.0 != index)
            &&& forall|entry: (usize, ToolCallAccumulatorView)| #[trigger]
                calls.contains(entry) && entry.0 != index ==> after.contains(entry)
        }),
{
    lemma_with_call_ascending(calls, index, call);
    lemma_call_place_bounds(calls, index);
    let place = call_place(calls, index);
    let after = with_call(calls, index, call);
    assert(after[place] == (index, call));
    assert forall|entry: (usize, ToolCallAccumulatorView)| #[trigger]
        after.contains(entry) implies entry == (index, call) || (calls.contains(entry) && entry.0
        != index) by {
        let j = choose|j: int| 0 <= j < after.len() && after[j] == entry;
        if j != place {
            let i = if has_call(calls, index) || j < place {
                j
            } else {
                j - 1
            };
            assert(calls[i] == entry);
            if entry.0 == index {
                assert(after[place].0 == after[j].0);
            }
        }
    }
    assert forall|entry: (usize, ToolCallAccumulatorView)| #[trigger]
        calls.contains(entry) && entry.0 != index implies after.contains(entry) by {
        let i = choose|i: int| 0 <= i < calls.len() && calls[i] == entry;
        let j = if has_call(calls, index) || i < place {
            i
        } else {
            i + 1
        };
        assert(after[j] == entry);
    }
}

/// The call under an index is the entry with that index.
pub(super) proof fn lemma_call_at_entry(
    calls: Seq<(usize, ToolCallAccumulatorView)>,
    entry: (usize, ToolCallAccumulatorView),
)
    requires
        calls_ascending(calls),
        calls.contains(entry),
    ensures
        has_call(calls, entry.0),
        call_at(calls, entry.0) == entry.1,
{
    lemma_call_place_bounds(calls, entry.0);
    let place = call_place(calls, entry.0);
    let i = choose|i: int| 0 <= i < calls.len() && calls[i] == entry;
    assert(place <= i);
    if place < i {
        assert(calls[place].0 < calls[i].0);
    }
}

pub(super) proof fn lemma_tool_call_matches(progress: Progress, delta: CallDelta, fresh: Seq<char>)
    requires
        calls_match(progress),
    ensures
        calls_match(progress.tool_call(delta, fresh)),
        forall|index: usize|
            call_at(progress.state.tool_calls, index).id is Some ==> (#[trigger] call_at(
                progress.tool_call(delta, fresh).state.tool_calls,
                index,
            )).id == call_at(progress.state.tool_calls, index).id,
{
    let calls = progress.state.tool_calls;
    let old_call = call_at(calls, delta.index);
    let (call, added) = call_after(old_call, delta, fresh);
    let after = progress.tool_call(delta, fresh);
    let now = after.state.tool_calls;
    let entry = (delta.index, call);
    lemma_with_call_entries(calls, delta.index, call);
    lemma_call_at_entry(now, entry);
    assert forall|k: int| 0 <= k < progress.emissions.len() implies #[trigger] after.emissions[k]
        == progress.emissions[k] by {}
    assert forall|id: Seq<char>| #[trigger] has_id(calls, id) implies has_id(now, id) by {
        let j = choose|j: int| 0 <= j < calls.len() && (#[trigger] calls[j]).1.id == Some(id);
        assert(calls.contains(calls[j]));
        if calls[j].0 == delta.index {
            lemma_call_at_entry(calls, calls[j]);
            let i = choose|i: int| 0 <= i < now.len() && now[i] == entry;
            assert(now[i].1.id == Some(id));
        } else {
            let i = choose|i: int| 0 <= i < now.len() && now[i] == calls[j];
            assert(now[i].1.id == Some(id));
        }
    }
    assert forall|k: int| 0 <= k < after.emissions.len() implies ((
    #[trigger] after.emissions[k]) matches StreamEmissionView::FunctionCallArgumentsDelta {
        call_id,
        name,
        delta: text,
    } ==> has_id(now, call_id)) by {
        if k < progress.emissions.len() {
            assert(after.emissions[k] == progress.emissions[k]);
        } else {
            assert(after.emissions[k] == added[0]);
            let i = choose|i: int| 0 <= i < now.len() && now[i] == entry;
            assert(now[i].1.id is Some);
        }
    }
    assert forall|j: int|
        0 <= j < now.len() && (#[trigger] now[j]).1.arguments_text.len() > 0 implies now[j].1.id
        is Some && is_streamed(after.emissions, now[j].1.id->0) by {
        assert(now.contains(now[j]));
        if now[j] == entry && added.len() > 0 {
            let last = after.emissions.len() - 1;
            assert(after.emissions[last] == added[0]);
        } else {
            let known = if now[j] == entry {
                (delta.index, old_call)
            } else {
                now[j]
            };
            if now[j] == entry {
                assert(call.arguments_text =~= old_call.arguments_text);
                assert(has_call(calls, delta.index));
                lemma_call_place_bounds(calls, delta.index);
                assert(calls[call_place(calls, delta.index)] == known);
            }
            assert(calls.contains(known));
            let i = choose|i: int| 0 <= i < calls.len() && calls[i] == known;
            assert(calls[i].1.arguments_text.len() > 0);
            let id = calls[i].1.id->0;
            assert(is_streamed(progress.emissions, id));
            let k = choose|k: int|
                0 <= k < progress.emissions.len() && ((#[trigger] progress.emissions[k]) matches
                    StreamEmissionView::FunctionCallArgumentsDelta { call_id, name, delta: text }
                    && call_id == id);
            assert(after.emissions[k] == progress.emissions[k]);
            assert(now[j].1.id == Some(id));
        }
    }
    if distinct_ids(now) {
        lemma_tool_call_arguments(progress, delta, fresh);
    }
    assert forall|index: usize| call_at(calls, index).id is Some implies (#[trigger] call_at(
        now,
        index,
    )).id == call_at(calls, index).id by {
        if index != delta.index {
            lemma_call_place_bounds(calls, index);
            let kept = calls[call_place(calls, index)];
            assert(calls.contains(kept));
            lemma_call_at_entry(now, kept);
        }
    }
}

pub(super) proof fn lemma_tool_calls_match(
    progress: Progress,
    calls: Seq<ChatToolCallView>,
    fresh: Seq<Seq<char>>,
    count: int,
)
    requires
        calls_match(progress),
        well_opened(progress),
    ensures
        calls_match(progress.tool_calls(calls, fresh, count)),
        well_opened(progress.tool_calls(calls, fresh, count)),
        forall|index: usize|
            call_at(progress.state.tool_calls, index).id is Some ==> (#[trigger] call_at(
                progress.tool_calls(calls, fresh, count).state.tool_calls,
                index,
            )).id == call_at(progress.state.tool_calls, index).id,
    decreases count,
{
    if count > 0 {
        lemma_tool_calls_match(progress, calls, fresh, count - 1);
        let before = progress.tool_calls(calls, fresh, count - 1);
        lemma_tool_call_matches(before, delta_of(calls[count - 1]), fresh[count - 1]);
        lemma_tool_call_well_opened(before, delta_of(calls[count - 1]), fresh[count - 1]);
        assert forall|index: usize|
            call_at(progress.state.tool_calls, index).id is Some implies (#[trigger] call_at(
            progress.tool_calls(calls, fresh, count).state.tool_calls,
            index,
        )).id == call_at(progress.state.tool_calls, index).id by {
            assert(call_at(before.state.tool_calls, index).id is Some);
        }
    }
}

pub(super) proof fn lemma_choice_keeps(progress: Progress, choice: ChatChunkChoiceView, fresh: ChoiceIdsView)
    requires
        calls_match(progress),
        well_opened(progress),
    ensures
        calls_match(progress.choice(choice, fresh)),
        well_opened(progress.choice(choice, fresh)),
        forall|index: usize|
            call_at(progress.state.tool_calls, index).id is Some ==> (#[trigger] call_at(
                progress.choice(choice, fresh).state.tool_calls,
                index,
            )).id == call_at(progress.state.tool_calls, index).id,
{
    lemma_choice_parts(progress, choice, fresh);
    lemma_said_well_opened(progress, choice, fresh);
    lemma_said_calls_match(progress, choice, fresh);
    let said = said(progress, choice, fresh);
    assert(said.state.tool_calls == progress.state.tool_calls);
    let called = match choice.delta.tool_calls {
        Some(calls) => {
            lemma_tool_calls_match(said, calls, fresh.calls, calls.len() as int);
            said.tool_calls(calls, fresh.calls, calls.len() as int)
        },
        None => said,
    };
    if choice.delta.function_call is Some {
        lemma_tool_call_matches(called, old_form(choice), fresh.function_call);
        lemma_tool_call_well_opened(called, old_form(choice), fresh.function_call);
        assert forall|index: usize|
            call_at(progress.state.tool_calls, index).id is Some implies (#[trigger] call_at(
            progress.choice(choice, fresh).state.tool_calls,
            index,
        )).id == call_at(progress.state.tool_calls, index).id by {
            assert(call_at(called.state.tool_calls, index).id is Some);
        }
    }
}

pub(super) proof fn lemma_choices_keep(
    progress: Progress,
    choices: Seq<ChatChunkChoiceView>,
    fresh: Seq<ChoiceIdsView>,
    count: int,
)
    requires
        calls_match(progress),
        well_opened(progress),
    ensures
        calls_match(progress.choices(choices, fresh, count)),
        well_opened(progress.choices(choices, fresh, count)),
        forall|index: usize|
            call_at(progress.state.tool_calls, index).id is Some ==> (#[trigger] call_at(
                progress.choices(choices, fresh, count).state.tool_calls,
                index,
            )).id == call_at(progress.state.tool_calls, index).id,
    decreases count,
{
    if count > 0 {
        lemma_choices_keep(progress, choices, fresh, count - 1);
        let before = progress.choices(choices, fresh, count - 1);
        lemma_choice_keeps(before, choices[count - 1], fresh[count - 1]);
        assert forall|index: usize|
            call_at(progress.state.tool_calls, index).id is Some implies (#[trigger] call_at(
            progress.choices(choices, fresh, count).state.tool_calls,
            index,
        )).id == call_at(progress.state.tool_calls, index).id by {
            assert(call_at(before.state.tool_calls, index).id is Some);
        }
    }
}

pub(super) proof fn lemma_streamed_keeps(
    chunks: Seq<ChatCompletionChunkView>,
    fresh: Seq<Seq<ChoiceIdsView>>,
    count: int,
)
    ensures
        calls_match(streamed(chunks, fresh, count)),
        well_opened(streamed(chunks, fresh, count)),
        accounts_for(streamed(chunks, fresh, count), new_state()),
    decreases count,
{
    if count > 0 {
        lemma_streamed_keeps(chunks, fresh, count - 1);
        lemma_streamed_on(chunks, fresh, count);
        let before = streamed(chunks, fresh, count - 1);
        let choices = chunks[count - 1].choices;
        lemma_choices_keep(before, choices, fresh[count - 1], choices.len() as int);
        lemma_choices_account(
            before,
            new_state(),
            choices,
            fresh[count - 1],
            choices.len() as int,
        );
    } else {
        reveal(well_opened);
        let start = streamed(chunks, fresh, count);
        assert(new_state().output_text =~= new_state().output_text + streamed_text(
            start.emissions,
        ));
        assert(new_state().reasoning_text =~= new_state().reasoning_text + streamed_reasoning(
            start.emissions,
        ));
        assert(new_state().refusal_text =~= new_state().refusal_text + streamed_refusal(
            start.emissions,
        ));
    }
}

// ---------------------------------------------------------------------------------------------
// Laws
// ---------------------------------------------------------------------------------------------

/// Over any chunks the stream announces an answer at most once, then its part, then its first text,
/// one right behind the other, and nothing of an answer before; the same goes for reasoning. No
/// delta is empty.
pub proof fn law_openings_come_once_and_first(
    chunks: Seq<ChatCompletionChunkView>,
    fresh: Seq<Seq<ChoiceIdsView>>,
    count: int,
)
    ensures
        ({
            let all = streamed(chunks, fresh, count);
            &&& answer_kept(all.emissions, all.state.message_id)
            &&& reasoning_kept(all.emissions, all.state.reasoning_id)
            &&& all_say_something(all.emissions)
        }),
{
    reveal(well_opened);
    lemma_streamed_keeps(chunks, fresh, count);
}

/// Over any chunks a turn that ends holds exactly what was streamed: an answer if and only if text
/// of one was streamed, made of all those texts under the id that was announced, and the same of
/// reasoning; and the refusal made of all its pieces.
pub proof fn law_finished_turn_holds_what_was_streamed(
    chunks: Seq<ChatCompletionChunkView>,
    fresh: Seq<Seq<ChoiceIdsView>>,
    count: int,
    registry: Map<Seq<char>, ToolKindView>,
    parsed: Seq<Result<JsonView, Seq<char>>>,
    ids: Seq<Seq<char>>,
)
    requires
        finished_turn(streamed(chunks, fresh, count).state, registry, parsed, ids) is Ok,
    ensures
        ({
            let all = streamed(chunks, fresh, count);
            let turn = finished_turn(all.state, registry, parsed, ids)->Ok_0;
            &&& turn.message_item is Some <==> exists|k: int|
                0 <= k < all.emissions.len() && (#[trigger] all.emissions[k]) is OutputTextDelta
            &&& turn.message_item is Some ==> exists|at: int, id: Seq<char>|
                #[trigger] answer_opened(all.emissions, at, id) && turn.message_item == Some(
                    assistant_item(Some(id), streamed_text(all.emissions)),
                )
            &&& turn.reasoning_item is Some <==> exists|k: int|
                0 <= k < all.emissions.len() && (#[trigger] all.emissions[k]) is ReasoningTextDelta
            &&& turn.reasoning_item is Some ==> exists|at: int, id: Seq<char>|
                #[trigger] reasoning_opened(all.emissions, at, id) && turn.reasoning_item
                    == reasoning_item(
                    StreamStateView {
                        reasoning_id: Some(id),
                        reasoning_text: streamed_reasoning(all.emissions),
                        ..all.state
                    },
                )
            &&& turn.refusal_text == streamed_refusal(all.emissions)
        }),
{
    reveal(well_opened);
    lemma_streamed_keeps(chunks, fresh, count);
    let all = streamed(chunks, fresh, count);
    assert(all.state.output_text =~= streamed_text(all.emissions));
    assert(all.state.reasoning_text =~= streamed_reasoning(all.emissions));
    assert(all.state.refusal_text =~= streamed_refusal(all.emissions));
    if let Some(id) = all.state.message_id {
        let at = choose|at: int| #[trigger] answer_opened(all.emissions, at, id);
        assert(all.emissions[at + 2] is OutputTextDelta);
    }
    if let Some(id) = all.state.reasoning_id {
        let at = choose|at: int| #[trigger] reasoning_opened(all.emissions, at, id);
        assert(all.emissions[at + 2] is ReasoningTextDelta);
    }
}

/// Whether a call cannot be served: it has no name, its tool is not known, its arguments are no
/// JSON, or they do not fit the shell.
pub open spec fn call_fails(
    call: ToolCallAccumulatorView,
    registry: Map<Seq<char>, ToolKindView>,
    parsed: Result<JsonView, Seq<char>>,
) -> bool {
    let arguments = if trimmed(call.arguments_text).len() == 0 {
        JsonView::Object(Map::empty())
    } else {
        parsed->Ok_0
    };
    ||| call.name is None
    ||| !registry.dom().contains(lowered(call.name->0))
    ||| trimmed(call.arguments_text).len() > 0 && parsed is Err
    ||| registry[lowered(call.name->0)] is LocalShell && shell_action(arguments) is Err
}

proof fn lemma_call_fails(
    call: ToolCallAccumulatorView,
    registry: Map<Seq<char>, ToolKindView>,
    parsed: Result<JsonView, Seq<char>>,
    fresh: Seq<char>,
)
    ensures
        resolved_call(call, registry, parsed, fresh) is Err <==> call_fails(call, registry, parsed),
{
}

proof fn lemma_some_call_fails(
    calls: Seq<(usize, ToolCallAccumulatorView)>,
    registry: Map<Seq<char>, ToolKindView>,
    parsed: Seq<Result<JsonView, Seq<char>>>,
    fresh: Seq<Seq<char>>,
    count: int,
)
    requires
        0 <= count <= calls.len(),
    ensures
        resolved_calls(calls, registry, parsed, fresh, count) is Err <==> exists|k: int|
            0 <= k < count && call_fails((#[trigger] calls[k]).1, registry, parsed[k]),
    decreases count,
{
    if count > 0 {
        lemma_some_call_fails(calls, registry, parsed, fresh, count - 1);
        let last = calls[count - 1].1;
        lemma_call_fails(last, registry, parsed[count - 1], fresh[count - 1]);
        if resolved_calls(calls, registry, parsed, fresh, count) is Err {
            if resolved_calls(calls, registry, parsed, fresh, count - 1) is Ok {
                assert(call_fails(calls[count - 1].1, registry, parsed[count - 1]));
            }
        }
    }
}

/// Over any chunks the end of a turn fails exactly if one of its calls cannot be served. Else it has
/// one call for each index of the turn, in the order of the indices, each under the id that it was
/// streamed with; every delta of arguments carried the id of one of these calls, and a call that has
/// arguments has an id under which some were streamed. Where no two calls share an id, each has
/// exactly the arguments that were streamed under its own.
pub proof fn law_streamed_calls_are_served(
    chunks: Seq<ChatCompletionChunkView>,
    fresh: Seq<Seq<ChoiceIdsView>>,
    count: int,
    registry: Map<Seq<char>, ToolKindView>,
    parsed: Seq<Result<JsonView, Seq<char>>>,
    ids: Seq<Seq<char>>,
)
    ensures
        ({
            let all = streamed(chunks, fresh, count);
            let calls = all.state.tool_calls;
            let end = finished_turn(all.state, registry, parsed, ids);
            &&& end is Err <==> exists|k: int|
                0 <= k < calls.len() && call_fails((#[trigger] calls[k]).1, registry, parsed[k])
            &&& calls_ascending(calls)
            &&& end matches Ok(turn) ==> {
                &&& turn.tool_calls.len() == calls.len()
                &&& forall|k: int|
                    0 <= k < calls.len() ==> (#[trigger] turn.tool_calls[k]).internal_call.id
                        == Some(
                        match calls[k].1.id {
                            Some(id) => id,
                            None => prefixed_id("call"@, ids[k]),
                        },
                    )
            }
            &&& forall|k: int|
                0 <= k < all.emissions.len() ==> ((#[trigger] all.emissions[k]) matches
                    StreamEmissionView::FunctionCallArgumentsDelta { call_id, name, delta }
                    ==> has_id(calls, call_id))
            &&& forall|j: int|
                0 <= j < calls.len() && (#[trigger] calls[j]).1.arguments_text.len() > 0
                    ==> calls[j].1.id is Some && is_streamed(all.emissions, calls[j].1.id->0)
            &&& distinct_ids(calls) ==> arguments_match(all)
        }),
{
    lemma_streamed_keeps(chunks, fresh, count);
    let all = streamed(chunks, fresh, count);
    let calls = all.state.tool_calls;
    lemma_some_call_fails(calls, registry, parsed, ids, calls.len() as int);
    if let Ok(turn) = finished_turn(all.state, registry, parsed, ids) {
        lemma_resolved_each(calls, registry, parsed, ids, calls.len() as int);
        assert forall|k: int| 0 <= k < calls.len() implies (#[trigger] turn.tool_calls[k]).internal_call.id
            == Some(
            match calls[k].1.id {
                Some(id) => id,
                None => prefixed_id("call"@, ids[k]),
            },
        ) by {
            assert(resolved_call(calls[k].1, registry, parsed[k], ids[k]) == Ok::<
                ResolvedToolCallView,
                AppErrorView,
            >(turn.tool_calls[k]));
        }
    }
}

/// Whether a choice speaks of the call with the given index.
pub open spec fn choice_calls(choice: ChatChunkChoiceView, index: usize) -> bool {
    ||| choice.delta.tool_calls is Some && exists|i: int|
        0 <= i < choice.delta.tool_calls->0.len() && delta_of(
            #[trigger] choice.delta.tool_calls->0[i],
        ).index == index
    ||| choice.delta.function_call is Some && index == 0
}

/// Whether a chunk speaks of the call with the given index.
pub open spec fn chunk_calls(chunk: ChatCompletionChunkView, index: usize) -> bool {
    exists|c: int| 0 <= c < chunk.choices.len() && choice_calls(#[trigger] chunk.choices[c], index)
}

proof fn lemma_with_call_index(
    calls: Seq<(usize, ToolCallAccumulatorView)>,
    index: usize,
    call: ToolCallAccumulatorView,
    other: usize,
)
    requires
        calls_ascending(calls),
    ensures
        has_call(with_call(calls, index, call), other) <==> has_call(calls, other) || other
            == index,
{
    let after = with_call(calls, index, call);
    lemma_with_call_entries(calls, index, call);
    lemma_call_place_bounds(calls, other);
    lemma_call_place_bounds(after, other);
    if other == index {
        lemma_call_at_entry(after, (index, call));
    } else {
        if has_call(calls, other) {
            let entry = calls[call_place(calls, other)];
            assert(calls.contains(entry));
            lemma_call_at_entry(after, entry);
        }
        if has_call(after, other) {
            let entry = after[call_place(after, other)];
            assert(after.contains(entry));
            lemma_call_at_entry(calls, entry);
        }
    }
}

proof fn lemma_tool_calls_index(
    progress: Progress,
    calls: Seq<ChatToolCallView>,
    fresh: Seq<Seq<char>>,
    count: int,
    index: usize,
)
    requires
        calls_match(progress),
        well_opened(progress),
    ensures
        has_call(progress.tool_calls(calls, fresh, count).state.tool_calls, index) <==> has_call(
            progress.state.tool_calls,
            index,
        ) || exists|i: int| 0 <= i < count && delta_of(#[trigger] calls[i]).index == index,
    decreases count,
{
    if count > 0 {
        lemma_tool_calls_index(progress, calls, fresh, count - 1, index);
        lemma_tool_calls_match(progress, calls, fresh, count - 1);
        let before = progress.tool_calls(calls, fresh, count - 1);
        let delta = delta_of(calls[count - 1]);
        let (call, added) = call_after(
            call_at(before.state.tool_calls, delta.index),
            delta,
            fresh[count - 1],
        );
        lemma_with_call_index(before.state.tool_calls, delta.index, call, index);
        if exists|i: int| 0 <= i < count && delta_of(#[trigger] calls[i]).index == index {
            let i = choose|i: int| 0 <= i < count && delta_of(#[trigger] calls[i]).index == index;
            if i < count - 1 {
                assert(exists|k: int|
                    0 <= k < count - 1 && delta_of(#[trigger] calls[k]).index == index);
            }
        }
    }
}

proof fn lemma_choice_index(
    progress: Progress,
    choice: ChatChunkChoiceView,
    fresh: ChoiceIdsView,
    index: usize,
)
    requires
        calls_match(progress),
        well_opened(progress),
    ensures
        has_call(progress.choice(choice, fresh).state.tool_calls, index) <==> has_call(
            progress.state.tool_calls,
            index,
        ) || choice_calls(choice, index),
{
    lemma_choice_parts(progress, choice, fresh);
    lemma_said_well_opened(progress, choice, fresh);
    lemma_said_calls_match(progress, choice, fresh);
    let said = said(progress, choice, fresh);
    assert(said.state.tool_calls == progress.state.tool_calls);
    let called = match choice.delta.tool_calls {
        Some(calls) => {
            lemma_tool_calls_match(said, calls, fresh.calls, calls.len() as int);
            lemma_tool_calls_index(said, calls, fresh.calls, calls.len() as int, index);
            said.tool_calls(calls, fresh.calls, calls.len() as int)
        },
        None => said,
    };
    if choice.delta.function_call is Some {
        let (call, added) = call_after(
            call_at(called.state.tool_calls, 0),
            old_form(choice),
            fresh.function_call,
        );
        lemma_with_call_index(called.state.tool_calls, 0, call, index);
    }
}

proof fn lemma_choices_index(
    progress: Progress,
    choices: Seq<ChatChunkChoiceView>,
    fresh: Seq<ChoiceIdsView>,
    count: int,
    index: usize,
)
    requires
        calls_match(progress),
        well_opened(progress),
    ensures
        has_call(progress.choices(choices, fresh, count).state.tool_calls, index) <==> has_call(
            progress.state.tool_calls,
            index,
        ) || exists|c: int| 0 <= c < count && choice_calls(#[trigger] choices[c], index),
    decreases count,
{
    if count > 0 {
        lemma_choices_index(progress, choices, fresh, count - 1, index);
        lemma_choices_keep(progress, choices, fresh, count - 1);
        lemma_choice_index(
            progress.choices(choices, fresh, count - 1),
            choices[count - 1],
            fresh[count - 1],
            index,
        );
        if exists|c: int| 0 <= c < count && choice_calls(#[trigger] choices[c], index) {
            let c = choose|c: int| 0 <= c < count && choice_calls(#[trigger] choices[c], index);
            if c < count - 1 {
                assert(exists|k: int|
                    0 <= k < count - 1 && choice_calls(#[trigger] choices[k], index));
            }
        }
    }
}

/// A turn has a call under an index exactly if one of its chunks speaks of that index.
pub proof fn law_calls_are_those_streamed(
    chunks: Seq<ChatCompletionChunkView>,
    fresh: Seq<Seq<ChoiceIdsView>>,
    count: int,
    index: usize,
)
    ensures
        has_call(streamed(chunks, fresh, count).state.tool_calls, index) <==> exists|k: int|
            0 <= k < count && chunk_calls(#[trigger] chunks[k], index),
    decreases count,
{
    if count > 0 {
        law_calls_are_those_streamed(chunks, fresh, count - 1, index);
        lemma_streamed_keeps(chunks, fresh, count - 1);
        lemma_streamed_on(chunks, fresh, count);
        let choices = chunks[count - 1].choices;
        lemma_choices_index(
            streamed(chunks, fresh, count - 1),
            choices,
            fresh[count - 1],
            choices.len() as int,
            index,
        );
        if exists|k: int| 0 <= k < count && chunk_calls(#[trigger] chunks[k], index) {
            let k = choose|k: int| 0 <= k < count && chunk_calls(#[trigger] chunks[k], index);
            if k < count - 1 {
                assert(exists|j: int|
                    0 <= j < count - 1 && chunk_calls(#[trigger] chunks[j], index));
            }
        }
    }
}

/// A call keeps its id once it has one, whatever chunks follow.
pub proof fn law_call_ids_stay(
    chunks: Seq<ChatCompletionChunkView>,
    fresh: Seq<Seq<ChoiceIdsView>>,
    earlier: int,
    later: int,
    index: usize,
)
    requires
        0 <= earlier <= later,
        call_at(streamed(chunks, fresh, earlier).state.tool_calls, index).id is Some,
    ensures
        call_at(streamed(chunks, fresh, later).state.tool_calls, index).id == call_at(
            streamed(chunks, fresh, earlier).state.tool_calls,
            index,
        ).id,
    decreases later,
{
    if earlier < later {
        law_call_ids_stay(chunks, fresh, earlier, later - 1, index);
        lemma_streamed_keeps(chunks, fresh, later - 1);
        lemma_streamed_on(chunks, fresh, later);
        let choices = chunks[later - 1].choices;
        lemma_choices_keep(
            streamed(chunks, fresh, later - 1),
            choices,
            fresh[later - 1],
            choices.len() as int,
        );
    }
}

} // verus!
