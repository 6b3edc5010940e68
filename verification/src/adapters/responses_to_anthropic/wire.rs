//! The grammar of a message stream: what a client may rely on about the order of its events.
use vstd::prelude::*;

use crate::models::anthropic::AnthropicStreamEventView;

verus! {

/// Where a message stream stands: the block that is open, the index of the next block, and whether
/// the message has begun.
pub struct Wire {
    pub open: Option<usize>,
    pub next: usize,
    pub started: bool,
}

/// A stream that has not begun.
pub open spec fn silent() -> Wire {
    Wire { open: None, next: 0, started: false }
}

/// Where the stream stands after an event, or nothing if the event is out of place: a block opens
/// only when no other is open and its index is the next one, it grows and closes only while it is
/// open, a message begins only once, and it begins and stops only when no block is open.
pub open spec fn wire_step(wire: Wire, event: AnthropicStreamEventView) -> Option<Wire> {
    match event {
        AnthropicStreamEventView::ContentBlockStart { index, content_block } => {
            if wire.open is None && index == wire.next && wire.next < usize::MAX {
                Some(Wire { open: Some(index), next: (wire.next + 1) as usize, ..wire })
            } else {
                None
            }
        },
        AnthropicStreamEventView::ContentBlockDelta { index, delta } => if wire.open == Some(index) {
            Some(wire)
        } else {
            None
        },
        AnthropicStreamEventView::ContentBlockStop { index } => if wire.open == Some(index) {
            Some(Wire { open: None, ..wire })
        } else {
            None
        },
        AnthropicStreamEventView::MessageStart { message } => if wire.open is None
            && !wire.started {
            Some(Wire { started: true, ..wire })
        } else {
            None
        },
        AnthropicStreamEventView::MessageStop => if wire.open is None {
            Some(wire)
        } else {
            None
        },
        AnthropicStreamEventView::Ping => Some(wire),
        AnthropicStreamEventView::MessageDelta { delta, usage } => Some(wire),
        AnthropicStreamEventView::Error { error } => Some(wire),
    }
}

/// Where the stream stands after `events`, or nothing if one of them is out of place.
pub open spec fn wire_run(wire: Wire, events: Seq<AnthropicStreamEventView>) -> Option<Wire>
    decreases events.len(),
{
    if events.len() == 0 {
        Some(wire)
    } else {
        match wire_run(wire, events.drop_last()) {
            Some(before) => wire_step(before, events.last()),
            None => None,
        }
    }
}

/// One more event is one more step.
pub proof fn lemma_wire_push(wire: Wire, events: Seq<AnthropicStreamEventView>, event: AnthropicStreamEventView)
    ensures
        wire_run(wire, events.push(event)) == (match wire_run(wire, events) {
            Some(before) => wire_step(before, event),
            None => None,
        }),
{
    assert(events.push(event).drop_last() =~= events);
}

/// Events that follow are further steps.
pub proof fn lemma_wire_append(
    wire: Wire,
    events: Seq<AnthropicStreamEventView>,
    more: Seq<AnthropicStreamEventView>,
)
    ensures
        wire_run(wire, events + more) == (match wire_run(wire, events) {
            Some(before) => wire_run(before, more),
            None => None,
        }),
    decreases more.len(),
{
    if more.len() == 0 {
        assert(events + more =~= events);
    } else {
        lemma_wire_append(wire, events, more.drop_last());
        assert((events + more).drop_last() =~= events + more.drop_last());
        assert((events + more).last() == more.last());
    }
}

/// How often a message begins in `events`.
pub open spec fn message_starts(events: Seq<AnthropicStreamEventView>) -> nat
    decreases events.len(),
{
    if events.len() == 0 {
        0
    } else {
        message_starts(events.drop_last()) + if events.last() is MessageStart {
            1nat
        } else {
            0
        }
    }
}

/// The numbers of the blocks that `events` open, in their order.
pub open spec fn block_numbers(events: Seq<AnthropicStreamEventView>) -> Seq<usize>
    decreases events.len(),
{
    if events.len() == 0 {
        Seq::empty()
    } else {
        match events.last() {
            AnthropicStreamEventView::ContentBlockStart { index, content_block } => block_numbers(
                events.drop_last(),
            ).push(index),
            _ => block_numbers(events.drop_last()),
        }
    }
}

/// Where events keep to the grammar, a message begins at most once, and exactly if the stream had
/// not begun before and has begun after.
pub proof fn law_message_begins_once(wire: Wire, events: Seq<AnthropicStreamEventView>)
    requires
        wire_run(wire, events) is Some,
    ensures
        wire.started ==> wire_run(wire, events)->0.started,
        message_starts(events) == (if wire_run(wire, events)->0.started && !wire.started {
            1nat
        } else {
            0
        }),
    decreases events.len(),
{
    if events.len() > 0 {
        law_message_begins_once(wire, events.drop_last());
    }
}

/// Where events keep to the grammar, the blocks that they open are numbered one after the other,
/// with no number left out.
pub proof fn law_blocks_are_numbered_in_order(wire: Wire, events: Seq<AnthropicStreamEventView>)
    requires
        wire_run(wire, events) is Some,
    ensures
        wire_run(wire, events)->0.next == wire.next + block_numbers(events).len(),
        forall|i: int|
            0 <= i < block_numbers(events).len() ==> #[trigger] block_numbers(events)[i]
                == wire.next + i,
    decreases events.len(),
{
    if events.len() > 0 {
        law_blocks_are_numbered_in_order(wire, events.drop_last());
    }
}

/// A block that is open and then is not has been closed.
proof fn lemma_closed_between(wire: Wire, events: Seq<AnthropicStreamEventView>, index: usize)
    requires
        wire.open == Some(index),
        wire_run(wire, events) is Some,
        wire_run(wire, events)->0.open is None,
    ensures
        exists|k: int|
            0 <= k < events.len() && #[trigger] events[k]
                == (AnthropicStreamEventView::ContentBlockStop { index }),
    decreases events.len(),
{
    if events.len() > 0 {
        let before = events.drop_last();
        let last = events.len() - 1;
        assert(events[last] == events.last());
        if wire_run(wire, before)->0.open is None {
            lemma_closed_between(wire, before, index);
            let k = choose|k: int|
                0 <= k < before.len() && #[trigger] before[k]
                    == (AnthropicStreamEventView::ContentBlockStop { index });
            assert(events[k] == before[k]);
        } else {
            lemma_open_stays(wire, before, index);
        }
    }
}

/// Only the block that was open can still be open, or one that was opened after it was closed.
proof fn lemma_open_stays(wire: Wire, events: Seq<AnthropicStreamEventView>, index: usize)
    requires
        wire.open == Some(index),
        wire_run(wire, events) is Some,
    ensures
        wire_run(wire, events)->0.open == Some(index) || exists|k: int|
            0 <= k < events.len() && #[trigger] events[k]
                == (AnthropicStreamEventView::ContentBlockStop { index }),
    decreases events.len(),
{
    if events.len() > 0 {
        let before = events.drop_last();
        let last = events.len() - 1;
        assert(events[last] == events.last());
        lemma_open_stays(wire, before, index);
        if exists|k: int|
            0 <= k < before.len() && #[trigger] before[k]
                == (AnthropicStreamEventView::ContentBlockStop { index }) {
            let k = choose|k: int|
                0 <= k < before.len() && #[trigger] before[k]
                    == (AnthropicStreamEventView::ContentBlockStop { index });
            assert(events[k] == before[k]);
        }
    }
}

/// A prefix of what keeps to the grammar keeps to it, and the rest goes on from there.
proof fn lemma_wire_split(wire: Wire, events: Seq<AnthropicStreamEventView>, at: int)
    requires
        wire_run(wire, events) is Some,
        0 <= at <= events.len(),
    ensures
        wire_run(wire, events.take(at)) is Some,
        wire_run(wire_run(wire, events.take(at))->0, events.skip(at)) == wire_run(wire, events),
{
    assert(events.take(at) + events.skip(at) =~= events);
    lemma_wire_append(wire, events.take(at), events.skip(at));
}

/// One event of a stream that keeps to the grammar is one step.
proof fn lemma_wire_at(wire: Wire, events: Seq<AnthropicStreamEventView>, at: int)
    requires
        wire_run(wire, events) is Some,
        0 <= at < events.len(),
    ensures
        wire_run(wire, events.take(at)) is Some,
        wire_run(wire, events.take(at + 1)) is Some,
        wire_run(wire, events.take(at + 1)) == wire_step(
            wire_run(wire, events.take(at))->0,
            events[at],
        ),
{
    lemma_wire_split(wire, events, at);
    lemma_wire_split(wire, events, at + 1);
    assert(events.take(at + 1) =~= events.take(at).push(events[at]));
    lemma_wire_push(wire, events.take(at), events[at]);
}

/// Where events keep to the grammar, a block is closed before the next one opens.
pub proof fn law_blocks_close_before_the_next(
    wire: Wire,
    events: Seq<AnthropicStreamEventView>,
    first: int,
    second: int,
)
    requires
        wire_run(wire, events) is Some,
        0 <= first < second < events.len(),
        events[first] is ContentBlockStart,
        events[second] is ContentBlockStart,
    ensures
        exists|k: int|
            first < k < second && #[trigger] events[k]
                == (AnthropicStreamEventView::ContentBlockStop {
                index: events[first]->ContentBlockStart_index,
            }),
{
    let index = events[first]->ContentBlockStart_index;
    lemma_wire_at(wire, events, first);
    lemma_wire_at(wire, events, second);
    let opened = wire_run(wire, events.take(first + 1))->0;
    let between = events.subrange(first + 1, second);
    assert(events.take(second) =~= events.take(first + 1) + between);
    lemma_wire_append(wire, events.take(first + 1), between);
    lemma_closed_between(opened, between, index);
    let k = choose|k: int|
        0 <= k < between.len() && #[trigger] between[k]
            == (AnthropicStreamEventView::ContentBlockStop { index });
    assert(events[first + 1 + k] == between[k]);
}

/// A block that is open at the end has been open from the start, or was opened and not closed since.
proof fn lemma_opened_before(wire: Wire, events: Seq<AnthropicStreamEventView>, index: usize)
    requires
        wire_run(wire, events) is Some,
        wire_run(wire, events)->0.open == Some(index),
        wire.open is None,
    ensures
        exists|k: int| #[trigger] opened_at(events, k, index),
    decreases events.len(),
{
    if events.len() > 0 {
        let before = events.drop_last();
        let last = events.len() - 1;
        assert(events[last] == events.last());
        if events.last() is ContentBlockStart {
            assert(opened_at(events, last, index));
        } else {
            lemma_opened_before(wire, before, index);
            let k = choose|k: int| #[trigger] opened_at(before, k, index);
            assert(events[k] == before[k]);
            assert forall|j: int| k < j < events.len() implies !((#[trigger] events[j]) is
            ContentBlockStart) && !(events[j] is ContentBlockStop) by {
                if j < last {
                    assert(events[j] == before[j]);
                }
            }
            assert(opened_at(events, k, index));
        }
    }
}

/// The block with the given number opens at `at`, and from there on no block opens or closes.
pub open spec fn opened_at(events: Seq<AnthropicStreamEventView>, at: int, index: usize) -> bool {
    &&& 0 <= at < events.len()
    &&& events[at] is ContentBlockStart
    &&& events[at]->ContentBlockStart_index == index
    &&& forall|j: int|
        at < j < events.len() ==> !((#[trigger] events[j]) is ContentBlockStart) && !(
        events[j] is ContentBlockStop)
}

/// Where events keep to the grammar from a stream with no open block, every delta carries the number
/// of the block that was opened last and has not been closed since.
pub proof fn law_deltas_go_to_the_open_block(
    wire: Wire,
    events: Seq<AnthropicStreamEventView>,
    at: int,
)
    requires
        wire_run(wire, events) is Some,
        wire.open is None,
        0 <= at < events.len(),
        events[at] is ContentBlockDelta,
    ensures
        exists|k: int| #[trigger]
            opened_at(events.take(at), k, events[at]->ContentBlockDelta_index),
{
    lemma_wire_at(wire, events, at);
    lemma_opened_before(wire, events.take(at), events[at]->ContentBlockDelta_index);
}

} // verus!
