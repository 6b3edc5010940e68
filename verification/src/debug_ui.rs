//! The debug page: its headers, how long its socket may stay open, and what the socket does next.
use vstd::prelude::*;

use crate::clock::{unix_time, TimeSpan};

verus! {

/// The content security policy of the debug page.
pub const DEBUG_CSP: &'static str = "default-src 'self'; script-src 'self'; connect-src 'self' ws: wss:; style-src 'self' 'unsafe-inline'; img-src 'self' data:; object-src 'none'; base-uri 'self'; frame-ancestors 'none'";

/// The headers that every response of the debug page carries.
pub open spec fn security_headers() -> Seq<(Seq<char>, Seq<char>)> {
    seq![
        ("content-security-policy"@, DEBUG_CSP@),
        ("x-frame-options"@, "DENY"@),
        ("x-content-type-options"@, "nosniff"@),
        ("referrer-policy"@, "no-referrer"@),
        ("cache-control"@, "no-store"@),
    ]
}

/// The headers that every response of the debug page carries.
pub fn debug_security_headers() -> (result: Vec<(String, String)>)
    ensures
        result.deep_view() == security_headers(),
{
    let mut result: Vec<(String, String)> = Vec::new();
    result.push(("content-security-policy".to_string(), DEBUG_CSP.to_string()));
    result.push(("x-frame-options".to_string(), "DENY".to_string()));
    result.push(("x-content-type-options".to_string(), "nosniff".to_string()));
    result.push(("referrer-policy".to_string(), "no-referrer".to_string()));
    result.push(("cache-control".to_string(), "no-store".to_string()));
    assert(result.deep_view() =~= security_headers());
    result
}

// ---------------------------------------------------------------------------------------------
// Session expiry
// ---------------------------------------------------------------------------------------------

/// The longest time that a socket waits for its session to expire: thirty days.
pub const MAX_EXPIRY_WAIT_SECS: u64 = 2_592_000;

/// The time from `now` to the second `session_exp`, in nanoseconds: nothing if that second has
/// begun, and never more than the longest wait.
pub open spec fn remaining_nanos(session_exp: u64, now: TimeSpan) -> int {
    let left = session_exp as int * 1_000_000_000 - now.total();
    let cap = MAX_EXPIRY_WAIT_SECS as int * 1_000_000_000;
    if left <= 0 {
        0
    } else if left > cap {
        cap
    } else {
        left
    }
}

/// The time from `now` to the second `session_exp`.
pub fn remaining_until(session_exp: u64, now: TimeSpan) -> (result: TimeSpan)
    requires
        now.wf(),
    ensures
        result.wf(),
        result.total() == remaining_nanos(session_exp, now),
{
    if session_exp <= now.secs {
        return TimeSpan { secs: 0, nanos: 0 };
    }
    let whole: u64 = session_exp - now.secs;
    if whole > MAX_EXPIRY_WAIT_SECS {
        return TimeSpan { secs: MAX_EXPIRY_WAIT_SECS, nanos: 0 };
    }
    if now.nanos == 0 {
        TimeSpan { secs: whole, nanos: 0 }
    } else {
        TimeSpan { secs: whole - 1, nanos: 1_000_000_000 - now.nanos }
    }
}

/// The time that is left of a session which expires at the second `session_exp`.
pub fn session_remaining(session_exp: u64) -> (result: TimeSpan)
    ensures
        result.wf(),
        exists|now: TimeSpan|
            #![trigger now.wf()]
            now.wf() && result.total() == remaining_nanos(session_exp, now),
{
    let now = unix_time();
    remaining_until(session_exp, now)
}

/// A session has time left exactly as long as its second of expiry has not begun, and the less the
/// later it is.
pub proof fn law_expiry_closes_in(session_exp: u64, now: TimeSpan, later: TimeSpan)
    requires
        now.wf(),
        later.wf(),
        now.total() <= later.total(),
    ensures
        remaining_nanos(session_exp, later) <= remaining_nanos(session_exp, now),
        remaining_nanos(session_exp, now) == 0 <==> now.total() >= session_exp as int
            * 1_000_000_000,
        remaining_nanos(session_exp, now) <= MAX_EXPIRY_WAIT_SECS as int * 1_000_000_000,
        now.total() + remaining_nanos(session_exp, now) <= session_exp as int * 1_000_000_000
            || remaining_nanos(session_exp, now) == 0,
{
}

// ---------------------------------------------------------------------------------------------
// A batch of frames
// ---------------------------------------------------------------------------------------------

/// How sending a batch of frames came to an end.
#[derive(Clone, Copy, Debug, PartialEq, Eq, Structural)]
pub enum ReplayOutcome {
    Completed,
    Expired,
    SendFailed,
}

/// What came of waiting for a frame to be sent while the session may expire.
#[derive(Clone, Copy, Debug, PartialEq, Eq, Structural)]
pub enum FrameEvent {
    Sent,
    Failed,
    Expired,
}

/// What to do with a batch of frames next.
#[derive(Clone, Copy, Debug, PartialEq, Eq, Structural)]
pub enum ReplayStep {
    /// Send the frame with the given number, and wait for it or for the session to expire.
    Send(usize),
    /// Stop.
    Finish(ReplayOutcome),
}

/// The first step of a batch of `count` frames.
pub open spec fn first_step(count: usize) -> ReplayStep {
    if count == 0 {
        ReplayStep::Finish(ReplayOutcome::Completed)
    } else {
        ReplayStep::Send(0)
    }
}

/// The step after the frame with the number `index` met with `event`.
pub open spec fn next_step(count: usize, index: usize, event: FrameEvent) -> ReplayStep {
    match event {
        FrameEvent::Expired => ReplayStep::Finish(ReplayOutcome::Expired),
        FrameEvent::Failed => ReplayStep::Finish(ReplayOutcome::SendFailed),
        FrameEvent::Sent => if index + 1 < count {
            ReplayStep::Send((index + 1) as usize)
        } else {
            ReplayStep::Finish(ReplayOutcome::Completed)
        },
    }
}

/// The first step of a batch of `count` frames.
pub fn replay_start(count: usize) -> (result: ReplayStep)
    ensures
        result == first_step(count),
{
    if count == 0 {
        ReplayStep::Finish(ReplayOutcome::Completed)
    } else {
        ReplayStep::Send(0)
    }
}

/// The step after the frame with the number `index` met with `event`.
pub fn replay_next(count: usize, index: usize, event: FrameEvent) -> (result: ReplayStep)
    requires
        index < count,
    ensures
        result == next_step(count, index, event),
{
    match event {
        FrameEvent::Expired => ReplayStep::Finish(ReplayOutcome::Expired),
        FrameEvent::Failed => ReplayStep::Finish(ReplayOutcome::SendFailed),
        FrameEvent::Sent => if index + 1 < count {
            ReplayStep::Send(index + 1)
        } else {
            ReplayStep::Finish(ReplayOutcome::Completed)
        },
    }
}

/// The step that a batch has come to after `events`.
pub open spec fn replayed(count: usize, events: Seq<FrameEvent>) -> ReplayStep
    decreases events.len(),
{
    if events.len() == 0 {
        first_step(count)
    } else {
        match replayed(count, events.drop_last()) {
            ReplayStep::Send(index) => next_step(count, index, events.last()),
            ReplayStep::Finish(outcome) => ReplayStep::Finish(outcome),
        }
    }
}

/// Frames go out one after the other, each once, and none after the session has expired or the
/// peer has gone.
pub proof fn law_frames_go_out_in_order(count: usize, events: Seq<FrameEvent>)
    ensures
        replayed(count, events) matches ReplayStep::Send(index) ==> {
            &&& index == events.len()
            &&& index < count
            &&& forall|k: int| 0 <= k < events.len() ==> #[trigger] events[k] == FrameEvent::Sent
        },
        replayed(count, events) == ReplayStep::Finish(ReplayOutcome::Completed) ==> events.len()
            >= count && forall|k: int|
            0 <= k < count ==> #[trigger] events[k] == FrameEvent::Sent,
    decreases events.len(),
{
    if events.len() > 0 {
        let before = events.drop_last();
        law_frames_go_out_in_order(count, before);
        if let ReplayStep::Send(index) = replayed(count, events) {
            assert forall|k: int| 0 <= k < events.len() implies #[trigger] events[k]
                == FrameEvent::Sent by {
                if k < before.len() {
                    assert(before[k] == events[k]);
                }
            }
        }
        if replayed(count, events) == ReplayStep::Finish(ReplayOutcome::Completed) {
            assert forall|k: int| 0 <= k < count implies #[trigger] events[k] == FrameEvent::Sent by {
                if k < before.len() {
                    assert(before[k] == events[k]);
                }
            }
        }
    }
}

// ---------------------------------------------------------------------------------------------
// The socket
// ---------------------------------------------------------------------------------------------

/// What a debug socket is doing.
#[derive(Clone, Copy, Debug, PartialEq, Eq, Structural)]
pub enum SocketPhase {
    /// It sends what has been retained, up to the update with the given number.
    Replaying { upto: u64 },
    /// It waits for the next update.
    Waiting,
    /// It sends an update.
    Updating,
    /// It is done.
    Done,
}

/// A debug socket: what it is doing, and the last update that is part of what it replayed.
#[derive(Clone, Copy, Debug, PartialEq, Eq, Structural)]
pub struct SocketState {
    pub phase: SocketPhase,
    pub last_sequence: u64,
}

/// What a debug socket meets with.
#[derive(Clone, Copy, Debug, PartialEq, Eq, Structural)]
pub enum SocketEvent {
    /// The batch at hand came to an end.
    Replayed(ReplayOutcome),
    /// The session expired while the socket waited.
    SessionExpired,
    /// An update with the given number arrived.
    Update(u64),
    /// Updates were lost; what is retained goes up to the given number.
    Lagged(u64),
    /// No more updates will come.
    SourceClosed,
}

/// What a debug socket does next.
#[derive(Clone, Copy, Debug, PartialEq, Eq, Structural)]
pub enum SocketAction {
    /// Send what has been retained.
    SendSnapshot,
    /// Send the update at hand.
    SendUpdate,
    /// Wait for an update or for the session to expire.
    Wait,
    /// Tell the peer that the socket closes, and stop.
    Close,
    /// Stop.
    Stop,
}

/// A socket that is about to send what has been retained.
pub open spec fn socket_start(last_sequence: u64) -> SocketState {
    SocketState { phase: SocketPhase::Replaying { upto: last_sequence }, last_sequence }
}

/// A socket that is about to send what has been retained, up to the update with the given number.
pub fn socket_open(last_sequence: u64) -> (result: (SocketState, SocketAction))
    ensures
        result == (socket_start(last_sequence), SocketAction::SendSnapshot),
{
    let state = SocketState { phase: SocketPhase::Replaying { upto: last_sequence }, last_sequence };
    (state, SocketAction::SendSnapshot)
}

/// What a socket does after an event, and what it is doing then.
pub open spec fn socket_after(state: SocketState, event: SocketEvent) -> (SocketState, SocketAction) {
    let done = SocketState { phase: SocketPhase::Done, ..state };
    let waiting = SocketState { phase: SocketPhase::Waiting, ..state };
    match (state.phase, event) {
        (SocketPhase::Done, _) => (done, SocketAction::Stop),
        (_, SocketEvent::Replayed(ReplayOutcome::Expired)) => (done, SocketAction::Close),
        (_, SocketEvent::Replayed(ReplayOutcome::SendFailed)) => (done, SocketAction::Stop),
        (
            SocketPhase::Replaying { upto },
            SocketEvent::Replayed(ReplayOutcome::Completed),
        ) => (
            SocketState { phase: SocketPhase::Waiting, last_sequence: upto },
            SocketAction::Wait,
        ),
        (_, SocketEvent::Replayed(ReplayOutcome::Completed)) => (waiting, SocketAction::Wait),
        (_, SocketEvent::SessionExpired) => (done, SocketAction::Close),
        (_, SocketEvent::Update(sequence)) => if sequence <= state.last_sequence {
            (waiting, SocketAction::Wait)
        } else {
            (SocketState { phase: SocketPhase::Updating, ..state }, SocketAction::SendUpdate)
        },
        (_, SocketEvent::Lagged(upto)) => (
            SocketState { phase: SocketPhase::Replaying { upto }, ..state },
            SocketAction::SendSnapshot,
        ),
        (_, SocketEvent::SourceClosed) => (done, SocketAction::Stop),
    }
}

/// What a socket does after an event.
pub fn socket_step(state: SocketState, event: SocketEvent) -> (result: (SocketState, SocketAction))
    ensures
        result == socket_after(state, event),
{
    let done = SocketState { phase: SocketPhase::Done, last_sequence: state.last_sequence };
    let waiting = SocketState { phase: SocketPhase::Waiting, last_sequence: state.last_sequence };
    if state.phase == SocketPhase::Done {
        return (done, SocketAction::Stop);
    }
    match event {
        SocketEvent::Replayed(ReplayOutcome::Expired) => (done, SocketAction::Close),
        SocketEvent::Replayed(ReplayOutcome::SendFailed) => (done, SocketAction::Stop),
        SocketEvent::Replayed(ReplayOutcome::Completed) => match state.phase {
            SocketPhase::Replaying { upto } => (
                SocketState { phase: SocketPhase::Waiting, last_sequence: upto },
                SocketAction::Wait,
            ),
            _ => (waiting, SocketAction::Wait),
        },
        SocketEvent::SessionExpired => (done, SocketAction::Close),
        SocketEvent::Update(sequence) => if sequence <= state.last_sequence {
            (waiting, SocketAction::Wait)
        } else {
            (
                SocketState { phase: SocketPhase::Updating, last_sequence: state.last_sequence },
                SocketAction::SendUpdate,
            )
        },
        SocketEvent::Lagged(upto) => (
            SocketState {
                phase: SocketPhase::Replaying { upto },
                last_sequence: state.last_sequence,
            },
            SocketAction::SendSnapshot,
        ),
        SocketEvent::SourceClosed => (done, SocketAction::Stop),
    }
}

/// A socket sends nothing once its session has expired or its peer has gone, whatever happens
/// then.
pub proof fn law_socket_stays_closed(state: SocketState, event: SocketEvent, later: SocketEvent)
    requires
        event == SocketEvent::SessionExpired || event == SocketEvent::Replayed(
            ReplayOutcome::Expired,
        ) || event == SocketEvent::Replayed(ReplayOutcome::SendFailed),
    ensures
        socket_after(state, event).0.phase == SocketPhase::Done,
        socket_after(socket_after(state, event).0, later).1 == SocketAction::Stop,
{
}

/// An update that what was replayed contains is not sent again.
pub proof fn law_replayed_updates_are_not_repeated(state: SocketState, sequence: u64)
    requires
        sequence <= state.last_sequence,
    ensures
        socket_after(state, SocketEvent::Update(sequence)).1 != SocketAction::SendUpdate,
{
}

} // verus!
