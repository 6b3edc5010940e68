use llmconduit::clock::TimeSpan;
use llmconduit::debug_ui::{
    debug_security_headers, remaining_until, replay_next, replay_start, session_remaining,
    socket_open, socket_step, FrameEvent, ReplayOutcome, ReplayStep, SocketAction, SocketEvent, SocketPhase,
    SocketState,
};
use std::time::{Duration, SystemTime, UNIX_EPOCH};

fn now_unix() -> u64 {
    SystemTime::now()
        .duration_since(UNIX_EPOCH)
        .map(|d| d.as_secs())
        .unwrap_or(0)
}

fn duration(span: TimeSpan) -> Duration {
    Duration::new(span.secs, span.nanos)
}

#[test]
fn expired_session_has_zero_remaining() {
    assert_eq!(
        duration(session_remaining(now_unix().saturating_sub(60))),
        Duration::ZERO
    );
    assert_eq!(duration(session_remaining(0)), Duration::ZERO);
}

#[test]
fn future_session_has_positive_remaining() {
    let remaining = duration(session_remaining(now_unix() + 120));
    assert!(
        remaining > Duration::from_secs(60),
        "remaining: {remaining:?}"
    );
    assert!(remaining <= Duration::from_secs(120));
}

#[test]
fn remaining_uses_subsecond_precision_not_whole_second_round_up() {
    let now = SystemTime::now()
        .duration_since(UNIX_EPOCH)
        .expect("clock after epoch");
    let exp_secs = now.as_secs() + 1;
    let expected = Duration::from_secs(exp_secs).saturating_sub(now);
    let remaining = duration(session_remaining(exp_secs));
    assert!(
        remaining < Duration::from_secs(1),
        "remaining to the next whole second must be sub-second, got {remaining:?}"
    );
    let skew = remaining.abs_diff(expected);
    assert!(
        skew < Duration::from_millis(50),
        "remaining {remaining:?} should match sub-second expected {expected:?} (skew {skew:?})"
    );
}

#[test]
fn remaining_borrows_from_the_seconds() {
    let now = TimeSpan { secs: 10, nanos: 250_000_000 };
    assert_eq!(
        remaining_until(13, now),
        TimeSpan { secs: 2, nanos: 750_000_000 }
    );
    assert_eq!(
        remaining_until(13, TimeSpan { secs: 10, nanos: 0 }),
        TimeSpan { secs: 3, nanos: 0 }
    );
    assert_eq!(remaining_until(10, now), TimeSpan { secs: 0, nanos: 0 });
}

/// Replays `count` frames that take `per_frame` seconds each, in a session that has `left` seconds,
/// to a peer that is gone at the frame with the number `fail_at`.
fn replay(count: usize, per_frame: u64, left: u64, fail_at: Option<usize>) -> (ReplayOutcome, usize) {
    let mut sent: usize = 0;
    let mut clock: u64 = 0;
    let mut step = replay_start(count);
    loop {
        match step {
            ReplayStep::Finish(outcome) => return (outcome, sent),
            ReplayStep::Send(index) => {
                let event = if clock + per_frame >= left {
                    FrameEvent::Expired
                } else {
                    clock += per_frame;
                    sent += 1;
                    if fail_at == Some(sent) {
                        FrameEvent::Failed
                    } else {
                        FrameEvent::Sent
                    }
                };
                step = replay_next(count, index, event);
            }
        }
    }
}

#[test]
fn whole_backlog_is_replayed_in_time() {
    assert_eq!(replay(5, 0, 3600, None), (ReplayOutcome::Completed, 5));
    assert_eq!(replay(0, 0, 3600, None), (ReplayOutcome::Completed, 0));
}

#[test]
fn expired_session_is_sent_nothing() {
    assert_eq!(replay(5, 0, 0, None), (ReplayOutcome::Expired, 0));
}

#[test]
fn replay_stops_where_the_session_expires() {
    assert_eq!(replay(100, 2, 5, None), (ReplayOutcome::Expired, 2));
}

#[test]
fn replay_stops_where_the_peer_is_gone() {
    assert_eq!(replay(5, 0, 3600, Some(2)), (ReplayOutcome::SendFailed, 2));
}

#[test]
fn socket_goes_from_replay_to_updates_and_closes_on_expiry() {
    let (start, action) = socket_open(7);
    assert_eq!(action, SocketAction::SendSnapshot);
    let (waiting, action) = socket_step(start, SocketEvent::Replayed(ReplayOutcome::Completed));
    assert_eq!(action, SocketAction::Wait);
    let (same, action) = socket_step(waiting, SocketEvent::Update(7));
    assert_eq!(action, SocketAction::Wait);
    let (updating, action) = socket_step(same, SocketEvent::Update(8));
    assert_eq!(action, SocketAction::SendUpdate);
    let (waiting, action) = socket_step(updating, SocketEvent::Replayed(ReplayOutcome::Completed));
    assert_eq!(action, SocketAction::Wait);
    let (done, action) = socket_step(waiting, SocketEvent::SessionExpired);
    assert_eq!(action, SocketAction::Close);
    let (_, action) = socket_step(done, SocketEvent::Update(9));
    assert_eq!(action, SocketAction::Stop);
}

#[test]
fn socket_replays_again_after_it_lagged() {
    let waiting = SocketState { phase: SocketPhase::Waiting, last_sequence: 3 };
    let (_, action) = socket_step(waiting, SocketEvent::Lagged(9));
    assert_eq!(action, SocketAction::SendSnapshot);
}

#[test]
fn security_headers_are_set() {
    let headers = debug_security_headers();
    assert!(headers.iter().any(|(name, _)| name == "content-security-policy"));
}
