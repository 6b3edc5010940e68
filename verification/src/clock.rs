//! The time of day.
use vstd::prelude::*;

verus! {

/// A stretch of time in whole seconds and nanoseconds.
#[derive(Clone, Copy, Debug, PartialEq, Eq, Structural)]
pub struct TimeSpan {
    pub secs: u64,
    pub nanos: u32,
}

impl TimeSpan {
    /// The nanoseconds make up less than a second.
    pub open spec fn wf(self) -> bool {
        self.nanos < 1_000_000_000
    }

    /// The whole stretch in nanoseconds.
    pub open spec fn total(self) -> int {
        self.secs as int * 1_000_000_000 + self.nanos as int
    }
}

/// `std::time::SystemTime::now` as the time since the start of the Unix epoch: its whole seconds
/// and the nanoseconds of the second that has begun. A clock before the epoch reads as its start.
#[verifier::external_body]
pub(crate) fn unix_time() -> (now: TimeSpan)
    ensures
        now.wf(),
{
    let now = std::time::SystemTime::now().duration_since(std::time::UNIX_EPOCH).unwrap_or_default();
    TimeSpan { secs: now.as_secs(), nanos: now.subsec_nanos() }
}

} // verus!
