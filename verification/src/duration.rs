//! Spans of time.
use vstd::prelude::*;

verus! {

/// A span of time, in billionths of a second.
#[derive(Debug, Clone, Copy, PartialEq, Eq, Structural)]
pub struct Duration {
    pub nanos: u128,
}

/// A span of whole seconds.
pub open spec fn seconds(secs: int) -> int {
    secs * 1_000_000_000
}

impl Duration {
    /// A span of whole seconds.
    pub fn from_secs(secs: u64) -> (span: Duration)
        ensures
            span.nanos == seconds(secs as int),
    {
        Duration { nanos: secs as u128 * 1_000_000_000 }
    }
}

/// What is waited between two runs where nothing is configured: one minute.
pub fn default_interval() -> (interval: Duration)
    ensures
        interval.nanos == seconds(60),
{
    Duration::from_secs(60)
}

} // verus!
