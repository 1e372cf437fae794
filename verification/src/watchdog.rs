//! The activity clock and the two predicates that end the pump: cancellation
//! and inactivity.

use crate::outcome::StopReason;
use vstd::prelude::*;

verus! {

/// What the caller observes just before it hands a reply to the engine: the
/// cancellation signal and the reading of a monotonic clock, in milliseconds.
#[derive(Clone, Copy, Debug, PartialEq, Eq, Structural)]
pub struct Signals {
    pub cancelled: bool,
    pub now_ms: u64,
}

/// The time of the most recent batch that held a record.
#[derive(Clone, Copy, Debug, PartialEq, Eq, Structural)]
pub struct ActivityClock {
    pub last_activity_ms: u64,
}

/// The time from `last_activity_ms` to `now_ms`; none if the clock reads less
/// than it did then.
pub open spec fn elapsed_ms(last_activity_ms: u64, now_ms: u64) -> int {
    if now_ms >= last_activity_ms {
        now_ms - last_activity_ms
    } else {
        0
    }
}

/// The watchdog: the time without activity has reached the bound.
pub open spec fn inactive_too_long(clock: ActivityClock, now_ms: u64, timeout_ms: u64) -> bool {
    elapsed_ms(clock.last_activity_ms, now_ms) >= timeout_ms
}

/// The termination predicates in their order: cancellation comes first, then
/// inactivity.
pub open spec fn stop_reason(signals: Signals, clock: ActivityClock, timeout_ms: u64) -> Option<
    StopReason,
> {
    if signals.cancelled {
        Some(StopReason::Cancelled)
    } else if inactive_too_long(clock, signals.now_ms, timeout_ms) {
        Some(StopReason::Timeout)
    } else {
        None
    }
}

impl ActivityClock {
    /// A clock whose last activity is `now_ms`.
    pub fn started(now_ms: u64) -> (clock: ActivityClock)
        ensures
            clock.last_activity_ms == now_ms,
    {
        ActivityClock { last_activity_ms: now_ms }
    }

    /// Records activity at `now_ms`.
    pub fn touch(&mut self, now_ms: u64)
        ensures
            final(self).last_activity_ms == now_ms,
    {
        self.last_activity_ms = now_ms;
    }

    /// The time without activity, in milliseconds.
    pub fn elapsed(&self, now_ms: u64) -> (elapsed: u64)
        ensures
            elapsed == elapsed_ms(self.last_activity_ms, now_ms),
    {
        if now_ms >= self.last_activity_ms {
            now_ms - self.last_activity_ms
        } else {
            0
        }
    }

    /// Whether the time without activity has reached `timeout_ms`.
    pub fn expired(&self, now_ms: u64, timeout_ms: u64) -> (expired: bool)
        ensures
            expired == inactive_too_long(*self, now_ms, timeout_ms),
    {
        self.elapsed(now_ms) >= timeout_ms
    }
}

/// Evaluates the termination predicates: the reason to stop the pump, if
/// there is one.
pub fn evaluate(signals: Signals, clock: &ActivityClock, timeout_ms: u64) -> (reason: Option<
    StopReason,
>)
    ensures
        reason == stop_reason(signals, *clock, timeout_ms),
{
    if signals.cancelled {
        Some(StopReason::Cancelled)
    } else if clock.expired(signals.now_ms, timeout_ms) {
        Some(StopReason::Timeout)
    } else {
        None
    }
}

} // verus!
