//! Waiting until the network is silent.

use vstd::prelude::*;

use crate::json::{json_outcome, Json, JsonView};
use crate::reply::{evaluate, evaluation, read_returned_value, returned_value};
use crate::scripts;
use crate::step::{
    AfterCall, AfterCallView, AfterClock, AfterSleep, AfterSleepView, IdleWait, Step, StepView,
};

verus! {

/// How long the network must be silent, in milliseconds.
pub const QUIET_MILLIS: u128 = 500;

/// How long to pause between two looks at the network, in milliseconds.
pub const PAUSE_MILLIS: u64 = 100;

/// The number of nanoseconds in a millisecond.
pub const NANOS_PER_MILLI: u128 = 1_000_000;

/// The time that has passed between two readings of the clock.
pub open spec fn elapsed(now: u128, since: u128) -> int {
    if now >= since {
        now - since
    } else {
        0
    }
}

/// The wait has lasted longer than it may.
pub open spec fn timed_out(wait: IdleWait, now: u128) -> bool {
    elapsed(now, wait.started) > wait.timeout_ms * NANOS_PER_MILLI
}

/// No pending request was seen for long enough.
pub open spec fn silent(wait: IdleWait, now: u128) -> bool {
    elapsed(now, wait.active) > QUIET_MILLIS * NANOS_PER_MILLI
}

/// What follows when the clock has been read. Whether the time is up and
/// whether the network is silent is decided on a reading each.
pub open spec fn after_clock(after: AfterClock, now: u128) -> StepView {
    match after {
        AfterClock::Started { timeout_ms } => StepView::Clock {
            next: AfterClock::Begun { timeout_ms, started: now },
        },
        AfterClock::Begun { timeout_ms, started } => StepView::Clock {
            next: AfterClock::Judged { wait: IdleWait { timeout_ms, started, active: now } },
        },
        AfterClock::Judged { wait } => if timed_out(wait, now) {
            StepView::Done { outcome: Ok("timeout"@) }
        } else {
            StepView::Clock { next: AfterClock::Listened { wait } }
        },
        AfterClock::Listened { wait } => if silent(wait, now) {
            StepView::Done { outcome: Ok("idle"@) }
        } else {
            StepView::Sleep { millis: PAUSE_MILLIS, next: AfterSleepView::Paused { wait } }
        },
        AfterClock::Marked { wait } => StepView::Clock {
            next: AfterClock::Judged {
                wait: IdleWait { timeout_ms: wait.timeout_ms, started: wait.started, active: now },
            },
        },
    }
}

/// The reply tells of pending requests.
pub open spec fn tells_of_requests(reply: JsonView) -> bool {
    match returned_value(reply) {
        Some(value) => match value.as_u64() {
            Some(count) => count > 0,
            None => false,
        },
        None => false,
    }
}

/// What follows when the pending requests have been counted.
pub open spec fn after_counting(wait: IdleWait, reply: Result<JsonView, Seq<char>>) -> StepView {
    match reply {
        Ok(value) => if tells_of_requests(value) {
            StepView::Clock { next: AfterClock::Marked { wait } }
        } else {
            StepView::Clock { next: AfterClock::Judged { wait } }
        },
        Err(message) => StepView::Done { outcome: Err(message) },
    }
}

/// The step that begins a wait for a silent network.
pub fn wait_for_network_idle(timeout_ms: u64) -> (step: Step)
    ensures
        step@ == (StepView::Clock { next: AfterClock::Started { timeout_ms } }),
{
    Step::Clock { next: AfterClock::Started { timeout_ms } }
}

/// Whether more than `limit_ms` milliseconds lie between two readings.
fn exceeds(now: u128, since: u128, limit_ms: u128) -> (more: bool)
    requires
        limit_ms <= u64::MAX,
    ensures
        more == (elapsed(now, since) > limit_ms * NANOS_PER_MILLI),
{
    let passed: u128 = if now >= since {
        now - since
    } else {
        0
    };
    passed > limit_ms * NANOS_PER_MILLI
}

impl AfterClock {
    /// Goes on with a reading of the clock, in nanoseconds.
    pub fn resume(self, now: u128) -> (step: Step)
        ensures
            step@ == after_clock(self, now),
            step@.wf(),
    {
        match self {
            AfterClock::Started { timeout_ms } => Step::Clock {
                next: AfterClock::Begun { timeout_ms, started: now },
            },
            AfterClock::Begun { timeout_ms, started } => Step::Clock {
                next: AfterClock::Judged { wait: IdleWait { timeout_ms, started, active: now } },
            },
            AfterClock::Judged { wait } => if exceeds(now, wait.started, wait.timeout_ms as u128) {
                Step::Done { outcome: Ok("timeout".to_owned()) }
            } else {
                Step::Clock { next: AfterClock::Listened { wait } }
            },
            AfterClock::Listened { wait } => if exceeds(now, wait.active, QUIET_MILLIS) {
                Step::Done { outcome: Ok("idle".to_owned()) }
            } else {
                Step::Sleep { millis: PAUSE_MILLIS, next: AfterSleep::Paused { wait } }
            },
            AfterClock::Marked { wait } => Step::Clock {
                next: AfterClock::Judged {
                    wait: IdleWait {
                        timeout_ms: wait.timeout_ms,
                        started: wait.started,
                        active: now,
                    },
                },
            },
        }
    }
}

/// What follows after a pause in the wait.
pub fn paused(wait: IdleWait) -> (step: Step)
    ensures
        step@ == evaluation(scripts::PENDING_REQUESTS@, AfterCallView::Counted { wait }),
        step@.wf(),
{
    evaluate(scripts::PENDING_REQUESTS.to_owned(), AfterCall::Counted { wait })
}

/// What follows when the pending requests have been counted.
pub fn counted(wait: IdleWait, reply: Result<Json, String>) -> (step: Step)
    ensures
        step@ == after_counting(wait, json_outcome(reply)),
        step@.wf(),
{
    match reply {
        Ok(value) => {
            let pending = match read_returned_value(&value) {
                Some(value) => match value.as_u64() {
                    Some(count) => count > 0,
                    None => false,
                },
                None => false,
            };
            if pending {
                Step::Clock { next: AfterClock::Marked { wait } }
            } else {
                Step::Clock { next: AfterClock::Judged { wait } }
            }
        },
        Err(message) => Step::Done { outcome: Err(message) },
    }
}

/// A wait ends well for one of two reasons only: as "timeout" when more time
/// has passed than it was given, and as "idle" when no pending request was seen
/// for more than half a second. Both are decided on a reading of the clock, and
/// a wait whose time is up always ends at the next decision on it.
pub proof fn law_wait_ends_for_a_reason(after: AfterClock, now: u128)
    ensures
        after_clock(after, now) == (StepView::Done { outcome: Ok("timeout"@) }) <==> (
        after matches AfterClock::Judged { wait } && timed_out(wait, now)),
        after_clock(after, now) == (StepView::Done { outcome: Ok("idle"@) }) <==> (
        after matches AfterClock::Listened { wait } && silent(wait, now)),
        after_clock(after, now) matches StepView::Done { outcome } ==> outcome == Ok::<
            Seq<char>,
            Seq<char>,
        >("timeout"@) || outcome == Ok::<Seq<char>, Seq<char>>("idle"@),
{
    reveal_strlit("timeout");
    reveal_strlit("idle");
    assert("timeout"@.len() != "idle"@.len());
}

/// A pending request puts the silence back to its beginning, and nothing else
/// of the wait changes.
pub proof fn law_request_restarts_the_silence(wait: IdleWait, now: u128, reply: JsonView)
    requires
        tells_of_requests(reply),
    ensures
        after_counting(wait, Ok(reply)) == (StepView::Clock { next: AfterClock::Marked { wait } }),
        after_clock(AfterClock::Marked { wait }, now) == (StepView::Clock {
            next: AfterClock::Judged { wait: IdleWait { active: now, ..wait } },
        }),
        !silent(IdleWait { active: now, ..wait }, now),
{
}

} // verus!
