//! Waiting for the metrics to meet a condition: what to do at each look.

use vstd::prelude::*;

verus! {

/// Why a wait ended without the condition.
#[derive(Debug, PartialEq, Eq)]
pub enum WaitError {
    /// The timeout, in milliseconds, passed; the text says what was awaited.
    Timeout(u64, String),
    /// The node is shutting down.
    ShuttingDown,
}

/// What a waiter does after looking at the latest metrics.
#[derive(Debug, Clone, Copy, PartialEq, Eq, Structural)]
pub enum WaitStep {
    /// The condition is met: return the metrics.
    Done,
    /// The deadline has passed: report a timeout.
    TimedOut,
    /// Sleep until the metrics change or this many milliseconds pass.
    Sleep(u64),
}

/// The deadline of a wait that starts at `now` and lasts `timeout`.
pub fn wait_deadline(now: u64, timeout: u64) -> (r: u64)
    requires
        now + timeout <= u64::MAX,
    ensures
        r == now + timeout,
{
    now + timeout
}

/// What to do at `now`, with the condition `met` or not, against the
/// deadline.
pub fn wait_step(met: bool, now: u64, deadline: u64) -> (r: WaitStep)
    ensures
        met ==> r == WaitStep::Done,
        !met && now >= deadline ==> r == WaitStep::TimedOut,
        !met && now < deadline ==> r == WaitStep::Sleep((deadline - now) as u64),
{
    if met {
        WaitStep::Done
    } else if now >= deadline {
        WaitStep::TimedOut
    } else {
        WaitStep::Sleep(deadline - now)
    }
}

/// The timeout of a wait: the given one, or ten years for a wait without
/// end.
pub fn wait_timeout(timeout: Option<u64>) -> (r: u64)
    ensures
        r == match timeout {
            Some(t) => t as int,
            None => 315360000000int,
        },
{
    match timeout {
        Some(t) => t,
        None => 86400 * 365 * 10 * 1000,
    }
}

} // verus!
