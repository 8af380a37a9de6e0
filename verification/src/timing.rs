//! Tick pacing: a loop that should run at most once every `tick_delay` sleeps
//! away what is left of the tick, or reports that the tick overran.
//! Durations are counted in nanoseconds.

use vstd::prelude::*;

verus! {

/// What a paced loop does at the end of an iteration.
#[derive(Debug, PartialEq, Eq, Structural)]
pub enum Pacing {
    /// Sleep this many nanoseconds before the next iteration.
    Sleep(u64),
    /// The iteration took at least a whole tick: go on at once.
    Overrun,
}

/// What a loop that wants one iteration per `tick_delay` nanoseconds does after
/// an iteration that took `elapsed` nanoseconds: sleep out the rest of the tick,
/// or go on at once when nothing of it is left.
pub open spec fn pace_spec(elapsed: u64, tick_delay: u64) -> Pacing {
    if elapsed < tick_delay {
        Pacing::Sleep((tick_delay - elapsed) as u64)
    } else {
        Pacing::Overrun
    }
}

/// Decides how a loop that wants one iteration per `tick_delay` nanoseconds
/// continues after an iteration that took `elapsed` nanoseconds.
pub fn pace(elapsed: u64, tick_delay: u64) -> (p: Pacing)
    ensures
        p == pace_spec(elapsed, tick_delay),
{
    if elapsed < tick_delay {
        Pacing::Sleep(tick_delay - elapsed)
    } else {
        Pacing::Overrun
    }
}

/// A paced iteration never ends later than one tick after it began: the time it
/// took plus the sleep it is given is exactly one tick, unless it overran.
pub proof fn law_pace_fills_the_tick(elapsed: u64, tick_delay: u64)
    ensures
        match pace_spec(elapsed, tick_delay) {
            Pacing::Sleep(rest) => rest > 0 && elapsed + rest == tick_delay,
            Pacing::Overrun => elapsed >= tick_delay,
        },
{
}

} // verus!
