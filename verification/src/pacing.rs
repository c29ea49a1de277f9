//! Fixed-rate tick pacing without catch-up.

use vstd::prelude::*;

verus! {

/// Ticks the server attempts per second.
pub const TICK_RATE: u64 = 60;

/// Length of one tick, in a clock that counts `units_per_second` units each
/// second, rounded down.
pub open spec fn spec_tick_period(units_per_second: u64) -> u64 {
    units_per_second / TICK_RATE
}

/// Time left to sleep once a tick body has used `elapsed` of a `period`.
pub open spec fn spec_sleep_budget(period: u64, elapsed: u64) -> u64 {
    if elapsed < period {
        (period - elapsed) as u64
    } else {
        0
    }
}

/// Computes the tick period for a clock of the given resolution.
pub fn tick_period(units_per_second: u64) -> (period: u64)
    ensures
        period == spec_tick_period(units_per_second),
{
    units_per_second / TICK_RATE
}

/// Computes how long the loop sleeps before the next tick: the rest of the
/// period when the body was faster, nothing when it overran.
pub fn sleep_budget(period: u64, elapsed: u64) -> (pause: u64)
    ensures
        pause == spec_sleep_budget(period, elapsed),
{
    if elapsed < period {
        period - elapsed
    } else {
        0
    }
}

/// A tick and the pause after it together last the period when the body was
/// faster than the period, and exactly the body's time when it overran:
/// the next tick is never delayed past the period, and an overrun is neither
/// made up for nor answered by skipping a tick.
pub proof fn lemma_tick_and_pause(period: u64, elapsed: u64)
    ensures
        elapsed + spec_sleep_budget(period, elapsed) == if elapsed < period {
            period as int
        } else {
            elapsed as int
        },
        elapsed >= period ==> spec_sleep_budget(period, elapsed) == 0,
        spec_sleep_budget(period, elapsed) <= period,
{
}

} // verus!
