//! The tick and key source of the event bridge: it polls for keys no
//! longer than the time left to the next tick, so no tick is late by more
//! than one period.
use vstd::prelude::*;

verus! {

/// The tick period, in milliseconds.
pub const TICK_RATE_MS: u64 = 100;

/// How long to poll for a key, given the time since the last tick.
pub fn poll_timeout_ms(tick_rate_ms: u64, elapsed_ms: u64) -> (r: u64)
    ensures
        r == if elapsed_ms >= tick_rate_ms {
            0
        } else {
            tick_rate_ms - elapsed_ms
        },
        r <= tick_rate_ms,
{
    if elapsed_ms >= tick_rate_ms {
        0
    } else {
        tick_rate_ms - elapsed_ms
    }
}

/// Whether a tick is due, given the time since the last one.
pub fn tick_due(tick_rate_ms: u64, elapsed_ms: u64) -> (r: bool)
    ensures
        r == (elapsed_ms >= tick_rate_ms),
{
    elapsed_ms >= tick_rate_ms
}

} // verus!
