//! Verdicts of the scheduling-latency diagnostics, over measured durations in
//! nanoseconds.  The measuring itself (sleeping, spawning, reading clocks) is
//! done by the caller.
use vstd::prelude::*;

verus! {

/// Nanoseconds per millisecond.
pub const NANOS_PER_MILLI: u128 = 1_000_000;

/// Nanoseconds per microsecond.
pub const NANOS_PER_MICRO: u128 = 1_000;

/// How fine the system timer is, judged by the shortest of a series of short sleeps.
#[derive(Debug, Clone, Copy, PartialEq, Eq, Structural)]
pub enum TimerResolution {
    /// The shortest sleep took more than 10 ms.
    TooCoarse,
    /// The shortest sleep took more than 1 ms.
    CouldBeBetter,
    /// The shortest sleep took at most 1 ms.
    Good,
}

/// A wake-up through a notification that takes more than 10 ms is too slow.
pub fn is_high_notify_latency(latency_nanos: u128) -> (high: bool)
    ensures
        high == (latency_nanos > 10 * NANOS_PER_MILLI),
{
    latency_nanos > 10 * NANOS_PER_MILLI
}

/// A channel hand-over below 1 ms is excellent.
pub fn is_excellent_channel_latency(latency_nanos: u128) -> (excellent: bool)
    ensures
        excellent == (latency_nanos < NANOS_PER_MILLI),
{
    latency_nanos < NANOS_PER_MILLI
}

/// A spin-wait wake-up below 10 µs is excellent.
pub fn is_excellent_spin_latency(latency_nanos: u128) -> (excellent: bool)
    ensures
        excellent == (latency_nanos < 10 * NANOS_PER_MICRO),
{
    latency_nanos < 10 * NANOS_PER_MICRO
}

/// Judge the timer resolution from the shortest measured sleep.
pub fn timer_resolution(min_sleep_nanos: u128) -> (r: TimerResolution)
    ensures
        r == if min_sleep_nanos > 10 * NANOS_PER_MILLI {
            TimerResolution::TooCoarse
        } else if min_sleep_nanos > NANOS_PER_MILLI {
            TimerResolution::CouldBeBetter
        } else {
            TimerResolution::Good
        },
{
    if min_sleep_nanos > 10 * NANOS_PER_MILLI {
        TimerResolution::TooCoarse
    } else if min_sleep_nanos > NANOS_PER_MILLI {
        TimerResolution::CouldBeBetter
    } else {
        TimerResolution::Good
    }
}

/// Minimum and median of measurements sorted in ascending order.
pub fn min_and_median(sorted: &Vec<u128>) -> (r: (u128, u128))
    requires
        sorted@.len() > 0,
        forall|i: int, j: int| 0 <= i <= j < sorted@.len() ==> sorted@[i] <= sorted@[j],
    ensures
        r.0 == sorted@[0],
        r.1 == sorted@[(sorted@.len() / 2) as int],
        forall|i: int| 0 <= i < sorted@.len() ==> r.0 <= #[trigger] sorted@[i],
{
    (sorted[0], sorted[sorted.len() / 2])
}

} // verus!
