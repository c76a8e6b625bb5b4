//! Durations between readings of a monotonic clock.
//!
//! A reading is a number of nanoseconds since some fixed moment.

use vstd::prelude::*;

verus! {

/// Nanoseconds in a millisecond.
pub const NANOS_PER_MILLI: u128 = 1_000_000;

/// The whole milliseconds from the reading `start` to the reading `now`, zero
/// where `now` is not later.
pub open spec fn millis_between(start: u128, now: u128) -> u128 {
    if start <= now {
        ((now - start) as u128) / NANOS_PER_MILLI
    } else {
        0
    }
}

/// The whole milliseconds that have passed since the reading `start`.
pub fn elapsed_millis(start: u128, now: u128) -> (millis: u128)
    ensures
        millis == millis_between(start, now),
{
    if start <= now {
        (now - start) / NANOS_PER_MILLI
    } else {
        0
    }
}

/// A duration never shrinks as the clock moves on.
pub proof fn law_durations_grow(start: u128, earlier: u128, later: u128)
    requires
        earlier <= later,
    ensures
        millis_between(start, earlier) <= millis_between(start, later),
{
}

/// A duration is the time between the two readings, cut off to whole
/// milliseconds: no millisecond is lost and none is added. It is zero where the
/// second reading is not later.
pub proof fn law_durations_are_whole_milliseconds(start: u128, now: u128, millis: u128)
    requires
        call_ensures(elapsed_millis, (start, now), millis),
    ensures
        start <= now ==> millis * 1_000_000 <= now - start < (millis + 1) * 1_000_000,
        now <= start ==> millis == 0,
{
    lemma_millis_between(start, now);
}

/// The whole milliseconds between two readings, by multiplication.
pub proof fn lemma_millis_between(start: u128, now: u128)
    ensures
        start <= now ==> millis_between(start, now) * 1_000_000 <= now - start < (millis_between(
            start,
            now,
        ) + 1) * 1_000_000,
        now <= start ==> millis_between(start, now) == 0,
{
}

/// Of two durations from one reading, the one that is taken later is not shorter.
pub proof fn law_later_readings_last_longer(
    start: u128,
    earlier: u128,
    later: u128,
    short: u128,
    long: u128,
)
    requires
        earlier <= later,
        call_ensures(elapsed_millis, (start, earlier), short),
        call_ensures(elapsed_millis, (start, later), long),
    ensures
        short <= long,
{
    law_durations_grow(start, earlier, later);
}

} // verus!
