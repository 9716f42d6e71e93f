//! The clock that samples are stamped with.

use std::time::{Duration, Instant};
use vstd::prelude::*;

verus! {

/// `std::time::Instant`, as an opaque type.
#[verifier::external_type_specification]
#[verifier::external_body]
pub struct ExInstant(std::time::Instant);

/// What the monotonic clock showed at an instant, in nanoseconds.
pub uninterp spec fn reading(instant: std::time::Instant) -> int;

/// The nanoseconds of a duration.
pub uninterp spec fn nanos(duration: core::time::Duration) -> nat;

/// `Instant::now` reads the monotonic clock; nothing is claimed of the
/// reading.
pub assume_specification[ std::time::Instant::now ]() -> std::time::Instant;

/// `Instant::saturating_duration_since` gives the time from one reading of
/// the clock to another, or no time at all if the first is the later.
pub assume_specification[ std::time::Instant::saturating_duration_since ](later: &std::time::Instant, earlier: std::time::Instant) -> (elapsed: core::time::Duration)
    ensures
        nanos(elapsed) == if reading(earlier) <= reading(*later) {
            reading(*later) - reading(earlier)
        } else {
            0
        },
;

/// `Duration::as_millis` gives the whole milliseconds of a duration.
pub assume_specification[ core::time::Duration::as_millis ](duration: &core::time::Duration) -> (millis: u128)
    ensures
        millis == nanos(*duration) / 1_000_000,
;

/// Minimum time between two frames that are encoded, in milliseconds: a
/// thirtieth of a second.
pub const MIN_FRAME_INTERVAL_MILLIS: u128 = 33;

/// The nanoseconds from `earlier` to `later`; none if it is the other way
/// round.
pub open spec fn nanos_between(earlier: Instant, later: Instant) -> nat {
    if reading(earlier) <= reading(later) {
        (reading(later) - reading(earlier)) as nat
    } else {
        0
    }
}

/// The whole milliseconds from `earlier` to `later`.
pub open spec fn millis_between(earlier: Instant, later: Instant) -> nat {
    nanos_between(earlier, later) / 1_000_000
}

/// The whole milliseconds that have passed at `now` since `start`.
pub(crate) fn millis_since(start: Instant, now: Instant) -> (millis: u128)
    ensures
        millis == millis_between(start, now),
{
    let elapsed: Duration = now.saturating_duration_since(start);
    elapsed.as_millis()
}

/// Milliseconds are counted when they are full: a time in nanoseconds lies
/// between as many and one more. No time passes backwards.
pub proof fn law_whole_milliseconds(earlier: Instant, later: Instant)
    ensures
        reading(earlier) <= reading(later) ==> 1_000_000 * millis_between(earlier, later)
            <= reading(later) - reading(earlier) < 1_000_000 * (millis_between(earlier, later) + 1),
        reading(earlier) >= reading(later) ==> millis_between(earlier, later) == 0,
{
}

} // verus!
