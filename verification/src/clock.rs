//! The clock: how long it is from one instant to another.

use std::time::{Duration, Instant};
use vstd::prelude::*;

verus! {

/// `std::time::Instant`, a reading of the clock: nothing is known of what is in it.
#[verifier::external_type_specification]
#[verifier::external_body]
pub struct ExInstant(Instant);

/// `Instant::now` reads the clock: nothing is claimed of the instant it gives.
pub assume_specification[ Instant::now ]() -> (now: Instant);

/// `Instant::saturating_duration_since` gives the time from `earlier` to
/// `later`, none where `earlier` is the later one: one duration for two instants.
pub assume_specification[ Instant::saturating_duration_since ](
    later: &Instant,
    earlier: Instant,
) -> (gap: Duration)
    ensures
        gap == duration_between(*later, earlier),
;

/// `Duration::as_secs` gives the whole seconds of a duration: one number for one duration.
pub assume_specification[ Duration::as_secs ](duration: &Duration) -> (secs: u64)
    ensures
        secs == whole_secs(*duration),
;

/// `Duration::subsec_nanos` gives the nanoseconds beyond the whole seconds: under a second.
pub assume_specification[ Duration::subsec_nanos ](duration: &Duration) -> (nanos: u32)
    ensures
        nanos == nanos_beyond(*duration),
        nanos < 1_000_000_000,
;

/// The time from `start` to `stop`, or to now where no `stop` is given, as
/// whole seconds and the nanoseconds beyond them.
pub fn measure(start: Instant, stop: Option<Instant>) -> (gap: (u64, u32))
    ensures
        gap.1 < 1_000_000_000,
        match stop {
            Some(stop) => gap == gap_between(stop, start),
            None => exists|now: Instant| gap == #[trigger] gap_between(now, start),
        },
{
    let end = match stop {
        Some(stop) => stop,
        None => Instant::now(),
    };
    let gap = end.saturating_duration_since(start);
    let parts: (u64, u32) = (gap.as_secs(), gap.subsec_nanos());
    assert(parts == gap_between(end, start));
    parts
}

/// The duration that `Instant::saturating_duration_since` gives from `earlier`
/// to `later`.
pub uninterp spec fn duration_between(later: Instant, earlier: Instant) -> Duration;

/// The whole seconds that `Duration::as_secs` gives of `duration`.
pub uninterp spec fn whole_secs(duration: Duration) -> u64;

/// The nanoseconds that `Duration::subsec_nanos` gives of `duration`.
pub uninterp spec fn nanos_beyond(duration: Duration) -> u32;

/// The time from `earlier` to `later`, as whole seconds and the nanoseconds
/// beyond them.
pub open spec fn gap_between(later: Instant, earlier: Instant) -> (u64, u32) {
    let gap = duration_between(later, earlier);
    (whole_secs(gap), nanos_beyond(gap))
}

} // verus!
