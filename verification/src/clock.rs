//! Time sources and durations, as the limiters read them from std.

use std::time::{Duration, Instant};
use vstd::prelude::*;

verus! {

/// `std::time::Instant`, carried through the limiters as an opaque value.
#[verifier::external_type_specification]
#[verifier::external_body]
pub struct ExInstant(Instant);

/// The whole length of a duration in nanoseconds, as `Duration::as_nanos` reports it.
pub uninterp spec fn duration_total_nanos(d: Duration) -> u128;

/// The nanoseconds of a duration, truncated to their low 64 bits.
pub open spec fn truncated_nanos(d: Duration) -> u64 {
    duration_total_nanos(d) as u64
}

/// Calls `Duration::as_nanos`. Trusted: the result is the total number of
/// nanoseconds of `d`, given the name `duration_total_nanos`.
#[verifier::external_body]
pub(crate) fn duration_as_nanos(d: &Duration) -> (n: u128)
    ensures
        n == duration_total_nanos(*d),
{
    d.as_nanos()
}

/// Calls `Duration::from_nanos`. Trusted: the duration built holds exactly `n`
/// nanoseconds, so that `as_nanos` gives `n` back, as std documents.
#[verifier::external_body]
pub(crate) fn duration_from_nanos(n: u64) -> (d: Duration)
    ensures
        duration_total_nanos(d) == n,
{
    Duration::from_nanos(n)
}

/// Calls `Instant::now`. Nothing is claimed of the instant it returns.
#[verifier::external_body]
pub(crate) fn instant_now() -> Instant {
    Instant::now()
}

/// The time elapsed from `earlier` to `later`, as `Instant::duration_since`
/// reports it.
pub uninterp spec fn instant_elapsed(later: Instant, earlier: Instant) -> Duration;

/// Calls `Instant::duration_since`. Trusted: the result depends on the two
/// instants alone, and is given the name `instant_elapsed`.
#[verifier::external_body]
pub(crate) fn instant_duration_since(later: &Instant, earlier: Instant) -> (d: Duration)
    ensures
        d == instant_elapsed(*later, earlier),
{
    later.duration_since(earlier)
}

} // verus!
