//! `std::time::Duration`, seen by the simulation as a count of nanoseconds,
//! and the system clock.

use std::time::{Duration, Instant};
use vstd::prelude::*;

verus! {

/// The largest number of nanoseconds that a `Duration` holds: `u64::MAX`
/// seconds and 999,999,999 nanoseconds, as `Duration::MAX` documents.
pub open spec fn max_duration_nanos() -> int {
    18446744073709551615int * 1_000_000_000 + 999_999_999
}

/// What `Duration::as_nanos` returns for `d`: the whole nanoseconds that the
/// duration holds.
pub uninterp spec fn duration_nanos(d: Duration) -> u128;

/// Calls `Duration::as_nanos`. Trusted: the result is the duration's whole
/// nanoseconds, named `duration_nanos`, and no more than `Duration::MAX`.
#[verifier::external_body]
pub(crate) fn as_nanos(d: &Duration) -> (n: u128)
    ensures
        n == duration_nanos(*d),
        n <= max_duration_nanos(),
{
    d.as_nanos()
}

/// Calls `Duration::as_millis`. Trusted: the result is the duration's whole
/// milliseconds, that is its nanoseconds divided by a million, rounded down.
#[verifier::external_body]
pub(crate) fn as_millis(d: &Duration) -> (ms: u128)
    ensures
        ms == duration_nanos(*d) / 1_000_000,
{
    d.as_millis()
}

/// Calls `Duration::from_millis`. Trusted: the duration holds `ms`
/// milliseconds.
#[verifier::external_body]
pub(crate) fn from_millis(ms: u64) -> (d: Duration)
    ensures
        duration_nanos(d) == ms * 1_000_000,
{
    Duration::from_millis(ms)
}

/// Calls `Duration`'s `+`. Trusted: the sum holds the nanoseconds of both;
/// `requires` excludes the overflow on which `+` panics.
#[verifier::external_body]
pub(crate) fn add_durations(a: Duration, b: Duration) -> (d: Duration)
    requires
        duration_nanos(a) + duration_nanos(b) <= max_duration_nanos(),
    ensures
        duration_nanos(d) == duration_nanos(a) + duration_nanos(b),
{
    a + b
}

/// The whole nanoseconds that `d` holds.
pub fn duration_as_nanos(d: &Duration) -> (n: u128)
    ensures
        n == duration_nanos(*d),
        n <= max_duration_nanos(),
{
    as_nanos(d)
}

/// A duration of `ms` milliseconds.
pub fn duration_from_millis(ms: u64) -> (d: Duration)
    ensures
        duration_nanos(d) == ms * 1_000_000,
{
    from_millis(ms)
}

#[verifier::external_type_specification]
#[verifier::external_body]
pub struct ExInstant(Instant);

/// Calls `instant::Instant::now`, which reads the system clock (on native
/// targets `instant::Instant` is `std::time::Instant`; in the browser it is
/// the crate's own clock). Nothing is stated: the result is the time.
#[verifier::external_body]
pub(crate) fn now() -> (t: instant::Instant) {
    instant::Instant::now()
}

/// Calls `instant::Instant::elapsed`. Nothing is stated: the result depends
/// on the time.
#[verifier::external_body]
pub(crate) fn elapsed(since: &instant::Instant) -> (d: Duration) {
    since.elapsed()
}

} // verus!
