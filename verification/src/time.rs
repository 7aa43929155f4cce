//! Time values used by the frame engine: `std::time::Duration` taken by its
//! length in nanoseconds, and `std::time::Instant` readings of the clock.

use std::time::{Duration, Instant};
use vstd::prelude::*;

verus! {

/// One millisecond, in nanoseconds.
pub const NANOS_PER_MILLI: u64 = 1_000_000;

/// The length of `Duration::MAX` in nanoseconds: `u64::MAX` seconds and
/// 999_999_999 nanoseconds, the value that std documents as the one used on
/// all platforms.
pub open spec fn max_duration_nanos() -> nat {
    18_446_744_073_709_551_615nat * 1_000_000_000nat + 999_999_999nat
}

/// A reading of the monotonic clock.
#[verifier::external_type_specification]
#[verifier::external_body]
pub struct ExInstant(Instant);

/// The total number of nanoseconds that a `Duration` holds, as
/// `Duration::as_nanos` returns it.
pub uninterp spec fn duration_nanos(d: Duration) -> nat;

/// The length of the span from `earlier` to `later`, as
/// `Instant::duration_since` returns it.
pub uninterp spec fn instant_gap(later: Instant, earlier: Instant) -> nat;

/// `Duration::as_nanos`: the whole length of `d` in nanoseconds.
#[verifier::external_body]
pub fn nanos_of(d: Duration) -> (n: u128)
    ensures
        n == duration_nanos(d),
{
    d.as_nanos()
}

/// `Duration::from_millis`: a duration of `ms` milliseconds.
#[verifier::external_body]
pub fn from_millis(ms: u64) -> (d: Duration)
    ensures
        duration_nanos(d) == ms * NANOS_PER_MILLI,
{
    Duration::from_millis(ms)
}

/// `Duration::checked_add`: the sum of two durations, or `None` when the sum
/// overflows, that is exceeds `Duration::MAX`.
#[verifier::external_body]
pub fn checked_add(a: Duration, b: Duration) -> (r: Option<Duration>)
    ensures
        match r {
            Some(s) => duration_nanos(s) == duration_nanos(a) + duration_nanos(b),
            None => duration_nanos(a) + duration_nanos(b) > max_duration_nanos(),
        },
{
    a.checked_add(b)
}

/// `Instant::now`: the current reading of the monotonic clock. Nothing is
/// stated of the value, which depends on the time of the call.
#[verifier::external_body]
pub fn instant_now() -> Instant {
    Instant::now()
}

/// `Instant::duration_since`: the time elapsed from `earlier` to `later`
/// (zero when `earlier` is the later of the two).
#[verifier::external_body]
pub fn duration_since(later: &Instant, earlier: &Instant) -> (d: Duration)
    ensures
        duration_nanos(d) == instant_gap(*later, *earlier),
{
    later.duration_since(*earlier)
}

} // verus!
