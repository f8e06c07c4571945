//! Reading the monotonic clock. Time is kept as whole nanoseconds since an
//! origin instant; what the clock returns depends on when it is read, so
//! nothing is promised of it.
use vstd::prelude::*;
use std::time::{Duration, Instant};

verus! {

#[verifier::external_type_specification]
#[verifier::external_body]
pub struct ExInstant(Instant);

/// `Instant::now`: the current instant. Nothing is stated of it.
#[verifier::external_body]
pub(crate) fn instant_now() -> Instant {
    Instant::now()
}

/// `Instant::elapsed`: the time since `since`. Nothing is stated of it: it
/// depends on when the clock is read.
#[verifier::external_body]
pub(crate) fn instant_elapsed(since: &Instant) -> Duration {
    since.elapsed()
}

/// `Duration::as_nanos`: the whole nanoseconds in `d`. `Duration` is opaque
/// here, so the result is not tied to it by any clause.
#[verifier::external_body]
pub(crate) fn duration_nanos(d: &Duration) -> u128 {
    d.as_nanos()
}

/// Nanoseconds since `origin`, read from the clock.
pub(crate) fn nanos_since(origin: &Instant) -> u128 {
    let d = instant_elapsed(origin);
    duration_nanos(&d)
}

/// The time from `at` to `now`, or zero when `now` is not later.
pub open spec fn elapsed(now: u128, at: u128) -> int {
    if now >= at { now - at } else { 0 }
}

} // verus!
