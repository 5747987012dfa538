//! The clock, as std reads it.

use vstd::prelude::*;

verus! {

#[verifier::external_type_specification]
#[verifier::external_body]
pub struct ExInstant(std::time::Instant);

#[verifier::external_type_specification]
#[verifier::external_body]
pub struct ExSystemTime(std::time::SystemTime);

/// Calls `std::time::Instant::now`: the instant at which the call is made.
#[verifier::external_body]
pub(crate) fn start() -> std::time::Instant {
    std::time::Instant::now()
}

/// Calls `std::time::Instant::elapsed`: the time that has passed since an
/// instant.
#[verifier::external_body]
pub(crate) fn elapsed(since: &std::time::Instant) -> std::time::Duration {
    since.elapsed()
}

/// Calls `std::time::Duration::as_nanos`: a span of time in nanoseconds.
#[verifier::external_body]
pub(crate) fn nanos(span: &std::time::Duration) -> u128 {
    span.as_nanos()
}

/// Calls `std::time::Duration::as_millis`: a span of time in milliseconds.
#[verifier::external_body]
pub(crate) fn millis(span: &std::time::Duration) -> u128 {
    span.as_millis()
}

/// Calls `std::time::SystemTime::now`: the time of day at which the call
/// is made.
#[verifier::external_body]
pub(crate) fn now() -> std::time::SystemTime {
    std::time::SystemTime::now()
}

/// Calls `std::time::SystemTime::duration_since` with the epoch: the time
/// that has passed since the epoch, or `None` where the time lies before
/// it.
#[verifier::external_body]
pub(crate) fn since_epoch(time: &std::time::SystemTime) -> Option<std::time::Duration> {
    time.duration_since(std::time::UNIX_EPOCH).ok()
}

/// The nanoseconds that have passed since an instant.
pub(crate) fn elapsed_nanos(since: &std::time::Instant) -> u128 {
    let span = elapsed(since);
    nanos(&span)
}

/// The milliseconds since the epoch, and 0 where the clock stands before
/// it.
pub(crate) fn now_millis() -> u128 {
    let time = now();
    match since_epoch(&time) {
        Some(span) => millis(&span),
        None => 0,
    }
}

} // verus!
