use vstd::prelude::*;
use std::time::{Duration, Instant};

verus! {

/// A reading of the monotonic clock of std, `std::time::Instant`; opaque here.
#[verifier::external_type_specification]
#[verifier::external_body]
pub struct ExInstant(Instant);

/// The current time, through `Instant::now`. Nothing is stated of the result: it is read from
/// the clock.
#[verifier::external_body]
pub(crate) fn now() -> Instant {
    Instant::now()
}

/// The time passed since `start`, through `Instant::elapsed`. Nothing is stated of the result:
/// it is read from the clock.
#[verifier::external_body]
pub(crate) fn elapsed(start: &Instant) -> Duration {
    start.elapsed()
}

/// The whole milliseconds of a duration, through `Duration::as_millis`. Nothing is stated of
/// the result, which only ever measures time here.
#[verifier::external_body]
pub(crate) fn as_millis(d: &Duration) -> u128 {
    d.as_millis()
}

} // verus!
