use vstd::prelude::*;

verus! {

/// web_time::Instant, a reading of the monotonic clock, carried opaquely.
#[verifier::external_type_specification]
#[verifier::external_body]
pub struct ExInstant(web_time::Instant);

/// Relies on web_time::Instant::now: a reading of the monotonic clock.
#[verifier::external_body]
pub(crate) fn now() -> web_time::Instant {
    web_time::Instant::now()
}

/// Relies on web_time::Instant::elapsed, read in whole microseconds: the time
/// since `t`. The clock decides its value, so nothing is stated of it.
#[verifier::external_body]
pub(crate) fn elapsed_micros(t: &web_time::Instant) -> u128 {
    t.elapsed().as_micros()
}

} // verus!
