use std::time::Instant;
use vstd::prelude::*;

verus! {

#[verifier::external_type_specification]
#[verifier::external_body]
pub struct ExInstant(Instant);

/// Reads the monotonic clock with `std::time::Instant::now`; what it returns
/// depends on the time, so nothing is promised of it.
#[verifier::external_body]
pub(crate) fn instant_now() -> Instant {
    Instant::now()
}

/// The whole seconds elapsed since `since`, as `since.elapsed().as_secs()` gives
/// them; they depend on the time, so nothing is promised of them.
#[verifier::external_body]
pub(crate) fn elapsed_secs(since: &Instant) -> u64 {
    since.elapsed().as_secs()
}

/// The whole milliseconds elapsed since `since`, as
/// `since.elapsed().as_millis()` gives them; they depend on the time, so
/// nothing is promised of them.
#[verifier::external_body]
pub(crate) fn elapsed_millis(since: &Instant) -> u128 {
    since.elapsed().as_millis()
}

} // verus!
