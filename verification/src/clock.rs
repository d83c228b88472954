//! The time base of the activity tracking.
use vstd::prelude::*;

verus! {

/// Milliseconds since start-up, from `embassy_time::Instant::now` and
/// `Instant::as_millis`. Nothing is stated of the value: it depends on when the call
/// is made.
#[verifier::external_body]
pub(crate) fn now_ms() -> (now: u64) {
    embassy_time::Instant::now().as_millis()
}

} // verus!
