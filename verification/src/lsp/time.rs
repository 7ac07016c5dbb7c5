//! The clock by which waits are bounded.

use std::time::{Duration, Instant};
use vstd::prelude::*;

verus! {

/// A moment on the monotonic clock of `std`.
#[verifier::external_type_specification]
#[verifier::external_body]
pub struct ExInstant(Instant);

/// `Instant::now`: the present moment. Nothing is claimed of it.
#[verifier::external_body]
pub(crate) fn now() -> (instant: Instant) {
    Instant::now()
}

/// `Instant::elapsed`: the time that has passed since `since`. Nothing is
/// claimed of it.
#[verifier::external_body]
pub(crate) fn elapsed(since: &Instant) -> (duration: Duration) {
    since.elapsed()
}

/// `Duration::as_millis`: the whole milliseconds in `duration`. Nothing is
/// claimed of the number.
#[verifier::external_body]
pub(crate) fn as_millis(duration: &Duration) -> (millis: u128) {
    duration.as_millis()
}

/// The whole milliseconds since `since`, as far as a `u64` can count them.
pub(crate) fn elapsed_ms(since: &Instant) -> (millis: u64) {
    let passed = elapsed(since);
    millis_within_u64(as_millis(&passed))
}

/// A count of milliseconds as the waits keep it: the count itself, and the
/// largest `u64` in place of a count that no `u64` holds.
pub fn millis_within_u64(millis: u128) -> (kept: u64)
    ensures
        kept == if millis <= u64::MAX {
            millis
        } else {
            u64::MAX as u128
        },
{
    if millis > 0xffff_ffff_ffff_ffff {
        u64::MAX
    } else {
        millis as u64
    }
}

} // verus!
