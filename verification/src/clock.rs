//! The wall clock, in milliseconds since the Unix epoch.

use vstd::prelude::*;
use std::time::{Duration, SystemTimeError};

verus! {

/// The bound, in milliseconds either side of the Unix epoch, of the times the
/// clock gives: some 317,000 years.
pub const CLOCK_BOUND_MS: i64 = 10_000_000_000_000_000;

/// Declares `std::time::SystemTimeError`, what `SystemTime::elapsed` gives
/// when the clock reads before the time it is asked about.
#[verifier::external_type_specification]
#[verifier::external_body]
pub struct ExSystemTimeError(SystemTimeError);

/// Reads how long ago the Unix epoch was with `SystemTime::elapsed` on
/// `UNIX_EPOCH`: the time since it, or, when the clock reads before 1970,
/// an error that holds how far before. The result depends on the clock
/// alone, so nothing is claimed of it; the call does not panic.
#[verifier::external_body]
fn epoch_elapsed() -> (r: Result<Duration, SystemTimeError>) {
    std::time::UNIX_EPOCH.elapsed()
}

/// `SystemTimeError::duration` gives how far the clock was behind. Nothing
/// is claimed of the duration, which is opaque here.
pub assume_specification[ SystemTimeError::duration ](e: &SystemTimeError) -> Duration;

/// `Duration::as_millis` gives the whole milliseconds of a duration. Nothing
/// is claimed of the number, which depends on the opaque duration.
pub assume_specification[ Duration::as_millis ](d: &Duration) -> u128;

/// The current time in milliseconds since the Unix epoch: negative when the
/// clock reads before 1970, and held within `CLOCK_BOUND_MS` of the epoch
/// when it reads further away than that.
pub fn now_millis() -> (r: i64)
    ensures
        -CLOCK_BOUND_MS < r < CLOCK_BOUND_MS,
{
    let bound: u128 = 9_999_999_999_999_999;
    match epoch_elapsed() {
        Ok(d) => {
            let ms = d.as_millis();
            if ms <= bound {
                ms as i64
            } else {
                bound as i64
            }
        },
        Err(e) => {
            let ms = e.duration().as_millis();
            if ms <= bound {
                0 - (ms as i64)
            } else {
                0 - (bound as i64)
            }
        },
    }
}

} // verus!
