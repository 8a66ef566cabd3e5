//! The system clock.

use std::time::{Duration, SystemTime, SystemTimeError};
use vstd::prelude::*;

verus! {

/// `std::time::SystemTime`, a reading of the system clock.
#[verifier::external_type_specification]
#[verifier::external_body]
pub struct ExSystemTime(SystemTime);

/// `std::time::SystemTimeError`, the error of `SystemTime::duration_since`.
#[verifier::external_type_specification]
#[verifier::external_body]
pub struct ExSystemTimeError(SystemTimeError);

/// `SystemTime::now` reads the system clock. Nothing is claimed of the time
/// it returns: the clock may be set to any time, and may go back.
pub assume_specification[ SystemTime::now ]() -> SystemTime
;

/// `SystemTime::duration_since` gives the time that has passed from `earlier`
/// to `time`, or an error where `earlier` is the later of the two. Nothing is
/// claimed of which it is.
pub assume_specification[ SystemTime::duration_since ](
    time: &SystemTime,
    earlier: SystemTime,
) -> Result<Duration, SystemTimeError>
;

/// `Duration::as_nanos` gives a duration in nanoseconds. Nothing is claimed
/// of the number.
pub assume_specification[ Duration::as_nanos ](duration: &Duration) -> u128
;

/// The constant `std::time::UNIX_EPOCH`, the time from which timestamps count.
#[verifier::external_body]
fn unix_epoch() -> SystemTime {
    std::time::UNIX_EPOCH
}

/// The nanoseconds that the system clock shows since the epoch. A clock that
/// is set to a time before the epoch reads as zero.
pub fn unix_nanos() -> u128 {
    let now = SystemTime::now();
    match now.duration_since(unix_epoch()) {
        Ok(elapsed) => elapsed.as_nanos(),
        Err(_) => 0,
    }
}

/// The timestamp of a sample captured `nanos` nanoseconds after the epoch:
/// the low 64 bits of the number.
pub fn timestamp_of(nanos: u128) -> (timestamp: u64)
    ensures
        timestamp == nanos % 0x1_0000_0000_0000_0000,
{
    (nanos % 0x1_0000_0000_0000_0000u128) as u64
}

} // verus!
