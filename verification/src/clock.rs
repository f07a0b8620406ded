//! The system clock.

use vstd::prelude::*;
use crate::text::{decimal, u64_to_string};

verus! {

#[verifier::external_type_specification]
#[verifier::external_body]
pub struct ExSystemTime(std::time::SystemTime);

#[verifier::external_type_specification]
#[verifier::external_body]
pub struct ExSystemTimeError(std::time::SystemTimeError);

/// `SystemTime::now()`: the current reading of the system clock.  It depends
/// on the clock, so nothing is stated of it.
#[verifier::external_body]
fn system_now() -> std::time::SystemTime {
    std::time::SystemTime::now()
}

/// `t.duration_since(UNIX_EPOCH)`: how long after the Unix epoch `t` lies, an
/// error when `t` lies before it.  Nothing is stated of which comes back, as
/// that depends on the reading.
#[verifier::external_body]
fn since_epoch(t: &std::time::SystemTime) -> Result<core::time::Duration, std::time::SystemTimeError> {
    t.duration_since(std::time::UNIX_EPOCH)
}

/// `Duration::as_secs`: the whole seconds of a duration.  The duration is
/// opaque here, so nothing is stated of the number.
#[verifier::external_body]
fn whole_seconds(d: &core::time::Duration) -> u64 {
    d.as_secs()
}

/// Whole seconds since the Unix epoch, or `None` when the clock reads
/// earlier than the epoch.
pub(crate) fn unix_seconds() -> Option<u64> {
    let now = system_now();
    match since_epoch(&now) {
        Ok(elapsed) => Some(whole_seconds(&elapsed)),
        Err(_) => None,
    }
}

/// A clock reading as seconds: the reading, 0 when there is none.
pub fn seconds_or_zero(s: Option<u64>) -> (r: u64)
    ensures
        r == match s {
            Some(x) => x,
            None => 0,
        },
{
    match s {
        Some(x) => x,
        None => 0,
    }
}

/// A clock reading in decimal, `"0"` when there is none.
pub fn timestamp_text(s: Option<u64>) -> (r: String)
    ensures
        r@ == match s {
            Some(x) => decimal(x as nat),
            None => "0"@,
        },
{
    match s {
        Some(x) => u64_to_string(x),
        None => String::from_str("0"),
    }
}

/// Seconds since the epoch, 0 when the clock reads earlier.
pub fn current_unix_ts() -> u64 {
    seconds_or_zero(unix_seconds())
}

/// Seconds since the epoch in decimal, `"0"` when the clock reads earlier.
pub fn unix_timestamp_string() -> (r: String)
    ensures
        r@ == "0"@ || exists|n: u64| r@ == decimal(n as nat),
{
    let s = unix_seconds();
    let r = timestamp_text(s);
    proof {
        if let Some(x) = s {
            assert(r@ == decimal(x as nat));
        }
    }
    r
}

} // verus!
