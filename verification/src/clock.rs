use vstd::prelude::*;
use crate::operator::meta::Timestamp;

verus! {

/// Declares `std::time::SystemTimeError` so that its results can pass through.
#[verifier::external_type_specification]
#[verifier::external_body]
pub struct ExSystemTimeError(std::time::SystemTimeError);

/// Declares `std::time::SystemTime` so that clock readings can pass through.
#[verifier::external_type_specification]
#[verifier::external_body]
pub struct ExSystemTime(std::time::SystemTime);

/// `SystemTime::now()`: the reading depends on the moment of the call, so
/// nothing is stated of it.
#[verifier::external_body]
fn system_now() -> (r: std::time::SystemTime)
{
    std::time::SystemTime::now()
}

/// `SystemTime::duration_since(UNIX_EPOCH)`: the time since the epoch, or an
/// error where `t` stands before it. A `SystemTime` is opaque here, so nothing
/// is stated of the result.
#[verifier::external_body]
fn since_unix_epoch(t: &std::time::SystemTime) -> (r: Result<std::time::Duration, std::time::SystemTimeError>)
{
    t.duration_since(std::time::UNIX_EPOCH)
}

/// `Duration::as_secs()`: the whole seconds of a duration. A `Duration` is
/// opaque here, so nothing is stated of the result.
#[verifier::external_body]
fn duration_secs(d: &std::time::Duration) -> (r: u64)
{
    d.as_secs()
}

/// Seconds since the Unix epoch by the system clock; the error comes when
/// the clock stands before the epoch.
pub(crate) fn unix_time_secs() -> (r: Result<u64, std::time::SystemTimeError>)
{
    let now = system_now();
    match since_unix_epoch(&now) {
        Ok(d) => Ok(duration_secs(&d)),
        Err(e) => Err(e),
    }
}

/// `Duration::subsec_nanos()`: the fractional part of a duration in
/// nanoseconds, which std documents as always less than one billion.
#[verifier::external_body]
fn duration_subsec_nanos(d: &std::time::Duration) -> (r: u32)
    ensures
        r < 1_000_000_000,
{
    d.subsec_nanos()
}

/// The current time by the system clock as seconds and nanoseconds since the
/// Unix epoch; `None` where the clock stands before the epoch or too far
/// after it for the seconds to fit an `i64`.
pub(crate) fn clock_timestamp() -> (r: Option<Timestamp>)
    ensures
        r matches Some(t) ==> t.seconds >= 0 && t.nanos < 1_000_000_000,
{
    let now = system_now();
    match since_unix_epoch(&now) {
        Ok(d) => {
            let secs = duration_secs(&d);
            if secs > 0x7fff_ffff_ffff_ffff {
                return None;
            }
            Some(Timestamp { seconds: secs as i64, nanos: duration_subsec_nanos(&d) })
        },
        Err(_) => None,
    }
}

} // verus!
