//! The wall clock, read through std. Nothing is stated of what the clock
//! returns: it depends on the machine and the moment of the call.
use std::time::Duration;
use std::time::SystemTime;
use vstd::prelude::*;

verus! {

/// Declares `std::time::SystemTime` to the verifier; its value is opaque.
#[verifier::external_type_specification]
#[verifier::external_body]
pub struct ExSystemTime(std::time::SystemTime);

/// Calls `std::time::SystemTime::now`: the current wall-clock time.
/// Nothing is claimed of the result.
#[verifier::external_body]
pub(crate) fn system_time_now() -> (t: SystemTime) {
    SystemTime::now()
}

/// Calls `SystemTime::duration_since(UNIX_EPOCH)` on `t`: the time elapsed
/// since the Unix epoch, or `None` where `t` stands before the epoch (std's
/// error, converted). Nothing is claimed of which comes back.
#[verifier::external_body]
pub(crate) fn duration_since_unix_epoch(t: &SystemTime) -> (d: Option<Duration>) {
    match t.duration_since(std::time::UNIX_EPOCH) {
        Ok(d) => Some(d),
        Err(_) => None,
    }
}

/// Calls `Duration::as_millis`: the whole milliseconds in `d`.
/// Nothing is claimed of the result, since `Duration` is opaque here.
#[verifier::external_body]
pub(crate) fn duration_as_millis(d: &Duration) -> (ms: u128) {
    d.as_millis()
}

/// The current wall-clock time in milliseconds since the Unix epoch, cut to
/// its low 32 bits, or 0 if the clock stands before the epoch.
pub(crate) fn current_timestamp_ms() -> u32 {
    let now = system_time_now();
    match duration_since_unix_epoch(&now) {
        Some(elapsed) => {
            let ms = duration_as_millis(&elapsed);
            #[verifier::truncate]
            (ms as u32)
        },
        None => 0,
    }
}

} // verus!
