//! Trusted access to wall-clock time.
//!
//! Nothing can be promised of a clock reading, so these wrappers carry no
//! postconditions; every function that uses a reading takes it as a plain
//! value and is verified for every value.

use vstd::prelude::*;

verus! {

/// Milliseconds since the Unix epoch, clamped at zero for a clock set
/// before it.
///
/// Relies on `std::time::SystemTime::now` and
/// `duration_since(UNIX_EPOCH)`.
#[verifier::external_body]
pub fn now_millis() -> u64 {
    match std::time::SystemTime::now().duration_since(std::time::UNIX_EPOCH) {
        Ok(d) => d.as_millis() as u64,
        Err(_) => 0,
    }
}

/// The local date and time rendered as `YYYY-MM-DD HH:MM:SS`.
///
/// Relies on `chrono::Local::now` and `DateTime::format`.
#[verifier::external_body]
pub fn local_timestamp() -> String {
    chrono::Local::now().format("%Y-%m-%d %H:%M:%S").to_string()
}

} // verus!
