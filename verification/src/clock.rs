//! Wall-clock readings for timestamps and latency measurement.

use vstd::prelude::*;

verus! {

/// Milliseconds since the Unix epoch of the current instant.
///
/// Relies on chrono::Utc::now and chrono::DateTime::timestamp_millis.
/// Nothing can be promised of a clock reading.
#[verifier::external_body]
pub fn now_millis() -> i64 {
    chrono::Utc::now().timestamp_millis()
}

/// Microseconds since the Unix epoch of the current instant.
///
/// Relies on chrono::Utc::now and chrono::DateTime::timestamp_micros.
/// Nothing can be promised of a clock reading.
#[verifier::external_body]
pub fn now_micros() -> i64 {
    chrono::Utc::now().timestamp_micros()
}

} // verus!
