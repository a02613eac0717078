//! The wall clock.
use vstd::prelude::*;

verus! {

/// The current time in milliseconds since the Unix epoch, read with
/// `chrono::Utc::now` and `DateTime::timestamp_millis`. Nothing is claimed of
/// the value.
#[verifier::external_body]
pub(crate) fn now_millis() -> (t: i64) {
    chrono::Utc::now().timestamp_millis()
}

/// The current time in seconds since the Unix epoch, read with
/// `chrono::Utc::now` and `DateTime::timestamp`. Nothing is claimed of the
/// value.
#[verifier::external_body]
pub(crate) fn now_secs() -> (t: i64) {
    chrono::Utc::now().timestamp()
}

} // verus!
