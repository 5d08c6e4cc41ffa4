//! The wall clock, for time stamps.
use vstd::prelude::*;

verus! {

/// The current time as an ISO 8601 text in UTC with milliseconds and a `Z`
/// (`chrono::Utc::now` formatted by `to_rfc3339_opts`).  Nothing is stated
/// of the text: it depends on the time of the call.
#[verifier::external_body]
pub fn now_iso() -> String {
    chrono::Utc::now().to_rfc3339_opts(chrono::SecondsFormat::Millis, true)
}

/// Milliseconds since the Unix epoch (`std::time::SystemTime::now`), 0 when
/// the clock is set before the epoch.  Nothing is stated of the number: it
/// depends on the time of the call.
#[verifier::external_body]
pub fn now_ms() -> i64 {
    match std::time::SystemTime::now().duration_since(std::time::UNIX_EPOCH) {
        Ok(d) => d.as_millis() as i64,
        Err(_) => 0,
    }
}

} // verus!
