//! Wall-clock time.

use vstd::prelude::*;

verus! {

/// `chrono::Utc::now()`, as milliseconds since the Unix epoch. Nothing is
/// promised of the value: it is the time of the call.
#[verifier::external_body]
pub(crate) fn now_millis() -> i64 {
    chrono::Utc::now().timestamp_millis()
}

/// What `chrono::DateTime::parse_from_rfc3339` reads from a text, as
/// milliseconds since the Unix epoch; `None` when it rejects the text.
pub uninterp spec fn rfc3339_millis(s: Seq<char>) -> Option<int>;

/// `chrono::DateTime::parse_from_rfc3339`, taken as milliseconds since the
/// Unix epoch (the instant does not depend on the offset it is written
/// in). The result is a function of the text alone.
#[verifier::external_body]
pub(crate) fn parse_rfc3339_millis(s: &str) -> (r: Option<i64>)
    ensures
        match r {
            Some(v) => rfc3339_millis(s@) == Some(v as int),
            None => rfc3339_millis(s@) is None,
        },
{
    match chrono::DateTime::parse_from_rfc3339(s) {
        Ok(dt) => Some(dt.timestamp_millis()),
        Err(_) => None,
    }
}

} // verus!
