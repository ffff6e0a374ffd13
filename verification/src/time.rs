//! The calendar boundary: reading the clock, and writing and reading
//! RFC 3339 text for wire timestamps. Everything here goes through chrono.
use vstd::prelude::*;

use crate::model::{Timestamp, TS_RANGE};

verus! {

/// The RFC 3339 text of the instant `ms` milliseconds from the epoch.
pub uninterp spec fn rfc3339_of(ms: int) -> Seq<char>;

/// The instant an RFC 3339 text denotes, in milliseconds from the epoch,
/// if it denotes one.
pub uninterp spec fn rfc3339_ms_of(s: Seq<char>) -> Option<int>;

/// Relies on chrono's `DateTime::<Utc>::from_timestamp_millis` (defined for
/// the whole range admitted here) and `DateTime::to_rfc3339`: the text
/// depends on the instant alone.
#[verifier::external_body]
pub(crate) fn format_rfc3339(ms: i64) -> (r: String)
    requires
        -TS_RANGE <= ms <= TS_RANGE,
    ensures
        r@ == rfc3339_of(ms as int),
{
    chrono::DateTime::<chrono::Utc>::from_timestamp_millis(ms).unwrap().to_rfc3339()
}

/// Relies on chrono's `DateTime::parse_from_rfc3339` and
/// `DateTime::timestamp_millis`: whether the text parses, and to which
/// instant, depends on the text alone.
#[verifier::external_body]
pub(crate) fn parse_rfc3339(s: &str) -> (r: Option<i64>)
    ensures
        r is Some <==> rfc3339_ms_of(s@) is Some,
        r is Some ==> rfc3339_ms_of(s@) == Some(r->0 as int),
{
    chrono::DateTime::parse_from_rfc3339(s).ok().map(|d| d.timestamp_millis())
}

/// Relies on chrono's `Utc::now`: nothing is promised of the clock's value.
#[verifier::external_body]
pub(crate) fn now_millis() -> (r: i64) {
    chrono::Utc::now().timestamp_millis()
}

/// The current time, forced into the calendar range the library accepts.
pub fn now_timestamp() -> (r: Timestamp)
    ensures
        r.wf(),
{
    Timestamp::clamped(now_millis())
}

} // verus!
