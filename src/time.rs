//! Closing dates: parsing RFC 3339 text, and instants in nanoseconds.
use vstd::prelude::*;

verus! {

/// What parsing `s` as an RFC 3339 timestamp gives: the instant in milliseconds
/// since the Unix epoch, or `None` when `s` is not such a timestamp.
pub uninterp spec fn rfc3339_millis(s: Seq<char>) -> Option<i64>;

/// Relies on chrono's `DateTime::parse_from_rfc3339`, followed by
/// `DateTime::timestamp_millis` on its result: parsing depends on the text alone.
#[verifier::external_body]
pub(crate) fn parse_rfc3339_millis(s: &String) -> (r: Option<i64>)
    ensures
        r == rfc3339_millis(s@),
{
    match chrono::DateTime::parse_from_rfc3339(s.as_str()) {
        Ok(dt) => Some(dt.timestamp_millis()),
        Err(_) => None,
    }
}

/// Nanoseconds in one millisecond.
pub const NANOS_PER_MILLI: i128 = 1_000_000;

/// Nanoseconds in one second.
pub const NANOS_PER_SECOND: i128 = 1_000_000_000;

/// The instant, in nanoseconds since the epoch, of a time given in milliseconds.
pub open spec fn millis_to_nanos(ms: int) -> int {
    ms * 1_000_000
}

/// Converts milliseconds since the epoch to nanoseconds, without loss.
pub fn nanos_of_millis(ms: i64) -> (r: i128)
    ensures
        r as int == millis_to_nanos(ms as int),
{
    (ms as i128) * NANOS_PER_MILLI
}

} // verus!
