//! Timestamps.
//!
//! An instant in a catalog document is written as an RFC 3339 date-and-time
//! string (`2021-06-21T03:56:31.219Z`). The crate keeps it as milliseconds
//! since the Unix epoch; reading the calendar form is the work of an outside
//! date library behind a trusted wrapper.

use vstd::prelude::*;

verus! {

/// The milliseconds since the Unix epoch that the outside date library
/// reads from an RFC 3339 timestamp, or `None` when the text is not a valid
/// RFC 3339 date-and-time. The result is a function of the text alone.
pub uninterp spec fn timestamp_millis_of(s: Seq<char>) -> Option<i64>;

/// Relies on chrono's `DateTime::parse_from_rfc3339` and
/// `timestamp_millis`: parses an RFC 3339 date-and-time string and counts
/// the non-leap-milliseconds since January 1, 1970 UTC.
#[verifier::external_body]
pub fn parse_timestamp(s: &str) -> (r: Option<i64>)
    ensures
        r == timestamp_millis_of(s@),
{
    match chrono::DateTime::parse_from_rfc3339(s) {
        Ok(d) => Some(d.timestamp_millis()),
        Err(_) => None,
    }
}

} // verus!
