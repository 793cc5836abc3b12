//! Conversions between timestamps and their text form, done by `chrono`.
use vstd::prelude::*;
use crate::models::Timestamp;

verus! {

/// Earliest second chrono can represent: January 1 of year -262143, UTC.
pub const MIN_UTC_SECONDS: i64 = -8334601228800;

/// Latest second chrono can represent: December 31 of year 262142, 23:59:59 UTC.
pub const MAX_UTC_SECONDS: i64 = 8210266876799;

/// Whether `chrono::DateTime::from_timestamp` accepts these seconds and
/// nanoseconds: the day must lie within chrono's calendar, and the
/// nanoseconds must stay below one second, or below two seconds on the last
/// second of a minute (a leap second).
pub open spec fn utc_in_range(seconds: i64, nanos: u32) -> bool {
    &&& MIN_UTC_SECONDS <= seconds <= MAX_UTC_SECONDS
    &&& (nanos < 1_000_000_000 || (nanos < 2_000_000_000 && seconds % 60 == 59))
}

/// What `chrono::DateTime::parse_from_rfc3339` makes of a text: the instant
/// in UTC, or the text of its parse error.
pub uninterp spec fn rfc3339_parse(text: Seq<char>) -> Result<Timestamp, Seq<char>>;

/// The RFC 3339 text `chrono::DateTime::to_rfc3339` gives for an instant.
pub uninterp spec fn rfc3339_text(t: Timestamp) -> Seq<char>;

/// Builds the instant with `chrono::DateTime::from_timestamp`, which accepts
/// exactly the values `utc_in_range` describes; as chrono documents, a value
/// it accepts round-trips through `timestamp` and `timestamp_subsec_nanos`.
#[verifier::external_body]
pub(crate) fn utc_from_parts(seconds: i64, nanos: u32) -> (r: Option<Timestamp>)
    ensures
        r is Some <==> utc_in_range(seconds, nanos),
        r matches Some(t) ==> t == (Timestamp { seconds, nanos }),
{
    match chrono::DateTime::from_timestamp(seconds, nanos) {
        Some(dt) => Some(Timestamp { seconds: dt.timestamp(), nanos: dt.timestamp_subsec_nanos() }),
        None => None,
    }
}

/// Parses an RFC 3339 text with `chrono::DateTime::parse_from_rfc3339` and
/// converts it to UTC; on failure, the text of chrono's error. Both are only
/// named.
#[verifier::external_body]
pub(crate) fn parse_rfc3339(text: &str) -> (r: Result<Timestamp, String>)
    ensures
        match r {
            Ok(t) => rfc3339_parse(text@) == Ok::<Timestamp, Seq<char>>(t),
            Err(m) => rfc3339_parse(text@) == Err::<Timestamp, Seq<char>>(m@),
        },
{
    match chrono::DateTime::parse_from_rfc3339(text) {
        Ok(dt) => {
            let utc = dt.with_timezone(&chrono::Utc);
            Ok(Timestamp { seconds: utc.timestamp(), nanos: utc.timestamp_subsec_nanos() })
        },
        Err(e) => Err(e.to_string()),
    }
}

/// The RFC 3339 text of an instant, from `chrono::DateTime::to_rfc3339`;
/// `None` when chrono cannot represent the instant. The text itself is only
/// named.
#[verifier::external_body]
pub(crate) fn format_rfc3339(t: Timestamp) -> (r: Option<String>)
    ensures
        r is Some <==> utc_in_range(t.seconds, t.nanos),
        r matches Some(s) ==> s@ == rfc3339_text(t),
{
    match chrono::DateTime::from_timestamp(t.seconds, t.nanos) {
        Some(dt) => Some(dt.to_rfc3339()),
        None => None,
    }
}

/// The instant at `seconds` past the epoch, if chrono can represent it.
pub fn utc_from_seconds(seconds: i64) -> (r: Option<Timestamp>)
    ensures
        r is Some <==> utc_in_range(seconds, 0),
        r matches Some(t) ==> t == (Timestamp { seconds, nanos: 0 }),
{
    utc_from_parts(seconds, 0)
}

/// The RFC 3339 text of an instant, as the database stores it.
pub fn timestamp_text(t: Timestamp) -> (r: Option<String>)
    ensures
        r is Some <==> utc_in_range(t.seconds, t.nanos),
        r matches Some(s) ==> s@ == rfc3339_text(t),
{
    format_rfc3339(t)
}

} // verus!
