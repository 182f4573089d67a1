//! Instants as seconds since the Unix epoch, and their RFC 3339 rendering for
//! the cache file. The rendering and its inverse are delegated to chrono.
use vstd::prelude::*;

use crate::text::spec_json_safe;

verus! {

/// Earliest instant the cache can carry, 0001-01-01T00:00:00 UTC.
pub const MIN_CACHED_INSTANT: i64 = -62135596800;

/// Latest instant the cache can carry, 9999-12-31T23:59:59 UTC; chrono
/// renders every instant between the two bounds with a four-digit year.
pub const MAX_CACHED_INSTANT: i64 = 253402300799;

/// The RFC 3339 rendering that chrono gives to the instant `ts` seconds after
/// the Unix epoch.
pub uninterp spec fn spec_rfc3339(ts: int) -> Seq<char>;

/// The instant that chrono reads back from a string, if any.
pub uninterp spec fn spec_parse_rfc3339(s: Seq<char>) -> Option<int>;

/// Relies on std's `SystemTime::now` and `duration_since`: the current
/// instant in seconds since the Unix epoch, negative for a clock set before
/// it. Nothing can be promised of a clock reading; unlike an unwrap of the
/// pre-epoch arm, this body cannot panic.
#[verifier::external_body]
pub(crate) fn now_ts() -> i64 {
    match std::time::SystemTime::now().duration_since(std::time::UNIX_EPOCH) {
        Ok(since) => i64::try_from(since.as_secs()).unwrap_or(i64::MAX),
        Err(e) => match i64::try_from(e.duration().as_secs()) {
            Ok(s) => -s,
            Err(_) => i64::MIN,
        },
    }
}

/// Relies on chrono's `DateTime::from_timestamp` (defined for every instant
/// these bounds admit) and `DateTime::to_rfc3339`: the rendering depends on
/// the timestamp alone, consists of characters that need no JSON escaping,
/// and `parse_from_rfc3339` reads the same instant back from it.
#[verifier::external_body]
pub(crate) fn format_rfc3339(ts: i64) -> (r: String)
    requires
        MIN_CACHED_INSTANT <= ts <= MAX_CACHED_INSTANT,
    ensures
        r@ == spec_rfc3339(ts as int),
        spec_json_safe(r@),
        r@.len() >= 1,
        spec_parse_rfc3339(r@) == Some(ts as int),
{
    chrono::DateTime::from_timestamp(ts, 0).unwrap().to_rfc3339()
}

/// Relies on chrono's `DateTime::parse_from_rfc3339`: the result depends on
/// the characters alone.
#[verifier::external_body]
pub(crate) fn parse_rfc3339(s: &str) -> (r: Option<i64>)
    ensures
        (match (r, spec_parse_rfc3339(s@)) {
            (Some(a), Some(b)) => a == b,
            (None, None) => true,
            _ => false,
        }),
{
    match chrono::DateTime::parse_from_rfc3339(s) {
        Ok(dt) => Some(dt.timestamp()),
        Err(_) => None,
    }
}

} // verus!
