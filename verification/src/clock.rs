//! Reading timestamps and the current time through `chrono`.
use vstd::prelude::*;
use crate::models::Timestamp;
use chrono::{DateTime, NaiveDateTime, Utc};

verus! {

/// The instant (seconds, nanoseconds) that `DateTime::parse_from_rfc3339`
/// reads from `s`, converted to UTC, or `None` when it rejects `s`.
pub uninterp spec fn rfc3339_instant(s: Seq<char>) -> Option<(i64, u32)>;

/// The instant that `NaiveDateTime::parse_from_str(s, format)` reads, taken
/// as UTC, or `None` when it rejects `s`.
pub uninterp spec fn naive_instant(s: Seq<char>, format: Seq<char>) -> Option<(i64, u32)>;

/// Whether `DateTime::from_timestamp(secs, 0)` can represent `secs`.
pub uninterp spec fn unix_seconds_representable(secs: i64) -> bool;

/// What `DateTime::<Utc>::to_rfc3339` writes for the instant (`secs`,
/// `nanos`), or `None` when `DateTime::from_timestamp` cannot represent it.
pub uninterp spec fn rfc3339_text(secs: i64, nanos: u32) -> Option<Seq<char>>;

/// An optional timestamp as an optional pair of seconds and nanoseconds.
pub open spec fn instant_of(t: Option<Timestamp>) -> Option<(i64, u32)> {
    match t {
        Some(t) => Some((t.secs, t.nanos)),
        None => None,
    }
}

/// Calls `DateTime::parse_from_rfc3339` and converts the result to UTC.
#[verifier::external_body]
pub(crate) fn parse_rfc3339(s: &str) -> (r: Option<Timestamp>)
    ensures
        instant_of(r) == rfc3339_instant(s@),
{
    DateTime::parse_from_rfc3339(s).ok().map(|dt| {
        let u = dt.with_timezone(&Utc);
        Timestamp { secs: u.timestamp(), nanos: u.timestamp_subsec_nanos() }
    })
}

/// Calls `NaiveDateTime::parse_from_str(s, format)` and takes the result as UTC.
#[verifier::external_body]
pub(crate) fn parse_naive(s: &str, format: &str) -> (r: Option<Timestamp>)
    ensures
        instant_of(r) == naive_instant(s@, format@),
{
    NaiveDateTime::parse_from_str(s, format).ok().map(|dt| {
        let u = dt.and_utc();
        Timestamp { secs: u.timestamp(), nanos: u.timestamp_subsec_nanos() }
    })
}

/// Calls `DateTime::from_timestamp(secs, 0)`: the instant `secs` seconds
/// after the epoch, when chrono can represent it.
#[verifier::external_body]
pub(crate) fn from_unix_seconds(secs: i64) -> (r: Option<Timestamp>)
    ensures
        r is Some <==> unix_seconds_representable(secs),
        r matches Some(t) ==> t.secs == secs && t.nanos == 0,
{
    DateTime::from_timestamp(secs, 0).map(|u| Timestamp { secs: u.timestamp(), nanos: 0 })
}

/// Calls `DateTime::from_timestamp(secs, nanos)` and then `to_rfc3339`; the
/// text is named by `rfc3339_text`.
#[verifier::external_body]
pub(crate) fn format_rfc3339(ts: Timestamp) -> (r: Option<String>)
    ensures
        match r {
            Some(s) => rfc3339_text(ts.secs, ts.nanos) == Some(s@),
            None => rfc3339_text(ts.secs, ts.nanos) is None,
        },
{
    DateTime::from_timestamp(ts.secs, ts.nanos).map(|u| u.to_rfc3339())
}

/// Calls `Local::now().to_rfc3339()`: the current local time as text, of
/// which nothing is promised.
#[verifier::external_body]
pub(crate) fn local_now_rfc3339() -> (r: String)
{
    chrono::Local::now().to_rfc3339()
}

/// Calls `Utc::now()`: the current time, of which nothing is promised.
#[verifier::external_body]
pub(crate) fn utc_now() -> (r: Timestamp)
{
    let u = Utc::now();
    Timestamp { secs: u.timestamp(), nanos: u.timestamp_subsec_nanos() }
}

} // verus!
