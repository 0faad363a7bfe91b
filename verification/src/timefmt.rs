//! Instants and calendar text, through `chrono`.
//!
//! Instants are held as milliseconds since 1970-01-01T00:00:00Z. What
//! `chrono` computes from them, or from text, is named here and not
//! restated.

use vstd::prelude::*;
use chrono::TimeZone;

verus! {

/// The layout of event timestamps: RFC 3339 in UTC with milliseconds.
pub open spec fn event_time_layout() -> Seq<char> {
    "%Y-%m-%dT%H:%M:%S%.3fZ"@
}

/// The earliest instant that `chrono::DateTime<Utc>` holds, in milliseconds
/// (January 1 of year -262143, 00:00:00.000).
pub open spec fn min_utc_millis() -> int {
    -8334601228800000
}

/// The latest instant that `chrono::DateTime<Utc>` holds, in milliseconds
/// (December 31 of year 262142, 23:59:59.999).
pub open spec fn max_utc_millis() -> int {
    8210266876799999
}

/// Whether `chrono` can hold the instant `ms`.
pub open spec fn utc_millis_in_range(ms: int) -> bool {
    min_utc_millis() <= ms <= max_utc_millis()
}

/// The text that `chrono` writes for the instant `ms` (milliseconds since
/// the epoch, UTC) under the strftime layout `layout`.
pub uninterp spec fn utc_millis_text(ms: i64, layout: Seq<char>) -> Seq<char>;

/// The instant, in milliseconds, of midnight UTC at the start of the date
/// that `chrono::NaiveDate::parse_from_str` reads from `text` under `layout`,
/// or `None` where it reads none.
pub uninterp spec fn date_start_millis(text: Seq<char>, layout: Seq<char>) -> Option<i64>;

/// The instant that `chrono::NaiveDateTime::parse_from_str` reads from
/// `text` under `layout`, taken as UTC: whole seconds since the epoch and
/// the nanoseconds past them (1_000_000_000 or more inside a leap second),
/// or `None` where it reads none.
pub uninterp spec fn naive_datetime_parts(text: Seq<char>, layout: Seq<char>) -> Option<(i64, u32)>;

/// Formats an instant with `chrono::DateTime::<Utc>::from_timestamp_millis`
/// and `DateTime::format`. Claimed: the result is `Some` exactly on the range
/// that `chrono` holds (its `from_timestamp` accepts the days of
/// `NaiveDate::MIN..=NaiveDate::MAX`), and the text is the one named by
/// `utc_millis_text`. The layout is the event layout, which `chrono` accepts,
/// so the formatting does not fail.
#[verifier::external_body]
pub(crate) fn format_utc_millis(ms: i64, layout: &str) -> (r: Option<String>)
    requires
        layout@ == event_time_layout(),
    ensures
        r is Some <==> utc_millis_in_range(ms as int),
        r matches Some(text) ==> text@ == utc_millis_text(ms, layout@),
{
    match chrono::DateTime::from_timestamp_millis(ms) {
        Some(dt) => Some(dt.format(layout).to_string()),
        None => None,
    }
}

/// Reads a date with `chrono::NaiveDate::parse_from_str` and takes midnight
/// UTC of it (`and_hms_opt(0, 0, 0)`, `Utc.from_utc_datetime`,
/// `timestamp_millis`). Claimed: the result is the one named by
/// `date_start_millis`; nothing else is stated of it.
#[verifier::external_body]
pub(crate) fn parse_date_start_millis(text: &str, layout: &str) -> (r: Option<i64>)
    ensures
        r == date_start_millis(text@, layout@),
{
    match chrono::NaiveDate::parse_from_str(text, layout) {
        Ok(date) => match date.and_hms_opt(0, 0, 0) {
            Some(midnight) => Some(chrono::Utc.from_utc_datetime(&midnight).timestamp_millis()),
            None => None,
        },
        Err(_) => None,
    }
}

/// Reads a date and time with `chrono::NaiveDateTime::parse_from_str` and
/// takes it as UTC (`and_utc`, `timestamp`, `timestamp_subsec_nanos`).
/// Claimed: the result is the one named by `naive_datetime_parts`; nothing
/// else is stated of it.
#[verifier::external_body]
pub(crate) fn parse_naive_datetime_parts(text: &str, layout: &str) -> (r: Option<(i64, u32)>)
    ensures
        r == naive_datetime_parts(text@, layout@),
{
    match chrono::NaiveDateTime::parse_from_str(text, layout) {
        Ok(dt) => Some((dt.and_utc().timestamp(), dt.and_utc().timestamp_subsec_nanos())),
        Err(_) => None,
    }
}

} // verus!
