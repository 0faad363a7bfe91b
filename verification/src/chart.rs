//! The calendar side of the inflation chart: reading event timestamps and
//! choosing which projected days become chart points.

use vstd::prelude::*;
use crate::timefmt::{
    naive_datetime_parts, parse_naive_datetime_parts, format_utc_millis, event_time_layout,
    utc_millis_in_range, utc_millis_text,
};

verus! {

/// The layouts an event timestamp is read with, in the order they are tried.
pub open spec fn timestamp_layouts() -> Seq<Seq<char>> {
    seq!["%Y-%m-%dT%H:%M:%S%.fZ"@, "%Y-%m-%dT%H:%M:%SZ"@, "%Y-%m-%dT%H:%M:%S%.f"@]
}

/// The instant an event timestamp denotes, as whole seconds since the epoch
/// and nanoseconds past them: the first layout that reads it, or the epoch
/// when none does.
pub open spec fn event_instant(text: Seq<char>) -> (i64, u32) {
    match naive_datetime_parts(text, timestamp_layouts()[0]) {
        Some(p) => p,
        None => match naive_datetime_parts(text, timestamp_layouts()[1]) {
            Some(p) => p,
            None => match naive_datetime_parts(text, timestamp_layouts()[2]) {
                Some(p) => p,
                None => (0i64, 0u32),
            },
        },
    }
}

/// Reads an event timestamp as an instant (seconds since the epoch and the
/// nanoseconds past them), trying RFC 3339 with and without a fraction and
/// finally without the `Z`; a text that none of them reads gives the epoch.
pub fn parse_event_timestamp(text: &str) -> (r: (i64, u32))
    ensures
        r == event_instant(text@),
        naive_datetime_parts(text@, "%Y-%m-%dT%H:%M:%S%.fZ"@) matches Some(p) ==> r == p,
        naive_datetime_parts(text@, "%Y-%m-%dT%H:%M:%S%.fZ"@) is None
            && naive_datetime_parts(text@, "%Y-%m-%dT%H:%M:%SZ"@) is Some ==> r == naive_datetime_parts(text@, "%Y-%m-%dT%H:%M:%SZ"@)->0,
        naive_datetime_parts(text@, "%Y-%m-%dT%H:%M:%S%.fZ"@) is None
            && naive_datetime_parts(text@, "%Y-%m-%dT%H:%M:%SZ"@) is None
            && naive_datetime_parts(text@, "%Y-%m-%dT%H:%M:%S%.f"@) is Some ==> r == naive_datetime_parts(text@, "%Y-%m-%dT%H:%M:%S%.f"@)->0,
        naive_datetime_parts(text@, "%Y-%m-%dT%H:%M:%S%.fZ"@) is None
            && naive_datetime_parts(text@, "%Y-%m-%dT%H:%M:%SZ"@) is None
            && naive_datetime_parts(text@, "%Y-%m-%dT%H:%M:%S%.f"@) is None ==> r == (0i64, 0u32),
{
    if let Some(p) = parse_naive_datetime_parts(text, "%Y-%m-%dT%H:%M:%S%.fZ") {
        return p;
    }
    if let Some(p) = parse_naive_datetime_parts(text, "%Y-%m-%dT%H:%M:%SZ") {
        return p;
    }
    match parse_naive_datetime_parts(text, "%Y-%m-%dT%H:%M:%S%.f") {
        Some(p) => p,
        None => (0, 0),
    }
}

/// An event timestamp is read under exactly three layouts, tried in turn:
/// RFC 3339 with a fraction and `Z`, without a fraction, and with a
/// fraction but no `Z`; the first that reads the text gives the instant, and
/// a text none reads gives the epoch.
pub proof fn lemma_event_instant_layouts(text: Seq<char>)
    ensures
        timestamp_layouts().len() == 3,
        timestamp_layouts()[0] == "%Y-%m-%dT%H:%M:%S%.fZ"@,
        timestamp_layouts()[1] == "%Y-%m-%dT%H:%M:%SZ"@,
        timestamp_layouts()[2] == "%Y-%m-%dT%H:%M:%S%.f"@,
        naive_datetime_parts(text, "%Y-%m-%dT%H:%M:%S%.fZ"@) matches Some(p) ==> event_instant(text) == p,
        naive_datetime_parts(text, "%Y-%m-%dT%H:%M:%S%.fZ"@) is None
            && naive_datetime_parts(text, "%Y-%m-%dT%H:%M:%SZ"@) is Some ==> event_instant(text) == naive_datetime_parts(text, "%Y-%m-%dT%H:%M:%SZ"@)->0,
        naive_datetime_parts(text, "%Y-%m-%dT%H:%M:%S%.fZ"@) is None
            && naive_datetime_parts(text, "%Y-%m-%dT%H:%M:%SZ"@) is None
            && naive_datetime_parts(text, "%Y-%m-%dT%H:%M:%S%.f"@) is Some ==> event_instant(text) == naive_datetime_parts(text, "%Y-%m-%dT%H:%M:%S%.f"@)->0,
        naive_datetime_parts(text, "%Y-%m-%dT%H:%M:%S%.fZ"@) is None
            && naive_datetime_parts(text, "%Y-%m-%dT%H:%M:%SZ"@) is None
            && naive_datetime_parts(text, "%Y-%m-%dT%H:%M:%S%.f"@) is None ==> event_instant(text) == (0i64, 0u32),
{
}

/// Whether projected day `day` (of `projection_days`) becomes a chart
/// point: every 30th day, and the last one.
pub fn is_sampled_day(day: u64, projection_days: u64) -> (r: bool)
    ensures
        r == (day % 30 == 0 || day == projection_days),
{
    day % 30 == 0 || day == projection_days
}


/// Midnight UTC at the start of 2026-03-14, in milliseconds: the new
/// issuance model takes effect on that date.
pub const NEW_MODEL_START_MS: i64 = 1_773_446_400_000;

/// Milliseconds in a day.
pub open spec fn day_millis() -> int {
    86_400_000
}

/// Whether the issuance of the day holding the instant `instant_ms` follows
/// the new model: the day is 2026-03-14 or later.
pub fn uses_new_issuance_model(instant_ms: i64) -> (r: bool)
    ensures
        r == (instant_ms >= NEW_MODEL_START_MS),
{
    instant_ms >= NEW_MODEL_START_MS
}

/// An instant given as seconds and nanoseconds, in whole milliseconds, or
/// `None` where that does not fit an `i64`.
pub fn instant_millis(secs: i64, nanos: u32) -> (r: Option<i64>)
    ensures
        ({
            let ms = secs * 1000 + nanos / 1_000_000;
            if i64::MIN <= ms <= i64::MAX {
                r == Some(ms as i64)
            } else {
                r is None
            }
        }),
{
    let ms: i128 = (secs as i128) * 1000 + (nanos / 1_000_000) as i128;
    if ms < i64::MIN as i128 || ms > i64::MAX as i128 {
        None
    } else {
        Some(ms as i64)
    }
}

/// The instant `day` days after `base_ms`, or `None` where it lies outside
/// what `chrono` holds (where adding the days to a date overflows).
pub fn projected_instant(base_ms: i64, day: u64) -> (r: Option<i64>)
    ensures
        ({
            let ms = base_ms + day * day_millis();
            if i64::MIN <= ms <= i64::MAX && utc_millis_in_range(ms) {
                r == Some(ms as i64)
            } else {
                r is None
            }
        }),
{
    let ms: i128 = base_ms as i128 + (day as i128) * 86_400_000;
    if ms < i64::MIN as i128 || ms > i64::MAX as i128 {
        return None;
    }
    let ms64 = ms as i64;
    if format_utc_millis(ms64, "%Y-%m-%dT%H:%M:%S%.3fZ").is_none() {
        None
    } else {
        Some(ms64)
    }
}

/// The chart timestamp of the instant `ms`: RFC 3339 in UTC with milliseconds.
pub fn point_timestamp(ms: i64) -> (r: String)
    requires
        utc_millis_in_range(ms as int),
    ensures
        r@ == utc_millis_text(ms, event_time_layout()),
{
    match format_utc_millis(ms, "%Y-%m-%dT%H:%M:%S%.3fZ") {
        Some(t) => t,
        None => String::new(),
    }
}

} // verus!
