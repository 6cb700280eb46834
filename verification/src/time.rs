//! Wall-clock instants, their calendar position and their RFC 3339 text,
//! through `chrono` and `std::time`.
use chrono::{Datelike, Timelike};
use vstd::prelude::*;

verus! {

/// Milliseconds in one day.
pub const MILLIS_PER_DAY: i64 = 86_400_000;

/// The largest distance from the Unix epoch, in milliseconds, for which a
/// timestamp is certainly representable as a calendar date (about 253,000
/// years; chrono's calendar reaches past 262,000 years).
pub const CALENDAR_REACH_MS: i64 = 8_000_000_000_000_000;

/// The Unix millisecond timestamp of an RFC 3339 text, or the parser's
/// explanation of why the text is not one.
pub uninterp spec fn rfc3339_timestamp_millis(text: Seq<char>) -> Result<int, Seq<char>>;

/// The RFC 3339 text, to whole seconds and with a `Z` suffix, of the UTC
/// instant `ms` milliseconds after the Unix epoch.
pub uninterp spec fn rfc3339_utc_seconds(ms: int) -> Seq<char>;

/// The ISO weekday (1 = Monday, ..., 7 = Sunday) of the UTC day holding the
/// Unix millisecond timestamp `ms`. The epoch fell on a Thursday.
pub open spec fn spec_weekday_from_monday(ms: int) -> int {
    (ms / (MILLIS_PER_DAY as int) + 3) % 7 + 1
}

/// The hour of the UTC day holding the Unix millisecond timestamp `ms`.
pub open spec fn spec_utc_hour(ms: int) -> int {
    (ms % (MILLIS_PER_DAY as int)) / 3_600_000
}

/// The minute of the hour of the Unix millisecond timestamp `ms`.
pub open spec fn spec_utc_minute(ms: int) -> int {
    (ms % 3_600_000) / 60_000
}

/// `chrono::DateTime::parse_from_rfc3339` followed by `timestamp_millis`;
/// the parser's error is rendered with its `Display` text. The result is
/// whatever chrono computes for this text, named `rfc3339_timestamp_millis`.
#[verifier::external_body]
pub(crate) fn parse_rfc3339_millis(text: &str) -> (r: Result<i64, String>)
    ensures
        match r {
            Ok(ms) => rfc3339_timestamp_millis(text@) == Ok::<int, Seq<char>>(ms as int),
            Err(e) => rfc3339_timestamp_millis(text@) == Err::<int, Seq<char>>(e@),
        },
{
    match chrono::DateTime::parse_from_rfc3339(text) {
        Ok(t) => Ok(t.timestamp_millis()),
        Err(e) => Err(e.to_string()),
    }
}

/// `chrono::DateTime::from_timestamp_millis`, then the `weekday()`
/// (`number_from_monday`), `hour()` and `minute()` of that UTC instant.
/// chrono counts non-leap milliseconds from 1970-01-01T00:00:00Z, so the
/// fields are those of the proleptic Gregorian UTC calendar stated by the
/// spec functions above. chrono returns `None` only outside its calendar
/// range, which lies beyond `CALENDAR_REACH_MS` on both sides; the exact
/// bound is not stated.
#[verifier::external_body]
pub(crate) fn utc_weekday_hour_minute(ms: i64) -> (r: Option<(u32, u32, u32)>)
    ensures
        -CALENDAR_REACH_MS <= ms <= CALENDAR_REACH_MS ==> r is Some,
        r matches Some((day, hour, minute)) ==> day == spec_weekday_from_monday(ms as int)
            && hour == spec_utc_hour(ms as int) && minute == spec_utc_minute(ms as int),
{
    match chrono::DateTime::from_timestamp_millis(ms) {
        Some(t) => Some((t.weekday().number_from_monday(), t.hour(), t.minute())),
        None => None,
    }
}

/// `chrono::DateTime::from_timestamp_millis` followed by
/// `to_rfc3339_opts(SecondsFormat::Secs, true)`: the RFC 3339 text of that
/// UTC instant, named `rfc3339_utc_seconds`. `None` comes only outside
/// chrono's calendar range, which lies beyond `CALENDAR_REACH_MS`.
#[verifier::external_body]
pub(crate) fn format_rfc3339_utc_seconds(ms: i64) -> (r: Option<String>)
    ensures
        -CALENDAR_REACH_MS <= ms <= CALENDAR_REACH_MS ==> r is Some,
        r matches Some(text) ==> text@ == rfc3339_utc_seconds(ms as int),
{
    match chrono::DateTime::from_timestamp_millis(ms) {
        Some(t) => Some(t.to_rfc3339_opts(chrono::SecondsFormat::Secs, true)),
        None => None,
    }
}

/// The instants of the system clock.
#[verifier::external_type_specification]
#[verifier::external_body]
pub struct ExSystemTime(std::time::SystemTime);

/// `std::time::SystemTime::now()`: the system clock's current reading.
/// Nothing is stated of it; it depends on the machine's clock.
#[verifier::external_body]
fn system_now() -> (r: std::time::SystemTime) {
    std::time::SystemTime::now()
}

/// `SystemTime::duration_since(UNIX_EPOCH)`, with the error of a reading
/// before the epoch mapped to `None`. Nothing more is stated of the elapsed
/// time, which depends on the reading.
#[verifier::external_body]
fn since_unix_epoch(t: &std::time::SystemTime) -> (r: Option<std::time::Duration>) {
    match t.duration_since(std::time::UNIX_EPOCH) {
        Ok(elapsed) => Some(elapsed),
        Err(_) => None,
    }
}

/// `UNIX_EPOCH.duration_since(t)`: how long before the Unix epoch the
/// reading `t` lies, or `None` when it does not lie before it. Nothing more
/// is stated; it depends on the reading.
#[verifier::external_body]
fn before_unix_epoch(t: &std::time::SystemTime) -> (r: Option<std::time::Duration>) {
    match std::time::UNIX_EPOCH.duration_since(*t) {
        Ok(before) => Some(before),
        Err(_) => None,
    }
}

/// `Duration::as_millis`: the whole milliseconds of a duration. A duration
/// is opaque here, so nothing is stated of the count.
#[verifier::external_body]
fn whole_millis(d: &std::time::Duration) -> (r: u128) {
    d.as_millis()
}

/// The millisecond count of a timestamp column: the elapsed milliseconds,
/// saturated at `i64::MAX`.
pub fn saturating_epoch_millis(elapsed_ms: u128) -> (r: i64)
    ensures
        r == if elapsed_ms <= i64::MAX { elapsed_ms as int } else { i64::MAX as int },
{
    if elapsed_ms <= 0x7fff_ffff_ffff_ffffu128 {
        elapsed_ms as i64
    } else {
        i64::MAX
    }
}

/// The timestamp of a clock reading that lies `elapsed_ms` after the Unix
/// epoch, or 0 for a reading before the epoch (`None`), saturated at
/// `i64::MAX`.
pub fn epoch_millis_of(elapsed_ms: Option<u128>) -> (r: i64)
    ensures
        r == match elapsed_ms {
            Some(m) => if m <= i64::MAX { m as int } else { i64::MAX as int },
            None => 0,
        },
{
    match elapsed_ms {
        Some(m) => saturating_epoch_millis(m),
        None => 0,
    }
}

/// The signed Unix millisecond count of a clock reading: `after_ms` after the
/// epoch, or else `before_ms` before it, each saturated at `i64::MAX`
/// milliseconds; 0 when neither is known.
pub fn signed_clock_millis(after_ms: Option<u128>, before_ms: Option<u128>) -> (r: i64)
    ensures
        r == match (after_ms, before_ms) {
            (Some(m), _) => if m <= i64::MAX { m as int } else { i64::MAX as int },
            (None, Some(m)) => if m <= i64::MAX { -m } else { -(i64::MAX as int) },
            (None, None) => 0,
        },
{
    match (after_ms, before_ms) {
        (Some(m), _) => saturating_epoch_millis(m),
        (None, Some(m)) => -saturating_epoch_millis(m),
        (None, None) => 0,
    }
}

/// The system clock as a signed Unix millisecond count: negative for a
/// reading before the epoch, saturated at `i64::MAX` milliseconds either
/// way. It never panics; its value depends on the machine's clock.
pub(crate) fn system_clock_millis() -> (r: i64)
    ensures
        r > i64::MIN,
{
    let now = system_now();
    match since_unix_epoch(&now) {
        Some(after) => signed_clock_millis(Some(whole_millis(&after)), None),
        None => match before_unix_epoch(&now) {
            Some(before) => signed_clock_millis(None, Some(whole_millis(&before))),
            None => signed_clock_millis(None, None),
        },
    }
}

/// Milliseconds since the Unix epoch on the system clock, saturated at
/// `i64::MAX`, and 0 when the clock reads a time before the epoch.
pub fn epoch_millis() -> (r: i64)
    ensures
        r >= 0,
{
    let now = system_now();
    match since_unix_epoch(&now) {
        Some(elapsed) => epoch_millis_of(Some(whole_millis(&elapsed))),
        None => epoch_millis_of(None),
    }
}

} // verus!
