//! Instants as seconds and nanoseconds since the Unix epoch, and the RFC 3339
//! and calendar-date parsing that chrono performs for the library.
use chrono::Datelike;
use vstd::prelude::*;

verus! {

/// A UTC instant: whole seconds since the epoch and the nanoseconds past them.
/// A leap second is carried as nanoseconds of one billion or more, as chrono does.
#[derive(Clone, Copy, Debug, PartialEq, Eq, Structural)]
pub struct Timestamp {
    pub secs: i64,
    pub nanos: u32,
}

pub open spec fn wf_time(t: Timestamp) -> bool {
    t.nanos < 2_000_000_000
}

/// Nanoseconds since the epoch.
pub open spec fn nanos_of(t: Timestamp) -> int {
    t.secs * 1_000_000_000 + t.nanos
}

/// Chronological order: by second, then by the fraction within it.
pub open spec fn time_le(a: Timestamp, b: Timestamp) -> bool {
    a.secs < b.secs || (a.secs == b.secs && a.nanos <= b.nanos)
}

pub open spec fn time_lt(a: Timestamp, b: Timestamp) -> bool {
    a.secs < b.secs || (a.secs == b.secs && a.nanos < b.nanos)
}

pub open spec fn time_min(a: Timestamp, b: Timestamp) -> Timestamp {
    if time_le(a, b) { a } else { b }
}

pub fn le(a: Timestamp, b: Timestamp) -> (r: bool)
    ensures
        r == time_le(a, b),
{
    a.secs < b.secs || (a.secs == b.secs && a.nanos <= b.nanos)
}

pub fn lt(a: Timestamp, b: Timestamp) -> (r: bool)
    ensures
        r == time_lt(a, b),
{
    a.secs < b.secs || (a.secs == b.secs && a.nanos < b.nanos)
}

pub fn min_time(a: Timestamp, b: Timestamp) -> (r: Timestamp)
    ensures
        r == time_min(a, b),
{
    if le(a, b) { a } else { b }
}

/// The instant that chrono's RFC 3339 parser reads from `text`, if it accepts it.
pub uninterp spec fn spec_rfc3339(text: Seq<char>) -> Option<Timestamp>;

/// Parses an RFC 3339 date-time with any offset into a UTC instant. Calls
/// `chrono::DateTime::parse_from_rfc3339`, then reads the instant back with
/// `timestamp` and `timestamp_subsec_nanos`. The instant is named by `spec_rfc3339`;
/// chrono documents the sub-second part as below two billion, and that every
/// instant it holds round-trips through `DateTime::from_timestamp`.
#[verifier::external_body]
pub(crate) fn parse_rfc3339(text: &str) -> (parsed: Option<Timestamp>)
    ensures
        parsed == spec_rfc3339(text@),
        parsed matches Some(t) ==> wf_time(t) && spec_unix_seconds_in_range(t.secs),
{
    chrono::DateTime::parse_from_rfc3339(text)
        .ok()
        .map(|time| Timestamp { secs: time.timestamp(), nanos: time.timestamp_subsec_nanos() })
}

/// The instant of a log record's timestamp text: RFC 3339 with any offset,
/// read as UTC.
pub fn log_time_text(text: &str) -> (t: Option<Timestamp>)
    ensures
        t == spec_rfc3339(text@),
        t matches Some(v) ==> wf_time(v) && spec_unix_seconds_in_range(v.secs),
{
    parse_rfc3339(text)
}

/// The day, counted from the first of January of year 1 as day one, that
/// chrono reads from `text` with the `%Y-%m-%d` format, if it accepts it.
pub uninterp spec fn spec_parse_day(text: Seq<char>) -> Option<i32>;

/// Calls `chrono::NaiveDate::parse_from_str` with the `%Y-%m-%d` format and reads
/// the date back with `num_days_from_ce`. The day is named by `spec_parse_day`.
#[verifier::external_body]
pub(crate) fn parse_day(text: &str) -> (day: Option<i32>)
    ensures
        day == spec_parse_day(text@),
{
    chrono::NaiveDate::parse_from_str(text, "%Y-%m-%d").ok().map(|date| date.num_days_from_ce())
}

/// The `%Y-%m-%d` text of a day counted as `parse_day` counts it, where chrono
/// holds that day.
pub uninterp spec fn spec_format_day(day: i32) -> Option<Seq<char>>;

/// Calls `chrono::NaiveDate::from_num_days_from_ce_opt` and formats the date
/// with `%Y-%m-%d`; none where chrono does not hold the day. The text is named
/// by `spec_format_day`.
#[verifier::external_body]
pub(crate) fn format_day(day: i32) -> (text: Option<String>)
    ensures
        text is Some == spec_format_day(day) is Some,
        text matches Some(t) ==> spec_format_day(day) == Some(t@),
{
    chrono::NaiveDate::from_num_days_from_ce_opt(day).map(|date| date.format("%Y-%m-%d").to_string())
}

/// Whether chrono represents the instant `secs` seconds after the epoch: from
/// the first of January of year -262143 to the end of the thirty-first of
/// December of year 262142, the range of chrono's dates.
pub open spec fn spec_unix_seconds_in_range(secs: i64) -> bool {
    -8_334_601_228_800 <= secs <= 8_210_266_876_799
}

/// The instant `secs` whole seconds after the epoch. Calls
/// `chrono::DateTime::from_timestamp` with no nanoseconds, which refuses
/// the values outside `spec_unix_seconds_in_range` and, as chrono
/// documents, round-trips through `timestamp` and `timestamp_subsec_nanos`.
#[verifier::external_body]
pub(crate) fn from_unix_seconds(secs: i64) -> (t: Option<Timestamp>)
    ensures
        t is Some == spec_unix_seconds_in_range(secs),
        t matches Some(v) ==> v == (Timestamp { secs, nanos: 0 }),
{
    chrono::DateTime::from_timestamp(secs, 0)
        .map(|time| Timestamp { secs: time.timestamp(), nanos: time.timestamp_subsec_nanos() })
}

/// The RFC 3339 text of an instant in UTC with millisecond precision and a
/// `Z`, where chrono represents the instant.
pub uninterp spec fn spec_iso_millis(t: Timestamp) -> Option<Seq<char>>;

/// Renders an instant as chrono's `to_rfc3339_opts(SecondsFormat::Millis, true)`
/// does, after `chrono::DateTime::from_timestamp`; none where chrono cannot
/// represent the instant. The text is named by `spec_iso_millis`.
#[verifier::external_body]
pub(crate) fn iso_millis(t: Timestamp) -> (text: Option<String>)
    ensures
        text is Some == spec_iso_millis(t) is Some,
        text matches Some(x) ==> spec_iso_millis(t) == Some(x@),
{
    chrono::DateTime::from_timestamp(t.secs, t.nanos).map(|time| time.to_rfc3339_opts(chrono::SecondsFormat::Millis, true))
}

/// The text of an instant in keys: its millisecond RFC 3339 text, or the
/// empty text for an instant that chrono cannot represent.
pub open spec fn iso_key_text(t: Timestamp) -> Seq<char> {
    match spec_iso_millis(t) {
        Some(x) => x,
        None => Seq::empty(),
    }
}

/// The instant's text as `iso_key_text` gives it.
pub fn iso_key(t: Timestamp) -> (text: String)
    ensures
        text@ == iso_key_text(t),
{
    match iso_millis(t) {
        Some(x) => x,
        None => String::new(),
    }
}

/// The RFC 3339 text, in UTC with whole seconds and a `Z`, of the instant
/// `secs` seconds after the epoch.
pub uninterp spec fn spec_utc_seconds_text(secs: i64) -> Seq<char>;

/// Calls `chrono::DateTime::from_timestamp` and renders the instant with
/// `to_rfc3339_opts(SecondsFormat::Secs, true)`; none where chrono refuses the
/// number of seconds. The text is named by `spec_utc_seconds_text`.
#[verifier::external_body]
pub(crate) fn utc_seconds_text(secs: i64) -> (text: Option<String>)
    ensures
        text is Some == spec_unix_seconds_in_range(secs),
        text matches Some(t) ==> t@ == spec_utc_seconds_text(secs),
{
    chrono::DateTime::from_timestamp(secs, 0).map(|time| time.to_rfc3339_opts(chrono::SecondsFormat::Secs, true))
}

} // verus!
