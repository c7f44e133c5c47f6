//! RFC 3339 timestamps, by `chrono`. An instant is carried as whole seconds
//! since the Unix epoch and nanoseconds within the second.
use chrono::{DateTime, SecondsFormat, Utc};
use vstd::prelude::*;

verus! {

/// The instant an RFC 3339 text denotes, if it parses.
pub uninterp spec fn rfc3339_instant(text: Seq<char>) -> Option<(i64, u32)>;

/// The RFC 3339 text of an instant in UTC with a `Z` suffix, with
/// milliseconds (`millis`) or whole seconds.
pub uninterp spec fn rfc3339_text(secs: i64, nanos: u32, millis: bool) -> Seq<char>;

/// The `%Y%m%dT%H%M%SZ` text of an instant in UTC.
pub uninterp spec fn ics_text(secs: i64, nanos: u32) -> Seq<char>;

/// Whether `DateTime::from_timestamp(secs, nanos)` gives a value. Chrono
/// dates run from January 1, 262143 BCE (year -262143) to December 31,
/// 262142 CE, which puts the seconds between -8 334 601 228 800 and
/// 8 210 266 876 799; the nanoseconds stay below one billion, or below two
/// billion on the last second of a minute (a leap second).
pub open spec fn chrono_representable(secs: i64, nanos: u32) -> bool {
    &&& -8_334_601_228_800 <= secs <= 8_210_266_876_799
    &&& (nanos < 1_000_000_000 || (nanos < 2_000_000_000 && secs % 60 == 59))
}

/// What an RFC 3339 text can denote: a four-digit year with an offset of
/// at most 23:59, so seconds from 0000-01-01T23:59:00+23:59 to
/// 9999-12-31T23:59:60-23:59; a leap second (nanoseconds from one second
/// on) only on a minute's last second.
pub open spec fn rfc3339_bounds(i: (i64, u32)) -> bool {
    &&& -62_167_305_600 <= i.0 <= 253_402_387_200
    &&& (i.1 < 1_000_000_000 || (i.1 < 2_000_000_000 && i.0 % 60 == 59))
}

/// Instants well inside chrono's documented range (January 1, 262144 BCE
/// to December 31, 262142 CE): within 8·10¹² seconds of the epoch, with a
/// valid nanosecond (a leap second only on a minute's last second).
pub open spec fn within_chrono_range(secs: int, nanos: u32) -> bool {
    &&& -8_000_000_000_000 <= secs <= 8_000_000_000_000
    &&& (nanos < 1_000_000_000 || (nanos < 2_000_000_000 && secs % 60 == 59))
}

/// Calls `DateTime::parse_from_rfc3339` and reads the instant of the result
/// (`timestamp`, `timestamp_subsec_nanos`). Such an instant round-trips
/// through `DateTime::from_timestamp`, as chrono documents; chrono's parser
/// reads a four-digit year, an offset of at most 23:59 and a second of 60
/// as the last second of the minute plus one second of nanoseconds.
#[verifier::external_body]
pub(crate) fn parse_rfc3339(text: &str) -> (r: Option<(i64, u32)>)
    ensures
        r == rfc3339_instant(text@),
        r matches Some(i) ==> chrono_representable(i.0, i.1) && rfc3339_bounds(i),
{
    DateTime::parse_from_rfc3339(text).ok().map(|t| (t.timestamp(), t.timestamp_subsec_nanos()))
}

/// Calls `to_rfc3339_opts` with `Z` on the UTC instant, made by
/// `DateTime::from_timestamp`, which gives `None` for an instant out of
/// chrono's range and `Some` within it.
#[verifier::external_body]
pub(crate) fn format_rfc3339(secs: i64, nanos: u32, millis: bool) -> (r: Option<String>)
    ensures
        r is Some <==> chrono_representable(secs, nanos),
        r matches Some(t) ==> t@ == rfc3339_text(secs, nanos, millis),
{
    let format = match millis {
        true => SecondsFormat::Millis,
        false => SecondsFormat::Secs,
    };
    DateTime::<Utc>::from_timestamp(secs, nanos).map(|t| t.to_rfc3339_opts(format, true))
}

/// Calls `format("%Y%m%dT%H%M%SZ")` on the UTC instant, made by
/// `DateTime::from_timestamp`, which gives `None` out of chrono's range and
/// `Some` within it.
#[verifier::external_body]
pub(crate) fn format_ics(secs: i64, nanos: u32) -> (r: Option<String>)
    ensures
        r is Some <==> chrono_representable(secs, nanos),
        r matches Some(t) ==> t@ == ics_text(secs, nanos),
{
    DateTime::<Utc>::from_timestamp(secs, nanos).map(|t| t.format("%Y%m%dT%H%M%SZ").to_string())
}

/// Calls `Utc::now`: the clock is read, so nothing is stated of the value
/// but that it is an instant chrono represents, made from the system time's
/// whole seconds and its sub-second nanoseconds (below one billion).
#[verifier::external_body]
pub(crate) fn now_utc() -> (r: (i64, u32))
    ensures
        chrono_representable(r.0, r.1),
        r.1 < 1_000_000_000,
{
    let t = Utc::now();
    (t.timestamp(), t.timestamp_subsec_nanos())
}

/// Orders two instants.
pub open spec fn instant_lt(a: (i64, u32), b: (i64, u32)) -> bool {
    a.0 < b.0 || (a.0 == b.0 && a.1 < b.1)
}

pub fn instant_less(a: (i64, u32), b: (i64, u32)) -> (r: bool)
    ensures
        r == instant_lt(a, b),
{
    a.0 < b.0 || (a.0 == b.0 && a.1 < b.1)
}

} // verus!
