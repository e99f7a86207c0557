//! Date and time model: a timestamp in seconds, calendar validation, the
//! fixed worklog start format `MM/DD/YYYY HH:MM`, and rendering through
//! the chrono crate.

use vstd::prelude::*;
use crate::text::{spec_split, spec_parse_u64, split, parse_u64};
use std::fmt::Write as FmtWrite;

verus! {

/// Smallest timestamp a `DateTime` may hold; also the "empty range" upper sentinel.
pub const DT_MIN_SECS: i64 = -8_000_000_000_000;

/// Largest timestamp a `DateTime` may hold; also the "empty range" lower sentinel.
pub const DT_MAX_SECS: i64 = 8_000_000_000_000;

/// A point in time, in non-leap seconds since 1970-01-01 00:00:00 UTC.
#[derive(Debug, Clone, Copy, PartialEq, Eq, Structural)]
pub struct DateTime {
    pub secs: i64,
}

impl DateTime {
    pub open spec fn wf(&self) -> bool {
        DT_MIN_SECS <= self.secs <= DT_MAX_SECS
    }

    /// The sentinel standing for the latest representable time.
    pub fn max_value() -> (r: DateTime)
        ensures
            r.secs == DT_MAX_SECS,
            r.wf(),
    {
        DateTime { secs: DT_MAX_SECS }
    }

    /// The sentinel standing for the earliest representable time.
    pub fn min_value() -> (r: DateTime)
        ensures
            r.secs == DT_MIN_SECS,
            r.wf(),
    {
        DateTime { secs: DT_MIN_SECS }
    }
}

pub open spec fn spec_is_leap_year(y: int) -> bool {
    (y % 4 == 0 && y % 100 != 0) || y % 400 == 0
}

pub open spec fn spec_days_in_month(y: int, m: int) -> int {
    if m == 1 || m == 3 || m == 5 || m == 7 || m == 8 || m == 10 || m == 12 {
        31
    } else if m == 4 || m == 6 || m == 9 || m == 11 {
        30
    } else if spec_is_leap_year(y) {
        29
    } else {
        28
    }
}

/// A proleptic Gregorian calendar date and wall-clock minute that the
/// worklog format accepts.
pub open spec fn spec_valid_civil(y: int, mo: int, d: int, h: int, mi: int) -> bool {
    &&& 0 <= y <= 9999
    &&& 1 <= mo <= 12
    &&& 1 <= d <= spec_days_in_month(y, mo)
    &&& 0 <= h < 24
    &&& 0 <= mi < 60
}

/// The timestamp of a valid civil date, as the chrono crate computes it.
pub uninterp spec fn spec_civil_secs(y: int, mo: int, d: int, h: int, mi: int) -> int;

/// Relies on chrono's NaiveDate::from_ymd_opt, NaiveDate::and_hms_opt and
/// DateTime::timestamp: the number of non-leap seconds since the epoch of
/// a valid civil date; years 0 through 9999 stay within the stated bounds.
#[verifier::external_body]
fn civil_to_secs(y: u32, mo: u32, d: u32, h: u32, mi: u32) -> (r: i64)
    requires
        spec_valid_civil(y as int, mo as int, d as int, h as int, mi as int),
    ensures
        r == spec_civil_secs(y as int, mo as int, d as int, h as int, mi as int),
        -62_167_219_200 <= r <= 253_402_300_799,
{
    chrono::NaiveDate::from_ymd_opt(y as i32, mo, d)
        .unwrap()
        .and_hms_opt(h, mi, 0)
        .unwrap()
        .and_utc()
        .timestamp()
}

/// The calendar year of a timestamp, as chrono computes it.
pub uninterp spec fn spec_year_of(secs: int) -> int;

/// Relies on chrono's DateTime::from_timestamp and Datelike::year.
#[verifier::external_body]
pub(crate) fn year_of_secs(secs: i64) -> (y: i64)
    requires
        DT_MIN_SECS <= secs <= DT_MAX_SECS,
    ensures
        y == spec_year_of(secs as int),
        -1_000_000 <= y <= 1_000_000,
{
    chrono::Datelike::year(&chrono::DateTime::from_timestamp(secs, 0).unwrap()) as i64
}

/// The calendar month of a timestamp, as chrono computes it.
pub uninterp spec fn spec_month_of(secs: int) -> int;

/// Relies on chrono's DateTime::from_timestamp and Datelike::month, which
/// documents the result to lie between 1 and 12.
#[verifier::external_body]
pub(crate) fn month_of_secs(secs: i64) -> (m: u32)
    requires
        DT_MIN_SECS <= secs <= DT_MAX_SECS,
    ensures
        m == spec_month_of(secs as int),
        1 <= m <= 12,
{
    chrono::Datelike::month(&chrono::DateTime::from_timestamp(secs, 0).unwrap())
}

/// A timestamp rendered through a chrono format string; `None` when the
/// format string is not valid for chrono.
pub uninterp spec fn spec_format_secs(secs: int, fmt: Seq<char>) -> Option<Seq<char>>;

/// Relies on chrono's DateTime::from_timestamp and NaiveDateTime::format:
/// the formatted text depends on the timestamp and format string alone;
/// an invalid format string makes the formatter report an error.
#[verifier::external_body]
fn format_secs(secs: i64, fmt: &str) -> (r: Option<String>)
    requires
        DT_MIN_SECS <= secs <= DT_MAX_SECS,
    ensures
        match r {
            Some(s) => spec_format_secs(secs as int, fmt@) == Some(s@),
            None => spec_format_secs(secs as int, fmt@) is None,
        },
{
    let dt = chrono::DateTime::from_timestamp(secs, 0).unwrap().naive_utc();
    let mut out = String::new();
    match write!(out, "{}", dt.format(fmt)) {
        Ok(()) => Some(out),
        Err(_) => None,
    }
}

/// A date rendered with the given chrono format string, or empty text when
/// the format string is invalid.
pub open spec fn spec_date_to_str(secs: int, fmt: Seq<char>) -> Seq<char> {
    match spec_format_secs(secs, fmt) {
        Some(s) => s,
        None => Seq::empty(),
    }
}

pub fn date_to_str(d: &DateTime, format_str: &str) -> (r: String)
    requires
        d.wf(),
    ensures
        r@ == spec_date_to_str(d.secs as int, format_str@),
{
    match format_secs(d.secs, format_str) {
        Some(s) => s,
        None => String::new(),
    }
}

/// The five numeric fields of a worklog start text `MM/DD/YYYY HH:MM`,
/// accepted only when they name a valid civil date.
pub open spec fn spec_parse_start(s: Seq<char>) -> Option<(int, int, int, int, int)> {
    let parts = spec_split(s, '/');
    if parts.len() != 3 {
        None
    } else {
        let sub = spec_split(parts[2], ' ');
        if sub.len() != 2 {
            None
        } else {
            let tparts = spec_split(sub[1], ':');
            if tparts.len() != 2 {
                None
            } else {
                let mo = spec_parse_u64(parts[0]);
                let d = spec_parse_u64(parts[1]);
                let y = spec_parse_u64(sub[0]);
                let h = spec_parse_u64(tparts[0]);
                let mi = spec_parse_u64(tparts[1]);
                if mo is Some && d is Some && y is Some && h is Some && mi is Some
                    && spec_valid_civil(
                    y->Some_0,
                    mo->Some_0,
                    d->Some_0,
                    h->Some_0,
                    mi->Some_0,
                ) {
                    Some((y->Some_0, mo->Some_0, d->Some_0, h->Some_0, mi->Some_0))
                } else {
                    None
                }
            }
        }
    }
}

/// The timestamp of a worklog start text, through `spec_civil_secs`.
pub open spec fn spec_start_secs(s: Seq<char>) -> Option<int> {
    match spec_parse_start(s) {
        None => None,
        Some(p) => Some(spec_civil_secs(p.0, p.1, p.2, p.3, p.4)),
    }
}

fn is_leap_year(y: u64) -> (r: bool)
    ensures
        r == spec_is_leap_year(y as int),
{
    (y % 4 == 0 && y % 100 != 0) || y % 400 == 0
}

fn days_in_month(y: u64, m: u64) -> (r: u64)
    requires
        1 <= m <= 12,
    ensures
        r == spec_days_in_month(y as int, m as int),
{
    if m == 1 || m == 3 || m == 5 || m == 7 || m == 8 || m == 10 || m == 12 {
        31
    } else if m == 4 || m == 6 || m == 9 || m == 11 {
        30
    } else if is_leap_year(y) {
        29
    } else {
        28
    }
}

/// The start text of a worklog record parsed into a timestamp.
pub fn parse_start(s: &str) -> (r: Option<DateTime>)
    ensures
        match r {
            Some(dt) => {
                &&& spec_start_secs(s@) == Some(dt.secs as int)
                &&& dt.wf()
                &&& -62_167_219_200 <= dt.secs <= 253_402_300_799
            },
            None => spec_start_secs(s@) is None,
        },
{
    proof {
        reveal_strlit("/");
        reveal_strlit(" ");
        reveal_strlit(":");
    }
    let parts = split(s, "/");
    if parts.len() != 3 {
        return None;
    }
    let sub = split(parts[2].as_str(), " ");
    if sub.len() != 2 {
        return None;
    }
    let tparts = split(sub[1].as_str(), ":");
    if tparts.len() != 2 {
        return None;
    }
    let mo = parse_u64(parts[0].as_str());
    let d = parse_u64(parts[1].as_str());
    let y = parse_u64(sub[0].as_str());
    let h = parse_u64(tparts[0].as_str());
    let mi = parse_u64(tparts[1].as_str());
    match (mo, d, y, h, mi) {
        (Some(mo), Some(d), Some(y), Some(h), Some(mi)) => {
            if 0 <= y && y <= 9999 && 1 <= mo && mo <= 12 && 1 <= d && d <= days_in_month(y, mo)
                && h < 24 && mi < 60 {
                let secs = civil_to_secs(y as u32, mo as u32, d as u32, h as u32, mi as u32);
                Some(DateTime { secs })
            } else {
                None
            }
        },
        _ => None,
    }
}

} // verus!
