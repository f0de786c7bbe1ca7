//! Dates and instants through the `chrono` crate.
use chrono::Datelike;
use vstd::prelude::*;

verus! {

/// An instant: whole seconds since the Unix epoch and the nanoseconds past them.
#[derive(Clone, Copy, Debug, PartialEq, Eq, Structural)]
pub struct Timestamp {
    pub secs: i64,
    pub nanos: u32,
}

/// `a` is the same instant as `b` or a later one.
pub open spec fn not_before(a: Timestamp, b: Timestamp) -> bool {
    a.secs > b.secs || (a.secs == b.secs && a.nanos >= b.nanos)
}

/// Whether `a` is the same instant as `b` or a later one.
pub fn is_not_before(a: Timestamp, b: Timestamp) -> (res: bool)
    ensures
        res == not_before(a, b),
{
    a.secs > b.secs || (a.secs == b.secs && a.nanos >= b.nanos)
}

/// The year, month and day that `chrono::NaiveDate::parse_from_str` reads from
/// `text` with the format `fmt`, or `None` where it refuses the text.
pub uninterp spec fn parsed_date(text: Seq<char>, fmt: Seq<char>) -> Option<(int, int, int)>;

/// Calls `chrono::NaiveDate::parse_from_str(text, fmt)` and reads the date's
/// year, month and day. The contract names that result and states what
/// `NaiveDate` guarantees of every date: a month from 1 to 12 and a day from 1
/// to 31.
#[verifier::external_body]
pub(crate) fn parse_date(text: &str, fmt: &str) -> (res: Option<(i32, u32, u32)>)
    ensures
        match res {
            Some((y, m, d)) => parsed_date(text@, fmt@) == Some((y as int, m as int, d as int))
                && 1 <= m <= 12 && 1 <= d <= 31,
            None => parsed_date(text@, fmt@) is None,
        },
{
    match chrono::NaiveDate::parse_from_str(text, fmt) {
        Ok(date) => Some((date.year(), date.month(), date.day())),
        Err(_) => None,
    }
}

/// The number of days from 1970-01-01 to the given day of the proleptic
/// Gregorian calendar (negative before it).
pub open spec fn days_from_civil(year: int, month: int, day: int) -> int {
    let y = if month <= 2 { year - 1 } else { year };
    let era = y / 400;
    let yoe = y - era * 400;
    let mp = if month > 2 { month - 3 } else { month + 9 };
    let doy = (153 * mp + 2) / 5 + day - 1;
    let doe = yoe * 365 + yoe / 4 - yoe / 100 + doy;
    era * 146097 + doe - 719468
}

/// `m` may be local midnight of the given day: none (the day does not exist,
/// or its midnight falls in a gap or a fold of local time), or an instant with
/// no fraction of a second that lies less than a day from midnight UTC of that
/// day, since every local offset is less than a day.
pub open spec fn near_local_midnight(date: (int, int, int), m: Option<Timestamp>) -> bool {
    match m {
        Some(t) => t.nanos == 0 && -86400 < t.secs - 86400 * days_from_civil(date.0, date.1, date.2) < 86400,
        None => true,
    }
}

/// Calls `NaiveDateTime::and_local_timezone(chrono::Local)` on midnight of the
/// given date and `LocalResult::single`, and reads the instant. Which instant
/// comes back depends on the machine's time zone; what holds of every outcome
/// is stated: the instant is midnight of that day at a whole-second local
/// offset, and `chrono::FixedOffset` keeps every offset under a day. It is
/// `None` where midnight falls in a gap or a fold of local time, or where the
/// date does not exist; when that happens is left unsaid.
#[verifier::external_body]
pub(crate) fn local_midnight(year: i32, month: u32, day: u32) -> (res: Option<Timestamp>)
    ensures
        near_local_midnight((year as int, month as int, day as int), res),
{
    let midnight = chrono::NaiveDate::from_ymd_opt(year, month, day)?.and_hms_opt(0, 0, 0)?;
    let t = midnight.and_local_timezone(chrono::Local).single()?;
    Some(Timestamp { secs: t.timestamp(), nanos: t.timestamp_subsec_nanos() })
}

} // verus!
