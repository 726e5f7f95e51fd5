//! What the proleptic Gregorian calendar says of a day, asked of `chrono`.
//!
//! A day is identified by its number, counted from January 1 of year 1 as
//! day 1. Everything in this module is taken on trust from `chrono`: each
//! function below makes one calendar query, and its contract gives the answer
//! a name so that the rest of the library can speak of it.

use chrono::{Datelike, NaiveDate};
use vstd::prelude::*;

verus! {

/// The number of the first day the calendar can represent (January 1, 262144 BCE).
pub const MIN_DAYS: i32 = -95_746_129;

/// The number of the last day the calendar can represent (December 31, 262142 CE).
pub const MAX_DAYS: i32 = 95_745_399;

/// Whether `days` numbers a day that the calendar can represent.
pub open spec fn in_range(days: int) -> bool {
    MIN_DAYS <= days <= MAX_DAYS
}

/// The number of the day with the given year, month and day of month, if there is such a day.
pub uninterp spec fn days_of_civil(year: int, month: int, day: int) -> Option<int>;

/// The calendar year of the day numbered `days`.
pub uninterp spec fn year_of(days: int) -> int;

/// The month, from 1 to 12, of the day numbered `days`.
pub uninterp spec fn month_of(days: int) -> int;

/// The ISO 8601 week of the day numbered `days`: the week's year, then its number in that year.
pub uninterp spec fn iso_week_of(days: int) -> (int, int);

/// The number of the first day of the month that holds the day numbered `days`.
pub uninterp spec fn month_start(days: int) -> int;

/// How many days after Monday the day numbered `days` falls, from 0 to 6.
pub uninterp spec fn weekday_of(days: int) -> int;

/// Calls `NaiveDate::from_ymd_opt`, and `num_days_from_ce` on the date it gives.
///
/// Trusted: the result is the day number that the calendar assigns to the
/// given year, month and day, or `None` where no such day exists; and every
/// day number that `chrono` hands out lies between `MIN_DAYS` and `MAX_DAYS`.
#[verifier::external_body]
pub(crate) fn civil_to_days(year: i32, month: u32, day: u32) -> (r: Option<i32>)
    ensures
        match r {
            Some(n) => days_of_civil(year as int, month as int, day as int) == Some(n as int)
                && in_range(n as int),
            None => days_of_civil(year as int, month as int, day as int) is None,
        },
{
    match NaiveDate::from_ymd_opt(year, month, day) {
        Some(date) => Some(date.num_days_from_ce()),
        None => None,
    }
}

/// Calls `Datelike::year` on the date numbered `days`.
///
/// Trusted: the result is that day's calendar year.
#[verifier::external_body]
pub(crate) fn year_on(days: i32) -> (r: i32)
    requires
        in_range(days as int),
    ensures
        r == year_of(days as int),
{
    NaiveDate::from_num_days_from_ce_opt(days).unwrap().year()
}

/// Calls `Datelike::month` on the date numbered `days`.
///
/// Trusted: the result is that day's month, which `chrono` documents to lie
/// between 1 and 12.
#[verifier::external_body]
pub(crate) fn month_on(days: i32) -> (r: u32)
    requires
        in_range(days as int),
    ensures
        r == month_of(days as int),
        1 <= r <= 12,
{
    NaiveDate::from_num_days_from_ce_opt(days).unwrap().month()
}

/// Calls `Datelike::iso_week` on the date numbered `days`, and `IsoWeek::year`
/// and `IsoWeek::week` on the week it gives.
///
/// Trusted: the result is that day's ISO week, as the pair of the week's year
/// and its number in that year.
#[verifier::external_body]
pub(crate) fn iso_week_on(days: i32) -> (r: (i32, u32))
    requires
        in_range(days as int),
    ensures
        (r.0 as int, r.1 as int) == iso_week_of(days as int),
{
    let week = NaiveDate::from_num_days_from_ce_opt(days).unwrap().iso_week();
    (week.year(), week.week())
}

/// Calls `Datelike::with_day(1)` on the date numbered `days`, falling back to
/// the date itself, and `num_days_from_ce` on the result.
///
/// Trusted: the result is the first day of the same month. It is a day that
/// `chrono` represents, and since days of a month are numbered from 1 it is
/// never later than the day asked about.
#[verifier::external_body]
pub(crate) fn month_start_on(days: i32) -> (r: i32)
    requires
        in_range(days as int),
    ensures
        r == month_start(days as int),
        MIN_DAYS <= r <= days,
{
    let date = NaiveDate::from_num_days_from_ce_opt(days).unwrap();
    date.with_day(1).unwrap_or(date).num_days_from_ce()
}

/// Calls `Datelike::weekday` on the date numbered `days`, and
/// `Weekday::num_days_from_monday` on the weekday it gives.
///
/// Trusted: the result tells how many days after Monday that day falls, which
/// `chrono` documents to lie between 0 and 6.
#[verifier::external_body]
pub(crate) fn weekday_on(days: i32) -> (r: u32)
    requires
        in_range(days as int),
    ensures
        r == weekday_of(days as int),
        r <= 6,
{
    NaiveDate::from_num_days_from_ce_opt(days).unwrap().weekday().num_days_from_monday()
}

} // verus!
