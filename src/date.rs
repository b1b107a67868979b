//! Calendar days as day numbers, with the calendar facts that chrono computes.

use vstd::prelude::*;
use chrono::Datelike;

verus! {

/// Day number of the earliest date chrono represents (January 1, 262144 BCE).
pub const MIN_DAY: i32 = -95746129;

/// Day number of the latest date chrono represents (December 31, 262142 CE).
pub const MAX_DAY: i32 = 95745399;

/// A calendar day in the proleptic Gregorian calendar, held as its day number:
/// January 1 of the year 1 is day 1, each following day adds one.
#[derive(Clone, Copy, Debug, PartialEq, Eq, Structural)]
pub struct Date {
    pub days: i32,
}

impl Date {
    /// The day lies within the range of dates that chrono represents.
    pub open spec fn wf(&self) -> bool {
        MIN_DAY <= self.days <= MAX_DAY
    }

    /// The day with the given day number, if chrono can represent it.
    pub fn from_days(days: i32) -> (r: Option<Date>)
        ensures
            r == (if MIN_DAY <= days <= MAX_DAY { Some(Date { days }) } else { None::<Date> }),
    {
        if MIN_DAY <= days && days <= MAX_DAY {
            Some(Date { days })
        } else {
            None
        }
    }
}

/// The Monday that begins the week holding the day numbered `days`; day 1
/// (January 1 of the year 1) is a Monday.
pub open spec fn monday_of_week(days: int) -> int {
    days - (days - 1) % 7
}

/// The ISO week number (1 to 53) of the day numbered `days`.
pub uninterp spec fn iso_week_of(days: int) -> int;

/// The ISO week-numbering year of the day numbered `days`.
pub uninterp spec fn iso_year_of(days: int) -> int;

/// The day number that chrono reads from a `YYYY-MM-DD` text, if it is a date.
pub uninterp spec fn ymd_text_day(s: Seq<char>) -> Option<int>;

/// Relies on chrono's `NaiveDate::from_num_days_from_ce_opt` (day 1 is January 1
/// of the year 1) and `NaiveWeek::first_day` for weeks that start on Monday: the
/// first day of the week holding a date is the Monday on or before it, and day 1
/// is a Monday.
#[verifier::external_body]
pub(crate) fn week_monday(days: i32) -> (r: i32)
    requires
        MIN_DAY + 6 <= days <= MAX_DAY,
    ensures
        r == monday_of_week(days as int),
{
    let d = chrono::NaiveDate::from_num_days_from_ce_opt(days).unwrap();
    d.week(chrono::Weekday::Mon).first_day().num_days_from_ce()
}

/// Relies on chrono's `IsoWeek::week`, which ranges from 1 to 53.
#[verifier::external_body]
pub(crate) fn iso_week_number(days: i32) -> (r: u32)
    requires
        MIN_DAY <= days <= MAX_DAY,
    ensures
        r == iso_week_of(days as int),
        1 <= r <= 53,
{
    chrono::NaiveDate::from_num_days_from_ce_opt(days).unwrap().iso_week().week()
}

/// Relies on chrono's `IsoWeek::year`, the year that the ISO week belongs to.
#[verifier::external_body]
pub(crate) fn iso_week_year(days: i32) -> (r: i32)
    requires
        MIN_DAY <= days <= MAX_DAY,
    ensures
        r == iso_year_of(days as int),
{
    chrono::NaiveDate::from_num_days_from_ce_opt(days).unwrap().iso_week().year()
}

/// Relies on chrono's `NaiveDate::parse_from_str` with the format `%Y-%m-%d`, and
/// on `num_days_from_ce`, which lies in chrono's range for every date it makes.
#[verifier::external_body]
fn parse_ymd(s: &str) -> (r: Result<i32, chrono::format::ParseError>)
    ensures
        match r {
            Ok(n) => ymd_text_day(s@) == Some(n as int) && MIN_DAY <= n <= MAX_DAY,
            Err(_) => ymd_text_day(s@) is None,
        },
{
    chrono::NaiveDate::parse_from_str(s, "%Y-%m-%d").map(|d| d.num_days_from_ce())
}

#[verifier::external_type_specification]
#[verifier::external_body]
pub struct ExParseError(chrono::format::ParseError);

/// Why a text is not a date.
#[derive(Clone, Copy, Debug, PartialEq, Eq, Structural)]
pub enum DateError {
    /// The text is not a calendar date written `YYYY-MM-DD`.
    Malformed,
}

/// Reads a date written `YYYY-MM-DD`.
pub fn parse_date(s: &str) -> (r: Result<Date, DateError>)
    ensures
        match ymd_text_day(s@) {
            Some(n) => r == Ok::<Date, DateError>(Date { days: n as i32 }) && MIN_DAY <= n <= MAX_DAY,
            None => r == Err::<Date, DateError>(DateError::Malformed),
        },
{
    match parse_ymd(s) {
        Ok(n) => Ok(Date { days: n }),
        Err(_) => Err(DateError::Malformed),
    }
}

} // verus!
