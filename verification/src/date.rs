//! Calendar dates, held as a day count.
//!
//! A [`Date`] is a day of the proleptic Gregorian calendar, stored as the
//! number of days from the common era (January 1 of year 1 is day 1).
//! Calendar arithmetic is `chrono`'s; the library only ever needs the
//! distance in days between two dates, which is a plain subtraction.

use chrono::Datelike;
use chrono::NaiveDate;
use vstd::prelude::*;

verus! {

/// The day count that `chrono::NaiveDate::from_ymd_opt(year, month, day)`
/// followed by `num_days_from_ce` gives, or `None` for no such date.
pub uninterp spec fn ymd_days(year: i32, month: u32, day: u32) -> Option<int>;

/// What `chrono::NaiveDate::from_num_days_from_ce_opt(days)` accepts.
pub uninterp spec fn days_in_range(days: i32) -> bool;

/// A calendar date.
#[derive(Clone, Copy, Debug, PartialEq, Eq, Structural)]
pub struct Date {
    days: i32,
}

impl View for Date {
    type V = int;

    /// The number of days from the common era.
    closed spec fn view(&self) -> int {
        self.days as int
    }
}

impl Date {
    /// The date `year-month-day`, or `None` when no such date exists (a
    /// month outside 1..=12, a day past the end of its month, or a year
    /// beyond chrono's range).
    pub fn from_ymd_opt(year: i32, month: u32, day: u32) -> (r: Option<Date>)
        ensures
            match r {
                Some(d) => ymd_days(year, month, day) == Some(d@),
                None => ymd_days(year, month, day) is None,
            },
            month < 1 || month > 12 || day < 1 || day > 31 ==> r is None,
    {
        match chrono_days_from_ymd(year, month, day) {
            Some(days) => Some(Date { days }),
            None => None,
        }
    }

    /// The date `days` days into the common era, or `None` outside chrono's range.
    pub fn from_num_days_from_ce_opt(days: i32) -> (r: Option<Date>)
        ensures
            r is Some <==> days_in_range(days),
            r matches Some(d) ==> d@ == days as int,
    {
        if chrono_days_in_range(days) {
            Some(Date { days })
        } else {
            None
        }
    }

    /// The number of days from the common era; January 1 of year 1 is day 1.
    pub fn num_days_from_ce(&self) -> (n: i32)
        ensures
            n as int == self@,
    {
        self.days
    }

    /// The date `n` days later, or `None` outside chrono's range.
    pub fn checked_add_days(&self, n: u32) -> (r: Option<Date>)
        ensures
            match r {
                Some(d) => d@ == self@ + n && self@ + n <= i32::MAX && days_in_range((self@ + n) as i32),
                None => self@ + n > i32::MAX || !days_in_range((self@ + n) as i32),
            },
    {
        let sum: i64 = self.days as i64 + n as i64;
        if sum > i32::MAX as i64 {
            return None;
        }
        Date::from_num_days_from_ce_opt(sum as i32)
    }

    /// The signed number of days from `earlier` to `self`.
    pub fn days_since(&self, earlier: Date) -> (n: i64)
        ensures
            n as int == self@ - earlier@,
    {
        self.days as i64 - earlier.days as i64
    }
}

/// Calls `chrono::NaiveDate::from_ymd_opt` and reads the day count of the
/// date it makes.  Trusted: `Some` carries the count that [`ymd_days`] names,
/// and chrono's documentation refuses a month outside 1..=12 and a day
/// outside 1..=31.
#[verifier::external_body]
fn chrono_days_from_ymd(year: i32, month: u32, day: u32) -> (r: Option<i32>)
    ensures
        match r {
            Some(n) => ymd_days(year, month, day) == Some(n as int),
            None => ymd_days(year, month, day) is None,
        },
        month < 1 || month > 12 || day < 1 || day > 31 ==> r is None,
{
    match NaiveDate::from_ymd_opt(year, month, day) {
        Some(d) => Some(d.num_days_from_ce()),
        None => None,
    }
}

/// Calls `chrono::NaiveDate::from_num_days_from_ce_opt` and reports whether it
/// made a date.  Trusted: the answer is what [`days_in_range`] names.
#[verifier::external_body]
fn chrono_days_in_range(days: i32) -> (b: bool)
    ensures
        b == days_in_range(days),
{
    NaiveDate::from_num_days_from_ce_opt(days).is_some()
}

} // verus!
