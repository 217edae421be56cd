//! Calendar dates as day numbers of the proleptic Gregorian calendar.

use chrono::Datelike;
use chrono::NaiveDate;
use vstd::prelude::*;

verus! {

/// A calendar day, held as its day number in the proleptic Gregorian
/// calendar: 1 January of the year 1 is day 1, the day before it is day 0.
///
/// Dates are ordered as their day numbers are, and the distance between two
/// dates is the difference of their day numbers.
#[derive(Clone, Copy, Debug, PartialEq, Eq, Structural, PartialOrd, Ord, Hash)]
pub struct Date {
    pub days_from_ce: i32,
}

/// The day number that `chrono` gives to the calendar date `year`-`month`-`day`,
/// or `None` where `chrono` has no such date.
pub uninterp spec fn civil_day_number(year: int, month: int, day: int) -> Option<int>;

/// The calendar date, as year, month and day of the month, that `chrono` gives
/// to a day number, or `None` where the day lies outside the dates it
/// represents.
pub uninterp spec fn day_number_civil(days: int) -> Option<(int, int, int)>;

/// The format in which `Date::parse` reads a date: year, month and day of the
/// month as numbers with hyphens between them.
pub open spec fn iso_date_format() -> Seq<char> {
    "%Y-%m-%d"@
}

/// What `chrono` makes of `text` when it parses it as a date in `format`: the
/// day number of the date that it reads, or the message of its error.
pub uninterp spec fn parsed_day_number(text: Seq<char>, format: Seq<char>) -> Result<
    int,
    Seq<char>,
>;

/// A text that is no date, with the reason that the parser gave.
#[derive(Clone, Debug, PartialEq, Eq)]
pub struct InvalidDate {
    pub message: String,
}

/// Calls `chrono::NaiveDate::from_ymd_opt` and, where it yields a date, reads
/// that date's `num_days_from_ce`. The contract claims only that the outcome is
/// a function of the three arguments, named `civil_day_number`.
#[verifier::external_body]
fn chrono_day_number(year: i32, month: u32, day: u32) -> (r: Option<i32>)
    ensures
        match r {
            Some(n) => civil_day_number(year as int, month as int, day as int) == Some(n as int),
            None => civil_day_number(year as int, month as int, day as int) is None,
        },
{
    match NaiveDate::from_ymd_opt(year, month, day) {
        Some(date) => Some(date.num_days_from_ce()),
        None => None,
    }
}

/// Calls `chrono::NaiveDate::from_num_days_from_ce_opt` and, where it yields a
/// date, reads that date's `year`, `month` and `day`. The contract claims only
/// that the outcome is a function of the argument, named `day_number_civil`.
#[verifier::external_body]
fn chrono_civil(days: i32) -> (r: Option<(i32, u32, u32)>)
    ensures
        match r {
            Some(ymd) => day_number_civil(days as int) == Some(
                (ymd.0 as int, ymd.1 as int, ymd.2 as int),
            ),
            None => day_number_civil(days as int) is None,
        },
{
    match NaiveDate::from_num_days_from_ce_opt(days) {
        Some(date) => Some((date.year(), date.month(), date.day())),
        None => None,
    }
}

/// Calls `chrono::NaiveDate::parse_from_str` and reads the `num_days_from_ce`
/// of the date that it yields, or the text of its error. The contract claims
/// only that the outcome is a function of the two arguments, named
/// `parsed_day_number`; it is stated for the one format that the library
/// uses.
#[verifier::external_body]
fn chrono_parse(text: &str, format: &str) -> (r: Result<i32, String>)
    requires
        format@ == iso_date_format(),
    ensures
        match r {
            Ok(n) => parsed_day_number(text@, format@) == Ok::<int, Seq<char>>(n as int),
            Err(message) => parsed_day_number(text@, format@) == Err::<int, Seq<char>>(message@),
        },
{
    match NaiveDate::parse_from_str(text, format) {
        Ok(date) => Ok(date.num_days_from_ce()),
        Err(error) => Err(error.to_string()),
    }
}

impl Date {
    /// The date with the given day number.
    pub fn from_days_from_ce(days: i32) -> (date: Date)
        ensures
            date.days_from_ce == days,
    {
        Date { days_from_ce: days }
    }

    /// What `from_ymd` makes of the day number found for a calendar date.
    pub open spec fn of_day_number(found: Option<int>) -> Option<Date> {
        match found {
            Some(n) if i32::MIN <= n <= i32::MAX => Some(Date { days_from_ce: n as i32 }),
            _ => None,
        }
    }

    /// The date that a looked-up day number stands for, if there is one.
    pub fn from_found_day_number(found: Option<i32>) -> (date: Option<Date>)
        ensures
            date == Date::of_day_number(
                match found {
                    Some(n) => Some(n as int),
                    None => None,
                },
            ),
    {
        match found {
            Some(n) => Some(Date::from_days_from_ce(n)),
            None => None,
        }
    }

    /// The date `year`-`month`-`day` of the calendar, or `None` where no such
    /// day exists (30 February, month 13, a year out of range).
    pub fn from_ymd(year: i32, month: u32, day: u32) -> (date: Option<Date>)
        ensures
            date == Date::of_day_number(civil_day_number(year as int, month as int, day as int)),
    {
        Date::from_found_day_number(chrono_day_number(year, month, day))
    }

    /// The date that a parser's outcome stands for, or the parser's error.
    pub fn from_parsed(outcome: Result<i32, String>) -> (date: Result<Date, InvalidDate>)
        ensures
            match outcome {
                Ok(n) => date == Ok::<Date, InvalidDate>(Date { days_from_ce: n }),
                Err(message) => date == Err::<Date, InvalidDate>(InvalidDate { message }),
            },
    {
        match outcome {
            Ok(n) => Ok(Date::from_days_from_ce(n)),
            Err(message) => Err(InvalidDate { message }),
        }
    }

    /// Reads a date written as year, month and day with hyphens between
    /// them, such as `2020-01-05`. A text that is no such date is refused
    /// with the parser's reason.
    pub fn parse(text: &str) -> (date: Result<Date, InvalidDate>)
        ensures
            match date {
                Ok(d) => parsed_day_number(text@, iso_date_format()) == Ok::<int, Seq<char>>(
                    d.days_from_ce as int,
                ),
                Err(e) => parsed_day_number(text@, iso_date_format()) == Err::<int, Seq<char>>(
                    e.message@,
                ),
            },
    {
        Date::from_parsed(chrono_parse(text, "%Y-%m-%d"))
    }

    /// Year, month and day of the month of this date, or `None` where the
    /// calendar does not reach this day number.
    pub fn to_ymd(self) -> (ymd: Option<(i32, u32, u32)>)
        ensures
            match ymd {
                Some(t) => day_number_civil(self.days_from_ce as int) == Some(
                    (t.0 as int, t.1 as int, t.2 as int),
                ),
                None => day_number_civil(self.days_from_ce as int) is None,
            },
    {
        chrono_civil(self.days_from_ce)
    }

    /// The number of days from `earlier` to `self`: negative where `self` is
    /// the earlier of the two.
    pub open spec fn spec_days_since(self, earlier: Date) -> int {
        self.days_from_ce - earlier.days_from_ce
    }

    /// The number of days from `earlier` to `self`, negative where `self`
    /// comes first.
    pub fn days_since(self, earlier: Date) -> (days: i64)
        ensures
            days == self.spec_days_since(earlier),
    {
        self.days_from_ce as i64 - earlier.days_from_ce as i64
    }

    /// The date `days` days after `self` (before it, for a negative count).
    pub open spec fn spec_add_days(self, days: int) -> Date {
        Date { days_from_ce: (self.days_from_ce + days) as i32 }
    }

    /// Whether the date `days` days after `self` has a day number that a
    /// `Date` can hold.
    pub open spec fn can_add_days(self, days: int) -> bool {
        i32::MIN <= self.days_from_ce + days <= i32::MAX
    }

    /// The date `days` days after `self`, or `None` where its day number
    /// cannot be held.
    pub fn checked_add_days(self, days: i64) -> (date: Option<Date>)
        ensures
            date == if self.can_add_days(days as int) {
                Some(self.spec_add_days(days as int))
            } else {
                None
            },
    {
        if days < i32::MIN as i64 - self.days_from_ce as i64 || days > i32::MAX as i64
            - self.days_from_ce as i64 {
            None
        } else {
            let n: i64 = self.days_from_ce as i64 + days;
            Some(Date { days_from_ce: n as i32 })
        }
    }
}

} // verus!
