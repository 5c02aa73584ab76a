//! Days of the proleptic Gregorian calendar: which triples of year, month
//! and day name one, and how a day is read from text and written as text.
//! The calendar itself is chrono's; a [`Date`] holds what chrono found.

use crate::todo::TodoError;
use chrono::{Datelike, NaiveDate};
use vstd::prelude::*;

verus! {

/// The earliest year a [`Date`] can lie in.
pub const MIN_YEAR: i32 = -262_143;

/// The latest year a [`Date`] can lie in.
pub const MAX_YEAR: i32 = 262_142;

/// Whether `year` has a 29th of February. Year 0 is the year before year 1.
pub open spec fn is_leap_year(year: int) -> bool {
    year % 4 == 0 && (year % 100 != 0 || year % 400 == 0)
}

/// The number of days of `month` (1 to 12) in `year`.
pub open spec fn days_in_month(year: int, month: int) -> int {
    if month == 2 {
        if is_leap_year(year) {
            29
        } else {
            28
        }
    } else if month == 4 || month == 6 || month == 9 || month == 11 {
        30
    } else {
        31
    }
}

/// Whether (`year`, `month`, `day`) names a day that exists, in a year that a
/// [`Date`] can hold.
pub open spec fn is_calendar_date(year: int, month: int, day: int) -> bool {
    &&& MIN_YEAR <= year <= MAX_YEAR
    &&& 1 <= month <= 12
    &&& 1 <= day <= days_in_month(year, month)
}

/// A day of the calendar. Every value names a day that exists.
#[derive(Clone, Copy, Debug, PartialEq, Eq, Structural)]
pub struct Date {
    year: i32,
    month: u32,
    day: u32,
}

/// `chrono::NaiveDate::from_ymd_opt`, the date it makes read back with
/// `Datelike::year`, `month` and `day`.
///
/// Trusted: chrono makes a date for exactly the triples that name an existing
/// day in a year from [`MIN_YEAR`] to [`MAX_YEAR`], and the date it makes has
/// the year, month and day that were given.
#[verifier::external_body]
fn make_ymd(year: i32, month: u32, day: u32) -> (r: Option<(i32, u32, u32)>)
    ensures
        r == (if is_calendar_date(year as int, month as int, day as int) {
            Some((year, month, day))
        } else {
            None
        }),
{
    match NaiveDate::from_ymd_opt(year, month, day) {
        Some(date) => Some((date.year(), date.month(), date.day())),
        None => None,
    }
}

/// The year, month and day that chrono reads from a text written as year,
/// month and day with hyphens between them, if it reads a date from it.
pub uninterp spec fn chrono_ymd(text: Seq<char>) -> Option<(i32, u32, u32)>;

/// `chrono::NaiveDate::parse_from_str` with the format `%Y-%m-%d`, the date
/// it reads handed on as `Datelike::year`, `month` and `day` give it.
///
/// Trusted: what chrono reads depends on the text alone.
#[verifier::external_body]
fn read_ymd(text: &str) -> (parts: Option<(i32, u32, u32)>)
    ensures
        parts == chrono_ymd(text@),
{
    match NaiveDate::parse_from_str(text, "%Y-%m-%d") {
        Ok(date) => Some((date.year(), date.month(), date.day())),
        Err(_) => None,
    }
}

/// The text that chrono writes for the date of a year, month and day in the
/// format `%Y-%m-%d`.
pub uninterp spec fn chrono_ymd_text(year: i32, month: u32, day: u32) -> Seq<char>;

/// `chrono::NaiveDate::format` with the format `%Y-%m-%d`, on the date that
/// `NaiveDate::from_ymd_opt` makes of the triple.
///
/// Trusted: there is a text exactly where the triple names a day (see
/// [`make_ymd`]), and the text depends on the triple alone.
#[verifier::external_body]
fn write_ymd(year: i32, month: u32, day: u32) -> (text: Option<String>)
    ensures
        text is Some <==> is_calendar_date(year as int, month as int, day as int),
        text matches Some(written) ==> written@ == chrono_ymd_text(year, month, day),
{
    match NaiveDate::from_ymd_opt(year, month, day) {
        Some(date) => Some(date.format("%Y-%m-%d").to_string()),
        None => None,
    }
}

impl Date {
    /// Every date names a day that exists.
    #[verifier::type_invariant]
    spec fn exists_in_calendar(self) -> bool {
        is_calendar_date(self.year as int, self.month as int, self.day as int)
    }

    /// The date with the given year, month and day.
    pub closed spec fn of(year: int, month: int, day: int) -> Date {
        Date { year: year as i32, month: month as u32, day: day as u32 }
    }

    /// The year of the date.
    pub closed spec fn year_of(self) -> int {
        self.year as int
    }

    /// The month of the date, from 1 for January.
    pub closed spec fn month_of(self) -> int {
        self.month as int
    }

    /// The day of the month, from 1.
    pub closed spec fn day_of(self) -> int {
        self.day as int
    }

    /// Whether this value names a day that exists. Every value that
    /// executable code holds does.
    pub open spec fn is_valid(self) -> bool {
        is_calendar_date(self.year_of(), self.month_of(), self.day_of())
    }

    /// A date is its year, month and day, and nothing else.
    pub proof fn lemma_of_parts(self)
        ensures
            self == Date::of(self.year_of(), self.month_of(), self.day_of()),
    {
    }

    /// The parts of the date made from a triple that fits the field types.
    pub proof fn lemma_parts_of(year: int, month: int, day: int)
        requires
            i32::MIN <= year <= i32::MAX,
            0 <= month <= u32::MAX,
            0 <= day <= u32::MAX,
        ensures
            Date::of(year, month, day).year_of() == year,
            Date::of(year, month, day).month_of() == month,
            Date::of(year, month, day).day_of() == day,
    {
    }

    /// Makes the date of a year, month and day, or rejects the triple with
    /// [`TodoError::InvalidDate`] when there is no such day, or the year lies
    /// before [`MIN_YEAR`] or after [`MAX_YEAR`].
    pub fn from_ymd(year: i32, month: u32, day: u32) -> (r: Result<Date, TodoError>)
        ensures
            is_calendar_date(year as int, month as int, day as int) ==> r == Ok::<Date, TodoError>(
                Date::of(year as int, month as int, day as int),
            ),
            !is_calendar_date(year as int, month as int, day as int) ==> r == Err::<
                Date,
                TodoError,
            >(TodoError::InvalidDate),
            r matches Ok(date) ==> date.year_of() == year && date.month_of() == month
                && date.day_of() == day,
    {
        match make_ymd(year, month, day) {
            Some((y, m, d)) => Ok(Date { year: y, month: m, day: d }),
            None => Err(TodoError::InvalidDate),
        }
    }

    /// The date that a text names, if it names one: what chrono reads from
    /// it, where that is a day that exists.
    pub open spec fn read(text: Seq<char>) -> Option<Date> {
        match chrono_ymd(text) {
            Some((year, month, day)) => if is_calendar_date(
                year as int,
                month as int,
                day as int,
            ) {
                Some(Date::of(year as int, month as int, day as int))
            } else {
                None
            },
            None => None,
        }
    }

    /// Reads a date written as year, month and day with hyphens between
    /// them, such as `2023-12-31`. A text that names no date is rejected with
    /// [`TodoError::InvalidDate`].
    pub fn parse(text: &str) -> (r: Result<Date, TodoError>)
        ensures
            Date::read(text@) matches Some(date) ==> r == Ok::<Date, TodoError>(date),
            Date::read(text@) is None ==> r == Err::<Date, TodoError>(TodoError::InvalidDate),
    {
        match read_ymd(text) {
            Some((year, month, day)) => Date::from_ymd(year, month, day),
            None => Err(TodoError::InvalidDate),
        }
    }

    /// The date written as year, month and day with hyphens between them.
    pub open spec fn text(self) -> Seq<char> {
        chrono_ymd_text(self.year_of() as i32, self.month_of() as u32, self.day_of() as u32)
    }

    /// Writes the date as year, month and day with hyphens between them,
    /// such as `2023-12-31`.
    pub fn to_text(&self) -> (written: String)
        ensures
            written@ == self.text(),
    {
        proof {
            use_type_invariant(self);
        }
        match write_ymd(self.year, self.month, self.day) {
            Some(written) => written,
            None => {
                assert(false);
                String::new()
            },
        }
    }

    /// The year of the date.
    pub fn year(&self) -> (y: i32)
        ensures
            y == self.year_of(),
            self.is_valid(),
    {
        proof {
            use_type_invariant(self);
        }
        self.year
    }

    /// The month of the date, from 1 for January.
    pub fn month(&self) -> (m: u32)
        ensures
            m == self.month_of(),
            self.is_valid(),
    {
        proof {
            use_type_invariant(self);
        }
        self.month
    }

    /// The day of the month, from 1.
    pub fn day(&self) -> (d: u32)
        ensures
            d == self.day_of(),
            self.is_valid(),
    {
        proof {
            use_type_invariant(self);
        }
        self.day
    }
}

} // verus!
