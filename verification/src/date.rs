//! Calendar dates of the proleptic Gregorian calendar, years 0 to 9999, and
//! their exchange as `YYYY-MM-DD` text.

use vstd::prelude::*;
use chrono::Datelike;
use crate::error::ParseFailure;
use crate::month::SpecificMonth;
use crate::text::digit_char;

verus! {

/// Year, month and day as plain numbers.
pub struct Ymd {
    pub year: int,
    pub month: int,
    pub day: int,
}

/// Whether `year` has a 29th of February.
pub open spec fn is_leap_year(year: int) -> bool {
    (year % 4 == 0 && year % 100 != 0) || year % 400 == 0
}

/// The number of days of a month, for a month from 1 to 12.
pub open spec fn days_in_month(year: int, month: int) -> int {
    if month == 2 {
        if is_leap_year(year) { 29 } else { 28 }
    } else if month == 4 || month == 6 || month == 9 || month == 11 {
        30
    } else {
        31
    }
}

/// Whether the day exists in the calendar and its year is from 0 to 9999.
pub open spec fn valid_ymd(year: int, month: int, day: int) -> bool {
    &&& 0 <= year <= 9999
    &&& 1 <= month <= 12
    &&& 1 <= day <= days_in_month(year, month)
}

/// Whether `a` is a later day than `b`.
pub open spec fn day_after(a: Ymd, b: Ymd) -> bool {
    a.year > b.year || (a.year == b.year && (a.month > b.month || (a.month == b.month && a.day
        > b.day)))
}

/// `n` below 100 written with two digits.
pub open spec fn two_digits(n: int) -> Seq<char> {
    seq![digit_char((n / 10) as nat), digit_char((n % 10) as nat)]
}

/// A date as `YYYY-MM-DD`, each part padded with zeros.
pub open spec fn iso_text(year: int, month: int, day: int) -> Seq<char> {
    two_digits(year / 100) + two_digits(year % 100) + seq!['-'] + two_digits(month) + seq!['-']
        + two_digits(day)
}

/// The error with which chrono refuses a text.
#[verifier::external_type_specification]
#[verifier::external_body]
pub struct ExChronoParseError(chrono::format::ParseError);

/// Year, month and day of the date that chrono reads from a text in the
/// format `%Y-%m-%d`; nothing where chrono refuses the text.
pub uninterp spec fn chrono_ymd_of_text(text: Seq<char>) -> Option<(int, int, int)>;

/// Reads a date with chrono. Trusted: this calls
/// `chrono::NaiveDate::parse_from_str` with the format `%Y-%m-%d` and hands
/// out year, month and day of the date it returns, or its error. The result
/// depends on the text alone, and is what `chrono_ymd_of_text` names.
#[verifier::external_body]
fn chrono_parse_ymd(text: &str) -> (fields: Result<(i32, u32, u32), chrono::format::ParseError>)
    ensures
        match fields {
            Ok(f) => chrono_ymd_of_text(text@) == Some((f.0 as int, f.1 as int, f.2 as int)),
            Err(_) => chrono_ymd_of_text(text@) is None,
        },
{
    let date = chrono::NaiveDate::parse_from_str(text, "%Y-%m-%d")?;
    Ok((date.year(), date.month(), date.day()))
}

/// Writes a date with chrono. Trusted: this calls
/// `chrono::NaiveDate::from_ymd_opt`, which gives a date for every day that
/// exists in a year chrono supports, and `NaiveDate::format` with
/// `%Y-%m-%d`, which for a year from 0 to 9999 writes the year with four
/// digits, month and day with two, padded with zeros and joined by `-`.
#[verifier::external_body]
fn chrono_format_ymd(year: i32, month: u32, day: u32) -> (text: String)
    requires
        valid_ymd(year as int, month as int, day as int),
    ensures
        text@ == iso_text(year as int, month as int, day as int),
{
    chrono::NaiveDate::from_ymd_opt(year, month, day).unwrap().format("%Y-%m-%d").to_string()
}

/// A calendar date.
#[derive(Clone, Copy, Debug, PartialEq, Eq, Hash, Structural)]
pub struct Date {
    year: u16,
    month: u8,
    day: u8,
}

impl View for Date {
    type V = Ymd;

    closed spec fn view(&self) -> Ymd {
        Ymd { year: self.year as int, month: self.month as int, day: self.day as int }
    }
}

/// The date that year, month and day as chrono hands them out make, where
/// they are a valid date.
pub open spec fn date_of_fields(fields: Option<(int, int, int)>) -> Option<Ymd> {
    match fields {
        Some((year, month, day)) => if valid_ymd(year, month, day) {
            Some(Ymd { year, month, day })
        } else {
            None
        },
        None => None,
    }
}

/// The number of days of a month.
fn month_length(year: u16, month: u8) -> (days: u8)
    requires
        1 <= month <= 12,
    ensures
        days == days_in_month(year as int, month as int),
{
    if month == 2 {
        if (year % 4 == 0 && year % 100 != 0) || year % 400 == 0 {
            29
        } else {
            28
        }
    } else if month == 4 || month == 6 || month == 9 || month == 11 {
        30
    } else {
        31
    }
}

impl Date {
    /// Whether the date exists in the calendar.
    pub open spec fn wf(self) -> bool {
        valid_ymd(self@.year, self@.month, self@.day)
    }

    /// The date of the given year, month and day, if it exists and its year
    /// is from 0 to 9999.
    pub fn new(year: i32, month: u32, day: u32) -> (date: Option<Date>)
        ensures
            date is Some <==> valid_ymd(year as int, month as int, day as int),
            date matches Some(d) ==> d.wf() && d@ == (Ymd {
                year: year as int,
                month: month as int,
                day: day as int,
            }),
    {
        if 0 <= year && year <= 9999 && 1 <= month && month <= 12 && 1 <= day && day <= 31 {
            if day as u8 <= month_length(year as u16, month as u8) {
                return Some(Date { year: year as u16, month: month as u8, day: day as u8 });
            }
        }
        None
    }

    /// The year, from 0 to 9999.
    pub fn year(&self) -> (year: u16)
        ensures
            year == self@.year,
    {
        self.year
    }

    /// The month, from 1 to 12.
    pub fn month(&self) -> (month: u8)
        ensures
            month == self@.month,
    {
        self.month
    }

    /// The day of the month, from 1 to 31.
    pub fn day(&self) -> (day: u8)
        ensures
            day == self@.day,
    {
        self.day
    }

    /// The month in which the date lies: the day is left out.
    pub fn month_key(&self) -> (key: SpecificMonth)
        ensures
            key.year == self@.year,
            key.month == self@.month,
    {
        SpecificMonth { year: self.year, month: self.month as u16 }
    }

    /// Whether this date is a later day than `other`.
    pub fn is_after(&self, other: &Date) -> (later: bool)
        ensures
            later == day_after(self@, other@),
    {
        self.year > other.year || (self.year == other.year && (self.month > other.month || (
        self.month == other.month && self.day > other.day)))
    }

    /// Reads a date in the form `YYYY-MM-DD`, as chrono reads the format
    /// `%Y-%m-%d`. Dates that do not exist and years outside 0 to 9999 are
    /// refused.
    pub fn parse(text: &str) -> (parsed: Result<Date, ParseFailure>)
        ensures
            match date_of_fields(chrono_ymd_of_text(text@)) {
                Some(ymd) => parsed matches Ok(d) && d@ == ymd && d.wf(),
                None => parsed == Err::<Date, ParseFailure>(ParseFailure::Date),
            },
    {
        match chrono_parse_ymd(text) {
            Ok((year, month, day)) => match Date::new(year, month, day) {
                Some(date) => Ok(date),
                None => Err(ParseFailure::Date),
            },
            Err(_) => Err(ParseFailure::Date),
        }
    }

    /// The date as `YYYY-MM-DD`.
    pub fn to_iso_string(&self) -> (text: String)
        requires
            self.wf(),
        ensures
            text@ == iso_text(self@.year, self@.month, self@.day),
    {
        chrono_format_ymd(self.year as i32, self.month as u32, self.day as u32)
    }
}

} // verus!
