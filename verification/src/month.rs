//! Months of the calendar: their Polish names and the (year, month) key under
//! which expenses are grouped.

use vstd::prelude::*;
use vstd::string::StringExecFns;
use crate::error::ParseFailure;
use crate::text::{
    chars_of, decimal_chars, decimal_digits, decimal_within, find_first, first_of,
    parse_decimal, push_char, push_chars,
};

verus! {

/// The Polish name of month `m`, counted from 1; any other number gives the
/// name of the unknown month.
pub open spec fn month_name(m: int) -> Seq<char> {
    if m == 1 {
        "styczeń"@
    } else if m == 2 {
        "luty"@
    } else if m == 3 {
        "marzec"@
    } else if m == 4 {
        "kwiecień"@
    } else if m == 5 {
        "maj"@
    } else if m == 6 {
        "czerwiec"@
    } else if m == 7 {
        "lipiec"@
    } else if m == 8 {
        "sierpień"@
    } else if m == 9 {
        "wrzesień"@
    } else if m == 10 {
        "październik"@
    } else if m == 11 {
        "listopad"@
    } else if m == 12 {
        "grudzień"@
    } else {
        "nieznany miesiąc"@
    }
}

/// Looks up the Polish name of a month. Never fails: a number outside 1..=12
/// yields "nieznany miesiąc".
pub fn get_month_name(a: u16) -> (name: &'static str)
    ensures
        name@ == month_name(a as int),
{
    match a {
        1 => "styczeń",
        2 => "luty",
        3 => "marzec",
        4 => "kwiecień",
        5 => "maj",
        6 => "czerwiec",
        7 => "lipiec",
        8 => "sierpień",
        9 => "wrzesień",
        10 => "październik",
        11 => "listopad",
        12 => "grudzień",
        _ => "nieznany miesiąc",
    }
}

/// A month of a year: the key under which expenses are grouped. Two keys are
/// the same exactly when year and month agree.
#[derive(Clone, Copy, Debug, PartialEq, Eq, Hash, Structural)]
pub struct SpecificMonth {
    pub year: u16,
    pub month: u16,
}

/// The number, at most 65535, that a text of digits with an optional leading
/// `+` denotes.
pub open spec fn small_number_of_text(s: Seq<char>) -> Option<u64> {
    decimal_within(if s.len() > 0 && s[0] == '+' { s.skip(1) } else { s }, 65535)
}

/// The month that a key such as `2022-12` names. Only what stands before the
/// second `-` counts, so `2022-12-24` names the same month. The month must be
/// from 1 to 12.
pub open spec fn month_of_text(text: Seq<char>) -> Option<SpecificMonth> {
    let first = first_of(text, '-', '-');
    let rest = text.skip(first + 1);
    let second = first_of(rest, '-', '-');
    if first >= text.len() {
        None
    } else {
        match (small_number_of_text(text.take(first)), small_number_of_text(rest.take(second))) {
            (Some(year), Some(month)) => if 1 <= month <= 12 {
                Some(SpecificMonth { year: year as u16, month: month as u16 })
            } else {
                None
            },
            _ => None,
        }
    }
}

/// How a month is shown: its Polish name, a space, and the year.
pub open spec fn month_label(month: SpecificMonth) -> Seq<char> {
    month_name(month.month as int) + seq![' '] + decimal_digits(month.year as nat)
}

/// Reads the characters of `chars` from `start` up to `end` as a number of at
/// most 65535, with an optional leading `+`.
fn parse_small_number(chars: &Vec<char>, start: usize, end: usize) -> (number: Option<u64>)
    requires
        start <= end <= chars.len(),
    ensures
        number == small_number_of_text(chars@.subrange(start as int, end as int)),
{
    let ghost s = chars@.subrange(start as int, end as int);
    if start < end && chars[start] == '+' {
        assert(chars@.subrange(start + 1, end as int) =~= s.skip(1));
        parse_decimal(chars, start + 1, end, 65535)
    } else {
        parse_decimal(chars, start, end, 65535)
    }
}

impl SpecificMonth {
    /// Whether this month comes later in time than `other`.
    pub open spec fn after(self, other: SpecificMonth) -> bool {
        self.year > other.year || (self.year == other.year && self.month > other.month)
    }

    /// Whether this month comes later in time than `other`.
    pub fn is_after(&self, other: &SpecificMonth) -> (later: bool)
        ensures
            later == self.after(*other),
    {
        self.year > other.year || (self.year == other.year && self.month > other.month)
    }

    /// Reads a month key: `<year>-<month>`, optionally followed by `-` and
    /// anything else.
    pub fn parse(text: &str) -> (parsed: Result<SpecificMonth, ParseFailure>)
        ensures
            parsed == match month_of_text(text@) {
                Some(month) => Ok::<SpecificMonth, ParseFailure>(month),
                None => Err(ParseFailure::Month),
            },
    {
        let chars = chars_of(text);
        let n = chars.len();
        let first = find_first(&chars, 0, '-', '-');
        assert(chars@.skip(0) =~= chars@);
        if first >= n {
            return Err(ParseFailure::Month);
        }
        let second = find_first(&chars, first + 1, '-', '-');
        let ghost rest = text@.skip(first + 1);
        assert(chars@.subrange(0, first as int) =~= text@.take(first as int));
        assert(chars@.subrange(first + 1, second as int) =~= rest.take(second - first - 1));
        let year = parse_small_number(&chars, 0, first);
        let month = parse_small_number(&chars, first + 1, second);
        match (year, month) {
            (Some(year), Some(month)) => {
                if 1 <= month && month <= 12 {
                    Ok(SpecificMonth { year: year as u16, month: month as u16 })
                } else {
                    Err(ParseFailure::Month)
                }
            },
            _ => Err(ParseFailure::Month),
        }
    }

    /// The month as it is shown: its Polish name, a space, and the year.
    pub fn to_string(&self) -> (text: String)
        ensures
            text@ == month_label(*self),
    {
        let mut text = String::from_str(get_month_name(self.month));
        push_char(&mut text, ' ');
        let year = decimal_chars(self.year as u64);
        push_chars(&mut text, &year);
        text
    }
}

} // verus!
