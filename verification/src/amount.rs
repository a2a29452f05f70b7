//! Money amounts and exchange rates as fixed-point decimals.
//!
//! An amount counts hundredths of a currency unit; a rate counts
//! ten-thousandths of the reference unit paid for one unit of a currency. Both
//! are bounded, so that sums over a whole ledger never leave 128 bits.

use vstd::prelude::*;
use crate::error::ParseFailure;
use crate::text::{
    all_digits, chars_of, decimal_chars, decimal_digits, decimal_value, digit_char, digit_of,
    find_first, first_of, is_digit, lemma_decimal_digits_value, lemma_first_of_is, parse_decimal,
    push_char, push_chars,
};

verus! {

/// Hundredths in one currency unit.
pub const MINOR_PER_UNIT: i64 = 100;

/// The largest magnitude of an amount, in hundredths: ten billion units.
pub const MAX_MINOR: i64 = 1_000_000_000_000;

/// Ten-thousandths in one: the value of a rate of exactly 1.
pub const RATE_SCALE: u32 = 10_000;

/// The largest rate, in ten-thousandths: one hundred reference units.
pub const MAX_RATE: u32 = 1_000_000;

/// A signed amount of money in hundredths of a unit. A positive amount is an
/// expense, a negative one an income.
#[derive(Clone, Copy, Debug, PartialEq, Eq, Structural)]
pub struct Amount {
    minor: i64,
}

impl View for Amount {
    type V = int;

    /// The amount in hundredths of a unit.
    closed spec fn view(&self) -> int {
        self.minor as int
    }
}

/// The magnitude that an unsigned decimal text denotes, in hundredths: a run
/// of digits, then at most a `.` or `,` followed by one or two digits.
pub open spec fn magnitude_of_text(body: Seq<char>) -> Option<nat> {
    let k = first_of(body, '.', ',');
    let whole = body.take(k);
    let fraction = body.skip(k + 1);
    if whole.len() == 0 || !all_digits(whole) {
        None
    } else if k == body.len() {
        Some(decimal_value(whole) * 100)
    } else if fraction.len() == 1 && all_digits(fraction) {
        Some(decimal_value(whole) * 100 + decimal_value(fraction) * 10)
    } else if fraction.len() == 2 && all_digits(fraction) {
        Some(decimal_value(whole) * 100 + decimal_value(fraction))
    } else {
        None
    }
}

/// The amount that a decimal text denotes, in hundredths: an optional `+` or
/// `-`, then a magnitude that does not exceed `MAX_MINOR`.
pub open spec fn amount_of_text(text: Seq<char>) -> Option<int> {
    let signed = text.len() > 0 && (text[0] == '-' || text[0] == '+');
    let negative = text.len() > 0 && text[0] == '-';
    let body = if signed { text.skip(1) } else { text };
    match magnitude_of_text(body) {
        Some(magnitude) => if magnitude <= MAX_MINOR {
            Some(if negative { -(magnitude as int) } else { magnitude as int })
        } else {
            None
        },
        None => None,
    }
}

/// How a magnitude in hundredths is written: the whole units, then the
/// hundredths after a `.` with trailing zeros left out.
pub open spec fn magnitude_text(minor: nat) -> Seq<char> {
    let whole = decimal_digits(minor / 100);
    let cents = minor % 100;
    if cents == 0 {
        whole
    } else if cents % 10 == 0 {
        whole + seq!['.', digit_char(cents / 10)]
    } else {
        whole + seq!['.', digit_char(cents / 10), digit_char(cents % 10)]
    }
}

/// A numeral of one digit denotes at most 9, one of two digits at most 99.
proof fn lemma_short_numeral(s: Seq<char>)
    ensures
        all_digits(s) && s.len() == 1 ==> decimal_value(s) <= 9,
        all_digits(s) && s.len() == 2 ==> decimal_value(s) <= 99,
{
    reveal_with_fuel(decimal_value, 3);
    if !all_digits(s) {
    } else if s.len() == 1 {
        assert(is_digit(s[0]));
    } else if s.len() == 2 {
        assert(is_digit(s[1]));
        assert(is_digit(s.drop_last()[0]));
    }
}

/// What is written for a magnitude is read back as that magnitude.
pub proof fn law_written_magnitude_reads_back(minor: nat)
    ensures
        magnitude_of_text(magnitude_text(minor)) == Some(minor),
        minor <= MAX_MINOR ==> amount_of_text(magnitude_text(minor)) == Some(minor as int),
{
    let whole = decimal_digits(minor / 100);
    let cents = minor % 100;
    let text = magnitude_text(minor);
    lemma_decimal_digits_value(minor / 100);
    let k = whole.len() as int;
    assert(is_digit(whole[0]));
    assert(text[0] == whole[0]);
    assert forall|i: int| 0 <= i < k implies text[i] != '.' && text[i] != ',' by {
        assert(is_digit(whole[i]));
        assert(text[i] == whole[i]);
    }
    lemma_first_of_is(text, '.', ',', k);
    assert(text.take(k) =~= whole);
    reveal_with_fuel(decimal_value, 3);
    if cents == 0 {
    } else if cents % 10 == 0 {
        let fraction = seq![digit_char(cents / 10)];
        assert(text.skip(k + 1) =~= fraction);
        assert(is_digit(fraction[0]));
        assert(fraction.drop_last().len() == 0);
    } else {
        let fraction = seq![digit_char(cents / 10), digit_char(cents % 10)];
        assert(text.skip(k + 1) =~= fraction);
        assert(is_digit(fraction[0]) && is_digit(fraction[1]));
        assert(fraction.drop_last() =~= seq![digit_char(cents / 10)]);
        assert(fraction.drop_last().drop_last().len() == 0);
    }
    assert(text.skip(0) =~= text);
}

impl Amount {
    /// Whether the amount is within the supported range.
    pub open spec fn wf(self) -> bool {
        -MAX_MINOR <= self@ <= MAX_MINOR
    }

    /// The magnitude of the amount, in hundredths.
    pub open spec fn magnitude(self) -> nat {
        if self@ < 0 { (-self@) as nat } else { self@ as nat }
    }

    /// An amount of `minor` hundredths, unless that is out of range.
    pub fn from_minor(minor: i64) -> (amount: Option<Amount>)
        ensures
            amount is Some <==> -MAX_MINOR <= minor <= MAX_MINOR,
            amount matches Some(a) ==> a@ == minor && a.wf(),
    {
        if -MAX_MINOR <= minor && minor <= MAX_MINOR {
            Some(Amount { minor })
        } else {
            None
        }
    }

    /// The amount in hundredths.
    pub fn minor(&self) -> (minor: i64)
        ensures
            minor == self@,
    {
        self.minor
    }

    /// Whether the amount is an income, that is, negative.
    pub fn is_income(&self) -> (income: bool)
        ensures
            income == (self@ < 0),
    {
        self.minor < 0
    }

    /// The amount with its sign turned.
    pub fn negated(&self) -> (turned: Amount)
        requires
            self.wf(),
        ensures
            turned@ == -self@,
            turned.wf(),
    {
        Amount { minor: -self.minor }
    }

    /// Reads a decimal amount such as `21.37`, `21,37`, `-5` or `+0,5`.
    pub fn parse(text: &str) -> (parsed: Result<Amount, ParseFailure>)
        ensures
            match amount_of_text(text@) {
                Some(minor) => parsed matches Ok(a) && a@ == minor && a.wf(),
                None => parsed == Err::<Amount, ParseFailure>(ParseFailure::Amount),
            },
    {
        let chars = chars_of(text);
        let n = chars.len();
        let signed = n > 0 && (chars[0] == '-' || chars[0] == '+');
        let negative = n > 0 && chars[0] == '-';
        let start: usize = if signed { 1 } else { 0 };
        let ghost body = chars@.skip(start as int);
        assert(body == if signed { text@.skip(1) } else { text@ }) by {
            assert(chars@.skip(0) =~= chars@);
        }
        let k = find_first(&chars, start, '.', ',');
        let ghost whole = body.take(k - start);
        let ghost fraction = body.skip(k - start + 1);
        assert(chars@.subrange(start as int, k as int) =~= whole);
        let units = match parse_decimal(&chars, start, k, 10_000_000_000) {
            Some(units) => units,
            None => {
                return Err(ParseFailure::Amount);
            },
        };
        let cents: u64 = if k == n {
            0
        } else {
            assert(chars@.subrange(k + 1, n as int) =~= fraction);
            proof {
                lemma_short_numeral(fraction);
            }
            if n - k - 1 == 1 {
                match parse_decimal(&chars, k + 1, n, 9) {
                    Some(tenths) => tenths * 10,
                    None => {
                        return Err(ParseFailure::Amount);
                    },
                }
            } else if n - k - 1 == 2 {
                match parse_decimal(&chars, k + 1, n, 99) {
                    Some(hundredths) => hundredths,
                    None => {
                        return Err(ParseFailure::Amount);
                    },
                }
            } else {
                return Err(ParseFailure::Amount);
            }
        };
        let magnitude: u64 = units * 100 + cents;
        if magnitude > MAX_MINOR as u64 {
            return Err(ParseFailure::Amount);
        }
        let minor: i64 = if negative { -(magnitude as i64) } else { magnitude as i64 };
        Ok(Amount { minor })
    }

    /// Writes the magnitude of the amount as a decimal, without sign.
    pub fn magnitude_string(&self) -> (text: String)
        requires
            self.wf(),
        ensures
            text@ == magnitude_text(self.magnitude()),
    {
        let magnitude: u64 = if self.minor < 0 { (-self.minor) as u64 } else { self.minor as u64 };
        let mut text = String::new();
        let whole = decimal_chars(magnitude / 100);
        push_chars(&mut text, &whole);
        let cents: u64 = magnitude % 100;
        if cents != 0 {
            push_char(&mut text, '.');
            push_char(&mut text, digit_of((cents / 10) as u8));
            if cents % 10 != 0 {
                push_char(&mut text, digit_of((cents % 10) as u8));
            }
        }
        assert(text@ =~= magnitude_text(self.magnitude()));
        text
    }
}

/// An exchange rate: how many ten-thousandths of the reference currency one
/// unit of a currency is worth.
#[derive(Clone, Copy, Debug, PartialEq, Eq, Structural)]
pub struct Rate {
    scaled: u32,
}

impl View for Rate {
    type V = int;

    /// The rate in ten-thousandths.
    closed spec fn view(&self) -> int {
        self.scaled as int
    }
}

impl Rate {
    /// Whether the rate is within the supported range.
    pub open spec fn wf(self) -> bool {
        0 <= self@ <= MAX_RATE
    }

    /// A rate of `scaled` ten-thousandths, unless that is out of range.
    pub fn from_scaled(scaled: u32) -> (rate: Option<Rate>)
        ensures
            rate is Some <==> scaled <= MAX_RATE,
            rate matches Some(r) ==> r@ == scaled && r.wf(),
    {
        if scaled <= MAX_RATE {
            Some(Rate { scaled })
        } else {
            None
        }
    }

    /// The rate in ten-thousandths.
    pub fn scaled(&self) -> (scaled: u32)
        ensures
            scaled == self@,
    {
        self.scaled
    }
}

} // verus!
