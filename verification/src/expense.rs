//! Postings of the ledger: as they are stored, and as they are listed once
//! their account has given them a currency.

use vstd::prelude::*;
use vstd::string::StringExecFns;
use crate::amount::{amount_of_text, magnitude_text, Amount, MAX_MINOR};
use crate::currency::Currency;
use crate::date::{chrono_ymd_of_text, date_of_fields, day_after, valid_ymd, Date, Ymd};
use crate::error::LedgerError;
use crate::month::SpecificMonth;
use crate::text::push_char;

verus! {

/// A stored posting: a signed amount moved on a day against one account. A
/// positive value is money out, a negative one money in. The currency is not
/// stored: it is that of the account.
#[derive(Debug, PartialEq, Eq)]
pub struct Transaction {
    /// The free-text description.
    pub name: String,
    pub value: Amount,
    pub date: Date,
    /// The id of the account that the posting belongs to.
    pub account_id: i64,
}

/// A stored posting as plain values.
pub struct TransactionView {
    pub name: Seq<char>,
    pub value: int,
    pub date: Ymd,
    pub account_id: int,
}

impl TransactionView {
    /// Whether amount and date are within their ranges.
    pub open spec fn wf(self) -> bool {
        &&& -MAX_MINOR <= self.value <= MAX_MINOR
        &&& valid_ymd(self.date.year, self.date.month, self.date.day)
    }
}

impl View for Transaction {
    type V = TransactionView;

    open spec fn view(&self) -> TransactionView {
        TransactionView {
            name: self.name@,
            value: self.value@,
            date: self.date@,
            account_id: self.account_id as int,
        }
    }
}

impl DeepView for Transaction {
    type V = TransactionView;

    open spec fn deep_view(&self) -> TransactionView {
        self@
    }
}

impl Clone for Transaction {
    fn clone(&self) -> (copy: Transaction)
        ensures
            copy == *self,
    {
        Transaction {
            name: self.name.clone(),
            value: self.value,
            date: self.date,
            account_id: self.account_id,
        }
    }
}

/// The posting that a new entry makes, with amount and day given as text: the
/// amount is read first, then the day, and the first that is malformed is
/// reported.
pub open spec fn posting_of_input(
    name: Seq<char>,
    value: Seq<char>,
    date: Option<(int, int, int)>,
    account_id: int,
) -> Result<TransactionView, LedgerError> {
    match amount_of_text(value) {
        None => Err(LedgerError::Parse(crate::error::ParseFailure::Amount)),
        Some(minor) => match date_of_fields(date) {
            None => Err(LedgerError::Parse(crate::error::ParseFailure::Date)),
            Some(day) => Ok(TransactionView { name, value: minor, date: day, account_id }),
        },
    }
}

impl Transaction {
    /// Whether amount and date are within their ranges.
    pub open spec fn wf(self) -> bool {
        self@.wf()
    }

    /// Makes a posting from what a user entered: a description, a decimal
    /// amount that may have a comma for the decimal point, a day as
    /// `YYYY-MM-DD`, and the id of an account.
    pub fn from_input(name: String, value: &str, date: &str, account_id: i64) -> (posting: Result<
        Transaction,
        LedgerError,
    >)
        ensures
            match posting_of_input(name@, value@, chrono_ymd_of_text(date@), account_id as int) {
                Ok(expected) => posting matches Ok(p) && p@ == expected && p.wf(),
                Err(e) => posting matches Err(f) && e == f,
            },
    {
        let value = match Amount::parse(value) {
            Ok(value) => value,
            Err(e) => {
                return Err(LedgerError::Parse(e));
            },
        };
        let date = match Date::parse(date) {
            Ok(date) => date,
            Err(e) => {
                return Err(LedgerError::Parse(e));
            },
        };
        Ok(Transaction { name, value, date, account_id })
    }
}

/// A listed posting: a stored posting together with its place in the order
/// of insertion and the currency of its account.
#[derive(Debug, PartialEq, Eq)]
pub struct Expense {
    /// The number of postings that were stored before this one.
    pub seq: usize,
    /// The free-text description.
    pub name: String,
    pub value: Amount,
    pub date: Date,
    pub account_id: i64,
    pub currency: Currency,
}

/// A listed posting as plain values.
pub struct ExpenseView {
    pub seq: int,
    pub name: Seq<char>,
    pub value: int,
    pub date: Ymd,
    pub account_id: int,
    pub currency: Currency,
}

impl ExpenseView {
    /// Whether amount and date are within their ranges.
    pub open spec fn wf(self) -> bool {
        &&& -MAX_MINOR <= self.value <= MAX_MINOR
        &&& valid_ymd(self.date.year, self.date.month, self.date.day)
    }

    /// Whether this posting is listed before `other`: it is of a later day,
    /// or of the same day and stored later.
    pub open spec fn listed_before(self, other: ExpenseView) -> bool {
        day_after(self.date, other.date) || (self.date == other.date && self.seq > other.seq)
    }

    /// Whether the posting lies in the given month.
    pub open spec fn in_month(self, month: SpecificMonth) -> bool {
        self.date.year == month.year && self.date.month == month.month
    }
}

impl View for Expense {
    type V = ExpenseView;

    open spec fn view(&self) -> ExpenseView {
        ExpenseView {
            seq: self.seq as int,
            name: self.name@,
            value: self.value@,
            date: self.date@,
            account_id: self.account_id as int,
            currency: self.currency,
        }
    }
}

impl DeepView for Expense {
    type V = ExpenseView;

    open spec fn deep_view(&self) -> ExpenseView {
        self@
    }
}

impl Clone for Expense {
    fn clone(&self) -> (copy: Expense)
        ensures
            copy == *self,
    {
        Expense {
            seq: self.seq,
            name: self.name.clone(),
            value: self.value,
            date: self.date,
            account_id: self.account_id,
            currency: self.currency,
        }
    }
}

/// How an amount is shown in its currency: the magnitude with the currency's
/// sign, after a `+` where the amount is an income.
pub open spec fn money_text(currency: Currency, minor: int) -> Seq<char> {
    let magnitude = magnitude_text((if minor < 0 { -minor } else { minor }) as nat);
    let plus = if minor < 0 { seq!['+'] } else { Seq::<char>::empty() };
    match currency {
        Currency::PLN => plus + magnitude + " zł"@,
        Currency::EUR => plus + "€"@ + magnitude,
        Currency::USD => plus + "$"@ + magnitude,
        Currency::GBP => plus + "£"@ + magnitude,
    }
}

/// How a posting is shown: its description, then the amount in brackets.
pub open spec fn expense_text(expense: ExpenseView) -> Seq<char> {
    expense.name + " ("@ + money_text(expense.currency, expense.value) + ")"@
}

impl Expense {
    /// Whether amount and date are within their ranges.
    pub open spec fn wf(self) -> bool {
        self@.wf()
    }

    /// The month in which the posting lies.
    pub fn month(&self) -> (month: SpecificMonth)
        ensures
            month.year == self@.date.year,
            month.month == self@.date.month,
            self@.in_month(month),
    {
        self.date.month_key()
    }

    /// The posting as it is shown, such as `Bread (4.5 zł)` for an expense
    /// and `Salary (+€1000)` for an income.
    pub fn to_string(&self) -> (text: String)
        requires
            self.wf(),
        ensures
            text@ == expense_text(self@),
    {
        let mut text = self.name.clone();
        text.append(" (");
        if self.value.is_income() {
            push_char(&mut text, '+');
        }
        let magnitude = self.value.magnitude_string();
        match self.currency {
            Currency::PLN => {
                text.append(magnitude.as_str());
                text.append(" zł");
            },
            Currency::EUR => {
                text.append("€");
                text.append(magnitude.as_str());
            },
            Currency::USD => {
                text.append("$");
                text.append(magnitude.as_str());
            },
            Currency::GBP => {
                text.append("£");
                text.append(magnitude.as_str());
            },
        }
        text.append(")");
        assert(text@ =~= expense_text(self@));
        text
    }
}

} // verus!
