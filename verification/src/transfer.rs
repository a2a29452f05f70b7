//! Transfers between two accounts of one owner: one movement of money,
//! stored as two postings that share their description and their day.

use vstd::prelude::*;
use crate::account::{account_label, AccountView};
use crate::amount::amount_of_text;
use crate::date::{date_of_fields, Ymd};
use crate::error::{LedgerError, ParseFailure};
use crate::expense::TransactionView;
use crate::ledger::find_account;
use crate::text::signed_digits;

verus! {

/// The description that both postings of a transfer between two accounts of
/// one owner carry: it names both accounts by label and id.
pub open spec fn transfer_description(from: AccountView, to: AccountView) -> Seq<char> {
    "Przelew własny: "@ + account_label(from.currency, from.name) + " (#"@ + signed_digits(
        from.id,
    ) + ") -> "@ + account_label(to.currency, to.name) + " (#"@ + signed_digits(to.id) + ")"@
}

/// The two postings that a transfer makes, or why it makes none: the source
/// is debited with the amount that leaves it, the destination credited with
/// the amount that arrives, both on the same day and under the same
/// description. An unknown account is reported, the source first.
pub open spec fn transfer_postings(
    accounts: Seq<AccountView>,
    from: i64,
    to: i64,
    amount_from: int,
    amount_to: int,
    date: Ymd,
) -> Result<(TransactionView, TransactionView), LedgerError> {
    match find_account(accounts, from as int) {
        None => Err(LedgerError::NotFound(from)),
        Some(source) => match find_account(accounts, to as int) {
            None => Err(LedgerError::NotFound(to)),
            Some(destination) => Ok(
                (
                    TransactionView {
                        name: transfer_description(source, destination),
                        value: amount_from,
                        date,
                        account_id: from as int,
                    },
                    TransactionView {
                        name: transfer_description(source, destination),
                        value: -amount_to,
                        date,
                        account_id: to as int,
                    },
                ),
            ),
        },
    }
}

/// The transfer that an entry with amounts and day given as text asks for:
/// the amount that leaves is read first, then the amount that arrives, then
/// the day, and the first that is malformed is reported; after that an
/// unknown account.
pub open spec fn transfer_of_input(
    accounts: Seq<AccountView>,
    from: i64,
    to: i64,
    amount_from: Seq<char>,
    amount_to: Seq<char>,
    date: Option<(int, int, int)>,
) -> Result<(TransactionView, TransactionView), LedgerError> {
    match amount_of_text(amount_from) {
        None => Err(LedgerError::Parse(ParseFailure::Amount)),
        Some(leaves) => match amount_of_text(amount_to) {
            None => Err(LedgerError::Parse(ParseFailure::Amount)),
            Some(arrives) => match date_of_fields(date) {
                None => Err(LedgerError::Parse(ParseFailure::Date)),
                Some(day) => transfer_postings(accounts, from, to, leaves, arrives, day),
            },
        },
    }
}

/// A transfer between two known accounts makes exactly two postings that
/// share description and day: the first against the source with the amount
/// that leaves, the second against the destination with the negated amount
/// that arrives. With an unknown account it makes none and names the
/// account, the source before the destination.
pub proof fn law_transfer_legs(
    accounts: Seq<AccountView>,
    from: i64,
    to: i64,
    amount_from: int,
    amount_to: int,
    date: Ymd,
)
    ensures
        match transfer_postings(accounts, from, to, amount_from, amount_to, date) {
            Ok((debit, credit)) => {
                &&& find_account(accounts, from as int) is Some
                &&& find_account(accounts, to as int) is Some
                &&& debit.name == credit.name
                &&& debit.date == date && credit.date == date
                &&& debit.account_id == from && debit.value == amount_from
                &&& credit.account_id == to && credit.value == -amount_to
            },
            Err(e) => if find_account(accounts, from as int) is None {
                e == LedgerError::NotFound(from)
            } else {
                find_account(accounts, to as int) is None && e == LedgerError::NotFound(to)
            },
        },
{
}

} // verus!
