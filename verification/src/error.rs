//! The ways in which the ledger refuses an input or an operation.

use vstd::prelude::*;

verus! {

/// Which kind of text could not be read.
#[derive(Clone, Copy, Debug, PartialEq, Eq, Structural)]
pub enum ParseFailure {
    /// A currency code other than the supported ones.
    Currency,
    /// A month key that is not `<year>-<month>` with a month from 1 to 12.
    Month,
    /// A calendar date that is not `YYYY-MM-DD`, or that does not exist.
    Date,
    /// A decimal amount that is malformed or out of range.
    Amount,
}

/// Why an operation on the ledger failed.
#[derive(Clone, Copy, Debug, PartialEq, Eq, Structural)]
pub enum LedgerError {
    /// An input text was malformed.
    Parse(ParseFailure),
    /// No account has the given id.
    NotFound(i64),
    /// The store refused or failed the operation.
    Storage,
}

} // verus!
