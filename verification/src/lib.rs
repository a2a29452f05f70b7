//! Casa: a personal ledger of expenses and incomes over several accounts and
//! currencies, with monthly grouping, balances and own-account transfers.

pub mod account;
pub mod amount;
pub mod currency;
pub mod date;
pub mod error;
pub mod expense;
pub mod grouping;
pub mod ledger;
pub mod listing;
pub mod month;
pub mod rates;
pub mod reconcile;
pub mod report;
pub mod text;
pub mod transfer;
