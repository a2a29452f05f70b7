//! Accounts: named containers of money, each in one fixed currency.

use vstd::prelude::*;
use vstd::string::StringExecFns;
use crate::currency::{code_of, Currency};
use crate::text::push_char;

verus! {

/// An account. The ledger only reads accounts; they are made and edited by
/// whoever administers the store.
#[derive(Debug, PartialEq, Eq)]
pub struct Account {
    /// The identifier that the store assigned.
    pub id: i64,
    pub name: String,
    pub currency: Currency,
    /// Accounts are listed by ascending `display_order`.
    pub display_order: i64,
}

/// An account as plain values.
pub struct AccountView {
    pub id: int,
    pub name: Seq<char>,
    pub currency: Currency,
    pub display_order: int,
}

impl View for Account {
    type V = AccountView;

    open spec fn view(&self) -> AccountView {
        AccountView {
            id: self.id as int,
            name: self.name@,
            currency: self.currency,
            display_order: self.display_order as int,
        }
    }
}

impl DeepView for Account {
    type V = AccountView;

    open spec fn deep_view(&self) -> AccountView {
        self@
    }
}

impl Clone for Account {
    fn clone(&self) -> (copy: Account)
        ensures
            copy == *self,
    {
        Account {
            id: self.id,
            name: self.name.clone(),
            currency: self.currency,
            display_order: self.display_order,
        }
    }
}

/// The label under which an account appears in reports: its currency code in
/// square brackets, a space, and its name.
pub open spec fn account_label(currency: Currency, name: Seq<char>) -> Seq<char> {
    seq!['['] + code_of(currency) + seq![']', ' '] + name
}

impl Account {
    /// The label of the account, such as `[PLN] Wallet`.
    pub fn label(&self) -> (text: String)
        ensures
            text@ == account_label(self.currency, self.name@),
    {
        let mut text = String::new();
        push_char(&mut text, '[');
        text.append(self.currency.code());
        push_char(&mut text, ']');
        push_char(&mut text, ' ');
        text.append(self.name.as_str());
        assert(text@ =~= account_label(self.currency, self.name@));
        text
    }
}

} // verus!
