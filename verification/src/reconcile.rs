//! How the balances by account add up to the balances by currency.
//!
//! In hundredths the two agree exactly. In whole units each balance is
//! rounded down on its own, so the balances of the accounts of a currency
//! may fall short of the balance of the currency: by the whole units that the
//! cut-off hundredths of the accounts make together.

use vstd::prelude::*;
use vstd::arithmetic::div_mod::{lemma_fundamental_div_mod, lemma_fundamental_div_mod_converse};
use crate::account::AccountView;
use crate::currency::Currency;
use crate::expense::{ExpenseView, TransactionView};
use crate::ledger::{find_account, lemma_find_account, LedgerView};
use crate::listing::joined;
use crate::report::{
    balance_units, count_in_account, sum_in_account, sum_in_currency,
};

verus! {

/// The sum, in hundredths, of the values of all postings of the accounts
/// that are in `currency`.
pub open spec fn accounts_net(
    rows: Seq<ExpenseView>,
    accounts: Seq<AccountView>,
    currency: Currency,
) -> int
    decreases accounts.len(),
{
    if accounts.len() == 0 {
        0
    } else {
        accounts_net(rows, accounts.drop_last(), currency) + if accounts.last().currency
            == currency {
            sum_in_account(rows, accounts.last().id)
        } else {
            0
        }
    }
}

/// The sum of the balances, in whole units, of the accounts that are in
/// `currency` and have a posting.
pub open spec fn accounts_balance(
    rows: Seq<ExpenseView>,
    accounts: Seq<AccountView>,
    currency: Currency,
) -> int
    decreases accounts.len(),
{
    if accounts.len() == 0 {
        0
    } else {
        accounts_balance(rows, accounts.drop_last(), currency) + if accounts.last().currency
            == currency && count_in_account(rows, accounts.last().id) > 0 {
            balance_units(sum_in_account(rows, accounts.last().id))
        } else {
            0
        }
    }
}

/// The hundredths that rounding down cut off the balances of the accounts
/// that are in `currency` and have a posting, summed.
pub open spec fn accounts_remainder(
    rows: Seq<ExpenseView>,
    accounts: Seq<AccountView>,
    currency: Currency,
) -> int
    decreases accounts.len(),
{
    if accounts.len() == 0 {
        0
    } else {
        accounts_remainder(rows, accounts.drop_last(), currency) + if accounts.last().currency
            == currency && count_in_account(rows, accounts.last().id) > 0 {
            (-sum_in_account(rows, accounts.last().id)) % 100
        } else {
            0
        }
    }
}

/// Whether every posting belongs to one of the accounts and is in that
/// account's currency.
pub open spec fn owned(rows: Seq<ExpenseView>, accounts: Seq<AccountView>) -> bool {
    forall|k: int|
        0 <= k < rows.len() ==> exists|i: int|
            0 <= i < accounts.len() && (#[trigger] accounts[i]).id == (#[trigger] rows[k]).account_id
                && accounts[i].currency == rows[k].currency
}

/// Whether no two accounts share an id.
pub open spec fn unique_ids(accounts: Seq<AccountView>) -> bool {
    forall|i: int, j: int|
        #![trigger accounts[i], accounts[j]]
        0 <= i < j < accounts.len() ==> accounts[i].id != accounts[j].id
}

/// Every listed posting belongs to an account of the ledger and has that
/// account's currency.
pub proof fn lemma_joined_owned(accounts: Seq<AccountView>, transactions: Seq<TransactionView>)
    ensures
        owned(joined(accounts, transactions), accounts),
    decreases transactions.len(),
{
    if transactions.len() > 0 {
        let earlier = joined(accounts, transactions.drop_last());
        lemma_joined_owned(accounts, transactions.drop_last());
        let posting = transactions.last();
        lemma_find_account(accounts, posting.account_id);
        let rows = joined(accounts, transactions);
        match find_account(accounts, posting.account_id) {
            Some(account) => {
                let i = choose|i: int| 0 <= i < accounts.len() && accounts[i] == account;
                assert forall|k: int| 0 <= k < rows.len() implies exists|i: int|
                    0 <= i < accounts.len() && (#[trigger] accounts[i]).id == (
                    #[trigger] rows[k]).account_id && accounts[i].currency
                        == rows[k].currency by {
                    if k < earlier.len() {
                        assert(rows[k] == earlier[k]);
                    } else {
                        assert(accounts[i].id == rows[k].account_id);
                    }
                }
            },
            None => {},
        }
    }
}

/// An account without a posting has a sum of zero.
proof fn lemma_no_posting_no_sum(rows: Seq<ExpenseView>, account_id: int)
    requires
        count_in_account(rows, account_id) == 0,
    ensures
        sum_in_account(rows, account_id) == 0,
    decreases rows.len(),
{
    if rows.len() > 0 {
        lemma_no_posting_no_sum(rows.drop_last(), account_id);
    }
}

/// Without postings the accounts sum to zero.
proof fn lemma_net_of_none(accounts: Seq<AccountView>, currency: Currency)
    ensures
        accounts_net(Seq::<ExpenseView>::empty(), accounts, currency) == 0,
    decreases accounts.len(),
{
    if accounts.len() > 0 {
        lemma_net_of_none(accounts.drop_last(), currency);
    }
}

/// A posting of none of the accounts leaves their sum as it was.
proof fn lemma_net_push_stranger(
    rows: Seq<ExpenseView>,
    row: ExpenseView,
    accounts: Seq<AccountView>,
    currency: Currency,
)
    requires
        forall|i: int| 0 <= i < accounts.len() ==> (#[trigger] accounts[i]).id != row.account_id,
    ensures
        accounts_net(rows.push(row), accounts, currency) == accounts_net(rows, accounts, currency),
    decreases accounts.len(),
{
    if accounts.len() > 0 {
        let earlier = accounts.drop_last();
        assert forall|i: int| 0 <= i < earlier.len() implies (#[trigger] earlier[i]).id
            != row.account_id by {
            assert(earlier[i] == accounts[i]);
        }
        lemma_net_push_stranger(rows, row, earlier, currency);
        assert(accounts[accounts.len() - 1].id != row.account_id);
        assert(rows.push(row).drop_last() =~= rows);
    }
}

/// A posting of the account at `owner` adds its value to the sum of the
/// accounts in the currency of that account, and to no other.
proof fn lemma_net_push_owned(
    rows: Seq<ExpenseView>,
    row: ExpenseView,
    accounts: Seq<AccountView>,
    currency: Currency,
    owner: int,
)
    requires
        unique_ids(accounts),
        0 <= owner < accounts.len(),
        accounts[owner].id == row.account_id,
    ensures
        accounts_net(rows.push(row), accounts, currency) == accounts_net(rows, accounts, currency)
            + if accounts[owner].currency == currency {
            row.value
        } else {
            0
        },
    decreases accounts.len(),
{
    let earlier = accounts.drop_last();
    let last = accounts.len() - 1;
    assert(rows.push(row).drop_last() =~= rows);
    if owner == last {
        assert forall|i: int| 0 <= i < earlier.len() implies (#[trigger] earlier[i]).id
            != row.account_id by {
            assert(earlier[i] == accounts[i]);
            assert(accounts[i].id != accounts[last].id);
        }
        lemma_net_push_stranger(rows, row, earlier, currency);
    } else {
        assert(accounts[owner].id != accounts[last].id);
        assert forall|i: int, j: int|
            #![trigger earlier[i], earlier[j]]
            0 <= i < j < earlier.len() implies earlier[i].id != earlier[j].id by {
            assert(accounts[i].id != accounts[j].id);
        }
        assert(earlier[owner] == accounts[owner]);
        lemma_net_push_owned(rows, row, earlier, currency, owner);
    }
}

/// In hundredths, the accounts of a currency sum to what the postings in
/// that currency sum to.
pub proof fn lemma_net_reconciles(
    rows: Seq<ExpenseView>,
    accounts: Seq<AccountView>,
    currency: Currency,
)
    requires
        unique_ids(accounts),
        owned(rows, accounts),
    ensures
        accounts_net(rows, accounts, currency) == sum_in_currency(rows, currency),
    decreases rows.len(),
{
    if rows.len() == 0 {
        assert(rows =~= Seq::<ExpenseView>::empty());
        lemma_net_of_none(accounts, currency);
    } else {
        let earlier = rows.drop_last();
        let row = rows.last();
        assert forall|k: int| 0 <= k < earlier.len() implies exists|i: int|
            0 <= i < accounts.len() && (#[trigger] accounts[i]).id == (
            #[trigger] earlier[k]).account_id && accounts[i].currency == earlier[k].currency by {
            assert(earlier[k] == rows[k]);
        }
        lemma_net_reconciles(earlier, accounts, currency);
        assert(rows[rows.len() - 1] == row);
        let owner = choose|i: int|
            0 <= i < accounts.len() && (#[trigger] accounts[i]).id == row.account_id
                && accounts[i].currency == row.currency;
        lemma_net_push_owned(earlier, row, accounts, currency, owner);
        assert(earlier.push(row) =~= rows);
    }
}

/// The negated sum of the accounts of a currency, in hundredths, is a
/// hundred times their balances plus what rounding cut off.
proof fn lemma_balance_parts(
    rows: Seq<ExpenseView>,
    accounts: Seq<AccountView>,
    currency: Currency,
)
    ensures
        -accounts_net(rows, accounts, currency) == 100 * accounts_balance(rows, accounts, currency)
            + accounts_remainder(rows, accounts, currency),
        0 <= accounts_remainder(rows, accounts, currency),
    decreases accounts.len(),
{
    if accounts.len() > 0 {
        lemma_balance_parts(rows, accounts.drop_last(), currency);
        let id = accounts.last().id;
        if count_in_account(rows, id) > 0 {
            lemma_fundamental_div_mod(-sum_in_account(rows, id), 100);
        } else {
            lemma_no_posting_no_sum(rows, id);
        }
    }
}

/// The balance of a currency is the sum of the balances of its accounts and
/// of the whole units that the hundredths cut off those balances make
/// together. For every ledger, currency by currency.
pub proof fn law_balances_reconcile(ledger: LedgerView, currency: Currency)
    requires
        ledger.wf(),
    ensures
        ({
            let rows = joined(ledger.accounts, ledger.transactions);
            &&& accounts_net(rows, ledger.accounts, currency) == sum_in_currency(rows, currency)
            &&& 0 <= accounts_remainder(rows, ledger.accounts, currency)
            &&& balance_units(sum_in_currency(rows, currency)) == accounts_balance(
                rows,
                ledger.accounts,
                currency,
            ) + accounts_remainder(rows, ledger.accounts, currency) / 100
        }),
{
    let rows = joined(ledger.accounts, ledger.transactions);
    lemma_joined_owned(ledger.accounts, ledger.transactions);
    lemma_net_reconciles(rows, ledger.accounts, currency);
    lemma_balance_parts(rows, ledger.accounts, currency);
    let balance = accounts_balance(rows, ledger.accounts, currency);
    let rest = accounts_remainder(rows, ledger.accounts, currency);
    lemma_fundamental_div_mod(rest, 100);
    lemma_fundamental_div_mod_converse(
        -sum_in_currency(rows, currency),
        100,
        balance + rest / 100,
        rest % 100,
    );
}

/// Where the hundredths cut off the balances of the accounts of a currency
/// make less than one unit together, those balances add up to the balance of
/// the currency exactly.
pub proof fn law_balances_add_up(ledger: LedgerView, currency: Currency)
    requires
        ledger.wf(),
        accounts_remainder(joined(ledger.accounts, ledger.transactions), ledger.accounts, currency)
            < 100,
    ensures
        balance_units(sum_in_currency(joined(ledger.accounts, ledger.transactions), currency))
            == accounts_balance(
            joined(ledger.accounts, ledger.transactions),
            ledger.accounts,
            currency,
        ),
{
    law_balances_reconcile(ledger, currency);
}

} // verus!
