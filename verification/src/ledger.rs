//! The ledger: accounts, an append-only run of postings, a notepad and the
//! stored exchange rates, with the queries that reports are made of.

use vstd::prelude::*;
use vstd::string::StringExecFns;
use crate::account::{Account, AccountView};
use crate::amount::{Amount, Rate, MAX_RATE};
use crate::currency::{all_currencies, Currency};
use crate::date::{chrono_ymd_of_text, Date};
use crate::error::LedgerError;
use crate::expense::{posting_of_input, Expense, Transaction, TransactionView};
use crate::listing::{in_listing_order, in_stored_order, joined, sorted_listing};
use crate::rates::{effective_rate, RateLookup, RateTable};
use crate::report::{
    account_table, all_wf, balance_table, currency_entries, fallback_currencies, label_entries,
    reference_units, weighted_sum, ReferenceTotal,
};
use crate::text::{push_chars, signed_chars};
use crate::transfer::{transfer_description, transfer_of_input, transfer_postings};

verus! {

/// Whether account `a` is listed before account `b`: by ascending display
/// order, and by ascending id where that is the same.
pub open spec fn account_before(a: AccountView, b: AccountView) -> bool {
    a.display_order < b.display_order || (a.display_order == b.display_order && a.id < b.id)
}

/// The account with the given id, if there is one.
pub open spec fn find_account(accounts: Seq<AccountView>, id: int) -> Option<AccountView>
    decreases accounts.len(),
{
    if accounts.len() == 0 {
        None
    } else if accounts[0].id == id {
        Some(accounts[0])
    } else {
        find_account(accounts.skip(1), id)
    }
}

/// `find_account` gives the first account with the id: the one at `k`, where
/// no earlier one has the id and `k` has it or is the end.
pub proof fn lemma_find_account_at(accounts: Seq<AccountView>, id: int, k: int)
    requires
        0 <= k <= accounts.len(),
        forall|j: int| 0 <= j < k ==> accounts[j].id != id,
        k < accounts.len() ==> accounts[k].id == id,
    ensures
        find_account(accounts, id) == if k < accounts.len() {
            Some(accounts[k])
        } else {
            None
        },
    decreases k,
{
    if k > 0 {
        let rest = accounts.skip(1);
        assert forall|j: int| 0 <= j < k - 1 implies rest[j].id != id by {
            assert(rest[j] == accounts[j + 1]);
        }
        lemma_find_account_at(rest, id, k - 1);
    }
}

/// What `find_account` gives is an account of the list with that id, and it
/// gives nothing only where no account has the id.
pub proof fn lemma_find_account(accounts: Seq<AccountView>, id: int)
    ensures
        match find_account(accounts, id) {
            Some(a) => a.id == id && accounts.contains(a),
            None => forall|j: int| 0 <= j < accounts.len() ==> accounts[j].id != id,
        },
    decreases accounts.len(),
{
    if accounts.len() > 0 && accounts[0].id != id {
        let rest = accounts.skip(1);
        lemma_find_account(rest, id);
        match find_account(rest, id) {
            Some(a) => {
                let j = choose|j: int| 0 <= j < rest.len() && rest[j] == a;
                assert(accounts[j + 1] == a);
            },
            None => {
                assert forall|j: int| 0 <= j < accounts.len() implies accounts[j].id != id by {
                    if j > 0 {
                        assert(rest[j - 1] == accounts[j]);
                    }
                }
            },
        }
    } else if accounts.len() > 0 {
        assert(accounts[0] == accounts[0]);
    }
}

/// The state of a ledger as plain values.
pub struct LedgerView {
    /// The accounts, in the order in which they are listed.
    pub accounts: Seq<AccountView>,
    /// The postings, in the order in which they were stored.
    pub transactions: Seq<TransactionView>,
    /// The notepad text, if one was ever stored.
    pub notepad: Option<Seq<char>>,
    /// The stored exchange rates, in ten-thousandths, by currency.
    pub rates: Map<Currency, int>,
}

impl LedgerView {
    /// The invariant of a ledger: accounts stand in listing order, no two of
    /// them share an id, and every amount, date and rate is within its range.
    pub open spec fn wf(self) -> bool {
        &&& (forall|i: int, j: int|
            #![trigger self.accounts[i], self.accounts[j]]
            0 <= i < j < self.accounts.len() ==> account_before(self.accounts[i], self.accounts[j])
                && self.accounts[i].id != self.accounts[j].id)
        &&& (forall|k: int|
            0 <= k < self.transactions.len() ==> (#[trigger] self.transactions[k]).wf())
        &&& (forall|c: Currency|
            (#[trigger] self.rates.dom().contains(c)) ==> 0 <= self.rates[c] <= MAX_RATE)
    }
}

/// A ledger held in memory.
pub struct Ledger {
    accounts: Vec<Account>,
    transactions: Vec<Transaction>,
    notepad: Option<String>,
    rates: RateTable,
}

impl View for Ledger {
    type V = LedgerView;

    closed spec fn view(&self) -> LedgerView {
        LedgerView {
            accounts: self.accounts.deep_view(),
            transactions: self.transactions.deep_view(),
            notepad: match self.notepad {
                Some(text) => Some(text@),
                None => None,
            },
            rates: self.rates@,
        }
    }
}

impl LedgerView {
    /// A state that differs from a valid one only in its notepad is valid.
    proof fn lemma_wf_by_parts(self, other: LedgerView)
        requires
            other.wf(),
            self.accounts == other.accounts,
            self.transactions == other.transactions,
            self.rates == other.rates,
        ensures
            self.wf(),
    {
    }
}

/// Whether account `a` is listed before account `b`.
fn listed_first(a: &Account, b: &Account) -> (first: bool)
    ensures
        first == account_before(a@, b@),
{
    a.display_order < b.display_order || (a.display_order == b.display_order && a.id < b.id)
}

impl Ledger {
    /// Whether the ledger's invariant holds.
    pub open spec fn wf(&self) -> bool {
        self@.wf()
    }

    /// A ledger without accounts, postings, notepad or stored rates.
    pub fn new() -> (ledger: Ledger)
        ensures
            ledger.wf(),
            ledger@.accounts.len() == 0,
            ledger@.transactions.len() == 0,
            ledger@.notepad is None,
            ledger@.rates == Map::<Currency, int>::empty(),
    {
        Ledger {
            accounts: Vec::new(),
            transactions: Vec::new(),
            notepad: None,
            rates: RateTable::new(),
        }
    }

    /// Where in the list the account with the given id stands.
    fn position_of(&self, id: i64) -> (place: Option<usize>)
        ensures
            match place {
                Some(at) => at < self.accounts.len() && self.accounts[at as int].id == id
                    && find_account(self@.accounts, id as int) == Some(self.accounts[at as int]@),
                None => find_account(self@.accounts, id as int) is None,
            },
    {
        let mut at: usize = 0;
        while at < self.accounts.len() && self.accounts[at].id != id
            invariant
                at <= self.accounts.len(),
                forall|j: int| 0 <= j < at ==> self.accounts[j].id != id,
            decreases self.accounts.len() - at,
        {
            at = at + 1;
        }
        proof {
            let accounts = self@.accounts;
            assert forall|j: int| 0 <= j < at implies accounts[j].id != id as int by {
                assert(accounts[j] == self.accounts[j]@);
            }
            if at < self.accounts.len() {
                assert(accounts[at as int] == self.accounts[at as int]@);
            }
            lemma_find_account_at(accounts, id as int, at as int);
        }
        if at < self.accounts.len() {
            Some(at)
        } else {
            None
        }
    }

    /// The account with the given id, if there is one.
    pub fn account(&self, id: i64) -> (found: Option<Account>)
        ensures
            match found {
                Some(account) => find_account(self@.accounts, id as int) == Some(account@),
                None => find_account(self@.accounts, id as int) is None,
            },
    {
        match self.position_of(id) {
            Some(at) => Some(self.accounts[at].clone()),
            None => None,
        }
    }

    /// Takes an account into the ledger, at its place in the listing order,
    /// and says at which place. An id that is already taken is refused and
    /// the ledger stays as it was.
    pub fn add_account(&mut self, account: Account) -> (placed: Result<usize, LedgerError>)
        requires
            old(self).wf(),
        ensures
            final(self).wf(),
            final(self)@.transactions == old(self)@.transactions,
            final(self)@.notepad == old(self)@.notepad,
            final(self)@.rates == old(self)@.rates,
            match placed {
                Ok(at) => find_account(old(self)@.accounts, account@.id) is None && at <= old(
                    self,
                )@.accounts.len() && final(self)@.accounts == old(self)@.accounts.insert(
                    at as int,
                    account@,
                ),
                Err(e) => e == LedgerError::Storage && find_account(
                    old(self)@.accounts,
                    account@.id,
                ) is Some && final(self)@.accounts == old(self)@.accounts,
            },
    {
        if self.position_of(account.id).is_some() {
            return Err(LedgerError::Storage);
        }
        let ghost before = self@.accounts;
        proof {
            lemma_find_account(before, account@.id);
        }
        let mut at: usize = 0;
        while at < self.accounts.len() && !listed_first(&account, &self.accounts[at])
            invariant
                at <= self.accounts.len(),
                self@.accounts == before,
                forall|j: int| 0 <= j < before.len() ==> before[j].id != account@.id,
                forall|j: int| 0 <= j < at ==> account_before(#[trigger] before[j], account@),
            decreases self.accounts.len() - at,
        {
            assert(before[at as int] == self.accounts[at as int]@);
            at = at + 1;
        }
        proof {
            if at < self.accounts.len() {
                assert(before[at as int] == self.accounts[at as int]@);
            }
        }
        let ghost entry = account@;
        self.accounts.insert(at, account);
        proof {
            let after = self@.accounts;
            assert(after =~= before.insert(at as int, entry));
            assert(self@.transactions == old(self)@.transactions);
            assert(self@.rates == old(self)@.rates);
            assert forall|i: int, j: int|
                #![trigger after[i], after[j]]
                0 <= i < j < after.len() implies account_before(after[i], after[j]) && after[i].id
                != after[j].id by {
                let bi = if i < at { i } else { i - 1 };
                let bj = if j < at { j } else { j - 1 };
                if i != at && j != at {
                    assert(account_before(before[bi], before[bj]) && before[bi].id
                        != before[bj].id);
                } else if i == at {
                    assert(after[j] == before[j - 1]);
                    if j - 1 > at {
                        assert(account_before(before[at as int], before[j - 1]));
                    }
                } else {
                    assert(after[i] == before[i]);
                }
            }
        }
        Ok(at)
    }

    /// The accounts, by ascending display order.
    pub fn list_accounts(&self) -> (accounts: Vec<Account>)
        ensures
            accounts.deep_view() == self@.accounts,
    {
        let mut accounts: Vec<Account> = Vec::new();
        let mut at: usize = 0;
        while at < self.accounts.len()
            invariant
                at <= self.accounts.len(),
                accounts.len() == at,
                forall|j: int| 0 <= j < at ==> accounts[j] == self.accounts[j],
            decreases self.accounts.len() - at,
        {
            accounts.push(self.accounts[at].clone());
            at = at + 1;
        }
        assert(accounts.deep_view() =~= self@.accounts);
        accounts
    }

    /// Stores one posting. Nothing is checked: a posting against an id that
    /// no account has is stored all the same, and is missing from every
    /// listing and balance for as long as no such account exists.
    pub fn add(&mut self, name: String, value: Amount, date: Date, account_id: i64)
        requires
            old(self).wf(),
            value.wf(),
            date.wf(),
        ensures
            final(self).wf(),
            final(self)@.accounts == old(self)@.accounts,
            final(self)@.notepad == old(self)@.notepad,
            final(self)@.rates == old(self)@.rates,
            final(self)@.transactions == old(self)@.transactions.push(
                TransactionView {
                    name: name@,
                    value: value@,
                    date: date@,
                    account_id: account_id as int,
                },
            ),
    {
        let posting = Transaction { name, value, date, account_id };
        let ghost before = self@.transactions;
        self.transactions.push(posting);
        proof {
            let after = self@.transactions;
            assert(after =~= before.push(posting@));
            assert(self@.accounts == old(self)@.accounts);
            assert(self@.rates == old(self)@.rates);
            assert forall|k: int| 0 <= k < after.len() implies (#[trigger] after[k]).wf() by {
                if k < before.len() {
                    assert(after[k] == before[k]);
                }
            }
        }
    }

    /// Stores a posting that a user entered, with amount and day given as
    /// text. A malformed amount or day is reported and nothing is stored.
    pub fn add_expense(&mut self, name: String, value: &str, date: &str, account_id: i64) -> (done:
        Result<(), LedgerError>)
        requires
            old(self).wf(),
        ensures
            final(self).wf(),
            final(self)@.accounts == old(self)@.accounts,
            final(self)@.notepad == old(self)@.notepad,
            final(self)@.rates == old(self)@.rates,
            match posting_of_input(name@, value@, chrono_ymd_of_text(date@), account_id as int) {
                Ok(posting) => done is Ok && final(self)@.transactions == old(
                    self,
                )@.transactions.push(posting),
                Err(e) => done == Err::<(), LedgerError>(e) && final(self)@.transactions == old(
                    self,
                )@.transactions,
            },
    {
        match Transaction::from_input(name, value, date, account_id) {
            Ok(posting) => {
                self.add(posting.name, posting.value, posting.date, posting.account_id);
                Ok(())
            },
            Err(e) => Err(e),
        }
    }

    /// Stores the notepad text, in place of an earlier one.
    pub fn set_notepad(&mut self, text: String)
        requires
            old(self).wf(),
        ensures
            final(self).wf(),
            final(self)@.accounts == old(self)@.accounts,
            final(self)@.transactions == old(self)@.transactions,
            final(self)@.rates == old(self)@.rates,
            final(self)@.notepad == Some(text@),
    {
        self.notepad = Some(text);
        proof {
            self@.lemma_wf_by_parts(old(self)@);
        }
    }

    /// The notepad text; the empty text where none was ever stored.
    pub fn get_notepad(&self) -> (text: String)
        ensures
            text@ == match self@.notepad {
                Some(stored) => stored,
                None => Seq::<char>::empty(),
            },
    {
        match &self.notepad {
            Some(text) => text.clone(),
            None => String::new(),
        }
    }

    /// Stores the exchange rate of a currency, in place of an earlier one.
    pub fn set_exchange_rate(&mut self, currency: Currency, rate: Rate)
        requires
            old(self).wf(),
            rate.wf(),
        ensures
            final(self).wf(),
            final(self)@.accounts == old(self)@.accounts,
            final(self)@.transactions == old(self)@.transactions,
            final(self)@.notepad == old(self)@.notepad,
            final(self)@.rates == old(self)@.rates.insert(currency, rate@),
    {
        assert(self@.rates == self.rates@);
        self.rates.set(currency, rate);
        assert(self@.accounts == old(self)@.accounts);
        assert(self@.transactions == old(self)@.transactions);
    }

    /// The rate of a currency to the reference currency: the stored one, or
    /// the approximate one where none is stored, and whether it is the
    /// latter. A missing rate is never an error.
    pub fn exchange_rate_to_reference(&self, currency: Currency) -> (found: RateLookup)
        requires
            self.wf(),
        ensures
            found.rate@ == effective_rate(self@.rates, currency),
            found.fallback == !self@.rates.dom().contains(currency),
            found.rate.wf(),
    {
        assert(self@.rates == self.rates@);
        self.rates.lookup(currency)
    }

    /// The postings that can be listed, in the order in which they were
    /// stored: those whose account exists, each with the currency of its
    /// account.
    pub fn rows(&self) -> (rows: Vec<Expense>)
        requires
            self.wf(),
        ensures
            rows.deep_view() == joined(self@.accounts, self@.transactions),
            all_wf(rows.deep_view()),
            in_stored_order(rows.deep_view()),
    {
        let ghost accounts = self@.accounts;
        let ghost postings = self@.transactions;
        let mut rows: Vec<Expense> = Vec::new();
        let mut k: usize = 0;
        assert(rows.deep_view() =~= joined(accounts, postings.take(0)));
        while k < self.transactions.len()
            invariant
                k <= self.transactions.len(),
                self.wf(),
                accounts == self@.accounts,
                postings == self@.transactions,
                rows.deep_view() == joined(accounts, postings.take(k as int)),
                all_wf(rows.deep_view()),
                in_stored_order(rows.deep_view()),
                forall|i: int| 0 <= i < rows.len() ==> (#[trigger] rows.deep_view()[i]).seq < k,
            decreases self.transactions.len() - k,
        {
            let posting = &self.transactions[k];
            let ghost before = rows.deep_view();
            proof {
                assert(postings.take(k + 1).drop_last() =~= postings.take(k as int));
                assert(postings.take(k + 1).last() == posting@);
                assert(postings[k as int].wf());
            }
            match self.position_of(posting.account_id) {
                Some(at) => {
                    let row = Expense {
                        seq: k,
                        name: posting.name.clone(),
                        value: posting.value,
                        date: posting.date,
                        account_id: posting.account_id,
                        currency: self.accounts[at].currency,
                    };
                    rows.push(row);
                    proof {
                        let after = rows.deep_view();
                        assert(after =~= before.push(row@));
                        assert forall|i: int| 0 <= i < after.len() implies (#[trigger] after[i]).wf()
                            && after[i].seq < k + 1 by {
                            if i < before.len() {
                                assert(after[i] == before[i]);
                            }
                        }
                        assert forall|i: int, j: int|
                            #![trigger after[i], after[j]]
                            0 <= i < j < after.len() implies after[i].seq < after[j].seq by {
                            assert(after[i] == before[i]);
                            if j < before.len() {
                                assert(after[j] == before[j]);
                            }
                        }
                    }
                },
                None => {},
            }
            k = k + 1;
        }
        assert(postings.take(k as int) =~= postings);
        rows
    }

    /// All postings whose account exists, most recent first: by descending
    /// day, and within a day the one stored later first.
    pub fn list(&self) -> (listed: Vec<Expense>)
        requires
            self.wf(),
        ensures
            sorted_listing(listed.deep_view()),
            listed.deep_view().to_multiset() == joined(
                self@.accounts,
                self@.transactions,
            ).to_multiset(),
            all_wf(listed.deep_view()),
    {
        in_listing_order(self.rows())
    }

    /// The balance of each currency in which there is a posting: the negated
    /// sum of the values of all postings in that currency, rounded down to
    /// whole units, so that a positive balance is a net income.
    pub fn balance(&self) -> (table: Vec<(Currency, i128)>)
        requires
            self.wf(),
        ensures
            currency_entries(table@) == balance_table(
                joined(self@.accounts, self@.transactions),
                all_currencies(),
            ),
    {
        let rows = self.rows();
        crate::report::balance(&rows)
    }

    /// The balance of each account that has a posting, under the account's
    /// label: the negated sum of the values of its postings, rounded down to
    /// whole units. Accounts come by ascending display order.
    pub fn balance_per_account(&self) -> (table: Vec<(String, i128)>)
        requires
            self.wf(),
        ensures
            label_entries(table@) == account_table(
                joined(self@.accounts, self@.transactions),
                self@.accounts,
            ),
    {
        let rows = self.rows();
        crate::report::balance_per_account(&rows, &self.accounts)
    }

    /// One approximate total over all currencies, in whole units of the
    /// reference currency: each listed value times the rate of its currency,
    /// summed, negated and rounded down. A currency without a stored rate
    /// counts at its approximate rate and is named among the fallbacks.
    pub fn reference_total(&self) -> (report: ReferenceTotal)
        requires
            self.wf(),
        ensures
            report.total == reference_units(
                weighted_sum(joined(self@.accounts, self@.transactions), self@.rates),
            ),
            report.fallbacks@ == fallback_currencies(
                joined(self@.accounts, self@.transactions),
                self@.rates,
                all_currencies(),
            ),
    {
        let rows = self.rows();
        assert(self@.rates == self.rates@);
        crate::report::reference_total(&rows, &self.rates)
    }

    /// The two postings of a transfer between two accounts, without storing
    /// them; the unknown account where there is one.
    pub fn plan_transfer(
        &self,
        from: i64,
        to: i64,
        amount_from: Amount,
        amount_to: Amount,
        date: Date,
    ) -> (plan: Result<(Transaction, Transaction), LedgerError>)
        requires
            self.wf(),
            amount_from.wf(),
            amount_to.wf(),
            date.wf(),
        ensures
            match transfer_postings(self@.accounts, from, to, amount_from@, amount_to@, date@) {
                Ok(postings) => plan matches Ok(pair) && pair.0@ == postings.0 && pair.1@
                    == postings.1 && pair.0@.wf() && pair.1@.wf(),
                Err(e) => plan matches Err(f) && e == f,
            },
    {
        let source = match self.position_of(from) {
            Some(at) => &self.accounts[at],
            None => {
                return Err(LedgerError::NotFound(from));
            },
        };
        let destination = match self.position_of(to) {
            Some(at) => &self.accounts[at],
            None => {
                return Err(LedgerError::NotFound(to));
            },
        };
        let mut name = String::from_str("Przelew własny: ");
        name.append(source.label().as_str());
        name.append(" (#");
        push_chars(&mut name, &signed_chars(source.id));
        name.append(") -> ");
        name.append(destination.label().as_str());
        name.append(" (#");
        push_chars(&mut name, &signed_chars(destination.id));
        name.append(")");
        assert(name@ =~= transfer_description(source@, destination@));
        let debit = Transaction { name: name.clone(), value: amount_from, date, account_id: from };
        let credit = Transaction { name, value: amount_to.negated(), date, account_id: to };
        Ok((debit, credit))
    }

    /// Moves money between two accounts of one owner by storing two
    /// postings, or stores nothing: where an account is unknown, that is
    /// reported and the ledger stays as it was.
    pub fn transfer(
        &mut self,
        from: i64,
        to: i64,
        amount_from: Amount,
        amount_to: Amount,
        date: Date,
    ) -> (done: Result<(), LedgerError>)
        requires
            old(self).wf(),
            amount_from.wf(),
            amount_to.wf(),
            date.wf(),
        ensures
            final(self).wf(),
            final(self)@.accounts == old(self)@.accounts,
            final(self)@.notepad == old(self)@.notepad,
            final(self)@.rates == old(self)@.rates,
            match transfer_postings(
                old(self)@.accounts,
                from,
                to,
                amount_from@,
                amount_to@,
                date@,
            ) {
                Ok(postings) => done is Ok && final(self)@.transactions == old(
                    self,
                )@.transactions.push(postings.0).push(postings.1),
                Err(e) => done == Err::<(), LedgerError>(e) && final(self)@.transactions == old(
                    self,
                )@.transactions,
            },
    {
        match self.plan_transfer(from, to, amount_from, amount_to, date) {
            Ok((debit, credit)) => {
                self.add(debit.name, debit.value, debit.date, debit.account_id);
                self.add(credit.name, credit.value, credit.date, credit.account_id);
                Ok(())
            },
            Err(e) => Err(e),
        }
    }

    /// The two postings of a transfer as a user entered it, with amounts and
    /// day given as text, without storing them. A malformed amount or day,
    /// or an unknown account, is reported.
    pub fn plan_own_transfer(
        &self,
        from: i64,
        to: i64,
        amount_from: &str,
        amount_to: &str,
        date: &str,
    ) -> (plan: Result<(Transaction, Transaction), LedgerError>)
        requires
            self.wf(),
        ensures
            match transfer_of_input(
                self@.accounts,
                from,
                to,
                amount_from@,
                amount_to@,
                chrono_ymd_of_text(date@),
            ) {
                Ok(postings) => plan matches Ok(pair) && pair.0@ == postings.0 && pair.1@
                    == postings.1 && pair.0@.wf() && pair.1@.wf(),
                Err(e) => plan matches Err(f) && e == f,
            },
    {
        let leaves = match Amount::parse(amount_from) {
            Ok(amount) => amount,
            Err(e) => {
                return Err(LedgerError::Parse(e));
            },
        };
        let arrives = match Amount::parse(amount_to) {
            Ok(amount) => amount,
            Err(e) => {
                return Err(LedgerError::Parse(e));
            },
        };
        let day = match Date::parse(date) {
            Ok(day) => day,
            Err(e) => {
                return Err(LedgerError::Parse(e));
            },
        };
        self.plan_transfer(from, to, leaves, arrives, day)
    }

    /// Moves money between two accounts as a user entered it, with amounts
    /// and day given as text. A malformed amount or day, or an unknown
    /// account, is reported and nothing is stored.
    pub fn add_own_transfer(
        &mut self,
        from: i64,
        to: i64,
        amount_from: &str,
        amount_to: &str,
        date: &str,
    ) -> (done: Result<(), LedgerError>)
        requires
            old(self).wf(),
        ensures
            final(self).wf(),
            final(self)@.accounts == old(self)@.accounts,
            final(self)@.notepad == old(self)@.notepad,
            final(self)@.rates == old(self)@.rates,
            match transfer_of_input(
                old(self)@.accounts,
                from,
                to,
                amount_from@,
                amount_to@,
                chrono_ymd_of_text(date@),
            ) {
                Ok(postings) => done is Ok && final(self)@.transactions == old(
                    self,
                )@.transactions.push(postings.0).push(postings.1),
                Err(e) => done == Err::<(), LedgerError>(e) && final(self)@.transactions == old(
                    self,
                )@.transactions,
            },
    {
        match self.plan_own_transfer(from, to, amount_from, amount_to, date) {
            Ok((debit, credit)) => {
                self.add(debit.name, debit.value, debit.date, debit.account_id);
                self.add(credit.name, credit.value, credit.date, credit.account_id);
                Ok(())
            },
            Err(e) => Err(e),
        }
    }
}

} // verus!
