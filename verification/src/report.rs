//! The figures of a report, computed from listed postings: net balances by
//! currency and by account, and one approximate total in the reference
//! currency.
//!
//! A balance is the negated sum of the values, so that a positive balance is
//! a net income, rounded down to whole units.

use vstd::prelude::*;
use vstd::arithmetic::div_mod::{lemma_fundamental_div_mod, lemma_fundamental_div_mod_converse};
use crate::account::{account_label, Account, AccountView};
use crate::amount::{MAX_MINOR, MAX_RATE, MINOR_PER_UNIT, RATE_SCALE};
use crate::currency::{all_currencies, Currency};
use crate::expense::{Expense, ExpenseView};
use crate::rates::{effective_rate, RateTable};

verus! {

/// The sum of the values, in hundredths, of the postings in a currency.
pub open spec fn sum_in_currency(rows: Seq<ExpenseView>, currency: Currency) -> int
    decreases rows.len(),
{
    if rows.len() == 0 {
        0
    } else {
        sum_in_currency(rows.drop_last(), currency) + if rows.last().currency == currency {
            rows.last().value
        } else {
            0
        }
    }
}

/// The number of postings in a currency.
pub open spec fn count_in_currency(rows: Seq<ExpenseView>, currency: Currency) -> nat
    decreases rows.len(),
{
    if rows.len() == 0 {
        0
    } else {
        count_in_currency(rows.drop_last(), currency) + if rows.last().currency == currency {
            1nat
        } else {
            0nat
        }
    }
}

/// The sum of the values, in hundredths, of the postings of an account.
pub open spec fn sum_in_account(rows: Seq<ExpenseView>, account_id: int) -> int
    decreases rows.len(),
{
    if rows.len() == 0 {
        0
    } else {
        sum_in_account(rows.drop_last(), account_id) + if rows.last().account_id == account_id {
            rows.last().value
        } else {
            0
        }
    }
}

/// The number of postings of an account.
pub open spec fn count_in_account(rows: Seq<ExpenseView>, account_id: int) -> nat
    decreases rows.len(),
{
    if rows.len() == 0 {
        0
    } else {
        count_in_account(rows.drop_last(), account_id) + if rows.last().account_id == account_id {
            1nat
        } else {
            0nat
        }
    }
}

/// The sum over all postings of value times rate to the reference currency,
/// in millionths of a reference unit. A currency without a stored rate counts
/// at its approximate rate.
pub open spec fn weighted_sum(rows: Seq<ExpenseView>, stored: Map<Currency, int>) -> int
    decreases rows.len(),
{
    if rows.len() == 0 {
        0
    } else {
        weighted_sum(rows.drop_last(), stored) + rows.last().value * effective_rate(
            stored,
            rows.last().currency,
        )
    }
}

/// The balance, in whole units, that a sum of values in hundredths makes:
/// the negated sum, rounded down.
pub open spec fn balance_units(net_minor: int) -> int {
    (-net_minor) / (MINOR_PER_UNIT as int)
}

/// The total, in whole reference units, that a weighted sum in millionths
/// makes: the negated sum, rounded down.
pub open spec fn reference_units(weighted: int) -> int {
    (-weighted) / (MINOR_PER_UNIT * RATE_SCALE)
}

/// The balances by currency: one entry for each of `currencies`, in their
/// order, that has at least one posting.
pub open spec fn balance_table(rows: Seq<ExpenseView>, currencies: Seq<Currency>) -> Seq<
    (Currency, int),
>
    decreases currencies.len(),
{
    if currencies.len() == 0 {
        Seq::empty()
    } else {
        let earlier = balance_table(rows, currencies.drop_last());
        let currency = currencies.last();
        if count_in_currency(rows, currency) > 0 {
            earlier.push((currency, balance_units(sum_in_currency(rows, currency))))
        } else {
            earlier
        }
    }
}

/// The balances by account: one entry, under the account's label, for each
/// of `accounts`, in their order, that has at least one posting.
pub open spec fn account_table(rows: Seq<ExpenseView>, accounts: Seq<AccountView>) -> Seq<
    (Seq<char>, int),
>
    decreases accounts.len(),
{
    if accounts.len() == 0 {
        Seq::empty()
    } else {
        let earlier = account_table(rows, accounts.drop_last());
        let account = accounts.last();
        if count_in_account(rows, account.id) > 0 {
            earlier.push(
                (
                    account_label(account.currency, account.name),
                    balance_units(sum_in_account(rows, account.id)),
                ),
            )
        } else {
            earlier
        }
    }
}

/// The currencies, among `currencies` and in their order, that have a
/// posting but no stored rate.
pub open spec fn fallback_currencies(
    rows: Seq<ExpenseView>,
    stored: Map<Currency, int>,
    currencies: Seq<Currency>,
) -> Seq<Currency>
    decreases currencies.len(),
{
    if currencies.len() == 0 {
        Seq::empty()
    } else {
        let earlier = fallback_currencies(rows, stored, currencies.drop_last());
        let currency = currencies.last();
        if count_in_currency(rows, currency) > 0 && !stored.dom().contains(currency) {
            earlier.push(currency)
        } else {
            earlier
        }
    }
}

/// What the table of balances by currency holds, for any choice of
/// currencies without repetition: an entry for exactly those that have a
/// posting, each once, and in each the negated sum of the values of the
/// postings in that currency, rounded down to whole units.
pub proof fn law_balance_table(rows: Seq<ExpenseView>, currencies: Seq<Currency>)
    requires
        currencies.no_duplicates(),
    ensures
        forall|i: int|
            0 <= i < balance_table(rows, currencies).len() ==> {
                let entry = #[trigger] balance_table(rows, currencies)[i];
                &&& currencies.contains(entry.0)
                &&& count_in_currency(rows, entry.0) > 0
                &&& entry.1 == balance_units(sum_in_currency(rows, entry.0))
            },
        forall|i: int, j: int|
            #![trigger balance_table(rows, currencies)[i], balance_table(rows, currencies)[j]]
            0 <= i < j < balance_table(rows, currencies).len() ==> balance_table(
                rows,
                currencies,
            )[i].0 != balance_table(rows, currencies)[j].0,
        forall|c: Currency|
            #![trigger count_in_currency(rows, c)]
            currencies.contains(c) && count_in_currency(rows, c) > 0 ==> balance_table(
                rows,
                currencies,
            ).contains((c, balance_units(sum_in_currency(rows, c)))),
    decreases currencies.len(),
{
    let table = balance_table(rows, currencies);
    if currencies.len() > 0 {
        let front = currencies.drop_last();
        let last = currencies.last();
        let earlier = balance_table(rows, front);
        assert(front.no_duplicates()) by {
            assert forall|i: int, j: int| 0 <= i < front.len() && 0 <= j < front.len() && i
                != j implies front[i] != front[j] by {
                assert(front[i] == currencies[i] && front[j] == currencies[j]);
            }
        }
        law_balance_table(rows, front);
        assert(!front.contains(last)) by {
            if front.contains(last) {
                let i = choose|i: int| 0 <= i < front.len() && front[i] == last;
                assert(currencies[i] == currencies[currencies.len() - 1]);
            }
        }
        assert forall|i: int| 0 <= i < table.len() implies {
            let entry = #[trigger] table[i];
            &&& currencies.contains(entry.0)
            &&& count_in_currency(rows, entry.0) > 0
            &&& entry.1 == balance_units(sum_in_currency(rows, entry.0))
        } by {
            if i < earlier.len() {
                assert(table[i] == earlier[i]);
                let at = choose|at: int| 0 <= at < front.len() && front[at] == earlier[i].0;
                assert(currencies[at] == earlier[i].0);
            } else {
                assert(currencies[currencies.len() - 1] == last);
            }
        }
        assert forall|i: int, j: int|
            #![trigger table[i], table[j]]
            0 <= i < j < table.len() implies table[i].0 != table[j].0 by {
            assert(table[i] == earlier[i]);
            if j < earlier.len() {
                assert(table[j] == earlier[j]);
            } else {
                assert(front.contains(earlier[i].0));
            }
        }
        assert forall|c: Currency|
            #![trigger count_in_currency(rows, c)]
            currencies.contains(c) && count_in_currency(rows, c) > 0 implies table.contains(
            (c, balance_units(sum_in_currency(rows, c))),
        ) by {
            let entry = (c, balance_units(sum_in_currency(rows, c)));
            if c == last {
                assert(table[table.len() - 1] == entry);
            } else {
                let at = choose|at: int| 0 <= at < currencies.len() && currencies[at] == c;
                assert(front[at] == c);
                assert(earlier.contains(entry));
                let i = choose|i: int| 0 <= i < earlier.len() && earlier[i] == entry;
                assert(table[i] == entry);
            }
        }
    }
}

/// The table of balances over all currencies holds, for a currency with a
/// posting, the negated sum of the values of its postings rounded down to
/// whole units, and for a currency without a posting nothing.
pub proof fn law_balance_by_currency(rows: Seq<ExpenseView>, currency: Currency)
    ensures
        count_in_currency(rows, currency) > 0 ==> balance_table(rows, all_currencies()).contains(
            (currency, balance_units(sum_in_currency(rows, currency))),
        ),
        count_in_currency(rows, currency) == 0 ==> forall|i: int|
            0 <= i < balance_table(rows, all_currencies()).len() ==> (#[trigger] balance_table(
                rows,
                all_currencies(),
            )[i]).0 != currency,
{
    crate::currency::lemma_all_currencies();
    law_balance_table(rows, all_currencies());
}

/// Whether every posting of the list has amount and date within range.
pub open spec fn all_wf(rows: Seq<ExpenseView>) -> bool {
    forall|k: int| 0 <= k < rows.len() ==> (#[trigger] rows[k]).wf()
}

/// Divides rounding down, where Rust's `/` rounds towards zero.
pub fn floor_div(x: i128, d: i128) -> (q: i128)
    requires
        d > 0,
        x > i128::MIN,
    ensures
        q == x as int / d as int,
{
    if x >= 0 {
        x / d
    } else {
        let m: i128 = -x;
        let up: i128 = (m - 1) / d;
        proof {
            lemma_fundamental_div_mod(m - 1, d as int);
            let r = (m - 1) % (d as int);
            assert(x == (-(up + 1)) * d + (d - 1 - r)) by (nonlinear_arith)
                requires
                    m - 1 == d * up + r,
                    x == -m,
            ;
            lemma_fundamental_div_mod_converse(x as int, d as int, -(up + 1), d - 1 - r);
        }
        -(up + 1)
    }
}

/// Sum and number of the postings in a currency.
fn net_in_currency(expenses: &Vec<Expense>, currency: Currency) -> (net: (i128, bool))
    requires
        all_wf(expenses.deep_view()),
    ensures
        net.0 == sum_in_currency(expenses.deep_view(), currency),
        net.1 == (count_in_currency(expenses.deep_view(), currency) > 0),
        -(expenses.len() * MAX_MINOR) <= net.0 <= expenses.len() * MAX_MINOR,
{
    let ghost rows = expenses.deep_view();
    let mut sum: i128 = 0;
    let mut any = false;
    let mut at: usize = 0;
    while at < expenses.len()
        invariant
            at <= expenses.len(),
            rows == expenses.deep_view(),
            all_wf(rows),
            sum == sum_in_currency(rows.take(at as int), currency),
            any == (count_in_currency(rows.take(at as int), currency) > 0),
            -(at * MAX_MINOR) <= sum <= at * MAX_MINOR,
        decreases expenses.len() - at,
    {
        proof {
            assert(rows.take(at + 1).drop_last() =~= rows.take(at as int));
            assert(rows.take(at + 1).last() == rows[at as int]);
            assert(rows[at as int].wf());
            assert(rows[at as int] == expenses[at as int]@);
        }
        if expenses[at].currency == currency {
            sum = sum + expenses[at].value.minor() as i128;
            any = true;
        }
        at = at + 1;
    }
    assert(rows.take(at as int) =~= rows);
    (sum, any)
}

/// Sum and number of the postings of an account.
fn net_in_account(expenses: &Vec<Expense>, account_id: i64) -> (net: (i128, bool))
    requires
        all_wf(expenses.deep_view()),
    ensures
        net.0 == sum_in_account(expenses.deep_view(), account_id as int),
        net.1 == (count_in_account(expenses.deep_view(), account_id as int) > 0),
        -(expenses.len() * MAX_MINOR) <= net.0 <= expenses.len() * MAX_MINOR,
{
    let ghost rows = expenses.deep_view();
    let mut sum: i128 = 0;
    let mut any = false;
    let mut at: usize = 0;
    while at < expenses.len()
        invariant
            at <= expenses.len(),
            rows == expenses.deep_view(),
            all_wf(rows),
            sum == sum_in_account(rows.take(at as int), account_id as int),
            any == (count_in_account(rows.take(at as int), account_id as int) > 0),
            -(at * MAX_MINOR) <= sum <= at * MAX_MINOR,
        decreases expenses.len() - at,
    {
        proof {
            assert(rows.take(at + 1).drop_last() =~= rows.take(at as int));
            assert(rows.take(at + 1).last() == rows[at as int]);
            assert(rows[at as int].wf());
            assert(rows[at as int] == expenses[at as int]@);
        }
        if expenses[at].account_id == account_id {
            sum = sum + expenses[at].value.minor() as i128;
            any = true;
        }
        at = at + 1;
    }
    assert(rows.take(at as int) =~= rows);
    (sum, any)
}

/// The entries of a table with whole numbers as plain values.
pub open spec fn currency_entries(table: Seq<(Currency, i128)>) -> Seq<(Currency, int)> {
    table.map_values(|entry: (Currency, i128)| (entry.0, entry.1 as int))
}

/// The entries of a table by label as plain values.
pub open spec fn label_entries(table: Seq<(String, i128)>) -> Seq<(Seq<char>, int)> {
    table.map_values(|entry: (String, i128)| (entry.0@, entry.1 as int))
}

/// The balance of each currency that has at least one posting: the negated
/// sum of the values of its postings, rounded down to whole units. The
/// currencies come in the order PLN, EUR, USD, GBP.
pub fn balance(expenses: &Vec<Expense>) -> (table: Vec<(Currency, i128)>)
    requires
        all_wf(expenses.deep_view()),
    ensures
        currency_entries(table@) == balance_table(expenses.deep_view(), all_currencies()),
{
    let ghost rows = expenses.deep_view();
    let currencies = Currency::all();
    let mut table: Vec<(Currency, i128)> = Vec::new();
    let mut at: usize = 0;
    while at < 4
        invariant
            at <= 4,
            currencies@ == all_currencies(),
            rows == expenses.deep_view(),
            all_wf(rows),
            currency_entries(table@) == balance_table(rows, all_currencies().take(at as int)),
        decreases 4 - at,
    {
        let currency = currencies[at];
        let (sum, any) = net_in_currency(expenses, currency);
        proof {
            assert(all_currencies().take(at + 1).drop_last() =~= all_currencies().take(at as int));
            assert(all_currencies().take(at + 1).last() == currency);
            assert(expenses.len() * MAX_MINOR <= usize::MAX * MAX_MINOR) by (nonlinear_arith)
                requires
                    expenses.len() <= usize::MAX,
            ;
        }
        if any {
            let ghost before = table@;
            let units = floor_div(-sum, MINOR_PER_UNIT as i128);
            table.push((currency, units));
            assert(currency_entries(table@) =~= currency_entries(before).push(
                (currency, units as int),
            ));
        }
        at = at + 1;
    }
    assert(all_currencies().take(4) =~= all_currencies());
    table
}

/// The balance of each account that has at least one posting, under the
/// account's label: the negated sum of the values of its postings, rounded
/// down to whole units. The accounts come in the order of `accounts`.
pub fn balance_per_account(expenses: &Vec<Expense>, accounts: &Vec<Account>) -> (table: Vec<
    (String, i128),
>)
    requires
        all_wf(expenses.deep_view()),
    ensures
        label_entries(table@) == account_table(expenses.deep_view(), accounts.deep_view()),
{
    let ghost rows = expenses.deep_view();
    let ghost owners = accounts.deep_view();
    let mut table: Vec<(String, i128)> = Vec::new();
    let mut at: usize = 0;
    while at < accounts.len()
        invariant
            at <= accounts.len(),
            rows == expenses.deep_view(),
            owners == accounts.deep_view(),
            all_wf(rows),
            label_entries(table@) == account_table(rows, owners.take(at as int)),
        decreases accounts.len() - at,
    {
        let account = &accounts[at];
        let (sum, any) = net_in_account(expenses, account.id);
        proof {
            assert(owners.take(at + 1).drop_last() =~= owners.take(at as int));
            assert(owners.take(at + 1).last() == account@);
            assert(expenses.len() * MAX_MINOR <= usize::MAX * MAX_MINOR) by (nonlinear_arith)
                requires
                    expenses.len() <= usize::MAX,
            ;
        }
        if any {
            let ghost before = table@;
            let units = floor_div(-sum, MINOR_PER_UNIT as i128);
            let label = account.label();
            table.push((label, units));
            assert(label_entries(table@) =~= label_entries(before).push((label@, units as int)));
        }
        at = at + 1;
    }
    assert(owners.take(at as int) =~= owners);
    table
}

/// The approximate total of a ledger in the reference currency.
#[derive(Debug, PartialEq, Eq)]
pub struct ReferenceTotal {
    /// The total in whole reference units.
    pub total: i128,
    /// The currencies that had no stored rate and were counted at their
    /// approximate rate: to be reported as warnings.
    pub fallbacks: Vec<Currency>,
}

/// One approximate total over all currencies, in whole units of the
/// reference currency: each value times the rate of its currency, summed,
/// negated and rounded down. A currency without a stored rate counts at its
/// approximate rate and is named in `fallbacks`; that is never an error.
pub fn reference_total(expenses: &Vec<Expense>, rates: &RateTable) -> (report: ReferenceTotal)
    requires
        all_wf(expenses.deep_view()),
        rates.wf(),
    ensures
        report.total == reference_units(weighted_sum(expenses.deep_view(), rates@)),
        report.fallbacks@ == fallback_currencies(expenses.deep_view(), rates@, all_currencies()),
{
    let ghost rows = expenses.deep_view();
    let mut sum: i128 = 0;
    let mut at: usize = 0;
    while at < expenses.len()
        invariant
            at <= expenses.len(),
            rows == expenses.deep_view(),
            all_wf(rows),
            rates.wf(),
            sum == weighted_sum(rows.take(at as int), rates@),
            -(at * (MAX_MINOR * MAX_RATE)) <= sum <= at * (MAX_MINOR * MAX_RATE),
        decreases expenses.len() - at,
    {
        proof {
            assert(rows.take(at + 1).drop_last() =~= rows.take(at as int));
            assert(rows.take(at + 1).last() == rows[at as int]);
            assert(rows[at as int].wf());
            assert(rows[at as int] == expenses[at as int]@);
        }
        let value: i128 = expenses[at].value.minor() as i128;
        let rate: i128 = rates.lookup(expenses[at].currency).rate.scaled() as i128;
        proof {
            assert(-(MAX_MINOR * MAX_RATE) <= value * rate <= MAX_MINOR * MAX_RATE)
                by (nonlinear_arith)
                requires
                    -MAX_MINOR <= value <= MAX_MINOR,
                    0 <= rate <= MAX_RATE,
            ;
            assert(at * (MAX_MINOR * MAX_RATE) <= usize::MAX * (MAX_MINOR * MAX_RATE))
                by (nonlinear_arith)
                requires
                    at <= usize::MAX,
            ;
            assert((at + 1) * (MAX_MINOR * MAX_RATE) == at * (MAX_MINOR * MAX_RATE) + MAX_MINOR
                * MAX_RATE) by (nonlinear_arith);
        }
        sum = sum + value * rate;
        at = at + 1;
    }
    assert(rows.take(at as int) =~= rows);
    let currencies = Currency::all();
    let mut fallbacks: Vec<Currency> = Vec::new();
    let mut c: usize = 0;
    while c < 4
        invariant
            c <= 4,
            currencies@ == all_currencies(),
            rows == expenses.deep_view(),
            all_wf(rows),
            fallbacks@ == fallback_currencies(rows, rates@, all_currencies().take(c as int)),
        decreases 4 - c,
    {
        let currency = currencies[c];
        proof {
            assert(all_currencies().take(c + 1).drop_last() =~= all_currencies().take(c as int));
            assert(all_currencies().take(c + 1).last() == currency);
        }
        let (_, any) = net_in_currency(expenses, currency);
        if any && rates.stored(currency).is_none() {
            fallbacks.push(currency);
        }
        c = c + 1;
    }
    assert(all_currencies().take(4) =~= all_currencies());
    proof {
        assert(expenses.len() * (MAX_MINOR * MAX_RATE) <= usize::MAX * (MAX_MINOR * MAX_RATE))
            by (nonlinear_arith)
            requires
                expenses.len() <= usize::MAX,
        ;
    }
    ReferenceTotal { total: floor_div(-sum, MINOR_PER_UNIT as i128 * RATE_SCALE as i128), fallbacks }
}

} // verus!
