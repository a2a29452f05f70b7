//! The listing of a ledger: which postings can be listed, and in which
//! order they come.

use vstd::prelude::*;
use crate::account::AccountView;
use crate::date::{day_after, Ymd};
use crate::expense::{Expense, ExpenseView, TransactionView};
use crate::ledger::find_account;
use crate::report::all_wf;

verus! {

/// The postings that can be listed, in the order in which they were stored:
/// each posting whose account exists, with its place in that order and the
/// currency of its account. A posting against an unknown account is left out.
pub open spec fn joined(accounts: Seq<AccountView>, transactions: Seq<TransactionView>) -> Seq<
    ExpenseView,
>
    decreases transactions.len(),
{
    if transactions.len() == 0 {
        Seq::empty()
    } else {
        let earlier = joined(accounts, transactions.drop_last());
        let posting = transactions.last();
        match find_account(accounts, posting.account_id) {
            Some(account) => earlier.push(
                ExpenseView {
                    seq: transactions.len() - 1,
                    name: posting.name,
                    value: posting.value,
                    date: posting.date,
                    account_id: posting.account_id,
                    currency: account.currency,
                },
            ),
            None => earlier,
        }
    }
}

/// Whether a list of postings stands in listing order: later days first,
/// and within a day what was stored later first.
pub open spec fn sorted_listing(rows: Seq<ExpenseView>) -> bool {
    forall|i: int, j: int|
        #![trigger rows[i], rows[j]]
        0 <= i < j < rows.len() ==> rows[i].listed_before(rows[j])
}

/// Whether a list of postings stands in the order of storing.
pub open spec fn in_stored_order(rows: Seq<ExpenseView>) -> bool {
    forall|i: int, j: int|
        #![trigger rows[i], rows[j]]
        0 <= i < j < rows.len() ==> rows[i].seq < rows[j].seq
}

/// Inserting into a sequence adds one occurrence of the new element and
/// keeps all others.
proof fn lemma_insert_to_multiset<A>(s: Seq<A>, at: int, a: A)
    requires
        0 <= at <= s.len(),
    ensures
        s.insert(at, a).to_multiset() =~= s.to_multiset().insert(a),
{
    broadcast use vstd::seq_lib::group_to_multiset_ensures;

    let t = s.insert(at, a);
    assert(t.remove(at) =~= s);
    assert(t[at] == a);
    assert(t.to_multiset().count(a) > 0);
    assert(t.remove(at).to_multiset() =~= t.to_multiset().remove(a));
}

/// Of two different days one is the later.
proof fn lemma_days_total(a: Ymd, b: Ymd)
    ensures
        a == b || day_after(a, b) || day_after(b, a),
{
}

/// A list in listing order is fixed by what it holds: two lists in listing
/// order that hold the same postings are the same list. So the order of a
/// listing never depends on how it was produced.
pub proof fn law_listing_unique(a: Seq<ExpenseView>, b: Seq<ExpenseView>)
    requires
        sorted_listing(a),
        sorted_listing(b),
        a.to_multiset() == b.to_multiset(),
    ensures
        a == b,
    decreases a.len(),
{
    a.to_multiset_ensures();
    b.to_multiset_ensures();
    assert(a.len() == a.to_multiset().len());
    assert(b.len() == b.to_multiset().len());
    if a.len() == 0 {
        assert(a =~= b);
    } else {
        let la = a.len() - 1;
        assert(a.contains(a[la]));
        assert(b.contains(b[la]));
        assert(a.to_multiset().count(a[la]) > 0);
        assert(b.to_multiset().count(b[la]) > 0);
        assert(b.contains(a[la]));
        assert(a.contains(b[la]));
        let j = choose|j: int| 0 <= j < b.len() && b[j] == a[la];
        let i = choose|i: int| 0 <= i < a.len() && a[i] == b[la];
        if i < la {
            assert(a[i].listed_before(a[la]));
        }
        if j < la {
            assert(b[j].listed_before(b[la]));
        }
        assert(a[la] == b[la]);
        let fa = a.drop_last();
        let fb = b.drop_last();
        assert(fa =~= a.remove(la));
        assert(fb =~= b.remove(la));
        assert(fa.to_multiset() =~= fb.to_multiset());
        assert forall|p: int, q: int|
            #![trigger fa[p], fa[q]]
            0 <= p < q < fa.len() implies fa[p].listed_before(fa[q]) by {
            assert(a[p].listed_before(a[q]));
        }
        assert forall|p: int, q: int|
            #![trigger fb[p], fb[q]]
            0 <= p < q < fb.len() implies fb[p].listed_before(fb[q]) by {
            assert(b[p].listed_before(b[q]));
        }
        law_listing_unique(fa, fb);
        assert(a =~= fa.push(a[la]));
        assert(b =~= fb.push(b[la]));
    }
}

/// Puts postings that stand in the order of storing into listing order:
/// later days first, and within a day what was stored later first.
pub(crate) fn in_listing_order(expenses: Vec<Expense>) -> (listed: Vec<Expense>)
    requires
        in_stored_order(expenses.deep_view()),
    ensures
        sorted_listing(listed.deep_view()),
        listed.deep_view().to_multiset() == expenses.deep_view().to_multiset(),
        all_wf(expenses.deep_view()) ==> all_wf(listed.deep_view()),
{
    let ghost rows = expenses.deep_view();
    let mut listed: Vec<Expense> = Vec::new();
    let mut k: usize = 0;
    assert(listed.deep_view() =~= rows.take(0));
    while k < expenses.len()
        invariant
            k <= expenses.len(),
            rows == expenses.deep_view(),
            in_stored_order(rows),
            sorted_listing(listed.deep_view()),
            listed.deep_view().to_multiset() == rows.take(k as int).to_multiset(),
            all_wf(rows) ==> all_wf(listed.deep_view()),
            forall|i: int, j: int|
                #![trigger listed.deep_view()[i], rows[j]]
                0 <= i < listed.len() && k <= j < rows.len() ==> listed.deep_view()[i].seq
                    < rows[j].seq,
        decreases expenses.len() - k,
    {
        let row = expenses[k].clone();
        let ghost before = listed.deep_view();
        assert(row@ == rows[k as int]);
        let mut at: usize = 0;
        while at < listed.len() && listed[at].date.is_after(&row.date)
            invariant
                at <= listed.len(),
                before == listed.deep_view(),
                forall|i: int| 0 <= i < at ==> day_after(#[trigger] before[i].date, row@.date),
            decreases listed.len() - at,
        {
            assert(before[at as int] == listed[at as int]@);
            at = at + 1;
        }
        proof {
            if at < listed.len() {
                assert(before[at as int] == listed[at as int]@);
            }
        }
        listed.insert(at, row);
        proof {
            let after = listed.deep_view();
            assert(after =~= before.insert(at as int, rows[k as int]));
            lemma_insert_to_multiset(before, at as int, rows[k as int]);
            assert(rows.take(k + 1) =~= rows.take(k as int).push(rows[k as int]));
            broadcast use vstd::seq_lib::group_to_multiset_ensures;
            assert forall|i: int, j: int|
                #![trigger after[i], after[j]]
                0 <= i < j < after.len() implies after[i].listed_before(after[j]) by {
                let bi = if i < at { i } else { i - 1 };
                let bj = if j < at { j } else { j - 1 };
                if i != at && j != at {
                    assert(before[bi].listed_before(before[bj]));
                } else if i == at {
                    assert(after[j] == before[j - 1]);
                    assert(before[j - 1].seq < rows[k as int].seq);
                    lemma_days_total(before[at as int].date, rows[k as int].date);
                    if j - 1 > at {
                        assert(before[at as int].listed_before(before[j - 1]));
                    }
                    lemma_days_total(before[j - 1].date, rows[k as int].date);
                } else {
                    assert(after[i] == before[i]);
                }
            }
            if all_wf(rows) {
                assert forall|i: int| 0 <= i < after.len() implies (#[trigger] after[i]).wf() by {
                    if i < at {
                        assert(after[i] == before[i]);
                    } else if i > at {
                        assert(after[i] == before[i - 1]);
                    } else {
                        assert(rows[k as int].wf());
                    }
                }
            }
            assert forall|i: int, j: int|
                #![trigger after[i], rows[j]]
                0 <= i < after.len() && k + 1 <= j < rows.len() implies after[i].seq
                < rows[j].seq by {
                if i < at {
                    assert(after[i] == before[i]);
                } else if i == at {
                    assert(rows[k as int].seq < rows[j].seq);
                } else {
                    assert(after[i] == before[i - 1]);
                }
            }
        }
        k = k + 1;
    }
    assert(rows.take(k as int) =~= rows);
    listed
}

} // verus!
