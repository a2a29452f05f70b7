//! Grouping of listed postings by month, newest month first.

use vstd::prelude::*;
use crate::expense::{Expense, ExpenseView};
use crate::listing::sorted_listing;
use crate::month::SpecificMonth;

verus! {

/// The postings of one month.
#[derive(Debug, PartialEq, Eq)]
pub struct MonthGroup {
    pub month: SpecificMonth,
    /// The postings of the month, in the order of the list they came from.
    pub expenses: Vec<Expense>,
}

/// The postings of one month as plain values.
pub struct MonthGroupView {
    pub month: SpecificMonth,
    pub expenses: Seq<ExpenseView>,
}

impl DeepView for MonthGroup {
    type V = MonthGroupView;

    open spec fn deep_view(&self) -> MonthGroupView {
        MonthGroupView { month: self.month, expenses: self.expenses.deep_view() }
    }
}

/// The postings of `rows` that lie in `month`, in their order.
pub open spec fn rows_in_month(rows: Seq<ExpenseView>, month: SpecificMonth) -> Seq<ExpenseView>
    decreases rows.len(),
{
    if rows.len() == 0 {
        Seq::empty()
    } else {
        let earlier = rows_in_month(rows.drop_last(), month);
        if rows.last().in_month(month) {
            earlier.push(rows.last())
        } else {
            earlier
        }
    }
}

/// Whether one of the groups is for the month of `row`.
pub open spec fn has_group(groups: Seq<MonthGroupView>, row: ExpenseView) -> bool {
    exists|i: int| 0 <= i < groups.len() && row.in_month((#[trigger] groups[i]).month)
}

/// Whether `groups` is the grouping of `rows` by month: the groups come by
/// strictly descending month, each holds exactly the postings of its month,
/// in their order and at least one, and every posting has its group.
pub open spec fn is_grouping(groups: Seq<MonthGroupView>, rows: Seq<ExpenseView>) -> bool {
    &&& (forall|i: int, j: int|
        #![trigger groups[i], groups[j]]
        0 <= i < j < groups.len() ==> groups[i].month.after(groups[j].month))
    &&& (forall|i: int|
        0 <= i < groups.len() ==> (#[trigger] groups[i]).expenses.len() > 0 && groups[i].expenses
            == rows_in_month(rows, groups[i].month))
    &&& (forall|k: int| 0 <= k < rows.len() ==> has_group(groups, #[trigger] rows[k]))
}

/// Where no posting lies in a month, the postings of that month are none.
proof fn lemma_rows_in_month_none(rows: Seq<ExpenseView>, month: SpecificMonth)
    requires
        forall|k: int| 0 <= k < rows.len() ==> !(#[trigger] rows[k]).in_month(month),
    ensures
        rows_in_month(rows, month) == Seq::<ExpenseView>::empty(),
    decreases rows.len(),
{
    if rows.len() > 0 {
        let earlier = rows.drop_last();
        assert forall|k: int| 0 <= k < earlier.len() implies !(#[trigger] earlier[k]).in_month(
            month,
        ) by {
            assert(earlier[k] == rows[k]);
        }
        lemma_rows_in_month_none(earlier, month);
        assert(!rows[rows.len() - 1].in_month(month));
    }
}

/// Groups postings by month. The groups come newest month first; within a
/// group the postings keep the order in which they were given. Every posting
/// lands in exactly one group: that of its month.
pub fn group_by_month(expenses: Vec<Expense>) -> (groups: Vec<MonthGroup>)
    ensures
        is_grouping(groups.deep_view(), expenses.deep_view()),
{
    let ghost rows = expenses.deep_view();
    let ghost given = expenses@;
    let mut groups: Vec<MonthGroup> = Vec::new();
    for expense in it: expenses
        invariant
            it.seq() == given,
            rows.len() == given.len(),
            forall|k: int| 0 <= k < given.len() ==> rows[k] == (#[trigger] given[k])@,
            is_grouping(groups.deep_view(), rows.take(it.index() as int)),
    {
        let ghost k = it.index() as int;
        let ghost seen = rows.take(k);
        let ghost before = groups.deep_view();
        let ghost row = expense@;
        assert(row == rows[k]);
        assert(rows.take(k + 1) =~= seen.push(row));
        assert(seen.push(row).drop_last() =~= seen);
        let month = expense.month();
        let mut g: usize = 0;
        while g < groups.len() && groups[g].month.is_after(&month)
            invariant
                g <= groups.len(),
                before == groups.deep_view(),
                forall|i: int| 0 <= i < g ==> (#[trigger] before[i]).month.after(month),
            decreases groups.len() - g,
        {
            assert(before[g as int] == groups[g as int].deep_view());
            g = g + 1;
        }
        proof {
            if g < groups.len() {
                assert(before[g as int] == groups[g as int].deep_view());
            }
        }
        if g < groups.len() && groups[g].month == month {
            groups[g].expenses.push(expense);
            proof {
                let after = groups.deep_view();
                assert(after.len() == before.len());
                assert(after[g as int].month == month);
                assert(after[g as int].expenses =~= before[g as int].expenses.push(row));
                assert forall|i: int| 0 <= i < after.len() && i != g implies after[i]
                    == before[i] by {}
                assert forall|i: int, j: int|
                    #![trigger after[i], after[j]]
                    0 <= i < j < after.len() implies after[i].month.after(after[j].month) by {
                    assert(before[i].month.after(before[j].month));
                }
                assert forall|i: int| 0 <= i < after.len() implies (#[trigger] after[i]).expenses.len()
                    > 0 && after[i].expenses == rows_in_month(seen.push(row), after[i].month) by {
                    assert(before[i].expenses == rows_in_month(seen, before[i].month));
                    if i != g {
                        if i < g {
                            assert(before[i].month.after(before[g as int].month));
                        } else {
                            assert(before[g as int].month.after(before[i].month));
                        }
                    }
                }
                assert forall|j: int| 0 <= j < seen.push(row).len() implies has_group(
                    after,
                    #[trigger] seen.push(row)[j],
                ) by {
                    if j < seen.len() {
                        assert(has_group(before, seen[j]));
                        let i = choose|i: int|
                            0 <= i < before.len() && seen[j].in_month((#[trigger] before[i]).month);
                        assert(seen[j].in_month(after[i].month));
                    } else {
                        assert(row.in_month(after[g as int].month));
                    }
                }
            }
        } else {
            let mut only: Vec<Expense> = Vec::new();
            only.push(expense);
            assert(only.deep_view() =~= Seq::<ExpenseView>::empty().push(row));
            groups.insert(g, MonthGroup { month, expenses: only });
            proof {
                let after = groups.deep_view();
                let fresh = MonthGroupView { month, expenses: Seq::<ExpenseView>::empty().push(row) };
                assert(after =~= before.insert(g as int, fresh));
                assert forall|i: int| 0 <= i < before.len() implies (#[trigger] before[i]).month
                    != month by {
                    if i < g {
                    } else if i > g {
                        assert(before[g as int].month.after(before[i].month));
                    }
                }
                assert forall|j: int| 0 <= j < seen.len() implies !(#[trigger] seen[j]).in_month(
                    month,
                ) by {
                    assert(has_group(before, seen[j]));
                    let i = choose|i: int|
                        0 <= i < before.len() && seen[j].in_month((#[trigger] before[i]).month);
                    assert(before[i].month != month);
                }
                lemma_rows_in_month_none(seen, month);
                assert forall|i: int, j: int|
                    #![trigger after[i], after[j]]
                    0 <= i < j < after.len() implies after[i].month.after(after[j].month) by {
                    let bi = if i < g { i } else { i - 1 };
                    let bj = if j < g { j } else { j - 1 };
                    if i != g && j != g {
                        assert(before[bi].month.after(before[bj].month));
                    } else if i == g {
                        assert(after[j] == before[j - 1]);
                        if j - 1 > g {
                            assert(before[g as int].month.after(before[j - 1].month));
                        }
                    } else {
                        assert(after[i] == before[i]);
                    }
                }
                assert forall|i: int| 0 <= i < after.len() implies (#[trigger] after[i]).expenses.len()
                    > 0 && after[i].expenses == rows_in_month(seen.push(row), after[i].month) by {
                    if i < g {
                        assert(after[i] == before[i]);
                    } else if i > g {
                        assert(after[i] == before[i - 1]);
                    }
                }
                assert forall|j: int| 0 <= j < seen.push(row).len() implies has_group(
                    after,
                    #[trigger] seen.push(row)[j],
                ) by {
                    if j < seen.len() {
                        assert(has_group(before, seen[j]));
                        let i = choose|i: int|
                            0 <= i < before.len() && seen[j].in_month((#[trigger] before[i]).month);
                        let ai = if i < g { i } else { i + 1 };
                        assert(after[ai] == before[i]);
                        assert(seen[j].in_month(after[ai].month));
                    } else {
                        assert(row.in_month(after[g as int].month));
                    }
                }
            }
        }
    }
    assert(rows.take(given.len() as int) =~= rows);
    groups
}

/// The postings of all groups, group after group.
pub open spec fn flatten(groups: Seq<MonthGroupView>) -> Seq<ExpenseView>
    decreases groups.len(),
{
    if groups.len() == 0 {
        Seq::empty()
    } else {
        flatten(groups.drop_last()) + groups.last().expenses
    }
}

/// The postings of a month are exactly those of the list that lie in it.
pub proof fn lemma_rows_in_month_members(rows: Seq<ExpenseView>, month: SpecificMonth)
    ensures
        forall|row: ExpenseView|
            #![trigger rows_in_month(rows, month).contains(row)]
            rows_in_month(rows, month).contains(row) <==> rows.contains(row) && row.in_month(month),
    decreases rows.len(),
{
    let found = rows_in_month(rows, month);
    if rows.len() > 0 {
        let front = rows.drop_last();
        let earlier = rows_in_month(front, month);
        lemma_rows_in_month_members(front, month);
        assert forall|row: ExpenseView|
            #![trigger found.contains(row)]
            found.contains(row) <==> rows.contains(row) && row.in_month(month) by {
            if found.contains(row) {
                let i = choose|i: int| 0 <= i < found.len() && found[i] == row;
                if i < earlier.len() {
                    assert(earlier[i] == row);
                    assert(earlier.contains(row));
                    let k = choose|k: int| 0 <= k < front.len() && front[k] == row;
                    assert(rows[k] == row);
                } else {
                    assert(rows[rows.len() - 1] == row);
                }
            }
            if rows.contains(row) && row.in_month(month) {
                let k = choose|k: int| 0 <= k < rows.len() && rows[k] == row;
                if k < front.len() {
                    assert(front[k] == row);
                    assert(earlier.contains(row));
                    let i = choose|i: int| 0 <= i < earlier.len() && earlier[i] == row;
                    assert(found[i] == row);
                } else {
                    assert(found[found.len() - 1] == row);
                }
            }
        }
    }
}

/// The postings of a month, taken from a list in listing order, stand in
/// listing order themselves: within a group later days come first, and
/// within a day what was stored later.
pub proof fn law_group_keeps_listing_order(rows: Seq<ExpenseView>, month: SpecificMonth)
    requires
        sorted_listing(rows),
    ensures
        sorted_listing(rows_in_month(rows, month)),
    decreases rows.len(),
{
    let found = rows_in_month(rows, month);
    if rows.len() > 0 {
        let front = rows.drop_last();
        let earlier = rows_in_month(front, month);
        assert forall|i: int, j: int|
            #![trigger front[i], front[j]]
            0 <= i < j < front.len() implies front[i].listed_before(front[j]) by {
            assert(rows[i].listed_before(rows[j]));
        }
        law_group_keeps_listing_order(front, month);
        lemma_rows_in_month_members(front, month);
        assert forall|i: int, j: int|
            #![trigger found[i], found[j]]
            0 <= i < j < found.len() implies found[i].listed_before(found[j]) by {
            assert(found[i] == earlier[i]);
            if j < earlier.len() {
                assert(earlier[i].listed_before(earlier[j]));
            } else {
                assert(earlier.contains(earlier[i]));
                let k = choose|k: int| 0 <= k < front.len() && front[k] == earlier[i];
                assert(rows[k].listed_before(rows[rows.len() - 1]));
            }
        }
    }
}

/// Every posting appears in exactly one group: the one of its month holds
/// it, and no other group does.
pub proof fn law_one_group_per_posting(
    groups: Seq<MonthGroupView>,
    rows: Seq<ExpenseView>,
    k: int,
)
    requires
        is_grouping(groups, rows),
        0 <= k < rows.len(),
    ensures
        exists|i: int|
            0 <= i < groups.len() && (#[trigger] groups[i]).expenses.contains(rows[k]) && forall|
                j: int,
            |
                0 <= j < groups.len() && j != i ==> !(#[trigger] groups[j]).expenses.contains(
                    rows[k],
                ),
{
    let row = rows[k];
    assert(has_group(groups, row));
    let i = choose|i: int| 0 <= i < groups.len() && row.in_month((#[trigger] groups[i]).month);
    lemma_rows_in_month_members(rows, groups[i].month);
    assert(rows.contains(row));
    assert(groups[i].expenses.contains(row));
    assert forall|j: int| 0 <= j < groups.len() && j != i implies !(#[trigger] groups[j]).expenses.contains(
        row,
    ) by {
        lemma_rows_in_month_members(rows, groups[j].month);
        if j < i {
            assert(groups[j].month.after(groups[i].month));
        } else {
            assert(groups[i].month.after(groups[j].month));
        }
    }
}

/// Two runs of months, each strictly descending, that hold the same months
/// are the same run.
proof fn lemma_same_months(a: Seq<SpecificMonth>, b: Seq<SpecificMonth>)
    requires
        forall|i: int, j: int| #![trigger a[i], a[j]] 0 <= i < j < a.len() ==> a[i].after(a[j]),
        forall|i: int, j: int| #![trigger b[i], b[j]] 0 <= i < j < b.len() ==> b[i].after(b[j]),
        forall|i: int| 0 <= i < a.len() ==> b.contains(#[trigger] a[i]),
        forall|j: int| 0 <= j < b.len() ==> a.contains(#[trigger] b[j]),
    ensures
        a == b,
    decreases a.len(),
{
    if a.len() == 0 {
        if b.len() > 0 {
            assert(a.contains(b[0]));
        }
        assert(a =~= b);
    } else {
        assert(b.contains(a[0]));
        let la = a.len() - 1;
        let lb = b.len() - 1;
        assert(b.contains(a[la]));
        assert(a.contains(b[lb]));
        let j = choose|j: int| 0 <= j < b.len() && b[j] == a[la];
        let i = choose|i: int| 0 <= i < a.len() && a[i] == b[lb];
        if i < la {
            assert(a[i].after(a[la]));
        }
        if j < lb {
            assert(b[j].after(b[lb]));
        }
        assert(a[la] == b[lb]);
        let fa = a.drop_last();
        let fb = b.drop_last();
        assert forall|p: int| 0 <= p < fa.len() implies fb.contains(#[trigger] fa[p]) by {
            assert(fa[p] == a[p]);
            assert(b.contains(a[p]));
            let q = choose|q: int| 0 <= q < b.len() && b[q] == a[p];
            assert(a[p].after(a[la]));
            assert(fb[q] == a[p]);
        }
        assert forall|q: int| 0 <= q < fb.len() implies fa.contains(#[trigger] fb[q]) by {
            assert(fb[q] == b[q]);
            assert(a.contains(b[q]));
            let p = choose|p: int| 0 <= p < a.len() && a[p] == b[q];
            assert(b[q].after(b[lb]));
            assert(fa[p] == b[q]);
        }
        assert forall|p: int, q: int| #![trigger fa[p], fa[q]] 0 <= p < q < fa.len() implies fa[p].after(
            fa[q],
        ) by {
            assert(a[p].after(a[q]));
        }
        assert forall|p: int, q: int| #![trigger fb[p], fb[q]] 0 <= p < q < fb.len() implies fb[p].after(
            fb[q],
        ) by {
            assert(b[p].after(b[q]));
        }
        lemma_same_months(fa, fb);
        assert(a =~= fa.push(a[la]));
        assert(b =~= fb.push(b[lb]));
    }
}

/// A group of a grouping is for a month in which a posting lies.
proof fn lemma_group_has_posting(groups: Seq<MonthGroupView>, rows: Seq<ExpenseView>, i: int)
    requires
        is_grouping(groups, rows),
        0 <= i < groups.len(),
    ensures
        rows.contains(groups[i].expenses[0]),
        groups[i].expenses[0].in_month(groups[i].month),
{
    lemma_rows_in_month_members(rows, groups[i].month);
    assert(groups[i].expenses.contains(groups[i].expenses[0]));
}

/// A list of postings has one grouping by month only: grouping is a
/// function of the list.
pub proof fn law_grouping_unique(
    first: Seq<MonthGroupView>,
    second: Seq<MonthGroupView>,
    rows: Seq<ExpenseView>,
)
    requires
        is_grouping(first, rows),
        is_grouping(second, rows),
    ensures
        first == second,
{
    let a = first.map_values(|g: MonthGroupView| g.month);
    let b = second.map_values(|g: MonthGroupView| g.month);
    assert forall|i: int| 0 <= i < a.len() implies b.contains(#[trigger] a[i]) by {
        lemma_group_has_posting(first, rows, i);
        let row = first[i].expenses[0];
        let k = choose|k: int| 0 <= k < rows.len() && rows[k] == row;
        assert(has_group(second, rows[k]));
        let j = choose|j: int| 0 <= j < second.len() && row.in_month((#[trigger] second[j]).month);
        assert(b[j] == a[i]);
    }
    assert forall|j: int| 0 <= j < b.len() implies a.contains(#[trigger] b[j]) by {
        lemma_group_has_posting(second, rows, j);
        let row = second[j].expenses[0];
        let k = choose|k: int| 0 <= k < rows.len() && rows[k] == row;
        assert(has_group(first, rows[k]));
        let i = choose|i: int| 0 <= i < first.len() && row.in_month((#[trigger] first[i]).month);
        assert(a[i] == b[j]);
    }
    assert forall|i: int, j: int| #![trigger a[i], a[j]] 0 <= i < j < a.len() implies a[i].after(
        a[j],
    ) by {
        assert(first[i].month.after(first[j].month));
    }
    assert forall|i: int, j: int| #![trigger b[i], b[j]] 0 <= i < j < b.len() implies b[i].after(
        b[j],
    ) by {
        assert(second[i].month.after(second[j].month));
    }
    lemma_same_months(a, b);
    assert(first.len() == second.len());
    assert forall|i: int| 0 <= i < first.len() implies first[i] == second[i] by {
        assert(a[i] == b[i]);
        assert(first[i].month == second[i].month);
        assert(first[i].expenses == second[i].expenses);
    }
    assert(first =~= second);
}

/// Picking the postings of a month commutes with joining two lists.
proof fn lemma_rows_in_month_add(
    left: Seq<ExpenseView>,
    right: Seq<ExpenseView>,
    month: SpecificMonth,
)
    ensures
        rows_in_month(left + right, month) == rows_in_month(left, month) + rows_in_month(
            right,
            month,
        ),
    decreases right.len(),
{
    if right.len() == 0 {
        assert(left + right =~= left);
        assert(rows_in_month(left, month) + rows_in_month(right, month) =~= rows_in_month(
            left,
            month,
        ));
    } else {
        lemma_rows_in_month_add(left, right.drop_last(), month);
        assert((left + right).drop_last() =~= left + right.drop_last());
        assert((left + right).last() == right.last());
        assert(rows_in_month(left + right, month) =~= rows_in_month(left, month) + rows_in_month(
            right,
            month,
        ));
    }
}

/// Where every posting lies in a month, the postings of that month are all.
proof fn lemma_rows_in_month_all(rows: Seq<ExpenseView>, month: SpecificMonth)
    requires
        forall|k: int| 0 <= k < rows.len() ==> (#[trigger] rows[k]).in_month(month),
    ensures
        rows_in_month(rows, month) == rows,
    decreases rows.len(),
{
    if rows.len() > 0 {
        let front = rows.drop_last();
        assert forall|k: int| 0 <= k < front.len() implies (#[trigger] front[k]).in_month(month) by {
            assert(front[k] == rows[k]);
        }
        lemma_rows_in_month_all(front, month);
        assert(rows[rows.len() - 1].in_month(month));
        assert(front.push(rows.last()) =~= rows);
    } else {
        assert(rows =~= Seq::<ExpenseView>::empty());
    }
}

/// Whether every posting of a group lies in the month of the group, and no
/// two groups are for one month.
spec fn tidy(groups: Seq<MonthGroupView>) -> bool {
    &&& (forall|i: int, k: int|
        #![trigger groups[i].expenses[k]]
        0 <= i < groups.len() && 0 <= k < groups[i].expenses.len()
            ==> groups[i].expenses[k].in_month(groups[i].month))
    &&& (forall|i: int, j: int|
        #![trigger groups[i], groups[j]]
        0 <= i < j < groups.len() ==> groups[i].month != groups[j].month)
}

/// From groups joined into one list, picking the postings of the month of a
/// group gives back that group, and every posting of the list has its group.
proof fn lemma_flatten_tidy(groups: Seq<MonthGroupView>, i: int)
    requires
        tidy(groups),
        0 <= i < groups.len(),
    ensures
        rows_in_month(flatten(groups), groups[i].month) == groups[i].expenses,
        forall|k: int|
            0 <= k < flatten(groups).len() ==> has_group(groups, #[trigger] flatten(groups)[k]),
    decreases groups.len(),
{
    let front = groups.drop_last();
    let last = groups.last();
    let month = groups[i].month;
    assert(tidy(front)) by {
        assert forall|a: int, k: int|
            #![trigger front[a].expenses[k]]
            0 <= a < front.len() && 0 <= k < front[a].expenses.len() implies front[a].expenses[k].in_month(
            front[a].month,
        ) by {
            assert(groups[a].expenses[k].in_month(groups[a].month));
        }
        assert forall|a: int, b: int|
            #![trigger front[a], front[b]]
            0 <= a < b < front.len() implies front[a].month != front[b].month by {
            assert(groups[a].month != groups[b].month);
        }
    }
    lemma_rows_in_month_add(flatten(front), last.expenses, month);
    let all = flatten(groups);
    assert forall|k: int| 0 <= k < all.len() implies has_group(groups, #[trigger] all[k]) by {
        if k < flatten(front).len() {
            if front.len() > 0 {
                lemma_flatten_tidy(front, 0);
                assert(has_group(front, flatten(front)[k]));
                let a = choose|a: int|
                    0 <= a < front.len() && flatten(front)[k].in_month((#[trigger] front[a]).month);
                assert(all[k].in_month(groups[a].month));
            }
        } else {
            let at = k - flatten(front).len();
            assert(all[k] == groups[groups.len() - 1].expenses[at]);
            assert(all[k].in_month(groups[groups.len() - 1].month));
        }
    }
    if i == groups.len() - 1 {
        assert forall|k: int| 0 <= k < flatten(front).len() implies !(#[trigger] flatten(
            front,
        )[k]).in_month(month) by {
            if front.len() > 0 {
                lemma_flatten_tidy(front, 0);
                assert(has_group(front, flatten(front)[k]));
                let a = choose|a: int|
                    0 <= a < front.len() && flatten(front)[k].in_month((#[trigger] front[a]).month);
                assert(groups[a].month != groups[i].month);
            }
        }
        lemma_rows_in_month_none(flatten(front), month);
        assert forall|k: int| 0 <= k < last.expenses.len() implies (#[trigger] last.expenses[k]).in_month(
            month,
        ) by {
            assert(groups[i].expenses[k].in_month(groups[i].month));
        }
        lemma_rows_in_month_all(last.expenses, month);
        assert(Seq::<ExpenseView>::empty() + last.expenses =~= last.expenses);
    } else {
        lemma_flatten_tidy(front, i);
        assert(front[i] == groups[i]);
        assert forall|k: int| 0 <= k < last.expenses.len() implies !(#[trigger] last.expenses[k]).in_month(
            month,
        ) by {
            assert(groups[groups.len() - 1].expenses[k].in_month(groups[groups.len() - 1].month));
            assert(groups[i].month != groups[groups.len() - 1].month);
        }
        lemma_rows_in_month_none(last.expenses, month);
        assert(groups[i].expenses + Seq::<ExpenseView>::empty() =~= groups[i].expenses);
    }
}

/// Grouping is idempotent: the groups of a list are also the grouping of
/// their own postings, joined group after group. With `law_grouping_unique`,
/// grouping those postings again gives the same groups.
pub proof fn law_grouping_idempotent(groups: Seq<MonthGroupView>, rows: Seq<ExpenseView>)
    requires
        is_grouping(groups, rows),
    ensures
        is_grouping(groups, flatten(groups)),
{
    assert(tidy(groups)) by {
        assert forall|i: int, k: int|
            #![trigger groups[i].expenses[k]]
            0 <= i < groups.len() && 0 <= k < groups[i].expenses.len() implies groups[i].expenses[k].in_month(
            groups[i].month,
        ) by {
            lemma_rows_in_month_members(rows, groups[i].month);
            assert(groups[i].expenses.contains(groups[i].expenses[k]));
        }
        assert forall|i: int, j: int|
            #![trigger groups[i], groups[j]]
            0 <= i < j < groups.len() implies groups[i].month != groups[j].month by {
            assert(groups[i].month.after(groups[j].month));
        }
    }
    let all = flatten(groups);
    assert forall|i: int|
        0 <= i < groups.len() implies (#[trigger] groups[i]).expenses.len() > 0
        && groups[i].expenses == rows_in_month(all, groups[i].month) by {
        lemma_flatten_tidy(groups, i);
    }
    assert forall|k: int| 0 <= k < all.len() implies has_group(groups, #[trigger] all[k]) by {
        if groups.len() > 0 {
            lemma_flatten_tidy(groups, 0);
        }
    }
}

} // verus!
