//! Shared expenses folded into the expense series: rows are grouped by date
//! and summed, ordinary and `"Special:"`-prefixed categories separately, and
//! emitted as expense rows under a common category name.

use vstd::prelude::*;
use vstd::pervasive::VecAdditionalExecFns;

use crate::date::Date;
use crate::expenditure::Expense;
use crate::fixed::AMOUNT_LIMIT;
use crate::models::SharedExpense;
use crate::strings::{starts_with_spec, str_starts_with};

verus! {

/// Most shared-expense rows one run accepts.
pub const MAX_SHARED_ROWS: usize = 100_000;

/// The first entry for date `d`, scanning from `i` on; `-1` when none.
pub open spec fn find_date(acc: Seq<(Date, int)>, d: Date, i: int) -> int
    decreases acc.len() - i,
{
    if i < 0 || i >= acc.len() {
        -1
    } else if acc[i].0 == d {
        i
    } else {
        find_date(acc, d, i + 1)
    }
}

proof fn lemma_find_date_at(acc: Seq<(Date, int)>, d: Date, k: int, p: int)
    requires
        0 <= k <= p <= acc.len(),
        forall|j: int| k <= j < p ==> (#[trigger] acc[j]).0 != d,
        p < acc.len() ==> acc[p].0 == d,
    ensures
        find_date(acc, d, k) == if p < acc.len() {
            p
        } else {
            -1
        },
    decreases acc.len() - k,
{
    if k < acc.len() && k < p {
        lemma_find_date_at(acc, d, k + 1, p);
    }
}

/// Whether a row belongs to the selected half: the `"Special:"`-prefixed
/// categories when `special` is set, all the others when it is not.
pub open spec fn row_selected(e: SharedExpense, special: bool, prefix: Seq<char>) -> bool {
    starts_with_spec(e.type_@, prefix) == special
}

/// The selected rows of the first `k`, grouped by date in order of first
/// appearance, amounts summed per date.
pub open spec fn group_by_date(
    rows: Seq<SharedExpense>,
    special: bool,
    prefix: Seq<char>,
    k: int,
) -> Seq<(Date, int)>
    decreases k,
{
    if k <= 0 {
        Seq::empty()
    } else {
        let prev = group_by_date(rows, special, prefix, k - 1);
        let e = rows[k - 1];
        if row_selected(e, special, prefix) {
            let idx = find_date(prev, e.expense_date, 0);
            if idx >= 0 {
                prev.update(idx, (e.expense_date, prev[idx].1 + e.amount))
            } else {
                prev.push((e.expense_date, e.amount as int))
            }
        } else {
            prev
        }
    }
}

pub open spec fn shared_rows_wf(rows: Seq<SharedExpense>) -> bool {
    &&& rows.len() <= MAX_SHARED_ROWS
    &&& forall|i: int|
        0 <= i < rows.len() ==> ((#[trigger] rows[i]).expense_date.valid() && 100
            <= rows[i].expense_date.year <= 9000 && -AMOUNT_LIMIT <= rows[i].amount
            <= AMOUNT_LIMIT)
}

/// One half of the shared expenses — the `"Special:"`-prefixed categories or
/// the rest — grouped by date, summed, and emitted as expense rows under
/// `expense_type`.
pub fn insert_expense(
    shared_expenses: &Vec<SharedExpense>,
    special: bool,
    prefix: &str,
    expense_type: &str,
) -> (r: Vec<Expense>)
    requires
        shared_rows_wf(shared_expenses@),
    ensures
        ({
            let g = group_by_date(
                shared_expenses@,
                special,
                prefix@,
                shared_expenses@.len() as int,
            );
            &&& r@.len() == g.len()
            &&& forall|i: int|
                0 <= i < r@.len() ==> ((#[trigger] r@[i]).transaction_date == g[i].0
                    && r@[i].amount as int == g[i].1 && r@[i].type_@ == expense_type@ && r@[i].id
                    is None)
        }),
{
    let n = shared_expenses.len();
    let mut groups: Vec<(Date, i128)> = Vec::new();
    let mut i: usize = 0;
    while i < n
        invariant
            shared_rows_wf(shared_expenses@),
            n == shared_expenses@.len(),
            i <= n,
            groups@.map_values(|x: (Date, i128)| (x.0, x.1 as int)) == group_by_date(
                shared_expenses@,
                special,
                prefix@,
                i as int,
            ),
            forall|q: int|
                0 <= q < groups@.len() ==> -(i * AMOUNT_LIMIT) <= (#[trigger] groups@[q]).1 <= i
                    * AMOUNT_LIMIT,
        decreases n - i,
    {
        proof {
            assert((i + 1) * AMOUNT_LIMIT == i * AMOUNT_LIMIT + AMOUNT_LIMIT) by (nonlinear_arith);
        }
        let ghost gprev = groups@.map_values(|x: (Date, i128)| (x.0, x.1 as int));
        let e = &shared_expenses[i];
        if str_starts_with(e.type_.as_str(), prefix) == special {
            // Find this date among the groups built so far.
            let m = groups.len();
            let mut j: usize = 0;
            let mut found: bool = false;
            while j < m && !found
                invariant
                    m == groups@.len(),
                    j <= m,
                    found ==> (j < m && groups@[j as int].0 == e.expense_date),
                    forall|q: int| 0 <= q < j ==> (#[trigger] groups@[q]).0 != e.expense_date,
                decreases m - j, (if found { 0int } else { 1 }),
            {
                if groups[j].0 == e.expense_date {
                    found = true;
                } else {
                    j = j + 1;
                }
            }
            proof {
                assert(forall|q: int|
                    0 <= q < gprev.len() ==> (#[trigger] gprev[q]) == (
                        groups@[q].0,
                        groups@[q].1 as int,
                    ));
                lemma_find_date_at(
                    gprev,
                    e.expense_date,
                    0,
                    if found {
                        j as int
                    } else {
                        gprev.len() as int
                    },
                );
            }
            if found {
                let updated: (Date, i128) = (groups[j].0, groups[j].1 + e.amount);
                groups.set(j, updated);
                proof {
                    assert(groups@.map_values(|x: (Date, i128)| (x.0, x.1 as int)) =~= gprev.update(
                        j as int,
                        (e.expense_date, gprev[j as int].1 + e.amount),
                    ));
                }
            } else {
                groups.push((e.expense_date, e.amount));
                proof {
                    assert(groups@.map_values(|x: (Date, i128)| (x.0, x.1 as int)) =~= gprev.push(
                        (e.expense_date, e.amount as int),
                    ));
                }
            }
        }
        i = i + 1;
    }
    let m = groups.len();
    let mut out: Vec<Expense> = Vec::new();
    let mut k: usize = 0;
    while k < m
        invariant
            m == groups@.len(),
            k <= m,
            out@.len() == k,
            forall|q: int|
                0 <= q < k ==> ((#[trigger] out@[q]).transaction_date == groups@[q].0
                    && out@[q].amount == groups@[q].1 && out@[q].type_@ == expense_type@
                    && out@[q].id is None),
        decreases m - k,
    {
        out.push(
            Expense {
                id: None,
                transaction_date: groups[k].0,
                type_: String::from_str(expense_type),
                amount: groups[k].1,
            },
        );
        k = k + 1;
    }
    proof {
        let g = group_by_date(shared_expenses@, special, prefix@, n as int);
        assert(forall|q: int|
            0 <= q < g.len() ==> (#[trigger] g[q]) == (groups@[q].0, groups@[q].1 as int));
    }
    out
}

/// The shared expenses folded into expense rows: the ordinary categories
/// summed per date under `"Shared Expense"`, then the `"Special:"`-prefixed
/// ones summed per date under `"Special:Shared Expense"`.
pub fn populate_shared_expenditure(shared_expenses: &Vec<SharedExpense>) -> (r: Vec<Expense>)
    requires
        shared_rows_wf(shared_expenses@),
    ensures
        ({
            let g1 = group_by_date(
                shared_expenses@,
                false,
                "Special:"@,
                shared_expenses@.len() as int,
            );
            let g2 = group_by_date(
                shared_expenses@,
                true,
                "Special:"@,
                shared_expenses@.len() as int,
            );
            &&& r@.len() == g1.len() + g2.len()
            &&& forall|i: int|
                0 <= i < g1.len() ==> ((#[trigger] r@[i]).transaction_date == g1[i].0
                    && r@[i].amount as int == g1[i].1 && r@[i].type_@ == "Shared Expense"@
                    && r@[i].id is None)
            &&& forall|i: int|
                0 <= i < g2.len() ==> ((#[trigger] r@[g1.len() + i]).transaction_date == g2[i].0
                    && r@[g1.len() + i].amount as int == g2[i].1 && r@[g1.len() + i].type_@
                    == "Special:Shared Expense"@ && r@[g1.len() + i].id is None)
        }),
{
    let mut out = insert_expense(shared_expenses, false, "Special:", "Shared Expense");
    let mut special = insert_expense(shared_expenses, true, "Special:", "Special:Shared Expense");
    let ghost out0 = out@;
    out.append(&mut special);
    proof {
        assert(forall|i: int| 0 <= i < out0.len() ==> out@[i] == out0[i]);
    }
    out
}

} // verus!
