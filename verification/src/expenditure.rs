//! Rolling average expenditure: dated expense records become a monthly series
//! of trailing-window averages, skipping excluded categories and months whose
//! window holds no matching expense at all.

use vstd::prelude::*;

use crate::date::Date;
use crate::fixed::{tdiv, AMOUNT_LIMIT};
use crate::strings::{starts_with_spec, str_eq, str_starts_with};

verus! {

/// Most expense records one run accepts.
pub const MAX_EXPENSES: usize = 100_000;

/// A raw dated expense record.
#[derive(Clone, Debug, PartialEq)]
pub struct Expense {
    pub id: Option<i32>,
    pub transaction_date: Date,
    pub type_: String,
    /// Amount spent, in micro-units.
    pub amount: i128,
}

/// One month-end point of the trailing-window average series.
#[derive(Clone, Debug, PartialEq)]
pub struct AverageExpenditure {
    pub id: Option<i32>,
    pub expense_date: Date,
    /// Average monthly spend over the window, in micro-units.
    pub amount: i128,
}

#[derive(Clone, Copy, PartialEq, Eq, Structural, Debug)]
pub enum ExpenditureError {
    /// No expense records at all: there is no first month to start from.
    NoExpenses,
}

/// Whether an expense counts toward the window `(from_excl, to_incl]`:
/// dated inside it, not of the excluded category, and not of a category
/// carrying the excluded prefix.
pub open spec fn expense_included(
    e: Expense,
    from_excl: Date,
    to_incl: Date,
    ex_type: Seq<char>,
    ex_prefix: Seq<char>,
) -> bool {
    &&& from_excl.before(e.transaction_date)
    &&& e.transaction_date.on_or_before(to_incl)
    &&& e.type_@ != ex_type
    &&& !starts_with_spec(e.type_@, ex_prefix)
}

/// Sum of the first `k` records that count toward the window.
pub open spec fn window_sum(
    es: Seq<Expense>,
    from_excl: Date,
    to_incl: Date,
    ex_type: Seq<char>,
    ex_prefix: Seq<char>,
    k: int,
) -> int
    decreases k,
{
    if k <= 0 {
        0
    } else {
        window_sum(es, from_excl, to_incl, ex_type, ex_prefix, k - 1) + if expense_included(
            es[k - 1],
            from_excl,
            to_incl,
            ex_type,
            ex_prefix,
        ) {
            es[k - 1].amount as int
        } else {
            0
        }
    }
}

/// How many of the first `k` records count toward the window.
pub open spec fn window_count(
    es: Seq<Expense>,
    from_excl: Date,
    to_incl: Date,
    ex_type: Seq<char>,
    ex_prefix: Seq<char>,
    k: int,
) -> int
    decreases k,
{
    if k <= 0 {
        0
    } else {
        window_count(es, from_excl, to_incl, ex_type, ex_prefix, k - 1) + if expense_included(
            es[k - 1],
            from_excl,
            to_incl,
            ex_type,
            ex_prefix,
        ) {
            1int
        } else {
            0
        }
    }
}

/// The earliest transaction date among the first `k` records.
pub open spec fn first_expense_date(es: Seq<Expense>, k: int) -> Date
    decreases k,
{
    if k <= 1 {
        es[0].transaction_date
    } else {
        let m = first_expense_date(es, k - 1);
        if es[k - 1].transaction_date.before(m) {
            es[k - 1].transaction_date
        } else {
            m
        }
    }
}

/// The month-end series from `cur` onward: one point per month-end before
/// `tomorrow`, emitted only when its trailing window holds at least one
/// counted expense, carrying the window sum divided by the window length.
pub open spec fn avg_series(
    es: Seq<Expense>,
    window: int,
    ex_type: Seq<char>,
    ex_prefix: Seq<char>,
    cur: Date,
    tomorrow: Date,
    fuel: nat,
) -> Seq<AverageExpenditure>
    decreases fuel,
{
    if fuel == 0 || !cur.before(tomorrow) {
        Seq::empty()
    } else {
        let from_excl = cur.shift_months_spec(-window);
        let s = window_sum(es, from_excl, cur, ex_type, ex_prefix, es.len() as int);
        let c = window_count(es, from_excl, cur, ex_type, ex_prefix, es.len() as int);
        let next = cur.shift_months_spec(1).last_day_of_month_spec();
        let rest = avg_series(es, window, ex_type, ex_prefix, next, tomorrow, (fuel - 1) as nat);
        if c > 0 {
            seq![
                AverageExpenditure { id: None, expense_date: cur, amount: tdiv(s, window) as i128 },
            ].add(rest)
        } else {
            rest
        }
    }
}

/// Where the series starts: the first expense's month (or the next month,
/// when the first expense is not itself on a month-end), pushed forward by
/// the window length so a full window exists, at that month's last day —
/// every emitted date, the first included, is a calendar month-end.
pub open spec fn series_start(first: Date, window: int) -> Date {
    let base = if first == first.last_day_of_month_spec() {
        first
    } else {
        first.shift_months_spec(1)
    };
    base.shift_months_spec(window).last_day_of_month_spec()
}

pub open spec fn expenses_wf(es: Seq<Expense>) -> bool {
    &&& es.len() <= MAX_EXPENSES
    &&& forall|i: int|
        0 <= i < es.len() ==> ((#[trigger] es[i]).transaction_date.valid() && 100 <= es[i].transaction_date.year <= 9000
            && -AMOUNT_LIMIT <= es[i].amount <= AMOUNT_LIMIT)
}

/// One month's window aggregate, scanned over all records.
fn window_aggregate(
    expenses: &Vec<Expense>,
    from_excl: &Date,
    to_incl: &Date,
    excluded_type: &str,
    excluded_prefix: &str,
) -> (r: (i128, usize))
    requires
        expenses_wf(expenses@),
    ensures
        r.0 as int == window_sum(
            expenses@,
            *from_excl,
            *to_incl,
            excluded_type@,
            excluded_prefix@,
            expenses@.len() as int,
        ),
        r.1 as int == window_count(
            expenses@,
            *from_excl,
            *to_incl,
            excluded_type@,
            excluded_prefix@,
            expenses@.len() as int,
        ),
{
    let n = expenses.len();
    let mut sum: i128 = 0;
    let mut count: usize = 0;
    let mut i: usize = 0;
    while i < n
        invariant
            expenses_wf(expenses@),
            n == expenses@.len(),
            i <= n,
            count <= i,
            sum as int == window_sum(
                expenses@,
                *from_excl,
                *to_incl,
                excluded_type@,
                excluded_prefix@,
                i as int,
            ),
            count as int == window_count(
                expenses@,
                *from_excl,
                *to_incl,
                excluded_type@,
                excluded_prefix@,
                i as int,
            ),
            -(i * AMOUNT_LIMIT) <= sum <= i * AMOUNT_LIMIT,
        decreases n - i,
    {
        proof {
            assert((i + 1) * AMOUNT_LIMIT == i * AMOUNT_LIMIT + AMOUNT_LIMIT) by (nonlinear_arith);
        }
        let e = &expenses[i];
        let in_window = from_excl.is_before(&e.transaction_date) && e.transaction_date.is_on_or_before(
            to_incl,
        );
        if in_window && !str_eq(e.type_.as_str(), excluded_type) && !str_starts_with(
            e.type_.as_str(),
            excluded_prefix,
        ) {
            sum = sum + e.amount;
            count = count + 1;
        }
        i = i + 1;
    }
    (sum, count)
}

/// The monthly trailing-window average series.
///
/// Starting one full window after the first expense's month-end, each
/// month-end sums all expenses dated inside the trailing window — excluding
/// the excluded category and the excluded category prefix — and emits the sum
/// divided by the window length, skipping months whose window holds no
/// counted expense. Fails only when there are no expense records at all.
pub fn calculate_average_expenditure(
    expenses: &Vec<Expense>,
    window_months: i32,
    excluded_type: &str,
    excluded_prefix: &str,
    tomorrow: &Date,
) -> (r: Result<Vec<AverageExpenditure>, ExpenditureError>)
    requires
        expenses_wf(expenses@),
        1 <= window_months <= 120,
        tomorrow.valid(),
        100 <= tomorrow.year <= 9000,
    ensures
        (r is Ok) == (expenses@.len() > 0),
        match r {
            Ok(v) => ({
                let first = first_expense_date(expenses@, expenses@.len() as int);
                let start = series_start(first, window_months as int);
                let fuel = if start.month_index() <= tomorrow.month_index() {
                    (tomorrow.month_index() - start.month_index() + 1) as nat
                } else {
                    0nat
                };
                v@ == avg_series(
                    expenses@,
                    window_months as int,
                    excluded_type@,
                    excluded_prefix@,
                    start,
                    *tomorrow,
                    fuel,
                )
            }),
            Err(e) => e == ExpenditureError::NoExpenses && expenses@.len() == 0,
        },
{
    let n = expenses.len();
    if n == 0 {
        return Err(ExpenditureError::NoExpenses);
    }
    // Earliest expense date.
    let mut first: Date = expenses[0].transaction_date;
    let mut i: usize = 1;
    while i < n
        invariant
            expenses_wf(expenses@),
            n == expenses@.len(),
            1 <= i <= n,
            first == first_expense_date(expenses@, i as int),
            first.valid(),
            100 <= first.year <= 9000,
        decreases n - i,
    {
        if expenses[i].transaction_date.is_before(&first) {
            first = expenses[i].transaction_date;
        }
        i = i + 1;
    }
    let base: Date = if crate::date::is_last_day_of_month(&first) {
        first
    } else {
        first.shift_months(1)
    };
    let shifted: Date = base.shift_months(window_months);
    let mut current: Date = crate::date::get_last_day_of_month(&shifted);
    let ghost start = current;
    let ghost fuel0: nat = if start.month_index() <= tomorrow.month_index() {
        (tomorrow.month_index() - start.month_index() + 1) as nat
    } else {
        0nat
    };
    let ghost es = expenses@;
    let ghost w = window_months as int;
    let mut out: Vec<AverageExpenditure> = Vec::new();
    proof {
        if start.before(*tomorrow) {
            crate::date::lemma_before_month_index(start, *tomorrow);
        }
        assert(Seq::<AverageExpenditure>::empty() + avg_series(
            es,
            w,
            excluded_type@,
            excluded_prefix@,
            start,
            *tomorrow,
            fuel0,
        ) =~= avg_series(es, w, excluded_type@, excluded_prefix@, start, *tomorrow, fuel0));
    }
    while current.is_before(tomorrow)
        invariant
            expenses_wf(es),
            es == expenses@,
            n == es.len(),
            1 <= window_months <= 120,
            w == window_months as int,
            tomorrow.valid(),
            100 <= tomorrow.year <= 9000,
            current.valid(),
            current.month_index() >= start.month_index(),
            fuel0 == if start.month_index() <= tomorrow.month_index() {
                (tomorrow.month_index() - start.month_index() + 1) as nat
            } else {
                0nat
            },
            100 * 12 <= start.month_index(),
            start.month_index() <= 9000 * 12 + window_months + 12,
            avg_series(es, w, excluded_type@, excluded_prefix@, start, *tomorrow, fuel0) == out@
                + avg_series(
                es,
                w,
                excluded_type@,
                excluded_prefix@,
                current,
                *tomorrow,
                (fuel0 - (current.month_index() - start.month_index())) as nat,
            ),
            current.before(*tomorrow) ==> fuel0 - (current.month_index() - start.month_index())
                >= 1,
        decreases 9000 * 12 + window_months + 12 - current.month_index(),
    {
        proof {
            crate::date::lemma_before_month_index(current, *tomorrow);
        }
        let from_excl = current.shift_months(-window_months);
        let (sum, count) = window_aggregate(
            expenses,
            &from_excl,
            &current,
            excluded_type,
            excluded_prefix,
        );
        let ghost fuel_here: nat = (fuel0 - (current.month_index() - start.month_index())) as nat;
        let ghost old_out = out@;
        if count > 0 {
            let avg: i128 = sum / (window_months as i128);
            out.push(AverageExpenditure { id: None, expense_date: current, amount: avg });
        }
        let next = current.shift_months(1);
        let next_end = crate::date::get_last_day_of_month(&next);
        proof {
            let rest = avg_series(
                es,
                w,
                excluded_type@,
                excluded_prefix@,
                next_end,
                *tomorrow,
                (fuel_here - 1) as nat,
            );
            let c = window_count(es, from_excl, current, excluded_type@, excluded_prefix@, n as int);
            let pt = AverageExpenditure {
                id: None,
                expense_date: current,
                amount: tdiv(
                    window_sum(es, from_excl, current, excluded_type@, excluded_prefix@, n as int),
                    w,
                ) as i128,
            };
            if c > 0 {
                assert(avg_series(
                    es,
                    w,
                    excluded_type@,
                    excluded_prefix@,
                    current,
                    *tomorrow,
                    fuel_here,
                ) == seq![pt].add(rest));
                assert(out@ =~= old_out + seq![pt]);
                assert(old_out + seq![pt].add(rest) =~= (old_out + seq![pt]).add(rest));
            } else {
                assert(avg_series(
                    es,
                    w,
                    excluded_type@,
                    excluded_prefix@,
                    current,
                    *tomorrow,
                    fuel_here,
                ) == rest);
            }
            if next_end.before(*tomorrow) {
                crate::date::lemma_before_month_index(next_end, *tomorrow);
            }
        }
        current = next_end;
    }
    proof {
        assert(avg_series(
            es,
            w,
            excluded_type@,
            excluded_prefix@,
            current,
            *tomorrow,
            (fuel0 - (current.month_index() - start.month_index())) as nat,
        ) =~= Seq::<AverageExpenditure>::empty());
        assert(out@ + Seq::<AverageExpenditure>::empty() =~= out@);
    }
    Ok(out)
}

} // verus!
