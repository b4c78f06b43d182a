//! Asset population: the monthly value of the investment portfolio, and the
//! housing asset imputed from the mortgage principal paid so far, gap-filled
//! month by month between schedule points.

use vstd::prelude::*;

use crate::date::Date;
use crate::fixed::{tdiv, AMOUNT_LIMIT, SCALE};
use crate::mortgage::MortgageSchedule;
use crate::stock::Portfolio;

verus! {

/// Most portfolio rows one run accepts.
pub const MAX_PORTFOLIO_ROWS: usize = 1_000_000;

/// Largest net asset value a portfolio row may carry, in micro-units.
pub const NAV_LIMIT: i128 = 100_000_000_000_000_000_000_000_000;

/// A dated asset valuation row.
#[derive(Clone, Debug, PartialEq)]
pub struct Asset {
    pub id: Option<i32>,
    pub transaction_date: Date,
    pub type_: String,
    /// Value in micro-units.
    pub amount: i128,
}

#[derive(Clone, Copy, PartialEq, Eq, Structural, Debug)]
pub enum AssetError {
    /// No portfolio rows at all: there is no first month to start from.
    NoPortfolios,
}

/// Sum of `nav` over the first `k` rows dated exactly `d`.
pub open spec fn day_nav_sum(ps: Seq<Portfolio>, d: Date, k: int) -> int
    decreases k,
{
    if k <= 0 {
        0
    } else {
        day_nav_sum(ps, d, k - 1) + if ps[k - 1].trade_date == d {
            ps[k - 1].nav as int
        } else {
            0
        }
    }
}

/// How many of the first `k` rows are dated exactly `d`.
pub open spec fn day_nav_count(ps: Seq<Portfolio>, d: Date, k: int) -> int
    decreases k,
{
    if k <= 0 {
        0
    } else {
        day_nav_count(ps, d, k - 1) + if ps[k - 1].trade_date == d {
            1int
        } else {
            0
        }
    }
}

/// The earliest trade date among the first `k` rows.
pub open spec fn first_portfolio_date(ps: Seq<Portfolio>, k: int) -> Date
    decreases k,
{
    if k <= 1 {
        ps[0].trade_date
    } else {
        let m = first_portfolio_date(ps, k - 1);
        if ps[k - 1].trade_date.before(m) {
            ps[k - 1].trade_date
        } else {
            m
        }
    }
}

/// The monthly investment series from `cur` on: for each first-of-month
/// before `tomorrow` that at least one portfolio row is dated at, the summed
/// net asset value of that day.
pub open spec fn investments_series(ps: Seq<Portfolio>, cur: Date, tomorrow: Date, fuel: nat) -> Seq<
    (Date, int),
>
    decreases fuel,
{
    if fuel == 0 || !cur.before(tomorrow) {
        Seq::empty()
    } else {
        let s = day_nav_sum(ps, cur, ps.len() as int);
        let c = day_nav_count(ps, cur, ps.len() as int);
        let rest = investments_series(ps, cur.shift_months_spec(1), tomorrow, (fuel - 1) as nat);
        if c > 0 {
            seq![(cur, s)].add(rest)
        } else {
            rest
        }
    }
}

/// Where the monthly walk starts: the first row's month, moved to the next
/// month when the first row is not itself on a first-of-month, at day one.
pub open spec fn investments_start(first: Date) -> Date {
    let base = if first.day == 1 {
        first
    } else {
        first.shift_months_spec(1)
    };
    Date { year: base.year, month: base.month, day: 1 }
}

pub open spec fn portfolios_wf(ps: Seq<Portfolio>) -> bool {
    &&& ps.len() <= MAX_PORTFOLIO_ROWS
    &&& forall|i: int|
        0 <= i < ps.len() ==> ((#[trigger] ps[i]).trade_date.valid() && 100 <= ps[i].trade_date.year
            <= 9000 && -NAV_LIMIT <= ps[i].nav <= NAV_LIMIT)
}

/// One month's aggregate over all rows.
fn day_aggregate(portfolios: &Vec<Portfolio>, d: &Date) -> (r: (i128, usize))
    requires
        portfolios_wf(portfolios@),
    ensures
        r.0 as int == day_nav_sum(portfolios@, *d, portfolios@.len() as int),
        r.1 as int == day_nav_count(portfolios@, *d, portfolios@.len() as int),
{
    let n = portfolios.len();
    let mut sum: i128 = 0;
    let mut count: usize = 0;
    let mut i: usize = 0;
    while i < n
        invariant
            portfolios_wf(portfolios@),
            n == portfolios@.len(),
            i <= n,
            count <= i,
            sum as int == day_nav_sum(portfolios@, *d, i as int),
            count as int == day_nav_count(portfolios@, *d, i as int),
            -(i * NAV_LIMIT) <= sum <= i * NAV_LIMIT,
        decreases n - i,
    {
        proof {
            assert((i + 1) * NAV_LIMIT == i * NAV_LIMIT + NAV_LIMIT) by (nonlinear_arith);
        }
        if portfolios[i].trade_date == *d {
            sum = sum + portfolios[i].nav;
            count = count + 1;
        }
        i = i + 1;
    }
    (sum, count)
}

/// The monthly investment asset series: every first-of-month from the first
/// portfolio row to `tomorrow` (exclusive) on which any row is dated gets one
/// `"Investments"` asset holding that day's summed net asset value. Fails
/// only when there are no portfolio rows at all.
pub fn populate_investments(portfolios: &Vec<Portfolio>, tomorrow: &Date) -> (r: Result<
    Vec<Asset>,
    AssetError,
>)
    requires
        portfolios_wf(portfolios@),
        tomorrow.valid(),
        100 <= tomorrow.year <= 9000,
    ensures
        (r is Ok) == (portfolios@.len() > 0),
        match r {
            Ok(v) => ({
                let first = first_portfolio_date(portfolios@, portfolios@.len() as int);
                let start = investments_start(first);
                let fuel = if start.month_index() <= tomorrow.month_index() {
                    (tomorrow.month_index() - start.month_index() + 1) as nat
                } else {
                    0nat
                };
                let series = investments_series(portfolios@, start, *tomorrow, fuel);
                &&& v@.len() == series.len()
                &&& forall|i: int|
                    0 <= i < v@.len() ==> ((#[trigger] v@[i]).transaction_date == series[i].0
                        && v@[i].amount as int == series[i].1 && v@[i].type_@ == "Investments"@
                        && v@[i].id is None)
            }),
            Err(e) => e == AssetError::NoPortfolios && portfolios@.len() == 0,
        },
{
    let n = portfolios.len();
    if n == 0 {
        return Err(AssetError::NoPortfolios);
    }
    let mut first: Date = portfolios[0].trade_date;
    let mut i: usize = 1;
    while i < n
        invariant
            portfolios_wf(portfolios@),
            n == portfolios@.len(),
            1 <= i <= n,
            first == first_portfolio_date(portfolios@, i as int),
            first.valid(),
            100 <= first.year <= 9000,
        decreases n - i,
    {
        if portfolios[i].trade_date.is_before(&first) {
            first = portfolios[i].trade_date;
        }
        i = i + 1;
    }
    let base: Date = if first.day == 1 {
        first
    } else {
        first.shift_months(1)
    };
    let mut current: Date = Date::new(base.year, base.month, 1);
    let ghost start = current;
    let ghost fuel0: nat = if start.month_index() <= tomorrow.month_index() {
        (tomorrow.month_index() - start.month_index() + 1) as nat
    } else {
        0nat
    };
    let ghost ps = portfolios@;
    let mut out: Vec<Asset> = Vec::new();
    proof {
        if start.before(*tomorrow) {
            crate::date::lemma_before_month_index(start, *tomorrow);
        }
        assert(Seq::<(Date, int)>::empty() + investments_series(ps, start, *tomorrow, fuel0)
            =~= investments_series(ps, start, *tomorrow, fuel0));
    }
    while current.is_before(tomorrow)
        invariant
            portfolios_wf(ps),
            ps == portfolios@,
            n == ps.len(),
            tomorrow.valid(),
            100 <= tomorrow.year <= 9000,
            current.valid(),
            current.day == 1,
            current.month_index() >= start.month_index(),
            fuel0 == if start.month_index() <= tomorrow.month_index() {
                (tomorrow.month_index() - start.month_index() + 1) as nat
            } else {
                0nat
            },
            100 * 12 <= start.month_index() <= 9000 * 12 + 12,
            ({
                let series = investments_series(ps, start, *tomorrow, fuel0);
                let rest = investments_series(
                    ps,
                    current,
                    *tomorrow,
                    (fuel0 - (current.month_index() - start.month_index())) as nat,
                );
                &&& series.len() == out@.len() + rest.len()
                &&& forall|q: int|
                    0 <= q < out@.len() ==> ((#[trigger] out@[q]).transaction_date == series[q].0
                        && out@[q].amount as int == series[q].1 && out@[q].type_@ == "Investments"@
                        && out@[q].id is None)
                &&& forall|q: int|
                    0 <= q < rest.len() ==> #[trigger] rest[q] == series[q + out@.len()]
            }),
            current.before(*tomorrow) ==> fuel0 - (current.month_index() - start.month_index())
                >= 1,
        decreases 9000 * 12 + 13 - current.month_index(),
    {
        proof {
            crate::date::lemma_before_month_index(current, *tomorrow);
        }
        let (sum, count) = day_aggregate(portfolios, &current);
        let ghost fuel_here: nat = (fuel0 - (current.month_index() - start.month_index())) as nat;
        let ghost out0 = out@;
        let ghost cur0 = current;
        if count > 0 {
            let label = String::from_str("Investments");
            out.push(Asset { id: None, transaction_date: current, type_: label, amount: sum });
        }
        let next = current.shift_months(1);
        proof {
            if next.before(*tomorrow) {
                crate::date::lemma_before_month_index(next, *tomorrow);
            }
            let series = investments_series(ps, start, *tomorrow, fuel0);
            let rest0 = investments_series(ps, cur0, *tomorrow, fuel_here);
            let rest1 = investments_series(ps, next, *tomorrow, (fuel_here - 1) as nat);
            let s = day_nav_sum(ps, cur0, n as int);
            let c = day_nav_count(ps, cur0, n as int);
            assert(rest0 == if c > 0 {
                seq![(cur0, s)].add(rest1)
            } else {
                rest1
            });
            if c > 0 {
                assert(out@ =~= out0.push(out@[out0.len() as int]));
                assert(rest0[0] == (cur0, s));
                assert(series[out0.len() as int] == (cur0, s));
                assert(forall|q: int| 0 <= q < rest1.len() ==> #[trigger] rest1[q] == rest0[q + 1]);
            }
        }
        current = next;
    }
    proof {
        assert(investments_series(
            ps,
            current,
            *tomorrow,
            (fuel0 - (current.month_index() - start.month_index())) as nat,
        ) =~= Seq::<(Date, int)>::empty());
    }
    Ok(out)
}

/// A schedule row as the housing series reads it: its month's first day, and
/// the principal paid so far divided by the split ratio.
pub open spec fn house_point(m: MortgageSchedule, ratio: int) -> (Date, int) {
    (
        Date { year: m.date.year, month: m.date.month, day: 1 },
        tdiv(m.total_principal_paid * (SCALE as int), ratio),
    )
}

pub open spec fn house_points(ms: Seq<MortgageSchedule>, ratio: int) -> Seq<(Date, int)> {
    ms.map_values(|m: MortgageSchedule| house_point(m, ratio))
}

/// The gap-filled housing series: walking the schedule points in order, emit
/// the current point's amount for each month from its date up to the next
/// point's date (exclusive). The last point itself is never emitted: it only
/// bounds the fill before it.
pub open spec fn house_fill(pts: Seq<(Date, int)>, i: int, cur: Date, fuel: nat) -> Seq<(Date, int)>
    decreases pts.len() - i, fuel,
{
    if i < 0 || i >= pts.len() - 1 {
        Seq::empty()
    } else if !cur.before(pts[i + 1].0) {
        house_fill(pts, i + 1, pts[i + 1].0, fuel)
    } else if fuel == 0 {
        Seq::empty()
    } else {
        seq![(cur, pts[i].1)].add(house_fill(pts, i, cur.shift_months_spec(1), (fuel - 1) as nat))
    }
}

/// Enough months of fuel to fill every gap: one more than the months between
/// the first and the last schedule point.
pub open spec fn house_fuel(pts: Seq<(Date, int)>) -> nat {
    if pts.len() == 0 {
        0nat
    } else {
        (pts[pts.len() - 1].0.month_index() - pts[0].0.month_index() + 1) as nat
    }
}

pub open spec fn schedule_rows_wf(ms: Seq<MortgageSchedule>) -> bool {
    &&& ms.len() <= 100_000
    &&& forall|i: int|
        0 <= i < ms.len() ==> ((#[trigger] ms[i]).date.valid() && 100 <= ms[i].date.year <= 9000
            && 0 <= ms[i].total_principal_paid <= AMOUNT_LIMIT)
    &&& forall|i: int, j: int|
        0 <= i <= j < ms.len() ==> (#[trigger] ms[i]).date.on_or_before((#[trigger] ms[j]).date)
}

/// The monthly `"House"` asset series imputed from a mortgage schedule: each
/// schedule point contributes its principal-paid-so-far divided by
/// `split_ratio` (in micro-units; a ratio of two is `2_000_000`), dated at
/// its month's first day and carried forward month by month until the next
/// point's month.
pub fn populate_housing_value(schedule: &Vec<MortgageSchedule>, split_ratio: i128) -> (r: Vec<
    Asset,
>)
    requires
        schedule_rows_wf(schedule@),
        1 <= split_ratio,
    ensures
        ({
            let pts = house_points(schedule@, split_ratio as int);
            let series = if schedule@.len() == 0 {
                Seq::<(Date, int)>::empty()
            } else {
                house_fill(pts, 0, pts[0].0, house_fuel(pts))
            };
            &&& r@.len() == series.len()
            &&& forall|i: int|
                0 <= i < r@.len() ==> ((#[trigger] r@[i]).transaction_date == series[i].0
                    && r@[i].amount as int == series[i].1 && r@[i].type_@ == "House"@ && r@[i].id
                    is None)
        }),
{
    let n = schedule.len();
    let mut out: Vec<Asset> = Vec::new();
    if n == 0 {
        return out;
    }
    let ghost pts = house_points(schedule@, split_ratio as int);
    let ghost fuel0 = house_fuel(pts);
    proof {
        assert(pts.len() == n);
        assert forall|a: int, b: int| 0 <= a <= b < n implies (#[trigger] pts[a]).0.month_index()
            <= (#[trigger] pts[b]).0.month_index() by {
            if schedule@[a].date.before(schedule@[b].date) {
                crate::date::lemma_before_month_index(schedule@[a].date, schedule@[b].date);
            }
        }
    }
    let mut i: usize = 0;
    let mut cur: Date = Date::new(schedule[0].date.year, schedule[0].date.month, 1);
    while i + 1 < n
        invariant
            schedule_rows_wf(schedule@),
            n == schedule@.len(),
            1 <= n,
            pts == house_points(schedule@, split_ratio as int),
            1 <= split_ratio,
            fuel0 == house_fuel(pts),
            forall|a: int, b: int|
                0 <= a <= b < n ==> (#[trigger] pts[a]).0.month_index() <= (
                #[trigger] pts[b]).0.month_index(),
            i < n,
            cur.valid(),
            cur.day == 1,
            100 * 12 <= cur.month_index() <= 9000 * 12 + 11,
            i + 1 < n ==> cur.month_index() <= pts[i + 1].0.month_index(),
            out@.len() == cur.month_index() - pts[0].0.month_index(),
            ({
                let series = house_fill(pts, 0, pts[0].0, fuel0);
                let rest = house_fill(pts, i as int, cur, (fuel0 - out@.len()) as nat);
                &&& series.len() == out@.len() + rest.len()
                &&& forall|q: int|
                    0 <= q < out@.len() ==> ((#[trigger] out@[q]).transaction_date == series[q].0
                        && out@[q].amount as int == series[q].1 && out@[q].type_@ == "House"@
                        && out@[q].id is None)
                &&& forall|q: int|
                    0 <= q < rest.len() ==> #[trigger] rest[q] == series[q + out@.len()]
            }),
        decreases n - i, 9000 * 12 + 12 - cur.month_index(),
    {
        let next_pt = Date::new(schedule[i + 1].date.year, schedule[i + 1].date.month, 1);
        proof {
            assert(pts[i + 1].0 == next_pt);
        }
        if !cur.is_before(&next_pt) {
            proof {
                assert(cur.month_index() == next_pt.month_index());
                assert(cur == next_pt);
            }
            i = i + 1;
            cur = next_pt;
        } else {
            proof {
                assert(cur.month_index() < next_pt.month_index()) by {
                    crate::date::lemma_before_month_index(cur, next_pt);
                }
                assert(pts[n - 1].0.month_index() >= pts[i + 1].0.month_index());
                assert(fuel0 - out@.len() >= 1);
                assert(0 <= schedule@[i as int].total_principal_paid * (SCALE as int)
                    <= AMOUNT_LIMIT * (SCALE as int)) by (nonlinear_arith)
                    requires
                        0 <= schedule@[i as int].total_principal_paid <= AMOUNT_LIMIT,
                        SCALE == 1_000_000,
                ;
            }
            let amount = crate::fixed::mul_div(
                schedule[i].total_principal_paid,
                SCALE,
                split_ratio,
            );
            let ghost out0 = out@;
            let ghost cur0 = cur;
            out.push(
                Asset {
                    id: None,
                    transaction_date: cur,
                    type_: String::from_str("House"),
                    amount,
                },
            );
            cur = cur.shift_months(1);
            proof {
                let series = house_fill(pts, 0, pts[0].0, fuel0);
                let rest0 = house_fill(pts, i as int, cur0, (fuel0 - out0.len()) as nat);
                let rest1 = house_fill(pts, i as int, cur, (fuel0 - out@.len()) as nat);
                assert(rest0 == seq![(cur0, pts[i as int].1)].add(rest1));
                assert(out@ =~= out0.push(out@[out0.len() as int]));
                assert(rest0[0] == (cur0, pts[i as int].1));
                assert(series[out0.len() as int] == (cur0, pts[i as int].1));
                assert(forall|q: int| 0 <= q < rest1.len() ==> #[trigger] rest1[q] == rest0[q + 1]);
            }
        }
    }
    proof {
        assert(house_fill(pts, i as int, cur, (fuel0 - out@.len()) as nat) =~= Seq::<(
            Date,
            int,
        )>::empty());
    }
    out
}

} // verus!
