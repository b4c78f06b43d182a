//! Portfolio reconstruction: turns a symbol's dated buy/sell trades plus the
//! stored price and exchange-rate history into a dense daily series of
//! {principal, quantity, net asset value, simple return}.

use vstd::prelude::*;

use crate::date::{days_in_month_spec, Date, MAX_YEAR, MIN_YEAR};
use crate::fixed::{lemma_tdiv_bounds, tdiv, SCALE};
use crate::strings::str_eq;

verus! {

/// Largest unit price and exchange rate accepted, in micro-units (a million
/// currency units).
pub const PRICE_LIMIT: i128 = 1_000_000_000_000;

/// Largest traded quantity accepted, in micro-units (a million units).
pub const QTY_LIMIT: i128 = 1_000_000_000_000;

/// Largest exchange rate accepted, in micro-units (ten thousand).
pub const FX_LIMIT: i128 = 10_000_000_000;

/// Most trades one symbol may carry.
pub const MAX_TRADES: usize = 10_000;

/// A buy or sell event for one instrument.
#[derive(Clone, Debug, PartialEq)]
pub struct Trade {
    pub date_purchased: Date,
    pub symbol: String,
    /// Unit price in the instrument's own currency, micro-units.
    pub price_each: i128,
    /// Quantity traded, micro-units.
    pub quantity: i128,
    /// `"buy"` adds to the position; anything else sells.
    pub trade_type: String,
}

/// One stored closing price for an instrument on a trading day.
#[derive(Clone, Debug, PartialEq)]
pub struct Stock {
    pub trade_date: Date,
    pub symbol: String,
    pub price: i128,
}

/// One stored exchange rate into the base currency on a trading day.
#[derive(Clone, Debug, PartialEq)]
pub struct ExchangeRate {
    pub trade_date: Date,
    pub symbol: String,
    pub price: i128,
}

/// One day of the reconstructed series.
#[derive(Clone, Debug, PartialEq)]
pub struct Portfolio {
    pub trade_date: Date,
    pub symbol: String,
    /// Cost basis in base currency, micro-units.
    pub principal: i128,
    /// Market value in base currency, micro-units.
    pub nav: i128,
    /// `(nav - principal) / principal` at `SCALE` scale; zero when the
    /// principal is zero.
    pub simple_returns: i128,
    /// Quantity held, micro-units.
    pub quantity: i128,
}

#[derive(Clone, Copy, PartialEq, Eq, Structural, Debug)]
pub enum StockError {
    /// No stored price within the lookback window for a needed day.
    MissingPrice,
    /// No stored exchange rate within the lookback window for a needed day.
    MissingExchangeRate,
}

/// A price table as the lookup reads it: dated amounts, in table order.
pub open spec fn stock_entries(s: Seq<Stock>) -> Seq<(Date, int)> {
    s.map_values(|x: Stock| (x.trade_date, x.price as int))
}

pub open spec fn rate_entries(s: Seq<ExchangeRate>) -> Seq<(Date, int)> {
    s.map_values(|x: ExchangeRate| (x.trade_date, x.price as int))
}

/// The first stored amount for exactly `d`, scanning from index `i` on.
pub open spec fn find_entry(tbl: Seq<(Date, int)>, d: Date, i: int) -> Option<int>
    decreases tbl.len() - i,
{
    if i < 0 || i >= tbl.len() {
        None
    } else if tbl[i].0 == d {
        Some(tbl[i].1)
    } else {
        find_entry(tbl, d, i + 1)
    }
}

/// Backward fill: the stored amount on `d`, or on the nearest earlier day, up
/// to `lookback` days back.
pub open spec fn lookback_entry(tbl: Seq<(Date, int)>, d: Date, lookback: nat) -> Option<int>
    decreases lookback,
{
    match find_entry(tbl, d, 0) {
        Some(p) => Some(p),
        None => {
            if lookback == 0 || (d.year == MIN_YEAR && d.month == 1 && d.day == 1) {
                None
            } else {
                lookback_entry(tbl, d.prev_day_spec(), (lookback - 1) as nat)
            }
        },
    }
}

/// The stored price for `d` exactly, if any.
fn find_stock_exact(prices: &Vec<Stock>, d: &Date) -> (r: Option<i128>)
    ensures
        match r {
            Some(p) => find_entry(stock_entries(prices@), *d, 0) == Some(p as int),
            None => find_entry(stock_entries(prices@), *d, 0) is None,
        },
{
    let n = prices.len();
    let mut i: usize = 0;
    while i < n
        invariant
            n == prices@.len(),
            i <= n,
            find_entry(stock_entries(prices@), *d, 0) == find_entry(
                stock_entries(prices@),
                *d,
                i as int,
            ),
        decreases n - i,
    {
        if prices[i].trade_date == *d {
            return Some(prices[i].price);
        }
        i = i + 1;
    }
    None
}

fn find_rate_exact(rates: &Vec<ExchangeRate>, d: &Date) -> (r: Option<i128>)
    ensures
        match r {
            Some(p) => find_entry(rate_entries(rates@), *d, 0) == Some(p as int),
            None => find_entry(rate_entries(rates@), *d, 0) is None,
        },
{
    let n = rates.len();
    let mut i: usize = 0;
    while i < n
        invariant
            n == rates@.len(),
            i <= n,
            find_entry(rate_entries(rates@), *d, 0) == find_entry(
                rate_entries(rates@),
                *d,
                i as int,
            ),
        decreases n - i,
    {
        if rates[i].trade_date == *d {
            return Some(rates[i].price);
        }
        i = i + 1;
    }
    None
}

/// Any amount the backward scan returns is one stored in the table.
pub proof fn lemma_find_in_table(tbl: Seq<(Date, int)>, d: Date, i: int)
    requires
        find_entry(tbl, d, i) is Some,
    ensures
        exists|j: int| 0 <= j < tbl.len() && tbl[j].1 == find_entry(tbl, d, i).unwrap(),
    decreases tbl.len() - i,
{
    if 0 <= i < tbl.len() {
        if tbl[i].0 == d {
            assert(tbl[i].1 == find_entry(tbl, d, i).unwrap());
        } else {
            lemma_find_in_table(tbl, d, i + 1);
        }
    }
}

pub proof fn lemma_lookback_in_table(tbl: Seq<(Date, int)>, d: Date, lookback: nat)
    requires
        lookback_entry(tbl, d, lookback) is Some,
    ensures
        exists|j: int| 0 <= j < tbl.len() && tbl[j].1 == lookback_entry(tbl, d, lookback).unwrap(),
    decreases lookback,
{
    if find_entry(tbl, d, 0) is Some {
        lemma_find_in_table(tbl, d, 0);
    } else {
        lemma_lookback_in_table(tbl, d.prev_day_spec(), (lookback - 1) as nat);
    }
}

/// The most recent stored price on or before `trade_date`, walking backward
/// one day at a time, at most `max_lookback` days.
pub fn get_stock_price(prices: &Vec<Stock>, trade_date: &Date, max_lookback: usize) -> (r: Option<
    i128,
>)
    requires
        trade_date.valid(),
    ensures
        match r {
            Some(p) => lookback_entry(stock_entries(prices@), *trade_date, max_lookback as nat)
                == Some(p as int),
            None => lookback_entry(stock_entries(prices@), *trade_date, max_lookback as nat)
                is None,
        },
{
    let mut d: Date = *trade_date;
    let mut left: usize = max_lookback;
    loop
        invariant
            d.valid(),
            left <= max_lookback,
            lookback_entry(stock_entries(prices@), *trade_date, max_lookback as nat)
                == lookback_entry(stock_entries(prices@), d, left as nat),
        decreases left,
    {
        if let Some(p) = find_stock_exact(prices, &d) {
            return Some(p);
        }
        if left == 0 || (d.year == MIN_YEAR && d.month == 1 && d.day == 1) {
            return None;
        }
        d = d.prev_day();
        left = left - 1;
    }
}

/// The most recent stored exchange rate on or before `trade_date`, walking
/// backward one day at a time, at most `max_lookback` days.
pub fn get_currency_rate(rates: &Vec<ExchangeRate>, trade_date: &Date, max_lookback: usize) -> (r:
    Option<i128>)
    requires
        trade_date.valid(),
    ensures
        match r {
            Some(p) => lookback_entry(rate_entries(rates@), *trade_date, max_lookback as nat)
                == Some(p as int),
            None => lookback_entry(rate_entries(rates@), *trade_date, max_lookback as nat) is None,
        },
{
    let mut d: Date = *trade_date;
    let mut left: usize = max_lookback;
    loop
        invariant
            d.valid(),
            left <= max_lookback,
            lookback_entry(rate_entries(rates@), *trade_date, max_lookback as nat)
                == lookback_entry(rate_entries(rates@), d, left as nat),
        decreases left,
    {
        if let Some(p) = find_rate_exact(rates, &d) {
            return Some(p);
        }
        if left == 0 || (d.year == MIN_YEAR && d.month == 1 && d.day == 1) {
            return None;
        }
        d = d.prev_day();
        left = left - 1;
    }
}

pub open spec fn is_buy(t: Trade) -> bool {
    t.trade_type@ == "buy"@
}

/// The exchange rate a trade settles at: backward fill from its date.
pub open spec fn trade_fx(rates: Seq<ExchangeRate>, t: Trade, lb: nat) -> int {
    lookback_entry(rate_entries(rates), t.date_purchased, lb).unwrap()
}

/// Cost of one trade in base currency: unit price times quantity times
/// exchange rate, rescaled after each multiplication.
pub open spec fn trade_cost_spec(t: Trade, fx: int) -> int {
    tdiv(tdiv(t.price_each * t.quantity, SCALE as int) * fx, SCALE as int)
}

/// Cost basis after the first `k` trades: buys add their cost, sells remove
/// theirs.
pub open spec fn principal_after(trades: Seq<Trade>, rates: Seq<ExchangeRate>, lb: nat, k: int) -> int
    decreases k,
{
    if k <= 0 {
        0
    } else {
        let t = trades[k - 1];
        let c = trade_cost_spec(t, trade_fx(rates, t, lb));
        principal_after(trades, rates, lb, k - 1) + if is_buy(t) {
            c
        } else {
            -c
        }
    }
}

/// Quantity held after the first `k` trades.
pub open spec fn quantity_after(trades: Seq<Trade>, k: int) -> int
    decreases k,
{
    if k <= 0 {
        0
    } else {
        quantity_after(trades, k - 1) + if is_buy(trades[k - 1]) {
            trades[k - 1].quantity as int
        } else {
            -(trades[k - 1].quantity as int)
        }
    }
}

/// How many of the first `k` trades fall on or before day `d`.
pub open spec fn count_through(trades: Seq<Trade>, d: Date, k: int) -> int
    decreases k,
{
    if k <= 0 {
        0
    } else {
        count_through(trades, d, k - 1) + if trades[k - 1].date_purchased.on_or_before(d) {
            1int
        } else {
            0
        }
    }
}

/// With all trades before index `j` on or before `d` and all from `j` on
/// after `d`, exactly `j` trades fall on or before `d`.
pub proof fn lemma_count_cut(trades: Seq<Trade>, d: Date, j: int, k: int)
    requires
        0 <= j <= trades.len(),
        0 <= k <= trades.len(),
        forall|i: int| 0 <= i < j ==> (#[trigger] trades[i]).date_purchased.on_or_before(d),
        forall|i: int|
            j <= i < trades.len() ==> !(#[trigger] trades[i]).date_purchased.on_or_before(d),
    ensures
        count_through(trades, d, k) == if k <= j {
            k
        } else {
            j
        },
    decreases k,
{
    if k > 0 {
        lemma_count_cut(trades, d, j, k - 1);
    }
}

/// Day `k` of the daily walk that starts at `d`.
pub open spec fn iter_days(d: Date, k: nat) -> Date
    decreases k,
{
    if k == 0 {
        d
    } else {
        iter_days(d, (k - 1) as nat).next_day_spec()
    }
}

/// From a valid start, every day of the walk is valid and the walk never
/// moves backward.
pub proof fn lemma_iter_days_monotone(d: Date, i: nat, j: nat)
    requires
        d.valid(),
        i <= j,
    ensures
        iter_days(d, i).valid(),
        iter_days(d, j).valid(),
        iter_days(d, i).on_or_before(iter_days(d, j)),
    decreases j,
{
    if j == 0 {
    } else {
        if i == j {
            lemma_iter_days_monotone(d, (j - 1) as nat, (j - 1) as nat);
        } else {
            lemma_iter_days_monotone(d, i, (j - 1) as nat);
        }
        crate::date::lemma_next_day_step(iter_days(d, (j - 1) as nat));
    }
}

/// Each day of the walk strictly precedes every later one that has not hit
/// the greatest handled date: no date is emitted twice.
pub proof fn lemma_iter_days_strict(d: Date, i: nat, j: nat)
    requires
        d.valid(),
        i < j,
        !iter_days(d, j).is_max_date(),
    ensures
        iter_days(d, i).before(iter_days(d, j)),
    decreases j,
{
    lemma_iter_days_monotone(d, (j - 1) as nat, (j - 1) as nat);
    crate::date::lemma_next_day_step(iter_days(d, (j - 1) as nat));
    if i + 1 < j {
        if iter_days(d, (j - 1) as nat).is_max_date() {
            assert(iter_days(d, j) == iter_days(d, (j - 1) as nat));
        }
        lemma_iter_days_strict(d, i, (j - 1) as nat);
    } else {
        if iter_days(d, i).is_max_date() {
            assert(iter_days(d, j) == iter_days(d, i));
        }
    }
}

/// Net asset value: quantity times price times exchange rate, rescaled after
/// each multiplication.
pub open spec fn nav_spec(q: int, price: int, fx: int) -> int {
    tdiv(tdiv(q * price, SCALE as int) * fx, SCALE as int)
}

/// `(nav - principal) / principal` at `SCALE` scale, truncated toward zero;
/// zero by definition when the principal is zero.
pub open spec fn simple_return_spec(nav: int, principal: int) -> int {
    if principal == 0 {
        0
    } else if principal > 0 {
        tdiv((nav - principal) * (SCALE as int), principal)
    } else {
        -tdiv((nav - principal) * (SCALE as int), -principal)
    }
}

pub open spec fn trades_wf(trades: Seq<Trade>) -> bool {
    &&& trades.len() <= MAX_TRADES
    &&& forall|i: int|
        0 <= i < trades.len() ==> ((#[trigger] trades[i]).date_purchased.valid() && 0
            <= trades[i].price_each <= PRICE_LIMIT && 0 <= trades[i].quantity <= QTY_LIMIT)
    &&& forall|i: int, j: int|
        0 <= i <= j < trades.len() ==> (#[trigger] trades[i]).date_purchased.on_or_before(
            (#[trigger] trades[j]).date_purchased,
        )
}

pub open spec fn stocks_wf(s: Seq<Stock>) -> bool {
    forall|i: int| 0 <= i < s.len() ==> 0 <= (#[trigger] s[i]).price <= PRICE_LIMIT
}

pub open spec fn rates_wf(s: Seq<ExchangeRate>) -> bool {
    forall|i: int| 0 <= i < s.len() ==> 0 <= (#[trigger] s[i]).price <= FX_LIMIT
}

/// Every price the reconstruction needs can be backward-filled: an exchange
/// rate at each trade date, and a price and a rate at each day of the walk
/// from the first trade to the boundary.
pub open spec fn prices_available(
    trades: Seq<Trade>,
    stocks: Seq<Stock>,
    rates: Seq<ExchangeRate>,
    lb: nat,
    end: Date,
) -> bool {
    let first = trades[0].date_purchased;
    &&& forall|i: int|
        0 <= i < trades.len() ==> lookback_entry(
            rate_entries(rates),
            (#[trigger] trades[i]).date_purchased,
            lb,
        ) is Some
    &&& forall|i: nat|
        (#[trigger] iter_days(first, i)).before(end) ==> (lookback_entry(
            stock_entries(stocks),
            iter_days(first, i),
            lb,
        ) is Some && lookback_entry(rate_entries(rates), iter_days(first, i), lb) is Some)
}

/// One day of the series carries exactly the reconstructed state for its
/// date: the cost basis and quantity after every trade on or before that day,
/// and the value and return from that day's backward-filled prices.
pub open spec fn point_matches(
    symbol: Seq<char>,
    trades: Seq<Trade>,
    stocks: Seq<Stock>,
    rates: Seq<ExchangeRate>,
    lb: nat,
    pt: Portfolio,
) -> bool {
    let d = pt.trade_date;
    let cnt = count_through(trades, d, trades.len() as int);
    let p = principal_after(trades, rates, lb, cnt);
    let q = quantity_after(trades, cnt);
    let price = lookback_entry(stock_entries(stocks), d, lb).unwrap();
    let fx = lookback_entry(rate_entries(rates), d, lb).unwrap();
    let nav = nav_spec(q, price, fx);
    &&& pt.symbol@ == symbol
    &&& pt.principal as int == p
    &&& pt.quantity as int == q
    &&& pt.nav as int == nav
    &&& pt.simple_returns as int == simple_return_spec(nav, p)
}

/// The whole series: one point per calendar day from the first trade date to
/// the boundary (exclusive), each carrying that day's reconstructed state.
pub open spec fn portfolio_matches(
    symbol: Seq<char>,
    trades: Seq<Trade>,
    stocks: Seq<Stock>,
    rates: Seq<ExchangeRate>,
    lb: nat,
    end: Date,
    pts: Seq<Portfolio>,
) -> bool {
    let first = trades[0].date_purchased;
    &&& (pts.len() > 0) == first.before(end)
    &&& forall|i: int|
        0 <= i < pts.len() ==> (#[trigger] pts[i]).trade_date == iter_days(first, i as nat)
    &&& forall|i: int| 0 <= i < pts.len() ==> (#[trigger] pts[i]).trade_date.before(end)
    &&& (pts.len() > 0 ==> !iter_days(first, pts.len() as nat).before(end))
    &&& forall|i: int|
        0 <= i < pts.len() ==> point_matches(symbol, trades, stocks, rates, lb, #[trigger] pts[i])
}

/// Two days agreeing on which trades fall on or before them count the same
/// number of trades.
pub proof fn lemma_count_equal(trades: Seq<Trade>, d1: Date, d2: Date, k: int)
    requires
        0 <= k <= trades.len(),
        forall|i: int|
            0 <= i < trades.len() ==> ((#[trigger] trades[i]).date_purchased.on_or_before(d1)
                == trades[i].date_purchased.on_or_before(d2)),
    ensures
        count_through(trades, d1, k) == count_through(trades, d2, k),
    decreases k,
{
    if k > 0 {
        lemma_count_equal(trades, d1, d2, k - 1);
    }
}

/// Law: the daily series is date-dense with no gaps and no repeats. Each
/// point is dated exactly one day after the point before it, and any two
/// points carry distinct, strictly increasing dates: every date in the range
/// appears exactly once.
pub proof fn lemma_series_date_dense(
    symbol: Seq<char>,
    trades: Seq<Trade>,
    stocks: Seq<Stock>,
    rates: Seq<ExchangeRate>,
    lb: nat,
    end: Date,
    pts: Seq<Portfolio>,
    i: int,
    j: int,
)
    requires
        trades.len() >= 1,
        trades_wf(trades),
        end.valid(),
        portfolio_matches(symbol, trades, stocks, rates, lb, end, pts),
        0 <= i < j < pts.len(),
    ensures
        j == i + 1 ==> pts[j].trade_date == pts[i].trade_date.next_day_spec(),
        pts[i].trade_date.before(pts[j].trade_date),
        pts[i].trade_date != pts[j].trade_date,
{
    let first = trades[0].date_purchased;
    let dj = iter_days(first, j as nat);
    assert(pts[j].trade_date == dj);
    assert(dj.before(end));
    if dj.is_max_date() {
        assert(end.year == MAX_YEAR && end.month == 12);
        assert(days_in_month_spec(MAX_YEAR as int, 12) == 31);
        assert(false);
    }
    lemma_iter_days_strict(first, i as nat, j as nat);
}

/// Law: on a day with no trade, the held quantity and the cost basis equal
/// those of the day before: the most recent trade state is carried forward.
pub proof fn lemma_forward_fill(
    symbol: Seq<char>,
    trades: Seq<Trade>,
    stocks: Seq<Stock>,
    rates: Seq<ExchangeRate>,
    lb: nat,
    end: Date,
    pts: Seq<Portfolio>,
    i: int,
)
    requires
        trades.len() >= 1,
        trades_wf(trades),
        end.valid(),
        portfolio_matches(symbol, trades, stocks, rates, lb, end, pts),
        1 <= i < pts.len(),
        forall|q: int|
            0 <= q < trades.len() ==> (#[trigger] trades[q]).date_purchased
                != pts[i].trade_date,
    ensures
        pts[i].quantity == pts[i - 1].quantity,
        pts[i].principal == pts[i - 1].principal,
{
    let first = trades[0].date_purchased;
    let dprev = iter_days(first, (i - 1) as nat);
    let d = iter_days(first, i as nat);
    lemma_iter_days_monotone(first, (i - 1) as nat, i as nat);
    crate::date::lemma_next_day_step(dprev);
    assert(d == dprev.next_day_spec());
    assert forall|q: int|
        0 <= q < trades.len() implies ((#[trigger] trades[q]).date_purchased.on_or_before(dprev)
        == trades[q].date_purchased.on_or_before(d)) by {
        if trades[q].date_purchased.on_or_before(d) {
            crate::date::lemma_no_date_between(trades[q].date_purchased, dprev);
        }
    }
    lemma_count_equal(trades, dprev, d, trades.len() as int);
}

/// Law: the reconstruction is deterministic. Two series that both satisfy the
/// reconstruction contract for the same inputs are identical, field by field.
pub proof fn lemma_reconstruction_deterministic(
    symbol: Seq<char>,
    trades: Seq<Trade>,
    stocks: Seq<Stock>,
    rates: Seq<ExchangeRate>,
    lb: nat,
    end: Date,
    v1: Seq<Portfolio>,
    v2: Seq<Portfolio>,
)
    requires
        trades.len() >= 1,
        portfolio_matches(symbol, trades, stocks, rates, lb, end, v1),
        portfolio_matches(symbol, trades, stocks, rates, lb, end, v2),
    ensures
        v1.len() == v2.len(),
        forall|i: int|
            0 <= i < v1.len() ==> ((#[trigger] v1[i]).trade_date == v2[i].trade_date
                && v1[i].symbol@ == v2[i].symbol@ && v1[i].principal == v2[i].principal
                && v1[i].quantity == v2[i].quantity && v1[i].nav == v2[i].nav
                && v1[i].simple_returns == v2[i].simple_returns),
{
    let first = trades[0].date_purchased;
    if v1.len() < v2.len() {
        assert(v2[v1.len() as int].trade_date.before(end));
        assert(false);
    }
    if v2.len() < v1.len() {
        assert(v1[v2.len() as int].trade_date.before(end));
        assert(false);
    }
}

/// Law: with a single buy trade and no sells, every day of the series holds
/// exactly the bought quantity and the trade's cost as principal, and a day
/// whose market value equals that cost — in particular the trade date itself,
/// when the stored price there is the trade price — shows a simple return of
/// zero; afterwards the return moves only with the backward-filled prices.
pub proof fn lemma_single_buy(
    symbol: Seq<char>,
    trades: Seq<Trade>,
    stocks: Seq<Stock>,
    rates: Seq<ExchangeRate>,
    lb: nat,
    end: Date,
    pts: Seq<Portfolio>,
    i: int,
)
    requires
        trades.len() == 1,
        is_buy(trades[0]),
        trades_wf(trades),
        end.valid(),
        portfolio_matches(symbol, trades, stocks, rates, lb, end, pts),
        0 <= i < pts.len(),
    ensures
        pts[i].quantity == trades[0].quantity,
        pts[i].principal as int == trade_cost_spec(trades[0], trade_fx(rates, trades[0], lb)),
        pts[i].nav == pts[i].principal ==> pts[i].simple_returns == 0,
        i == 0 && lookback_entry(stock_entries(stocks), trades[0].date_purchased, lb) == Some(
            trades[0].price_each as int,
        ) ==> pts[0].simple_returns == 0,
{
    let first = trades[0].date_purchased;
    lemma_iter_days_monotone(first, 0, i as nat);
    assert(pts[i].trade_date == iter_days(first, i as nat));
    assert(trades[0].date_purchased.on_or_before(pts[i].trade_date));
    assert(count_through(trades, pts[i].trade_date, 0) == 0);
    assert(count_through(trades, pts[i].trade_date, 1) == 1);
    assert(principal_after(trades, rates, lb, 0) == 0);
    assert(quantity_after(trades, 0) == 0);
    let p = principal_after(trades, rates, lb, 1);
    assert(p == trade_cost_spec(trades[0], trade_fx(rates, trades[0], lb)));
    if pts[i].nav == pts[i].principal {
        assert(simple_return_spec(pts[i].nav as int, pts[i].nav as int) == 0);
    }
    if i == 0 && lookback_entry(stock_entries(stocks), first, lb) == Some(
        trades[0].price_each as int,
    ) {
        let fx = lookback_entry(rate_entries(rates), first, lb).unwrap();
        assert(trades[0].quantity as int * trades[0].price_each as int == trades[0].price_each
            as int * trades[0].quantity as int) by (nonlinear_arith);
        assert(nav_spec(quantity_after(trades, 1), trades[0].price_each as int, fx) == p);
        assert(simple_return_spec(p, p) == 0);
    }
}

pub open spec fn str_views(v: Seq<String>) -> Seq<Seq<char>> {
    v.map_values(|s: String| s@)
}

pub open spec fn contains_view(s: Seq<Seq<char>>, x: Seq<char>) -> bool {
    exists|i: int| 0 <= i < s.len() && s[i] == x
}

/// The candidates, in order of first appearance, that the known list does
/// not hold: the symbols a sync still has to look up and record.
pub open spec fn missing_spec(cands: Seq<Seq<char>>, known: Seq<Seq<char>>, k: int) -> Seq<
    Seq<char>,
>
    decreases k,
{
    if k <= 0 {
        Seq::empty()
    } else {
        let prev = missing_spec(cands, known, k - 1);
        let c = cands[k - 1];
        if !contains_view(known, c) && !contains_view(prev, c) {
            prev.push(c)
        } else {
            prev
        }
    }
}

fn vec_contains_string(v: &Vec<String>, x: &String) -> (r: bool)
    ensures
        r == contains_view(str_views(v@), x@),
{
    let n = v.len();
    let mut i: usize = 0;
    while i < n
        invariant
            n == v@.len(),
            i <= n,
            forall|j: int| 0 <= j < i ==> (#[trigger] v@[j])@ != x@,
        decreases n - i,
    {
        if String::eq(&v[i], x) {
            proof {
                assert(str_views(v@)[i as int] == v@[i as int]@);
            }
            return true;
        }
        i = i + 1;
    }
    proof {
        assert forall|j: int| 0 <= j < str_views(v@).len() implies str_views(v@)[j] != x@ by {
            assert(str_views(v@)[j] == v@[j]@);
        }
    }
    false
}

/// The distinct symbols among the candidates that the known list lacks, in
/// order of first appearance: what a symbol-table sync must still add.
pub fn missing_symbols(candidates: &Vec<String>, known: &Vec<String>) -> (r: Vec<String>)
    ensures
        str_views(r@) == missing_spec(
            str_views(candidates@),
            str_views(known@),
            candidates@.len() as int,
        ),
{
    let n = candidates.len();
    let mut out: Vec<String> = Vec::new();
    let mut i: usize = 0;
    while i < n
        invariant
            n == candidates@.len(),
            i <= n,
            str_views(out@) == missing_spec(
                str_views(candidates@),
                str_views(known@),
                i as int,
            ),
        decreases n - i,
    {
        proof {
            assert(str_views(candidates@)[i as int] == candidates@[i as int]@);
        }
        let c = &candidates[i];
        if !vec_contains_string(known, c) && !vec_contains_string(&out, c) {
            out.push(c.clone());
            proof {
                assert(str_views(out@) =~= missing_spec(
                    str_views(candidates@),
                    str_views(known@),
                    i as int,
                ).push(candidates@[i as int]@));
            }
        }
        i = i + 1;
    }
    out
}

/// The latest date among the first `k` history entries; what a sync records
/// as the last processed day.
pub open spec fn latest_date<T>(hs: Seq<(Date, T)>, k: int) -> Option<Date>
    decreases k,
{
    if k <= 0 {
        None
    } else {
        let prev = latest_date(hs, k - 1);
        match prev {
            None => Some(hs[k - 1].0),
            Some(d) => if d.before(hs[k - 1].0) {
                Some(hs[k - 1].0)
            } else {
                Some(d)
            },
        }
    }
}

/// A fetched price history as storable rows: one `Stock` row per entry, all
/// under the given symbol, plus the latest entry date for the sync bookmark.
pub fn process_stock_history(symbol: &String, history: &crate::alphavantage::AlphaVantageStockResult)
    -> (r: (Vec<Stock>, Option<Date>))
    ensures
        r.0@.len() == history.results@.len(),
        forall|i: int|
            0 <= i < r.0@.len() ==> ((#[trigger] r.0@[i]).trade_date == history.results@[i].0
                && r.0@[i].symbol@ == symbol@ && r.0@[i].price == history.results@[i].1.close),
        r.1 == latest_date(history.results@, history.results@.len() as int),
{
    let n = history.results.len();
    let mut rows: Vec<Stock> = Vec::new();
    let mut last: Option<Date> = None;
    let mut i: usize = 0;
    while i < n
        invariant
            n == history.results@.len(),
            i <= n,
            rows@.len() == i,
            forall|j: int|
                0 <= j < i ==> ((#[trigger] rows@[j]).trade_date == history.results@[j].0
                    && rows@[j].symbol@ == symbol@ && rows@[j].price == history.results@[j].1.close),
            last == latest_date(history.results@, i as int),
        decreases n - i,
    {
        let entry_date = history.results[i].0;
        let close = history.results[i].1.close;
        rows.push(Stock { trade_date: entry_date, symbol: symbol.clone(), price: close });
        last = match last {
            None => Some(entry_date),
            Some(d) => if d.is_before(&entry_date) {
                Some(entry_date)
            } else {
                Some(d)
            },
        };
        i = i + 1;
    }
    (rows, last)
}

/// A fetched exchange-rate history as storable rows, with the latest entry
/// date for the sync bookmark.
pub fn process_currency_history(
    symbol: &String,
    history: &crate::alphavantage::AlphaVantageCurrencyResult,
) -> (r: (Vec<ExchangeRate>, Option<Date>))
    ensures
        r.0@.len() == history.results@.len(),
        forall|i: int|
            0 <= i < r.0@.len() ==> ((#[trigger] r.0@[i]).trade_date == history.results@[i].0
                && r.0@[i].symbol@ == symbol@ && r.0@[i].price == history.results@[i].1.close),
        r.1 == latest_date(history.results@, history.results@.len() as int),
{
    let n = history.results.len();
    let mut rows: Vec<ExchangeRate> = Vec::new();
    let mut last: Option<Date> = None;
    let mut i: usize = 0;
    while i < n
        invariant
            n == history.results@.len(),
            i <= n,
            rows@.len() == i,
            forall|j: int|
                0 <= j < i ==> ((#[trigger] rows@[j]).trade_date == history.results@[j].0
                    && rows@[j].symbol@ == symbol@ && rows@[j].price == history.results@[j].1.close),
            last == latest_date(history.results@, i as int),
        decreases n - i,
    {
        let entry_date = history.results[i].0;
        let close = history.results[i].1.close;
        rows.push(ExchangeRate { trade_date: entry_date, symbol: symbol.clone(), price: close });
        last = match last {
            None => Some(entry_date),
            Some(d) => if d.is_before(&entry_date) {
                Some(entry_date)
            } else {
                Some(d)
            },
        };
        i = i + 1;
    }
    (rows, last)
}

/// Reconstructed per-trade state, consumed by the daily expansion.
#[derive(Clone, Copy)]
struct TradeState {
    date: Date,
    principal: i128,
    quantity: i128,
}

/// One trade's cost in base currency.
fn trade_cost(t: &Trade, fx: i128) -> (r: i128)
    requires
        0 <= t.price_each <= PRICE_LIMIT,
        0 <= t.quantity <= QTY_LIMIT,
        0 <= fx <= FX_LIMIT,
    ensures
        r == trade_cost_spec(*t, fx as int),
        0 <= r <= 10_000_000_000_000_000_000_000,
{
    proof {
        assert(0 <= t.price_each * t.quantity <= 1_000_000_000_000_000_000
            * 1_000_000) by (nonlinear_arith)
            requires
                0 <= t.price_each <= PRICE_LIMIT,
                0 <= t.quantity <= QTY_LIMIT,
                PRICE_LIMIT == 1_000_000_000_000,
                QTY_LIMIT == 1_000_000_000_000,
        ;
    }
    let gross = crate::fixed::mul_div(t.price_each, t.quantity, SCALE);
    proof {
        crate::fixed::lemma_tdiv_scaled_bound(
            t.price_each as int * t.quantity as int,
            SCALE as int,
            1_000_000_000_000_000_000,
        );
        assert(0 <= gross * fx <= 10_000_000_000_000_000_000_000 * 1_000_000) by (nonlinear_arith)
            requires
                0 <= gross <= 1_000_000_000_000_000_000,
                0 <= fx <= 10_000_000_000,
        ;
        lemma_tdiv_bounds(t.price_each as int * t.quantity as int, SCALE as int);
    }
    let r = crate::fixed::mul_div(gross, fx, SCALE);
    proof {
        crate::fixed::lemma_tdiv_scaled_bound(
            gross as int * fx as int,
            SCALE as int,
            10_000_000_000_000_000_000_000,
        );
        lemma_tdiv_bounds(gross as int * fx as int, SCALE as int);
    }
    r
}

/// Net asset value of a held quantity at a day's price and rate.
fn nav_value(q: i128, price: i128, fx: i128) -> (r: i128)
    requires
        -10_000_000_000_000_000 <= q <= 10_000_000_000_000_000,
        0 <= price <= PRICE_LIMIT,
        0 <= fx <= FX_LIMIT,
    ensures
        r == nav_spec(q as int, price as int, fx as int),
        -100_000_000_000_000_000_000_000_000 <= r <= 100_000_000_000_000_000_000_000_000,
{
    proof {
        assert(-10_000_000_000_000_000_000_000 * 1_000_000 <= q * price
            <= 10_000_000_000_000_000_000_000 * 1_000_000) by (nonlinear_arith)
            requires
                -10_000_000_000_000_000 <= q <= 10_000_000_000_000_000,
                0 <= price <= 1_000_000_000_000,
        ;
    }
    let gross = crate::fixed::mul_div(q, price, SCALE);
    proof {
        crate::fixed::lemma_tdiv_scaled_bound(
            q as int * price as int,
            SCALE as int,
            10_000_000_000_000_000_000_000,
        );
        assert(-100_000_000_000_000_000_000_000_000 * 1_000_000 <= gross * fx
            <= 100_000_000_000_000_000_000_000_000 * 1_000_000) by (nonlinear_arith)
            requires
                -10_000_000_000_000_000_000_000 <= gross <= 10_000_000_000_000_000_000_000,
                0 <= fx <= 10_000_000_000,
        ;
    }
    let r = crate::fixed::mul_div(gross, fx, SCALE);
    proof {
        crate::fixed::lemma_tdiv_scaled_bound(
            gross as int * fx as int,
            SCALE as int,
            100_000_000_000_000_000_000_000_000,
        );
    }
    r
}

/// The daily portfolio series for one symbol.
///
/// The first pass folds the trades, in date order, into a running cost basis
/// and quantity, settling each trade at the backward-filled exchange rate of
/// its own date. The second pass walks every calendar day from the first
/// trade date to `end` (exclusive), carries the latest state forward across
/// non-trade days — on a day with several trades the last state wins — and
/// prices the position with that day's backward-filled price and rate.
///
/// A price or rate that cannot be backward-filled within `max_lookback` days
/// fails this symbol's run with a typed error; nothing is silently defaulted.
pub fn calculate_portfolio(
    symbol: &String,
    trades: &Vec<Trade>,
    stocks: &Vec<Stock>,
    rates: &Vec<ExchangeRate>,
    end: &Date,
    max_lookback: usize,
) -> (r: Result<Vec<Portfolio>, StockError>)
    requires
        1 <= trades@.len(),
        trades_wf(trades@),
        stocks_wf(stocks@),
        rates_wf(rates@),
        end.valid(),
    ensures
        (r is Ok) == prices_available(trades@, stocks@, rates@, max_lookback as nat, *end),
        match r {
            Ok(v) => portfolio_matches(
                symbol@,
                trades@,
                stocks@,
                rates@,
                max_lookback as nat,
                *end,
                v@,
            ),
            Err(e) => true,
        },
{
    let ghost lb = max_lookback as nat;
    let n = trades.len();
    let mut states: Vec<TradeState> = Vec::new();
    let mut principal: i128 = 0;
    let mut quantity: i128 = 0;
    let mut k: usize = 0;
    while k < n
        invariant
            n == trades@.len(),
            1 <= n,
            trades_wf(trades@),
            rates_wf(rates@),
            lb == max_lookback as nat,
            k <= n,
            states@.len() == k,
            principal as int == principal_after(trades@, rates@, lb, k as int),
            quantity as int == quantity_after(trades@, k as int),
            -(k * 10_000_000_000_000_000_000_000) <= principal <= k
                * 10_000_000_000_000_000_000_000,
            -(k * QTY_LIMIT) <= quantity <= k * QTY_LIMIT,
            forall|j: int|
                0 <= j < k ==> lookback_entry(
                    rate_entries(rates@),
                    (#[trigger] trades@[j]).date_purchased,
                    lb,
                ) is Some,
            forall|j: int|
                0 <= j < k ==> ((#[trigger] states@[j]).date == trades@[j].date_purchased
                    && states@[j].principal as int == principal_after(trades@, rates@, lb, j + 1)
                    && states@[j].quantity as int == quantity_after(trades@, j + 1) && -(
                10_000_000_000_000_000_000_000 * (MAX_TRADES as int)) <= states@[j].principal
                    <= 10_000_000_000_000_000_000_000 * (MAX_TRADES as int) && -(QTY_LIMIT * (
                MAX_TRADES as int)) <= states@[j].quantity <= QTY_LIMIT * (MAX_TRADES as int)),
        decreases n - k,
    {
        let t = &trades[k];
        let fx = match get_currency_rate(rates, &t.date_purchased, max_lookback) {
            Some(x) => x,
            None => {
                proof {
                    assert(!prices_available(trades@, stocks@, rates@, lb, *end)) by {
                        if prices_available(trades@, stocks@, rates@, lb, *end) {
                            assert(lookback_entry(
                                rate_entries(rates@),
                                trades@[k as int].date_purchased,
                                lb,
                            ) is Some);
                        }
                    }
                }
                return Err(StockError::MissingExchangeRate);
            },
        };
        proof {
            lemma_lookback_in_table(rate_entries(rates@), t.date_purchased, lb);
            assert(0 <= fx <= FX_LIMIT);
            assert((k + 1) * 10_000_000_000_000_000_000_000 == k * 10_000_000_000_000_000_000_000
                + 10_000_000_000_000_000_000_000) by (nonlinear_arith);
            assert((k + 1) * QTY_LIMIT == k * QTY_LIMIT + QTY_LIMIT) by (nonlinear_arith);
            assert(k * 10_000_000_000_000_000_000_000 <= (MAX_TRADES as int)
                * 10_000_000_000_000_000_000_000 && k * QTY_LIMIT <= (MAX_TRADES as int)
                * QTY_LIMIT) by (nonlinear_arith)
                requires
                    0 <= k <= MAX_TRADES,
            ;
        }
        let c = trade_cost(t, fx);
        if str_eq(t.trade_type.as_str(), "buy") {
            principal = principal + c;
            quantity = quantity + t.quantity;
        } else {
            principal = principal - c;
            quantity = quantity - t.quantity;
        }
        states.push(TradeState { date: t.date_purchased, principal, quantity });
        k = k + 1;
    }
    let first: Date = trades[0].date_purchased;
    let mut out: Vec<Portfolio> = Vec::new();
    let mut current: Date = first;
    let mut j: usize = 0;
    while current.is_before(end)
        invariant
            n == trades@.len(),
            1 <= n,
            trades_wf(trades@),
            stocks_wf(stocks@),
            rates_wf(rates@),
            end.valid(),
            lb == max_lookback as nat,
            first == trades@[0].date_purchased,
            states@.len() == n,
            forall|q: int|
                0 <= q < n ==> ((#[trigger] states@[q]).date == trades@[q].date_purchased
                    && states@[q].principal as int == principal_after(trades@, rates@, lb, q + 1)
                    && states@[q].quantity as int == quantity_after(trades@, q + 1) && -(
                10_000_000_000_000_000_000_000 * (MAX_TRADES as int)) <= states@[q].principal
                    <= 10_000_000_000_000_000_000_000 * (MAX_TRADES as int) && -(QTY_LIMIT * (
                MAX_TRADES as int)) <= states@[q].quantity <= QTY_LIMIT * (MAX_TRADES as int)),
            forall|q: int|
                0 <= q < trades@.len() ==> lookback_entry(
                    rate_entries(rates@),
                    (#[trigger] trades@[q]).date_purchased,
                    lb,
                ) is Some,
            j <= n,
            forall|q: int|
                0 <= q < j ==> (#[trigger] trades@[q]).date_purchased.on_or_before(current),
            current == iter_days(first, out@.len() as nat),
            current.valid(),
            first.on_or_before(current),
            out@.len() > 0 ==> first.before(*end),
            forall|i: int|
                0 <= i < out@.len() ==> (#[trigger] out@[i]).trade_date == iter_days(
                    first,
                    i as nat,
                ),
            forall|i: int| 0 <= i < out@.len() ==> (#[trigger] out@[i]).trade_date.before(*end),
            forall|i: int|
                0 <= i < out@.len() ==> point_matches(
                    symbol@,
                    trades@,
                    stocks@,
                    rates@,
                    lb,
                    #[trigger] out@[i],
                ),
            forall|i: nat|
                i < out@.len() ==> (lookback_entry(
                    stock_entries(stocks@),
                    #[trigger] iter_days(first, i),
                    lb,
                ) is Some && lookback_entry(rate_entries(rates@), iter_days(first, i), lb)
                    is Some),
        decreases
                crate::date::MAX_YEAR - current.year,
                12 - current.month,
                31 - current.day,
    {
        while j < n && trades[j].date_purchased.is_on_or_before(&current)
            invariant
                n == trades@.len(),
                j <= n,
                forall|q: int|
                    0 <= q < j ==> (#[trigger] trades@[q]).date_purchased.on_or_before(current),
            decreases n - j,
        {
            j = j + 1;
        }
        proof {
            assert(trades@[0].date_purchased.on_or_before(current));
            assert(1 <= j);
            assert forall|q: int|
                j <= q < n implies !(#[trigger] trades@[q]).date_purchased.on_or_before(
                current,
            ) by {
                assert(trades@[j as int].date_purchased.on_or_before(trades@[q].date_purchased));
            }
            lemma_count_cut(trades@, current, j as int, n as int);
        }
        let state = &states[j - 1];
        let price = match get_stock_price(stocks, &current, max_lookback) {
            Some(x) => x,
            None => {
                proof {
                    assert(!prices_available(trades@, stocks@, rates@, lb, *end)) by {
                        if prices_available(trades@, stocks@, rates@, lb, *end) {
                            assert(iter_days(first, out@.len() as nat).before(*end));
                            assert(lookback_entry(
                                stock_entries(stocks@),
                                iter_days(first, out@.len() as nat),
                                lb,
                            ) is Some);
                        }
                    }
                }
                return Err(StockError::MissingPrice);
            },
        };
        let fx = match get_currency_rate(rates, &current, max_lookback) {
            Some(x) => x,
            None => {
                proof {
                    assert(!prices_available(trades@, stocks@, rates@, lb, *end)) by {
                        if prices_available(trades@, stocks@, rates@, lb, *end) {
                            assert(iter_days(first, out@.len() as nat).before(*end));
                            assert(lookback_entry(
                                rate_entries(rates@),
                                iter_days(first, out@.len() as nat),
                                lb,
                            ) is Some);
                        }
                    }
                }
                return Err(StockError::MissingExchangeRate);
            },
        };
        proof {
            lemma_lookback_in_table(stock_entries(stocks@), current, lb);
            lemma_lookback_in_table(rate_entries(rates@), current, lb);
            assert(0 <= price <= PRICE_LIMIT);
            assert(0 <= fx <= FX_LIMIT);
            assert(10_000_000_000_000_000_000_000 * (MAX_TRADES as int)
                == 100_000_000_000_000_000_000_000_000) by (nonlinear_arith);
            assert(QTY_LIMIT * (MAX_TRADES as int) == 10_000_000_000_000_000) by (nonlinear_arith);
        }
        let p = state.principal;
        let q = state.quantity;
        let nav = nav_value(q, price, fx);
        let ret: i128 = if p == 0 {
            0
        } else if p > 0 {
            (nav - p) * SCALE / p
        } else {
            -((nav - p) * SCALE / (-p))
        };
        out.push(
            Portfolio {
                trade_date: current,
                symbol: symbol.clone(),
                principal: p,
                nav,
                simple_returns: ret,
                quantity: q,
            },
        );
        proof {
            crate::date::lemma_before_month_index(current, *end);
        }
        current = current.next_day();
    }
    proof {
        assert(current == iter_days(first, out@.len() as nat));
        if out@.len() == 0 {
            assert(!first.before(*end));
        }
        assert forall|i: nat| (#[trigger] iter_days(first, i)).before(*end) implies (lookback_entry(
            stock_entries(stocks@),
            iter_days(first, i),
            lb,
        ) is Some && lookback_entry(rate_entries(rates@), iter_days(first, i), lb) is Some) by {
            if i >= out@.len() {
                if i > out@.len() {
                    lemma_iter_days_monotone(first, out@.len() as nat, i);
                }
                assert(false);
            }
        }
    }
    Ok(out)
}

} // verus!
