use financials::date::Date;
use financials::stock::{
    calculate_portfolio, get_currency_rate, get_stock_price, missing_symbols, ExchangeRate, Stock,
    StockError, Trade,
};

const S: i128 = 1_000_000;

fn buy(y: i32, m: i32, d: i32, price: i128, qty: i128) -> Trade {
    Trade {
        date_purchased: Date::new(y, m, d),
        symbol: String::from("CSPX.LON"),
        price_each: price,
        quantity: qty,
        trade_type: String::from("buy"),
    }
}

fn sell(y: i32, m: i32, d: i32, price: i128, qty: i128) -> Trade {
    Trade { trade_type: String::from("sell"), ..buy(y, m, d, price, qty) }
}

fn stock(y: i32, m: i32, d: i32, price: i128) -> Stock {
    Stock { trade_date: Date::new(y, m, d), symbol: String::from("CSPX.LON"), price }
}

fn rate(y: i32, m: i32, d: i32, price: i128) -> ExchangeRate {
    ExchangeRate { trade_date: Date::new(y, m, d), symbol: String::from("USD"), price }
}

fn unit_rates() -> Vec<ExchangeRate> {
    // A rate for every needed day, all 1.0.
    let mut v = Vec::new();
    for d in 1..=31 {
        v.push(rate(2021, 8, d, S));
    }
    v
}

#[test]
fn series_is_date_dense_without_gaps_or_repeats() {
    let trades = vec![buy(2021, 8, 19, 446 * S, 2 * S), buy(2021, 8, 23, 450 * S, 1 * S)];
    let stocks = vec![stock(2021, 8, 19, 446 * S), stock(2021, 8, 20, 448 * S), stock(
        2021, 8, 23, 450 * S,
    )];
    let end = Date::new(2021, 8, 26);
    let series =
        calculate_portfolio(&String::from("CSPX.LON"), &trades, &stocks, &unit_rates(), &end, 7)
            .unwrap();
    assert_eq!(series.len(), 7);
    for (i, p) in series.iter().enumerate() {
        assert_eq!(p.trade_date, Date::new(2021, 8, 19 + i as i32));
    }
    // Every date appears exactly once.
    for i in 0..series.len() {
        for j in i + 1..series.len() {
            assert_ne!(series[i].trade_date, series[j].trade_date);
        }
    }
}

#[test]
fn quantity_is_carried_forward_across_non_trade_days() {
    let trades = vec![buy(2021, 8, 19, 446 * S, 2 * S), sell(2021, 8, 23, 450 * S, 1 * S)];
    let stocks = vec![stock(2021, 8, 19, 446 * S), stock(2021, 8, 23, 450 * S)];
    let end = Date::new(2021, 8, 26);
    let series =
        calculate_portfolio(&String::from("CSPX.LON"), &trades, &stocks, &unit_rates(), &end, 7)
            .unwrap();
    // 19th..22nd carry the buy's quantity; 23rd..25th the post-sell quantity.
    for p in &series[0..4] {
        assert_eq!(p.quantity, 2 * S);
        assert_eq!(p.principal, 892 * S);
    }
    for p in &series[4..7] {
        assert_eq!(p.quantity, 1 * S);
        assert_eq!(p.principal, 892 * S - 450 * S);
    }
}

#[test]
fn recomputing_the_series_gives_identical_output() {
    let trades = vec![buy(2021, 8, 19, 446 * S, 2 * S), sell(2021, 8, 23, 450 * S, 1 * S)];
    let stocks = vec![stock(2021, 8, 19, 446 * S), stock(2021, 8, 23, 450 * S)];
    let end = Date::new(2021, 8, 28);
    let first =
        calculate_portfolio(&String::from("CSPX.LON"), &trades, &stocks, &unit_rates(), &end, 7)
            .unwrap();
    let second =
        calculate_portfolio(&String::from("CSPX.LON"), &trades, &stocks, &unit_rates(), &end, 7)
            .unwrap();
    assert_eq!(first, second);
}

#[test]
fn single_buy_starts_at_zero_return_and_follows_prices() {
    let trades = vec![buy(2021, 8, 19, 446 * S, 2 * S)];
    let stocks = vec![stock(2021, 8, 19, 446 * S), stock(2021, 8, 20, 450 * S)];
    let end = Date::new(2021, 8, 22);
    let series =
        calculate_portfolio(&String::from("CSPX.LON"), &trades, &stocks, &unit_rates(), &end, 7)
            .unwrap();
    assert_eq!(series.len(), 3);
    // On the trade date the position is worth exactly its cost.
    assert_eq!(series[0].principal, 892 * S);
    assert_eq!(series[0].nav, 892 * S);
    assert_eq!(series[0].simple_returns, 0);
    // Afterwards the return moves purely with the price: (900 - 892) / 892.
    assert_eq!(series[1].nav, 900 * S);
    assert_eq!(series[1].simple_returns, 8 * S * S / (892 * S));
    // The weekend carries the last price backward.
    assert_eq!(series[2].nav, 900 * S);
    assert_eq!(series[2].quantity, 2 * S);
}

#[test]
fn missing_price_history_fails_that_symbol() {
    let trades = vec![buy(2021, 8, 19, 446 * S, 2 * S)];
    let end = Date::new(2021, 8, 22);
    let r = calculate_portfolio(
        &String::from("CSPX.LON"),
        &trades,
        &Vec::new(),
        &unit_rates(),
        &end,
        7,
    );
    assert_eq!(r.unwrap_err(), StockError::MissingPrice);
    let r2 = calculate_portfolio(
        &String::from("CSPX.LON"),
        &trades,
        &vec![stock(2021, 8, 19, 446 * S)],
        &Vec::new(),
        &end,
        7,
    );
    assert_eq!(r2.unwrap_err(), StockError::MissingExchangeRate);
}

#[test]
fn price_lookup_walks_backward_within_the_window() {
    let stocks = vec![stock(2021, 8, 19, 446 * S)];
    // Friday's price serves the weekend.
    let sunday = Date::new(2021, 8, 21);
    assert_eq!(get_stock_price(&stocks, &sunday, 3), Some(446 * S));
    // Beyond the lookback window nothing is found.
    let later = Date::new(2021, 8, 30);
    assert_eq!(get_stock_price(&stocks, &later, 3), None);
    let rates = vec![rate(2021, 8, 19, S)];
    assert_eq!(get_currency_rate(&rates, &sunday, 3), Some(S));
    assert_eq!(get_currency_rate(&rates, &later, 3), None);
}

#[test]
fn missing_symbols_are_the_distinct_unknown_ones() {
    let candidates = vec![
        String::from("CSPX.LON"),
        String::from("IBM"),
        String::from("CSPX.LON"),
        String::from("TSCO.LON"),
    ];
    let known = vec![String::from("IBM")];
    let missing = missing_symbols(&candidates, &known);
    assert_eq!(missing, vec![String::from("CSPX.LON"), String::from("TSCO.LON")]);
    assert_eq!(missing_symbols(&Vec::new(), &known), Vec::<String>::new());
}
