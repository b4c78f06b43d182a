use financials::alphavantage::{
    get_currency_history, get_stock_history, search_alphavantage_symbol,
};
use financials::date::Date;
use financials::stock::{process_currency_history, process_stock_history};
use financials::telegram_data::{
    map_expense_response_to_expense, map_expense_response_to_shared_expense, months_to_fetch,
    parse_expense_response,
};

const SEARCH_BODY: &str = r#"{
    "bestMatches": [
        {"1. symbol": "TSCO.LON", "2. name": "Tesco PLC", "4. region": "United Kingdom", "8. currency": "GBX"},
        {"1. symbol": "TSCDF", "2. name": "Tesco PLC", "4. region": "United States", "8. currency": "USD"},
        {"1. symbol": "TSCDY", "2. name": "Tesco PLC", "4. region": "United States", "8. currency": "USD"}
    ]
}"#;

#[test]
fn search_symbol() {
    let result = search_alphavantage_symbol(200, SEARCH_BODY).unwrap();
    assert_eq!(result.best_matches.len(), 3);
    let result = &result.best_matches[0];
    assert_eq!(result.symbol, "TSCO.LON");
    assert_eq!(result.currency, "GBX");
}

#[test]
fn search_failures_are_typed() {
    let err = search_alphavantage_symbol(503, SEARCH_BODY).unwrap_err();
    assert_eq!(err.message, "status code: 503");
    let err = search_alphavantage_symbol(200, "not json at all").unwrap_err();
    assert_eq!(err.message, "unexpected response body");
}

const FX_BODY: &str = r#"{
    "Meta Data": {"1. Information": "Forex Daily Prices", "2. From Symbol": "EUR"},
    "Time Series FX (Daily)": {
        "2022-02-02": {"1. open": "1.1280", "4. close": "1.1305"},
        "2022-02-01": {"1. open": "1.1235", "4. close": "1.1274"}
    }
}"#;

#[test]
fn currency_history() {
    let result = get_currency_history(200, FX_BODY).unwrap();
    let result = result
        .results
        .iter()
        .find(|(d, _)| *d == Date::new(2022, 2, 2))
        .unwrap();
    assert!(result.1.close > 0);
}

const STOCK_BODY: &str = r#"{
    "Meta Data": {"1. Information": "Daily Prices", "2. Symbol": "IBM"},
    "Time Series (Daily)": {
        "2022-02-01": {"1. open": "133.7600", "4. close": "135.5300"},
        "2022-01-31": {"1. open": "132.0000", "4. close": "133.5700"}
    }
}"#;

#[test]
fn stock_history() {
    let result = get_stock_history(200, STOCK_BODY).unwrap();
    let result = result
        .results
        .iter()
        .find(|(d, _)| *d == Date::new(2022, 2, 1))
        .unwrap();
    assert!(result.1.close > 0);
}

#[test]
fn history_amounts_parse_to_micro_units() {
    let result = get_stock_history(200, STOCK_BODY).unwrap();
    // Entries come sorted by date key.
    assert_eq!(result.results.len(), 2);
    assert_eq!(result.results[0].0, Date::new(2022, 1, 31));
    assert_eq!(result.results[0].1.close, 133_570_000);
    assert_eq!(result.results[1].1.close, 135_530_000);
}

#[test]
fn history_failures_are_typed() {
    let err = get_stock_history(404, STOCK_BODY).unwrap_err();
    assert_eq!(err.message, "status code: 404");
    let err = get_stock_history(200, "{}").unwrap_err();
    assert_eq!(err.message, "unexpected response body");
    let bad = r#"{"Time Series (Daily)": {"2022-02-01": {"4. close": "1e5"}}}"#;
    let err = get_stock_history(200, bad).unwrap_err();
    assert_eq!(err.message, "unparsable series entry");
}

#[test]
fn histories_become_rows_with_a_latest_date() {
    let history = get_stock_history(200, STOCK_BODY).unwrap();
    let (rows, last) = process_stock_history(&String::from("IBM"), &history);
    assert_eq!(rows.len(), 2);
    assert_eq!(rows[0].symbol, "IBM");
    assert_eq!(rows[0].price, 133_570_000);
    assert_eq!(last, Some(Date::new(2022, 2, 1)));

    let fx = get_currency_history(200, FX_BODY).unwrap();
    let (rows, last) = process_currency_history(&String::from("EUR"), &fx);
    assert_eq!(rows.len(), 2);
    assert_eq!(rows[1].price, 1_130_500);
    assert_eq!(last, Some(Date::new(2022, 2, 2)));
}

const EXPENSES_BODY: &str = r#"{
    "expenses": [
        {"date": "2023-03-05T08:00:00Z", "type": "Groceries", "amount": 42.5},
        {"date": "2023-03-09T08:00:00Z", "type": "Transport", "amount": "3.20"}
    ]
}"#;

#[test]
fn expense_feed_entries_parse_to_records() {
    let records = parse_expense_response(200, EXPENSES_BODY).unwrap();
    assert_eq!(records.len(), 2);
    assert_eq!(records[0].date, Date::new(2023, 3, 5));
    assert_eq!(records[0].type_, "Groceries");
    assert_eq!(records[0].amount, 42_500_000);
    assert_eq!(records[1].amount, 3_200_000);

    let e = map_expense_response_to_expense(&records[0]);
    assert_eq!(e.transaction_date, Date::new(2023, 3, 5));
    assert_eq!(e.amount, 42_500_000);
    assert!(e.id.is_none());
    let s = map_expense_response_to_shared_expense(&records[1]);
    assert_eq!(s.expense_date, Date::new(2023, 3, 9));
    assert_eq!(s.type_, "Transport");
}

#[test]
fn expense_feed_failures_are_typed() {
    let err = parse_expense_response(500, EXPENSES_BODY).unwrap_err();
    assert_eq!(err.message, "status code: 500");
    let err = parse_expense_response(200, "[]").unwrap_err();
    assert_eq!(err.message, "unexpected response body");
}

#[test]
fn fetch_plan_covers_every_month_up_to_today() {
    let start = Date::new(2023, 3, 1);
    let today = Date::new(2023, 6, 15);
    let months = months_to_fetch(&start, &today);
    assert_eq!(months, vec![(2023, 3), (2023, 4), (2023, 5), (2023, 6)]);
    let none = months_to_fetch(&today, &start);
    assert!(none.is_empty());
}
