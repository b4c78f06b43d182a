use financials::config::Config;
use financials::date::{get_last_day_of_month, is_last_day_of_month, Date};
use financials::parse::{parse_date, parse_decimal_micro};

#[test]
fn month_stepping_clamps_to_month_length() {
    let jan31 = Date::new(2024, 1, 31);
    // 2024 is a leap year.
    assert_eq!(jan31.shift_months(1), Date::new(2024, 2, 29));
    assert_eq!(Date::new(2023, 1, 31).shift_months(1), Date::new(2023, 2, 28));
    assert_eq!(jan31.shift_months(-1), Date::new(2023, 12, 31));
    assert_eq!(Date::new(2021, 11, 15).shift_months(3), Date::new(2022, 2, 15));
}

#[test]
fn day_stepping_crosses_month_and_year_ends() {
    assert_eq!(Date::new(2021, 12, 31).next_day(), Date::new(2022, 1, 1));
    assert_eq!(Date::new(2024, 2, 28).next_day(), Date::new(2024, 2, 29));
    assert_eq!(Date::new(2023, 2, 28).next_day(), Date::new(2023, 3, 1));
    assert_eq!(Date::new(2022, 1, 1).prev_day(), Date::new(2021, 12, 31));
    // A century year not divisible by 400 is no leap year.
    assert_eq!(Date::new(1900, 2, 28).next_day(), Date::new(1900, 3, 1));
    assert_eq!(Date::new(2000, 2, 28).next_day(), Date::new(2000, 2, 29));
}

#[test]
fn last_day_of_month_matches_the_calendar() {
    assert_eq!(get_last_day_of_month(&Date::new(2021, 4, 7)), Date::new(2021, 4, 30));
    assert_eq!(get_last_day_of_month(&Date::new(2024, 2, 1)), Date::new(2024, 2, 29));
    assert!(is_last_day_of_month(&Date::new(2021, 6, 30)));
    assert!(!is_last_day_of_month(&Date::new(2021, 6, 29)));
}

#[test]
fn date_order_is_calendar_order() {
    let a = Date::new(2021, 8, 19);
    let b = Date::new(2021, 8, 23);
    assert!(a.is_before(&b));
    assert!(!b.is_before(&a));
    assert!(a.is_on_or_before(&a));
}

#[test]
fn dates_parse_only_when_real() {
    assert_eq!(parse_date("2022-02-02"), Some(Date::new(2022, 2, 2)));
    assert_eq!(parse_date("2024-02-29"), Some(Date::new(2024, 2, 29)));
    assert_eq!(parse_date("2023-02-29"), None);
    assert_eq!(parse_date("2024-13-01"), None);
    assert_eq!(parse_date("2024-1-01"), None);
    assert_eq!(parse_date("not a date"), None);
}

#[test]
fn decimal_amounts_parse_to_micro_units() {
    assert_eq!(parse_decimal_micro("131.5600"), Some(131_560_000));
    assert_eq!(parse_decimal_micro("12"), Some(12_000_000));
    assert_eq!(parse_decimal_micro("-2.5"), Some(-2_500_000));
    // Digits beyond the sixth are dropped.
    assert_eq!(parse_decimal_micro("0.1234567"), Some(123_456));
    assert_eq!(parse_decimal_micro(""), None);
    assert_eq!(parse_decimal_micro("1e5"), None);
    assert_eq!(parse_decimal_micro("-"), None);
    assert_eq!(parse_decimal_micro(".5"), None);
}

#[test]
fn config_keeps_its_values() {
    let c = Config::new(
        String::from("postgres://localhost/finance"),
        String::from("demo"),
        String::from("assets.csv"),
        String::from("expenses.csv"),
        String::from("income.csv"),
        String::from("trades.csv"),
        String::from("mortgage.yaml"),
        String::from("shared_expenses.csv"),
        String::from("https://bot.example"),
    );
    assert_eq!(c.alphavantage_key, "demo");
    assert_eq!(c.trades_csv, "trades.csv");
    assert_eq!(c.telegram_bot_endpoint, "https://bot.example");
}
