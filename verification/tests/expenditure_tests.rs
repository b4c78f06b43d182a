use financials::asset::{populate_housing_value, populate_investments, AssetError};
use financials::date::Date;
use financials::expenditure::{calculate_average_expenditure, Expense, ExpenditureError};
use financials::models::SharedExpense;
use financials::mortgage::MortgageSchedule;
use financials::shared_expenditure::populate_shared_expenditure;
use financials::stock::Portfolio;

const S: i128 = 1_000_000;

fn expense(y: i32, m: i32, d: i32, type_: &str, amount: i128) -> Expense {
    Expense {
        id: None,
        transaction_date: Date::new(y, m, d),
        type_: String::from(type_),
        amount,
    }
}

#[test]
fn six_month_window_averages_to_one_hundred() {
    // 100 on the 15th of each month of 2021, plus excluded tax and special
    // entries.
    let mut expenses = Vec::new();
    for m in 1..=12 {
        expenses.push(expense(2021, m, 15, "Food", 100 * S));
        expenses.push(expense(2021, m, 15, "Tax", 999 * S));
    }
    expenses.push(expense(2021, 5, 5, "Special:Trip", 555 * S));
    let tomorrow = Date::new(2022, 1, 1);
    let out =
        calculate_average_expenditure(&expenses, 6, "Tax", "Special:", &tomorrow).unwrap();
    // The series starts one full window after the first expense's period,
    // at that month's end; every emitted date is a calendar month-end.
    assert_eq!(out.len(), 5);
    assert_eq!(out[0].expense_date, Date::new(2021, 8, 31));
    assert_eq!(out[4].expense_date, Date::new(2021, 12, 31));
    for p in &out {
        assert_eq!(p.amount, 100 * S);
    }
}

#[test]
fn first_emitted_date_is_a_month_end_even_after_clamped_shifts() {
    // A first expense in a short month: shifting its month-end by the window
    // lands on day 30 of October; the emitted date is still October's end.
    let expenses = vec![
        expense(2021, 4, 30, "Food", 600 * S),
        expense(2021, 5, 5, "Food", 42 * S),
    ];
    let tomorrow = Date::new(2021, 12, 1);
    let out =
        calculate_average_expenditure(&expenses, 6, "Tax", "Special:", &tomorrow).unwrap();
    assert_eq!(out.len(), 1);
    assert_eq!(out[0].expense_date, Date::new(2021, 10, 31));
    assert_eq!(out[0].amount, 7 * S);
}

#[test]
fn window_without_matching_expenses_emits_nothing() {
    // Only excluded entries: no month ever emits a point.
    let expenses = vec![
        expense(2021, 1, 31, "Tax", 500 * S),
        expense(2021, 2, 28, "Special:Trip", 700 * S),
    ];
    let tomorrow = Date::new(2021, 12, 31);
    let out =
        calculate_average_expenditure(&expenses, 6, "Tax", "Special:", &tomorrow).unwrap();
    assert!(out.is_empty());
}

#[test]
fn no_expenses_at_all_is_an_error() {
    let tomorrow = Date::new(2021, 12, 31);
    let r = calculate_average_expenditure(&Vec::new(), 6, "Tax", "Special:", &tomorrow);
    assert_eq!(r.unwrap_err(), ExpenditureError::NoExpenses);
}

fn portfolio_row(y: i32, m: i32, d: i32, symbol: &str, nav: i128) -> Portfolio {
    Portfolio {
        trade_date: Date::new(y, m, d),
        symbol: String::from(symbol),
        principal: nav,
        nav,
        simple_returns: 0,
        quantity: S,
    }
}

#[test]
fn investments_sum_every_first_of_month() {
    let rows = vec![
        portfolio_row(2021, 9, 1, "CSPX.LON", 100 * S),
        portfolio_row(2021, 9, 1, "IBM", 200 * S),
        portfolio_row(2021, 9, 15, "IBM", 999 * S),
        portfolio_row(2021, 10, 1, "IBM", 150 * S),
    ];
    let tomorrow = Date::new(2021, 11, 15);
    let out = populate_investments(&rows, &tomorrow).unwrap();
    assert_eq!(out.len(), 2);
    assert_eq!(out[0].transaction_date, Date::new(2021, 9, 1));
    assert_eq!(out[0].amount, 300 * S);
    assert_eq!(out[0].type_, "Investments");
    assert_eq!(out[1].transaction_date, Date::new(2021, 10, 1));
    assert_eq!(out[1].amount, 150 * S);
    assert_eq!(populate_investments(&Vec::new(), &tomorrow).unwrap_err(), AssetError::NoPortfolios);
}

fn schedule_point(y: i32, m: i32, d: i32, total_principal_paid: i128) -> MortgageSchedule {
    MortgageSchedule {
        date: Date::new(y, m, d),
        interest_paid: 0,
        principal_paid: 0,
        total_principal_paid,
        total_interest_paid: 0,
        total_principal_left: 0,
        total_interest_left: 0,
    }
}

#[test]
fn housing_value_is_gap_filled_between_schedule_points() {
    let schedule = vec![
        schedule_point(2021, 10, 10, 1_000 * S),
        schedule_point(2022, 1, 10, 4_000 * S),
    ];
    let out = populate_housing_value(&schedule, 2 * S);
    assert_eq!(out.len(), 3);
    assert_eq!(out[0].transaction_date, Date::new(2021, 10, 1));
    assert_eq!(out[1].transaction_date, Date::new(2021, 11, 1));
    assert_eq!(out[2].transaction_date, Date::new(2021, 12, 1));
    for p in &out {
        assert_eq!(p.amount, 500 * S);
        assert_eq!(p.type_, "House");
    }
    assert!(populate_housing_value(&Vec::new(), 2 * S).is_empty());
}

fn shared(y: i32, m: i32, d: i32, type_: &str, amount: i128) -> SharedExpense {
    SharedExpense { expense_date: Date::new(y, m, d), type_: String::from(type_), amount }
}

#[test]
fn shared_expenses_group_by_date_and_category_kind() {
    let rows = vec![
        shared(2022, 8, 31, "Electricity", 35 * S),
        shared(2022, 8, 31, "Water", 10 * S),
        shared(2022, 9, 30, "Electricity", 20 * S),
        shared(2022, 8, 31, "Special:Trip", 100 * S),
    ];
    let out = populate_shared_expenditure(&rows);
    assert_eq!(out.len(), 3);
    assert_eq!(out[0].transaction_date, Date::new(2022, 8, 31));
    assert_eq!(out[0].amount, 45 * S);
    assert_eq!(out[0].type_, "Shared Expense");
    assert_eq!(out[1].transaction_date, Date::new(2022, 9, 30));
    assert_eq!(out[1].amount, 20 * S);
    assert_eq!(out[2].transaction_date, Date::new(2022, 8, 31));
    assert_eq!(out[2].amount, 100 * S);
    assert_eq!(out[2].type_, "Special:Shared Expense");
}
