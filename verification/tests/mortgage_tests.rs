use financials::date::Date;
use financials::mortgage::{
    calculate_interest_paid_schedule, calculate_mortgage, generate_mortgage_schedule,
    parse_one_mortgage_schedule, Downpayment, Mortgage, MortgageConfig, MortgageError,
};

const S: i128 = 1_000_000;

fn f2(x: i128) -> String {
    format!("{:.2}", x as f64 / 1e6)
}

fn sample_mortgage() -> Mortgage {
    Mortgage {
        total: 50_000 * S,
        mortgage_first_payment: Date::new(2022, 10, 10),
        mortgage_duration_in_years: 25,
        downpayments: vec![
            Downpayment { date: Date::new(2021, 10, 10), sum: 1_000 * S },
            Downpayment { date: Date::new(2021, 12, 12), sum: 20_000 * S },
        ],
        interest_rate_percentage: 2_600_000,
    }
}

#[test]
fn test_mortgage_schedule() {
    let mortgage_schedule = parse_one_mortgage_schedule(&sample_mortgage()).unwrap();

    let first_downpayment_schedule = mortgage_schedule.get(0).unwrap();
    assert_eq!(first_downpayment_schedule.date, Date::new(2021, 10, 10));
    assert_eq!(f2(first_downpayment_schedule.interest_paid), "0.00");
    assert_eq!(f2(first_downpayment_schedule.total_interest_paid), "0.00");
    assert_eq!(f2(first_downpayment_schedule.principal_paid), "1000.00");
    assert_eq!(f2(first_downpayment_schedule.total_principal_paid), "1000.00");
    assert_eq!(f2(first_downpayment_schedule.total_principal_left), "49000.00");
    assert_eq!(f2(first_downpayment_schedule.total_interest_left), "10469.25");

    let first_downpayment_schedule = mortgage_schedule.get(2).unwrap();
    assert_eq!(first_downpayment_schedule.date, Date::new(2022, 10, 10));
    assert_eq!(f2(first_downpayment_schedule.interest_paid), "62.83");
    assert_eq!(f2(first_downpayment_schedule.total_interest_paid), "62.83");
    assert_eq!(f2(first_downpayment_schedule.principal_paid), "68.73");
    assert_eq!(f2(first_downpayment_schedule.total_principal_paid), "21068.73");
    assert_eq!(f2(first_downpayment_schedule.total_principal_left), "28931.27");
    assert_eq!(f2(first_downpayment_schedule.total_interest_left), "10406.41");
}

#[test]
fn test_mortgage() {
    struct TestCase<'a> {
        pub principal: i128,
        pub ir: i128,
        pub years: i32,
        pub expected: &'a str,
        pub interest_paid_expected: &'a str,
    }

    let test_cases = vec![
        TestCase {
            principal: 29_000 * S,
            ir: 2_600_000,
            years: 25,
            expected: "131.56",
            interest_paid_expected: "10469.25",
        },
        TestCase {
            principal: 500_000 * S,
            ir: 5_000_000,
            years: 35,
            expected: "2523.44",
            interest_paid_expected: "559844.12",
        },
        TestCase {
            principal: 25_321_323 * S,
            ir: 1_200_000,
            years: 20,
            expected: "118724.61",
            interest_paid_expected: "3172582.59",
        },
    ];

    for test_case in test_cases.iter() {
        let monthly_payment =
            calculate_mortgage(test_case.principal, test_case.ir, test_case.years).unwrap();
        assert_eq!(f2(monthly_payment), test_case.expected);
        let interest_paid_schedule =
            calculate_interest_paid_schedule(test_case.principal, monthly_payment, test_case.ir)
                .unwrap();
        let interest_paid: i128 = interest_paid_schedule.iter().sum();
        assert_eq!(f2(interest_paid), test_case.interest_paid_expected);
    }
}

#[test]
fn principal_totals_balance_at_every_point() {
    let m = sample_mortgage();
    let schedule = parse_one_mortgage_schedule(&m).unwrap();
    assert!(schedule.len() > 2);
    for p in &schedule {
        assert_eq!(p.total_principal_paid + p.total_principal_left, m.total);
        assert!(p.total_principal_paid <= m.total);
        assert!(p.total_interest_left >= 0);
    }
    let last = schedule.last().unwrap();
    assert_eq!(last.total_principal_paid, m.total);
    assert_eq!(last.total_principal_left, 0);
}

#[test]
fn full_downpayment_leaves_no_monthly_entries() {
    let m = Mortgage {
        total: 30_000 * S,
        mortgage_first_payment: Date::new(2022, 1, 15),
        mortgage_duration_in_years: 10,
        downpayments: vec![
            Downpayment { date: Date::new(2021, 3, 1), sum: 10_000 * S },
            Downpayment { date: Date::new(2021, 9, 1), sum: 20_000 * S },
        ],
        interest_rate_percentage: 2_000_000,
    };
    let schedule = parse_one_mortgage_schedule(&m).unwrap();
    assert_eq!(schedule.len(), 2);
    for p in &schedule {
        assert!(p.principal_paid >= 0);
        assert!(p.interest_paid == 0);
    }
    assert_eq!(schedule[1].total_principal_left, 0);
    assert_eq!(schedule[1].total_interest_left, 0);
}

#[test]
fn extreme_compounding_is_reported_as_overflow() {
    // A century at the maximum rate grows past what is computed exactly.
    let r = calculate_mortgage(100_000 * S, 100_000_000, 100);
    assert_eq!(r.unwrap_err(), MortgageError::Overflow);
}

#[test]
fn non_amortizing_loan_is_reported() {
    // A payment below the monthly interest can never pay the loan off.
    let r = calculate_interest_paid_schedule(100_000 * S, 0, 50_000_000);
    assert_eq!(r.unwrap_err(), MortgageError::NonAmortizing);
}

#[test]
fn schedule_dates_step_by_calendar_month() {
    let mut m = sample_mortgage();
    m.mortgage_first_payment = Date::new(2023, 1, 31);
    let schedule = parse_one_mortgage_schedule(&m).unwrap();
    // Monthly points start after the two downpayments.
    assert_eq!(schedule[2].date, Date::new(2023, 1, 31));
    assert_eq!(schedule[3].date, Date::new(2023, 2, 28));
    // The clamped day is carried, not restored.
    assert_eq!(schedule[4].date, Date::new(2023, 3, 28));
}

#[test]
fn config_of_two_mortgages_yields_two_schedules() {
    let config = MortgageConfig { mortgages: vec![sample_mortgage(), sample_mortgage()] };
    let schedules = generate_mortgage_schedule(&config).unwrap();
    assert_eq!(schedules.len(), 2);
    assert_eq!(schedules[0], schedules[1]);
    assert_eq!(schedules[0].len(), 2 + 301);
}
