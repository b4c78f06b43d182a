//! Mortgage amortization: the monthly payment from the standard closed-form
//! annuity formula, the simulated interest-paid schedule, and the emitted
//! schedule of downpayment and monthly-payment points with clamped running
//! totals.

use vstd::prelude::*;

use crate::date::{Date, MAX_YEAR};
use crate::fixed::{sum_prefix, AMOUNT_LIMIT, RATE_SCALE};

verus! {

/// Largest annual interest rate accepted, in micro-percent (100%).
pub const RATE_PCT_LIMIT: i128 = 100_000_000;

/// Cap on the compounding factor `(1 + i)^n` at `RATE_SCALE` scale; beyond it
/// the closed form is reported as an overflow instead of computed wrongly.
pub const POW_LIMIT: i128 = 100_000_000_000_000_000_000_000_000;

/// Most monthly entries a schedule may have (a thousand years); a simulation
/// that has not paid the loan off by then is reported as non-amortizing.
pub const MAX_SCHEDULE_MONTHS: usize = 12_000;

/// Cap on the simulated outstanding balance; a balance that grows past it can
/// never reach zero and is reported as non-amortizing.
pub const BALANCE_LIMIT: i128 = 400_000_000_000_000;

/// A discrete principal repayment made before the monthly schedule.
#[derive(Clone, Copy, PartialEq, Eq, Structural, Debug)]
pub struct Downpayment {
    pub date: Date,
    /// Amount repaid, in micro-units.
    pub sum: i128,
}

/// A loan configuration: the full principal, the annual rate in micro-percent
/// (2.6% is `2_600_000`), the term, and any downpayments.
#[derive(Clone, Debug)]
pub struct Mortgage {
    /// Original total principal, in micro-units.
    pub total: i128,
    pub mortgage_first_payment: Date,
    pub mortgage_duration_in_years: i32,
    pub downpayments: Vec<Downpayment>,
    /// Annual interest rate in micro-percent.
    pub interest_rate_percentage: i128,
}

#[derive(Clone, Debug)]
pub struct MortgageConfig {
    pub mortgages: Vec<Mortgage>,
}

/// One emitted schedule point: a downpayment or one monthly payment, with
/// running totals clamped so that paid never exceeds the grand total and left
/// never goes below zero.
#[derive(Clone, Copy, PartialEq, Eq, Structural, Debug)]
pub struct MortgageSchedule {
    pub date: Date,
    pub interest_paid: i128,
    pub principal_paid: i128,
    pub total_principal_paid: i128,
    pub total_interest_paid: i128,
    pub total_principal_left: i128,
    pub total_interest_left: i128,
}

#[derive(Clone, Copy, PartialEq, Eq, Structural, Debug)]
pub enum MortgageError {
    /// The compounding factor left the range the engine computes exactly.
    Overflow,
    /// The simulated balance never reaches zero.
    NonAmortizing,
}

/// Division rounding to the nearest whole, halves up; for nonnegative
/// operands, as every mortgage quantity is.
pub open spec fn rdiv(a: int, b: int) -> int
    recommends
        b > 0,
{
    (a + b / 2) / b
}

/// The monthly interest rate at `RATE_SCALE` scale, from an annual percentage
/// in micro-percent: divide by 100 to a fraction and by 12 to a month,
/// rounding to the nearest unit.
pub open spec fn monthly_rate_spec(rate: int) -> int {
    rdiv(rate * 10_000, 12)
}

/// `(1 + i)^k` at `RATE_SCALE` scale, rounded to the nearest unit after each
/// multiplication, exactly as the executable loop computes it.
pub open spec fn growth_spec(ir: int, k: nat) -> int
    decreases k,
{
    if k == 0 {
        RATE_SCALE as int
    } else {
        rdiv(growth_spec(ir, (k - 1) as nat) * (RATE_SCALE + ir), RATE_SCALE as int)
    }
}

/// `i * (1 + i)^n / ((1 + i)^n - 1)` at `RATE_SCALE` scale.
pub open spec fn payment_factor_spec(ir: int, n: nat) -> int {
    let a = growth_spec(ir, n);
    rdiv(ir * a, a - RATE_SCALE)
}

/// The closed-form monthly payment `M = P * [i(1+i)^n] / [(1+i)^n - 1]`.
pub open spec fn monthly_payment_spec(p: int, rate: int, years: int) -> int {
    rdiv(p * payment_factor_spec(monthly_rate_spec(rate), (years * 12) as nat), RATE_SCALE as int)
}

pub proof fn lemma_growth_bounds(ir: int, k: nat)
    requires
        0 <= ir,
    ensures
        growth_spec(ir, k) >= RATE_SCALE,
        k >= 1 ==> growth_spec(ir, k) >= RATE_SCALE + ir,
    decreases k,
{
    if k == 0 {
    } else {
        lemma_growth_bounds(ir, (k - 1) as nat);
        let g = growth_spec(ir, (k - 1) as nat);
        assert((g * (RATE_SCALE + ir) + (RATE_SCALE as int) / 2) / (RATE_SCALE as int) >= RATE_SCALE
            + ir) by (nonlinear_arith)
            requires
                g >= RATE_SCALE,
                RATE_SCALE == 1_000_000_000_000,
                ir >= 0,
        ;
    }
}

pub proof fn lemma_growth_monotone(ir: int, j: nat, k: nat)
    requires
        0 <= ir,
        j <= k,
    ensures
        growth_spec(ir, j) <= growth_spec(ir, k),
    decreases k,
{
    if j < k {
        lemma_growth_monotone(ir, j, (k - 1) as nat);
        let g = growth_spec(ir, (k - 1) as nat);
        lemma_growth_bounds(ir, (k - 1) as nat);
        assert((g * (RATE_SCALE + ir) + (RATE_SCALE as int) / 2) / (RATE_SCALE as int) >= g)
            by (nonlinear_arith)
            requires
                g >= 0,
                RATE_SCALE == 1_000_000_000_000,
                ir >= 0,
        ;
    }
}

/// One month's interest on an outstanding balance, rounded to the nearest
/// micro-unit.
pub open spec fn interest_step_spec(balance: int, ir: int) -> int {
    rdiv(balance * ir, RATE_SCALE as int)
}

/// The interest-paid schedule, simulated month by month: while the balance is
/// positive, pay one month's interest, then reduce the balance by the part of
/// the monthly payment left after interest. `None` when the simulation runs
/// out of fuel or the balance diverges: the loan is never paid off.
pub open spec fn sim_spec(balance: int, m: int, ir: int, fuel: nat) -> Option<Seq<int>>
    decreases fuel,
{
    if balance <= 0 {
        Some(Seq::empty())
    } else if fuel == 0 || balance > BALANCE_LIMIT {
        None
    } else {
        let interest = interest_step_spec(balance, ir);
        match sim_spec(balance + interest - m, m, ir, (fuel - 1) as nat) {
            Some(rest) => Some(seq![interest].add(rest)),
            None => None,
        }
    }
}

/// The simulated interest-paid schedule for a loan balance.
///
/// Returns one interest amount per month until the balance reaches zero, or
/// reports the loan as non-amortizing when the payment never covers the
/// interest (the balance diverges or the simulation runs past
/// `MAX_SCHEDULE_MONTHS`).
pub fn calculate_interest_paid_schedule(principal: i128, monthly_payment: i128, interest_rate: i128)
    -> (r: Result<Vec<i128>, MortgageError>)
    requires
        -(100 * AMOUNT_LIMIT) <= principal <= AMOUNT_LIMIT,
        0 <= monthly_payment <= 2 * AMOUNT_LIMIT,
        0 <= interest_rate <= RATE_PCT_LIMIT,
    ensures
        ({
            let ir = monthly_rate_spec(interest_rate as int);
            match r {
                Ok(v) => sim_spec(principal as int, monthly_payment as int, ir,
                    MAX_SCHEDULE_MONTHS as nat) == Some(v@.map_values(|x: i128| x as int))
                    && v@.len() <= MAX_SCHEDULE_MONTHS
                    && (forall|i: int| 0 <= i < v@.len() ==> 0 <= #[trigger] v@[i]
                    <= 50_000_000_000_000),
                Err(e) => e == MortgageError::NonAmortizing && sim_spec(
                    principal as int,
                    monthly_payment as int,
                    ir,
                    MAX_SCHEDULE_MONTHS as nat,
                ) is None,
            }
        }),
{
    let ir: i128 = (interest_rate * 10_000 + 6) / 12;
    assert(ir * 12 <= interest_rate * 10_000 + 6 && 0 <= ir) by (nonlinear_arith)
        requires
            ir == (interest_rate * 10_000 + 6) / 12,
            0 <= interest_rate,
    ;
    let ghost fuel: nat = MAX_SCHEDULE_MONTHS as nat;
    let mut balance: i128 = principal;
    let mut out: Vec<i128> = Vec::new();
    let mut k: usize = 0;
    while balance > 0
        invariant
            0 <= ir <= 100_000_000_000,
            ir == monthly_rate_spec(interest_rate as int),
            0 <= monthly_payment <= 2 * AMOUNT_LIMIT,
            k <= MAX_SCHEDULE_MONTHS,
            out@.len() == k,
            balance <= 2 * BALANCE_LIMIT,
            balance >= -(102 * AMOUNT_LIMIT),
            forall|i: int| 0 <= i < out@.len() ==> 0 <= #[trigger] out@[i] <= 50_000_000_000_000,
            ({
                let whole = sim_spec(principal as int, monthly_payment as int, ir as int,
                    MAX_SCHEDULE_MONTHS as nat);
                match sim_spec(balance as int, monthly_payment as int, ir as int,
                    (MAX_SCHEDULE_MONTHS - k) as nat) {
                    Some(rest) => whole == Some(out@.map_values(|x: i128| x as int).add(rest)),
                    None => whole is None,
                }
            }),
        decreases MAX_SCHEDULE_MONTHS - k,
    {
        if k == MAX_SCHEDULE_MONTHS || balance > BALANCE_LIMIT {
            return Err(MortgageError::NonAmortizing);
        }
        proof {
            assert(balance * ir >= 0 && balance * ir <= BALANCE_LIMIT * 100_000_000_000)
                by (nonlinear_arith)
                requires
                    0 < balance <= BALANCE_LIMIT,
                    0 <= ir <= 100_000_000_000,
            ;
        }
        let interest: i128 = (balance * ir + RATE_SCALE / 2) / RATE_SCALE;
        let ghost old_out = out@;
        out.push(interest);
        proof {
            assert(out@.map_values(|x: i128| x as int) =~= old_out.map_values(|x: i128| x as int)
                .add(seq![interest as int]));
            let rest = sim_spec(balance + interest - monthly_payment, monthly_payment as int,
                ir as int, (MAX_SCHEDULE_MONTHS - k - 1) as nat);
            if rest is Some {
                assert(old_out.map_values(|x: i128| x as int).add(
                    seq![interest as int].add(rest.unwrap()),
                ) =~= out@.map_values(|x: i128| x as int).add(rest.unwrap()));
            }
        }
        balance = balance + interest - monthly_payment;
        k = k + 1;
    }
    Ok(out)
}

/// The closed-form monthly payment.
///
/// `interest_rate` is the annual percentage in micro-percent (2.6% is
/// `2_600_000`). The result is exact fixed-point arithmetic: the compounding
/// factor is built by `n` truncating multiplications at `RATE_SCALE` scale.
pub fn calculate_mortgage(principal: i128, interest_rate: i128, mortgage_duration_in_years: i32)
    -> (r: Result<i128, MortgageError>)
    requires
        0 <= principal <= AMOUNT_LIMIT,
        0 < interest_rate <= RATE_PCT_LIMIT,
        1 <= mortgage_duration_in_years <= 100,
    ensures
        ({
            let ir = monthly_rate_spec(interest_rate as int);
            let n = (mortgage_duration_in_years * 12) as nat;
            match r {
                Ok(m) => growth_spec(ir, n) <= POW_LIMIT && m == monthly_payment_spec(
                    principal as int,
                    interest_rate as int,
                    mortgage_duration_in_years as int,
                ) && 0 <= m <= 2 * AMOUNT_LIMIT,
                Err(e) => e == MortgageError::Overflow && growth_spec(ir, n) > POW_LIMIT,
            }
        }),
{
    let ir: i128 = (interest_rate * 10_000 + 6) / 12;
    assert(ir * 12 <= interest_rate * 10_000 + 6 && 0 < ir) by (nonlinear_arith)
        requires
            ir == (interest_rate * 10_000 + 6) / 12,
            0 < interest_rate,
    ;
    let n: usize = (mortgage_duration_in_years as usize) * 12;
    let mut acc: i128 = RATE_SCALE;
    let mut k: usize = 0;
    proof {
        lemma_growth_bounds(ir as int, 0);
    }
    while k < n
        invariant
            k <= n,
            n == mortgage_duration_in_years * 12,
            1 <= mortgage_duration_in_years <= 100,
            0 < ir <= 100_000_000_000,
            ir == monthly_rate_spec(interest_rate as int),
            acc == growth_spec(ir as int, k as nat),
            RATE_SCALE <= acc <= POW_LIMIT,
        decreases n - k,
    {
        proof {
            assert(acc * (RATE_SCALE + ir) <= POW_LIMIT * (RATE_SCALE + 100_000_000_000)
                && acc * (RATE_SCALE + ir) >= 0) by (nonlinear_arith)
                requires
                    0 <= acc <= POW_LIMIT,
                    0 < ir <= 100_000_000_000,
                    RATE_SCALE == 1_000_000_000_000,
                    POW_LIMIT == 100_000_000_000_000_000_000_000_000,
            ;
        }
        let next: i128 = (acc * (RATE_SCALE + ir) + RATE_SCALE / 2) / RATE_SCALE;
        proof {
            lemma_growth_bounds(ir as int, (k + 1) as nat);
        }
        if next > POW_LIMIT {
            proof {
                lemma_growth_monotone(ir as int, (k + 1) as nat, n as nat);
            }
            return Err(MortgageError::Overflow);
        }
        acc = next;
        k = k + 1;
    }
    proof {
        lemma_growth_bounds(ir as int, n as nat);
        assert(ir * acc >= 0 && ir * acc <= 100_000_000_000 * POW_LIMIT) by (nonlinear_arith)
            requires
                0 < ir <= 100_000_000_000,
                0 <= acc <= POW_LIMIT,
                POW_LIMIT == 100_000_000_000_000_000_000_000_000,
        ;
    }
    let t1: i128 = (ir * acc + (acc - RATE_SCALE) / 2) / (acc - RATE_SCALE);
    proof {
        assert(0 <= t1 <= ir + RATE_SCALE + 1) by (nonlinear_arith)
            requires
                t1 == (ir * acc + (acc - RATE_SCALE) / 2) / (acc - RATE_SCALE),
                acc >= RATE_SCALE + ir,
                0 < ir,
                acc <= POW_LIMIT,
                RATE_SCALE == 1_000_000_000_000,
                POW_LIMIT == 100_000_000_000_000_000_000_000_000,
        ;
        assert(principal * t1 >= 0 && principal * t1 <= AMOUNT_LIMIT * (100_000_000_000
            + RATE_SCALE + 1)) by (nonlinear_arith)
            requires
                0 <= principal <= AMOUNT_LIMIT,
                0 <= t1 <= 100_000_000_000 + RATE_SCALE + 1,
                RATE_SCALE == 1_000_000_000_000,
                AMOUNT_LIMIT == 100_000_000_000_000,
        ;
    }
    let m: i128 = (principal * t1 + RATE_SCALE / 2) / RATE_SCALE;
    proof {
        assert(0 <= m && m <= 2 * AMOUNT_LIMIT) by (nonlinear_arith)
            requires
                m == (principal * t1 + (RATE_SCALE as int) / 2) / (RATE_SCALE as int),
                0 <= principal * t1,
                principal * t1 <= AMOUNT_LIMIT * (100_000_000_000 + RATE_SCALE + 1),
                RATE_SCALE == 1_000_000_000_000,
                AMOUNT_LIMIT == 100_000_000_000_000,
        ;
    }
    Ok(m)
}

/// Sum of the first `k` downpayment amounts.
pub open spec fn dp_sum_spec(dps: Seq<Downpayment>, k: int) -> int
    decreases k,
{
    if k <= 0 {
        0
    } else {
        dp_sum_spec(dps, k - 1) + dps[k - 1].sum
    }
}

pub proof fn lemma_dp_sum_bounds(dps: Seq<Downpayment>, k: int)
    requires
        0 <= k <= dps.len(),
        forall|i: int| 0 <= i < dps.len() ==> 0 <= (#[trigger] dps[i]).sum <= AMOUNT_LIMIT,
    ensures
        0 <= dp_sum_spec(dps, k) <= k * AMOUNT_LIMIT,
    decreases k,
{
    if k > 0 {
        lemma_dp_sum_bounds(dps, k - 1);
        assert((k - 1) * AMOUNT_LIMIT + AMOUNT_LIMIT == k * AMOUNT_LIMIT) by (nonlinear_arith);
    }
}

/// A running total clamped so it never exceeds its grand total.
pub open spec fn clamp_paid(cum: int, total: int) -> int {
    if cum > total {
        total
    } else {
        cum
    }
}

/// `k` calendar-month steps, each clamping the day of month as the previous
/// step left it.
pub open spec fn iter_shift_months(d: Date, k: nat) -> Date
    decreases k,
{
    if k == 0 {
        d
    } else {
        iter_shift_months(d, (k - 1) as nat).shift_months_spec(1)
    }
}

impl Mortgage {
    pub open spec fn wf(self) -> bool {
        &&& 0 <= self.total <= AMOUNT_LIMIT
        &&& 0 < self.interest_rate_percentage <= RATE_PCT_LIMIT
        &&& 1 <= self.mortgage_duration_in_years <= 100
        &&& self.mortgage_first_payment.valid()
        &&& self.mortgage_first_payment.month_index() + MAX_SCHEDULE_MONTHS + 1 <= MAX_YEAR * 12
            + 11
        &&& self.downpayments@.len() <= 100
        &&& forall|i: int|
            0 <= i < self.downpayments@.len() ==> (0 <= (#[trigger] self.downpayments@[i]).sum
                <= AMOUNT_LIMIT && self.downpayments@[i].date.valid())
    }
}

/// The principal still owed once all downpayments are taken off the total.
pub open spec fn effective_principal_spec(m: Mortgage) -> int {
    m.total - dp_sum_spec(m.downpayments@, m.downpayments@.len() as int)
}

/// The interest-paid schedule a loan configuration leads to: empty when the
/// downpayments already cover the principal, `None` when the closed form
/// overflows or the simulation never pays the loan off.
pub open spec fn isched_spec(m: Mortgage) -> Option<Seq<int>> {
    let p = effective_principal_spec(m);
    if p <= 0 {
        Some(Seq::empty())
    } else {
        let ir = monthly_rate_spec(m.interest_rate_percentage as int);
        if growth_spec(ir, (m.mortgage_duration_in_years * 12) as nat) > POW_LIMIT {
            None
        } else {
            sim_spec(
                p,
                monthly_payment_spec(
                    p,
                    m.interest_rate_percentage as int,
                    m.mortgage_duration_in_years as int,
                ),
                ir,
                MAX_SCHEDULE_MONTHS as nat,
            )
        }
    }
}

/// The monthly payment the schedule uses: zero when nothing is owed.
pub open spec fn schedule_payment_spec(m: Mortgage) -> int {
    if effective_principal_spec(m) <= 0 {
        0
    } else {
        monthly_payment_spec(
            effective_principal_spec(m),
            m.interest_rate_percentage as int,
            m.mortgage_duration_in_years as int,
        )
    }
}

/// What the emitted schedule for one loan holds: one point per downpayment,
/// dated at the downpayment, then one point per simulated month, dated at the
/// first payment date stepped forward a month at a time; running totals
/// clamped against the original total principal and the total interest owed.
pub open spec fn schedule_matches(m: Mortgage, pts: Seq<MortgageSchedule>) -> bool {
    let dps = m.downpayments@;
    let ndp = dps.len() as int;
    let isc = isched_spec(m).unwrap();
    let ti = sum_prefix(isc, isc.len() as int);
    let mp = schedule_payment_spec(m);
    &&& isched_spec(m) is Some
    &&& pts.len() == ndp + isc.len()
    &&& forall|k: int|
        0 <= k < ndp ==> (#[trigger] pts[k]) == (MortgageSchedule {
            date: dps[k].date,
            interest_paid: 0,
            principal_paid: dps[k].sum,
            total_principal_paid: clamp_paid(dp_sum_spec(dps, k + 1), m.total as int) as i128,
            total_interest_paid: 0,
            total_principal_left: (m.total - clamp_paid(
                dp_sum_spec(dps, k + 1),
                m.total as int,
            )) as i128,
            total_interest_left: ti as i128,
        })
    &&& forall|k: int|
        0 <= k < isc.len() ==> (#[trigger] pts[ndp + k]) == (MortgageSchedule {
            date: iter_shift_months(m.mortgage_first_payment, k as nat),
            interest_paid: isc[k] as i128,
            principal_paid: (mp - isc[k]) as i128,
            total_principal_paid: clamp_paid(
                dp_sum_spec(dps, ndp) + (k + 1) * mp - sum_prefix(isc, k + 1),
                m.total as int,
            ) as i128,
            total_interest_paid: clamp_paid(sum_prefix(isc, k + 1), ti) as i128,
            total_principal_left: (m.total - clamp_paid(
                dp_sum_spec(dps, ndp) + (k + 1) * mp - sum_prefix(isc, k + 1),
                m.total as int,
            )) as i128,
            total_interest_left: (ti - clamp_paid(sum_prefix(isc, k + 1), ti)) as i128,
        })
    &&& forall|k: int|
        0 <= k < pts.len() ==> (#[trigger] pts[k]).total_principal_paid
            + pts[k].total_principal_left == m.total && pts[k].total_principal_paid <= m.total
            && pts[k].total_interest_left >= 0
    &&& (dp_sum_spec(dps, ndp) >= m.total ==> pts.len() == ndp)
}

/// The full emitted schedule for one loan.
pub fn parse_one_mortgage_schedule(m: &Mortgage) -> (r: Result<Vec<MortgageSchedule>, MortgageError>)
    requires
        m.wf(),
    ensures
        (r is Ok) == (isched_spec(*m) is Some),
        match r {
            Ok(v) => schedule_matches(*m, v@),
            Err(e) => true,
        },
{
    let ndp: usize = m.downpayments.len();
    let ghost dps = m.downpayments@;
    let mut dp_total: i128 = 0;
    let mut i: usize = 0;
    while i < ndp
        invariant
            m.wf(),
            ndp == dps.len(),
            dps == m.downpayments@,
            i <= ndp,
            dp_total == dp_sum_spec(dps, i as int),
            0 <= dp_total <= i * AMOUNT_LIMIT,
        decreases ndp - i,
    {
        proof {
            assert((i + 1) * AMOUNT_LIMIT == i * AMOUNT_LIMIT + AMOUNT_LIMIT) by (nonlinear_arith);
        }
        dp_total = dp_total + m.downpayments[i].sum;
        i = i + 1;
    }
    proof {
        assert(ndp * AMOUNT_LIMIT <= 100 * AMOUNT_LIMIT) by (nonlinear_arith)
            requires
                0 <= ndp <= 100,
                AMOUNT_LIMIT == 100_000_000_000_000,
        ;
    }
    let effective: i128 = m.total - dp_total;
    let monthly: i128;
    let isched: Vec<i128>;
    if effective <= 0 {
        monthly = 0;
        isched = Vec::new();
        proof {
            assert(isched_spec(*m) == Some(Seq::<int>::empty()));
            assert(isched@.map_values(|x: i128| x as int) =~= Seq::<int>::empty());
        }
    } else {
        let mp = match calculate_mortgage(
            effective,
            m.interest_rate_percentage,
            m.mortgage_duration_in_years,
        ) {
            Ok(x) => x,
            Err(e) => {
                return Err(e);
            },
        };
        let is = match calculate_interest_paid_schedule(effective, mp, m.interest_rate_percentage) {
            Ok(x) => x,
            Err(e) => {
                return Err(e);
            },
        };
        monthly = mp;
        isched = is;
    }
    let ghost isc = isched@.map_values(|x: i128| x as int);
    proof {
        assert(isched_spec(*m) == Some(isc));
        assert(monthly == schedule_payment_spec(*m));
        assert(forall|j: int| 0 <= j < isc.len() ==> 0 <= #[trigger] isc[j] <= 50_000_000_000_000);
    }
    let nm: usize = isched.len();
    // Total interest owed over the whole schedule, needed up front to seed
    // the interest-left totals.
    let mut ti: i128 = 0;
    let mut j: usize = 0;
    while j < nm
        invariant
            nm == isched.len(),
            isc == isched@.map_values(|x: i128| x as int),
            forall|q: int| 0 <= q < isc.len() ==> 0 <= #[trigger] isc[q] <= 50_000_000_000_000,
            j <= nm,
            ti == sum_prefix(isc, j as int),
            0 <= ti <= j * 50_000_000_000_000,
        decreases nm - j,
    {
        proof {
            assert((j + 1) * 50_000_000_000_000 == j * 50_000_000_000_000 + 50_000_000_000_000)
                by (nonlinear_arith);
        }
        proof {
            assert(isc[j as int] == isched@[j as int] as int);
        }
        ti = ti + isched[j];
        j = j + 1;
    }
    proof {
        assert(nm * 50_000_000_000_000 <= 600_000_000_000_000_000) by (nonlinear_arith)
            requires
                0 <= nm <= 12_000,
        ;
    }
    let mut out: Vec<MortgageSchedule> = Vec::new();
    let mut cum: i128 = 0;
    let mut k: usize = 0;
    while k < ndp
        invariant
            m.wf(),
            ndp == dps.len(),
            dps == m.downpayments@,
            k <= ndp,
            cum == dp_sum_spec(dps, k as int),
            0 <= cum <= k * AMOUNT_LIMIT,
            k <= 100,
            0 <= ti <= 600_000_000_000_000_000,
            ti == sum_prefix(isc, isc.len() as int),
            out@.len() == k,
            forall|q: int|
                0 <= q < k ==> (#[trigger] out@[q]) == (MortgageSchedule {
                    date: dps[q].date,
                    interest_paid: 0,
                    principal_paid: dps[q].sum,
                    total_principal_paid: clamp_paid(dp_sum_spec(dps, q + 1), m.total as int) as i128,
                    total_interest_paid: 0,
                    total_principal_left: (m.total - clamp_paid(dp_sum_spec(dps, q + 1), m.total as int)) as i128,
                    total_interest_left: ti as i128,
                }),
        decreases ndp - k,
    {
        proof {
            assert((k + 1) * AMOUNT_LIMIT == k * AMOUNT_LIMIT + AMOUNT_LIMIT) by (nonlinear_arith);
        }
        cum = cum + m.downpayments[k].sum;
        let tpp: i128 = if cum > m.total {
            m.total
        } else {
            cum
        };
        out.push(
            MortgageSchedule {
                date: m.downpayments[k].date,
                interest_paid: 0,
                principal_paid: m.downpayments[k].sum,
                total_principal_paid: tpp,
                total_interest_paid: 0,
                total_principal_left: m.total - tpp,
                total_interest_left: ti,
            },
        );
        k = k + 1;
    }
    let mut mortgage_date: Date = m.mortgage_first_payment;
    let mut cum_int: i128 = 0;
    let mut cum_prin: i128 = dp_total;
    let mut k2: usize = 0;
    while k2 < nm
        invariant
            m.wf(),
            ndp == dps.len(),
            dps == m.downpayments@,
            nm == isched.len(),
            isc == isched@.map_values(|x: i128| x as int),
            forall|q: int| 0 <= q < isc.len() ==> 0 <= #[trigger] isc[q] <= 50_000_000_000_000,
            nm <= MAX_SCHEDULE_MONTHS,
            k2 <= nm,
            0 <= monthly <= 2 * AMOUNT_LIMIT,
            monthly == schedule_payment_spec(*m),
            0 <= dp_total <= 100 * AMOUNT_LIMIT,
            dp_total == dp_sum_spec(dps, ndp as int),
            0 <= ti <= 600_000_000_000_000_000,
            ti == sum_prefix(isc, isc.len() as int),
            cum_int == sum_prefix(isc, k2 as int),
            0 <= cum_int <= k2 * 50_000_000_000_000,
            cum_prin == dp_sum_spec(dps, ndp as int) + k2 * monthly - sum_prefix(isc, k2 as int),
            -(k2 * AMOUNT_LIMIT) <= cum_prin,
            cum_prin <= 100 * AMOUNT_LIMIT + k2 * 3 * AMOUNT_LIMIT,
            mortgage_date == iter_shift_months(m.mortgage_first_payment, k2 as nat),
            mortgage_date.valid(),
            mortgage_date.month_index() == m.mortgage_first_payment.month_index() + k2,
            out@.len() == ndp + k2,
            forall|q: int|
                0 <= q < ndp ==> (#[trigger] out@[q]) == (MortgageSchedule {
                    date: dps[q].date,
                    interest_paid: 0,
                    principal_paid: dps[q].sum,
                    total_principal_paid: clamp_paid(dp_sum_spec(dps, q + 1), m.total as int) as i128,
                    total_interest_paid: 0,
                    total_principal_left: (m.total - clamp_paid(dp_sum_spec(dps, q + 1), m.total as int)) as i128,
                    total_interest_left: ti as i128,
                }),
            forall|q: int|
                0 <= q < k2 ==> (#[trigger] out@[ndp + q]) == (MortgageSchedule {
                    date: iter_shift_months(m.mortgage_first_payment, q as nat),
                    interest_paid: isc[q] as i128,
                    principal_paid: (monthly - isc[q]) as i128,
                    total_principal_paid: clamp_paid(
                        dp_sum_spec(dps, ndp as int) + (q + 1) * monthly - sum_prefix(isc, q + 1),
                        m.total as int,
                    ) as i128,
                    total_interest_paid: clamp_paid(sum_prefix(isc, q + 1), ti as int) as i128,
                    total_principal_left: (m.total - clamp_paid(
                        dp_sum_spec(dps, ndp as int) + (q + 1) * monthly - sum_prefix(isc, q + 1),
                        m.total as int,
                    )) as i128,
                    total_interest_left: (ti - clamp_paid(sum_prefix(isc, q + 1), ti as int)) as i128,
                }),
        decreases nm - k2,
    {
        proof {
            assert((k2 + 1) * 50_000_000_000_000 == k2 * 50_000_000_000_000 + 50_000_000_000_000)
                by (nonlinear_arith);
            assert((k2 + 1) * monthly == k2 * monthly + monthly) by (nonlinear_arith);
            assert((k2 + 1) * AMOUNT_LIMIT == k2 * AMOUNT_LIMIT + AMOUNT_LIMIT) by (nonlinear_arith);
            assert(100 * AMOUNT_LIMIT + (k2 + 1) * 3 * AMOUNT_LIMIT == 100 * AMOUNT_LIMIT + k2 * 3
                * AMOUNT_LIMIT + 3 * AMOUNT_LIMIT) by (nonlinear_arith);
            assert(k2 * 50_000_000_000_000 <= 12_000 * 50_000_000_000_000) by (nonlinear_arith)
                requires
                    0 <= k2 <= 12_000,
            ;
            assert(k2 * AMOUNT_LIMIT <= 12_000 * AMOUNT_LIMIT && k2 * 3 * AMOUNT_LIMIT <= 12_000
                * 3 * AMOUNT_LIMIT) by (nonlinear_arith)
                requires
                    0 <= k2 <= 12_000,
                    AMOUNT_LIMIT == 100_000_000_000_000,
            ;
        }
        let interest: i128 = isched[k2];
        proof {
            assert(isc[k2 as int] == isched@[k2 as int] as int);
            assert(0 <= interest <= 50_000_000_000_000);
        }
        cum_int = cum_int + interest;
        let tip: i128 = if cum_int > ti {
            ti
        } else {
            cum_int
        };
        let principal_paid: i128 = monthly - interest;
        cum_prin = cum_prin + principal_paid;
        let tpp: i128 = if cum_prin > m.total {
            m.total
        } else {
            cum_prin
        };
        out.push(
            MortgageSchedule {
                date: mortgage_date,
                interest_paid: interest,
                principal_paid,
                total_principal_paid: tpp,
                total_interest_paid: tip,
                total_principal_left: m.total - tpp,
                total_interest_left: ti - tip,
            },
        );
        mortgage_date = mortgage_date.shift_months(1);
        k2 = k2 + 1;
    }
    proof {
        if dp_sum_spec(dps, ndp as int) >= m.total {
            assert(effective_principal_spec(*m) <= 0);
            assert(isc.len() == 0);
        }
        assert forall|q: int|
            0 <= q < out@.len() implies (#[trigger] out@[q]).total_principal_paid
            + out@[q].total_principal_left == m.total && out@[q].total_principal_paid <= m.total
            && out@[q].total_interest_left >= 0 by {
            if q < ndp {
                lemma_dp_sum_bounds(dps, q + 1);
                assert(out@[q] == (MortgageSchedule {
                    date: dps[q].date,
                    interest_paid: 0,
                    principal_paid: dps[q].sum,
                    total_principal_paid: clamp_paid(dp_sum_spec(dps, q + 1), m.total as int) as i128,
                    total_interest_paid: 0,
                    total_principal_left: (m.total - clamp_paid(dp_sum_spec(dps, q + 1), m.total as int)) as i128,
                    total_interest_left: ti as i128,
                }));
            } else {
                let w = q - ndp;
                lemma_dp_sum_bounds(dps, ndp as int);
                crate::fixed::lemma_sum_prefix_bounds(isc, w + 1, 0, 50_000_000_000_000);
                crate::fixed::lemma_sum_prefix_bounds(isc, isc.len() as int, 0, 50_000_000_000_000);
                assert(0 <= (w + 1) * monthly <= 12_001 * (2 * AMOUNT_LIMIT) && (w + 1)
                    * 50_000_000_000_000 <= 12_001 * 50_000_000_000_000 && ndp * AMOUNT_LIMIT <= 100
                    * AMOUNT_LIMIT && isc.len() * 50_000_000_000_000 <= 12_000
                    * 50_000_000_000_000) by (nonlinear_arith)
                    requires
                        0 <= w < isc.len() <= 12_000,
                        0 <= monthly <= 2 * AMOUNT_LIMIT,
                        0 <= ndp <= 100,
                        AMOUNT_LIMIT == 100_000_000_000_000,
                ;
                assert(out@[ndp + w] == (MortgageSchedule {
                    date: iter_shift_months(m.mortgage_first_payment, w as nat),
                    interest_paid: isc[w] as i128,
                    principal_paid: (monthly - isc[w]) as i128,
                    total_principal_paid: clamp_paid(
                        dp_sum_spec(dps, ndp as int) + (w + 1) * monthly - sum_prefix(isc, w + 1),
                        m.total as int,
                    ) as i128,
                    total_interest_paid: clamp_paid(sum_prefix(isc, w + 1), ti as int) as i128,
                    total_principal_left: (m.total - clamp_paid(
                        dp_sum_spec(dps, ndp as int) + (w + 1) * monthly - sum_prefix(isc, w + 1),
                        m.total as int,
                    )) as i128,
                    total_interest_left: (ti - clamp_paid(sum_prefix(isc, w + 1), ti as int)) as i128,
                }));
            }
        }
    }
    Ok(out)
}

impl MortgageConfig {
    pub open spec fn wf(self) -> bool {
        forall|i: int| 0 <= i < self.mortgages@.len() ==> (#[trigger] self.mortgages@[i]).wf()
    }
}

/// One emitted schedule per configured loan, in configuration order.
pub fn generate_mortgage_schedule(config: &MortgageConfig) -> (r: Result<
    Vec<Vec<MortgageSchedule>>,
    MortgageError,
>)
    requires
        config.wf(),
    ensures
        (r is Ok) == (forall|i: int|
            0 <= i < config.mortgages@.len() ==> isched_spec(#[trigger] config.mortgages@[i])
                is Some),
        match r {
            Ok(v) => v@.len() == config.mortgages@.len() && forall|i: int|
                0 <= i < v@.len() ==> schedule_matches(config.mortgages@[i], (#[trigger] v@[i])@),
            Err(e) => true,
        },
{
    let n: usize = config.mortgages.len();
    let mut out: Vec<Vec<MortgageSchedule>> = Vec::new();
    let mut i: usize = 0;
    while i < n
        invariant
            config.wf(),
            n == config.mortgages@.len(),
            i <= n,
            out@.len() == i,
            forall|j: int| 0 <= j < i ==> isched_spec(#[trigger] config.mortgages@[j]) is Some,
            forall|j: int|
                0 <= j < i ==> schedule_matches(config.mortgages@[j], (#[trigger] out@[j])@),
        decreases n - i,
    {
        let sched = match parse_one_mortgage_schedule(&config.mortgages[i]) {
            Ok(s) => s,
            Err(e) => {
                return Err(e);
            },
        };
        out.push(sched);
        i = i + 1;
    }
    Ok(out)
}

/// Law: at every schedule point, the principal paid so far and the principal
/// still left add up exactly to the original total principal, and the paid
/// total never exceeds it.
pub proof fn lemma_principal_conservation(m: Mortgage, pts: Seq<MortgageSchedule>, k: int)
    requires
        schedule_matches(m, pts),
        0 <= k < pts.len(),
    ensures
        pts[k].total_principal_paid + pts[k].total_principal_left == m.total,
        pts[k].total_principal_paid <= m.total,
        pts[k].total_interest_left >= 0,
{
}

/// Law: downpayments that cover the full principal leave a schedule with no
/// monthly entries at all, only the downpayment points themselves.
pub proof fn lemma_full_downpayment_no_monthly(m: Mortgage, pts: Seq<MortgageSchedule>)
    requires
        schedule_matches(m, pts),
        dp_sum_spec(m.downpayments@, m.downpayments@.len() as int) >= m.total,
    ensures
        pts.len() == m.downpayments@.len(),
{
}

} // verus!
