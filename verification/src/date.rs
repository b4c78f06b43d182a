//! Calendar dates and the date-stepping arithmetic shared by every series
//! builder: day stepping, calendar-month stepping with day-of-month clamping,
//! and last-day-of-month computation.

use vstd::prelude::*;

verus! {

/// Years the engine accepts; keeps all date arithmetic far from overflow.
pub const MIN_YEAR: i32 = 1;
pub const MAX_YEAR: i32 = 9999;

/// A calendar date in the proleptic Gregorian calendar.
#[derive(Clone, Copy, PartialEq, Eq, Structural, Debug, Hash)]
pub struct Date {
    pub year: i32,
    pub month: i32,
    pub day: i32,
}

pub open spec fn is_leap_year_spec(y: int) -> bool {
    (y % 4 == 0 && y % 100 != 0) || y % 400 == 0
}

pub open spec fn days_in_month_spec(y: int, m: int) -> int {
    if m == 2 {
        if is_leap_year_spec(y) {
            29
        } else {
            28
        }
    } else if m == 4 || m == 6 || m == 9 || m == 11 {
        30
    } else {
        31
    }
}

impl Date {
    pub open spec fn valid(self) -> bool {
        &&& MIN_YEAR <= self.year <= MAX_YEAR
        &&& 1 <= self.month <= 12
        &&& 1 <= self.day <= days_in_month_spec(self.year as int, self.month as int)
    }

    /// Strict calendar order.
    pub open spec fn before(self, other: Date) -> bool {
        ||| self.year < other.year
        ||| (self.year == other.year && self.month < other.month)
        ||| (self.year == other.year && self.month == other.month && self.day < other.day)
    }

    pub open spec fn on_or_before(self, other: Date) -> bool {
        self.before(other) || self == other
    }

    /// Months elapsed since the calendar epoch; orders dates month-first.
    pub open spec fn month_index(self) -> int {
        self.year * 12 + self.month - 1
    }

    /// The greatest date the engine handles; day stepping stops there.
    pub open spec fn is_max_date(self) -> bool {
        self.year == MAX_YEAR && self.month == 12 && self.day == 31
    }

    pub open spec fn next_day_spec(self) -> Date {
        if self.is_max_date() {
            self
        } else if self.day < days_in_month_spec(self.year as int, self.month as int) {
            Date { year: self.year, month: self.month, day: (self.day + 1) as i32 }
        } else if self.month < 12 {
            Date { year: self.year, month: (self.month + 1) as i32, day: 1 }
        } else {
            Date { year: (self.year + 1) as i32, month: 1, day: 1 }
        }
    }

    pub open spec fn prev_day_spec(self) -> Date {
        if self.day > 1 {
            Date { year: self.year, month: self.month, day: (self.day - 1) as i32 }
        } else if self.month > 1 {
            Date {
                year: self.year,
                month: (self.month - 1) as i32,
                day: days_in_month_spec(self.year as int, self.month - 1) as i32,
            }
        } else {
            Date { year: (self.year - 1) as i32, month: 12, day: 31 }
        }
    }

    /// Calendar-month shift: the day of month is preserved, clamped to the
    /// length of the target month.
    pub open spec fn shift_months_spec(self, n: int) -> Date {
        let idx = self.month_index() + n;
        let y = idx / 12;
        let m = idx % 12 + 1;
        let dm = days_in_month_spec(y, m);
        Date { year: y as i32, month: m as i32, day: if self.day <= dm { self.day } else { dm as i32 } }
    }
}

pub fn is_leap_year(y: i32) -> (r: bool)
    requires
        y >= 0,
    ensures
        r == is_leap_year_spec(y as int),
{
    let yu: u32 = y as u32;
    (yu % 4 == 0 && yu % 100 != 0) || yu % 400 == 0
}

pub fn days_in_month(y: i32, m: i32) -> (r: i32)
    requires
        y >= 0,
        1 <= m <= 12,
    ensures
        r == days_in_month_spec(y as int, m as int),
{
    if m == 2 {
        if is_leap_year(y) {
            29
        } else {
            28
        }
    } else if m == 4 || m == 6 || m == 9 || m == 11 {
        30
    } else {
        31
    }
}

impl Date {
    pub fn new(year: i32, month: i32, day: i32) -> (r: Date)
        ensures
            r == (Date { year, month, day }),
    {
        Date { year, month, day }
    }

    pub fn is_before(&self, other: &Date) -> (r: bool)
        ensures
            r == self.before(*other),
    {
        self.year < other.year || (self.year == other.year && (self.month < other.month || (
        self.month == other.month && self.day < other.day)))
    }

    pub fn is_on_or_before(&self, other: &Date) -> (r: bool)
        ensures
            r == self.on_or_before(*other),
    {
        !other.is_before(self)
    }

    pub fn next_day(&self) -> (r: Date)
        requires
            self.valid(),
            !self.is_max_date(),
        ensures
            r == self.next_day_spec(),
            r.valid(),
            self.before(r),
    {
        let dm = days_in_month(self.year, self.month);
        if self.day < dm {
            Date { year: self.year, month: self.month, day: self.day + 1 }
        } else if self.month < 12 {
            Date { year: self.year, month: self.month + 1, day: 1 }
        } else {
            Date { year: self.year + 1, month: 1, day: 1 }
        }
    }

    pub fn prev_day(&self) -> (r: Date)
        requires
            self.valid(),
            !(self.year == MIN_YEAR && self.month == 1 && self.day == 1),
        ensures
            r == self.prev_day_spec(),
            r.valid(),
            r.before(*self),
    {
        if self.day > 1 {
            Date { year: self.year, month: self.month, day: self.day - 1 }
        } else if self.month > 1 {
            Date { year: self.year, month: self.month - 1, day: days_in_month(self.year, self.month - 1) }
        } else {
            Date { year: self.year - 1, month: 12, day: 31 }
        }
    }

    pub fn shift_months(&self, n: i32) -> (r: Date)
        requires
            self.valid(),
            MIN_YEAR * 12 <= self.month_index() + n,
            self.month_index() + n <= MAX_YEAR * 12 + 11,
        ensures
            r == self.shift_months_spec(n as int),
            r.valid(),
            r.month_index() == self.month_index() + n,
    {
        let idx: i32 = self.year * 12 + self.month - 1 + n;
        let idxu: u32 = idx as u32;
        let y: i32 = (idxu / 12) as i32;
        let m: i32 = (idxu % 12) as i32 + 1;
        let dm = days_in_month(y, m);
        let day = if self.day <= dm {
            self.day
        } else {
            dm
        };
        let r = Date { year: y, month: m, day };
        proof {
            let idx = self.month_index() + n;
            assert(idx / 12 * 12 + idx % 12 == idx) by (nonlinear_arith);
            assert(MIN_YEAR <= idx / 12 <= MAX_YEAR) by (nonlinear_arith)
                requires
                    MIN_YEAR * 12 <= idx <= MAX_YEAR * 12 + 11,
            ;
        }
        r
    }
}

impl Date {
    /// The last calendar day of the month that `self` falls in.
    pub open spec fn last_day_of_month_spec(self) -> Date {
        Date {
            year: self.year,
            month: self.month,
            day: days_in_month_spec(self.year as int, self.month as int) as i32,
        }
    }
}

/// The last calendar day of the month that `d` falls in.
pub fn get_last_day_of_month(d: &Date) -> (r: Date)
    requires
        d.valid(),
    ensures
        r == d.last_day_of_month_spec(),
        r.valid(),
        r.month_index() == d.month_index(),
        d.on_or_before(r),
{
    Date { year: d.year, month: d.month, day: days_in_month(d.year, d.month) }
}

pub fn is_last_day_of_month(d: &Date) -> (r: bool)
    requires
        d.valid(),
    ensures
        r == (d.day == days_in_month_spec(d.year as int, d.month as int)),
{
    d.day == days_in_month(d.year, d.month)
}

/// One day forward keeps a date valid and never moves it back; away from the
/// greatest date it moves strictly forward.
pub proof fn lemma_next_day_step(x: Date)
    requires
        x.valid(),
    ensures
        x.next_day_spec().valid(),
        x.on_or_before(x.next_day_spec()),
        !x.is_max_date() ==> x.before(x.next_day_spec()),
{
}

/// There is no calendar date strictly between a day and its successor.
pub proof fn lemma_no_date_between(a: Date, x: Date)
    requires
        a.valid(),
        x.valid(),
        a.before(x.next_day_spec()),
    ensures
        a.on_or_before(x),
{
}

/// Ordering by `before` agrees with ordering by month index on the month part;
/// dates in earlier months are `before` dates in later months.
pub proof fn lemma_before_month_index(a: Date, b: Date)
    requires
        a.valid(),
        b.valid(),
        a.before(b),
    ensures
        a.month_index() <= b.month_index(),
{
    if a.year < b.year {
        assert(a.month_index() <= b.month_index()) by (nonlinear_arith)
            requires
                a.year < b.year,
                1 <= a.month <= 12,
                1 <= b.month <= 12,
        ;
    }
}

} // verus!
