//! Calendar dates as plain year/month/day values.
//!
//! Selection keys records by `(group, date)` and looks back a fixed number of
//! days, so all the arithmetic this crate needs is stepping a date backward or
//! forward by one day at a time.

use vstd::prelude::*;

verus! {

/// A calendar date (no time component).
#[derive(Clone, Copy, Debug, PartialEq, Eq, Structural)]
pub struct Date {
    pub year: u16,
    pub month: u8,
    pub day: u8,
}

pub open spec fn spec_is_leap_year(y: int) -> bool {
    (y % 4 == 0 && y % 100 != 0) || y % 400 == 0
}

pub open spec fn spec_days_in_month(y: int, m: int) -> int {
    if m == 2 {
        if spec_is_leap_year(y) {
            29
        } else {
            28
        }
    } else if m == 4 || m == 6 || m == 9 || m == 11 {
        30
    } else {
        31
    }
}

impl Date {
    /// A date is valid when the month exists and the day exists in that month.
    pub open spec fn valid(self) -> bool {
        &&& 1 <= self.year <= 9999
        &&& 1 <= self.month <= 12
        &&& 1 <= self.day <= spec_days_in_month(self.year as int, self.month as int)
    }

    /// The calendar day before `self`.
    pub open spec fn spec_prev(self) -> Date {
        if self.day > 1 {
            Date { year: self.year, month: self.month, day: (self.day - 1) as u8 }
        } else if self.month > 1 {
            Date {
                year: self.year,
                month: (self.month - 1) as u8,
                day: spec_days_in_month(self.year as int, self.month as int - 1) as u8,
            }
        } else {
            Date { year: (self.year - 1) as u16, month: 12, day: 31 }
        }
    }

    /// The date `n` calendar days before `self`.
    pub open spec fn spec_prev_n(self, n: nat) -> Date
        decreases n,
    {
        if n == 0 {
            self
        } else {
            self.spec_prev().spec_prev_n((n - 1) as nat)
        }
    }

    /// The calendar day after `self`.
    pub open spec fn spec_next(self) -> Date {
        if self.day < spec_days_in_month(self.year as int, self.month as int) {
            Date { year: self.year, month: self.month, day: (self.day + 1) as u8 }
        } else if self.month < 12 {
            Date { year: self.year, month: (self.month + 1) as u8, day: 1 }
        } else {
            Date { year: (self.year + 1) as u16, month: 1, day: 1 }
        }
    }

    pub fn new(year: u16, month: u8, day: u8) -> (r: Date)
        requires
            (Date { year, month, day }).valid(),
        ensures
            r == (Date { year, month, day }),
    {
        Date { year, month, day }
    }

    /// The calendar day before `self`.
    pub fn prev_day(&self) -> (r: Date)
        requires
            self.valid(),
            !(self.year == 1 && self.month == 1 && self.day == 1),
        ensures
            r == self.spec_prev(),
            r.valid(),
    {
        if self.day > 1 {
            Date { year: self.year, month: self.month, day: self.day - 1 }
        } else if self.month > 1 {
            Date {
                year: self.year,
                month: self.month - 1,
                day: days_in_month(self.year, self.month - 1),
            }
        } else {
            Date { year: self.year - 1, month: 12, day: 31 }
        }
    }

    /// The calendar day after `self`.
    pub fn next_day(&self) -> (r: Date)
        requires
            self.valid(),
            !(self.year == 9999 && self.month == 12 && self.day == 31),
        ensures
            r == self.spec_next(),
            r.valid(),
    {
        let dim: u8 = days_in_month(self.year, self.month);
        if self.day < dim {
            Date { year: self.year, month: self.month, day: self.day + 1 }
        } else if self.month < 12 {
            Date { year: self.year, month: self.month + 1, day: 1 }
        } else {
            Date { year: self.year + 1, month: 1, day: 1 }
        }
    }
}

pub fn is_leap_year(y: u16) -> (r: bool)
    ensures
        r == spec_is_leap_year(y as int),
{
    (y % 4 == 0 && y % 100 != 0) || y % 400 == 0
}

pub fn days_in_month(y: u16, m: u8) -> (r: u8)
    ensures
        r == spec_days_in_month(y as int, m as int),
{
    if m == 2 {
        if is_leap_year(y) {
            29
        } else {
            28
        }
    } else if m == 4 || m == 6 || m == 9 || m == 11 {
        30
    } else {
        31
    }
}

/// Stepping forward undoes stepping back.
pub proof fn lemma_prev_next_round_trip(d: Date)
    requires
        d.valid(),
        !(d.year == 1 && d.month == 1 && d.day == 1),
    ensures
        d.spec_prev().spec_next() == d,
{
}

/// Stepping back undoes stepping forward.
pub proof fn lemma_next_prev_round_trip(d: Date)
    requires
        d.valid(),
        !(d.year == 9999 && d.month == 12 && d.day == 31),
    ensures
        d.spec_next().spec_prev() == d,
{
}

/// Stepping back `n + 1` days is stepping back `n` days and then one more.
pub proof fn lemma_prev_n_succ(d: Date, n: nat)
    ensures
        d.spec_prev_n(n + 1) == d.spec_prev_n(n).spec_prev(),
    decreases n,
{
    if n == 0 {
        assert(d.spec_prev_n(1) == d.spec_prev().spec_prev_n(0));
        assert(d.spec_prev().spec_prev_n(0) == d.spec_prev());
    } else {
        lemma_prev_n_succ(d.spec_prev(), (n - 1) as nat);
        assert(d.spec_prev_n(n + 1) == d.spec_prev().spec_prev_n(n));
        assert(d.spec_prev_n(n) == d.spec_prev().spec_prev_n((n - 1) as nat));
    }
}

} // verus!
