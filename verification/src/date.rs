use vstd::prelude::*;

verus! {

/// A calendar date with no time component, as the interface's
/// `YYYY-MM-DD` payload fields carry it.
#[derive(Clone, Copy, PartialEq, Eq, Structural, Debug)]
pub struct Date {
    pub year: i32,
    pub month: u8,
    pub day: u8,
}

pub open spec fn spec_is_leap_year(y: int) -> bool {
    y % 4 == 0 && (y % 100 != 0 || y % 400 == 0)
}

pub open spec fn spec_days_in_month(y: int, m: int) -> int {
    if m == 2 {
        if spec_is_leap_year(y) {
            29
        } else {
            28
        }
    } else if m == 4 || m == 6 || m == 9 || m == 11 {
        30
    } else {
        31
    }
}

impl Date {
    /// A well-formed date: a four-digit year and a day that exists in
    /// the given month, February 29 only in leap years.
    pub open spec fn wf(self) -> bool {
        &&& 0 <= self.year <= 9999
        &&& 1 <= self.month <= 12
        &&& 1 <= self.day <= spec_days_in_month(self.year as int, self.month as int)
    }

    pub fn is_leap_year(year: i32) -> (r: bool)
        requires
            0 <= year,
        ensures
            r == spec_is_leap_year(year as int),
    {
        let y: u32 = year as u32;
        y % 4 == 0 && (y % 100 != 0 || y % 400 == 0)
    }

    pub fn days_in_month(year: i32, month: u8) -> (r: u8)
        requires
            0 <= year,
            1 <= month <= 12,
        ensures
            r as int == spec_days_in_month(year as int, month as int),
    {
        if month == 2 {
            if Date::is_leap_year(year) {
                29
            } else {
                28
            }
        } else if month == 4 || month == 6 || month == 9 || month == 11 {
            30
        } else {
            31
        }
    }

    /// Builds a date from its components; `None` exactly when they do
    /// not form a well-formed calendar date.
    pub fn new(year: i32, month: u8, day: u8) -> (r: Option<Date>)
        ensures
            match r {
                Some(d) => d == (Date { year, month, day }) && d.wf(),
                None => !(Date { year, month, day }).wf(),
            },
    {
        if 0 <= year && year <= 9999 && 1 <= month && month <= 12 && 1 <= day
            && day <= Date::days_in_month(year, month) {
            Some(Date { year, month, day })
        } else {
            None
        }
    }
}

} // verus!
