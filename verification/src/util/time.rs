//! Dates and times of day.

use vstd::prelude::*;

use crate::util::text::{decimal, decimal_of, digit, digit_of};

verus! {

/// A day of the calendar.
#[derive(Debug, Clone, Copy, PartialEq, Eq, Structural)]
pub struct Date {
    pub year: u64,
    pub month: u64,
    pub day: u64,
}

/// True for a year with a 29th of February.
pub open spec fn leap(year: int) -> bool {
    year % 4 == 0 && (year % 100 != 0 || year % 400 == 0)
}

/// The days of a year.
pub open spec fn year_length(year: int) -> int {
    if leap(year) {
        366
    } else {
        365
    }
}

/// The days of a month.
pub open spec fn month_length(year: int, month: int) -> int {
    if month == 2 {
        if leap(year) {
            29
        } else {
            28
        }
    } else if month == 4 || month == 6 || month == 9 || month == 11 {
        30
    } else {
        31
    }
}

/// The days from the start of 1970 to the start of a year.
pub open spec fn days_to_year(year: int) -> int
    decreases year - 1970,
{
    if year <= 1970 {
        0
    } else {
        days_to_year(year - 1) + year_length(year - 1)
    }
}

/// The days from the start of a year to the start of a month.
pub open spec fn days_to_month(year: int, month: int) -> int
    decreases month,
{
    if month <= 1 {
        0
    } else {
        days_to_month(year, month - 1) + month_length(year, month - 1)
    }
}

impl Date {
    /// True for a day that there is.
    pub open spec fn wf(self) -> bool {
        &&& 1970 <= self.year
        &&& 1 <= self.month <= 12
        &&& 1 <= self.day <= month_length(self.year as int, self.month as int)
    }

    /// The days from the start of 1970 to this one.
    pub open spec fn number(self) -> int {
        days_to_year(self.year as int) + days_to_month(self.year as int, self.month as int)
            + self.day - 1
    }
}

/// True for a year with a 29th of February.
fn is_leap(year: u64) -> (r: bool)
    ensures
        r == leap(year as int),
{
    year % 4 == 0 && (year % 100 != 0 || year % 400 == 0)
}

/// The days of a month.
fn length_of_month(year: u64, month: u64) -> (r: u64)
    ensures
        r == month_length(year as int, month as int),
{
    if month == 2 {
        if is_leap(year) {
            29
        } else {
            28
        }
    } else if month == 4 || month == 6 || month == 9 || month == 11 {
        30
    } else {
        31
    }
}

/// The months of a year have its days between them.
proof fn lemma_months(year: int)
    ensures
        days_to_month(year, 12) + 31 == year_length(year),
{
    reveal_with_fuel(days_to_month, 13);
}

/// The day a number of seconds after the start of 1970.
pub fn date_of(seconds: u64) -> (r: Date)
    ensures
        r.wf(),
        r.number() == seconds / 86400,
{
    let days: u64 = seconds / 86400;
    let mut left: u64 = days;
    let mut year: u64 = 1970;
    loop
        invariant
            days <= 0x1_0000_0000_0000,
            1970 <= year,
            year + left <= 1970 + days,
            days_to_year(year as int) + left == days,
        ensures
            left < year_length(year as int),
            1970 <= year,
            days_to_year(year as int) + left == days,
        decreases left,
    {
        let length: u64 = if is_leap(year) {
            366
        } else {
            365
        };
        if left < length {
            break;
        }
        left = left - length;
        year = year + 1;
    }
    let mut month: u64 = 1;
    let ghost rest = left as int;
    while month < 12 && left >= length_of_month(year, month)
        invariant
            1 <= month <= 12,
            rest < year_length(year as int),
            days_to_month(year as int, month as int) + left == rest,
        decreases 12 - month,
    {
        left = left - length_of_month(year, month);
        month = month + 1;
    }
    proof {
        lemma_months(year as int);
    }
    Date { year, month, day: left + 1 }
}

/// A number below 100 in two digits.
pub open spec fn two_digits(n: int) -> Seq<char> {
    seq![digit_of(n / 10), digit_of(n % 10)]
}

/// A number below 100 in two digits.
fn two(n: u64) -> (r: String)
    requires
        n < 100,
    ensures
        r@ == two_digits(n as int),
{
    let mut out: String = String::from_str(digit((n / 10) as u8));
    out.append(digit((n % 10) as u8));
    assert(out@ =~= two_digits(n as int));
    out
}

/// A day in writing.
pub open spec fn date_text(d: Date) -> Seq<char> {
    decimal_of(d.year as nat) + "-"@ + two_digits(d.month as int) + "-"@ + two_digits(d.day as int)
}

/// A day in writing.
pub fn date_string(d: Date) -> (r: String)
    requires
        d.wf(),
    ensures
        r@ == date_text(d),
{
    let month: String = two(d.month);
    let day: String = two(d.day);
    let mut out: String = decimal(d.year);
    out.append("-");
    out.append(month.as_str());
    out.append("-");
    out.append(day.as_str());
    out
}

/// The time of day in writing.
pub open spec fn time_text(second: int) -> Seq<char> {
    two_digits(second / 3600) + ":"@ + two_digits(second / 60 % 60) + ":"@ + two_digits(second % 60)
}

/// The day and the time of day, a number of seconds after the start of 1970.
pub fn timestamp_string(seconds: u64) -> (r: String)
    ensures
        exists|d: Date|
            #![trigger d.wf()]
            d.wf() && d.number() == seconds / 86400 && r@ == date_text(d) + " "@ + time_text(
                (seconds % 86400) as int,
            ),
{
    let d: Date = date_of(seconds);
    let second: u64 = seconds % 86400;
    let hours: String = two(second / 3600);
    let minutes: String = two(second / 60 % 60);
    let rest: String = two(second % 60);
    let mut out: String = date_string(d);
    out.append(" ");
    out.append(hours.as_str());
    out.append(":");
    out.append(minutes.as_str());
    out.append(":");
    out.append(rest.as_str());
    assert(out@ =~= date_text(d) + " "@ + time_text(second as int));
    out
}

} // verus!
