//! Calendar timestamps in UTC from Unix seconds, in the proleptic Gregorian
//! calendar with a year zero.

use crate::text::{padded, push_padded};
use vstd::prelude::*;
use vstd::string::*;

verus! {

/// The first second that can be rendered: noon of 24 November of the year
/// -4713.
pub const FIRST_SECOND: i64 = -210866760000;

/// The last second that can be rendered: the last of the year 9999.
pub const LAST_SECOND: i64 = 253402300799;

/// Whether a year has 366 days.
pub open spec fn is_leap(y: int) -> bool {
    y % 4 == 0 && (y % 100 != 0 || y % 400 == 0)
}

/// The number of days of a year.
pub open spec fn year_length(y: int) -> int {
    if is_leap(y) {
        366
    } else {
        365
    }
}

/// The number of days of a month.
pub open spec fn month_length(y: int, m: int) -> int {
    if m == 2 {
        if is_leap(y) {
            29
        } else {
            28
        }
    } else if m == 4 || m == 6 || m == 9 || m == 11 {
        30
    } else {
        31
    }
}

/// The number of days of a year that lie before a month.
pub open spec fn days_before_month(y: int, m: int) -> int
    decreases m,
{
    if m <= 1 {
        0
    } else {
        days_before_month(y, m - 1) + month_length(y, m - 1)
    }
}

/// The number of leap years before a year, counted from the year one.
pub open spec fn leaps_before(y: int) -> int {
    (y - 1) / 4 - (y - 1) / 100 + (y - 1) / 400
}

/// The number of days from the first day of 1970 to the first day of a year.
pub open spec fn days_before_year(y: int) -> int {
    365 * (y - 1970) + leaps_before(y) - 477
}

/// A day of the calendar.
pub struct Date {
    pub year: int,
    pub month: int,
    pub day: int,
}

impl Date {
    /// Whether the calendar has this day.
    pub open spec fn valid(self) -> bool {
        1 <= self.month <= 12 && 1 <= self.day <= month_length(self.year, self.month)
    }

    /// The number of days from the first day of 1970 to this day.
    pub open spec fn days(self) -> int {
        days_before_year(self.year) + days_before_month(self.year, self.month) + self.day - 1
    }
}

/// The day of the calendar that lies a number of days after the first day of
/// 1970.
pub open spec fn date_of(days: int) -> Date {
    choose|d: Date| d.valid() && d.days() == days
}

/// Whole quotients by four grow by one at each multiple of four.
proof fn lemma_step_4(y: int)
    ensures
        y / 4 - (y - 1) / 4 == if y % 4 == 0 {
            1int
        } else {
            0
        },
        (y + 400) / 4 == y / 4 + 100,
{
}

/// Whole quotients by a hundred grow by one at each multiple of a hundred.
proof fn lemma_step_100(y: int)
    ensures
        y / 100 - (y - 1) / 100 == if y % 100 == 0 {
            1int
        } else {
            0
        },
        (y + 400) / 100 == y / 100 + 4,
{
}

/// Whole quotients by four hundred grow by one at each multiple of four
/// hundred.
proof fn lemma_step_400(y: int)
    ensures
        y / 400 - (y - 1) / 400 == if y % 400 == 0 {
            1int
        } else {
            0
        },
        (y + 400) / 400 == y / 400 + 1,
{
}

/// A multiple of four hundred is one of a hundred, and that one of four.
proof fn lemma_multiples(y: int)
    ensures
        y % 100 == 0 ==> y % 4 == 0,
        y % 400 == 0 ==> y % 100 == 0,
{
    if y % 100 == 0 {
        let q = y / 100;
        assert(y == (25 * q) * 4 + 0);
        vstd::arithmetic::div_mod::lemma_fundamental_div_mod_converse_mod(y, 4, 25 * q, 0);
    }
    if y % 400 == 0 {
        let q = y / 400;
        assert(y == (4 * q) * 100 + 0);
        vstd::arithmetic::div_mod::lemma_fundamental_div_mod_converse_mod(y, 100, 4 * q, 0);
    }
}

/// A year begins when the one before it is over.
pub proof fn lemma_next_year(y: int)
    ensures
        days_before_year(y + 1) == days_before_year(y) + year_length(y),
{
    lemma_step_4(y);
    lemma_step_100(y);
    lemma_step_400(y);
    lemma_multiples(y);
}

/// Four hundred years have 146097 days.
pub proof fn lemma_era(y: int)
    ensures
        days_before_year(y + 400) == days_before_year(y) + 146097,
{
    lemma_step_4(y - 1);
    lemma_step_100(y - 1);
    lemma_step_400(y - 1);
}

/// Later years begin later.
pub proof fn lemma_years_ascend(a: int, b: int)
    requires
        a <= b,
    ensures
        days_before_year(a) + 365 * (b - a) <= days_before_year(b),
    decreases b - a,
{
    if a < b {
        lemma_years_ascend(a, b - 1);
        lemma_next_year(b - 1);
    }
}

/// The days before each month of a year.
pub proof fn lemma_months(y: int)
    ensures
        days_before_month(y, 1) == 0,
        days_before_month(y, 2) == 31,
        days_before_month(y, 3) == 31 + month_length(y, 2),
        days_before_month(y, 4) == 62 + month_length(y, 2),
        days_before_month(y, 5) == 92 + month_length(y, 2),
        days_before_month(y, 6) == 123 + month_length(y, 2),
        days_before_month(y, 7) == 153 + month_length(y, 2),
        days_before_month(y, 8) == 184 + month_length(y, 2),
        days_before_month(y, 9) == 215 + month_length(y, 2),
        days_before_month(y, 10) == 245 + month_length(y, 2),
        days_before_month(y, 11) == 276 + month_length(y, 2),
        days_before_month(y, 12) == 306 + month_length(y, 2),
        days_before_month(y, 13) == year_length(y),
{
    reveal_with_fuel(days_before_month, 14);
}

/// Two days of the calendar that lie equally far from the first day of 1970
/// are the same day.
pub proof fn lemma_one_date(a: Date, b: Date)
    requires
        a.valid(),
        b.valid(),
        a.days() == b.days(),
    ensures
        a == b,
{
    lemma_months(a.year);
    lemma_months(b.year);
    if a.year < b.year {
        lemma_next_year(a.year);
        lemma_years_ascend(a.year + 1, b.year);
    } else if b.year < a.year {
        lemma_next_year(b.year);
        lemma_years_ascend(b.year + 1, a.year);
    }
}

/// A valid day that lies the given number of days after the first day of
/// 1970 is the day of that number.
pub proof fn lemma_date_of(d: Date)
    requires
        d.valid(),
    ensures
        date_of(d.days()) == d,
{
    let e = date_of(d.days());
    assert(e.valid() && e.days() == d.days());
    lemma_one_date(d, e);
}

/// The text of a year: four digits, after a minus sign where it is negative.
pub open spec fn year_text(y: int) -> Seq<char> {
    if y < 0 {
        seq!['-'] + padded((-y) as nat, 4)
    } else {
        padded(y as nat, 4)
    }
}

/// The timestamp of a Unix second: `YYYY-MM-DD HH:MM:SS` in UTC.
pub open spec fn timestamp_text(unix: int) -> Seq<char> {
    let date = date_of(unix / 86400);
    let second = unix % 86400;
    year_text(date.year) + seq!['-'] + padded(date.month as nat, 2) + seq!['-'] + padded(
        date.day as nat,
        2,
    ) + seq![' '] + padded((second / 3600) as nat, 2) + seq![':'] + padded(
        ((second % 3600) / 60) as nat,
        2,
    ) + seq![':'] + padded((second % 60) as nat, 2)
}

/// Whether a Unix second can be rendered.
pub open spec fn renderable(unix: int) -> bool {
    FIRST_SECOND <= unix <= LAST_SECOND
}

fn leap(y: i64) -> (r: bool)
    requires
        -10000 <= y <= 10000,
    ensures
        r == is_leap(y as int),
{
    let shifted: i64 = y + 10000;
    shifted % 4 == 0 && (shifted % 100 != 0 || shifted % 400 == 0)
}

fn length_of_month(y: i64, m: i64) -> (r: i64)
    requires
        -10000 <= y <= 10000,
        1 <= m <= 12,
    ensures
        r == month_length(y as int, m as int),
{
    if m == 2 {
        if leap(y) {
            29
        } else {
            28
        }
    } else if m == 4 || m == 6 || m == 9 || m == 11 {
        30
    } else {
        31
    }
}

/// The year, month and day that lie a number of days after the first day of
/// 1970.
pub fn civil_from_days(days: i64) -> (r: (i64, i64, i64))
    requires
        -2440588 <= days <= 2932896,
    ensures
        (Date { year: r.0 as int, month: r.1 as int, day: r.2 as int }) == date_of(days as int),
        (Date { year: r.0 as int, month: r.1 as int, day: r.2 as int }).valid(),
        -4713 <= r.0 <= 9999,
{
    let mut y: i64 = 1970;
    let mut rest: i64 = days;
    while rest < 0
        invariant
            -2440588 <= days <= 2932896,
            days_before_year(y as int) + rest == days,
            rest <= 2932896,
            -5200 <= y <= 1970,
        decreases 2932896 - rest,
    {
        proof {
            if y <= -4713 {
                lemma_years_ascend(y as int, -4713);
            }
            lemma_era(y - 400);
        }
        y = y - 400;
        rest = rest + 146097;
    }
    while rest >= 146097
        invariant
            -2440588 <= days <= 2932896,
            days_before_year(y as int) + rest == days,
            0 <= rest <= 2932896 + 146097,
            -5200 <= y <= 9999,
        decreases rest,
    {
        proof {
            if y >= 9601 {
                lemma_years_ascend(9601, y as int);
            }
            lemma_era(y as int);
        }
        y = y + 400;
        rest = rest - 146097;
    }
    let mut length: i64 = if leap(y) {
        366
    } else {
        365
    };
    while rest >= length
        invariant
            days_before_year(y as int) + rest == days,
            -2440588 <= days <= 2932896,
            0 <= rest < 146097,
            -5200 <= y <= 9999,
            length == year_length(y as int),
        decreases rest,
    {
        proof {
            lemma_next_year(y as int);
            if y + 1 >= 10000 {
                lemma_years_ascend(10000, y as int + 1);
            }
        }
        rest = rest - length;
        y = y + 1;
        length = if leap(y) {
            366
        } else {
            365
        };
    }
    proof {
        lemma_months(y as int);
        lemma_next_year(y as int);
        if y + 1 <= -4713 {
            lemma_years_ascend(y as int + 1, -4713);
        }
    }
    let mut m: i64 = 1;
    let mut width: i64 = length_of_month(y, m);
    while rest >= width
        invariant
            -4713 <= y <= 9999,
            1 <= m <= 12,
            0 <= rest,
            width == month_length(y as int, m as int),
            days_before_year(y as int) + days_before_month(y as int, m as int) + rest == days,
            days_before_month(y as int, m as int) + rest < year_length(y as int),
        decreases 12 - m,
    {
        proof {
            lemma_months(y as int);
        }
        rest = rest - width;
        m = m + 1;
        width = length_of_month(y, m);
    }
    proof {
        lemma_date_of(Date { year: y as int, month: m as int, day: rest + 1 });
    }
    (y, m, rest + 1)
}

/// The timestamp of a Unix second, `YYYY-MM-DD HH:MM:SS` in UTC, for a
/// second from noon of 24 November -4713 to the end of the year 9999.
pub fn timestamp(unix: i64) -> (r: Option<String>)
    ensures
        r is Some == renderable(unix as int),
        r matches Some(s) ==> s@ == timestamp_text(unix as int),
{
    if unix < FIRST_SECOND || unix > LAST_SECOND {
        return None;
    }
    let shifted: i64 = unix + 210866803200;
    let days: i64 = shifted / 86400 - 2440588;
    let second: i64 = shifted % 86400;
    assert(days == unix as int / 86400 && second == unix as int % 86400) by {
        assert(210866803200 == 2440588 * 86400);
    }
    let (y, m, d) = civil_from_days(days);
    let mut s = String::new();
    if y < 0 {
        s.push('-');
        push_padded(&mut s, (-y) as u64, 4);
    } else {
        push_padded(&mut s, y as u64, 4);
    }
    assert(s@ =~= year_text(y as int));
    s.push('-');
    push_padded(&mut s, m as u64, 2);
    s.push('-');
    push_padded(&mut s, d as u64, 2);
    s.push(' ');
    push_padded(&mut s, (second / 3600) as u64, 2);
    s.push(':');
    push_padded(&mut s, ((second % 3600) / 60) as u64, 2);
    s.push(':');
    push_padded(&mut s, (second % 60) as u64, 2);
    assert(s@ =~= timestamp_text(unix as int));
    Some(s)
}

} // verus!
