//! Calendar arithmetic in the proleptic Gregorian calendar, over the year
//! range that `chrono::NaiveDate` covers.

use chrono::Datelike;
use vstd::prelude::*;

verus! {

/// The first and last years a `chrono::NaiveDate` can hold.
pub open spec fn min_year() -> int {
    -262143
}

pub open spec fn max_year() -> int {
    262142
}

pub open spec fn is_leap_year(y: int) -> bool {
    (y % 4 == 0 && y % 100 != 0) || y % 400 == 0
}

/// The number of days of month `m` (1 to 12) of year `y`.
pub open spec fn days_in_month(y: int, m: int) -> int {
    if m == 2 {
        if is_leap_year(y) {
            29
        } else {
            28
        }
    } else if m == 4 || m == 6 || m == 9 || m == 11 {
        30
    } else {
        31
    }
}

/// The day before the first of the month that follows month `m` of year
/// `y` exists: both that first day and the day before it lie in the range
/// of dates that can be held.
pub open spec fn last_day_defined(year: int, month: int) -> bool {
    let next_year = if month == 12 {
        year + 1
    } else {
        year
    };
    let next_month = if month == 12 {
        1
    } else {
        month + 1
    };
    &&& month <= 12
    &&& min_year() <= next_year <= max_year()
    &&& !(next_year == min_year() && next_month == 1)
}

/// The last day of month `month` of `year`: the day before the first of
/// the next month (month 0 reads as December of the year before).
pub fn last_day_of_month(year: i32, month: u32) -> (d: u32)
    requires
        last_day_defined(year as int, month as int),
    ensures
        month == 0 ==> d == 31,
        1 <= month <= 12 ==> d == days_in_month(year as int, month as int),
{
    if month == 0 || month == 1 || month == 3 || month == 5 || month == 7 || month == 8 || month
        == 10 || month == 12 {
        31
    } else if month == 4 || month == 6 || month == 9 || month == 11 {
        30
    } else if (year % 4 == 0 && year % 100 != 0) || year % 400 == 0 {
        29
    } else {
        28
    }
}

/// A calendar date: a month from 1 to 12 and a day that the month has.
pub open spec fn is_date(y: int, m: int, d: int) -> bool {
    1 <= m <= 12 && 1 <= d <= days_in_month(y, m)
}

/// The calendar day before `(y, m, d)`.
pub open spec fn day_before(y: int, m: int, d: int) -> (int, int, int) {
    if d > 1 {
        (y, m, d - 1)
    } else if m > 1 {
        (y, m - 1, days_in_month(y, m - 1))
    } else {
        (y - 1, 12, 31)
    }
}

/// The date `k` days before `(y, m, d)`.
pub open spec fn days_before(y: int, m: int, d: int, k: nat) -> (int, int, int)
    decreases k,
{
    if k == 0 {
        (y, m, d)
    } else {
        let p = days_before(y, m, d, (k - 1) as nat);
        day_before(p.0, p.1, p.2)
    }
}

/// Going back `a` days and then `b` more is going back `a + b` days; every
/// date on the way is a calendar date, and the year never grows.
pub proof fn lemma_days_before_compose(y: int, m: int, d: int, a: nat, b: nat)
    requires
        is_date(y, m, d),
    ensures
        ({
            let p = days_before(y, m, d, a);
            &&& days_before(p.0, p.1, p.2, b) == days_before(y, m, d, a + b)
            &&& is_date(p.0, p.1, p.2)
            &&& days_before(y, m, d, a + b).0 <= p.0 <= y
        }),
    decreases a + b,
{
    if b > 0 {
        lemma_days_before_compose(y, m, d, a, (b - 1) as nat);
        lemma_days_before_compose(y, m, d, (a + b - 1) as nat, 0);
        let p = days_before(y, m, d, a);
        let q = days_before(p.0, p.1, p.2, (b - 1) as nat);
        assert(days_before(p.0, p.1, p.2, b) == day_before(q.0, q.1, q.2));
        assert(days_before(y, m, d, a + b) == day_before(q.0, q.1, q.2));
    } else if a > 0 {
        lemma_days_before_compose(y, m, d, (a - 1) as nat, 0);
    }
}

/// `chrono::NaiveDate::from_ymd_opt` followed by
/// `NaiveDate::checked_sub_days`: the date `k` days before `(year, month,
/// day)` as year, month and day. Stated only for a calendar date whose
/// year chrono holds and whose result still lies in a year chrono holds:
/// there the result is the calendar date `k` days earlier.
#[verifier::external_body]
fn date_days_before(year: i32, month: u32, day: u32, k: u32) -> (r: Option<(i32, u32, u32)>)
    ensures
        ({
            let e = days_before(year as int, month as int, day as int, k as nat);
            is_date(year as int, month as int, day as int) && year <= max_year() && min_year()
                <= e.0 ==> r == Some((e.0 as i32, e.1 as u32, e.2 as u32))
        }),
{
    match chrono::NaiveDate::from_ymd_opt(year, month, day) {
        Some(date) => match date.checked_sub_days(chrono::Days::new(k as u64)) {
            Some(p) => Some((p.year(), p.month(), p.day())),
            None => None,
        },
        None => None,
    }
}

/// The calendar date `k` days before `(year, month, day)`, which must lie
/// in a year that chrono holds.
pub fn days_before_date(year: i32, month: u32, day: u32, k: u32) -> (r: (i32, u32, u32))
    requires
        is_date(year as int, month as int, day as int),
        year <= max_year(),
        min_year() <= days_before(year as int, month as int, day as int, k as nat).0,
    ensures
        ({
            let e = days_before(year as int, month as int, day as int, k as nat);
            r.0 == e.0 && r.1 == e.1 && r.2 == e.2
        }),
        is_date(r.0 as int, r.1 as int, r.2 as int),
{
    proof {
        lemma_days_before_compose(year as int, month as int, day as int, k as nat, 0);
    }
    match date_days_before(year, month, day, k) {
        Some(r) => r,
        None => {
            proof {
                assert(false);
            }
            (year, month, day)
        },
    }
}

} // verus!
