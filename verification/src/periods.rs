//! The calendar side of a period comparison report: which local times
//! bound this week or month, the one before it and, for a month, the same
//! month a year earlier, and how the periods are labelled.

use crate::calendar::{
    days_before, days_before_date, days_in_month, is_date, last_day_of_month, max_year, min_year,
};
use crate::decimal::{spec_decimal, u32_to_string};
use crate::export_format::{i64_to_string, spec_signed_decimal};
use crate::text::{chars_to_string, str_eq, str_to_chars};
use vstd::prelude::*;

verus! {

/// A local wall-clock time: date and time of day.
#[derive(Clone, Copy, Debug, PartialEq, Eq, Structural)]
pub struct Stamp {
    pub year: i32,
    pub month: u32,
    pub day: u32,
    pub hour: u32,
    pub minute: u32,
    pub second: u32,
}

/// The bounds of the periods of a report. The current period ends now,
/// which the caller knows.
pub struct PeriodPlan {
    pub current_start: Stamp,
    pub previous_start: Stamp,
    pub previous_end: Stamp,
    /// For a month report: the same month one year earlier.
    pub year_ago: Option<(Stamp, Stamp)>,
    pub current_label: String,
    pub previous_label: String,
}

pub open spec fn stamp(y: int, m: int, d: int, h: int, mi: int, s: int) -> Stamp {
    Stamp {
        year: y as i32,
        month: m as u32,
        day: d as u32,
        hour: h as u32,
        minute: mi as u32,
        second: s as u32,
    }
}

/// The month before month `m` of year `y`.
pub open spec fn previous_month(y: int, m: int) -> (int, int) {
    if m == 1 {
        (y - 1, 12)
    } else {
        (y, m - 1)
    }
}

/// `"{y}年{m}月"`.
pub open spec fn month_label(y: i32, m: u32) -> Seq<char> {
    spec_signed_decimal(y as i64) + "年"@ + spec_decimal(m as nat) + "月"@
}

/// What a month report covers, from the first second of the month, for
/// today in month `m` of year `y`.
pub open spec fn month_plan_holds(p: PeriodPlan, y: int, m: int) -> bool {
    let (py, pm) = previous_month(y, m);
    &&& p.current_start == stamp(y, m, 1, 0, 0, 0)
    &&& p.previous_start == stamp(py, pm, 1, 0, 0, 0)
    &&& p.previous_end == stamp(py, pm, days_in_month(py, pm), 23, 59, 59)
    &&& p.year_ago == Some(
        (stamp(y - 1, m, 1, 0, 0, 0), stamp(y - 1, m, days_in_month(y - 1, m), 23, 59, 59)),
    )
    &&& p.current_label@ == month_label(y as i32, m as u32)
    &&& p.previous_label@ == month_label(py as i32, pm as u32)
}

/// What a week report covers: weeks start on Monday at midnight, `wd` days
/// before today (`0` for a Monday).
pub open spec fn week_plan_holds(p: PeriodPlan, y: int, m: int, d: int, wd: nat) -> bool {
    let mon = days_before(y, m, d, wd);
    let prev = days_before(y, m, d, wd + 7);
    &&& p.current_start == stamp(mon.0, mon.1, mon.2, 0, 0, 0)
    &&& p.previous_start == stamp(prev.0, prev.1, prev.2, 0, 0, 0)
    &&& p.previous_end == stamp(mon.0, mon.1, mon.2, 0, 0, 0)
    &&& p.year_ago is None
    &&& p.current_label@ == "本周"@
    &&& p.previous_label@ == "上周"@
}

fn month_label_of(y: i32, m: u32) -> (r: String)
    ensures
        r@ == month_label(y, m),
{
    let mut v = str_to_chars(i64_to_string(y as i64).as_str());
    let mut a = str_to_chars("年");
    let mut b = str_to_chars(u32_to_string(m).as_str());
    let mut c = str_to_chars("月");
    v.append(&mut a);
    v.append(&mut b);
    v.append(&mut c);
    chars_to_string(v.as_slice())
}

fn at(y: i32, m: u32, d: u32, h: u32, mi: u32, s: u32) -> (r: Stamp)
    ensures
        r == stamp(y as int, m as int, d as int, h as int, mi as int, s as int),
{
    Stamp { year: y, month: m, day: d, hour: h, minute: mi, second: s }
}

/// The periods of a report for `period` (`"month"`, anything else meaning a
/// week), given today's date and its weekday counted from Monday.
pub fn period_plan(period: &str, year: i32, month: u32, day: u32, weekday_from_monday: u32) -> (p:
    PeriodPlan)
    requires
        is_date(year as int, month as int, day as int),
        year <= max_year(),
        weekday_from_monday <= 6,
        period@ == "month"@ ==> min_year() < year,
        period@ != "month"@ ==> min_year() <= days_before(
            year as int,
            month as int,
            day as int,
            (weekday_from_monday + 7) as nat,
        ).0,
    ensures
        period@ == "month"@ ==> month_plan_holds(p, year as int, month as int),
        period@ != "month"@ ==> week_plan_holds(
            p,
            year as int,
            month as int,
            day as int,
            weekday_from_monday as nat,
        ),
{
    if str_eq(period, "month") {
        let (py, pm): (i32, u32) = if month == 1 {
            (year - 1, 12)
        } else {
            (year, month - 1)
        };
        let prev_last = last_day_of_month(py, pm);
        let yoy_last = last_day_of_month(year - 1, month);
        PeriodPlan {
            current_start: at(year, month, 1, 0, 0, 0),
            previous_start: at(py, pm, 1, 0, 0, 0),
            previous_end: at(py, pm, prev_last, 23, 59, 59),
            year_ago: Some((at(year - 1, month, 1, 0, 0, 0), at(year - 1, month, yoy_last, 23, 59, 59))),
            current_label: month_label_of(year, month),
            previous_label: month_label_of(py, pm),
        }
    } else {
        proof {
            crate::calendar::lemma_days_before_compose(
                year as int,
                month as int,
                day as int,
                weekday_from_monday as nat,
                7,
            );
        }
        let mon = days_before_date(year, month, day, weekday_from_monday);
        let prev = days_before_date(mon.0, mon.1, mon.2, 7);
        PeriodPlan {
            current_start: at(mon.0, mon.1, mon.2, 0, 0, 0),
            previous_start: at(prev.0, prev.1, prev.2, 0, 0, 0),
            previous_end: at(mon.0, mon.1, mon.2, 0, 0, 0),
            year_ago: None,
            current_label: "本周".to_owned(),
            previous_label: "上周".to_owned(),
        }
    }
}

} // verus!
