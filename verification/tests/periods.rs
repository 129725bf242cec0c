use chrono::{Datelike, NaiveDate};
use screentime_pro::calendar::days_before_date;
use screentime_pro::periods::{period_plan, Stamp};

fn st(year: i32, month: u32, day: u32, hour: u32, minute: u32, second: u32) -> Stamp {
    Stamp { year, month, day, hour, minute, second }
}

#[test]
fn month_plan_in_a_leap_march() {
    let p = period_plan("month", 2024, 3, 15, 4);
    assert_eq!(p.current_start, st(2024, 3, 1, 0, 0, 0));
    assert_eq!(p.previous_start, st(2024, 2, 1, 0, 0, 0));
    assert_eq!(p.previous_end, st(2024, 2, 29, 23, 59, 59));
    assert_eq!(p.year_ago, Some((st(2023, 3, 1, 0, 0, 0), st(2023, 3, 31, 23, 59, 59))));
    assert_eq!(p.current_label, "2024年3月");
    assert_eq!(p.previous_label, "2024年2月");
}

#[test]
fn month_plan_in_january_looks_back_to_december() {
    let p = period_plan("month", 2025, 1, 31, 4);
    assert_eq!(p.previous_start, st(2024, 12, 1, 0, 0, 0));
    assert_eq!(p.previous_end, st(2024, 12, 31, 23, 59, 59));
    assert_eq!(p.year_ago, Some((st(2024, 1, 1, 0, 0, 0), st(2024, 1, 31, 23, 59, 59))));
    assert_eq!(p.previous_label, "2024年12月");
}

#[test]
fn week_plan_crosses_a_month_boundary() {
    // 2024-03-01 was a Friday.
    let p = period_plan("week", 2024, 3, 1, 4);
    assert_eq!(p.current_start, st(2024, 2, 26, 0, 0, 0));
    assert_eq!(p.previous_start, st(2024, 2, 19, 0, 0, 0));
    assert_eq!(p.previous_end, st(2024, 2, 26, 0, 0, 0));
    assert_eq!(p.year_ago, None);
    assert_eq!(p.current_label, "本周");
    assert_eq!(p.previous_label, "上周");
}

#[test]
fn week_plan_on_a_monday_crosses_the_year() {
    // 2024-01-01 was a Monday.
    let p = period_plan("week", 2024, 1, 1, 0);
    assert_eq!(p.current_start, st(2024, 1, 1, 0, 0, 0));
    assert_eq!(p.previous_start, st(2023, 12, 25, 0, 0, 0));
}

#[test]
fn days_before_date_agrees_with_the_calendar() {
    let mut date = NaiveDate::from_ymd_opt(1999, 12, 25).unwrap();
    let end = NaiveDate::from_ymd_opt(2001, 3, 10).unwrap();
    while date < end {
        for k in [0u32, 1, 6, 7, 13, 31, 366] {
            let expected = date - chrono::Days::new(k as u64);
            assert_eq!(
                days_before_date(date.year(), date.month(), date.day(), k),
                (expected.year(), expected.month(), expected.day())
            );
        }
        date = date.succ_opt().unwrap();
    }
    assert_eq!(days_before_date(2024, 3, 1, 1), (2024, 2, 29));
    assert_eq!(days_before_date(2023, 3, 1, 1), (2023, 2, 28));
}
