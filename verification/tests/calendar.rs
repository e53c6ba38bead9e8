use agentbar::statistics::aggregate::PeriodLabel;
use agentbar::statistics::calendar::{calendar_windows, period_start_days};
use agentbar::time::Timestamp;

#[test]
fn periods_start_on_today_monday_the_first_and_new_year() {
    // 2026-09-17, a Thursday.
    assert_eq!(period_start_days(739_876).unwrap(), vec![739_876, 739_873, 739_860, 739_617]);
    // 2024-03-03, a Sunday: the week began six days earlier, in February.
    assert_eq!(period_start_days(738_948).unwrap(), vec![738_948, 738_942, 738_946, 738_886]);
    // 2023-01-01, a Sunday and the first day of its month and year.
    assert_eq!(period_start_days(738_521).unwrap(), vec![738_521, 738_515, 738_521, 738_521]);
    // The first day of year 1 was a Monday.
    assert_eq!(period_start_days(1).unwrap(), vec![1, 1, 1, 1]);
}

#[test]
fn periods_beyond_the_calendar_are_refused() {
    assert_eq!(period_start_days(i32::MIN).unwrap_err(), "无法计算本周统计时间");
    assert_eq!(period_start_days(i32::MAX).unwrap_err(), "无法计算本月统计时间");
}

#[test]
fn windows_are_day_week_month_year_and_all() {
    let at = |secs: i64| Timestamp { secs, nanos: 0 };
    let windows = calendar_windows(at(40), at(30), at(20), at(10));
    let labels: Vec<PeriodLabel> = windows.iter().map(|window| window.label).collect();
    assert_eq!(labels, vec![PeriodLabel::Day, PeriodLabel::Week, PeriodLabel::Month, PeriodLabel::Year, PeriodLabel::All]);
    assert_eq!(windows[1].start, at(30));
    assert_eq!(windows[4].start, at(-8_334_601_228_800));
}
