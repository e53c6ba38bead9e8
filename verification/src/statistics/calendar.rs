//! The calendar periods of the statistics: today from local midnight, the week
//! from Monday, the month from its first day, the year from the first of
//! January, and all history. Days are counted as chrono counts them, from the
//! first of January of year 1 as day one, which was a Monday.
use vstd::prelude::*;
use crate::time::{Timestamp, spec_parse_day, spec_format_day};
use crate::statistics::aggregate::{PeriodLabel, Window};

verus! {

/// The first day that chrono's dates hold: the first of January of year -262143.
pub open spec fn first_day() -> int { -95_746_129 }

/// How many days `day` lies after the Monday that starts its week.
pub open spec fn days_from_monday(day: int) -> int {
    (day - 1) % 7
}

/// The Monday of the week of `day`, where chrono holds it.
pub open spec fn week_start_of(day: i32) -> Option<int> {
    let monday = day - days_from_monday(day as int);
    if monday >= first_day() { Some(monday) } else { None }
}

/// The day whose `%Y-%m-%d` text is that of `day` with the day of the month
/// set to `01`.
pub open spec fn month_start_of(day: i32) -> Option<i32> {
    match spec_format_day(day) {
        Some(t) => if t.len() >= 2 { spec_parse_day(t.subrange(0, t.len() - 2) + "01"@) } else { None },
        None => None,
    }
}

/// The day whose `%Y-%m-%d` text is that of `day` with the month and day set
/// to `01-01`.
pub open spec fn year_start_of(day: i32) -> Option<i32> {
    match spec_format_day(day) {
        Some(t) => if t.len() >= 5 { spec_parse_day(t.subrange(0, t.len() - 5) + "01-01"@) } else { None },
        None => None,
    }
}

pub open spec fn week_error() -> Seq<char> { "无法计算本周统计时间"@ }
pub open spec fn month_error() -> Seq<char> { "无法计算本月统计时间"@ }
pub open spec fn year_error() -> Seq<char> { "无法计算本年统计时间"@ }

fn with_suffix(text: &String, keep: usize, suffix: &str) -> (r: String)
    requires
        keep <= text@.len(),
    ensures
        r@ == text@.subrange(0, keep as int) + suffix@,
{
    let v = crate::codex_config::chars_of(text.as_str());
    let mut r = crate::codex_config::string_of(&v, 0, keep);
    r.append(suffix);
    r
}

fn month_start(day: i32) -> (m: Option<i32>)
    ensures
        m == month_start_of(day),
{
    let t = match crate::time::format_day(day) {
        Some(t) => t,
        None => { return None; },
    };
    let n = crate::codex_config::chars_of(t.as_str()).len();
    if n < 2 {
        return None;
    }
    let text = with_suffix(&t, n - 2, "01");
    crate::time::parse_day(text.as_str())
}

fn year_start(day: i32) -> (y: Option<i32>)
    ensures
        y == year_start_of(day),
{
    let t = match crate::time::format_day(day) {
        Some(t) => t,
        None => { return None; },
    };
    let n = crate::codex_config::chars_of(t.as_str()).len();
    if n < 5 {
        return None;
    }
    let text = with_suffix(&t, n - 5, "01-01");
    crate::time::parse_day(text.as_str())
}

/// The first days of today's day, week, month and year, in that order; an
/// error names the first period whose start chrono cannot hold.
pub fn period_start_days(today: i32) -> (r: Result<Vec<i32>, String>)
    ensures
        match (week_start_of(today), month_start_of(today), year_start_of(today)) {
            (None, _, _) => r matches Err(e) && e@ == week_error(),
            (Some(_), None, _) => r matches Err(e) && e@ == month_error(),
            (Some(_), Some(_), None) => r matches Err(e) && e@ == year_error(),
            (Some(w), Some(m), Some(y)) => r matches Ok(d) && d@.len() == 4 && d@[0] == today
                && d@[1] as int == w && d@[2] == m && d@[3] == y,
        },
{
    let offset: i32 = if today >= 1 { (today - 1) % 7 } else { 6 - ((-(today as i64)) % 7) as i32 };
    assert(offset == days_from_monday(today as int)) by (nonlinear_arith)
        requires
            today >= 1 ==> offset == (today - 1) % 7,
            today < 1 ==> offset == 6 - ((-(today as int)) % 7);
    if (today as i64) - (offset as i64) < -95_746_129i64 {
        return Err(String::from_str("无法计算本周统计时间"));
    }
    let monday = today - offset;
    let month = match month_start(today) {
        Some(m) => m,
        None => { return Err(String::from_str("无法计算本月统计时间")); },
    };
    let year = match year_start(today) {
        Some(y) => y,
        None => { return Err(String::from_str("无法计算本年统计时间")); },
    };
    Ok(vec![today, monday, month, year])
}

/// The earliest instant chrono holds: the start of its first day.
pub open spec fn earliest_instant() -> Timestamp {
    Timestamp { secs: -8_334_601_228_800i64, nanos: 0 }
}

/// The statistics windows from the local starts of today, the week, the month
/// and the year: Day, Week, Month and Year in that order, then All from the
/// earliest instant.
pub fn calendar_windows(day: Timestamp, week: Timestamp, month: Timestamp, year: Timestamp) -> (w: Vec<Window>)
    ensures
        w@ == seq![
            Window { label: PeriodLabel::Day, start: day },
            Window { label: PeriodLabel::Week, start: week },
            Window { label: PeriodLabel::Month, start: month },
            Window { label: PeriodLabel::Year, start: year },
            Window { label: PeriodLabel::All, start: earliest_instant() },
        ],
{
    let w = vec![
        Window { label: PeriodLabel::Day, start: day },
        Window { label: PeriodLabel::Week, start: week },
        Window { label: PeriodLabel::Month, start: month },
        Window { label: PeriodLabel::Year, start: year },
        Window { label: PeriodLabel::All, start: Timestamp { secs: -8_334_601_228_800, nanos: 0 } },
    ];
    assert(w@ =~= seq![
        Window { label: PeriodLabel::Day, start: day },
        Window { label: PeriodLabel::Week, start: week },
        Window { label: PeriodLabel::Month, start: month },
        Window { label: PeriodLabel::Year, start: year },
        Window { label: PeriodLabel::All, start: earliest_instant() },
    ]);
    w
}

/// The week starts on a Monday, today or within the six days before.
pub proof fn law_week_starts_on_monday(today: i32)
    requires
        week_start_of(today) is Some,
    ensures
        today - 6 <= week_start_of(today)->0 <= today,
        days_from_monday(week_start_of(today)->0) == 0,
{
    assert(((today - 1) % 7) >= 0 && ((today - 1) % 7) < 7) by (nonlinear_arith);
    let m = today - days_from_monday(today as int);
    assert((m - 1) % 7 == 0) by (nonlinear_arith)
        requires m == today - ((today - 1) % 7);
}

} // verus!
