//! Local activity: the longest completed task and day streaks. Days are local
//! calendar day numbers supplied with each instant; an open session is never a
//! timed task.
use vstd::prelude::*;
use crate::time::{Timestamp, time_le, time_lt, le, lt, nanos_of, wf_time};

verus! {

broadcast use vstd::seq_lib::group_seq_properties;

/// An instant with the local calendar day it falls on.
#[derive(Clone, Copy, Debug, PartialEq, Eq, Structural)]
pub struct DatedTime {
    pub at: Timestamp,
    pub day: i64,
}

/// An explicit task duration as logged: absent, unusable (negative or not a
/// number), or usable, in whole seconds.
#[derive(Clone, Copy, Debug, PartialEq, Eq, Structural)]
pub enum ExplicitDuration {
    Absent,
    Invalid,
    WholeSeconds(u64),
}

/// A completed task: its key, the instants it started (when known) and
/// completed, and its duration in whole seconds.
#[derive(Debug)]
pub struct CompletedTask {
    pub key: String,
    pub started_at: Option<Timestamp>,
    pub completed_at: Timestamp,
    pub duration_sec: u64,
}

/// A completed task placed on local calendar days.
#[derive(Clone, Copy, Debug, PartialEq, Eq, Structural)]
pub struct DatedTask {
    pub started_at: Option<DatedTime>,
    pub completed_at: DatedTime,
    pub duration_sec: u64,
}

#[derive(Clone, Copy, Debug, PartialEq, Eq, Structural)]
pub struct ActivityStatistics {
    pub longest_running_turn_sec: Option<u64>,
    pub current_streak_days: Option<u64>,
    pub longest_streak_days: Option<u64>,
}

/// Whole seconds between two instants, rounded down.
pub open spec fn elapsed_secs(start: Timestamp, end: Timestamp) -> int {
    let diff = nanos_of(end) - nanos_of(start);
    if diff <= 0 { 0 } else if diff / 1_000_000_000 > u64::MAX { u64::MAX as int } else { diff / 1_000_000_000 }
}

/// A task's duration: the explicit duration wins; otherwise the elapsed time
/// between its recorded start and completion; none when neither is known or the
/// start is after the completion.
pub open spec fn task_duration(started: Option<Timestamp>, completed: Timestamp, explicit: ExplicitDuration) -> Option<int> {
    if (started matches Some(s) && time_lt(completed, s)) {
        None
    } else {
        match explicit {
            ExplicitDuration::Invalid => None,
            ExplicitDuration::WholeSeconds(s) => Some(s as int),
            ExplicitDuration::Absent => match started {
                None => None,
                Some(s) => Some(elapsed_secs(s, completed)),
            },
        }
    }
}

impl CompletedTask {
    pub fn new(key: String, started_at: Option<Timestamp>, completed_at: Timestamp, explicit: ExplicitDuration)
        -> (task: Option<CompletedTask>)
        requires
            wf_time(completed_at),
            started_at matches Some(s) ==> wf_time(s),
        ensures
            match task_duration(started_at, completed_at, explicit) {
                None => task is None,
                Some(d) => task matches Some(t) && t.key == key && t.started_at == started_at
                    && t.completed_at == completed_at && t.duration_sec == d,
            },
    {
        if let Some(s) = started_at {
            if lt(completed_at, s) {
                return None;
            }
        }
        let duration: u64 = match explicit {
            ExplicitDuration::Invalid => { return None; },
            ExplicitDuration::WholeSeconds(s) => s,
            ExplicitDuration::Absent => match started_at {
                None => { return None; },
                Some(s) => {
                    let diff: i128 = (completed_at.secs as i128 - s.secs as i128) * 1_000_000_000
                        + (completed_at.nanos as i128 - s.nanos as i128);
                    assert(diff == nanos_of(completed_at) - nanos_of(s)) by (nonlinear_arith)
                        requires
                            diff == (completed_at.secs - s.secs) * 1_000_000_000
                                + (completed_at.nanos - s.nanos);
                    if diff <= 0 {
                        0
                    } else {
                        let secs: i128 = diff / 1_000_000_000;
                        if secs > u64::MAX as i128 { u64::MAX } else { secs as u64 }
                    }
                },
            },
        };
        Some(CompletedTask { key, started_at, completed_at, duration_sec: duration })
    }

    /// The task on local calendar days: `completed_day` is the day of its
    /// completion and `started_day` that of its start, used only when the
    /// start is known.
    pub fn dated(&self, started_day: i64, completed_day: i64) -> (d: DatedTask)
        ensures
            d.completed_at == (DatedTime { at: self.completed_at, day: completed_day }),
            d.started_at == (match self.started_at {
                Some(s) => Some(DatedTime { at: s, day: started_day }),
                None => None,
            }),
            d.duration_sec == self.duration_sec,
    {
        DatedTask {
            started_at: match self.started_at {
                Some(s) => Some(DatedTime { at: s, day: started_day }),
                None => None,
            },
            completed_at: DatedTime { at: self.completed_at, day: completed_day },
            duration_sec: self.duration_sec,
        }
    }
}

/// The local days with activity by `end`: every instant, and the start and
/// completion days of completed tasks.
pub open spec fn activity_days(end: Timestamp, times: Seq<DatedTime>, tasks: Seq<DatedTask>) -> Set<i64> {
    Set::new(|d: i64| (exists|i: int| 0 <= i < times.len() && time_has_day(#[trigger] times[i], end, d))
        || (exists|i: int| 0 <= i < tasks.len() && task_has_day(#[trigger] tasks[i], end, d)))
}

pub open spec fn time_has_day(x: DatedTime, end: Timestamp, d: i64) -> bool {
    time_le(x.at, end) && x.day == d
}

pub open spec fn task_has_day(t: DatedTask, end: Timestamp, d: i64) -> bool {
    time_le(t.completed_at.at, end) && (t.completed_at.day == d || (t.started_at matches Some(s) && s.day == d))
}

pub open spec fn increasing(s: Seq<i64>) -> bool {
    forall|i: int, j: int| 0 <= i < j < s.len() ==> s[i] < s[j]
}

/// Length of the run of consecutive days ending at position `i`.
pub open spec fn run_at(s: Seq<i64>, i: int) -> int
    decreases i,
{
    if i <= 0 {
        1
    } else if s[i - 1] + 1 == s[i] {
        run_at(s, i - 1) + 1
    } else {
        1
    }
}

/// The longest run among the first `n` days.
pub open spec fn longest_run(s: Seq<i64>, n: int) -> int
    decreases n,
{
    if n <= 0 {
        0
    } else {
        let prior = longest_run(s, n - 1);
        if run_at(s, n - 1) > prior { run_at(s, n - 1) } else { prior }
    }
}

/// The longest task duration among tasks completed by `end`.
pub open spec fn longest_task(end: Timestamp, tasks: Seq<DatedTask>) -> Option<u64>
    decreases tasks.len(),
{
    if tasks.len() == 0 {
        None
    } else {
        let prior = longest_task(end, tasks.drop_last());
        let t = tasks.last();
        if !time_le(t.completed_at.at, end) {
            prior
        } else {
            match prior {
                None => Some(t.duration_sec),
                Some(p) => Some(if t.duration_sec > p { t.duration_sec } else { p }),
            }
        }
    }
}

/// Streaks over the sorted activity days `s`: the current streak counts only
/// while it reaches today or yesterday.
pub open spec fn streaks_of(s: Seq<i64>, today: i64, end: Timestamp, tasks: Seq<DatedTask>) -> ActivityStatistics {
    ActivityStatistics {
        longest_running_turn_sec: longest_task(end, tasks),
        current_streak_days: Some(
            if s.contains(today) || (today > i64::MIN && s.contains((today - 1) as i64)) { run_at(s, s.len() - 1) as u64 } else { 0 }),
        longest_streak_days: Some(longest_run(s, s.len() as int) as u64),
    }
}

fn insert_day(days: &mut Vec<i64>, d: i64)
    requires
        increasing(old(days)@),
    ensures
        increasing(final(days)@),
        final(days)@.to_set() == old(days)@.to_set().insert(d),
{
    let mut i: usize = 0;
    while i < days.len() && days[i] < d
        invariant
            i <= days@.len(),
            forall|k: int| 0 <= k < i ==> days@[k] < d,
        decreases days@.len() - i,
    {
        i = i + 1;
    }
    if i < days.len() && days[i] == d {
        assert(days@.to_set().insert(d) =~= days@.to_set()) by {
            assert(days@.contains(d));
        }
        return;
    }
    let ghost before = days@;
    days.insert(i, d);
    assert(days@ =~= before.subrange(0, i as int).push(d) + before.subrange(i as int, before.len() as int));
    assert forall|a: int, b: int| 0 <= a < b < days@.len() implies days@[a] < days@[b] by {
        if a < i && b > i { assert(days@[b] == before[b - 1]); }
        if a > i { assert(days@[a] == before[a - 1] && days@[b] == before[b - 1]); }
        if a < i && b < i {}
    }
    assert(days@.to_set() =~= before.to_set().insert(d)) by {
        assert forall|x: i64| days@.to_set().contains(x) <==> before.to_set().insert(d).contains(x) by {
            if days@.contains(x) {
                let k = choose|k: int| 0 <= k < days@.len() && days@[k] == x;
                if k < i { assert(before[k] == x); } else if k > i { assert(before[k - 1] == x); }
            }
            if before.contains(x) {
                let k = choose|k: int| 0 <= k < before.len() && before[k] == x;
                if k < i { assert(days@[k] == x); } else { assert(days@[k + 1] == x); }
            }
        }
    }
}

proof fn lemma_increasing_unique(a: Seq<i64>, b: Seq<i64>)
    requires
        increasing(a),
        increasing(b),
        a.to_set() == b.to_set(),
    ensures
        a == b,
    decreases a.len() + b.len(),
{
    if a.len() == 0 {
        if b.len() > 0 {
            assert(b.to_set().contains(b[0]));
            assert(!a.to_set().contains(b[0]));
        }
        assert(a =~= b);
    } else if b.len() == 0 {
        assert(a.to_set().contains(a[0]));
        assert(!b.to_set().contains(a[0]));
    } else {
        let x = a.last();
        let y = b.last();
        assert(a.to_set().contains(x));
        assert(b.to_set().contains(y));
        assert(b.contains(x));
        assert(a.contains(y));
        let i = choose|i: int| 0 <= i < b.len() && b[i] == x;
        let j = choose|j: int| 0 <= j < a.len() && a[j] == y;
        if x != y {
            if x < y {
                assert(a[j] <= a[a.len() - 1]);
            } else {
                assert(b[i] <= b[b.len() - 1]);
            }
        }
        let a2 = a.drop_last();
        let b2 = b.drop_last();
        assert(a2.to_set() =~= b2.to_set()) by {
            assert forall|z: i64| a2.to_set().contains(z) <==> b2.to_set().contains(z) by {
                if a2.contains(z) {
                    let k = choose|k: int| 0 <= k < a2.len() && a2[k] == z;
                    assert(a[k] < x);
                    assert(a.contains(z));
                    assert(a.to_set().contains(z));
                    assert(b.to_set().contains(z));
                    assert(b.contains(z));
                    let l = choose|l: int| 0 <= l < b.len() && b[l] == z;
                    assert(l != b.len() - 1);
                    assert(b2[l] == z);
                }
                if b2.contains(z) {
                    let k = choose|k: int| 0 <= k < b2.len() && b2[k] == z;
                    assert(b[k] < y);
                    assert(b.contains(z));
                    assert(b.to_set().contains(z));
                    assert(a.to_set().contains(z));
                    assert(a.contains(z));
                    let l = choose|l: int| 0 <= l < a.len() && a[l] == z;
                    assert(l != a.len() - 1);
                    assert(a2[l] == z);
                }
            }
        }
        lemma_increasing_unique(a2, b2);
        assert(a =~= a2.push(x));
        assert(b =~= b2.push(y));
    }
}

proof fn lemma_days_times_step(end: Timestamp, times: Seq<DatedTime>, i: int)
    requires
        0 <= i < times.len(),
    ensures
        activity_days(end, times.subrange(0, i + 1), Seq::empty()) == (if time_le(times[i].at, end) {
            activity_days(end, times.subrange(0, i), Seq::empty()).insert(times[i].day)
        } else {
            activity_days(end, times.subrange(0, i), Seq::empty())
        }),
{
    let pre = times.subrange(0, i);
    let cur = times.subrange(0, i + 1);
    let expected = if time_le(times[i].at, end) {
        activity_days(end, pre, Seq::empty()).insert(times[i].day)
    } else {
        activity_days(end, pre, Seq::empty())
    };
    assert forall|d: i64| activity_days(end, cur, Seq::empty()).contains(d) <==> expected.contains(d) by {
        if activity_days(end, cur, Seq::empty()).contains(d) {
            let k = choose|k: int| 0 <= k < cur.len() && time_has_day(#[trigger] cur[k], end, d);
            if k < i { assert(pre[k] == cur[k]); assert(time_has_day(pre[k], end, d)); }
        }
        if activity_days(end, pre, Seq::empty()).contains(d) {
            let k = choose|k: int| 0 <= k < pre.len() && time_has_day(#[trigger] pre[k], end, d);
            assert(cur[k] == pre[k]);
            assert(time_has_day(cur[k], end, d));
        }
        if time_le(times[i].at, end) && d == times[i].day {
            assert(time_has_day(cur[i], end, d));
        }
    }
    assert(activity_days(end, cur, Seq::empty()) =~= expected);
}

proof fn lemma_days_tasks_step(end: Timestamp, times: Seq<DatedTime>, tasks: Seq<DatedTask>, j: int)
    requires
        0 <= j < tasks.len(),
    ensures
        activity_days(end, times, tasks.subrange(0, j + 1)) == (if time_le(tasks[j].completed_at.at, end) {
            match tasks[j].started_at {
                Some(s) => activity_days(end, times, tasks.subrange(0, j)).insert(tasks[j].completed_at.day).insert(s.day),
                None => activity_days(end, times, tasks.subrange(0, j)).insert(tasks[j].completed_at.day),
            }
        } else {
            activity_days(end, times, tasks.subrange(0, j))
        }),
{
    let pre = tasks.subrange(0, j);
    let cur = tasks.subrange(0, j + 1);
    let before = activity_days(end, times, pre);
    let after = activity_days(end, times, cur);
    let expected = if time_le(tasks[j].completed_at.at, end) {
        match tasks[j].started_at {
            Some(s) => before.insert(tasks[j].completed_at.day).insert(s.day),
            None => before.insert(tasks[j].completed_at.day),
        }
    } else {
        before
    };
    assert forall|d: i64| after.contains(d) <==> expected.contains(d) by {
        if after.contains(d) {
            if exists|k: int| 0 <= k < cur.len() && task_has_day(#[trigger] cur[k], end, d) {
                let k = choose|k: int| 0 <= k < cur.len() && task_has_day(#[trigger] cur[k], end, d);
                if k < j { assert(pre[k] == cur[k]); assert(task_has_day(pre[k], end, d)); }
            }
        }
        if before.contains(d) {
            if exists|k: int| 0 <= k < pre.len() && task_has_day(#[trigger] pre[k], end, d) {
                let k = choose|k: int| 0 <= k < pre.len() && task_has_day(#[trigger] pre[k], end, d);
                assert(cur[k] == pre[k]);
                assert(task_has_day(cur[k], end, d));
            }
        }
        if expected.contains(d) && !before.contains(d) {
            assert(task_has_day(cur[j], end, d));
        }
    }
    assert(after =~= expected);
}

proof fn lemma_run_bound(s: Seq<i64>, i: int)
    ensures
        1 <= run_at(s, i) <= (if i < 0 { 1 } else { i + 1 }),
    decreases i,
{
    if i > 0 {
        lemma_run_bound(s, i - 1);
    }
}

proof fn lemma_longest_bound(s: Seq<i64>, n: int)
    ensures
        0 <= longest_run(s, n) <= (if n < 0 { 0 } else { n }),
    decreases n,
{
    if n > 0 {
        lemma_longest_bound(s, n - 1);
        lemma_run_bound(s, n - 1);
    }
}

fn activity_day_list(end: Timestamp, times: &Vec<DatedTime>, tasks: &Vec<DatedTask>) -> (r: (Vec<i64>, Option<u64>))
    ensures
        increasing(r.0@),
        r.0@.to_set() == activity_days(end, times@, tasks@),
        r.1 == longest_task(end, tasks@),
{
    let mut days: Vec<i64> = Vec::new();
    let mut i: usize = 0;
    assert(days@.to_set() =~= activity_days(end, times@.subrange(0, 0), Seq::empty()));
    while i < times.len()
        invariant
            i <= times.len(),
            increasing(days@),
            days@.to_set() == activity_days(end, times@.subrange(0, i as int), Seq::empty()),
        decreases times.len() - i,
    {
        proof { lemma_days_times_step(end, times@, i as int); }
        let t = times[i];
        if le(t.at, end) {
            insert_day(&mut days, t.day);
        }
        i = i + 1;
    }
    assert(times@.subrange(0, times.len() as int) =~= times@);
    assert(tasks@.subrange(0, 0) =~= Seq::<DatedTask>::empty());
    let mut longest_task_sec: Option<u64> = None;
    let mut j: usize = 0;
    while j < tasks.len()
        invariant
            j <= tasks.len(),
            increasing(days@),
            days@.to_set() == activity_days(end, times@, tasks@.subrange(0, j as int)),
            longest_task_sec == longest_task(end, tasks@.subrange(0, j as int)),
        decreases tasks.len() - j,
    {
        proof {
            lemma_days_tasks_step(end, times@, tasks@, j as int);
            assert(tasks@.subrange(0, j + 1).drop_last() =~= tasks@.subrange(0, j as int));
        }
        let task = &tasks[j];
        if le(task.completed_at.at, end) {
            insert_day(&mut days, task.completed_at.day);
            if let Some(s) = task.started_at {
                insert_day(&mut days, s.day);
            }
            longest_task_sec = match longest_task_sec {
                None => Some(task.duration_sec),
                Some(p) => Some(if task.duration_sec > p { task.duration_sec } else { p }),
            };
        }
        j = j + 1;
    }
    assert(tasks@.subrange(0, tasks.len() as int) =~= tasks@);
    (days, longest_task_sec)
}

fn streak_runs(days: &Vec<i64>) -> (r: (u64, u64))
    requires
        increasing(days@),
        days@.len() > 0,
    ensures
        r.0 == run_at(days@, days@.len() - 1),
        r.1 == longest_run(days@, days@.len() as int),
{
    let mut run: u64 = 0;
    let mut longest: u64 = 0;
    let mut k: usize = 0;
    while k < days.len()
        invariant
            k <= days.len(),
            increasing(days@),
            k > 0 ==> run == run_at(days@, k - 1),
            longest == longest_run(days@, k as int),
        decreases days.len() - k,
    {
        proof {
            lemma_run_bound(days@, k as int);
            lemma_longest_bound(days@, k as int);
        }
        run = if k > 0 && days[k - 1] + 1 == days[k] { run + 1 } else { 1 };
        if run > longest {
            longest = run;
        }
        k = k + 1;
    }
    (run, longest)
}

fn contains_day(days: &Vec<i64>, d: i64) -> (found: bool)
    ensures
        found == days@.contains(d),
{
    let mut m: usize = 0;
    while m < days.len()
        invariant
            m <= days.len(),
            !days@.subrange(0, m as int).contains(d),
        decreases days.len() - m,
    {
        proof { assert(days@.subrange(0, m + 1) =~= days@.subrange(0, m as int).push(days@[m as int])); }
        if days[m] == d {
            assert(days@[m as int] == d);
            return true;
        }
        m = m + 1;
    }
    assert(days@.subrange(0, days.len() as int) =~= days@);
    false
}

/// Activity over all retained history seen at `end`, where `today` is the local
/// day of `end`: none without any activity day; otherwise the longest completed
/// task (if any), the current streak and the longest streak of consecutive days.
pub fn summarize_activity(today: i64, end: Timestamp, times: &Vec<DatedTime>, tasks: &Vec<DatedTask>)
    -> (r: Option<ActivityStatistics>)
    ensures
        r is None <==> activity_days(end, times@, tasks@).is_empty(),
        r matches Some(a) ==> forall|s: Seq<i64>| increasing(s) && s.to_set() == activity_days(end, times@, tasks@)
            ==> a == streaks_of(s, today, end, tasks@),
{
    let (days, longest_task_sec) = activity_day_list(end, times, tasks);
    if days.len() == 0 {
        assert(activity_days(end, times@, tasks@) =~= Set::empty()) by {
            assert(days@.to_set() =~= Set::<i64>::empty());
        }
        return None;
    }
    assert(days@.to_set().contains(days@[0]));
    let (run, longest) = streak_runs(&days);
    let has_today = contains_day(&days, today);
    let has_yesterday = today > i64::MIN && contains_day(&days, today - 1);
    let current = if has_today || has_yesterday { run } else { 0 };
    let result = ActivityStatistics {
        longest_running_turn_sec: longest_task_sec,
        current_streak_days: Some(current),
        longest_streak_days: Some(longest),
    };
    proof {
        assert(!activity_days(end, times@, tasks@).is_empty()) by {
            assert(activity_days(end, times@, tasks@).contains(days@[0]));
        }
        assert forall|s: Seq<i64>| increasing(s) && s.to_set() == activity_days(end, times@, tasks@)
            implies result == streaks_of(s, today, end, tasks@) by {
            lemma_increasing_unique(s, days@);
        }
    }
    Some(result)
}

proof fn lemma_longest_covers(s: Seq<i64>, n: int, i: int)
    requires
        0 <= i < n,
    ensures
        run_at(s, i) <= longest_run(s, n),
    decreases n,
{
    if i < n - 1 {
        lemma_longest_covers(s, n - 1, i);
    }
}

/// The current streak never exceeds the longest streak, and the longest streak
/// never exceeds the number of active days.
pub proof fn law_streak_bounds(s: Seq<i64>, today: i64, end: Timestamp, tasks: Seq<DatedTask>)
    requires
        0 < s.len() <= u64::MAX,
    ensures
        streaks_of(s, today, end, tasks).current_streak_days->0 <= streaks_of(s, today, end, tasks).longest_streak_days->0,
        streaks_of(s, today, end, tasks).longest_streak_days->0 <= s.len(),
{
    lemma_longest_covers(s, s.len() as int, s.len() - 1);
    lemma_longest_bound(s, s.len() as int);
    lemma_run_bound(s, s.len() - 1);
}

/// The longest running turn is the longest duration among the tasks completed
/// by `end`: none exactly when no task was completed by then; otherwise no such
/// task lasted longer, and one lasted exactly that long.
pub proof fn law_longest_turn_is_the_maximum(end: Timestamp, tasks: Seq<DatedTask>)
    ensures
        longest_task(end, tasks) is None
            <==> forall|k: int| 0 <= k < tasks.len() ==> !time_le(#[trigger] tasks[k].completed_at.at, end),
        longest_task(end, tasks) matches Some(d) ==> (forall|k: int| 0 <= k < tasks.len()
            && time_le(#[trigger] tasks[k].completed_at.at, end) ==> tasks[k].duration_sec <= d),
        longest_task(end, tasks) matches Some(d) ==> (exists|k: int| 0 <= k < tasks.len()
            && time_le(#[trigger] tasks[k].completed_at.at, end) && tasks[k].duration_sec == d),
    decreases tasks.len(),
{
    if tasks.len() > 0 {
        let rest = tasks.drop_last();
        law_longest_turn_is_the_maximum(end, rest);
        let n = tasks.len() - 1;
        assert forall|k: int| 0 <= k < n implies #[trigger] rest[k] == tasks[k] by {}
        if !time_le(tasks[n].completed_at.at, end) {
            if longest_task(end, rest) is Some {
                let d = longest_task(end, rest)->0;
                let k = choose|k: int| 0 <= k < rest.len() && time_le(#[trigger] rest[k].completed_at.at, end) && rest[k].duration_sec == d;
                assert(tasks[k] == rest[k]);
                assert forall|j: int| 0 <= j < tasks.len() && time_le(#[trigger] tasks[j].completed_at.at, end)
                    implies tasks[j].duration_sec <= d by {
                    if j < n {
                        assert(rest[j] == tasks[j]);
                        assert(time_le(rest[j].completed_at.at, end));
                    }
                }
            } else {
                assert forall|k: int| 0 <= k < tasks.len() implies !time_le(#[trigger] tasks[k].completed_at.at, end) by {
                    if k < n {
                        assert(rest[k] == tasks[k]);
                        assert(!time_le(rest[k].completed_at.at, end));
                    }
                }
            }
        } else {
            match longest_task(end, rest) {
                None => {
                    assert forall|k: int| 0 <= k < tasks.len() && time_le(#[trigger] tasks[k].completed_at.at, end)
                        implies tasks[k].duration_sec <= tasks[n].duration_sec by {
                        if k < n {
                            assert(rest[k] == tasks[k]);
                            assert(!time_le(rest[k].completed_at.at, end));
                        }
                    }
                },
                Some(p) => {
                    let k0 = choose|k: int| 0 <= k < rest.len() && time_le(#[trigger] rest[k].completed_at.at, end) && rest[k].duration_sec == p;
                    assert(tasks[k0] == rest[k0]);
                    assert forall|k: int| 0 <= k < tasks.len() && time_le(#[trigger] tasks[k].completed_at.at, end)
                        implies tasks[k].duration_sec <= longest_task(end, tasks)->0 by {
                        if k < n {
                            assert(rest[k] == tasks[k]);
                            assert(time_le(rest[k].completed_at.at, end));
                        }
                    }
                },
            }
        }
    }
}

proof fn lemma_run_shape(s: Seq<i64>, i: int)
    requires
        increasing(s),
        0 <= i < s.len(),
    ensures
        1 <= run_at(s, i) <= i + 1,
        forall|j: int| 0 <= j < run_at(s, i) ==> #[trigger] s[i - j] == s[i] - j,
        run_at(s, i) <= i ==> s[i - run_at(s, i)] + 1 != s[i - run_at(s, i) + 1],
    decreases i,
{
    if i > 0 && s[i - 1] + 1 == s[i] {
        lemma_run_shape(s, i - 1);
        assert forall|j: int| 0 <= j < run_at(s, i) implies #[trigger] s[i - j] == s[i] - j by {
            if j > 0 {
                assert(s[(i - 1) - (j - 1)] == s[i - 1] - (j - 1));
            }
        }
    }
}

/// Whether day `d` is among the active days `s`.
pub open spec fn active_on(s: Seq<i64>, d: int) -> bool {
    exists|k: int| 0 <= k < s.len() && s[k] as int == d
}

/// The current streak, where the last active day is today or yesterday, is
/// the number of consecutive active days that end on that day: each of them
/// is active, and the day before them is not.
pub proof fn law_current_streak_is_the_run_to_today(s: Seq<i64>, today: i64, end: Timestamp, tasks: Seq<DatedTask>)
    requires
        increasing(s),
        0 < s.len() <= u64::MAX,
        s.last() == today || s.last() as int == today - 1,
    ensures
        streaks_of(s, today, end, tasks).current_streak_days->0 >= 1,
        forall|j: int| 0 <= j < streaks_of(s, today, end, tasks).current_streak_days->0
            ==> #[trigger] active_on(s, s.last() - j),
        !active_on(s, s.last() - streaks_of(s, today, end, tasks).current_streak_days->0),
{
    let n = s.len() - 1;
    lemma_run_shape(s, n);
    let c = run_at(s, n);
    if s.last() == today {
        assert(s.contains(today));
    } else {
        assert(s.contains((today - 1) as i64));
    }
    assert(streaks_of(s, today, end, tasks).current_streak_days->0 as int == c);
    assert forall|j: int| 0 <= j < c implies #[trigger] active_on(s, s.last() - j) by {
        assert(s[n - j] == s[n] - j);
        assert(s[n - j] as int == s.last() - j);
    }
    if active_on(s, s.last() - c) {
        let k = choose|k: int| 0 <= k < s.len() && s[k] as int == s.last() - c;
        if k > n - c {
            assert(s[n - (n - k)] == s[n] - (n - k));
        } else {
            assert(c <= n);
            if k < n - c {
                assert(s[k] < s[n - c]);
            }
            assert(s[n - c] < s[n - c + 1]);
            assert(s[n - (c - 1)] == s[n] - (c - 1));
        }
    }
}

/// Without activity today or yesterday there is no current streak.
pub proof fn law_no_recent_activity_no_streak(s: Seq<i64>, today: i64, end: Timestamp, tasks: Seq<DatedTask>)
    requires
        !s.contains(today),
        today == i64::MIN || !s.contains((today - 1) as i64),
    ensures
        streaks_of(s, today, end, tasks).current_streak_days == Some(0u64),
{
}

proof fn lemma_run_covers(s: Seq<i64>, i: int, m: int)
    requires
        increasing(s),
        0 <= i < s.len(),
        0 <= m,
        forall|j: int| 0 <= j <= m ==> #[trigger] active_on(s, s[i] - j),
    ensures
        run_at(s, i) >= m + 1,
    decreases m,
{
    lemma_run_bound(s, i);
    if m > 0 {
        assert(active_on(s, s[i] - 1));
        let k = choose|k: int| 0 <= k < s.len() && s[k] as int == s[i] - 1;
        if k >= i {
            if k > i { assert(s[i] < s[k]); }
        }
        assert(k < i);
        assert(i > 0);
        if k < i - 1 {
            assert(s[k] < s[i - 1]);
        }
        assert(s[i - 1] < s[i]);
        assert(s[i - 1] + 1 == s[i]);
        assert forall|j: int| 0 <= j <= m - 1 implies #[trigger] active_on(s, s[i - 1] - j) by {
            assert(active_on(s, s[i] - (j + 1)));
        }
        lemma_run_covers(s, i - 1, m - 1);
    }
}

/// The `len` days up to and including day `d` are all active.
pub open spec fn run_ends_at(s: Seq<i64>, d: int, len: int) -> bool {
    forall|j: int| 0 <= j < len ==> #[trigger] active_on(s, d - j)
}

proof fn lemma_longest_is_a_run(s: Seq<i64>, n: int)
    requires
        0 < n,
    ensures
        exists|i: int| 0 <= i < n && run_at(s, i) == longest_run(s, n),
    decreases n,
{
    lemma_run_bound(s, n - 1);
    if n > 1 {
        lemma_longest_is_a_run(s, n - 1);
        if run_at(s, n - 1) <= longest_run(s, n - 1) {
            let i = choose|i: int| 0 <= i < n - 1 && run_at(s, i) == longest_run(s, n - 1);
            assert(run_at(s, i) == longest_run(s, n));
        } else {
            assert(run_at(s, n - 1) == longest_run(s, n));
        }
    } else {
        assert(longest_run(s, 0) == 0);
        assert(run_at(s, 0) == longest_run(s, 1));
    }
}

/// The longest streak is the longest run of consecutive active days: that many
/// consecutive days end on some active day, and no active day ends a longer run.
pub proof fn law_longest_streak_is_the_longest_run(s: Seq<i64>, today: i64, end: Timestamp, tasks: Seq<DatedTask>)
    requires
        increasing(s),
        0 < s.len() <= u64::MAX,
    ensures
        exists|i: int| 0 <= i < s.len() && #[trigger] run_ends_at(s, s[i] as int, streaks_of(s, today, end, tasks).longest_streak_days->0 as int),
        forall|d: int| #[trigger] active_on(s, d) ==> exists|j: int| 0 <= j <= streaks_of(s, today, end, tasks).longest_streak_days->0
            && !#[trigger] active_on(s, d - j),
{
    let n = s.len() as int;
    let l = longest_run(s, n);
    lemma_longest_bound(s, n);
    assert(streaks_of(s, today, end, tasks).longest_streak_days->0 as int == l);
    lemma_longest_is_a_run(s, n);
    let i = choose|i: int| 0 <= i < n && run_at(s, i) == longest_run(s, n);
    lemma_run_shape(s, i);
    assert forall|j: int| 0 <= j < l implies #[trigger] active_on(s, s[i] - j) by {
        assert(s[i - j] == s[i] - j);
        assert(s[i - j] as int == s[i] - j);
    }
    assert(run_ends_at(s, s[i] as int, l));
    assert forall|d: int| #[trigger] active_on(s, d) implies exists|j: int| 0 <= j <= l && !#[trigger] active_on(s, d - j) by {
        if forall|j: int| 0 <= j <= l ==> #[trigger] active_on(s, d - j) {
            let k = choose|k: int| 0 <= k < s.len() && s[k] as int == d;
            assert forall|j: int| 0 <= j <= l implies #[trigger] active_on(s, s[k] - j) by {
                assert(active_on(s, d - j));
            }
            lemma_run_covers(s, k, l);
            lemma_longest_covers(s, n, k);
        }
    }
}

} // verus!
