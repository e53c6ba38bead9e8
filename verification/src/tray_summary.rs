//! The menu-bar summary: remaining share and the countdown to the next reset of
//! the first usable quota window, Codex before Anthropic.
use vstd::prelude::*;
use crate::models::{ProviderId, ProviderStatus};
use crate::text::{decimal, push_decimal, decimal_string};
use crate::time::{Timestamp, nanos_of, parse_rfc3339, spec_rfc3339, wf_time};

verus! {

/// One quota window as the tray sees it. `remaining_percent` is absent when the
/// provider reported no finite usage for the window.
#[derive(Clone, Debug)]
pub struct TrayWindow {
    pub label: String,
    pub remaining_percent: Option<u8>,
    pub resets_at: Option<String>,
}

#[derive(Clone, Debug)]
pub struct TrayProvider {
    pub id: ProviderId,
    pub name: String,
    pub status: ProviderStatus,
    pub windows: Vec<TrayWindow>,
}

/// Whole minutes left, rounded up.
pub open spec fn ceil_minutes(remaining: int) -> int {
    if remaining % 60_000_000_000 == 0 {
        remaining / 60_000_000_000
    } else {
        remaining / 60_000_000_000 + 1
    }
}

/// Countdown text for a positive number of whole minutes.
pub open spec fn minutes_text(minutes: nat) -> Seq<char> {
    if minutes >= 1440 {
        let days = minutes / 1440;
        let hours = (minutes % 1440) / 60;
        if hours == 0 {
            decimal(days) + "天"@
        } else {
            decimal(days) + "天 "@ + decimal(hours) + "小时"@
        }
    } else if minutes >= 60 {
        let hours = minutes / 60;
        let rest = minutes % 60;
        if rest == 0 {
            decimal(hours) + "小时"@
        } else {
            decimal(hours) + "小时 "@ + decimal(rest) + "分钟"@
        }
    } else {
        decimal(minutes) + "分钟"@
    }
}

/// Countdown text for a reset time given as RFC 3339 text, seen at `now`.
pub open spec fn countdown_text(resets_at: Option<Seq<char>>, now: Timestamp) -> Seq<char> {
    match resets_at {
        None => "重置时间未知"@,
        Some(text) => match spec_rfc3339(text) {
            None => "重置时间未知"@,
            Some(reset) => {
                let remaining = nanos_of(reset) - nanos_of(now);
                if remaining <= 0 {
                    "等待重置"@
                } else {
                    minutes_text(ceil_minutes(remaining) as nat)
                }
            },
        },
    }
}

fn minutes_countdown(minutes: u64) -> (s: String)
    requires
        minutes > 0,
    ensures
        s@ == minutes_text(minutes as nat),
{
    let mut s = String::new();
    if minutes >= 1440 {
        let days = minutes / 1440;
        let hours = minutes % 1440 / 60;
        push_decimal(&mut s, days);
        if hours == 0 {
            s.append("天");
        } else {
            s.append("天 ");
            push_decimal(&mut s, hours);
            s.append("小时");
        }
    } else if minutes >= 60 {
        let hours = minutes / 60;
        let rest = minutes % 60;
        push_decimal(&mut s, hours);
        if rest == 0 {
            s.append("小时");
        } else {
            s.append("小时 ");
            push_decimal(&mut s, rest);
            s.append("分钟");
        }
    } else {
        push_decimal(&mut s, minutes);
        s.append("分钟");
    }
    s
}

/// Countdown to `resets_at` from `now`: rounded up to whole minutes, shown as
/// days and hours, hours and minutes, or minutes; "等待重置" once due.
pub fn reset_countdown(resets_at: Option<&str>, now: Timestamp) -> (s: String)
    requires
        wf_time(now),
    ensures
        s@ == countdown_text(
            match resets_at { Some(t) => Some(t@), None => None },
            now,
        ),
{
    let text = match resets_at {
        None => { return String::from_str("重置时间未知"); },
        Some(text) => text,
    };
    let reset = match parse_rfc3339(text) {
        None => { return String::from_str("重置时间未知"); },
        Some(reset) => reset,
    };
    let remaining: i128 = (reset.secs as i128 - now.secs as i128) * 1_000_000_000
        + (reset.nanos as i128 - now.nanos as i128);
    assert(remaining == nanos_of(reset) - nanos_of(now)) by (nonlinear_arith)
        requires
            remaining == (reset.secs as int - now.secs as int) * 1_000_000_000
                + (reset.nanos as int - now.nanos as int),
    ;
    if remaining <= 0 {
        return String::from_str("等待重置");
    }
    let whole: i128 = remaining / 60_000_000_000;
    let minutes: i128 = if remaining % 60_000_000_000 == 0 { whole } else { whole + 1 };
    assert(minutes <= u64::MAX) by (nonlinear_arith)
        requires
            remaining <= 0x1_0000_0000_0000_0000i128 * 1_000_000_000 + 2_000_000_000,
            whole == remaining / 60_000_000_000,
            remaining > 0,
            minutes <= whole + 1,
    ;
    minutes_countdown(minutes as u64)
}

/// The index of the first provider of `id` that is ready and has a window with a
/// known share, with the index of that window.
pub open spec fn first_usable(providers: Seq<TrayProvider>, id: ProviderId) -> Option<(int, int)>
    decreases providers.len(),
{
    if providers.len() == 0 {
        None
    } else {
        let rest = first_usable(providers.drop_last(), id);
        if rest is Some {
            rest
        } else {
            let p = providers.last();
            if p.id == id && p.status == ProviderStatus::Ready
                && first_known_window(p.windows@) is Some {
                Some((providers.len() - 1, first_known_window(p.windows@)->0))
            } else {
                None
            }
        }
    }
}

/// The first window with a known share.
pub open spec fn first_known_window(windows: Seq<TrayWindow>) -> Option<int>
    decreases windows.len(),
{
    if windows.len() == 0 {
        None
    } else {
        let rest = first_known_window(windows.drop_last());
        if rest is Some {
            rest
        } else if windows.last().remaining_percent is Some {
            Some(windows.len() - 1)
        } else {
            None
        }
    }
}

/// The window that the summary describes: Codex first, then Anthropic.
pub open spec fn selected(providers: Seq<TrayProvider>) -> Option<(int, int)> {
    if first_usable(providers, ProviderId::Codex) is Some {
        first_usable(providers, ProviderId::Codex)
    } else {
        first_usable(providers, ProviderId::Claude)
    }
}

proof fn lemma_first_known_bounds(windows: Seq<TrayWindow>)
    ensures
        first_known_window(windows) matches Some(j) ==> 0 <= j < windows.len()
            && windows[j].remaining_percent is Some,
    decreases windows.len(),
{
    if windows.len() > 0 {
        lemma_first_known_bounds(windows.drop_last());
    }
}

proof fn lemma_first_usable_bounds(providers: Seq<TrayProvider>, id: ProviderId)
    ensures
        first_usable(providers, id) matches Some(p) ==> 0 <= p.0 < providers.len()
            && 0 <= p.1 < providers[p.0].windows@.len()
            && providers[p.0].windows@[p.1].remaining_percent is Some,
    decreases providers.len(),
{
    if providers.len() > 0 {
        lemma_first_usable_bounds(providers.drop_last(), id);
        lemma_first_known_bounds(providers.last().windows@);
    }
}

fn find_known_window(windows: &Vec<TrayWindow>) -> (found: Option<usize>)
    ensures
        match found {
            Some(j) => first_known_window(windows@) == Some(j as int),
            None => first_known_window(windows@) is None,
        },
{
    let mut j: usize = 0;
    while j < windows.len()
        invariant
            j <= windows.len(),
            first_known_window(windows@.subrange(0, j as int)) is None,
        decreases windows.len() - j,
    {
        proof {
            assert(windows@.subrange(0, j + 1).drop_last() =~= windows@.subrange(0, j as int));
        }
        if windows[j].remaining_percent.is_some() {
            proof { lemma_prefix_known(windows@, j as int); }
            return Some(j);
        }
        j = j + 1;
    }
    assert(windows@.subrange(0, windows.len() as int) =~= windows@);
    None
}

/// Once a prefix holds a known window, extending it does not change the first one.
proof fn lemma_prefix_known(windows: Seq<TrayWindow>, j: int)
    requires
        0 <= j < windows.len(),
        first_known_window(windows.subrange(0, j)) is None,
        windows[j].remaining_percent is Some,
    ensures
        first_known_window(windows) == Some(j),
    decreases windows.len(),
{
    if windows.len() == j + 1 {
        assert(windows.drop_last() =~= windows.subrange(0, j));
    } else {
        assert(windows.drop_last().subrange(0, j) =~= windows.subrange(0, j));
        lemma_prefix_known(windows.drop_last(), j);
    }
}

proof fn lemma_prefix_usable(providers: Seq<TrayProvider>, i: int, id: ProviderId)
    requires
        0 <= i <= providers.len(),
        first_usable(providers.subrange(0, i), id) is Some,
    ensures
        first_usable(providers, id) == first_usable(providers.subrange(0, i), id),
    decreases providers.len(),
{
    if providers.len() == i {
        assert(providers.subrange(0, i) =~= providers);
    } else {
        assert(providers.drop_last().subrange(0, i) =~= providers.subrange(0, i));
        lemma_prefix_usable(providers.drop_last(), i, id);
    }
}

fn find_usable(providers: &Vec<TrayProvider>, id: ProviderId) -> (found: Option<(usize, usize)>)
    ensures
        match found {
            Some(p) => first_usable(providers@, id) == Some((p.0 as int, p.1 as int)),
            None => first_usable(providers@, id) is None,
        },
{
    let mut i: usize = 0;
    while i < providers.len()
        invariant
            i <= providers.len(),
            first_usable(providers@.subrange(0, i as int), id) is None,
        decreases providers.len() - i,
    {
        let provider = &providers[i];
        proof {
            assert(providers@.subrange(0, i + 1).drop_last() =~= providers@.subrange(0, i as int));
        }
        if provider.id == id && provider.status == ProviderStatus::Ready {
            if let Some(j) = find_known_window(&provider.windows) {
                proof {
                    assert(providers@.subrange(0, i + 1).last() == providers@[i as int]);
                    lemma_prefix_usable(providers@, i + 1, id);
                }
                return Some((i, j));
            }
        }
        i = i + 1;
    }
    assert(providers@.subrange(0, providers.len() as int) =~= providers@);
    None
}

fn selected_window(providers: &Vec<TrayProvider>) -> (found: Option<(usize, usize)>)
    ensures
        match found {
            Some(p) => selected(providers@) == Some((p.0 as int, p.1 as int)),
            None => selected(providers@) is None,
        },
        found matches Some(p) ==> p.0 < providers.len() && p.1 < providers@[p.0 as int].windows@.len()
            && providers@[p.0 as int].windows@[p.1 as int].remaining_percent is Some,
{
    proof {
        lemma_first_usable_bounds(providers@, ProviderId::Codex);
        lemma_first_usable_bounds(providers@, ProviderId::Claude);
    }
    match find_usable(providers, ProviderId::Codex) {
        Some(found) => Some(found),
        None => find_usable(providers, ProviderId::Claude),
    }
}

pub open spec fn opt_view(s: Option<String>) -> Option<Seq<char>> {
    match s { Some(t) => Some(t@), None => None }
}

/// Title text for the selected window: remaining share, a space, the countdown.
pub open spec fn title_text(w: TrayWindow, now: Timestamp) -> Seq<char> {
    decimal(w.remaining_percent->0 as nat) + "% "@ + countdown_text(opt_view(w.resets_at), now)
}

pub open spec fn tooltip_text(p: TrayProvider, w: TrayWindow, now: Timestamp) -> Seq<char> {
    "AgentBar · "@ + p.name@ + " · "@ + w.label@ + "\n剩余 "@
        + decimal(w.remaining_percent->0 as nat) + "% · "@ + countdown_text(opt_view(w.resets_at), now)
}

pub open spec fn no_usage_tooltip() -> Seq<char> {
    "AgentBar · 暂无可用用量，打开面板查看账号状态"@
}

fn countdown_of(window: &TrayWindow, now: Timestamp) -> (s: String)
    requires
        wf_time(now),
    ensures
        s@ == countdown_text(opt_view(window.resets_at), now),
{
    match &window.resets_at {
        Some(text) => reset_countdown(Some(text.as_str()), now),
        None => reset_countdown(None, now),
    }
}

/// Menu-bar title: "<remaining>% <countdown>" of the selected window, or none.
pub fn title(providers: &Vec<TrayProvider>, now: Timestamp) -> (t: Option<String>)
    requires
        wf_time(now),
    ensures
        match selected(providers@) {
            None => t is None,
            Some(p) => t matches Some(s) && s@ == title_text(providers@[p.0].windows@[p.1], now),
        },
{
    let (i, j) = match selected_window(providers) {
        None => { return None; },
        Some(found) => found,
    };
    let window = &providers[i].windows[j];
    let percent = match window.remaining_percent { Some(p) => p, None => 0 };
    let mut s = decimal_string(percent as u64);
    s.append("% ");
    let countdown = countdown_of(window, now);
    s.append(countdown.as_str());
    Some(s)
}

/// Menu-bar tooltip naming the provider and window, or a hint when nothing is usable.
pub fn tooltip(providers: &Vec<TrayProvider>, now: Timestamp) -> (t: String)
    requires
        wf_time(now),
    ensures
        match selected(providers@) {
            None => t@ == no_usage_tooltip(),
            Some(p) => t@ == tooltip_text(providers@[p.0], providers@[p.0].windows@[p.1], now),
        },
{
    let (i, j) = match selected_window(providers) {
        None => { return String::from_str("AgentBar · 暂无可用用量，打开面板查看账号状态"); },
        Some(found) => found,
    };
    let provider = &providers[i];
    let window = &provider.windows[j];
    let percent = match window.remaining_percent { Some(p) => p, None => 0 };
    let mut s = String::from_str("AgentBar · ");
    s.append(provider.name.as_str());
    s.append(" · ");
    s.append(window.label.as_str());
    s.append("\n剩余 ");
    push_decimal(&mut s, percent as u64);
    s.append("% · ");
    let countdown = countdown_of(window, now);
    s.append(countdown.as_str());
    s
}

} // verus!
