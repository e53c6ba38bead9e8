//! Quota windows of the Codex usage service, mapped from its two response
//! shapes: the HTTP usage endpoint and the local app server's rate limits.
use vstd::prelude::*;
use vstd::string::*;
use vstd::std_specs::iter::IteratorSpec;
use crate::account_statistics::{Amount, amount_finite};
use crate::json::{Json, get, get_opt, member, present, as_text, as_i64, as_f64, deref_opt, get_member, present_value, text_of, i64_of, f64_of};
use crate::models::{UsageWindow, ProviderUsage, ProviderStatus};
use crate::text::{decimal, spec_trim};
use crate::providers::{codex_plan_text, invalid_response_text, is_unavailable_card, FetchError};
use crate::text::cleaned;
use crate::statistics::codex_history::or_else;
use crate::time::{Timestamp, spec_unix_seconds_in_range, spec_utc_seconds_text};

verus! {

broadcast use vstd::string::axiom_spec_iter, vstd::string::next_postcondition;

/// A usage window with its texts as character sequences.
pub struct WindowModel {
    pub label: Seq<char>,
    pub used_percent: Amount,
    pub resets_at: Option<Seq<char>>,
}

pub open spec fn window_model(w: UsageWindow) -> WindowModel {
    WindowModel {
        label: w.label@,
        used_percent: w.used_percent,
        resets_at: match w.resets_at {
            Some(t) => Some(t@),
            None => None,
        },
    }
}

pub open spec fn windows_model(s: Seq<UsageWindow>) -> Seq<WindowModel> {
    s.map_values(|w: UsageWindow| window_model(w))
}

/// `f64::clamp(0.0, 100.0)` of a finite double, on its bit pattern: a negative
/// value (below -0.0) becomes +0.0, a value above 100.0 becomes 100.0, and any
/// other value, -0.0 included, stays.
pub open spec fn clamp_percent(a: Amount) -> Amount {
    if a.bits > 0x8000_0000_0000_0000u64 {
        Amount { bits: 0 }
    } else if 0x4059_0000_0000_0000u64 < a.bits && a.bits < 0x8000_0000_0000_0000u64 {
        Amount { bits: 0x4059_0000_0000_0000u64 }
    } else {
        a
    }
}

/// A finite used percentage, once clamped, lies within 0 ..= 100.
pub proof fn law_clamped_percent_is_a_percentage(a: Amount)
    requires
        amount_finite(a),
    ensures
        crate::account_statistics::amount_percent(clamp_percent(a)),
{
    assert((0u64 >> 52u64) & 0x7ffu64 != 0x7ffu64) by (bit_vector);
    assert((0x4059_0000_0000_0000u64 >> 52u64) & 0x7ffu64 != 0x7ffu64) by (bit_vector);
}

/// Every app-server window that can be read shows a used share within 0 ..= 100.
pub proof fn law_windows_show_percentages(value: Json, prefix: Seq<char>, fallback: Seq<char>)
    ensures
        window_of(value, prefix, fallback) matches Some(w) ==> crate::account_statistics::amount_percent(w.used_percent),
{
    if let Some(u) = as_f64(get(value, "usedPercent"@)) {
        if amount_finite(u) {
            law_clamped_percent_is_a_percentage(u);
        }
    }
}

pub fn clamp_to_percent(a: Amount) -> (c: Amount)
    ensures
        c == clamp_percent(a),
{
    if a.bits > 0x8000_0000_0000_0000u64 {
        Amount { bits: 0 }
    } else if 0x4059_0000_0000_0000u64 < a.bits && a.bits < 0x8000_0000_0000_0000u64 {
        Amount { bits: 0x4059_0000_0000_0000u64 }
    } else {
        a
    }
}

/// A window's label from its length in minutes: a week, whole hours, minutes,
/// or the fallback where the length is unknown or not positive.
pub open spec fn duration_label(duration: Option<i64>, fallback: Seq<char>) -> Seq<char> {
    match duration {
        Some(m) => if m == 10080 {
            "每周用量"@
        } else if m > 0 && m % 60 == 0 {
            decimal((m / 60) as nat) + " 小时用量"@
        } else if m > 0 {
            decimal(m as nat) + " 分钟用量"@
        } else {
            fallback
        },
        None => fallback,
    }
}

/// The reset instant's text, where chrono represents it.
pub open spec fn reset_text(secs: Option<i64>) -> Option<Seq<char>> {
    match secs {
        Some(s) => if spec_unix_seconds_in_range(s) { Some(spec_utc_seconds_text(s)) } else { None },
        None => None,
    }
}

/// A window from its parts: none unless the used percentage is a finite number.
pub open spec fn window_from(used: Option<Json>, duration: Option<i64>, reset: Option<i64>, prefix: Seq<char>, fallback: Seq<char>) -> Option<WindowModel> {
    match as_f64(used) {
        Some(u) => if amount_finite(u) {
            Some(WindowModel {
                label: prefix + duration_label(duration, fallback),
                used_percent: clamp_percent(u),
                resets_at: reset_text(reset),
            })
        } else {
            None
        },
        None => None,
    }
}

/// A window in the app server's shape.
pub open spec fn window_of(value: Json, prefix: Seq<char>, fallback: Seq<char>) -> Option<WindowModel> {
    window_from(get(value, "usedPercent"@), as_i64(get(value, "windowDurationMins"@)), as_i64(get(value, "resetsAt"@)), prefix, fallback)
}

fn label_of(duration: Option<i64>, fallback: &str) -> (label: String)
    ensures
        label@ == duration_label(duration, fallback@),
{
    match duration {
        Some(m) => if m == 10080 {
            String::from_str("每周用量")
        } else if m > 0 && m % 60 == 0 {
            let mut s = crate::text::decimal_string((m / 60) as u64);
            s.append(" 小时用量");
            s
        } else if m > 0 {
            let mut s = crate::text::decimal_string(m as u64);
            s.append(" 分钟用量");
            s
        } else {
            String::from_str(fallback)
        },
        None => String::from_str(fallback),
    }
}

fn reset_of(secs: Option<i64>) -> (t: Option<String>)
    ensures
        match t {
            Some(x) => reset_text(secs) == Some(x@),
            None => reset_text(secs) is None,
        },
{
    match secs {
        Some(s) => crate::time::utc_seconds_text(s),
        None => None,
    }
}

/// The reset text of a reported reset time: none unless the time is after the
/// epoch and chrono represents it.
pub fn positive_reset_text(reset: Option<i64>) -> (t: Option<String>)
    ensures
        match reset {
            Some(s) if s > 0 => match t {
                Some(x) => reset_text(reset) == Some(x@),
                None => reset_text(reset) is None,
            },
            _ => t is None,
        },
{
    match reset {
        Some(s) => if s > 0 { reset_of(reset) } else { None },
        None => None,
    }
}

pub open spec fn opt_window_model(w: Option<UsageWindow>) -> Option<WindowModel> {
    match w {
        Some(x) => Some(window_model(x)),
        None => None,
    }
}

fn window_from_parts(used: Option<&Json>, duration: Option<i64>, reset: Option<i64>, prefix: &str, fallback: &str) -> (w: Option<UsageWindow>)
    ensures
        opt_window_model(w) == window_from(deref_opt(used), duration, reset, prefix@, fallback@),
{
    let u = match f64_of(used) {
        Some(u) => u,
        None => { return None; },
    };
    if !u.is_finite() {
        return None;
    }
    let mut label = String::from_str(prefix);
    let tail = label_of(duration, fallback);
    label.append(tail.as_str());
    Some(UsageWindow { label, used_percent: clamp_to_percent(u), resets_at: reset_of(reset) })
}

/// Maps one app-server window; a missing or non-finite used percentage is an
/// unrecognized response.
pub fn parse_window(value: &Json, prefix: &str, fallback: &str) -> (w: Result<UsageWindow, String>)
    ensures
        match w {
            Ok(x) => window_of(*value, prefix@, fallback@) == Some(window_model(x)),
            Err(e) => window_of(*value, prefix@, fallback@) is None && e@ == invalid_response_text(),
        },
{
    let used = get_member(value, "usedPercent");
    let duration = i64_of(get_member(value, "windowDurationMins"));
    let reset = i64_of(get_member(value, "resetsAt"));
    match window_from_parts(used, duration, reset, prefix, fallback) {
        Some(w) => Ok(w),
        None => Err(String::from_str("Codex 返回的数据格式无法识别，请更新 Codex 后重试")),
    }
}

// ---------------------------------------------------------------------------
// Display names of extra limits.

/// A control character: general category Cc, U+0000 to U+001F and U+007F to U+009F.
pub open spec fn is_control(c: char) -> bool {
    (c as u32) <= 0x1f || (0x7f <= (c as u32) && (c as u32) <= 0x9f)
}

/// The characters of `s`, without control characters where `skip_control`.
pub open spec fn kept_chars(s: Seq<char>, skip_control: bool) -> Seq<char>
    decreases s.len(),
{
    if s.len() == 0 {
        s
    } else if skip_control && is_control(s.last()) {
        kept_chars(s.drop_last(), skip_control)
    } else {
        kept_chars(s.drop_last(), skip_control).push(s.last())
    }
}

/// At most the first `n` characters.
pub open spec fn first_chars(s: Seq<char>, n: nat) -> Seq<char> {
    if s.len() <= n { s } else { s.subrange(0, n as int) }
}

/// The prefix that names an extra limit: at most 80 of its characters, then " · ".
pub open spec fn name_prefix(name: Seq<char>, skip_control: bool) -> Seq<char> {
    first_chars(kept_chars(name, skip_control), 80) + " · "@
}

/// Without skipping, every character is kept.
pub proof fn lemma_kept_all(s: Seq<char>)
    ensures
        kept_chars(s, false) == s,
    decreases s.len(),
{
    if s.len() > 0 {
        lemma_kept_all(s.drop_last());
        assert(s.drop_last().push(s.last()) =~= s);
    }
}

proof fn lemma_kept_len(s: Seq<char>, skip: bool)
    ensures
        kept_chars(s, skip).len() <= s.len(),
    decreases s.len(),
{
    if s.len() > 0 {
        lemma_kept_len(s.drop_last(), skip);
    }
}

/// A name as it prefixes a window's label: at most 80 characters, then " · ".
pub fn display_prefix(name: &str) -> (p: String)
    ensures
        p@ == name_prefix(name@, false),
{
    prefix_of(name, false)
}

fn prefix_of(name: &str, skip_control: bool) -> (p: String)
    ensures
        p@ == name_prefix(name@, skip_control),
{
    let ghost all = name@;
    let mut out = String::new();
    let mut count: usize = 0;
    let mut chars = name.chars();
    let ghost mut i: int = 0;
    loop
        invariant
            all == name@,
            0 <= i <= all.len(),
            chars.remaining() == all.subrange(i, all.len() as int),
            out@ == first_chars(kept_chars(all.subrange(0, i), skip_control), 80),
            count == out@.len(),
            count <= 80,
        decreases all.len() - i,
    {
        let ghost before = chars.remaining();
        match chars.next() {
            None => {
                assert(all.subrange(0, i) =~= all);
                out.append(" · ");
                return out;
            },
            Some(c) => {
                proof {
                    assert(before.len() > 0);
                    assert(c == all[i]);
                    assert(all.subrange(0, i + 1).drop_last() =~= all.subrange(0, i));
                    assert(all.subrange(0, i + 1).last() == c);
                    assert(chars.remaining() =~= all.subrange(i + 1, all.len() as int));
                    lemma_kept_len(all.subrange(0, i), skip_control);
                }
                let code: u32 = c as u32;
                let control = code <= 0x1f || (0x7f <= code && code <= 0x9f);
                if !(skip_control && control) && count < 80 {
                    crate::text::push_char(&mut out, c);
                    count = count + 1;
                }
                proof {
                    let k0 = kept_chars(all.subrange(0, i), skip_control);
                    let k1 = kept_chars(all.subrange(0, i + 1), skip_control);
                    if skip_control && control {
                        assert(k1 == k0);
                    } else {
                        assert(k1 == k0.push(c));
                        if k0.len() < 80 {
                            assert(first_chars(k0, 80) == k0);
                            assert(first_chars(k1, 80) =~= k0.push(c));
                        } else {
                            assert(first_chars(k1, 80) =~= first_chars(k0, 80));
                        }
                    }
                    i = i + 1;
                }
            },
        }
    }
}

// ---------------------------------------------------------------------------
// The app server's rate limits.

/// The rate-limit buckets in the order they are read: the current per-limit
/// map with the core `codex` bucket first and the others in map order, else
/// the legacy single bucket, named by its limit id or `codex`.
pub open spec fn buckets_of(result: Json) -> Seq<(Seq<char>, Json)> {
    let listed = match get(result, "rateLimitsByLimitId"@) {
        Some(Json::Object(f)) => (match member(f@, "codex"@) {
            Some(c) => seq![("codex"@, c)],
            None => Seq::empty(),
        }) + others(f@),
        _ => Seq::empty(),
    };
    if listed.len() > 0 {
        listed
    } else {
        match present(get(result, "rateLimits"@)) {
            Some(l) => seq![(match as_text(get(l, "limitId"@)) {
                Some(t) => t,
                None => "codex"@,
            }, l)],
            None => Seq::empty(),
        }
    }
}

/// The members other than `codex`, in order.
pub open spec fn others(f: Seq<(String, Json)>) -> Seq<(Seq<char>, Json)>
    decreases f.len(),
{
    if f.len() == 0 {
        Seq::empty()
    } else if f.last().0@ == "codex"@ {
        others(f.drop_last())
    } else {
        others(f.drop_last()).push((f.last().0@, f.last().1))
    }
}

pub open spec fn bucket_pair(p: (String, &Json)) -> (Seq<char>, Json) {
    (p.0@, *p.1)
}

fn others_of<'a>(f: &'a Vec<(String, Json)>) -> (r: Vec<(String, &'a Json)>)
    ensures
        r@.map_values(|p: (String, &Json)| bucket_pair(p)) == others(f@),
{
    let mut r: Vec<(String, &'a Json)> = Vec::new();
    let mut i: usize = 0;
    while i < f.len()
        invariant
            i <= f@.len(),
            r@.map_values(|p: (String, &Json)| bucket_pair(p)) == others(f@.subrange(0, i as int)),
        decreases f.len() - i,
    {
        assert(f@.subrange(0, i + 1).drop_last() =~= f@.subrange(0, i as int));
        if !crate::text::str_eq(f[i].0.as_str(), "codex") {
            let ghost before = r@;
            r.push((f[i].0.clone(), &f[i].1));
            assert(r@.map_values(|p: (String, &Json)| bucket_pair(p))
                =~= before.map_values(|p: (String, &Json)| bucket_pair(p)).push((f@[i as int].0@, f@[i as int].1)));
        }
        i = i + 1;
    }
    assert(f@.subrange(0, f@.len() as int) =~= f@);
    r
}

/// The buckets of an app-server rate-limits response, in the order they are read.
pub fn limit_buckets<'a>(result: &'a Json) -> (b: Vec<(String, &'a Json)>)
    ensures
        b@.map_values(|p: (String, &Json)| bucket_pair(p)) == buckets_of(*result),
{
    let mut listed: Vec<(String, &'a Json)> = Vec::new();
    if let Some(obj) = get_member(result, "rateLimitsByLimitId") {
        if let Json::Object(f) = obj {
            if let Some(c) = get_member(obj, "codex") {
                listed.push((String::from_str("codex"), c));
            }
            let mut rest = others_of(f);
            listed.append(&mut rest);
        }
    }
    if listed.len() > 0 {
        return listed;
    }
    let mut legacy_list: Vec<(String, &'a Json)> = Vec::new();
    if let Some(l) = present_value(get_member(result, "rateLimits")) {
        let id = match text_of(get_member(l, "limitId")) {
            Some(t) => String::from_str(t),
            None => String::from_str("codex"),
        };
        legacy_list.push((id, l));
    }
    legacy_list
}

/// Where the buckets have got to: the plan label, the windows read so far,
/// and whether an unrecognized bucket or window ended the reading.
pub struct LimitsModel {
    pub plan: Seq<char>,
    pub windows: Seq<WindowModel>,
    pub failed: bool,
}

pub open spec fn bucket_name(id: Seq<char>, b: Json) -> Seq<char> {
    match as_text(get(b, "limitName"@)) {
        Some(n) => if spec_trim(n).len() > 0 { n } else { id },
        None => id,
    }
}

/// The core bucket's windows carry no prefix; another's are named after it.
pub open spec fn bucket_prefix(id: Seq<char>, b: Json) -> Seq<char> {
    if id == "codex"@ { Seq::empty() } else { name_prefix(bucket_name(id, b), false) }
}

/// An optional window: absent (`Some(None)`), read, or unrecognized (`None`).
pub open spec fn opt_window(v: Option<Json>, prefix: Seq<char>, fallback: Seq<char>) -> Option<Option<WindowModel>> {
    match v {
        None => Some(None),
        Some(x) => match window_of(x, prefix, fallback) {
            Some(w) => Some(Some(w)),
            None => None,
        },
    }
}

pub open spec fn push_opt(s: Seq<WindowModel>, w: Option<WindowModel>) -> Seq<WindowModel> {
    match w {
        Some(x) => s.push(x),
        None => s,
    }
}

/// One bucket: it must be an object; the core bucket's plan type names the
/// plan; its primary and secondary windows, then its monthly limit, are added.
pub open spec fn bucket_step(st: LimitsModel, id: Seq<char>, b: Json, monthly: Option<WindowModel>) -> LimitsModel {
    if !(b is Object) {
        LimitsModel { failed: true, ..st }
    } else {
        let plan = if id == "codex"@ {
            match as_text(get(b, "planType"@)) {
                Some(t) => codex_plan_text(Some(t)),
                None => st.plan,
            }
        } else {
            st.plan
        };
        let prefix = bucket_prefix(id, b);
        match opt_window(present(get(b, "primary"@)), prefix, "主要额度"@) {
            None => LimitsModel { plan, windows: st.windows, failed: true },
            Some(p) => match opt_window(present(get(b, "secondary"@)), prefix, "次要额度"@) {
                None => LimitsModel { plan, windows: push_opt(st.windows, p), failed: true },
                Some(q) => LimitsModel { plan, windows: push_opt(push_opt(push_opt(st.windows, p), q), monthly), failed: false },
            },
        }
    }
}

/// The first `k` buckets, stopping at the first unrecognized one.
pub open spec fn process(buckets: Seq<(Seq<char>, Json)>, monthly: Seq<Option<WindowModel>>, plan: Seq<char>, k: int) -> LimitsModel
    decreases k,
{
    if k <= 0 {
        LimitsModel { plan, windows: Seq::empty(), failed: false }
    } else {
        let prev = process(buckets, monthly, plan, k - 1);
        if prev.failed { prev } else { bucket_step(prev, buckets[k - 1].0, buckets[k - 1].1, monthly[k - 1]) }
    }
}

/// Everything of a card but its plan, status, message, windows and update time.
pub open spec fn same_identity(a: ProviderUsage, b: ProviderUsage) -> bool {
    a.id == b.id && a.name == b.name && a.source == b.source && a.account == b.account
        && a.cache_scope == b.cache_scope && a.reset_credits == b.reset_credits
}

pub open spec fn no_windows_text() -> Seq<char> {
    "已读取本机 Codex 账号，服务未返回可展示的额度窗口"@
}

fn copy_window(w: &UsageWindow) -> (c: UsageWindow)
    ensures
        c == *w,
{
    UsageWindow {
        label: w.label.clone(),
        used_percent: w.used_percent,
        resets_at: crate::statistics::records::copy_text(&w.resets_at),
    }
}

pub fn push_window(windows: &mut Vec<UsageWindow>, w: UsageWindow)
    ensures
        windows_model(final(windows)@) == windows_model(old(windows)@).push(window_model(w)),
{
    let ghost before = windows@;
    windows.push(w);
    assert(windows_model(windows@) =~= windows_model(before).push(window_model(w)));
}

fn bucket_windows(
    usage: &mut ProviderUsage,
    windows: &mut Vec<UsageWindow>,
    id: &str,
    bucket: &Json,
    monthly: &Option<UsageWindow>,
) -> (ok: bool)
    ensures
        ({
            let st = bucket_step(
                LimitsModel { plan: old(usage).plan@, windows: windows_model(old(windows)@), failed: false },
                id@, *bucket, opt_window_model(*monthly));
            &&& ok == !st.failed
            &&& final(usage).plan@ == st.plan
            &&& (ok ==> windows_model(final(windows)@) == st.windows)
        }),
        same_identity(*final(usage), *old(usage)),
        final(usage).status == old(usage).status,
        final(usage).message == old(usage).message,
        final(usage).windows == old(usage).windows,
        final(usage).updated_at == old(usage).updated_at,
{
    if !matches!(bucket, Json::Object(_)) {
        return false;
    }
    let core = crate::text::str_eq(id, "codex");
    if core {
        if let Some(t) = text_of(get_member(bucket, "planType")) {
            usage.plan = crate::providers::plan_label(Some(t));
        }
    }
    let prefix = if core {
        String::new()
    } else {
        let name = match text_of(get_member(bucket, "limitName")) {
            Some(n) => if crate::text::trim_text(n).is_empty() { id } else { n },
            None => id,
        };
        prefix_of(name, false)
    };
    if let Some(p) = present_value(get_member(bucket, "primary")) {
        match parse_window(p, prefix.as_str(), "主要额度") {
            Ok(w) => push_window(windows, w),
            Err(_) => { return false; },
        }
    }
    if let Some(q) = present_value(get_member(bucket, "secondary")) {
        match parse_window(q, prefix.as_str(), "次要额度") {
            Ok(w) => push_window(windows, w),
            Err(_) => { return false; },
        }
    }
    if let Some(m) = monthly {
        push_window(windows, copy_window(m));
    }
    true
}

/// Applies an app-server rate-limits response to the card. `monthly` holds,
/// for each bucket in the order of `limit_buckets`, the window of its monthly
/// limit where it has one. An unrecognized bucket or window is an error (the
/// plan read before it stays); no window at all leaves the card unavailable;
/// otherwise the card takes the windows and the update time.
pub fn apply_limits(usage: &mut ProviderUsage, result: &Json, monthly: &Vec<Option<UsageWindow>>, now: Timestamp) -> (r: Result<(), String>)
    requires
        monthly@.len() == buckets_of(*result).len(),
    ensures
        ({
            let fin = process(buckets_of(*result), monthly@.map_values(|w: Option<UsageWindow>| opt_window_model(w)),
                old(usage).plan@, buckets_of(*result).len() as int);
            &&& final(usage).plan@ == fin.plan
            &&& same_identity(*final(usage), *old(usage))
            &&& (fin.failed ==> (r matches Err(e) && e@ == invalid_response_text())
                && final(usage).status == old(usage).status && final(usage).message == old(usage).message
                && final(usage).windows == old(usage).windows && final(usage).updated_at == old(usage).updated_at)
            &&& (!fin.failed && fin.windows.len() == 0 ==> r is Ok
                && final(usage).status == ProviderStatus::Unavailable
                && (final(usage).message matches Some(m) && m@ == no_windows_text())
                && final(usage).windows == old(usage).windows && final(usage).updated_at == old(usage).updated_at)
            &&& (!fin.failed && fin.windows.len() > 0 ==> r is Ok
                && final(usage).status == old(usage).status && final(usage).message == old(usage).message
                && windows_model(final(usage).windows@) == fin.windows
                && opt_text_of(final(usage).updated_at) == reset_text(Some(now.secs)))
        }),
{
    let buckets = limit_buckets(result);
    let ghost bs = buckets_of(*result);
    let ghost ms = monthly@.map_values(|w: Option<UsageWindow>| opt_window_model(w));
    let ghost plan0 = usage.plan@;
    let ghost start = *usage;
    let mut windows: Vec<UsageWindow> = Vec::new();
    let mut i: usize = 0;
    while i < buckets.len()
        invariant
            i <= buckets@.len(),
            buckets@.map_values(|p: (String, &Json)| bucket_pair(p)) == bs,
            bs == buckets_of(*result),
            start == *old(usage),
            plan0 == old(usage).plan@,
            bs.len() == monthly@.len(),
            ms == monthly@.map_values(|w: Option<UsageWindow>| opt_window_model(w)),
            !process(bs, ms, plan0, i as int).failed,
            process(bs, ms, plan0, i as int).plan == usage.plan@,
            process(bs, ms, plan0, i as int).windows == windows_model(windows@),
            same_identity(*usage, start),
            usage.status == start.status,
            usage.message == start.message,
            usage.windows == start.windows,
            usage.updated_at == start.updated_at,
        decreases buckets.len() - i,
    {
        let ghost before_windows = windows@;
        assert(bs[i as int] == bucket_pair(buckets@[i as int]));
        assert(ms[i as int] == opt_window_model(monthly@[i as int]));
        let ok = bucket_windows(usage, &mut windows, buckets[i].0.as_str(), buckets[i].1, &monthly[i as usize]);
        assert(process(bs, ms, plan0, i + 1) == bucket_step(process(bs, ms, plan0, i as int), bs[i as int].0, bs[i as int].1, ms[i as int]));
        if !ok {
            assert(process(bs, ms, plan0, i + 1).failed);
            proof {
                lemma_process_stays_failed(bs, ms, plan0, i + 1, bs.len() as int);
            }
            return Err(String::from_str("Codex 返回的数据格式无法识别，请更新 Codex 后重试"));
        }
        i = i + 1;
    }
    assert(buckets@.len() == bs.len());
    if windows.len() == 0 {
        usage.status = ProviderStatus::Unavailable;
        usage.message = Some(String::from_str("已读取本机 Codex 账号，服务未返回可展示的额度窗口"));
        return Ok(());
    }
    usage.windows = windows;
    usage.updated_at = crate::time::utc_seconds_text(now.secs);
    Ok(())
}

pub open spec fn opt_text_of(t: Option<String>) -> Option<Seq<char>> {
    match t {
        Some(x) => Some(x@),
        None => None,
    }
}

proof fn lemma_process_stays_failed(bs: Seq<(Seq<char>, Json)>, ms: Seq<Option<WindowModel>>, plan: Seq<char>, j: int, k: int)
    requires
        0 <= j <= k,
        process(bs, ms, plan, j).failed,
    ensures
        process(bs, ms, plan, k).failed,
        process(bs, ms, plan, k) == process(bs, ms, plan, j),
    decreases k - j,
{
    if k > j {
        lemma_process_stays_failed(bs, ms, plan, j, k - 1);
    }
}

// ---------------------------------------------------------------------------
// The account the app server reports.

pub open spec fn no_login_text() -> Seq<char> { "未找到本机 Codex 登录账号，请先在 Codex 中登录"@ }
pub open spec fn api_key_text() -> Seq<char> { "当前 Codex 使用 API Key 登录，无法读取 ChatGPT 订阅额度"@ }
pub open spec fn other_login_text() -> Seq<char> { "当前 Codex 登录方式不提供 ChatGPT 订阅额度"@ }

/// The account's e-mail, where it is a text that is not blank (kept as written).
pub open spec fn account_email(account: Json) -> Option<Seq<char>> {
    match as_text(get(account, "email"@)) {
        Some(e) => if spec_trim(e).len() > 0 { Some(e) } else { None },
        None => None,
    }
}

/// Maps the app server's account: none signed in leaves the card unavailable;
/// a ChatGPT login is ready with its plan and e-mail; an API key or another
/// login is explained; an account without a type is an unrecognized response.
pub fn parse_account(result: &Json) -> (r: Result<ProviderUsage, String>)
    ensures
        match present(get(*result, "account"@)) {
            None => r matches Ok(u) && is_unavailable_card(u, crate::models::ProviderId::Codex)
                && u.plan@ == "未连接"@ && (u.message matches Some(m) && m@ == no_login_text()),
            Some(account) => match as_text(get(account, "type"@)) {
                None => r matches Err(e) && e@ == invalid_response_text(),
                Some(t) => r matches Ok(u) && u.id == crate::models::ProviderId::Codex && u.name@ == "Codex"@
                    && u.source == crate::models::DataMode::Local && u.windows@.len() == 0
                    && u.updated_at is None && u.cache_scope is None && u.reset_credits is None
                    && if t == "chatgpt"@ {
                        u.status == ProviderStatus::Ready
                            && u.plan@ == codex_plan_text(as_text(get(account, "planType"@)))
                            && opt_text_of(u.account) == account_email(account)
                            && u.message is None
                    } else {
                        u.status == ProviderStatus::Unavailable && u.account is None
                            && u.plan@ == (if t == "apiKey"@ { "API Key"@ } else { "未连接"@ })
                            && (u.message matches Some(m) && m@ == (if t == "apiKey"@ { api_key_text() } else { other_login_text() }))
                    },
            },
        },
{
    let mut usage = crate::providers::codex_unavailable("未找到本机 Codex 登录账号，请先在 Codex 中登录");
    let account = match present_value(get_member(result, "account")) {
        Some(a) => a,
        None => { return Ok(usage); },
    };
    match text_of(get_member(account, "type")) {
        Some(t) => {
            if crate::text::str_eq(t, "chatgpt") {
                usage.status = ProviderStatus::Ready;
                usage.plan = crate::providers::plan_label(text_of(get_member(account, "planType")));
                usage.account = match text_of(get_member(account, "email")) {
                    Some(e) => if crate::text::trim_text(e).is_empty() { None } else { Some(String::from_str(e)) },
                    None => None,
                };
                usage.message = None;
            } else if crate::text::str_eq(t, "apiKey") {
                usage.plan = String::from_str("API Key");
                usage.message = Some(String::from_str("当前 Codex 使用 API Key 登录，无法读取 ChatGPT 订阅额度"));
            } else {
                usage.message = Some(String::from_str("当前 Codex 登录方式不提供 ChatGPT 订阅额度"));
            }
            Ok(usage)
        },
        None => Err(String::from_str("Codex 返回的数据格式无法识别，请更新 Codex 后重试")),
    }
}

// ---------------------------------------------------------------------------
// The HTTP usage endpoint.

/// A window in the HTTP shape: the length in seconds becomes whole minutes and
/// the reset time counts only when positive.
pub open spec fn http_window(value: Json, prefix: Seq<char>, fallback: Seq<char>) -> Option<WindowModel> {
    let duration = match as_i64(get(value, "limit_window_seconds"@)) {
        Some(s) => if s > 0 { Some((s / 60) as i64) } else { None },
        None => None,
    };
    let reset = match as_i64(get(value, "reset_at"@)) {
        Some(t) => if t > 0 { Some(t) } else { None },
        None => None,
    };
    window_from(get(value, "used_percent"@), duration, reset, prefix, fallback)
}

/// One optional window of a limit: an unrecognized one marks the response malformed.
pub open spec fn read_step(ws: Seq<WindowModel>, malformed: bool, v: Option<Json>, prefix: Seq<char>, fallback: Seq<char>) -> (Seq<WindowModel>, bool) {
    match present(v) {
        None => (ws, malformed),
        Some(x) => match http_window(x, prefix, fallback) {
            Some(w) => (ws.push(w), malformed),
            None => (ws, true),
        },
    }
}

/// A limit's primary and secondary windows; a limit that is not an object is malformed.
pub open spec fn limit_windows(limit: Json, prefix: Seq<char>, ws: Seq<WindowModel>, malformed: bool) -> (Seq<WindowModel>, bool) {
    if !(limit is Object) {
        (ws, true)
    } else {
        let (w1, m1) = read_step(ws, malformed, get(limit, "primary_window"@), prefix, "主要额度"@);
        read_step(w1, m1, get(limit, "secondary_window"@), prefix, "次要额度"@)
    }
}

fn read_one(value: Option<&Json>, prefix: &str, fallback: &str, windows: &mut Vec<UsageWindow>, malformed: &mut bool)
    ensures
        (windows_model(final(windows)@), *final(malformed))
            == read_step(windows_model(old(windows)@), *old(malformed), deref_opt(value), prefix@, fallback@),
{
    let v = match present_value(value) {
        Some(v) => v,
        None => { return; },
    };
    let duration = match i64_of(get_member(v, "limit_window_seconds")) {
        Some(s) => if s > 0 { Some(s / 60) } else { None },
        None => None,
    };
    let reset = match i64_of(get_member(v, "reset_at")) {
        Some(t) => if t > 0 { Some(t) } else { None },
        None => None,
    };
    match window_from_parts(get_member(v, "used_percent"), duration, reset, prefix, fallback) {
        Some(w) => push_window(windows, w),
        None => { *malformed = true; },
    }
}

/// Adds a limit's windows, marking the response malformed where one cannot be read.
pub fn read_windows(limit: &Json, prefix: &str, windows: &mut Vec<UsageWindow>, malformed: &mut bool)
    ensures
        (windows_model(final(windows)@), *final(malformed))
            == limit_windows(*limit, prefix@, windows_model(old(windows)@), *old(malformed)),
{
    if !matches!(limit, Json::Object(_)) {
        *malformed = true;
        return;
    }
    read_one(get_member(limit, "primary_window"), prefix, "主要额度", windows, malformed);
    read_one(get_member(limit, "secondary_window"), prefix, "次要额度", windows, malformed);
}

pub open spec fn individual(v: Option<Json>) -> Option<Json> {
    match v {
        Some(x) => or_else(get(x, "individual_limit"@), get(x, "individualLimit"@)),
        None => None,
    }
}

/// The inline monthly credit limit: at the top level, else under the rate
/// limit, else under the spend control.
pub open spec fn monthly_candidate(response: Json) -> Option<Json> {
    let top = present(individual(Some(response)));
    if top is Some {
        top
    } else {
        let nested = present(individual(get(response, "rate_limit"@)));
        if nested is Some {
            nested
        } else {
            present(individual(or_else(get(response, "spend_control"@), get(response, "spendControl"@))))
        }
    }
}

fn individual_of(v: Option<&Json>) -> (r: Option<&Json>)
    ensures
        deref_opt(r) == individual(deref_opt(v)),
{
    match v {
        Some(x) => match get_member(x, "individual_limit") {
            Some(y) => Some(y),
            None => get_member(x, "individualLimit"),
        },
        None => None,
    }
}

/// The monthly limit of an HTTP usage response, where it reports one.
pub fn monthly_limit(response: &Json) -> (limit: Option<&Json>)
    ensures
        deref_opt(limit) == monthly_candidate(*response),
{
    let top = present_value(individual_of(Some(response)));
    if top.is_some() {
        return top;
    }
    let nested = present_value(individual_of(get_member(response, "rate_limit")));
    if nested.is_some() {
        return nested;
    }
    let control = match get_member(response, "spend_control") {
        Some(c) => Some(c),
        None => get_member(response, "spendControl"),
    };
    present_value(individual_of(control))
}

pub open spec fn nonempty_text(v: Option<Json>) -> Option<Seq<char>> {
    cleaned(as_text(v))
}

/// Additional limits read so far: the windows, whether something could not be
/// read, and the limit ids already taken.
pub struct ExtrasModel {
    pub windows: Seq<WindowModel>,
    pub malformed: bool,
    pub seen: Seq<Seq<char>>,
}

/// One additional limit: identified by its metered feature or name (else the
/// response is malformed), taken once per id, its windows named after it.
pub open spec fn extra_step(st: ExtrasModel, item: Json) -> ExtrasModel {
    let feature = nonempty_text(get(item, "metered_feature"@));
    let limit_name = nonempty_text(get(item, "limit_name"@));
    match or_else(feature, limit_name) {
        None => ExtrasModel { malformed: true, ..st },
        Some(id) => if st.seen.contains(id) {
            st
        } else {
            let name = or_else(limit_name, feature)->0;
            let seen = st.seen.push(id);
            match present(get(item, "rate_limit"@)) {
                None => ExtrasModel { seen, ..st },
                Some(l) => {
                    let (w, m) = limit_windows(l, name_prefix(name, true), st.windows, st.malformed);
                    ExtrasModel { windows: w, malformed: m, seen }
                },
            }
        },
    }
}

pub open spec fn extras_fold(items: Seq<Json>, start: ExtrasModel, k: int) -> ExtrasModel
    decreases k,
{
    if k <= 0 { start } else { extra_step(extras_fold(items, start, k - 1), items[k - 1]) }
}

/// The core windows of an HTTP usage response and whether one was malformed.
pub open spec fn core_windows(response: Json, monthly: Option<WindowModel>) -> (Seq<WindowModel>, bool) {
    let (c0, m0) = match present(get(response, "rate_limit"@)) {
        Some(l) => limit_windows(l, Seq::empty(), Seq::empty(), false),
        None => (Seq::empty(), false),
    };
    (push_opt(c0, monthly), m0)
}

/// All windows once the additional limits are read.
pub open spec fn all_windows(response: Json, monthly: Option<WindowModel>) -> (Seq<WindowModel>, bool) {
    let (core, m0) = core_windows(response, monthly);
    match present(get(response, "additional_rate_limits"@)) {
        None => (core, m0),
        Some(Json::Array(items)) => {
            let e = extras_fold(items@, ExtrasModel { windows: core, malformed: m0, seen: Seq::empty() }, items@.len() as int);
            (e.windows, e.malformed)
        },
        Some(_) => (core, true),
    }
}

pub open spec fn partial_windows_text() -> Seq<char> { "部分 Codex 额度窗口格式无法识别，已展示可用额度"@ }

fn contains_text(seen: &Vec<String>, id: &str) -> (found: bool)
    ensures
        found == seen@.map_values(|t: String| t@).contains(id@),
{
    let ghost ids = seen@.map_values(|t: String| t@);
    let mut i: usize = 0;
    while i < seen.len()
        invariant
            i <= seen@.len(),
            ids == seen@.map_values(|t: String| t@),
            forall|j: int| 0 <= j < i ==> ids[j] != id@,
        decreases seen.len() - i,
    {
        if crate::text::str_eq(seen[i].as_str(), id) {
            assert(ids[i as int] == id@);
            return true;
        }
        i = i + 1;
    }
    false
}

fn nonempty_of(v: Option<&Json>) -> (r: Option<String>)
    ensures
        opt_text_of(r) == nonempty_text(deref_opt(v)),
{
    match text_of(v) {
        Some(t) => {
            let x = crate::text::trim_text(t);
            if x.is_empty() { None } else { Some(String::from_str(x)) }
        },
        None => None,
    }
}

fn read_extra(item: &Json, windows: &mut Vec<UsageWindow>, malformed: &mut bool, seen: &mut Vec<String>)
    ensures
        ({
            let st = extra_step(ExtrasModel {
                windows: windows_model(old(windows)@),
                malformed: *old(malformed),
                seen: old(seen)@.map_values(|t: String| t@),
            }, *item);
            &&& windows_model(final(windows)@) == st.windows
            &&& *final(malformed) == st.malformed
            &&& final(seen)@.map_values(|t: String| t@) == st.seen
        }),
{
    let feature = nonempty_of(get_member(item, "metered_feature"));
    let limit_name = nonempty_of(get_member(item, "limit_name"));
    let id = match &feature {
        Some(f) => f.clone(),
        None => match &limit_name {
            Some(n) => n.clone(),
            None => {
                *malformed = true;
                return;
            },
        },
    };
    if contains_text(seen, id.as_str()) {
        return;
    }
    let name = match limit_name {
        Some(n) => n,
        None => match feature {
            Some(f) => f,
            None => id.clone(),
        },
    };
    let ghost before = seen@;
    seen.push(id);
    assert(seen@.map_values(|t: String| t@) =~= before.map_values(|t: String| t@).push(id@));
    if let Some(l) = present_value(get_member(item, "rate_limit")) {
        let prefix = prefix_of(name.as_str(), true);
        read_windows(l, prefix.as_str(), windows, malformed);
    }
}

/// Maps an HTTP usage response to the Codex card. `monthly` is the window of
/// the response's monthly limit (see `monthly_limit`), where it reads as one.
/// A response that is not an object, or whose only windows are malformed, is
/// unrecognized; one without windows leaves the card unavailable with its plan
/// and account; otherwise the card is ready, with every window that could be
/// read and a note where some could not.
pub fn map_usage(response: &Json, email: Option<String>, fallback_plan: Option<&str>, monthly: Option<UsageWindow>, now: Timestamp)
    -> (r: Result<ProviderUsage, FetchError>)
    ensures
        !(*response is Object) ==> r == Err::<ProviderUsage, FetchError>(FetchError::InvalidResponse),
        *response is Object ==> ({
            let (core, core_malformed) = core_windows(*response, opt_window_model(monthly));
            let (all, malformed) = all_windows(*response, opt_window_model(monthly));
            let plan = codex_plan_text(or_else(as_text(get(*response, "plan_type"@)), match fallback_plan { Some(p) => Some(p@), None => None }));
            if core.len() == 0 {
                if core_malformed {
                    r == Err::<ProviderUsage, FetchError>(FetchError::InvalidResponse)
                } else {
                    r matches Ok(u) && u.id == crate::models::ProviderId::Codex && u.status == ProviderStatus::Unavailable
                        && u.name@ == "Codex"@ && u.source == crate::models::DataMode::Local
                        && u.cache_scope is None && u.reset_credits is None
                        && u.plan@ == plan && u.account == email && u.windows@.len() == 0 && u.updated_at is None
                        && (u.message matches Some(m) && m@ == no_windows_text())
                }
            } else {
                r matches Ok(u) && u.id == crate::models::ProviderId::Codex && u.status == ProviderStatus::Ready
                    && u.name@ == "Codex"@ && u.source == crate::models::DataMode::Local
                    && u.cache_scope is None && u.reset_credits is None
                    && u.plan@ == plan && u.account == email && windows_model(u.windows@) == all
                    && (if malformed { u.message matches Some(m) && m@ == partial_windows_text() } else { u.message is None })
                    && opt_text_of(u.updated_at) == reset_text(Some(now.secs))
            }
        }),
{
    if !matches!(response, Json::Object(_)) {
        return Err(FetchError::InvalidResponse);
    }
    let ghost monthly_model = opt_window_model(monthly);
    let mut usage = crate::providers::codex_unavailable("已读取本机 Codex 账号，服务未返回可展示的额度窗口");
    let plan = match text_of(get_member(response, "plan_type")) {
        Some(p) => Some(p),
        None => fallback_plan,
    };
    usage.plan = crate::providers::plan_label(plan);
    usage.account = email;
    let mut malformed = false;
    let mut core: Vec<UsageWindow> = Vec::new();
    assert(windows_model(core@) =~= Seq::empty());
    if let Some(limit) = present_value(get_member(response, "rate_limit")) {
        let no_prefix = String::new();
        read_windows(limit, no_prefix.as_str(), &mut core, &mut malformed);
    }
    if let Some(w) = monthly {
        push_window(&mut core, w);
    }
    assert((windows_model(core@), malformed) == core_windows(*response, monthly_model));
    if core.len() == 0 {
        return if malformed { Err(FetchError::InvalidResponse) } else { Ok(usage) };
    }
    let ghost core_model = windows_model(core@);
    let ghost core_malformed = malformed;
    match present_value(get_member(response, "additional_rate_limits")) {
        None => {},
        Some(Json::Array(items)) => {
            let mut seen: Vec<String> = Vec::new();
            let ghost start = ExtrasModel { windows: core_model, malformed: core_malformed, seen: Seq::empty() };
            assert(seen@.map_values(|t: String| t@) =~= Seq::<Seq<char>>::empty());
            let mut i: usize = 0;
            while i < items.len()
                invariant
                    i <= items@.len(),
                    ({
                        let st = extras_fold(items@, start, i as int);
                        &&& windows_model(core@) == st.windows
                        &&& malformed == st.malformed
                        &&& seen@.map_values(|t: String| t@) == st.seen
                    }),
                decreases items.len() - i,
            {
                read_extra(&items[i], &mut core, &mut malformed, &mut seen);
                i = i + 1;
            }
        },
        Some(_) => { malformed = true; },
    }
    assert((windows_model(core@), malformed) == all_windows(*response, monthly_model));
    usage.status = ProviderStatus::Ready;
    usage.windows = core;
    usage.message = if malformed { Some(String::from_str("部分 Codex 额度窗口格式无法识别，已展示可用额度")) } else { None };
    usage.updated_at = crate::time::utc_seconds_text(now.secs);
    Ok(usage)
}

/// The identity behind a personal access token, as the whoami endpoint reports it.
pub struct Whoami {
    pub account: Option<String>,
    pub email: Option<String>,
    pub plan: Option<String>,
}

/// A whoami answer must be an object; its account id, e-mail and plan are
/// read where they are non-blank texts (trimmed).
pub fn whoami_identity(whoami: &Json) -> (r: Result<Whoami, FetchError>)
    ensures
        !(*whoami is Object) ==> r == Err::<Whoami, FetchError>(FetchError::InvalidResponse),
        *whoami is Object ==> (r matches Ok(w)
            && opt_text_of(w.account) == nonempty_text(get(*whoami, "chatgpt_account_id"@))
            && opt_text_of(w.email) == nonempty_text(get(*whoami, "email"@))
            && opt_text_of(w.plan) == nonempty_text(get(*whoami, "chatgpt_plan_type"@))),
{
    if !matches!(whoami, Json::Object(_)) {
        return Err(FetchError::InvalidResponse);
    }
    Ok(Whoami {
        account: nonempty_of(get_member(whoami, "chatgpt_account_id")),
        email: nonempty_of(get_member(whoami, "email")),
        plan: nonempty_of(get_member(whoami, "chatgpt_plan_type")),
    })
}

/// A token's account scope must be proved by whoami: its account id is
/// required, never taken from another login.
pub fn pat_scope(whoami: &Json) -> (r: Result<(String, Option<String>), FetchError>)
    ensures
        match nonempty_text(get(*whoami, "chatgpt_account_id"@)) {
            None => r == Err::<(String, Option<String>), FetchError>(FetchError::InvalidResponse),
            Some(id) => r matches Ok((a, e)) && a@ == id && opt_text_of(e) == nonempty_text(get(*whoami, "email"@)),
        },
{
    match nonempty_of(get_member(whoami, "chatgpt_account_id")) {
        Some(account) => Ok((account, nonempty_of(get_member(whoami, "email")))),
        None => Err(FetchError::InvalidResponse),
    }
}

/// Window lengths read as people name them: five hours, a day, a week, and
/// ninety minutes; no length, or one that is not positive, keeps the fallback.
pub proof fn law_duration_labels(fallback: Seq<char>)
    ensures
        duration_label(Some(300), fallback) == "5 小时用量"@,
        duration_label(Some(1440), fallback) == "24 小时用量"@,
        duration_label(Some(10080), fallback) == "每周用量"@,
        duration_label(Some(90), fallback) == "90 分钟用量"@,
        duration_label(Some(0), fallback) == fallback,
        duration_label(Some(-60i64), fallback) == fallback,
        duration_label(None, fallback) == fallback,
{
    reveal_strlit("5 小时用量");
    reveal_strlit("24 小时用量");
    reveal_strlit("90 分钟用量");
    reveal_strlit(" 小时用量");
    reveal_strlit(" 分钟用量");
    assert(decimal(5) =~= seq!['5']);
    assert(decimal(2) =~= seq!['2']);
    assert(decimal(24) =~= seq!['2', '4']);
    assert(decimal(9) =~= seq!['9']);
    assert(decimal(90) =~= seq!['9', '0']);
    assert(decimal(5) + " 小时用量"@ =~= "5 小时用量"@);
    assert(decimal(24) + " 小时用量"@ =~= "24 小时用量"@);
    assert(decimal(90) + " 分钟用量"@ =~= "90 分钟用量"@);
}

} // verus!
