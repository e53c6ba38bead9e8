//! Account activity as the Codex service reports it: lifetime figures and daily
//! token buckets, checked and ordered by date. Missing, empty and zero stay
//! distinct; no date is filled in.
use vstd::prelude::*;
use vstd::string::*;
use vstd::utf8::encode_utf8;
use crate::account_statistics::{AccountUsageSnapshot, AccountUsageSummary, DailyTokenUsage};
use crate::models::{CodexStatisticsSource, ProviderStatus};
use crate::providers::FetchError;
use crate::time::{Timestamp, spec_parse_day, spec_format_day, spec_rfc3339, spec_unix_seconds_in_range, spec_utc_seconds_text};
use crate::quota::{opt_text_of, reset_text};

verus! {

/// One daily bucket as reported.
#[derive(Clone, Debug)]
pub struct RawDay {
    pub start_date: String,
    pub tokens: u64,
}

/// The reported statistics.
#[derive(Clone, Debug)]
pub struct RawStats {
    pub lifetime_tokens: Option<u64>,
    pub peak_daily_tokens: Option<u64>,
    pub longest_running_turn_sec: Option<u64>,
    pub current_streak_days: Option<u64>,
    pub longest_streak_days: Option<u64>,
    pub daily_usage_buckets: Option<Vec<RawDay>>,
}

/// A day written exactly as `%Y-%m-%d` writes it, in ten bytes.
pub open spec fn is_day_text(v: Seq<char>) -> bool {
    encode_utf8(v).len() == 10 && (spec_parse_day(v) matches Some(d) && spec_format_day(d) == Some(v))
}

pub fn is_day(value: &str) -> (r: bool)
    ensures
        r == is_day_text(value@),
{
    if value.as_bytes().len() != 10 {
        return false;
    }
    match crate::time::parse_day(value) {
        Some(d) => {
            match crate::time::format_day(d) {
                Some(text) => crate::text::str_eq(text.as_str(), value),
                None => false,
            }
        },
        None => false,
    }
}

/// The service's update date: a day as written, else an RFC 3339 instant in
/// UTC with whole seconds.
pub open spec fn service_date(v: Seq<char>) -> Option<Seq<char>> {
    if is_day_text(v) {
        Some(v)
    } else {
        match spec_rfc3339(v) {
            Some(at) => reset_text(Some(at.secs)),
            None => None,
        }
    }
}

pub fn valid_service_date(value: String) -> (r: Option<String>)
    ensures
        opt_text_of(r) == service_date(value@),
{
    if is_day(value.as_str()) {
        return Some(value);
    }
    match crate::time::parse_rfc3339(value.as_str()) {
        Some(at) => crate::time::utc_seconds_text(at.secs),
        None => None,
    }
}

/// Lexicographic order of byte strings, as `String` orders its values.
pub open spec fn bytes_lt(a: Seq<u8>, b: Seq<u8>) -> bool
    decreases a.len(),
{
    if a.len() == 0 {
        b.len() > 0
    } else if b.len() == 0 {
        false
    } else if a[0] < b[0] {
        true
    } else if a[0] > b[0] {
        false
    } else {
        bytes_lt(a.drop_first(), b.drop_first())
    }
}

proof fn lemma_bytes_total(a: Seq<u8>, b: Seq<u8>)
    ensures
        a == b || bytes_lt(a, b) || bytes_lt(b, a),
    decreases a.len(),
{
    if a.len() > 0 && b.len() > 0 && a[0] == b[0] {
        lemma_bytes_total(a.drop_first(), b.drop_first());
        if a.drop_first() == b.drop_first() {
            assert(a =~= seq![a[0]] + a.drop_first());
            assert(b =~= seq![b[0]] + b.drop_first());
        }
    } else if a.len() == 0 && b.len() == 0 {
        assert(a =~= b);
    }
}

fn bytes_less(a: &[u8], b: &[u8]) -> (r: bool)
    ensures
        r == bytes_lt(a@, b@),
{
    let mut i: usize = 0;
    assert(a@.subrange(0, a@.len() as int) =~= a@);
    assert(b@.subrange(0, b@.len() as int) =~= b@);
    while i < a.len() && i < b.len()
        invariant
            i <= a@.len(),
            i <= b@.len(),
            bytes_lt(a@, b@) == bytes_lt(a@.subrange(i as int, a@.len() as int), b@.subrange(i as int, b@.len() as int)),
        decreases a.len() - i,
    {
        let x = a[i];
        let y = b[i];
        assert(a@.subrange(i as int, a@.len() as int)[0] == x);
        assert(b@.subrange(i as int, b@.len() as int)[0] == y);
        if x < y {
            return true;
        }
        if x > y {
            return false;
        }
        assert(a@.subrange(i as int, a@.len() as int).drop_first() =~= a@.subrange(i + 1, a@.len() as int));
        assert(b@.subrange(i as int, b@.len() as int).drop_first() =~= b@.subrange(i + 1, b@.len() as int));
        i = i + 1;
    }
    i < b.len()
}

fn bytes_equal(a: &[u8], b: &[u8]) -> (r: bool)
    ensures
        r == (a@ == b@),
{
    if a.len() != b.len() {
        return false;
    }
    let mut i: usize = 0;
    while i < a.len()
        invariant
            i <= a@.len(),
            a@.len() == b@.len(),
            forall|k: int| 0 <= k < i ==> a@[k] == b@[k],
        decreases a.len() - i,
    {
        if a[i] != b[i] {
            return false;
        }
        i = i + 1;
    }
    assert(a@ =~= b@);
    true
}

pub open spec fn key(text: String) -> Seq<u8> {
    encode_utf8(text@)
}

/// Strictly ascending by date.
pub open spec fn ascending(s: Seq<DailyTokenUsage>) -> bool {
    forall|i: int| 0 <= i < s.len() - 1 ==> bytes_lt(key(#[trigger] s[i].date), key(s[i + 1].date))
}

/// Every bucket is a day, and no date repeats.
pub open spec fn valid_buckets(bs: Seq<RawDay>) -> bool {
    &&& forall|i: int| 0 <= i < bs.len() ==> is_day_text((#[trigger] bs[i]).start_date@)
    &&& forall|i: int, j: int| 0 <= i < j < bs.len() ==> key((#[trigger] bs[i]).start_date) != key((#[trigger] bs[j]).start_date)
}

/// The daily usage holds exactly the buckets, one entry each, ordered by date.
pub open spec fn daily_of(bs: Seq<RawDay>, d: Seq<DailyTokenUsage>) -> bool {
    &&& d.len() == bs.len()
    &&& ascending(d)
    &&& covers(d, bs, bs.len() as int)
}

/// Every bucket before `j` has an entry with its date and tokens.
pub open spec fn covers(d: Seq<DailyTokenUsage>, bs: Seq<RawDay>, j: int) -> bool {
    forall|i: int| 0 <= i < j ==> exists|k: int| 0 <= k < d.len()
        && (#[trigger] d[k]).date@ == (#[trigger] bs[i]).start_date@ && d[k].tokens == bs[i].tokens
}

/// Every entry comes from a bucket before `j`.
pub open spec fn from_buckets(d: Seq<DailyTokenUsage>, bs: Seq<RawDay>, j: int) -> bool {
    forall|k: int| 0 <= k < d.len() ==> exists|i: int| 0 <= i < j
        && (#[trigger] d[k]).date@ == (#[trigger] bs[i]).start_date@
}

proof fn lemma_duplicate(d: Seq<DailyTokenUsage>, bs: Seq<RawDay>, j: int, k: int)
    requires
        0 <= j < bs.len(),
        0 <= k < d.len(),
        from_buckets(d, bs, j),
        key(d[k].date) == key(bs[j].start_date),
    ensures
        !valid_buckets(bs),
{
    let i = choose|i: int| 0 <= i < j && (#[trigger] d[k]).date@ == (#[trigger] bs[i]).start_date@;
    assert(key(bs[i].start_date) == key(d[k].date));
}

proof fn lemma_insert_index(before: Seq<DailyTokenUsage>, after: Seq<DailyTokenUsage>, pos: int, entry: DailyTokenUsage)
    requires
        0 <= pos <= before.len(),
        after == before.subrange(0, pos).push(entry) + before.subrange(pos, before.len() as int),
    ensures
        after.len() == before.len() + 1,
        after[pos] == entry,
        forall|m: int| 0 <= m < pos ==> #[trigger] after[m] == before[m],
        forall|m: int| pos < m < after.len() ==> #[trigger] after[m] == before[m - 1],
{
}

proof fn lemma_insert_ascending(before: Seq<DailyTokenUsage>, after: Seq<DailyTokenUsage>, pos: int, entry: DailyTokenUsage)
    requires
        0 <= pos <= before.len(),
        after == before.subrange(0, pos).push(entry) + before.subrange(pos, before.len() as int),
        ascending(before),
        forall|m: int| 0 <= m < pos ==> !bytes_lt(key(entry.date), key(#[trigger] before[m].date)),
        pos < before.len() ==> bytes_lt(key(entry.date), key(before[pos].date)),
        forall|m: int| 0 <= m < before.len() ==> key(#[trigger] before[m].date) != key(entry.date),
    ensures
        ascending(after),
{
    lemma_insert_index(before, after, pos, entry);
    if pos > 0 {
        lemma_bytes_total(key(entry.date), key(before[pos - 1].date));
    }
    assert forall|i: int| 0 <= i < after.len() - 1 implies bytes_lt(key(#[trigger] after[i].date), key(after[i + 1].date)) by {
        if i < pos - 1 {
            assert(after[i + 1] == before[i + 1]);
        } else if i == pos - 1 {
        } else if i == pos {
            assert(after[i + 1] == before[i]);
        } else {
            assert(after[i + 1] == before[i]);
        }
    }
}

proof fn lemma_insert_members(before: Seq<DailyTokenUsage>, after: Seq<DailyTokenUsage>, pos: int, entry: DailyTokenUsage, bs: Seq<RawDay>, j: int)
    requires
        0 <= j < bs.len(),
        0 <= pos <= before.len(),
        after == before.subrange(0, pos).push(entry) + before.subrange(pos, before.len() as int),
        entry.date@ == bs[j].start_date@,
        entry.tokens == bs[j].tokens,
        covers(before, bs, j),
        from_buckets(before, bs, j),
    ensures
        covers(after, bs, j + 1),
        from_buckets(after, bs, j + 1),
{
    lemma_insert_index(before, after, pos, entry);
    assert forall|i: int| 0 <= i < j + 1 implies exists|m: int| 0 <= m < after.len()
        && (#[trigger] after[m]).date@ == (#[trigger] bs[i]).start_date@ && after[m].tokens == bs[i].tokens by {
        if i == j {
            assert(after[pos] == entry);
        } else {
            let m = choose|m: int| 0 <= m < before.len() && (#[trigger] before[m]).date@ == bs[i].start_date@ && before[m].tokens == bs[i].tokens;
            if m < pos {
                assert(after[m] == before[m]);
            } else {
                assert(after[m + 1] == before[m]);
            }
        }
    }
    assert forall|m: int| 0 <= m < after.len() implies exists|i: int| 0 <= i < j + 1
        && (#[trigger] after[m]).date@ == (#[trigger] bs[i]).start_date@ by {
        if m < pos {
            let i = choose|i: int| 0 <= i < j && (#[trigger] before[m]).date@ == (#[trigger] bs[i]).start_date@;
            assert(after[m].date@ == bs[i].start_date@);
        } else if m == pos {
            assert(after[m].date@ == bs[j].start_date@);
        } else {
            let i = choose|i: int| 0 <= i < j && (#[trigger] before[m - 1]).date@ == (#[trigger] bs[i]).start_date@;
            assert(after[m].date@ == bs[i].start_date@);
        }
    }
}

proof fn lemma_insert_valid(before: Seq<DailyTokenUsage>, entry: DailyTokenUsage, bs: Seq<RawDay>, j: int)
    requires
        0 <= j < bs.len(),
        entry.date@ == bs[j].start_date@,
        is_day_text(bs[j].start_date@),
        valid_buckets(bs.subrange(0, j)),
        covers(before, bs, j),
        forall|m: int| 0 <= m < before.len() ==> key(#[trigger] before[m].date) != key(entry.date),
    ensures
        valid_buckets(bs.subrange(0, j + 1)),
{
    let next = bs.subrange(0, j + 1);
    assert forall|i: int| 0 <= i < next.len() implies is_day_text((#[trigger] next[i]).start_date@) by {
        if i < j {
            assert(next[i] == bs.subrange(0, j)[i]);
        }
    }
    assert forall|a: int, c: int| 0 <= a < c < next.len() implies key((#[trigger] next[a]).start_date) != key((#[trigger] next[c]).start_date) by {
        if c < j {
            assert(next[a] == bs.subrange(0, j)[a]);
            assert(next[c] == bs.subrange(0, j)[c]);
        } else {
            assert(next[a] == bs[a]);
            let m = choose|m: int| 0 <= m < before.len() && (#[trigger] before[m]).date@ == bs[a].start_date@ && before[m].tokens == bs[a].tokens;
            assert(key(before[m].date) != key(entry.date));
        }
    }
}

fn ordered_days(buckets: &Vec<RawDay>) -> (r: Option<Vec<DailyTokenUsage>>)
    ensures
        r is Some <==> valid_buckets(buckets@),
        r matches Some(d) ==> daily_of(buckets@, d@),
{
    let ghost bs = buckets@;
    let mut daily: Vec<DailyTokenUsage> = Vec::new();
    let mut j: usize = 0;
    while j < buckets.len()
        invariant
            bs == buckets@,
            j <= bs.len(),
            valid_buckets(bs.subrange(0, j as int)),
            daily@.len() == j,
            ascending(daily@),
            covers(daily@, bs, j as int),
            from_buckets(daily@, bs, j as int),
        decreases bs.len() - j,
    {
        let b = &buckets[j];
        if !is_day(b.start_date.as_str()) {
            return None;
        }
        let new_key = b.start_date.as_str().as_bytes();
        let mut pos: usize = daily.len();
        let mut k: usize = 0;
        while k < daily.len()
            invariant
                bs == buckets@,
                j < bs.len(),
                *b == bs[j as int],
                new_key@ == key(b.start_date),
                from_buckets(daily@, bs, j as int),
                k <= daily@.len(),
                pos <= daily@.len(),
                pos == daily@.len() ==> forall|m: int| 0 <= m < k ==> !bytes_lt(new_key@, key(#[trigger] daily@[m].date)),
                pos < daily@.len() ==> pos < k && bytes_lt(new_key@, key(daily@[pos as int].date))
                    && forall|m: int| 0 <= m < pos ==> !bytes_lt(new_key@, key(#[trigger] daily@[m].date)),
                forall|m: int| 0 <= m < k ==> key(#[trigger] daily@[m].date) != new_key@,
            decreases daily@.len() - k,
        {
            let existing = daily[k].date.as_str().as_bytes();
            if bytes_equal(existing, new_key) {
                proof {
                    lemma_duplicate(daily@, bs, j as int, k as int);
                }
                return None;
            }
            if pos == daily.len() && bytes_less(new_key, existing) {
                pos = k;
            }
            k = k + 1;
        }
        let entry = DailyTokenUsage { date: b.start_date.clone(), tokens: b.tokens };
        let ghost before = daily@;
        daily.insert(pos, entry);
        proof {
            assert(daily@ =~= before.subrange(0, pos as int).push(entry) + before.subrange(pos as int, before.len() as int));
            lemma_insert_index(before, daily@, pos as int, entry);
            lemma_insert_ascending(before, daily@, pos as int, entry);
            lemma_insert_members(before, daily@, pos as int, entry, bs, j as int);
            lemma_insert_valid(before, entry, bs, j as int);
        }
        j = j + 1;
    }
    assert(bs.subrange(0, bs.len() as int) =~= bs);
    Some(daily)
}

pub open spec fn summary_of(s: RawStats) -> AccountUsageSummary {
    AccountUsageSummary {
        lifetime_tokens: s.lifetime_tokens,
        peak_daily_tokens: s.peak_daily_tokens,
        longest_running_turn_sec: s.longest_running_turn_sec,
        current_streak_days: s.current_streak_days,
        longest_streak_days: s.longest_streak_days,
    }
}

/// The summary copies each reported figure into the field of the same name.
pub proof fn law_summary_copies_each_figure(stats: RawStats)
    ensures
        summary_of(stats).lifetime_tokens == stats.lifetime_tokens,
        summary_of(stats).peak_daily_tokens == stats.peak_daily_tokens,
        summary_of(stats).longest_running_turn_sec == stats.longest_running_turn_sec,
        summary_of(stats).current_streak_days == stats.current_streak_days,
        summary_of(stats).longest_streak_days == stats.longest_streak_days,
{
}

/// Whether the service reported any figure or any daily list.
pub open spec fn has_data(s: RawStats) -> bool {
    s.daily_usage_buckets is Some || s.lifetime_tokens is Some || s.peak_daily_tokens is Some
        || s.longest_running_turn_sec is Some || s.current_streak_days is Some || s.longest_streak_days is Some
}

pub open spec fn no_stats_text() -> Seq<char> { "服务端暂未返回可展示的 Token 活动数据"@ }

/// Maps the reported statistics: a bucket that is not a day, or a repeated
/// date, makes the response unrecognized; otherwise the snapshot is ready when
/// anything was reported (an empty list counts) and unavailable otherwise.
pub fn map_stats(stats: RawStats, source: CodexStatisticsSource, email: Option<String>, account_id: Option<String>, now: Timestamp)
    -> (r: Result<AccountUsageSnapshot, FetchError>)
    ensures
        (stats.daily_usage_buckets matches Some(bs) && !valid_buckets(bs@))
            ==> r == Err::<AccountUsageSnapshot, FetchError>(FetchError::InvalidResponse),
        !(stats.daily_usage_buckets matches Some(bs) && !valid_buckets(bs@)) ==> (r matches Ok(s)
            && s.source == source && s.account == email && s.account_id == account_id
            && s.summary == summary_of(stats)
            && s.summary.lifetime_tokens == stats.lifetime_tokens
            && s.summary.peak_daily_tokens == stats.peak_daily_tokens
            && s.summary.longest_running_turn_sec == stats.longest_running_turn_sec
            && s.summary.current_streak_days == stats.current_streak_days
            && s.summary.longest_streak_days == stats.longest_streak_days
            && (match stats.daily_usage_buckets {
                None => s.daily_usage is None,
                Some(bs) => s.daily_usage matches Some(d) && daily_of(bs@, d@),
            })
            && s.status == (if has_data(stats) { ProviderStatus::Ready } else { ProviderStatus::Unavailable })
            && (if has_data(stats) { s.message is None } else { s.message matches Some(m) && m@ == no_stats_text() })
            && s.service_updated_at is None && s.web is None
            && opt_text_of(s.updated_at) == reset_text(Some(now.secs))),
{
    let daily_usage = match &stats.daily_usage_buckets {
        None => None,
        Some(buckets) => match ordered_days(buckets) {
            Some(d) => Some(d),
            None => { return Err(FetchError::InvalidResponse); },
        },
    };
    let summary = AccountUsageSummary {
        lifetime_tokens: stats.lifetime_tokens,
        peak_daily_tokens: stats.peak_daily_tokens,
        longest_running_turn_sec: stats.longest_running_turn_sec,
        current_streak_days: stats.current_streak_days,
        longest_streak_days: stats.longest_streak_days,
    };
    let has_any = daily_usage.is_some() || summary.lifetime_tokens.is_some() || summary.peak_daily_tokens.is_some()
        || summary.longest_running_turn_sec.is_some() || summary.current_streak_days.is_some()
        || summary.longest_streak_days.is_some();
    Ok(AccountUsageSnapshot {
        source,
        status: if has_any { ProviderStatus::Ready } else { ProviderStatus::Unavailable },
        message: if has_any { None } else { Some(String::from_str("服务端暂未返回可展示的 Token 活动数据")) },
        account: email,
        account_id,
        summary,
        daily_usage,
        service_updated_at: None,
        updated_at: crate::time::utc_seconds_text(now.secs),
        web: None,
    })
}

pub open spec fn partial_stats_text() -> Seq<char> { "服务端提示部分使用统计暂不可用，已展示已返回的数据"@ }

/// Applies the service's metadata: its update date where it is a valid date,
/// and a partial-data notice, never the upstream error text itself.
pub fn apply_metadata(snapshot: &mut AccountUsageSnapshot, stats_as_of: Option<String>, stats_error: Option<String>)
    ensures
        opt_text_of(final(snapshot).service_updated_at) == (match stats_as_of {
            Some(v) => service_date(v@),
            None => None,
        }),
        (stats_error matches Some(e) && crate::text::spec_trim(e@).len() > 0)
            ==> (final(snapshot).message matches Some(m) && m@ == partial_stats_text()),
        !(stats_error matches Some(e) && crate::text::spec_trim(e@).len() > 0)
            ==> final(snapshot).message == old(snapshot).message,
        final(snapshot).source == old(snapshot).source,
        final(snapshot).status == old(snapshot).status,
        final(snapshot).account == old(snapshot).account,
        final(snapshot).account_id == old(snapshot).account_id,
        final(snapshot).summary == old(snapshot).summary,
        final(snapshot).daily_usage == old(snapshot).daily_usage,
        final(snapshot).updated_at == old(snapshot).updated_at,
        final(snapshot).web == old(snapshot).web,
{
    snapshot.service_updated_at = match stats_as_of {
        Some(v) => valid_service_date(v),
        None => None,
    };
    if let Some(e) = &stats_error {
        if !crate::text::trim_text(e.as_str()).is_empty() {
            snapshot.message = Some(String::from_str("服务端提示部分使用统计暂不可用，已展示已返回的数据"));
        }
    }
}

} // verus!
