//! Properties of token aggregation that hold for all inputs.
use vstd::prelude::*;
use crate::models::ProviderId;
use crate::statistics::aggregate::{
    Field, PeriodLabel, Prepared, Window, field_value, in_window, kept, key_index, merge_all, merge_into,
    merged_event, period_of, prepared, turn_count, unique_events, wsum, flat_events, any_in_window,
    merge_turns, flat_turns, flat_unknown, all_counted, priced, sat128, usage_starts, statistics_status,
};
use crate::models::ProviderStatus;
use crate::statistics::records::{Event, ParsedFile};
use crate::statistics::usage::{merged_max, sat, total_of};
use crate::time::{Timestamp, time_le, time_lt, time_min};

verus! {

// ---------------------------------------------------------------------------
// Records after the collection time never count.

proof fn lemma_kept_until_end(files: Seq<ParsedFile>, s: Seq<Event>, end: Timestamp)
    ensures
        forall|j: int| 0 <= j < kept(files, s, end).len() ==> time_le(#[trigger] kept(files, s, end)[j].timestamp, end),
    decreases s.len(),
{
    if s.len() > 0 {
        lemma_kept_until_end(files, s.drop_last(), end);
    }
}

proof fn lemma_merge_until_end(s: Seq<Event>, end: Timestamp)
    requires
        forall|j: int| 0 <= j < s.len() ==> time_le(#[trigger] s[j].timestamp, end),
    ensures
        forall|j: int| 0 <= j < merge_all(s).len() ==> time_le(#[trigger] merge_all(s)[j].timestamp, end),
    decreases s.len(),
{
    if s.len() > 0 {
        let p = s.drop_last();
        assert forall|j: int| 0 <= j < p.len() implies time_le(#[trigger] p[j].timestamp, end) by {
            assert(p[j] == s[j]);
        }
        lemma_merge_until_end(p, end);
        lemma_key_index_facts(merge_all(p), s.last().key@);
        assert(time_le(s[s.len() - 1].timestamp, end));
    }
}

/// No counted request is later than the collection time: a future record
/// cannot inflate any period.
pub proof fn law_no_future_records(files: Seq<ParsedFile>, end: Timestamp)
    ensures
        forall|j: int| 0 <= j < unique_events(files, end).len()
            ==> time_le(#[trigger] unique_events(files, end)[j].timestamp, end),
{
    lemma_kept_until_end(files, flat_events(files), end);
    lemma_merge_until_end(kept(files, flat_events(files), end), end);
}

// ---------------------------------------------------------------------------
// One merged record per request key.

proof fn lemma_key_index_facts(acc: Seq<Event>, k: Seq<char>)
    ensures
        key_index(acc, k) matches Some(i) ==> 0 <= i < acc.len() && acc[i].key@ == k,
        key_index(acc, k) is None ==> forall|j: int| 0 <= j < acc.len() ==> (#[trigger] acc[j]).key@ != k,
    decreases acc.len(),
{
    if acc.len() > 0 {
        lemma_key_index_facts(acc.drop_last(), k);
        if key_index(acc, k) is None {
            assert forall|j: int| 0 <= j < acc.len() implies (#[trigger] acc[j]).key@ != k by {
                if j < acc.len() - 1 {
                    assert(acc[j] == acc.drop_last()[j]);
                }
            }
        }
    }
}

/// Merged requests have pairwise distinct keys: copies never double-bill.
pub proof fn law_unique_keys(s: Seq<Event>)
    ensures
        forall|i: int, j: int| 0 <= i < j < merge_all(s).len() ==> (#[trigger] merge_all(s)[i]).key@ != (#[trigger] merge_all(s)[j]).key@,
    decreases s.len(),
{
    if s.len() > 0 {
        let m = merge_all(s.drop_last());
        law_unique_keys(s.drop_last());
        lemma_key_index_facts(m, s.last().key@);
    }
}

// ---------------------------------------------------------------------------
// Re-reading an already counted record changes nothing.

/// `a` already accounts for everything in `e`.
pub open spec fn dominates(a: Event, e: Event) -> bool {
    &&& a.key@ == e.key@
    &&& merged_max(a.usage, e.usage) == a.usage
    &&& time_le(a.timestamp, e.timestamp)
    &&& (a.model is None ==> e.model is None)
    &&& (e.request_count is None ==> a.request_count is None)
}

proof fn lemma_merged_dominates(a: Event, e: Event, x: Event)
    requires
        dominates(a, x),
        a.key@ == e.key@,
    ensures
        dominates(merged_event(a, e), x),
{
}

proof fn lemma_merged_dominates_new(a: Event, e: Event)
    requires
        a.key@ == e.key@,
    ensures
        dominates(merged_event(a, e), e),
{
}

proof fn lemma_self_dominates(e: Event)
    ensures
        dominates(e, e),
{
}

proof fn lemma_merge_dominates(s: Seq<Event>)
    ensures
        forall|i: int| 0 <= i < s.len() ==> (exists|j: int| 0 <= j < merge_all(s).len() && dominates(#[trigger] merge_all(s)[j], #[trigger] s[i])),
    decreases s.len(),
{
    if s.len() > 0 {
        let p = s.drop_last();
        let x = s.last();
        let m = merge_all(p);
        lemma_merge_dominates(p);
        lemma_key_index_facts(m, x.key@);
        let m2 = merge_all(s);
        assert(m2 == merge_into(m, x));
        assert forall|i: int| 0 <= i < s.len() implies (exists|j: int| 0 <= j < m2.len() && dominates(#[trigger] m2[j], #[trigger] s[i])) by {
            if i == s.len() - 1 {
                match key_index(m, x.key@) {
                    Some(k) => {
                        lemma_merged_dominates_new(m[k], x);
                        assert(dominates(m2[k], s[i]));
                    },
                    None => {
                        lemma_self_dominates(x);
                        assert(dominates(m2[m.len() as int], s[i]));
                    },
                }
            } else {
                assert(s[i] == p[i]);
                let j = choose|j: int| 0 <= j < m.len() && dominates(#[trigger] m[j], #[trigger] p[i]);
                match key_index(m, x.key@) {
                    Some(k) => {
                        if k == j {
                            lemma_merged_dominates(m[k], x, p[i]);
                        }
                        assert(dominates(m2[j], s[i]));
                    },
                    None => {
                        assert(dominates(m2[j], s[i]));
                    },
                }
            }
        }
    }
}

/// Merging a copy of any record that was already merged leaves the merged
/// requests unchanged: duplicated files and repeated chunks do not add usage.
pub proof fn law_remerge_is_idempotent(s: Seq<Event>, i: int)
    requires
        0 <= i < s.len(),
    ensures
        merge_all(s.push(s[i])) == merge_all(s),
{
    let m = merge_all(s);
    lemma_merge_dominates(s);
    law_unique_keys(s);
    assert(s.push(s[i]).drop_last() =~= s);
    let j = choose|j: int| 0 <= j < m.len() && dominates(#[trigger] m[j], #[trigger] s[i]);
    lemma_key_index_facts(m, s[i].key@);
    match key_index(m, s[i].key@) {
        Some(k) => {
            assert(k == j);
            assert(merged_event(m[k], s[i]) == m[k]);
            assert(m.update(k, m[k]) =~= m);
        },
        None => {
            assert(m[j].key@ != s[i].key@);
        },
    }
}

// ---------------------------------------------------------------------------
// Nested periods: a window inside another never reports more.

/// Window `a` lies inside window `b`: `b` is unbounded or starts no later.
pub open spec fn nested(a: Window, b: Window) -> bool {
    b.label == PeriodLabel::All || (a.label != PeriodLabel::All && time_le(b.start, a.start))
}

proof fn lemma_nested_in_window(a: Window, b: Window, end: Timestamp, t: Timestamp)
    requires
        nested(a, b),
        in_window(a, end, t),
    ensures
        in_window(b, end, t),
{
}

proof fn lemma_field_nonneg(provider: ProviderId, vendor: Seq<char>, e: Event, f: Field)
    ensures
        field_value(provider, vendor, e, f) >= 0,
{
    if f == Field::Cost {
        crate::statistics::aggregate::lemma_priced_nonneg(provider, vendor, e);
    }
}

proof fn lemma_wsum_nested(provider: ProviderId, vendor: Seq<char>, m: Seq<Event>, a: Window, b: Window, end: Timestamp, f: Field)
    requires
        nested(a, b),
    ensures
        wsum(provider, vendor, m, a, end, f) <= wsum(provider, vendor, m, b, end, f),
    decreases m.len(),
{
    if m.len() > 0 {
        lemma_wsum_nested(provider, vendor, m.drop_last(), a, b, end, f);
        lemma_field_nonneg(provider, vendor, m.last(), f);
        if in_window(a, end, m.last().timestamp) {
            lemma_nested_in_window(a, b, end, m.last().timestamp);
        }
    }
}

proof fn lemma_turn_count_nested(t: Seq<crate::statistics::records::Turn>, a: Window, b: Window, end: Timestamp)
    requires
        nested(a, b),
    ensures
        turn_count(t, a, end) <= turn_count(t, b, end),
    decreases t.len(),
{
    if t.len() > 0 {
        lemma_turn_count_nested(t.drop_last(), a, b, end);
        if in_window(a, end, t.last().timestamp) {
            lemma_nested_in_window(a, b, end, t.last().timestamp);
        }
    }
}

/// Today never exceeds this week, this week never exceeds this month, and so
/// on up to all time: each token count, and each known turn count, of a
/// nested window is at most that of the enclosing one.
pub proof fn law_nested_periods(provider: ProviderId, vendor: Seq<char>, files: Seq<ParsedFile>, a: Window, b: Window, end: Timestamp, ready: bool)
    requires
        nested(a, b),
    ensures
        ({
            let pa = period_of(provider, vendor, files, a, end, ready);
            let pb = period_of(provider, vendor, files, b, end, ready);
            &&& pa.input_tokens <= pb.input_tokens
            &&& pa.cached_input_tokens <= pb.cached_input_tokens
            &&& pa.cache_write_tokens <= pb.cache_write_tokens
            &&& pa.output_tokens <= pb.output_tokens
            &&& pa.total_tokens <= pb.total_tokens
            &&& pa.unpriced_tokens <= pb.unpriced_tokens
        }),
        turn_count(merge_turns(flat_turns(files), end), a, end)
            <= turn_count(merge_turns(flat_turns(files), end), b, end),
{
    let m = unique_events(files, end);
    lemma_wsum_nested(provider, vendor, m, a, b, end, Field::Input);
    lemma_wsum_nested(provider, vendor, m, a, b, end, Field::Cached);
    lemma_wsum_nested(provider, vendor, m, a, b, end, Field::CacheWrite);
    lemma_wsum_nested(provider, vendor, m, a, b, end, Field::Output);
    lemma_wsum_nested(provider, vendor, m, a, b, end, Field::Unpriced);
    lemma_wsum_nonneg_law(provider, vendor, m, a, end, Field::Input);
    lemma_wsum_nonneg_law(provider, vendor, m, a, end, Field::Output);
    lemma_wsum_nonneg_law(provider, vendor, m, a, end, Field::Cached);
    lemma_wsum_nonneg_law(provider, vendor, m, a, end, Field::CacheWrite);
    lemma_wsum_nonneg_law(provider, vendor, m, a, end, Field::Unpriced);
    lemma_turn_count_nested(merge_turns(flat_turns(files), end), a, b, end);
    let pa = period_of(provider, vendor, files, a, end, ready);
    let pb = period_of(provider, vendor, files, b, end, ready);
    assert(pa.input_tokens <= pb.input_tokens);
    assert(pa.output_tokens <= pb.output_tokens);
    assert(pa.total_tokens == sat(pa.input_tokens + pa.output_tokens));
    assert(pb.total_tokens == sat(pb.input_tokens + pb.output_tokens));
    assert(pa.total_tokens <= pb.total_tokens);
    assert(pa.cached_input_tokens <= pb.cached_input_tokens);
    assert(pa.cache_write_tokens <= pb.cache_write_tokens);
    assert(pa.unpriced_tokens <= pb.unpriced_tokens);
}

// ---------------------------------------------------------------------------
// Unpriced tokens are part of the counted tokens.

proof fn lemma_unpriced_within(provider: ProviderId, vendor: Seq<char>, m: Seq<Event>, w: Window, end: Timestamp)
    ensures
        wsum(provider, vendor, m, w, end, Field::Unpriced)
            <= wsum(provider, vendor, m, w, end, Field::Input) + wsum(provider, vendor, m, w, end, Field::Output),
    decreases m.len(),
{
    if m.len() > 0 {
        lemma_unpriced_within(provider, vendor, m.drop_last(), w, end);
    }
}

proof fn lemma_wsum_nonneg_law(provider: ProviderId, vendor: Seq<char>, m: Seq<Event>, w: Window, end: Timestamp, f: Field)
    ensures
        wsum(provider, vendor, m, w, end, f) >= 0,
    decreases m.len(),
{
    if m.len() > 0 {
        lemma_wsum_nonneg_law(provider, vendor, m.drop_last(), w, end, f);
        lemma_field_nonneg(provider, vendor, m.last(), f);
    }
}

/// The tokens without a known price never exceed the tokens counted, and the
/// total is input plus output.
pub proof fn law_unpriced_within_total(provider: ProviderId, vendor: Seq<char>, files: Seq<ParsedFile>, w: Window, end: Timestamp, ready: bool)
    ensures
        ({
            let p = period_of(provider, vendor, files, w, end, ready);
            p.unpriced_tokens <= p.total_tokens && p.total_tokens == sat(p.input_tokens + p.output_tokens)
        }),
{
    let m = unique_events(files, end);
    lemma_unpriced_within(provider, vendor, m, w, end);
    lemma_wsum_nonneg_law(provider, vendor, m, w, end, Field::Input);
    lemma_wsum_nonneg_law(provider, vendor, m, w, end, Field::Output);
    lemma_wsum_nonneg_law(provider, vendor, m, w, end, Field::Unpriced);
}

// ---------------------------------------------------------------------------
// A summary without usage reports nothing.

/// Every record of each file lies at or after the file's first usage, as the
/// parsers leave it.
pub open spec fn first_usage_bounds(files: Seq<ParsedFile>) -> bool {
    forall|i: int| 0 <= i < files.len() ==> #[trigger] records_after_first_usage(files[i])
}

/// Whether there is a first usage and `t` is not before it.
pub open spec fn at_or_after(first: Option<Timestamp>, t: Timestamp) -> bool {
    first matches Some(x) && time_le(x, t)
}

/// Every record of the file lies at or after its first usage.
pub open spec fn records_after_first_usage(f: ParsedFile) -> bool {
    forall|j: int| 0 <= j < f.events@.len() ==> at_or_after(f.first_usage, #[trigger] f.events@[j].timestamp)
}

proof fn lemma_no_start_all_later(files: Seq<ParsedFile>, end: Timestamp)
    requires
        first_usage_bounds(files),
        usage_starts(files, end).len() == 0,
    ensures
        forall|k: int| 0 <= k < flat_events(files).len() ==> time_lt(end, #[trigger] flat_events(files)[k].timestamp),
    decreases files.len(),
{
    if files.len() > 0 {
        let rest = files.drop_last();
        assert forall|i: int| 0 <= i < rest.len() implies #[trigger] records_after_first_usage(rest[i]) by {
            assert(rest[i] == files[i]);
        }
        assert(first_usage_bounds(rest));
        assert(usage_starts(rest, end).len() == 0);
        lemma_no_start_all_later(rest, end);
        let last = files.last();
        assert forall|k: int| 0 <= k < flat_events(files).len() implies time_lt(end, #[trigger] flat_events(files)[k].timestamp) by {
            let n = flat_events(rest).len();
            if k < n {
                assert(flat_events(files)[k] == flat_events(rest)[k]);
            } else {
                assert(flat_events(files)[k] == last.events@[k - n]);
                assert(files[files.len() - 1] == last);
                assert(records_after_first_usage(files[files.len() - 1]));
                assert(at_or_after(last.first_usage, last.events@[k - n].timestamp));
            }
        }
    }
}

proof fn lemma_kept_none_by_end(files: Seq<ParsedFile>, s: Seq<Event>, end: Timestamp)
    requires
        forall|k: int| 0 <= k < s.len() ==> time_lt(end, #[trigger] s[k].timestamp),
    ensures
        kept(files, s, end).len() == 0,
    decreases s.len(),
{
    if s.len() > 0 {
        lemma_kept_none_by_end(files, s.drop_last(), end);
        assert(time_lt(end, s[s.len() - 1].timestamp));
    }
}

proof fn lemma_wsum_empty(provider: ProviderId, vendor: Seq<char>, w: Window, end: Timestamp, f: Field)
    ensures
        wsum(provider, vendor, Seq::empty(), w, end, f) == 0,
{
}

/// Where the files hold their records after their first usage, as the parsers
/// leave them, a summary that is not ready reports no tokens in any window:
/// no input, cached, cache-write, output, total or unpriced tokens, and no
/// request count or cost.
pub proof fn law_not_ready_reports_nothing(
    provider: ProviderId,
    vendor: Seq<char>,
    files: Seq<ParsedFile>,
    w: Window,
    end: Timestamp,
    read_error: bool,
)
    requires
        first_usage_bounds(files),
        statistics_status(files, end, read_error) != ProviderStatus::Ready,
    ensures
        period_of(provider, vendor, files, w, end, false).input_tokens == 0,
        period_of(provider, vendor, files, w, end, false).cached_input_tokens == 0,
        period_of(provider, vendor, files, w, end, false).cache_write_tokens == 0,
        period_of(provider, vendor, files, w, end, false).output_tokens == 0,
        period_of(provider, vendor, files, w, end, false).total_tokens == 0,
        period_of(provider, vendor, files, w, end, false).unpriced_tokens == 0,
        period_of(provider, vendor, files, w, end, false).request_count is None,
        period_of(provider, vendor, files, w, end, false).estimated_cost_nano_usd is None,
{
    lemma_no_start_all_later(files, end);
    lemma_kept_none_by_end(files, flat_events(files), end);
    assert(kept(files, flat_events(files), end) =~= Seq::<Event>::empty());
    assert(unique_events(files, end) =~= Seq::<Event>::empty());
}

} // verus!
