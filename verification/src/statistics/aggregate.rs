//! Calendar aggregation of normalized records into token statistics.
//!
//! Copies of one request share a key and merge by maximum; forked sessions
//! lose the totals inherited from their parent; legacy snapshots give way to
//! request records of the same turn; records after `end` never count.
use vstd::prelude::*;
use crate::models::{ProviderId, ProviderStatus};
use crate::statistics::usage::{Usage, ForkBaseline, adjusted_of, total_of, merged_max, sat};
use crate::statistics::records::{Event, Turn, ParsedFile, SessionHistory, copy_event, copy_text, same_text};
use crate::statistics::pricing::{estimate, estimate_of};
use crate::time::{Timestamp, time_le, time_lt, time_min, le, lt, min_time};
use crate::text::str_eq;

verus! {

// ---------------------------------------------------------------------------
// Flattened views of all files, in file order and record order.

pub open spec fn flat_events(files: Seq<ParsedFile>) -> Seq<Event>
    decreases files.len(),
{
    if files.len() == 0 { Seq::empty() } else { flat_events(files.drop_last()) + files.last().events@ }
}

pub open spec fn flat_turns(files: Seq<ParsedFile>) -> Seq<Turn>
    decreases files.len(),
{
    if files.len() == 0 { Seq::empty() } else { flat_turns(files.drop_last()) + files.last().turns@ }
}

pub open spec fn flat_modern(files: Seq<ParsedFile>) -> Seq<Turn>
    decreases files.len(),
{
    if files.len() == 0 { Seq::empty() } else { flat_modern(files.drop_last()) + files.last().modern_turns@ }
}

pub open spec fn flat_unknown(files: Seq<ParsedFile>) -> Seq<Timestamp>
    decreases files.len(),
{
    if files.len() == 0 { Seq::empty() } else { flat_unknown(files.drop_last()) + files.last().unknown_turns@ }
}

/// The snapshots of every file that belongs to session `parent`.
pub open spec fn flat_snapshots(files: Seq<ParsedFile>, parent: Seq<char>) -> Seq<(Timestamp, Usage)>
    decreases files.len(),
{
    if files.len() == 0 {
        Seq::empty()
    } else {
        let own = match files.last().history {
            Some(h) => if (h.session_id matches Some(id) && id@ == parent) { h.snapshots@ } else { Seq::empty() },
            None => Seq::empty(),
        };
        flat_snapshots(files.drop_last(), parent) + own
    }
}

/// The latest snapshot at or before `cutoff`; among equal times, the last one.
pub open spec fn latest_snapshot(s: Seq<(Timestamp, Usage)>, cutoff: Timestamp) -> Option<(Timestamp, Usage)>
    decreases s.len(),
{
    if s.len() == 0 {
        None
    } else {
        let best = latest_snapshot(s.drop_last(), cutoff);
        let x = s.last();
        if !time_le(x.0, cutoff) {
            best
        } else {
            match best {
                None => Some(x),
                Some(b) => if time_le(b.0, x.0) { Some(x) } else { best },
            }
        }
    }
}

/// Whether a request record exists, by `end`, for turn `key`.
pub open spec fn is_modern(files: Seq<ParsedFile>, key: Seq<char>, end: Timestamp) -> bool {
    any_turn(flat_modern(files), key, end)
}

/// Whether `s` holds turn `key` at or before `end`.
pub open spec fn any_turn(s: Seq<Turn>, key: Seq<char>, end: Timestamp) -> bool
    decreases s.len(),
{
    if s.len() == 0 {
        false
    } else {
        any_turn(s.drop_last(), key, end) || (s.last().key@ == key && time_le(s.last().timestamp, end))
    }
}

/// What aggregation makes of one record.
pub enum Prepared {
    /// Counted, possibly after removing a fork baseline.
    Keep(Event),
    /// Not counted: future, superseded, or owning nothing.
    Skip,
    /// A fork whose parent snapshots are missing: not counted, and the result
    /// is marked incomplete.
    Orphan,
}

pub open spec fn with_fork_usage(e: Event, u: Usage, f: ForkBaseline) -> Event {
    Event {
        usage: u,
        request_count: if f.last == Some(u) { Some(1u64) } else { None },
        ..e
    }
}

pub open spec fn prepared(files: Seq<ParsedFile>, e: Event, end: Timestamp) -> Prepared {
    let adjusted: Option<Option<Event>> = match e.fork_baseline {
        None => Some(Some(e)),
        Some(f) => match latest_snapshot(flat_snapshots(files, f.parent@), f.cutoff) {
            None => None,
            Some(b) => {
                let u = adjusted_of(f, b.1);
                if total_of(u) == 0 { Some(None) } else { Some(Some(with_fork_usage(e, u, f))) }
            },
        },
    };
    match adjusted {
        None => Prepared::Orphan,
        Some(None) => Prepared::Skip,
        Some(Some(x)) => {
            if time_lt(end, x.timestamp) {
                Prepared::Skip
            } else if (x.legacy_turn matches Some(t) && is_modern(files, t@, end)) {
                Prepared::Skip
            } else {
                Prepared::Keep(x)
            }
        },
    }
}

/// The counted records of `s`, in order.
pub open spec fn kept(files: Seq<ParsedFile>, s: Seq<Event>, end: Timestamp) -> Seq<Event>
    decreases s.len(),
{
    if s.len() == 0 {
        Seq::empty()
    } else {
        match prepared(files, s.last(), end) {
            Prepared::Keep(x) => kept(files, s.drop_last(), end).push(x),
            _ => kept(files, s.drop_last(), end),
        }
    }
}

/// Whether some record of `s` is an orphaned fork.
pub open spec fn has_orphan(files: Seq<ParsedFile>, s: Seq<Event>, end: Timestamp) -> bool
    decreases s.len(),
{
    if s.len() == 0 {
        false
    } else {
        has_orphan(files, s.drop_last(), end) || prepared(files, s.last(), end) is Orphan
    }
}

// ---------------------------------------------------------------------------
// Deduplication.

/// The first position holding key `k`.
pub open spec fn key_index(acc: Seq<Event>, k: Seq<char>) -> Option<int>
    decreases acc.len(),
{
    if acc.len() == 0 {
        None
    } else {
        match key_index(acc.drop_last(), k) {
            Some(i) => Some(i),
            None => if acc.last().key@ == k { Some(acc.len() - 1) } else { None },
        }
    }
}

/// A later copy of a request: counts merge by maximum, the earliest time and
/// the first known model win, and one copy without a request count withdraws it.
pub open spec fn merged_event(a: Event, e: Event) -> Event {
    Event {
        key: a.key,
        timestamp: time_min(a.timestamp, e.timestamp),
        model: if a.model is None { e.model } else { a.model },
        usage: merged_max(a.usage, e.usage),
        request_count: if e.request_count is None { None } else { a.request_count },
        legacy_turn: a.legacy_turn,
        fork_baseline: a.fork_baseline,
        codex_snapshot: a.codex_snapshot,
    }
}

pub open spec fn merge_into(acc: Seq<Event>, e: Event) -> Seq<Event> {
    match key_index(acc, e.key@) {
        Some(i) => acc.update(i, merged_event(acc[i], e)),
        None => acc.push(e),
    }
}

/// One merged record per key, in order of first appearance.
pub open spec fn merge_all(s: Seq<Event>) -> Seq<Event>
    decreases s.len(),
{
    if s.len() == 0 { Seq::empty() } else { merge_into(merge_all(s.drop_last()), s.last()) }
}

/// The unique requests of all files.
pub open spec fn unique_events(files: Seq<ParsedFile>, end: Timestamp) -> Seq<Event> {
    merge_all(kept(files, flat_events(files), end))
}

/// Turns seen by `end`, one per key, at the earliest time.
pub open spec fn turn_index(acc: Seq<Turn>, k: Seq<char>) -> Option<int>
    decreases acc.len(),
{
    if acc.len() == 0 {
        None
    } else {
        match turn_index(acc.drop_last(), k) {
            Some(i) => Some(i),
            None => if acc.last().key@ == k { Some(acc.len() - 1) } else { None },
        }
    }
}

pub open spec fn merge_turns(s: Seq<Turn>, end: Timestamp) -> Seq<Turn>
    decreases s.len(),
{
    if s.len() == 0 {
        Seq::empty()
    } else {
        let acc = merge_turns(s.drop_last(), end);
        let t = s.last();
        if time_lt(end, t.timestamp) {
            acc
        } else {
            match turn_index(acc, t.key@) {
                Some(i) => acc.update(i, Turn { key: acc[i].key, timestamp: time_min(acc[i].timestamp, t.timestamp) }),
                None => acc.push(t),
            }
        }
    }
}

// ---------------------------------------------------------------------------
// Executable steps.

proof fn lemma_key_index_prefix(acc: Seq<Event>, i: int, k: Seq<char>)
    requires
        0 <= i <= acc.len(),
        key_index(acc.subrange(0, i), k) is Some,
    ensures
        key_index(acc, k) == key_index(acc.subrange(0, i), k),
    decreases acc.len(),
{
    if acc.len() == i {
        assert(acc.subrange(0, i) =~= acc);
    } else {
        assert(acc.drop_last().subrange(0, i) =~= acc.subrange(0, i));
        lemma_key_index_prefix(acc.drop_last(), i, k);
    }
}

proof fn lemma_key_index_bounds(acc: Seq<Event>, k: Seq<char>)
    ensures
        key_index(acc, k) matches Some(i) ==> 0 <= i < acc.len() && acc[i].key@ == k,
    decreases acc.len(),
{
    if acc.len() > 0 {
        lemma_key_index_bounds(acc.drop_last(), k);
    }
}

fn find_key(acc: &Vec<Event>, key: &str) -> (found: Option<usize>)
    ensures
        match found {
            Some(i) => key_index(acc@, key@) == Some(i as int),
            None => key_index(acc@, key@) is None,
        },
{
    let mut i: usize = 0;
    while i < acc.len()
        invariant
            i <= acc.len(),
            key_index(acc@.subrange(0, i as int), key@) is None,
        decreases acc.len() - i,
    {
        proof {
            assert(acc@.subrange(0, i + 1).drop_last() =~= acc@.subrange(0, i as int));
        }
        if str_eq(acc[i].key.as_str(), key) {
            proof { lemma_key_index_prefix(acc@, i + 1, key@); }
            return Some(i);
        }
        i = i + 1;
    }
    assert(acc@.subrange(0, acc.len() as int) =~= acc@);
    None
}

fn merge_event_into(acc: &mut Vec<Event>, e: Event)
    ensures
        final(acc)@ == merge_into(old(acc)@, e),
{
    match find_key(acc, e.key.as_str()) {
        None => { acc.push(e); },
        Some(i) => {
            proof { lemma_key_index_bounds(acc@, e.key@); }
            let a = &acc[i];
            let model = if a.model.is_none() { copy_text(&e.model) } else { copy_text(&a.model) };
            let mut usage = a.usage;
            usage.merge_max(e.usage);
            let merged = Event {
                key: a.key.clone(),
                timestamp: min_time(a.timestamp, e.timestamp),
                model,
                usage,
                request_count: if e.request_count.is_none() { None } else { a.request_count },
                legacy_turn: copy_text(&a.legacy_turn),
                fork_baseline: match &a.fork_baseline {
                    Some(f) => Some(crate::statistics::records::copy_fork(f)),
                    None => None,
                },
                codex_snapshot: a.codex_snapshot,
            };
            assert(merged == merged_event(acc@[i as int], e));
            acc.set(i, merged);
        },
    }
}

proof fn lemma_flat_snapshots_step(files: Seq<ParsedFile>, i: int, parent: Seq<char>)
    requires
        0 <= i < files.len(),
    ensures
        flat_snapshots(files.subrange(0, i + 1), parent) == flat_snapshots(files.subrange(0, i), parent) + (
            match files[i].history {
                Some(h) => if (h.session_id matches Some(id) && id@ == parent) { h.snapshots@ } else { Seq::empty() },
                None => Seq::empty(),
            }),
{
    assert(files.subrange(0, i + 1).drop_last() =~= files.subrange(0, i));
}

proof fn lemma_latest_append(a: Seq<(Timestamp, Usage)>, b: Seq<(Timestamp, Usage)>, cutoff: Timestamp)
    ensures
        latest_snapshot(a + b, cutoff) == latest_fold(latest_snapshot(a, cutoff), b, cutoff),
    decreases b.len(),
{
    if b.len() == 0 {
        assert(a + b =~= a);
    } else {
        assert((a + b).drop_last() =~= a + b.drop_last());
        lemma_latest_append(a, b.drop_last(), cutoff);
    }
}

/// Continues the latest-snapshot search from `best` over `s`.
pub open spec fn latest_fold(best: Option<(Timestamp, Usage)>, s: Seq<(Timestamp, Usage)>, cutoff: Timestamp)
    -> Option<(Timestamp, Usage)>
    decreases s.len(),
{
    if s.len() == 0 {
        best
    } else {
        let prior = latest_fold(best, s.drop_last(), cutoff);
        let x = s.last();
        if !time_le(x.0, cutoff) {
            prior
        } else {
            match prior {
                None => Some(x),
                Some(b) => if time_le(b.0, x.0) { Some(x) } else { prior },
            }
        }
    }
}

fn latest_baseline(files: &Vec<ParsedFile>, parent: &str, cutoff: Timestamp) -> (best: Option<(Timestamp, Usage)>)
    ensures
        best == latest_snapshot(flat_snapshots(files@, parent@), cutoff),
{
    let mut best: Option<(Timestamp, Usage)> = None;
    let mut i: usize = 0;
    while i < files.len()
        invariant
            i <= files.len(),
            best == latest_snapshot(flat_snapshots(files@.subrange(0, i as int), parent@), cutoff),
        decreases files.len() - i,
    {
        proof { lemma_flat_snapshots_step(files@, i as int, parent@); }
        let ghost before = flat_snapshots(files@.subrange(0, i as int), parent@);
        match &files[i].history {
            Some(h) => {
                if same_text(&h.session_id, parent) {
                    let mut j: usize = 0;
                    while j < h.snapshots.len()
                        invariant
                            j <= h.snapshots@.len(),
                            best == latest_fold(latest_snapshot(before, cutoff), h.snapshots@.subrange(0, j as int), cutoff),
                        decreases h.snapshots@.len() - j,
                    {
                        let x = h.snapshots[j];
                        proof {
                            assert(h.snapshots@.subrange(0, j + 1).drop_last() =~= h.snapshots@.subrange(0, j as int));
                        }
                        if le(x.0, cutoff) {
                            match best {
                                None => { best = Some(x); },
                                Some(b) => { if le(b.0, x.0) { best = Some(x); } },
                            }
                        }
                        j = j + 1;
                    }
                    proof {
                        assert(h.snapshots@.subrange(0, h.snapshots@.len() as int) =~= h.snapshots@);
                        lemma_latest_append(before, h.snapshots@, cutoff);
                    }
                } else {
                    assert(before + Seq::<(Timestamp, Usage)>::empty() =~= before);
                }
            },
            None => {
                assert(before + Seq::<(Timestamp, Usage)>::empty() =~= before);
            },
        }
        i = i + 1;
    }
    assert(files@.subrange(0, files.len() as int) =~= files@);
    best
}

proof fn lemma_any_turn_append(a: Seq<Turn>, b: Seq<Turn>, key: Seq<char>, end: Timestamp)
    ensures
        any_turn(a + b, key, end) == (any_turn(a, key, end) || any_turn(b, key, end)),
    decreases b.len(),
{
    if b.len() == 0 {
        assert(a + b =~= a);
    } else {
        assert((a + b).drop_last() =~= a + b.drop_last());
        lemma_any_turn_append(a, b.drop_last(), key, end);
    }
}

proof fn lemma_flat_modern_step(files: Seq<ParsedFile>, i: int)
    requires
        0 <= i < files.len(),
    ensures
        flat_modern(files.subrange(0, i + 1)) == flat_modern(files.subrange(0, i)) + files[i].modern_turns@,
{
    assert(files.subrange(0, i + 1).drop_last() =~= files.subrange(0, i));
}

fn modern_contains(files: &Vec<ParsedFile>, key: &str, end: Timestamp) -> (found: bool)
    ensures
        found == is_modern(files@, key@, end),
{
    let mut i: usize = 0;
    while i < files.len()
        invariant
            i <= files.len(),
            !any_turn(flat_modern(files@.subrange(0, i as int)), key@, end),
        decreases files.len() - i,
    {
        let turns = &files[i].modern_turns;
        let mut j: usize = 0;
        while j < turns.len()
            invariant
                i < files.len(),
                *turns == files@[i as int].modern_turns,
                j <= turns@.len(),
                !any_turn(turns@.subrange(0, j as int), key@, end),
            decreases turns@.len() - j,
        {
            proof { assert(turns@.subrange(0, j + 1).drop_last() =~= turns@.subrange(0, j as int)); }
            if str_eq(turns[j].key.as_str(), key) && le(turns[j].timestamp, end) {
                proof {
                    lemma_flat_modern_step(files@, i as int);
                    let pre = turns@.subrange(0, j + 1);
                    assert(any_turn(pre, key@, end));
                    assert(turns@ =~= pre + turns@.subrange(j + 1, turns@.len() as int));
                    lemma_any_turn_append(pre, turns@.subrange(j + 1, turns@.len() as int), key@, end);
                    lemma_any_turn_append(flat_modern(files@.subrange(0, i as int)), turns@, key@, end);
                    lemma_flat_modern_prefix(files@, i + 1, key@, end);
                }
                return true;
            }
            j = j + 1;
        }
        proof {
            assert(turns@.subrange(0, turns@.len() as int) =~= turns@);
            lemma_flat_modern_step(files@, i as int);
            lemma_any_turn_append(flat_modern(files@.subrange(0, i as int)), turns@, key@, end);
        }
        i = i + 1;
    }
    assert(files@.subrange(0, files.len() as int) =~= files@);
    false
}

/// A turn found in a prefix of the files is found in all of them.
proof fn lemma_flat_modern_prefix(files: Seq<ParsedFile>, i: int, key: Seq<char>, end: Timestamp)
    requires
        0 <= i <= files.len(),
        any_turn(flat_modern(files.subrange(0, i)), key, end),
    ensures
        any_turn(flat_modern(files), key, end),
    decreases files.len(),
{
    if files.len() == i {
        assert(files.subrange(0, i) =~= files);
    } else {
        assert(files.drop_last().subrange(0, i) =~= files.subrange(0, i));
        lemma_flat_modern_prefix(files.drop_last(), i, key, end);
        lemma_any_turn_append(flat_modern(files.drop_last()), files.last().modern_turns@, key, end);
    }
}

fn prepare(files: &Vec<ParsedFile>, e: &Event, end: Timestamp) -> (p: Prepared)
    ensures
        p == prepared(files@, *e, end),
{
    let x: Event = match &e.fork_baseline {
        None => copy_event(e),
        Some(f) => {
            match latest_baseline(files, f.parent.as_str(), f.cutoff) {
                None => { return Prepared::Orphan; },
                Some(b) => {
                    let u = f.adjust(b.1);
                    if u.total() == 0 {
                        return Prepared::Skip;
                    }
                    let counted = match f.last {
                        Some(last) => last == u,
                        None => false,
                    };
                    let mut x = copy_event(e);
                    x.usage = u;
                    x.request_count = if counted { Some(1) } else { None };
                    assert(x == with_fork_usage(*e, u, *f));
                    x
                },
            }
        },
    };
    if lt(end, x.timestamp) {
        return Prepared::Skip;
    }
    let superseded = match &x.legacy_turn {
        Some(t) => modern_contains(files, t.as_str(), end),
        None => false,
    };
    if superseded {
        Prepared::Skip
    } else {
        Prepared::Keep(x)
    }
}

proof fn lemma_flat_events_step(files: Seq<ParsedFile>, i: int)
    requires
        0 <= i < files.len(),
    ensures
        flat_events(files.subrange(0, i + 1)) == flat_events(files.subrange(0, i)) + files[i].events@,
{
    assert(files.subrange(0, i + 1).drop_last() =~= files.subrange(0, i));
}

proof fn lemma_flat_turns_step(files: Seq<ParsedFile>, i: int)
    requires
        0 <= i < files.len(),
    ensures
        flat_turns(files.subrange(0, i + 1)) == flat_turns(files.subrange(0, i)) + files[i].turns@,
{
    assert(files.subrange(0, i + 1).drop_last() =~= files.subrange(0, i));
}

proof fn lemma_flat_unknown_step(files: Seq<ParsedFile>, i: int)
    requires
        0 <= i < files.len(),
    ensures
        flat_unknown(files.subrange(0, i + 1)) == flat_unknown(files.subrange(0, i)) + files[i].unknown_turns@,
{
    assert(files.subrange(0, i + 1).drop_last() =~= files.subrange(0, i));
}

/// The unique counted requests of all files, and whether some fork was orphaned.
fn collect_unique(files: &Vec<ParsedFile>, end: Timestamp) -> (r: (Vec<Event>, bool))
    ensures
        r.0@ == unique_events(files@, end),
        r.1 == has_orphan(files@, flat_events(files@), end),
{
    let mut acc: Vec<Event> = Vec::new();
    let mut orphan = false;
    let mut i: usize = 0;
    while i < files.len()
        invariant
            i <= files.len(),
            acc@ == merge_all(kept(files@, flat_events(files@.subrange(0, i as int)), end)),
            orphan == has_orphan(files@, flat_events(files@.subrange(0, i as int)), end),
        decreases files.len() - i,
    {
        let events = &files[i].events;
        let ghost before = flat_events(files@.subrange(0, i as int));
        let mut j: usize = 0;
        while j < events.len()
            invariant
                i < files.len(),
                *events == files@[i as int].events,
                j <= events@.len(),
                acc@ == merge_all(kept(files@, before + events@.subrange(0, j as int), end)),
                orphan == has_orphan(files@, before + events@.subrange(0, j as int), end),
            decreases events@.len() - j,
        {
            let ghost processed = before + events@.subrange(0, j as int);
            proof {
                assert((before + events@.subrange(0, j + 1)).drop_last() =~= processed);
                assert((before + events@.subrange(0, j + 1)).last() == events@[j as int]);
            }
            match prepare(files, &events[j], end) {
                Prepared::Keep(x) => {
                    proof {
                        assert(kept(files@, processed, end).push(x).drop_last() =~= kept(files@, processed, end));
                    }
                    merge_event_into(&mut acc, x);
                },
                Prepared::Skip => {},
                Prepared::Orphan => { orphan = true; },
            }
            j = j + 1;
        }
        proof {
            assert(events@.subrange(0, events@.len() as int) =~= events@);
            lemma_flat_events_step(files@, i as int);
        }
        i = i + 1;
    }
    assert(files@.subrange(0, files.len() as int) =~= files@);
    (acc, orphan)
}

proof fn lemma_turn_index_prefix(acc: Seq<Turn>, i: int, k: Seq<char>)
    requires
        0 <= i <= acc.len(),
        turn_index(acc.subrange(0, i), k) is Some,
    ensures
        turn_index(acc, k) == turn_index(acc.subrange(0, i), k),
    decreases acc.len(),
{
    if acc.len() == i {
        assert(acc.subrange(0, i) =~= acc);
    } else {
        assert(acc.drop_last().subrange(0, i) =~= acc.subrange(0, i));
        lemma_turn_index_prefix(acc.drop_last(), i, k);
    }
}

proof fn lemma_turn_index_bounds(acc: Seq<Turn>, k: Seq<char>)
    ensures
        turn_index(acc, k) matches Some(i) ==> 0 <= i < acc.len() && acc[i].key@ == k,
    decreases acc.len(),
{
    if acc.len() > 0 {
        lemma_turn_index_bounds(acc.drop_last(), k);
    }
}

fn find_turn(acc: &Vec<Turn>, key: &str) -> (found: Option<usize>)
    ensures
        match found {
            Some(i) => turn_index(acc@, key@) == Some(i as int),
            None => turn_index(acc@, key@) is None,
        },
{
    let mut i: usize = 0;
    while i < acc.len()
        invariant
            i <= acc.len(),
            turn_index(acc@.subrange(0, i as int), key@) is None,
        decreases acc.len() - i,
    {
        proof { assert(acc@.subrange(0, i + 1).drop_last() =~= acc@.subrange(0, i as int)); }
        if str_eq(acc[i].key.as_str(), key) {
            proof { lemma_turn_index_prefix(acc@, i + 1, key@); }
            return Some(i);
        }
        i = i + 1;
    }
    assert(acc@.subrange(0, acc.len() as int) =~= acc@);
    None
}

/// The turns of all files, one per key at its earliest time, none after `end`.
fn collect_turns(files: &Vec<ParsedFile>, end: Timestamp) -> (turns: Vec<Turn>)
    ensures
        turns@ == merge_turns(flat_turns(files@), end),
{
    let mut acc: Vec<Turn> = Vec::new();
    let mut i: usize = 0;
    while i < files.len()
        invariant
            i <= files.len(),
            acc@ == merge_turns(flat_turns(files@.subrange(0, i as int)), end),
        decreases files.len() - i,
    {
        let turns = &files[i].turns;
        let ghost before = flat_turns(files@.subrange(0, i as int));
        let mut j: usize = 0;
        while j < turns.len()
            invariant
                i < files.len(),
                *turns == files@[i as int].turns,
                j <= turns@.len(),
                acc@ == merge_turns(before + turns@.subrange(0, j as int), end),
            decreases turns@.len() - j,
        {
            proof {
                assert((before + turns@.subrange(0, j + 1)).drop_last() =~= before + turns@.subrange(0, j as int));
                assert((before + turns@.subrange(0, j + 1)).last() == turns@[j as int]);
            }
            let t = &turns[j];
            if !lt(end, t.timestamp) {
                match find_turn(&acc, t.key.as_str()) {
                    None => { acc.push(Turn { key: t.key.clone(), timestamp: t.timestamp }); },
                    Some(k) => {
                        proof { lemma_turn_index_bounds(acc@, t.key@); }
                        let updated = Turn { key: acc[k].key.clone(), timestamp: min_time(acc[k].timestamp, t.timestamp) };
                        acc.set(k, updated);
                    },
                }
            }
            j = j + 1;
        }
        proof {
            assert(turns@.subrange(0, turns@.len() as int) =~= turns@);
            lemma_flat_turns_step(files@, i as int);
        }
        i = i + 1;
    }
    assert(files@.subrange(0, files.len() as int) =~= files@);
    acc
}

// ---------------------------------------------------------------------------
// Periods and the summary.

/// Calendar period of a window; `All` has no lower bound.
#[derive(Clone, Copy, Debug, PartialEq, Eq, Structural)]
pub enum PeriodLabel {
    Day,
    Week,
    Month,
    Year,
    All,
}

/// A statistics window from local midnight of its first day (unbounded for
/// `All`) up to the collection time.
#[derive(Clone, Copy, Debug, PartialEq, Eq, Structural)]
pub struct Window {
    pub label: PeriodLabel,
    pub start: Timestamp,
}

/// Token totals of one window. Costs are in nano-dollars; absent counts are unknown.
#[derive(Debug)]
pub struct TokenPeriod {
    pub period: PeriodLabel,
    pub start_at: Timestamp,
    pub end_at: Timestamp,
    pub input_tokens: u64,
    pub cached_input_tokens: u64,
    pub cache_write_tokens: u64,
    pub output_tokens: u64,
    pub total_tokens: u64,
    pub request_count: Option<u64>,
    pub conversation_turns: Option<u64>,
    pub estimated_cost_nano_usd: Option<u128>,
    pub unpriced_tokens: u64,
}

#[derive(Debug)]
pub struct TokenStatistics {
    pub status: ProviderStatus,
    pub message: Option<String>,
    pub periods: Vec<TokenPeriod>,
    pub updated_at: Timestamp,
}

pub open spec fn in_window(w: Window, end: Timestamp, t: Timestamp) -> bool {
    (w.label == PeriodLabel::All || time_le(w.start, t)) && time_le(t, end)
}

/// The quantities summed per window.
#[derive(Clone, Copy, PartialEq, Eq, Structural)]
pub enum Field {
    Input,
    Cached,
    CacheWrite,
    Output,
    Requests,
    Unpriced,
    Cost,
}

pub open spec fn priced(provider: ProviderId, vendor: Seq<char>, e: Event) -> Option<int> {
    estimate_of(provider, vendor, match e.model { Some(m) => Some(m@), None => None }, e.usage)
}

pub open spec fn field_value(provider: ProviderId, vendor: Seq<char>, e: Event, f: Field) -> int {
    match f {
        Field::Input => e.usage.input as int,
        Field::Cached => e.usage.cached as int,
        Field::CacheWrite => e.usage.cache_write as int,
        Field::Output => e.usage.output as int,
        Field::Requests => match e.request_count { Some(c) => c as int, None => 0 },
        Field::Unpriced => if priced(provider, vendor, e) is None { total_of(e.usage) as int } else { 0 },
        Field::Cost => match priced(provider, vendor, e) { Some(c) => c, None => 0 },
    }
}

/// The sum of `f` over the events inside window `w`.
pub open spec fn wsum(provider: ProviderId, vendor: Seq<char>, m: Seq<Event>, w: Window, end: Timestamp, f: Field) -> int
    decreases m.len(),
{
    if m.len() == 0 {
        0
    } else {
        wsum(provider, vendor, m.drop_last(), w, end, f)
            + if in_window(w, end, m.last().timestamp) { field_value(provider, vendor, m.last(), f) } else { 0 }
    }
}

/// Whether every event inside the window is an identified request.
pub open spec fn all_counted(m: Seq<Event>, w: Window, end: Timestamp) -> bool
    decreases m.len(),
{
    if m.len() == 0 {
        true
    } else {
        all_counted(m.drop_last(), w, end)
            && (in_window(w, end, m.last().timestamp) ==> m.last().request_count is Some)
    }
}

pub open spec fn turn_count(t: Seq<Turn>, w: Window, end: Timestamp) -> int
    decreases t.len(),
{
    if t.len() == 0 {
        0
    } else {
        turn_count(t.drop_last(), w, end) + if in_window(w, end, t.last().timestamp) { 1int } else { 0 }
    }
}

pub open spec fn any_in_window(s: Seq<Timestamp>, w: Window, end: Timestamp) -> bool
    decreases s.len(),
{
    if s.len() == 0 { false } else { any_in_window(s.drop_last(), w, end) || in_window(w, end, s.last()) }
}

pub open spec fn sat128(v: int) -> u128 {
    if v > u128::MAX { u128::MAX } else { v as u128 }
}

/// The first usage time of each file that is not after `end`.
pub open spec fn usage_starts(files: Seq<ParsedFile>, end: Timestamp) -> Seq<Timestamp>
    decreases files.len(),
{
    if files.len() == 0 {
        Seq::empty()
    } else {
        let rest = usage_starts(files.drop_last(), end);
        match files.last().first_usage {
            Some(t) => if time_le(t, end) { rest.push(t) } else { rest },
            None => rest,
        }
    }
}

pub open spec fn any_malformed(files: Seq<ParsedFile>) -> bool
    decreases files.len(),
{
    if files.len() == 0 { false } else { any_malformed(files.drop_last()) || files.last().malformed }
}

/// The earliest of `best` and the times in `s`.
pub open spec fn min_fold(best: Option<Timestamp>, s: Seq<Timestamp>) -> Option<Timestamp>
    decreases s.len(),
{
    if s.len() == 0 {
        best
    } else {
        match min_fold(best, s.drop_last()) {
            None => Some(s.last()),
            Some(b) => Some(time_min(b, s.last())),
        }
    }
}

pub open spec fn turn_times(t: Seq<Turn>) -> Seq<Timestamp> {
    t.map_values(|x: Turn| x.timestamp)
}

pub open spec fn times_until(s: Seq<Timestamp>, end: Timestamp) -> Seq<Timestamp>
    decreases s.len(),
{
    if s.len() == 0 {
        Seq::empty()
    } else if time_le(s.last(), end) {
        times_until(s.drop_last(), end).push(s.last())
    } else {
        times_until(s.drop_last(), end)
    }
}

/// The earliest retained record: usage, a turn, or an unattributed turn; `end`
/// when there is none. The `All` period starts here.
pub open spec fn first_record(files: Seq<ParsedFile>, end: Timestamp) -> Timestamp {
    match min_fold(min_fold(min_fold(None, usage_starts(files, end)),
        turn_times(merge_turns(flat_turns(files), end))), times_until(flat_unknown(files), end)) {
        Some(t) => t,
        None => end,
    }
}

pub open spec fn status_of(has_usage: bool, incomplete: bool) -> ProviderStatus {
    if has_usage { ProviderStatus::Ready } else if incomplete { ProviderStatus::Error } else { ProviderStatus::Unavailable }
}

/// The totals of window `w`.
pub open spec fn period_of(
    provider: ProviderId, vendor: Seq<char>,
    files: Seq<ParsedFile>,
    w: Window,
    end: Timestamp,
    ready: bool,
) -> TokenPeriod {
    let m = unique_events(files, end);
    let input = sat(wsum(provider, vendor, m, w, end, Field::Input));
    let output = sat(wsum(provider, vendor, m, w, end, Field::Output));
    let total = sat(input + output);
    let unpriced = sat(wsum(provider, vendor, m, w, end, Field::Unpriced));
    TokenPeriod {
        period: w.label,
        start_at: if w.label == PeriodLabel::All { first_record(files, end) } else { w.start },
        end_at: end,
        input_tokens: input,
        cached_input_tokens: sat(wsum(provider, vendor, m, w, end, Field::Cached)),
        cache_write_tokens: sat(wsum(provider, vendor, m, w, end, Field::CacheWrite)),
        output_tokens: output,
        total_tokens: total,
        request_count: if ready && all_counted(m, w, end) {
            Some(sat(wsum(provider, vendor, m, w, end, Field::Requests)))
        } else {
            None
        },
        conversation_turns: if any_in_window(flat_unknown(files), w, end) {
            None
        } else if ready {
            Some(turn_count(merge_turns(flat_turns(files), end), w, end) as u64)
        } else {
            None
        },
        estimated_cost_nano_usd: if !ready || (total > 0 && unpriced == total) {
            None
        } else {
            Some(sat128(wsum(provider, vendor, m, w, end, Field::Cost)))
        },
        unpriced_tokens: unpriced,
    }
}

proof fn lemma_sat_step(a: int, x: int)
    requires
        a >= 0,
        x >= 0,
    ensures
        sat(sat(a) + x) == sat(a + x),
        sat128(sat128(a) + x) == sat128(a + x),
{
}

proof fn lemma_wsum_nonneg(provider: ProviderId, vendor: Seq<char>, m: Seq<Event>, w: Window, end: Timestamp, f: Field)
    ensures
        wsum(provider, vendor, m, w, end, f) >= 0,
    decreases m.len(),
{
    if m.len() > 0 {
        lemma_wsum_nonneg(provider, vendor, m.drop_last(), w, end, f);
        if f == Field::Cost {
            if let Some(c) = priced(provider, vendor, m.last()) {
                lemma_priced_nonneg(provider, vendor, m.last());
            }
        }
    }
}

pub proof fn lemma_priced_nonneg(provider: ProviderId, vendor: Seq<char>, e: Event)
    ensures
        priced(provider, vendor, e) matches Some(c) ==> c >= 0,
{
    let u = e.usage;
    match e.model {
        Some(m) => {
            if let Some(p) = crate::statistics::pricing::price_table(provider, vendor, m@) {
                let ep = crate::statistics::pricing::effective_price(p, u);
                if u.cached + u.cache_write <= u.input {
                    assert((u.input - u.cached - u.cache_write) * ep.input >= 0) by (nonlinear_arith)
                        requires u.input - u.cached - u.cache_write >= 0, ep.input >= 0;
                    assert(u.cached * ep.cached >= 0) by (nonlinear_arith)
                        requires u.cached >= 0, ep.cached >= 0;
                    assert(u.output * ep.output >= 0) by (nonlinear_arith)
                        requires u.output >= 0, ep.output >= 0;
                    if let Some(w) = ep.write {
                        assert(u.cache_write * w >= 0) by (nonlinear_arith)
                            requires u.cache_write >= 0, w >= 0;
                        assert(u.write_5m * w >= 0) by (nonlinear_arith)
                            requires u.write_5m >= 0, w >= 0;
                    }
                    if let Some(h) = ep.write_hour {
                        assert(u.write_1h * h >= 0) by (nonlinear_arith)
                            requires u.write_1h >= 0, h >= 0;
                    }
                }
            }
        },
        None => {},
    }
}

fn event_cost(provider: ProviderId, vendor_name: &str, e: &Event) -> (c: Option<u128>)
    ensures
        match c {
            Some(v) => priced(provider, vendor_name@, *e) == Some(v as int),
            None => priced(provider, vendor_name@, *e) is None,
        },
{
    let ghost vendor = vendor_name@;
    match &e.model {
        Some(m) => estimate(provider, vendor_name, Some(m.as_str()), e.usage),
        None => estimate(provider, vendor_name, None, e.usage),
    }
}

fn within(w: Window, end: Timestamp, t: Timestamp) -> (r: bool)
    ensures
        r == in_window(w, end, t),
{
    (w.label == PeriodLabel::All || le(w.start, t)) && le(t, end)
}

proof fn lemma_any_in_window_append(a: Seq<Timestamp>, b: Seq<Timestamp>, w: Window, end: Timestamp)
    ensures
        any_in_window(a + b, w, end) == (any_in_window(a, w, end) || any_in_window(b, w, end)),
    decreases b.len(),
{
    if b.len() == 0 {
        assert(a + b =~= a);
    } else {
        assert((a + b).drop_last() =~= a + b.drop_last());
        lemma_any_in_window_append(a, b.drop_last(), w, end);
    }
}

fn unknown_in_window(files: &Vec<ParsedFile>, w: Window, end: Timestamp) -> (r: bool)
    ensures
        r == any_in_window(flat_unknown(files@), w, end),
{
    let mut found = false;
    let mut i: usize = 0;
    while i < files.len()
        invariant
            i <= files.len(),
            found == any_in_window(flat_unknown(files@.subrange(0, i as int)), w, end),
        decreases files.len() - i,
    {
        let times = &files[i].unknown_turns;
        let ghost before = flat_unknown(files@.subrange(0, i as int));
        let mut j: usize = 0;
        while j < times.len()
            invariant
                i < files.len(),
                *times == files@[i as int].unknown_turns,
                j <= times@.len(),
                found == (any_in_window(before, w, end) || any_in_window(times@.subrange(0, j as int), w, end)),
            decreases times@.len() - j,
        {
            proof { assert(times@.subrange(0, j + 1).drop_last() =~= times@.subrange(0, j as int)); }
            if within(w, end, times[j]) {
                found = true;
            }
            j = j + 1;
        }
        proof {
            assert(times@.subrange(0, times@.len() as int) =~= times@);
            lemma_flat_unknown_step(files@, i as int);
            lemma_any_in_window_append(before, times@, w, end);
        }
        i = i + 1;
    }
    assert(files@.subrange(0, files.len() as int) =~= files@);
    found
}

fn count_turns(turns: &Vec<Turn>, w: Window, end: Timestamp) -> (n: u64)
    ensures
        n == turn_count(turns@, w, end),
{
    let mut n: u64 = 0;
    let mut i: usize = 0;
    while i < turns.len()
        invariant
            i <= turns.len(),
            n == turn_count(turns@.subrange(0, i as int), w, end),
            n <= i,
        decreases turns.len() - i,
    {
        proof { assert(turns@.subrange(0, i + 1).drop_last() =~= turns@.subrange(0, i as int)); }
        if within(w, end, turns[i].timestamp) {
            n = n + 1;
        }
        i = i + 1;
    }
    assert(turns@.subrange(0, turns.len() as int) =~= turns@);
    n
}

/// Totals of one window over the unique events `m` and merged turns `turns`.
fn compute_period(
    provider: ProviderId, vendor_name: &str,
    files: &Vec<ParsedFile>,
    m: &Vec<Event>,
    turns: &Vec<Turn>,
    w: Window,
    end: Timestamp,
    ready: bool,
    first: Timestamp,
) -> (p: TokenPeriod)
    requires
        m@ == unique_events(files@, end),
        turns@ == merge_turns(flat_turns(files@), end),
        first == first_record(files@, end),
    ensures
        p == period_of(provider, vendor_name@, files@, w, end, ready),
{
    let ghost vendor = vendor_name@;
    let mut input: u64 = 0;
    let mut cached: u64 = 0;
    let mut write: u64 = 0;
    let mut output: u64 = 0;
    let mut unpriced: u64 = 0;
    let mut cost: u128 = 0;
    let mut requests: u64 = 0;
    let mut counted = true;
    let mut k: usize = 0;
    while k < m.len()
        invariant
            vendor == vendor_name@,
            k <= m.len(),
            input == sat(wsum(provider, vendor, m@.subrange(0, k as int), w, end, Field::Input)),
            cached == sat(wsum(provider, vendor, m@.subrange(0, k as int), w, end, Field::Cached)),
            write == sat(wsum(provider, vendor, m@.subrange(0, k as int), w, end, Field::CacheWrite)),
            output == sat(wsum(provider, vendor, m@.subrange(0, k as int), w, end, Field::Output)),
            unpriced == sat(wsum(provider, vendor, m@.subrange(0, k as int), w, end, Field::Unpriced)),
            cost == sat128(wsum(provider, vendor, m@.subrange(0, k as int), w, end, Field::Cost)),
            requests == sat(wsum(provider, vendor, m@.subrange(0, k as int), w, end, Field::Requests)),
            counted == all_counted(m@.subrange(0, k as int), w, end),
        decreases m.len() - k,
    {
        let ghost pre = m@.subrange(0, k as int);
        proof {
            assert(m@.subrange(0, k + 1).drop_last() =~= pre);
            assert(m@.subrange(0, k + 1).last() == m@[k as int]);
            lemma_wsum_nonneg(provider, vendor, pre, w, end, Field::Input);
            lemma_wsum_nonneg(provider, vendor, pre, w, end, Field::Cached);
            lemma_wsum_nonneg(provider, vendor, pre, w, end, Field::CacheWrite);
            lemma_wsum_nonneg(provider, vendor, pre, w, end, Field::Output);
            lemma_wsum_nonneg(provider, vendor, pre, w, end, Field::Unpriced);
            lemma_wsum_nonneg(provider, vendor, pre, w, end, Field::Cost);
            lemma_wsum_nonneg(provider, vendor, pre, w, end, Field::Requests);
        }
        let e = &m[k];
        if within(w, end, e.timestamp) {
            let u = e.usage;
            proof {
                lemma_sat_step(wsum(provider, vendor, pre, w, end, Field::Input), u.input as int);
                lemma_sat_step(wsum(provider, vendor, pre, w, end, Field::Cached), u.cached as int);
                lemma_sat_step(wsum(provider, vendor, pre, w, end, Field::CacheWrite), u.cache_write as int);
                lemma_sat_step(wsum(provider, vendor, pre, w, end, Field::Output), u.output as int);
            }
            input = input.saturating_add(u.input);
            cached = cached.saturating_add(u.cached);
            write = write.saturating_add(u.cache_write);
            output = output.saturating_add(u.output);
            match e.request_count {
                Some(c) => {
                    proof { lemma_sat_step(wsum(provider, vendor, pre, w, end, Field::Requests), c as int); }
                    requests = requests.saturating_add(c);
                },
                None => {
                    proof { lemma_sat_step(wsum(provider, vendor, pre, w, end, Field::Requests), 0); }
                    counted = false;
                },
            }
            match event_cost(provider, vendor_name, e) {
                Some(c) => {
                    proof {
                        lemma_sat_step(wsum(provider, vendor, pre, w, end, Field::Cost), c as int);
                        lemma_sat_step(wsum(provider, vendor, pre, w, end, Field::Unpriced), 0);
                    }
                    cost = cost.saturating_add(c);
                },
                None => {
                    proof {
                        lemma_sat_step(wsum(provider, vendor, pre, w, end, Field::Unpriced), total_of(u) as int);
                        lemma_sat_step(wsum(provider, vendor, pre, w, end, Field::Cost), 0);
                    }
                    unpriced = unpriced.saturating_add(u.total());
                },
            }
        }
        k = k + 1;
    }
    assert(m@.subrange(0, m.len() as int) =~= m@);
    let total = input.saturating_add(output);
    let unknown = unknown_in_window(files, w, end);
    let turn_total = count_turns(turns, w, end);
    TokenPeriod {
        period: w.label,
        start_at: if w.label == PeriodLabel::All { first } else { w.start },
        end_at: end,
        input_tokens: input,
        cached_input_tokens: cached,
        cache_write_tokens: write,
        output_tokens: output,
        total_tokens: total,
        request_count: if ready && counted { Some(requests) } else { None },
        conversation_turns: if unknown { None } else if ready { Some(turn_total) } else { None },
        estimated_cost_nano_usd: if !ready || (total > 0 && unpriced == total) { None } else { Some(cost) },
        unpriced_tokens: unpriced,
    }
}

proof fn lemma_times_until_append(a: Seq<Timestamp>, b: Seq<Timestamp>, end: Timestamp)
    ensures
        times_until(a + b, end) == times_until(a, end) + times_until(b, end),
    decreases b.len(),
{
    if b.len() == 0 {
        assert(a + b =~= a);
        assert(times_until(a, end) + times_until(b, end) =~= times_until(a, end));
    } else {
        assert((a + b).drop_last() =~= a + b.drop_last());
        lemma_times_until_append(a, b.drop_last(), end);
        if time_le(b.last(), end) {
            assert(times_until(a, end) + times_until(b.drop_last(), end).push(b.last())
                =~= (times_until(a, end) + times_until(b.drop_last(), end)).push(b.last()));
        }
    }
}

proof fn lemma_min_fold_append(x: Option<Timestamp>, a: Seq<Timestamp>, b: Seq<Timestamp>)
    ensures
        min_fold(x, a + b) == min_fold(min_fold(x, a), b),
    decreases b.len(),
{
    if b.len() == 0 {
        assert(a + b =~= a);
    } else {
        assert((a + b).drop_last() =~= a + b.drop_last());
        lemma_min_fold_append(x, a, b.drop_last());
    }
}

proof fn lemma_usage_starts_step(files: Seq<ParsedFile>, i: int, end: Timestamp)
    requires
        0 <= i < files.len(),
    ensures
        usage_starts(files.subrange(0, i + 1), end) == (match files[i].first_usage {
            Some(t) => if time_le(t, end) { usage_starts(files.subrange(0, i), end).push(t) } else { usage_starts(files.subrange(0, i), end) },
            None => usage_starts(files.subrange(0, i), end),
        }),
        any_malformed(files.subrange(0, i + 1)) == (any_malformed(files.subrange(0, i)) || files[i].malformed),
{
    assert(files.subrange(0, i + 1).drop_last() =~= files.subrange(0, i));
}

/// Whether any file has usage by `end`, whether any is malformed, and the
/// earliest retained record.
fn scan_files(files: &Vec<ParsedFile>, turns: &Vec<Turn>, end: Timestamp) -> (r: (bool, bool, Timestamp))
    requires
        turns@ == merge_turns(flat_turns(files@), end),
    ensures
        r.0 == (usage_starts(files@, end).len() > 0),
        r.1 == any_malformed(files@),
        r.2 == first_record(files@, end),
{
    let mut best: Option<Timestamp> = None;
    let mut has_usage = false;
    let mut malformed = false;
    let mut i: usize = 0;
    while i < files.len()
        invariant
            i <= files.len(),
            best == min_fold(None, usage_starts(files@.subrange(0, i as int), end)),
            has_usage == (usage_starts(files@.subrange(0, i as int), end).len() > 0),
            malformed == any_malformed(files@.subrange(0, i as int)),
        decreases files.len() - i,
    {
        proof { lemma_usage_starts_step(files@, i as int, end); }
        let ghost pre = usage_starts(files@.subrange(0, i as int), end);
        match files[i].first_usage {
            Some(t) => {
                if le(t, end) {
                    proof { assert(pre.push(t).drop_last() =~= pre); }
                    best = match best { None => Some(t), Some(b) => Some(min_time(b, t)) };
                    has_usage = true;
                }
            },
            None => {},
        }
        if files[i].malformed {
            malformed = true;
        }
        i = i + 1;
    }
    assert(files@.subrange(0, files.len() as int) =~= files@);
    let ghost b0 = best;
    let mut k: usize = 0;
    while k < turns.len()
        invariant
            k <= turns.len(),
            best == min_fold(b0, turn_times(turns@.subrange(0, k as int))),
        decreases turns.len() - k,
    {
        proof {
            assert(turn_times(turns@.subrange(0, k + 1)).drop_last() =~= turn_times(turns@.subrange(0, k as int)));
            assert(turn_times(turns@.subrange(0, k + 1)).last() == turns@[k as int].timestamp);
        }
        let t = turns[k].timestamp;
        best = match best { None => Some(t), Some(b) => Some(min_time(b, t)) };
        k = k + 1;
    }
    assert(turns@.subrange(0, turns.len() as int) =~= turns@);
    let ghost b1 = best;
    let mut i: usize = 0;
    while i < files.len()
        invariant
            i <= files.len(),
            best == min_fold(b1, times_until(flat_unknown(files@.subrange(0, i as int)), end)),
        decreases files.len() - i,
    {
        let times = &files[i].unknown_turns;
        let ghost before = times_until(flat_unknown(files@.subrange(0, i as int)), end);
        let mut j: usize = 0;
        while j < times.len()
            invariant
                i < files.len(),
                *times == files@[i as int].unknown_turns,
                j <= times@.len(),
                best == min_fold(min_fold(b1, before), times_until(times@.subrange(0, j as int), end)),
            decreases times@.len() - j,
        {
            proof { assert(times@.subrange(0, j + 1).drop_last() =~= times@.subrange(0, j as int)); }
            let t = times[j];
            if le(t, end) {
                proof {
                    let pre = times_until(times@.subrange(0, j as int), end);
                    assert(pre.push(t).drop_last() =~= pre);
                }
                best = match best { None => Some(t), Some(b) => Some(min_time(b, t)) };
            }
            j = j + 1;
        }
        proof {
            assert(times@.subrange(0, times@.len() as int) =~= times@);
            lemma_flat_unknown_step(files@, i as int);
            lemma_times_until_append(flat_unknown(files@.subrange(0, i as int)), times@, end);
            lemma_min_fold_append(b1, before, times_until(times@, end));
        }
        i = i + 1;
    }
    assert(files@.subrange(0, files.len() as int) =~= files@);
    let first = match best { Some(t) => t, None => end };
    (has_usage, malformed, first)
}

pub open spec fn no_records_text() -> Seq<char> { "未找到本机 Token 用量记录；使用后即可统计"@ }
pub open spec fn unreadable_text() -> Seq<char> { "无法读取本机 Token 用量记录，请检查日志目录权限及格式"@ }
pub open spec fn incomplete_text() -> Seq<char> { "部分本机日志无法读取或格式不完整，当前统计可能不完整"@ }
pub open spec fn counts_note() -> Seq<char> { "部分记录无法还原请求次数或会话轮次"@ }
pub open spec fn counts_alone() -> Seq<char> { "部分记录无法还原请求次数或会话轮次，对应统计暂不可用"@ }
pub open spec fn unsaved_note() -> Seq<char> { "Token 历史数据未完整保存，请重试"@ }

/// Appends `note` after `；`, or uses `alone` when there is no message yet.
pub open spec fn add_note(message: Option<Seq<char>>, note: Seq<char>, alone: Seq<char>) -> Option<Seq<char>> {
    match message {
        Some(m) => Some(m + "；"@ + note),
        None => Some(alone),
    }
}

/// The user-facing message: what was found, then whether counts are
/// incomplete, then whether history could not be saved.
pub open spec fn message_of(status: ProviderStatus, incomplete: bool, missing_counts: bool, cache_error: bool)
    -> Option<Seq<char>>
{
    let base = match status {
        ProviderStatus::Unavailable => Some(no_records_text()),
        ProviderStatus::Error => Some(unreadable_text()),
        ProviderStatus::Ready => if incomplete { Some(incomplete_text()) } else { None },
    };
    let counted = if status == ProviderStatus::Ready && missing_counts {
        add_note(base, counts_note(), counts_alone())
    } else {
        base
    };
    if cache_error { add_note(counted, unsaved_note(), unsaved_note()) } else { counted }
}

/// Whether some window cannot report its request or turn count.
pub open spec fn missing_counts(provider: ProviderId, vendor: Seq<char>, files: Seq<ParsedFile>, windows: Seq<Window>, end: Timestamp, ready: bool) -> bool {
    exists|i: int| 0 <= i < windows.len() && {
        let p = #[trigger] period_of(provider, vendor, files, windows[i], end, ready);
        p.request_count is None || p.conversation_turns is None
    }
}

/// The statistics of `files` seen at `end`: ready when some usage exists by
/// then, failed when nothing is usable and some log was unreadable, malformed
/// or an orphaned fork, otherwise unavailable.
pub open spec fn statistics_status(files: Seq<ParsedFile>, end: Timestamp, read_error: bool) -> ProviderStatus {
    status_of(usage_starts(files, end).len() > 0,
        read_error || has_orphan(files, flat_events(files), end) || any_malformed(files))
}

fn add_note_exec(message: Option<String>, note: &str, alone: &str) -> (m: Option<String>)
    ensures
        match message { Some(x) => m matches Some(y) && y@ == x@ + "；"@ + note@, None => m matches Some(y) && y@ == alone@ },
{
    match message {
        Some(mut x) => { x.append("；"); x.append(note); Some(x) },
        None => Some(String::from_str(alone)),
    }
}

/// Aggregates normalized records into calendar windows ending at `end`.
/// `read_error` marks logs that could not be read; `cache_error` marks history
/// that could not be saved.
pub fn summarize(
    provider: ProviderId, vendor_name: &str,
    files: &Vec<ParsedFile>,
    windows: &Vec<Window>,
    end: Timestamp,
    read_error: bool,
    cache_error: bool,
) -> (stats: TokenStatistics)
    ensures
        stats.status == statistics_status(files@, end, read_error),
        stats.updated_at == end,
        stats.periods@.len() == windows@.len(),
        forall|i: int| 0 <= i < windows@.len() ==> stats.periods@[i]
            == period_of(provider, vendor_name@, files@, windows@[i], end, stats.status == ProviderStatus::Ready),
        match stats.message {
            Some(m) => message_of(stats.status,
                read_error || has_orphan(files@, flat_events(files@), end) || any_malformed(files@),
                missing_counts(provider, vendor_name@, files@, windows@, end, stats.status == ProviderStatus::Ready),
                cache_error) == Some(m@),
            None => message_of(stats.status,
                read_error || has_orphan(files@, flat_events(files@), end) || any_malformed(files@),
                missing_counts(provider, vendor_name@, files@, windows@, end, stats.status == ProviderStatus::Ready),
                cache_error) is None,
        },
{
    let ghost vendor = vendor_name@;
    let (unique, orphan) = collect_unique(files, end);
    let turns = collect_turns(files, end);
    let (has_usage, malformed, first) = scan_files(files, &turns, end);
    let incomplete = read_error || orphan || malformed;
    let status = if has_usage {
        ProviderStatus::Ready
    } else if incomplete {
        ProviderStatus::Error
    } else {
        ProviderStatus::Unavailable
    };
    let ready = has_usage;
    let mut periods: Vec<TokenPeriod> = Vec::new();
    let mut missing = false;
    let mut i: usize = 0;
    while i < windows.len()
        invariant
            vendor == vendor_name@,
            i <= windows.len(),
            unique@ == unique_events(files@, end),
            turns@ == merge_turns(flat_turns(files@), end),
            first == first_record(files@, end),
            periods@.len() == i,
            forall|k: int| 0 <= k < i ==> periods@[k] == period_of(provider, vendor, files@, windows@[k], end, ready),
            missing == exists|k: int| 0 <= k < i && {
                let p = #[trigger] period_of(provider, vendor, files@, windows@[k], end, ready);
                p.request_count is None || p.conversation_turns is None
            },
        decreases windows.len() - i,
    {
        let p = compute_period(provider, vendor_name, files, &unique, &turns, windows[i], end, ready, first);
        if p.request_count.is_none() || p.conversation_turns.is_none() {
            missing = true;
        }
        proof {
            assert forall|k: int| 0 <= k < i + 1 && ({
                let q = #[trigger] period_of(provider, vendor, files@, windows@[k], end, ready);
                q.request_count is None || q.conversation_turns is None
            }) implies missing by {
                if k == i {} else {}
            }
        }
        periods.push(p);
        i = i + 1;
    }
    let base = match status {
        ProviderStatus::Unavailable => Some(String::from_str("未找到本机 Token 用量记录；使用后即可统计")),
        ProviderStatus::Error => Some(String::from_str("无法读取本机 Token 用量记录，请检查日志目录权限及格式")),
        ProviderStatus::Ready => if incomplete {
            Some(String::from_str("部分本机日志无法读取或格式不完整，当前统计可能不完整"))
        } else {
            None
        },
    };
    let counted = if ready && missing {
        add_note_exec(base, "部分记录无法还原请求次数或会话轮次", "部分记录无法还原请求次数或会话轮次，对应统计暂不可用")
    } else {
        base
    };
    let message = if cache_error {
        add_note_exec(counted, "Token 历史数据未完整保存，请重试", "Token 历史数据未完整保存，请重试")
    } else {
        counted
    };
    TokenStatistics { status, message, periods, updated_at: end }
}

} // verus!
