//! Content-free normalization of Codex and pi-family session logs. One record
//! at a time advances a parser state; only usage, timing and model facts are
//! kept, never conversation text, tool arguments or credentials.
use vstd::prelude::*;
use vstd::string::*;
use crate::models::ProviderId;
use crate::statistics::usage::{Usage, RawUsage, ForkBaseline, Snapshot, normalized_of, total_of, difference_of, sat};
use crate::statistics::records::{Event, Turn, ParsedFile, SessionHistory};
use crate::statistics::activity::{CompletedTask, ExplicitDuration};
use crate::statistics::laws::at_or_after;
use crate::time::{Timestamp, wf_time, time_le, time_lt, time_min, spec_unix_seconds_in_range, iso_key_text};
use crate::text::{opt_view, cleaned, decimal, ascii_lower, spec_trim};

verus! {

/// Where a session came from: a plain name, or details that may mark a subagent.
pub enum SessionSource {
    Name(String),
    Details { subagent: bool },
}

impl SessionSource {
    /// A subagent session: named `subagent`, or details that carry a subagent.
    pub fn is_subagent(&self) -> (r: bool)
        ensures
            r == is_subagent_source(*self),
    {
        match self {
            SessionSource::Name(n) => crate::text::str_eq(n.as_str(), "subagent"),
            SessionSource::Details { subagent } => *subagent,
        }
    }
}

pub open spec fn is_subagent_source(s: SessionSource) -> bool {
    match s {
        SessionSource::Name(n) => n@ == "subagent"@,
        SessionSource::Details { subagent } => subagent,
    }
}

/// Token counts of a pi-family assistant message.
#[derive(Clone, Copy, Debug, PartialEq, Eq, Structural)]
pub struct PiUsage {
    pub input: u64,
    pub cached: u64,
    pub write: u64,
    pub output: u64,
}

/// A pi-family chat message, without its content.
pub struct PiMessage {
    pub role: Option<String>,
    pub model: Option<String>,
    pub model_id: Option<String>,
    pub provider: Option<String>,
    pub timestamp: Option<Timestamp>,
    pub usage: Option<PiUsage>,
}

/// Token-count details of a legacy record.
pub struct Info {
    pub model: Option<String>,
    pub model_name: Option<String>,
    pub total_token_usage: Option<RawUsage>,
    pub last_token_usage: Option<RawUsage>,
}

/// The payload of a Codex record, reduced to the facts the parser reads.
/// Times in seconds are as logged; `duration` is the explicit task duration.
pub struct Payload {
    pub kind: Option<String>,
    pub id: Option<String>,
    pub session_id: Option<String>,
    pub forked_from_id: Option<String>,
    pub timestamp: Option<Timestamp>,
    pub source: Option<SessionSource>,
    pub subagent_history_start_ordinal: Option<u64>,
    pub model: Option<String>,
    pub model_name: Option<String>,
    pub turn_id: Option<String>,
    pub started_at: Option<i64>,
    pub completed_at: Option<i64>,
    pub duration: ExplicitDuration,
    pub trigger_turn: Option<bool>,
    pub usage: Option<RawUsage>,
    pub response_id: Option<String>,
    pub thread_token_usage: Option<RawUsage>,
    pub info: Option<Info>,
}

/// One log record. `timestamp` is the record's instant where it names one
/// that can be read.
pub struct Record {
    pub kind: String,
    pub ordinal: Option<u64>,
    pub timestamp: Option<Timestamp>,
    pub id: Option<String>,
    pub session_id: Option<String>,
    pub model: Option<String>,
    pub model_id: Option<String>,
    pub provider: Option<String>,
    pub payload: Payload,
    pub message: Option<PiMessage>,
}

/// What the parser carries from one record to the next.
pub struct ParserState {
    /// Bytes of the file consumed by complete records.
    pub offset: u64,
    pub unterminated: bool,
    pub line_number: u64,
    pub model: Option<String>,
    /// The model in force for each turn, latest entry first in authority.
    pub turn_models: Vec<(String, Option<String>)>,
    pub current_turn: String,
    pub previous: Option<Usage>,
    pub seen_totals: Vec<Usage>,
    pub has_turn_format: bool,
    pub subagent: bool,
    pub saw_session_meta: bool,
    pub session_id: Option<String>,
    pub parent: Option<String>,
    pub fork_time: Option<Timestamp>,
    pub owned_ordinal: Option<u64>,
    pub requires_replay: bool,
    pub owned_started: bool,
    pub local_baseline: bool,
    pub marker_event_count: Option<usize>,
    pub snapshots: Vec<(Timestamp, Usage)>,
    pub pi_provider: Option<String>,
    pub pi_model: Option<String>,
    pub pi_session: Option<String>,
    /// Started tasks not yet completed, at most one entry per turn.
    pub pending_tasks: Vec<(String, Timestamp)>,
}

// ---------------------------------------------------------------------------
// Mathematical model of the parser state and of a parsed file.

pub struct StateModel {
    pub offset: u64,
    pub unterminated: bool,
    pub line_number: u64,
    pub model: Option<Seq<char>>,
    pub turn_models: Seq<(Seq<char>, Option<Seq<char>>)>,
    pub current_turn: Seq<char>,
    pub previous: Option<Usage>,
    pub seen_totals: Seq<Usage>,
    pub has_turn_format: bool,
    pub subagent: bool,
    pub saw_session_meta: bool,
    pub session_id: Option<Seq<char>>,
    pub parent: Option<Seq<char>>,
    pub fork_time: Option<Timestamp>,
    pub owned_ordinal: Option<u64>,
    pub requires_replay: bool,
    pub owned_started: bool,
    pub local_baseline: bool,
    pub marker_event_count: Option<usize>,
    pub snapshots: Seq<(Timestamp, Usage)>,
    pub pi_provider: Option<Seq<char>>,
    pub pi_model: Option<Seq<char>>,
    pub pi_session: Option<Seq<char>>,
    pub pending_tasks: Seq<(Seq<char>, Timestamp)>,
}

pub struct ForkModel {
    pub parent: Seq<char>,
    pub cutoff: Timestamp,
    pub total: Usage,
    pub last: Option<Usage>,
    pub previous: Option<Usage>,
}

pub struct EventModel {
    pub key: Seq<char>,
    pub timestamp: Timestamp,
    pub model: Option<Seq<char>>,
    pub usage: Usage,
    pub request_count: Option<u64>,
    pub legacy_turn: Option<Seq<char>>,
    pub fork_baseline: Option<ForkModel>,
    pub codex_snapshot: Option<Snapshot>,
}

pub struct TaskModel {
    pub key: Seq<char>,
    pub started_at: Option<Timestamp>,
    pub completed_at: Timestamp,
    pub duration_sec: u64,
}

pub struct FileModel {
    pub events: Seq<EventModel>,
    pub turns: Seq<(Seq<char>, Timestamp)>,
    pub unknown_turns: Seq<Timestamp>,
    pub modern_turns: Seq<(Seq<char>, Timestamp)>,
    pub first_usage: Option<Timestamp>,
    pub malformed: bool,
    pub history: Option<(Option<Seq<char>>, Seq<(Timestamp, Usage)>)>,
    pub completed_tasks: Seq<TaskModel>,
}

pub open spec fn turn_model_pair(p: (String, Option<String>)) -> (Seq<char>, Option<Seq<char>>) {
    (p.0@, opt_view(p.1))
}

pub open spec fn pending_pair(p: (String, Timestamp)) -> (Seq<char>, Timestamp) {
    (p.0@, p.1)
}

pub open spec fn state_model(s: ParserState) -> StateModel {
    StateModel {
        offset: s.offset,
        unterminated: s.unterminated,
        line_number: s.line_number,
        model: opt_view(s.model),
        turn_models: s.turn_models@.map_values(|p: (String, Option<String>)| turn_model_pair(p)),
        current_turn: s.current_turn@,
        previous: s.previous,
        seen_totals: s.seen_totals@,
        has_turn_format: s.has_turn_format,
        subagent: s.subagent,
        saw_session_meta: s.saw_session_meta,
        session_id: opt_view(s.session_id),
        parent: opt_view(s.parent),
        fork_time: s.fork_time,
        owned_ordinal: s.owned_ordinal,
        requires_replay: s.requires_replay,
        owned_started: s.owned_started,
        local_baseline: s.local_baseline,
        marker_event_count: s.marker_event_count,
        snapshots: s.snapshots@,
        pi_provider: opt_view(s.pi_provider),
        pi_model: opt_view(s.pi_model),
        pi_session: opt_view(s.pi_session),
        pending_tasks: s.pending_tasks@.map_values(|p: (String, Timestamp)| pending_pair(p)),
    }
}

pub open spec fn fork_model(f: ForkBaseline) -> ForkModel {
    ForkModel { parent: f.parent@, cutoff: f.cutoff, total: f.total, last: f.last, previous: f.previous }
}

pub open spec fn event_model(e: Event) -> EventModel {
    EventModel {
        key: e.key@,
        timestamp: e.timestamp,
        model: opt_view(e.model),
        usage: e.usage,
        request_count: e.request_count,
        legacy_turn: opt_view(e.legacy_turn),
        fork_baseline: match e.fork_baseline {
            Some(f) => Some(fork_model(f)),
            None => None,
        },
        codex_snapshot: e.codex_snapshot,
    }
}

pub open spec fn turn_pair(t: Turn) -> (Seq<char>, Timestamp) {
    (t.key@, t.timestamp)
}

pub open spec fn task_model(t: CompletedTask) -> TaskModel {
    TaskModel { key: t.key@, started_at: t.started_at, completed_at: t.completed_at, duration_sec: t.duration_sec }
}

pub open spec fn file_model(f: ParsedFile) -> FileModel {
    FileModel {
        events: f.events@.map_values(|e: Event| event_model(e)),
        turns: f.turns@.map_values(|t: Turn| turn_pair(t)),
        unknown_turns: f.unknown_turns@,
        modern_turns: f.modern_turns@.map_values(|t: Turn| turn_pair(t)),
        first_usage: f.first_usage,
        malformed: f.malformed,
        history: match f.history {
            Some(h) => Some((opt_view(h.session_id), h.snapshots@)),
            None => None,
        },
        completed_tasks: f.completed_tasks@.map_values(|t: CompletedTask| task_model(t)),
    }
}

// ---------------------------------------------------------------------------
// What one record does.

/// The instant `secs` whole seconds after the epoch, where chrono represents it.
pub open spec fn secs_time(o: Option<i64>) -> Option<Timestamp> {
    match o {
        Some(s) => if spec_unix_seconds_in_range(s) { Some(Timestamp { secs: s, nanos: 0 }) } else { None },
        None => None,
    }
}

pub open spec fn or_else<T>(a: Option<T>, b: Option<T>) -> Option<T> {
    if a is Some { a } else { b }
}

/// The first piece of evidence that survives `clean`.
pub open spec fn evidence(a: Option<Seq<char>>, b: Option<Seq<char>>, c: Option<Seq<char>>, d: Option<Seq<char>>) -> Option<Seq<char>> {
    or_else(or_else(cleaned(a), cleaned(b)), or_else(cleaned(c), cleaned(d)))
}

pub open spec fn lower_opt(o: Option<Seq<char>>) -> Option<Seq<char>> {
    match o {
        Some(t) => Some(t.map_values(|c: char| ascii_lower(c))),
        None => None,
    }
}

/// The latest entry for key `k`.
pub open spec fn assoc_get<V>(s: Seq<(Seq<char>, V)>, k: Seq<char>) -> Option<V>
    decreases s.len(),
{
    if s.len() == 0 {
        None
    } else if s.last().0 == k {
        Some(s.last().1)
    } else {
        assoc_get(s.drop_last(), k)
    }
}

/// Every entry but those for key `k`, in order.
pub open spec fn assoc_without<V>(s: Seq<(Seq<char>, V)>, k: Seq<char>) -> Seq<(Seq<char>, V)>
    decreases s.len(),
{
    if s.len() == 0 {
        s
    } else if s.last().0 != k {
        assoc_without(s.drop_last(), k).push(s.last())
    } else {
        assoc_without(s.drop_last(), k)
    }
}

/// Whether turn `k` has a request record at or before `end`.
pub open spec fn any_pair(s: Seq<(Seq<char>, Timestamp)>, k: Seq<char>, end: Timestamp) -> bool {
    exists|i: int| 0 <= i < s.len() && (#[trigger] s[i]).0 == k && time_le(s[i].1, end)
}

pub open spec fn norm(raw: RawUsage) -> Usage {
    normalized_of(raw, ProviderId::Codex)
}

pub open spec fn norm_opt(raw: Option<RawUsage>) -> Option<Usage> {
    match raw {
        Some(r) => Some(norm(r)),
        None => None,
    }
}

/// The debug text of a usage value.
pub open spec fn usage_text(u: Usage) -> Seq<char> {
    "Usage { input: "@ + decimal(u.input as nat) + ", cached: "@ + decimal(u.cached as nat)
        + ", cache_write: "@ + decimal(u.cache_write as nat) + ", output: "@ + decimal(u.output as nat)
        + ", write_5m: "@ + decimal(u.write_5m as nat) + ", write_1h: "@ + decimal(u.write_1h as nat) + " }"@
}

pub open spec fn opt_usage_text(o: Option<Usage>) -> Seq<char> {
    match o {
        Some(u) => "Some("@ + usage_text(u) + ")"@,
        None => "None"@,
    }
}

pub open spec fn session_text(s: Option<Seq<char>>) -> Seq<char> {
    match s {
        Some(t) => t,
        None => "unknown"@,
    }
}

pub open spec fn add_event_model(f: FileModel, e: EventModel) -> FileModel {
    FileModel {
        first_usage: Some(match f.first_usage {
            Some(x) => time_min(x, e.timestamp),
            None => e.timestamp,
        }),
        events: f.events.push(e),
        ..f
    }
}

/// Every record of the file lies at or after its first usage.
pub open spec fn first_usage_precedes(f: FileModel) -> bool {
    forall|j: int| 0 <= j < f.events.len() ==> at_or_after(f.first_usage, #[trigger] f.events[j].timestamp)
}

/// The bound read on a parsed file is the bound read on its model.
pub proof fn lemma_first_usage_view(p: ParsedFile)
    ensures
        crate::statistics::laws::records_after_first_usage(p) == first_usage_precedes(file_model(p)),
{
    let f = file_model(p);
    assert(f.events.len() == p.events@.len());
    assert forall|j: int| 0 <= j < p.events@.len() implies
        (at_or_after(p.first_usage, #[trigger] p.events@[j].timestamp) == at_or_after(f.first_usage, f.events[j].timestamp)) by {
        assert(f.events[j] == event_model(p.events@[j]));
    }
    if first_usage_precedes(f) {
        assert forall|j: int| 0 <= j < p.events@.len() implies at_or_after(p.first_usage, #[trigger] p.events@[j].timestamp) by {
            assert(f.events[j] == event_model(p.events@[j]));
            assert(at_or_after(f.first_usage, f.events[j].timestamp));
        }
    }
    if crate::statistics::laws::records_after_first_usage(p) {
        assert forall|j: int| 0 <= j < f.events.len() implies at_or_after(f.first_usage, #[trigger] f.events[j].timestamp) by {
            assert(f.events[j] == event_model(p.events@[j]));
            assert(at_or_after(p.first_usage, p.events@[j].timestamp));
        }
    }
}

/// Adding a record keeps every record at or after the first usage.
pub proof fn lemma_add_event_keeps_first_usage(f: FileModel, e: EventModel)
    requires
        first_usage_precedes(f),
    ensures
        first_usage_precedes(add_event_model(f, e)),
{
    let g = add_event_model(f, e);
    assert forall|j: int| 0 <= j < g.events.len() implies at_or_after(g.first_usage, #[trigger] g.events[j].timestamp) by {
        if j < f.events.len() {
            assert(g.events[j] == f.events[j]);
            assert(at_or_after(f.first_usage, f.events[j].timestamp));
        }
    }
}

pub open spec fn request_event(key: Seq<char>, ts: Timestamp, model: Option<Seq<char>>, usage: Usage) -> EventModel {
    EventModel {
        key,
        timestamp: ts,
        model,
        usage,
        request_count: Some(1),
        legacy_turn: None,
        fork_baseline: None,
        codex_snapshot: None,
    }
}

pub open spec fn session_ids(r: Record) -> Option<Seq<char>> {
    or_else(
        or_else(cleaned(opt_view(r.payload.id)), cleaned(opt_view(r.payload.session_id))),
        or_else(cleaned(opt_view(r.id)), cleaned(opt_view(r.session_id))),
    )
}

/// Session metadata: the first record sets the session's identity, parent,
/// fork time and owned-history boundary; a later one for the same session
/// fills only what is still missing, and asks for a replay when it brings the
/// boundary.
pub open spec fn meta_step(m: StateModel, r: Record) -> StateModel {
    let p = r.payload;
    let id = session_ids(r);
    if !m.saw_session_meta {
        StateModel {
            saw_session_meta: true,
            session_id: id,
            subagent: p.source matches Some(src) && is_subagent_source(src),
            parent: cleaned(opt_view(p.forked_from_id)),
            fork_time: or_else(p.timestamp, r.timestamp),
            owned_ordinal: p.subagent_history_start_ordinal,
            ..m
        }
    } else if id is Some && id == m.session_id {
        let m1 = if m.parent is None { StateModel { parent: cleaned(opt_view(p.forked_from_id)), ..m } } else { m };
        if m1.owned_ordinal is None {
            StateModel {
                owned_ordinal: p.subagent_history_start_ordinal,
                requires_replay: p.subagent_history_start_ordinal is Some,
                ..m1
            }
        } else {
            m1
        }
    } else {
        m
    }
}

pub open spec fn payload_kind_is(r: Record, k: Seq<char>) -> bool {
    r.kind@ == "event_msg"@ && opt_view(r.payload.kind) == Some(k)
}

/// The instant a task event names for itself, in whole seconds.
pub open spec fn activity_time(r: Record) -> Option<Timestamp> {
    if payload_kind_is(r, "task_started"@) {
        secs_time(r.payload.started_at)
    } else if payload_kind_is(r, "task_complete"@) || payload_kind_is(r, "task_completed"@)
        || payload_kind_is(r, "turn_aborted"@) {
        secs_time(r.payload.completed_at)
    } else {
        None
    }
}

/// History copied from a parent: before the owned ordinal where one is known,
/// else, in a fork, before the fork time.
pub open spec fn is_inherited(m: StateModel, r: Record) -> bool {
    match m.owned_ordinal {
        Some(b) => match r.ordinal {
            None => true,
            Some(o) => o < b,
        },
        None => m.parent is Some && match (or_else(activity_time(r), r.timestamp), m.fork_time) {
            (Some(t), Some(f)) => time_lt(t, f),
            _ => false,
        },
    }
}

pub open spec fn inherited_total(p: Payload) -> Option<RawUsage> {
    or_else(p.thread_token_usage, match p.info {
        Some(i) => i.total_token_usage,
        None => None,
    })
}

/// The first owned record forgets the model evidence of copied history.
pub open spec fn owned_start(m: StateModel) -> StateModel {
    if m.owned_started {
        m
    } else if m.owned_ordinal is Some {
        StateModel { owned_started: true, model: None, turn_models: Seq::empty(), ..m }
    } else {
        StateModel { owned_started: true, ..m }
    }
}

pub open spec fn info_model(p: Payload) -> Option<Seq<char>> {
    match p.info {
        Some(i) => opt_view(i.model),
        None => None,
    }
}

pub open spec fn info_model_name(p: Payload) -> Option<Seq<char>> {
    match p.info {
        Some(i) => opt_view(i.model_name),
        None => None,
    }
}

/// A turn context sets the model in force (where it names any) and the current turn.
pub open spec fn context_step(m: StateModel, p: Payload) -> StateModel {
    let m1 = if p.model is Some || p.model_name is Some || info_model(p) is Some || info_model_name(p) is Some {
        StateModel {
            model: evidence(opt_view(p.model), opt_view(p.model_name), info_model(p), info_model_name(p)),
            ..m
        }
    } else {
        m
    };
    match cleaned(opt_view(p.turn_id)) {
        Some(t) => StateModel { current_turn: t, turn_models: m1.turn_models.push((t, m1.model)), ..m1 },
        None => m1,
    }
}

/// A task that completed or was aborted closes its pending start; a completed
/// one becomes a task where its duration can be known.
pub open spec fn task_end_step(m: StateModel, f: FileModel, r: Record, aborted: bool) -> (StateModel, FileModel) {
    let p = r.payload;
    if m.subagent {
        (m, f)
    } else {
        match cleaned(opt_view(p.turn_id)) {
            None => (m, f),
            Some(id) => {
                let pending = assoc_get(m.pending_tasks, id);
                let m1 = StateModel { pending_tasks: assoc_without(m.pending_tasks, id), ..m };
                if aborted {
                    (m1, f)
                } else {
                    let started_at = or_else(secs_time(p.started_at), pending);
                    match or_else(secs_time(p.completed_at), r.timestamp) {
                        None => (m1, f),
                        Some(c) => match crate::statistics::activity::task_duration(started_at, c, p.duration) {
                            None => (m1, f),
                            Some(d) => (m1, FileModel {
                                completed_tasks: f.completed_tasks.push(TaskModel {
                                    key: "codex-task:"@ + id,
                                    started_at,
                                    completed_at: c,
                                    duration_sec: d as u64,
                                }),
                                ..f
                            }),
                        },
                    }
                }
            },
        }
    }
}

/// A started task marks the turn format, opens the turn and, once, its pending start.
pub open spec fn start_step(m: StateModel, f: FileModel, p: Payload, ts: Timestamp) -> (StateModel, FileModel) {
    let m1 = StateModel { has_turn_format: true, ..m };
    if m.subagent {
        (m1, f)
    } else {
        match cleaned(opt_view(p.turn_id)) {
            Some(id) => {
                let st = match secs_time(p.started_at) {
                    Some(x) => x,
                    None => ts,
                };
                let pending = if assoc_get(m1.pending_tasks, id) is Some { m1.pending_tasks } else { m1.pending_tasks.push((id, st)) };
                (StateModel { current_turn: id, pending_tasks: pending, ..m1 },
                 FileModel { turns: f.turns.push(("codex-turn:"@ + id, st)), ..f })
            },
            None => (StateModel { has_turn_format: false, ..m1 }, f),
        }
    }
}

/// A request record counts its own usage once.
pub open spec fn modern_step(m: StateModel, f: FileModel, r: Record, ts: Timestamp, turn: Seq<char>, ctx: Option<Seq<char>>) -> (StateModel, FileModel) {
    let p = r.payload;
    match p.usage {
        None => (m, f),
        Some(raw) => {
            let usage = norm(raw);
            let f1 = FileModel { modern_turns: f.modern_turns.push((turn, ts)), ..f };
            let m1 = match p.thread_token_usage {
                Some(t) => StateModel { previous: Some(norm(t)), snapshots: m.snapshots.push((ts, norm(t))), ..m },
                None => m,
            };
            let key = match cleaned(opt_view(p.response_id)) {
                Some(id) => "codex-response:"@ + id,
                None => "codex-record:"@ + session_text(m1.session_id) + ":"@ + iso_key_text(ts) + ":"@ + usage_text(usage),
            };
            (m1, add_event_model(f1, request_event(key, ts, or_else(ctx, cleaned(opt_view(p.model))), usage)))
        },
    }
}

/// Whether a subagent's copied prefix ends here: the total less the last
/// request is the baseline seen so far, and the total moved on.
pub open spec fn prefix_ends(m: StateModel, total: Option<Usage>, last: Option<Usage>) -> bool {
    m.marker_event_count is Some && match (total, last) {
        (Some(t), Some(l)) => difference_of(t, l),
        _ => None,
    } == m.previous && total != m.previous
}

/// The usage a cumulative snapshot adds, or none for a stale repeat.
pub open spec fn snapshot_usage(total: Option<Usage>, last: Option<Usage>, previous: Option<Usage>) -> Option<Usage> {
    match (total, previous) {
        (Some(t), Some(pv)) => match difference_of(t, pv) {
            Some(d) => Some(d),
            None => if last == Some(t) { Some(t) } else { None },
        },
        (Some(t), None) => Some(match last {
            Some(l) => l,
            None => t,
        }),
        (None, _) => last,
    }
}

/// A legacy cumulative snapshot is recorded; where it closes a subagent's
/// copied prefix, the records kept so far are dropped as inherited.
pub open spec fn legacy_prefix(m: StateModel, f: FileModel, ts: Timestamp, total: Option<Usage>, last: Option<Usage>) -> (StateModel, FileModel) {
    let m1 = match total {
        Some(t) => StateModel { snapshots: m.snapshots.push((ts, t)), ..m },
        None => m,
    };
    if prefix_ends(m1, total, last) {
        (StateModel { local_baseline: true, marker_event_count: None, ..m1 },
         FileModel { events: f.events.skip(m1.marker_event_count->0 as int), modern_turns: Seq::empty(), ..f })
    } else {
        (m1, f)
    }
}

/// A confirmed counter reset forgets the totals seen; a total seen before is
/// not counted again.
pub open spec fn legacy_dedup(m: StateModel, f: FileModel, r: Record, info: Info, ts: Timestamp, turn: Seq<char>, ctx: Option<Seq<char>>, total: Option<Usage>, last: Option<Usage>) -> (StateModel, FileModel) {
    let reset = match (total, m.previous) {
        (Some(t), Some(pv)) => difference_of(t, pv) is None && last == Some(t),
        _ => false,
    };
    let m3 = if reset { StateModel { seen_totals: Seq::empty(), ..m } } else { m };
    if (total matches Some(t) && m3.seen_totals.contains(t)) {
        (m3, f)
    } else {
        let m4 = match total {
            Some(t) => StateModel { seen_totals: m3.seen_totals.push(t), ..m3 },
            None => m3,
        };
        legacy_emit(m4, f, r, info, ts, turn, ctx, total, last)
    }
}

/// The growth of a new snapshot becomes a record, unless it adds nothing.
pub open spec fn legacy_emit(m: StateModel, f: FileModel, r: Record, info: Info, ts: Timestamp, turn: Seq<char>, ctx: Option<Seq<char>>, total: Option<Usage>, last: Option<Usage>) -> (StateModel, FileModel) {
    let snapshot = match total {
        Some(t) => Some(Snapshot { total: t, previous: m.previous, last }),
        None => None,
    };
    match snapshot_usage(total, last, m.previous) {
        None => (m, f),
        Some(usage) => {
            let m5 = StateModel { previous: or_else(total, m.previous), ..m };
            if total_of(usage) == 0 {
                (m5, f)
            } else {
                let key = "codex-snapshot:"@ + session_text(m5.session_id) + ":"@ + iso_key_text(ts)
                    + ":"@ + opt_usage_text(total) + ":"@ + opt_usage_text(last);
                let fallback = evidence(opt_view(info.model), opt_view(info.model_name), opt_view(r.payload.model), opt_view(r.model));
                (m5, add_event_model(f, EventModel {
                    key,
                    timestamp: ts,
                    model: or_else(ctx, fallback),
                    usage,
                    request_count: if last == Some(usage) { Some(1) } else { None },
                    legacy_turn: Some(turn),
                    fork_baseline: None,
                    codex_snapshot: snapshot,
                }))
            }
        },
    }
}

/// A legacy cumulative snapshot: counted as the growth since the previous
/// total, unless a request record already covers its turn or its total was seen.
pub open spec fn legacy_step(m: StateModel, f: FileModel, r: Record, ts: Timestamp, turn: Seq<char>, ctx: Option<Seq<char>>) -> (StateModel, FileModel) {
    match r.payload.info {
        None => (m, f),
        Some(info) => {
            let total = norm_opt(info.total_token_usage);
            let last = norm_opt(info.last_token_usage);
            if total is None && last is None {
                (m, f)
            } else {
                let (m2, f2) = legacy_prefix(m, f, ts, total, last);
                if any_pair(f2.modern_turns, turn, ts) {
                    (StateModel { previous: or_else(total, m2.previous), ..m2 }, f2)
                } else {
                    legacy_dedup(m2, f2, r, info, ts, turn, ctx, total, last)
                }
            }
        },
    }
}

/// An owned Codex record after session metadata and inherited history.
pub open spec fn owned_step(m: StateModel, f: FileModel, r: Record) -> (StateModel, FileModel) {
    let p = r.payload;
    let k = r.kind@;
    if k == "inter_agent_communication_metadata"@ && p.trigger_turn == Some(true) && m.subagent && m.owned_ordinal is None {
        (StateModel { marker_event_count: Some(f.events.len() as usize), ..m }, f)
    } else if k == "turn_context"@ {
        (context_step(m, p), f)
    } else {
        let started = payload_kind_is(r, "task_started"@);
        let completed = payload_kind_is(r, "task_complete"@) || payload_kind_is(r, "task_completed"@);
        let aborted = payload_kind_is(r, "turn_aborted"@);
        let legacy = payload_kind_is(r, "token_count"@);
        let modern = k == "token_usage_record"@;
        if completed || aborted {
            task_end_step(m, f, r, aborted)
        } else if !started && !legacy && !modern {
            (m, f)
        } else {
            match r.timestamp {
                None => (m, FileModel { malformed: true, ..f }),
                Some(ts) => if started {
                    start_step(m, f, p, ts)
                } else {
                    let turn = match cleaned(opt_view(p.turn_id)) {
                        Some(t) => t,
                        None => m.current_turn,
                    };
                    let ctx = match assoc_get(m.turn_models, turn) {
                        Some(x) => x,
                        None => m.model,
                    };
                    if modern { modern_step(m, f, r, ts, turn, ctx) } else { legacy_step(m, f, r, ts, turn, ctx) }
                },
            }
        }
    }
}

pub open spec fn is_pi_kind(r: Record) -> bool {
    r.kind@ == "session"@ || r.kind@ == "model_change"@ || r.kind@ == "message"@
}

/// A Codex record.
pub open spec fn record_step(m: StateModel, f: FileModel, r: Record, path: Seq<char>) -> (StateModel, FileModel) {
    if is_pi_kind(r) {
        pi_step(m, f, r, path)
    } else if r.kind@ == "session_meta"@ {
        (meta_step(m, r), f)
    } else if is_inherited(m, r) {
        (match inherited_total(r.payload) {
            Some(t) => StateModel { previous: Some(norm(t)), local_baseline: true, ..m },
            None => m,
        }, f)
    } else {
        owned_step(owned_start(m), f, r)
    }
}

pub open spec fn pi_identity(m: StateModel, r: Record, path: Seq<char>) -> Seq<char> {
    match (m.pi_session, cleaned(opt_view(r.id))) {
        (Some(s), Some(id)) => "pi:"@ + s + ":"@ + id,
        _ => "pi-file:"@ + path + ":"@ + decimal(m.line_number as nat),
    }
}

pub open spec fn pi_usage(raw: PiUsage) -> Usage {
    Usage {
        input: sat(raw.input + raw.cached + raw.write),
        cached: raw.cached,
        cache_write: raw.write,
        output: raw.output,
        write_5m: 0,
        write_1h: 0,
    }
}

/// A pi-family record: session and model changes update the state; a message
/// of the Codex provider gives a user turn or an assistant request.
pub open spec fn pi_step(m: StateModel, f: FileModel, r: Record, path: Seq<char>) -> (StateModel, FileModel) {
    if r.kind@ == "session"@ {
        (if m.pi_session is None {
            StateModel { pi_session: or_else(cleaned(opt_view(r.id)), cleaned(opt_view(r.session_id))), ..m }
        } else {
            m
        }, f)
    } else if r.kind@ == "model_change"@ {
        (StateModel {
            pi_provider: lower_opt(cleaned(opt_view(r.provider))),
            pi_model: or_else(cleaned(opt_view(r.model_id)), cleaned(opt_view(r.model))),
            ..m
        }, f)
    } else {
        match r.message {
            None => (m, f),
            Some(msg) => {
                let explicit = lower_opt(or_else(cleaned(opt_view(msg.provider)), cleaned(opt_view(r.provider))));
                if or_else(explicit, m.pi_provider) != Some("openai-codex"@) {
                    (m, f)
                } else {
                    match or_else(r.timestamp, msg.timestamp) {
                        None => (m, if msg.usage is Some { FileModel { malformed: true, ..f } } else { f }),
                        Some(ts) => {
                            let identity = pi_identity(m, r, path);
                            let role = opt_view(msg.role);
                            if role == Some("user"@) {
                                (StateModel { has_turn_format: true, ..m },
                                 FileModel { turns: f.turns.push((identity + ":turn"@, ts)), ..f })
                            } else if role != Some("assistant"@) {
                                (m, f)
                            } else {
                                match msg.usage {
                                    None => (m, f),
                                    Some(raw) => {
                                        let model = match evidence(opt_view(msg.model), opt_view(r.model), opt_view(msg.model_id), opt_view(r.model_id)) {
                                            Some(x) => Some(x),
                                            None => if m.pi_provider == Some("openai-codex"@) { m.pi_model } else { None },
                                        };
                                        let usage = pi_usage(raw);
                                        if total_of(usage) == 0 {
                                            (m, f)
                                        } else {
                                            (m, add_event_model(f, request_event(identity, ts, model, usage)))
                                        }
                                    },
                                }
                            }
                        },
                    }
                }
            },
        }
    }
}

// ---------------------------------------------------------------------------
// Lookups in the parser's small association lists.

proof fn lemma_assoc_get_prefix<V>(s: Seq<(Seq<char>, V)>, i: int, k: Seq<char>)
    requires
        0 <= i <= s.len(),
        forall|j: int| i <= j < s.len() ==> (#[trigger] s[j]).0 != k,
    ensures
        assoc_get(s, k) == assoc_get(s.subrange(0, i), k),
    decreases s.len(),
{
    if s.len() > i {
        assert(s.drop_last().subrange(0, i) =~= s.subrange(0, i));
        lemma_assoc_get_prefix(s.drop_last(), i, k);
    } else {
        assert(s.subrange(0, i) =~= s);
    }
}

fn model_for_turn(v: &Vec<(String, Option<String>)>, k: &str) -> (r: Option<Option<String>>)
    ensures
        match r {
            Some(x) => assoc_get(v@.map_values(|p: (String, Option<String>)| turn_model_pair(p)), k@) == Some(opt_view(x)),
            None => assoc_get(v@.map_values(|p: (String, Option<String>)| turn_model_pair(p)), k@) is None,
        },
{
    let ghost full = v@.map_values(|p: (String, Option<String>)| turn_model_pair(p));
    let mut i: usize = v.len();
    while i > 0
        invariant
            i <= v.len(),
            full == v@.map_values(|p: (String, Option<String>)| turn_model_pair(p)),
            forall|j: int| i <= j < full.len() ==> (#[trigger] full[j]).0 != k@,
        decreases i,
    {
        i = i - 1;
        if crate::text::str_eq(v[i].0.as_str(), k) {
            proof {
                lemma_assoc_get_prefix(full, i + 1, k@);
                assert(full.subrange(0, i + 1).last() == full[i as int]);
            }
            return Some(crate::statistics::records::copy_text(&v[i].1));
        }
    }
    proof {
        lemma_assoc_get_prefix(full, 0, k@);
    }
    None
}

fn pending_for(v: &Vec<(String, Timestamp)>, k: &str) -> (r: Option<Timestamp>)
    ensures
        r == assoc_get(v@.map_values(|p: (String, Timestamp)| pending_pair(p)), k@),
{
    let ghost full = v@.map_values(|p: (String, Timestamp)| pending_pair(p));
    let mut i: usize = v.len();
    while i > 0
        invariant
            i <= v.len(),
            full == v@.map_values(|p: (String, Timestamp)| pending_pair(p)),
            forall|j: int| i <= j < full.len() ==> (#[trigger] full[j]).0 != k@,
        decreases i,
    {
        i = i - 1;
        if crate::text::str_eq(v[i].0.as_str(), k) {
            proof {
                lemma_assoc_get_prefix(full, i + 1, k@);
                assert(full.subrange(0, i + 1).last() == full[i as int]);
            }
            return Some(v[i].1);
        }
    }
    proof {
        lemma_assoc_get_prefix(full, 0, k@);
    }
    None
}

fn pending_without(v: &Vec<(String, Timestamp)>, k: &str) -> (r: Vec<(String, Timestamp)>)
    requires
        forall|i: int| 0 <= i < v@.len() ==> wf_time((#[trigger] v@[i]).1),
    ensures
        r@.map_values(|p: (String, Timestamp)| pending_pair(p))
            == assoc_without(v@.map_values(|p: (String, Timestamp)| pending_pair(p)), k@),
        forall|j: int| 0 <= j < r@.len() ==> wf_time((#[trigger] r@[j]).1),
{
    let ghost full = v@.map_values(|p: (String, Timestamp)| pending_pair(p));
    let mut out: Vec<(String, Timestamp)> = Vec::new();
    let mut i: usize = 0;
    while i < v.len()
        invariant
            i <= v.len(),
            full == v@.map_values(|p: (String, Timestamp)| pending_pair(p)),
            out@.map_values(|p: (String, Timestamp)| pending_pair(p)) == assoc_without(full.subrange(0, i as int), k@),
            forall|j: int| 0 <= j < out@.len() ==> wf_time((#[trigger] out@[j]).1),
            forall|m: int| 0 <= m < v@.len() ==> wf_time((#[trigger] v@[m]).1),
        decreases v.len() - i,
    {
        assert(full.subrange(0, i + 1).drop_last() =~= full.subrange(0, i as int));
        if !crate::text::str_eq(v[i].0.as_str(), k) {
            let ghost before = out@;
            out.push((v[i].0.clone(), v[i].1));
            proof {
                assert(out@.map_values(|p: (String, Timestamp)| pending_pair(p))
                    =~= before.map_values(|p: (String, Timestamp)| pending_pair(p)).push(full[i as int]));
                assert forall|j: int| 0 <= j < out@.len() implies wf_time((#[trigger] out@[j]).1) by {
                    if j < out@.len() - 1 {
                        assert(out@[j] == before[j]);
                    }
                }
            }
        }
        i = i + 1;
    }
    assert(full.subrange(0, v.len() as int) =~= full);
    out
}

fn contains_usage(v: &Vec<Usage>, u: Usage) -> (found: bool)
    ensures
        found == v@.contains(u),
{
    let mut i: usize = 0;
    while i < v.len()
        invariant
            i <= v.len(),
            forall|j: int| 0 <= j < i ==> v@[j] != u,
        decreases v.len() - i,
    {
        if v[i] == u {
            return true;
        }
        i = i + 1;
    }
    false
}

fn any_modern(v: &Vec<Turn>, k: &str, end: Timestamp) -> (found: bool)
    ensures
        found == any_pair(v@.map_values(|t: Turn| turn_pair(t)), k@, end),
{
    let ghost full = v@.map_values(|t: Turn| turn_pair(t));
    let mut i: usize = 0;
    while i < v.len()
        invariant
            i <= v.len(),
            full == v@.map_values(|t: Turn| turn_pair(t)),
            forall|j: int| 0 <= j < i ==> !((#[trigger] full[j]).0 == k@ && time_le(full[j].1, end)),
        decreases v.len() - i,
    {
        if crate::text::str_eq(v[i].key.as_str(), k) && crate::time::le(v[i].timestamp, end) {
            assert(full[i as int].0 == k@ && time_le(full[i as int].1, end));
            return true;
        }
        i = i + 1;
    }
    false
}

fn same_opt(a: &Option<String>, b: &Option<String>) -> (r: bool)
    ensures
        r == (opt_view(*a) == opt_view(*b)),
{
    match (a, b) {
        (Some(x), Some(y)) => crate::text::str_eq(x.as_str(), y.as_str()),
        (None, None) => true,
        _ => false,
    }
}

fn or_text(a: Option<String>, b: Option<String>) -> (r: Option<String>)
    ensures
        opt_view(r) == or_else(opt_view(a), opt_view(b)),
{
    if a.is_some() { a } else { b }
}

/// The first of four pieces of model evidence that is not blank, trimmed.
pub fn model_evidence(a: &Option<String>, b: &Option<String>, c: &Option<String>, d: &Option<String>) -> (r: Option<String>)
    ensures
        opt_view(r) == evidence(opt_view(*a), opt_view(*b), opt_view(*c), opt_view(*d)),
{
    let x = crate::text::clean(a);
    if x.is_some() {
        return x;
    }
    let y = crate::text::clean(b);
    if y.is_some() {
        return y;
    }
    let z = crate::text::clean(c);
    if z.is_some() {
        return z;
    }
    crate::text::clean(d)
}

fn lower_text(o: Option<String>) -> (r: Option<String>)
    ensures
        opt_view(r) == lower_opt(opt_view(o)),
{
    match o {
        Some(t) => Some(crate::text::ascii_lowercase(t.as_str())),
        None => None,
    }
}

fn secs_time_of(o: Option<i64>) -> (t: Option<Timestamp>)
    ensures
        t == secs_time(o),
        t matches Some(v) ==> wf_time(v),
{
    match o {
        Some(s) => crate::time::from_unix_seconds(s),
        None => None,
    }
}

fn push_usage_text(s: &mut String, u: Usage)
    ensures
        final(s)@ == old(s)@ + usage_text(u),
{
    s.append("Usage { input: ");
    crate::text::push_decimal(s, u.input);
    s.append(", cached: ");
    crate::text::push_decimal(s, u.cached);
    s.append(", cache_write: ");
    crate::text::push_decimal(s, u.cache_write);
    s.append(", output: ");
    crate::text::push_decimal(s, u.output);
    s.append(", write_5m: ");
    crate::text::push_decimal(s, u.write_5m);
    s.append(", write_1h: ");
    crate::text::push_decimal(s, u.write_1h);
    s.append(" }");
    assert(final(s)@ =~= old(s)@ + usage_text(u));
}

fn push_opt_usage_text(s: &mut String, o: Option<Usage>)
    ensures
        final(s)@ == old(s)@ + opt_usage_text(o),
{
    match o {
        Some(u) => {
            s.append("Some(");
            push_usage_text(s, u);
            s.append(")");
        },
        None => {
            s.append("None");
        },
    }
    assert(final(s)@ =~= old(s)@ + opt_usage_text(o));
}

fn push_session_text(s: &mut String, id: &Option<String>)
    ensures
        final(s)@ == old(s)@ + session_text(opt_view(*id)),
{
    match id {
        Some(t) => s.append(t.as_str()),
        None => s.append("unknown"),
    }
}

fn prefixed(prefix: &str, text: &str) -> (r: String)
    ensures
        r@ == prefix@ + text@,
{
    let mut r = String::from_str(prefix);
    r.append(text);
    r
}

// ---------------------------------------------------------------------------
// The parser.

/// What the parser keeps true between records: a pending prefix never
/// exceeds the records kept, and pending task starts are valid instants.
pub open spec fn state_ok(s: ParserState, f: ParsedFile) -> bool {
    &&& (s.marker_event_count matches Some(c) ==> c <= f.events@.len())
    &&& forall|i: int| 0 <= i < s.pending_tasks@.len() ==> wf_time((#[trigger] s.pending_tasks@[i]).1)
}

/// The record's instants are valid.
pub open spec fn record_ok(r: Record) -> bool {
    &&& (r.timestamp matches Some(t) ==> wf_time(t))
    &&& (r.payload.timestamp matches Some(t) ==> wf_time(t))
}

fn session_ids_of(r: &Record) -> (id: Option<String>)
    ensures
        opt_view(id) == session_ids(*r),
{
    let a = crate::text::clean(&r.payload.id);
    if a.is_some() {
        return a;
    }
    let b = crate::text::clean(&r.payload.session_id);
    if b.is_some() {
        return b;
    }
    let c = crate::text::clean(&r.id);
    if c.is_some() {
        return c;
    }
    crate::text::clean(&r.session_id)
}

fn meta_record(r: &Record, state: &mut ParserState)
    ensures
        final(state).pending_tasks@ == old(state).pending_tasks@,
        final(state).marker_event_count == old(state).marker_event_count,
        state_model(*final(state)) == meta_step(state_model(*old(state)), *r),
{
    let p = &r.payload;
    let id = session_ids_of(r);
    if !state.saw_session_meta {
        state.saw_session_meta = true;
        state.session_id = id;
        state.subagent = match &p.source {
            Some(src) => src.is_subagent(),
            None => false,
        };
        state.parent = crate::text::clean(&p.forked_from_id);
        state.fork_time = match p.timestamp {
            Some(t) => Some(t),
            None => r.timestamp,
        };
        state.owned_ordinal = p.subagent_history_start_ordinal;
    } else if id.is_some() && same_opt(&id, &state.session_id) {
        if state.parent.is_none() {
            state.parent = crate::text::clean(&p.forked_from_id);
        }
        if state.owned_ordinal.is_none() {
            state.owned_ordinal = p.subagent_history_start_ordinal;
            state.requires_replay = state.owned_ordinal.is_some();
        }
    }
}

fn payload_kind(r: &Record, k: &str) -> (b: bool)
    ensures
        b == payload_kind_is(*r, k@),
{
    crate::text::str_eq(r.kind.as_str(), "event_msg") && crate::statistics::records::same_text(&r.payload.kind, k)
}

fn activity_time_of(r: &Record) -> (t: Option<Timestamp>)
    ensures
        t == activity_time(*r),
{
    if payload_kind(r, "task_started") {
        secs_time_of(r.payload.started_at)
    } else if payload_kind(r, "task_complete") || payload_kind(r, "task_completed") || payload_kind(r, "turn_aborted") {
        secs_time_of(r.payload.completed_at)
    } else {
        None
    }
}

fn inherited(r: &Record, state: &ParserState) -> (b: bool)
    ensures
        b == is_inherited(state_model(*state), *r),
{
    match state.owned_ordinal {
        Some(boundary) => match r.ordinal {
            None => true,
            Some(o) => o < boundary,
        },
        None => {
            if state.parent.is_none() {
                return false;
            }
            let at = match activity_time_of(r) {
                Some(t) => Some(t),
                None => r.timestamp,
            };
            match (at, state.fork_time) {
                (Some(t), Some(f)) => crate::time::lt(t, f),
                _ => false,
            }
        },
    }
}

fn start_owned(state: &mut ParserState)
    ensures
        final(state).pending_tasks@ == old(state).pending_tasks@,
        final(state).marker_event_count == old(state).marker_event_count,
        state_model(*final(state)) == owned_start(state_model(*old(state))),
{
    if !state.owned_started {
        state.owned_started = true;
        if state.owned_ordinal.is_some() {
            state.model = None;
            state.turn_models.clear();
            assert(state_model(*state).turn_models =~= Seq::empty());
        }
    }
}

fn context_record(p: &Payload, state: &mut ParserState)
    ensures
        final(state).pending_tasks@ == old(state).pending_tasks@,
        final(state).marker_event_count == old(state).marker_event_count,
        state_model(*final(state)) == context_step(state_model(*old(state)), *p),
{
    let (im, imn) = match &p.info {
        Some(i) => (crate::statistics::records::copy_text(&i.model), crate::statistics::records::copy_text(&i.model_name)),
        None => (None, None),
    };
    if p.model.is_some() || p.model_name.is_some() || im.is_some() || imn.is_some() {
        state.model = model_evidence(&p.model, &p.model_name, &im, &imn);
    }
    let ghost mid = state_model(*state);
    if let Some(t) = crate::text::clean(&p.turn_id) {
        state.current_turn = t.clone();
        let m = crate::statistics::records::copy_text(&state.model);
        state.turn_models.push((t, m));
        assert(state_model(*state).turn_models =~= mid.turn_models.push((t@, mid.model)));
    }
}

fn task_end_record(r: &Record, aborted: bool, state: &mut ParserState, parsed: &mut ParsedFile)
    requires
        state_ok(*old(state), *old(parsed)),
        record_ok(*r),
    ensures
        state_ok(*final(state), *final(parsed)),
        (state_model(*final(state)), file_model(*final(parsed)))
            == task_end_step(state_model(*old(state)), file_model(*old(parsed)), *r, aborted),
{
    let p = &r.payload;
    if state.subagent {
        return;
    }
    let id = match crate::text::clean(&p.turn_id) {
        Some(id) => id,
        None => { return; },
    };
    let pending = pending_for(&state.pending_tasks, id.as_str());
    let remaining = pending_without(&state.pending_tasks, id.as_str());
    state.pending_tasks = remaining;
    if aborted {
        return;
    }
    let started_at = match secs_time_of(p.started_at) {
        Some(t) => Some(t),
        None => pending,
    };
    let completed_at = match secs_time_of(p.completed_at) {
        Some(t) => t,
        None => match r.timestamp {
            Some(t) => t,
            None => { return; },
        },
    };
    proof {
        if pending is Some {
            let full = old(state).pending_tasks@.map_values(|q: (String, Timestamp)| pending_pair(q));
            assert forall|i: int| 0 <= i < full.len() implies wf_time((#[trigger] full[i]).1) by {
                assert(full[i].1 == old(state).pending_tasks@[i].1);
            }
            lemma_assoc_get_wf(full, id@);
        }
    }
    let key = prefixed("codex-task:", id.as_str());
    match CompletedTask::new(key, started_at, completed_at, p.duration) {
        Some(task) => {
            let ghost before = parsed.completed_tasks@;
            parsed.completed_tasks.push(task);
            assert(file_model(*parsed).completed_tasks =~= before.map_values(|t: CompletedTask| task_model(t)).push(task_model(task)));
        },
        None => {},
    }
}

proof fn lemma_assoc_get_wf(s: Seq<(Seq<char>, Timestamp)>, k: Seq<char>)
    requires
        forall|i: int| 0 <= i < s.len() ==> wf_time((#[trigger] s[i]).1),
    ensures
        assoc_get(s, k) matches Some(t) ==> wf_time(t),
    decreases s.len(),
{
    if s.len() > 0 {
        assert(wf_time(s[s.len() - 1].1));
        lemma_assoc_get_wf(s.drop_last(), k);
    }
}

fn start_record(p: &Payload, ts: Timestamp, state: &mut ParserState, parsed: &mut ParsedFile)
    requires
        state_ok(*old(state), *old(parsed)),
        wf_time(ts),
    ensures
        state_ok(*final(state), *final(parsed)),
        (state_model(*final(state)), file_model(*final(parsed)))
            == start_step(state_model(*old(state)), file_model(*old(parsed)), *p, ts),
{
    state.has_turn_format = true;
    if state.subagent {
        return;
    }
    match crate::text::clean(&p.turn_id) {
        Some(id) => {
            state.current_turn = id.clone();
            let started_at = match secs_time_of(p.started_at) {
                Some(t) => t,
                None => ts,
            };
            let ghost mid = state_model(*state);
            if pending_for(&state.pending_tasks, id.as_str()).is_none() {
                let ghost pend = state.pending_tasks@;
                state.pending_tasks.push((id.clone(), started_at));
                assert(state_model(*state).pending_tasks =~= mid.pending_tasks.push((id@, started_at)));
                assert forall|i: int| 0 <= i < state.pending_tasks@.len() implies wf_time((#[trigger] state.pending_tasks@[i]).1) by {
                    if i < pend.len() {
                        assert(state.pending_tasks@[i] == pend[i]);
                    }
                }
            }
            let ghost turns = parsed.turns@;
            let key = prefixed("codex-turn:", id.as_str());
            parsed.turns.push(Turn { key, timestamp: started_at });
            assert(file_model(*parsed).turns =~= turns.map_values(|t: Turn| turn_pair(t)).push(("codex-turn:"@ + id@, started_at)));
        },
        None => {
            state.has_turn_format = false;
        },
    }
}

/// Appends a counted record and keeps the earliest usage time.
pub fn add_event(parsed: &mut ParsedFile, event: Event)
    ensures
        file_model(*final(parsed)) == add_event_model(file_model(*old(parsed)), event_model(event)),
        final(parsed).events@ == old(parsed).events@.push(event),
{
    parsed.first_usage = Some(match parsed.first_usage {
        Some(x) => crate::time::min_time(x, event.timestamp),
        None => event.timestamp,
    });
    let ghost before = parsed.events@;
    parsed.events.push(event);
    assert(file_model(*parsed).events =~= before.map_values(|e: Event| event_model(e)).push(event_model(event)));
}

fn modern_record(r: &Record, ts: Timestamp, turn: String, ctx: Option<String>, state: &mut ParserState, parsed: &mut ParsedFile)
    requires
        state_ok(*old(state), *old(parsed)),
    ensures
        state_ok(*final(state), *final(parsed)),
        (state_model(*final(state)), file_model(*final(parsed)))
            == modern_step(state_model(*old(state)), file_model(*old(parsed)), *r, ts, turn@, opt_view(ctx)),
{
    let p = &r.payload;
    let raw = match p.usage {
        Some(raw) => raw,
        None => { return; },
    };
    let usage = raw.normalize(ProviderId::Codex);
    let ghost modern = parsed.modern_turns@;
    parsed.modern_turns.push(Turn { key: turn, timestamp: ts });
    assert(file_model(*parsed).modern_turns =~= modern.map_values(|t: Turn| turn_pair(t)).push((turn@, ts)));
    if let Some(t) = p.thread_token_usage {
        let total = t.normalize(ProviderId::Codex);
        state.previous = Some(total);
        let ghost snaps = state.snapshots@;
        state.snapshots.push((ts, total));
        assert(state.snapshots@ =~= snaps.push((ts, total)));
    }
    let key = match crate::text::clean(&p.response_id) {
        Some(id) => prefixed("codex-response:", id.as_str()),
        None => {
            let mut k = String::from_str("codex-record:");
            push_session_text(&mut k, &state.session_id);
            k.append(":");
            let iso = crate::time::iso_key(ts);
            k.append(iso.as_str());
            k.append(":");
            push_usage_text(&mut k, usage);
            assert(k@ =~= "codex-record:"@ + session_text(opt_view(state.session_id)) + ":"@ + iso_key_text(ts) + ":"@ + usage_text(usage));
            k
        },
    };
    let model = match ctx {
        Some(m) => Some(m),
        None => crate::text::clean(&p.model),
    };
    add_event(parsed, Event {
        key,
        timestamp: ts,
        model,
        usage,
        request_count: Some(1),
        legacy_turn: None,
        fork_baseline: None,
        codex_snapshot: None,
    });
}

fn same_usage(a: Option<Usage>, b: Option<Usage>) -> (r: bool)
    ensures
        r == (a == b),
{
    match (a, b) {
        (Some(x), Some(y)) => x == y,
        (None, None) => true,
        _ => false,
    }
}

fn or_usage(a: Option<Usage>, b: Option<Usage>) -> (r: Option<Usage>)
    ensures
        r == or_else(a, b),
{
    if a.is_some() { a } else { b }
}

/// Codex usage in the normalized shape.
pub fn normalized(raw: RawUsage) -> (u: Usage)
    ensures
        u == norm(raw),
{
    raw.normalize(ProviderId::Codex)
}

fn normalized_opt(raw: Option<RawUsage>) -> (u: Option<Usage>)
    ensures
        u == norm_opt(raw),
{
    match raw {
        Some(r) => Some(normalized(r)),
        None => None,
    }
}

fn legacy_prefix_record(ts: Timestamp, total: Option<Usage>, last: Option<Usage>, state: &mut ParserState, parsed: &mut ParsedFile)
    requires
        state_ok(*old(state), *old(parsed)),
    ensures
        state_ok(*final(state), *final(parsed)),
        (state_model(*final(state)), file_model(*final(parsed)))
            == legacy_prefix(state_model(*old(state)), file_model(*old(parsed)), ts, total, last),
{
    if let Some(t) = total {
        let ghost snaps = state.snapshots@;
        state.snapshots.push((ts, t));
        assert(state.snapshots@ =~= snaps.push((ts, t)));
    }
    let ghost f0 = file_model(*parsed);
    if let Some(c) = state.marker_event_count {
        let d = match (total, last) {
            (Some(t), Some(l)) => t.difference(l),
            _ => None,
        };
        if same_usage(d, state.previous) && !same_usage(total, state.previous) {
            let rest = parsed.events.split_off(c);
            parsed.events = rest;
            parsed.modern_turns.clear();
            state.local_baseline = true;
            state.marker_event_count = None;
            assert(file_model(*parsed).events =~= f0.events.skip(c as int));
            assert(file_model(*parsed).modern_turns =~= Seq::empty());
        }
    }
}

fn legacy_emit_record(r: &Record, info: &Info, ts: Timestamp, turn: String, ctx: Option<String>, total: Option<Usage>, last: Option<Usage>, state: &mut ParserState, parsed: &mut ParsedFile)
    requires
        state_ok(*old(state), *old(parsed)),
    ensures
        state_ok(*final(state), *final(parsed)),
        (state_model(*final(state)), file_model(*final(parsed)))
            == legacy_emit(state_model(*old(state)), file_model(*old(parsed)), *r, *info, ts, turn@, opt_view(ctx), total, last),
{
    let snapshot = match total {
        Some(t) => Some(Snapshot { total: t, previous: state.previous, last }),
        None => None,
    };
    let usage = match (total, state.previous) {
        (Some(t), Some(pv)) => match t.difference(pv) {
            Some(d) => d,
            None => if same_usage(last, Some(t)) { t } else { return; },
        },
        (Some(t), None) => match last {
            Some(l) => l,
            None => t,
        },
        (None, _) => match last {
            Some(l) => l,
            None => { return; },
        },
    };
    state.previous = or_usage(total, state.previous);
    if usage.total() == 0 {
        return;
    }
    let fallback = model_evidence(&info.model, &info.model_name, &r.payload.model, &r.model);
    let mut key = String::from_str("codex-snapshot:");
    push_session_text(&mut key, &state.session_id);
    key.append(":");
    let iso = crate::time::iso_key(ts);
    key.append(iso.as_str());
    key.append(":");
    push_opt_usage_text(&mut key, total);
    key.append(":");
    push_opt_usage_text(&mut key, last);
    assert(key@ =~= "codex-snapshot:"@ + session_text(opt_view(state.session_id)) + ":"@ + iso_key_text(ts)
        + ":"@ + opt_usage_text(total) + ":"@ + opt_usage_text(last));
    let request_count = if same_usage(last, Some(usage)) { Some(1u64) } else { None };
    add_event(parsed, Event {
        key,
        timestamp: ts,
        model: or_text(ctx, fallback),
        usage,
        request_count,
        legacy_turn: Some(turn),
        fork_baseline: None,
        codex_snapshot: snapshot,
    });
}

fn legacy_dedup_record(r: &Record, info: &Info, ts: Timestamp, turn: String, ctx: Option<String>, total: Option<Usage>, last: Option<Usage>, state: &mut ParserState, parsed: &mut ParsedFile)
    requires
        state_ok(*old(state), *old(parsed)),
    ensures
        state_ok(*final(state), *final(parsed)),
        (state_model(*final(state)), file_model(*final(parsed)))
            == legacy_dedup(state_model(*old(state)), file_model(*old(parsed)), *r, *info, ts, turn@, opt_view(ctx), total, last),
{
    let reset = match (total, state.previous) {
        (Some(t), Some(pv)) => t.difference(pv).is_none() && same_usage(last, Some(t)),
        _ => false,
    };
    if reset {
        state.seen_totals.clear();
        assert(state.seen_totals@ =~= Seq::empty());
    }
    if let Some(t) = total {
        if contains_usage(&state.seen_totals, t) {
            return;
        }
        let ghost seen = state.seen_totals@;
        state.seen_totals.push(t);
        assert(state.seen_totals@ =~= seen.push(t));
    }
    legacy_emit_record(r, info, ts, turn, ctx, total, last, state, parsed);
}

fn legacy_record(r: &Record, ts: Timestamp, turn: String, ctx: Option<String>, state: &mut ParserState, parsed: &mut ParsedFile)
    requires
        state_ok(*old(state), *old(parsed)),
    ensures
        state_ok(*final(state), *final(parsed)),
        (state_model(*final(state)), file_model(*final(parsed)))
            == legacy_step(state_model(*old(state)), file_model(*old(parsed)), *r, ts, turn@, opt_view(ctx)),
{
    let info = match &r.payload.info {
        Some(i) => i,
        None => { return; },
    };
    let total = normalized_opt(info.total_token_usage);
    let last = normalized_opt(info.last_token_usage);
    if total.is_none() && last.is_none() {
        return;
    }
    legacy_prefix_record(ts, total, last, state, parsed);
    if any_modern(&parsed.modern_turns, turn.as_str(), ts) {
        state.previous = or_usage(total, state.previous);
        return;
    }
    legacy_dedup_record(r, info, ts, turn, ctx, total, last, state, parsed);
}

fn pi_record(r: &Record, state: &mut ParserState, parsed: &mut ParsedFile, path: &str)
    requires
        state_ok(*old(state), *old(parsed)),
    ensures
        state_ok(*final(state), *final(parsed)),
        (state_model(*final(state)), file_model(*final(parsed)))
            == pi_step(state_model(*old(state)), file_model(*old(parsed)), *r, path@),
{
    if crate::text::str_eq(r.kind.as_str(), "session") {
        if state.pi_session.is_none() {
            state.pi_session = or_text(crate::text::clean(&r.id), crate::text::clean(&r.session_id));
        }
        return;
    }
    if crate::text::str_eq(r.kind.as_str(), "model_change") {
        state.pi_provider = lower_text(crate::text::clean(&r.provider));
        state.pi_model = or_text(crate::text::clean(&r.model_id), crate::text::clean(&r.model));
        return;
    }
    let msg = match &r.message {
        Some(m) => m,
        None => { return; },
    };
    let explicit = lower_text(or_text(crate::text::clean(&msg.provider), crate::text::clean(&r.provider)));
    let codex_provider = match &explicit {
        Some(e) => crate::text::str_eq(e.as_str(), "openai-codex"),
        None => crate::statistics::records::same_text(&state.pi_provider, "openai-codex"),
    };
    if !codex_provider {
        return;
    }
    let ts = match r.timestamp {
        Some(t) => t,
        None => match msg.timestamp {
            Some(t) => t,
            None => {
                if msg.usage.is_some() {
                    parsed.malformed = true;
                }
                return;
            },
        },
    };
    let clean_id = crate::text::clean(&r.id);
    let identity = match (&state.pi_session, &clean_id) {
        (Some(session), Some(id)) => {
            let mut k = String::from_str("pi:");
            k.append(session.as_str());
            k.append(":");
            k.append(id.as_str());
            k
        },
        _ => {
            let mut k = String::from_str("pi-file:");
            k.append(path);
            k.append(":");
            crate::text::push_decimal(&mut k, state.line_number);
            k
        },
    };
    assert(identity@ =~= pi_identity(state_model(*old(state)), *r, path@));
    if crate::statistics::records::same_text(&msg.role, "user") {
        state.has_turn_format = true;
        let ghost turns = parsed.turns@;
        let mut key = identity;
        key.append(":turn");
        parsed.turns.push(Turn { key, timestamp: ts });
        assert(file_model(*parsed).turns =~= turns.map_values(|t: Turn| turn_pair(t)).push((identity@ + ":turn"@, ts)));
        return;
    }
    if !crate::statistics::records::same_text(&msg.role, "assistant") {
        return;
    }
    let raw = match msg.usage {
        Some(u) => u,
        None => { return; },
    };
    let evidence_model = model_evidence(&msg.model, &r.model, &msg.model_id, &r.model_id);
    let model = match evidence_model {
        Some(x) => Some(x),
        None => if crate::statistics::records::same_text(&state.pi_provider, "openai-codex") {
            crate::statistics::records::copy_text(&state.pi_model)
        } else {
            None
        },
    };
    let usage = Usage {
        input: raw.input.saturating_add(raw.cached).saturating_add(raw.write),
        cached: raw.cached,
        cache_write: raw.write,
        output: raw.output,
        write_5m: 0,
        write_1h: 0,
    };
    assert(usage == pi_usage(raw));
    if usage.total() == 0 {
        return;
    }
    add_event(parsed, Event {
        key: identity,
        timestamp: ts,
        model,
        usage,
        request_count: Some(1),
        legacy_turn: None,
        fork_baseline: None,
        codex_snapshot: None,
    });
}

fn owned_record(r: &Record, state: &mut ParserState, parsed: &mut ParsedFile)
    requires
        state_ok(*old(state), *old(parsed)),
        record_ok(*r),
    ensures
        state_ok(*final(state), *final(parsed)),
        (state_model(*final(state)), file_model(*final(parsed)))
            == owned_step(state_model(*old(state)), file_model(*old(parsed)), *r),
{
    let p = &r.payload;
    if crate::text::str_eq(r.kind.as_str(), "inter_agent_communication_metadata")
        && matches!(p.trigger_turn, Some(true)) && state.subagent && state.owned_ordinal.is_none() {
        state.marker_event_count = Some(parsed.events.len());
        return;
    }
    if crate::text::str_eq(r.kind.as_str(), "turn_context") {
        context_record(p, state);
        return;
    }
    let started = payload_kind(r, "task_started");
    let completed = payload_kind(r, "task_complete") || payload_kind(r, "task_completed");
    let aborted = payload_kind(r, "turn_aborted");
    let legacy = payload_kind(r, "token_count");
    let modern = crate::text::str_eq(r.kind.as_str(), "token_usage_record");
    if completed || aborted {
        task_end_record(r, aborted, state, parsed);
        return;
    }
    if !started && !legacy && !modern {
        return;
    }
    let ts = match r.timestamp {
        Some(t) => t,
        None => {
            parsed.malformed = true;
            return;
        },
    };
    if started {
        start_record(p, ts, state, parsed);
        return;
    }
    let turn = match crate::text::clean(&p.turn_id) {
        Some(t) => t,
        None => state.current_turn.clone(),
    };
    let ctx = match model_for_turn(&state.turn_models, turn.as_str()) {
        Some(x) => x,
        None => crate::statistics::records::copy_text(&state.model),
    };
    if modern {
        modern_record(r, ts, turn, ctx, state, parsed);
    } else {
        legacy_record(r, ts, turn, ctx, state, parsed);
    }
}

/// Applies one record to the parser state and the file parsed so far. `path`
/// names the file in keys of records that carry no identity of their own.
pub fn handle_record(record: &Record, state: &mut ParserState, parsed: &mut ParsedFile, path: &str)
    requires
        state_ok(*old(state), *old(parsed)),
        record_ok(*record),
    ensures
        state_ok(*final(state), *final(parsed)),
        (state_model(*final(state)), file_model(*final(parsed)))
            == record_step(state_model(*old(state)), file_model(*old(parsed)), *record, path@),
{
    if crate::text::str_eq(record.kind.as_str(), "session") || crate::text::str_eq(record.kind.as_str(), "model_change")
        || crate::text::str_eq(record.kind.as_str(), "message") {
        pi_record(record, state, parsed, path);
        return;
    }
    if crate::text::str_eq(record.kind.as_str(), "session_meta") {
        meta_record(record, state);
        return;
    }
    if inherited(record, state) {
        let total = match p_total(&record.payload) {
            Some(t) => t,
            None => { return; },
        };
        state.previous = Some(total.normalize(ProviderId::Codex));
        state.local_baseline = true;
        return;
    }
    start_owned(state);
    owned_record(record, state, parsed);
}

fn p_total(p: &Payload) -> (t: Option<RawUsage>)
    ensures
        t == inherited_total(*p),
{
    match p.thread_token_usage {
        Some(t) => Some(t),
        None => match &p.info {
            Some(i) => i.total_token_usage,
            None => None,
        },
    }
}

// ---------------------------------------------------------------------------
// A pass over one file.

/// The state before the first record: turns without an identity of their own
/// belong to `current_turn`.
pub open spec fn fresh_state(current_turn: Seq<char>) -> StateModel {
    StateModel {
        offset: 0,
        unterminated: false,
        line_number: 0,
        model: None,
        turn_models: Seq::empty(),
        current_turn,
        previous: None,
        seen_totals: Seq::empty(),
        has_turn_format: false,
        subagent: false,
        saw_session_meta: false,
        session_id: None,
        parent: None,
        fork_time: None,
        owned_ordinal: None,
        requires_replay: false,
        owned_started: false,
        local_baseline: false,
        marker_event_count: None,
        snapshots: Seq::empty(),
        pi_provider: None,
        pi_model: None,
        pi_session: None,
        pending_tasks: Seq::empty(),
    }
}

fn blank_state(current_turn: String) -> (s: ParserState)
    ensures
        state_model(s) == fresh_state(current_turn@),
        s.pending_tasks@.len() == 0,
{
    let s = ParserState {
        offset: 0,
        unterminated: false,
        line_number: 0,
        model: None,
        turn_models: Vec::new(),
        current_turn,
        previous: None,
        seen_totals: Vec::new(),
        has_turn_format: false,
        subagent: false,
        saw_session_meta: false,
        session_id: None,
        parent: None,
        fork_time: None,
        owned_ordinal: None,
        requires_replay: false,
        owned_started: false,
        local_baseline: false,
        marker_event_count: None,
        snapshots: Vec::new(),
        pi_provider: None,
        pi_model: None,
        pi_session: None,
        pending_tasks: Vec::new(),
    };
    assert(state_model(s).turn_models =~= Seq::empty());
    assert(state_model(s).pending_tasks =~= Seq::empty());
    s
}

impl ParserState {
    /// The state for a new pass over the file at `path`.
    pub fn new(path: &str) -> (s: ParserState)
        ensures
            state_model(s) == fresh_state("file:"@ + path@),
            s.pending_tasks@.len() == 0,
    {
        blank_state(prefixed("file:", path))
    }
}

/// The state of a replay: a fresh pass that already knows the session's
/// identity, fork and owned-history boundary.
pub open spec fn seed_model(m: StateModel, path: Seq<char>) -> StateModel {
    StateModel {
        saw_session_meta: true,
        session_id: m.session_id,
        parent: m.parent,
        fork_time: m.fork_time,
        subagent: m.subagent,
        owned_ordinal: m.owned_ordinal,
        ..fresh_state("file:"@ + path)
    }
}

/// Where a later metadata record fixed the owned-history boundary after part
/// of the file was read, the state to parse the file again from its start.
pub fn replay_seed(state: &ParserState, path: &str) -> (seed: Option<ParserState>)
    ensures
        seed is Some == state.requires_replay,
        seed matches Some(x) ==> state_model(x) == seed_model(state_model(*state), path@) && x.pending_tasks@.len() == 0,
{
    if !state.requires_replay {
        return None;
    }
    let mut x = ParserState::new(path);
    x.saw_session_meta = true;
    x.session_id = crate::statistics::records::copy_text(&state.session_id);
    x.parent = crate::statistics::records::copy_text(&state.parent);
    x.fork_time = state.fork_time;
    x.subagent = state.subagent;
    x.owned_ordinal = state.owned_ordinal;
    Some(x)
}

/// What one line of the file does: a blank line or an unreadable complete
/// line is consumed (the latter marks the file malformed); an unreadable last
/// line without its line feed stops the pass (`false`), to be read again when
/// complete; a record advances the parser. An empty read ends the pass.
pub open spec fn line_step(m: StateModel, f: FileModel, text: Seq<char>, bytes: int, record: Option<Record>, path: Seq<char>) -> (StateModel, FileModel, bool) {
    let terminated = text.len() > 0 && text.last() == '\n';
    if bytes == 0 {
        (m, f, false)
    } else if spec_trim(text).len() == 0 {
        (StateModel { offset: (m.offset + bytes) as u64, line_number: (m.line_number + 1) as u64, ..m }, f, true)
    } else {
        match record {
            None => if !terminated {
                (m, f, false)
            } else {
                (StateModel { offset: (m.offset + bytes) as u64, line_number: (m.line_number + 1) as u64, ..m },
                 FileModel { malformed: true, ..f }, true)
            },
            Some(r) => {
                let m1 = StateModel {
                    offset: (m.offset + bytes) as u64,
                    line_number: (m.line_number + 1) as u64,
                    unterminated: !terminated,
                    ..m
                };
                let (m2, f2) = record_step(m1, f, r, path);
                (m2, f2, true)
            },
        }
    }
}

/// History copied from a parent session is never counted: it may seed the
/// baseline of the next cumulative snapshot, but the parsed file is unchanged.
pub proof fn law_inherited_history_is_not_counted(m: StateModel, f: FileModel, r: Record, path: Seq<char>)
    requires
        !is_pi_kind(r),
        r.kind@ != "session_meta"@,
        is_inherited(m, r),
    ensures
        record_step(m, f, r, path).1 == f,
{
}

/// A subagent's task events are never timed as the user's tasks.
pub proof fn law_subagent_tasks_are_not_timed(m: StateModel, f: FileModel, r: Record, aborted: bool)
    requires
        m.subagent,
    ensures
        task_end_step(m, f, r, aborted) == (m, f),
{
}

/// A cumulative snapshot read twice in a row counts once: the second copy
/// finds its total already seen, or its turn already covered by a request.
#[verifier::rlimit(80)]
pub proof fn law_repeated_snapshot_counts_once(m: StateModel, f: FileModel, r: Record, ts: Timestamp, turn: Seq<char>, ctx: Option<Seq<char>>)
    requires
        r.payload.info matches Some(info) && info.total_token_usage is Some,
    ensures
        ({
            let (m1, f1) = legacy_step(m, f, r, ts, turn, ctx);
            legacy_step(m1, f1, r, ts, turn, ctx).1.events == f1.events
        }),
{
    let info = r.payload.info->0;
    let total = norm_opt(info.total_token_usage);
    let last = norm_opt(info.last_token_usage);
    let t = total->0;
    let (m2, f2) = legacy_prefix(m, f, ts, total, last);
    let (m1, f1) = legacy_step(m, f, r, ts, turn, ctx);
    let (n2, g2) = legacy_prefix(m1, f1, ts, total, last);
    if any_pair(f2.modern_turns, turn, ts) {
        assert(m1.previous == Some(t));
        assert(!prefix_ends(StateModel { snapshots: m1.snapshots.push((ts, t)), ..m1 }, total, last));
        assert(g2 == f1);
    } else {
        let reset = match (total, m2.previous) {
            (Some(x), Some(pv)) => difference_of(x, pv) is None && last == Some(x),
            _ => false,
        };
        let m3 = if reset { StateModel { seen_totals: Seq::empty(), ..m2 } } else { m2 };
        if m3.seen_totals.contains(t) {
            assert(m1 == m3);
            assert(m1.seen_totals.contains(t));
        } else {
            let m4 = StateModel { seen_totals: m3.seen_totals.push(t), ..m3 };
            assert(m4.seen_totals[m4.seen_totals.len() - 1] == t);
            assert(m4.seen_totals.contains(t));
        }
        assert(m1.seen_totals.contains(t));
        assert(!prefix_ends(StateModel { snapshots: m1.snapshots.push((ts, t)), ..m1 }, total, last)) by {
            if m1.previous == Some(t) {
            } else {
                assert(m1.previous == m2.previous);
            }
        }
        assert(g2 == f1);
        if m1.previous == Some(t) {
            lemma_difference_self(t);
        }
    }
}

proof fn lemma_difference_self(u: Usage)
    ensures
        difference_of(u, u) is Some,
{
}

/// Only complete records advance the parser: an unreadable last line that
/// has not yet received its line feed leaves the state and the file as they
/// were, and stops the pass so the line is read again once complete.
pub proof fn law_incomplete_line_is_read_again(m: StateModel, f: FileModel, text: Seq<char>, bytes: int, path: Seq<char>)
    requires
        bytes > 0,
        spec_trim(text).len() > 0,
        !(text.len() > 0 && text.last() == '\n'),
    ensures
        line_step(m, f, text, bytes, None, path) == (m, f, false),
{
}

/// Consumes one line read from the file, with the record it holds where it
/// holds a readable one. Returns whether the pass goes on.
pub fn parse_line(line: &str, record: Option<Record>, state: &mut ParserState, parsed: &mut ParsedFile, path: &str) -> (proceed: bool)
    requires
        state_ok(*old(state), *old(parsed)),
        record matches Some(r) ==> record_ok(r),
        old(state).offset + line.spec_bytes().len() <= u64::MAX,
        line.spec_bytes().len() <= usize::MAX,
        old(state).line_number < u64::MAX,
    ensures
        state_ok(*final(state), *final(parsed)),
        (state_model(*final(state)), file_model(*final(parsed)), proceed)
            == line_step(state_model(*old(state)), file_model(*old(parsed)), line@, line.spec_bytes().len() as int, record, path@),
{
    let read = line.len();
    if read == 0 {
        return false;
    }
    let terminated = crate::text::ends_with_newline(line);
    if crate::text::trim_text(line).is_empty() {
        state.offset = state.offset + read as u64;
        state.line_number = state.line_number + 1;
        return true;
    }
    match record {
        None => {
            if !terminated {
                return false;
            }
            parsed.malformed = true;
            state.offset = state.offset + read as u64;
            state.line_number = state.line_number + 1;
            true
        },
        Some(r) => {
            state.line_number = state.line_number + 1;
            state.offset = state.offset + read as u64;
            state.unterminated = !terminated;
            handle_record(&r, state, parsed, path);
            true
        },
    }
}

pub open spec fn with_fork(e: EventModel, parent: Seq<char>, cutoff: Timestamp) -> EventModel {
    match e.codex_snapshot {
        Some(sn) => EventModel {
            fork_baseline: Some(ForkModel { parent, cutoff, total: sn.total, last: sn.last, previous: sn.previous }),
            ..e
        },
        None => e,
    }
}

/// In a fork that owns no explicit boundary and saw no local baseline, every
/// snapshot carries the parent's baseline to be removed at aggregation.
pub open spec fn forked_events(m: StateModel, events: Seq<EventModel>) -> Seq<EventModel> {
    if m.owned_ordinal is None && !m.local_baseline && m.parent is Some && m.fork_time is Some {
        events.map_values(|e: EventModel| with_fork(e, m.parent->0, m.fork_time->0))
    } else {
        events
    }
}

pub open spec fn event_times(s: Seq<EventModel>) -> Seq<Timestamp> {
    s.map_values(|e: EventModel| e.timestamp)
}

/// Legacy snapshots of turns that a request record covers by their time are dropped.
pub open spec fn retained(s: Seq<EventModel>, modern: Seq<(Seq<char>, Timestamp)>) -> Seq<EventModel>
    decreases s.len(),
{
    if s.len() == 0 {
        s
    } else {
        let e = s.last();
        if (e.legacy_turn matches Some(t) && any_pair(modern, t, e.timestamp)) {
            retained(s.drop_last(), modern)
        } else {
            retained(s.drop_last(), modern).push(e)
        }
    }
}

/// The file after its last record.
pub open spec fn finish_model(m: StateModel, f: FileModel) -> FileModel {
    let events = forked_events(m, f.events);
    FileModel {
        events: retained(events, f.modern_turns),
        first_usage: crate::statistics::aggregate::min_fold(None, event_times(events)),
        unknown_turns: if !m.has_turn_format && !m.subagent { event_times(events) } else { Seq::empty() },
        history: Some((m.session_id, m.snapshots)),
        ..f
    }
}

proof fn lemma_min_fold_below(s: Seq<Timestamp>)
    requires
        s.len() > 0,
    ensures
        forall|k: int| 0 <= k < s.len() ==> at_or_after(crate::statistics::aggregate::min_fold(None, s), #[trigger] s[k]),
    decreases s.len(),
{
    let rest = s.drop_last();
    if s.len() > 1 {
        lemma_min_fold_below(rest);
        assert(at_or_after(crate::statistics::aggregate::min_fold(None, rest), rest[0]));
        assert forall|k: int| 0 <= k < s.len() implies at_or_after(crate::statistics::aggregate::min_fold(None, s), #[trigger] s[k]) by {
            if k < s.len() - 1 {
                assert(rest[k] == s[k]);
                assert(at_or_after(crate::statistics::aggregate::min_fold(None, rest), rest[k]));
            }
        }
    }
}

proof fn lemma_retained_from(s: Seq<EventModel>, modern: Seq<(Seq<char>, Timestamp)>)
    ensures
        forall|k: int| 0 <= k < retained(s, modern).len()
            ==> exists|j: int| 0 <= j < s.len() && #[trigger] retained(s, modern)[k] == s[j],
    decreases s.len(),
{
    if s.len() > 0 {
        let rest = s.drop_last();
        lemma_retained_from(rest, modern);
        let r = retained(s, modern);
        assert forall|k: int| 0 <= k < r.len() implies exists|j: int| 0 <= j < s.len() && #[trigger] r[k] == s[j] by {
            if k < retained(rest, modern).len() {
                let j = choose|j: int| 0 <= j < rest.len() && #[trigger] retained(rest, modern)[k] == rest[j];
                assert(r[k] == retained(rest, modern)[k]);
                assert(rest[j] == s[j]);
            } else {
                assert(r[k] == s[s.len() - 1]);
            }
        }
    }
}

/// After a pass, every record of the file lies at or after its first usage.
pub proof fn law_finished_pass_bounds_first_usage(m: StateModel, f: FileModel)
    ensures
        first_usage_precedes(finish_model(m, f)),
{
    let events = forked_events(m, f.events);
    let times = event_times(events);
    let g = finish_model(m, f);
    lemma_retained_from(events, f.modern_turns);
    assert forall|k: int| 0 <= k < g.events.len() implies at_or_after(g.first_usage, #[trigger] g.events[k].timestamp) by {
        let j = choose|j: int| 0 <= j < events.len() && #[trigger] retained(events, f.modern_turns)[k] == events[j];
        lemma_min_fold_below(times);
        assert(times[j] == events[j].timestamp);
        assert(at_or_after(crate::statistics::aggregate::min_fold(None, times), times[j]));
    }
}

fn copy_snapshots(v: &Vec<(Timestamp, Usage)>) -> (c: Vec<(Timestamp, Usage)>)
    ensures
        c@ == v@,
{
    let mut c: Vec<(Timestamp, Usage)> = Vec::new();
    let mut i: usize = 0;
    while i < v.len()
        invariant
            i <= v.len(),
            c@ == v@.subrange(0, i as int),
        decreases v.len() - i,
    {
        c.push(v[i]);
        i = i + 1;
        assert(c@ =~= v@.subrange(0, i as int));
    }
    assert(v@.subrange(0, v.len() as int) =~= v@);
    c
}

fn fork_copies(state: &ParserState, events: &Vec<Event>) -> (r: (Vec<Event>, Vec<Timestamp>, Option<Timestamp>))
    ensures
        r.0@.map_values(|e: Event| event_model(e))
            == forked_events(state_model(*state), events@.map_values(|e: Event| event_model(e))),
        r.1@ == event_times(forked_events(state_model(*state), events@.map_values(|e: Event| event_model(e)))),
        r.2 == crate::statistics::aggregate::min_fold(None, event_times(forked_events(state_model(*state), events@.map_values(|e: Event| event_model(e))))),
{
    let ghost m = state_model(*state);
    let ghost models = events@.map_values(|e: Event| event_model(e));
    let ghost forked = forked_events(m, models);
    let fork = if state.owned_ordinal.is_none() && !state.local_baseline {
        match (&state.parent, state.fork_time) {
            (Some(p), Some(c)) => Some((p, c)),
            _ => None,
        }
    } else {
        None
    };
    let mut out: Vec<Event> = Vec::new();
    let mut times: Vec<Timestamp> = Vec::new();
    let mut first: Option<Timestamp> = None;
    let mut i: usize = 0;
    while i < events.len()
        invariant
            i <= events.len(),
            models == events@.map_values(|e: Event| event_model(e)),
            forked == forked_events(m, models),
            m == state_model(*state),
            forked.len() == models.len(),
            fork matches Some(x) ==> (m.owned_ordinal is None && !m.local_baseline && m.parent == Some(x.0@) && m.fork_time == Some(x.1)),
            fork is None ==> !(m.owned_ordinal is None && !m.local_baseline && m.parent is Some && m.fork_time is Some),
            out@.map_values(|e: Event| event_model(e)) == forked.subrange(0, i as int),
            times@ == event_times(forked.subrange(0, i as int)),
            first == crate::statistics::aggregate::min_fold(None, event_times(forked.subrange(0, i as int))),
        decreases events.len() - i,
    {
        let e = &events[i];
        let mut c = crate::statistics::records::copy_event(e);
        if let Some((p, cutoff)) = fork {
            if let Some(sn) = e.codex_snapshot {
                c.fork_baseline = Some(ForkBaseline { parent: p.clone(), cutoff, total: sn.total, last: sn.last, previous: sn.previous });
            }
        }
        assert(event_model(c) == forked[i as int]);
        first = Some(match first {
            None => c.timestamp,
            Some(b) => crate::time::min_time(b, c.timestamp),
        });
        times.push(c.timestamp);
        let ghost before = out@;
        out.push(c);
        proof {
            assert(out@.map_values(|e: Event| event_model(e)) =~= before.map_values(|e: Event| event_model(e)).push(event_model(c)));
            assert(forked.subrange(0, i + 1) =~= forked.subrange(0, i as int).push(forked[i as int]));
            assert(event_times(forked.subrange(0, i + 1)) =~= event_times(forked.subrange(0, i as int)).push(c.timestamp));
            assert(event_times(forked.subrange(0, i + 1)).drop_last() =~= event_times(forked.subrange(0, i as int)));
        }
        i = i + 1;
    }
    assert(forked.subrange(0, events.len() as int) =~= forked);
    (out, times, first)
}

fn keep_unsuperseded(events: &Vec<Event>, modern: &Vec<Turn>) -> (r: Vec<Event>)
    ensures
        r@.map_values(|e: Event| event_model(e))
            == retained(events@.map_values(|e: Event| event_model(e)), modern@.map_values(|t: Turn| turn_pair(t))),
{
    let ghost models = events@.map_values(|e: Event| event_model(e));
    let ghost mt = modern@.map_values(|t: Turn| turn_pair(t));
    let mut out: Vec<Event> = Vec::new();
    let mut i: usize = 0;
    while i < events.len()
        invariant
            i <= events.len(),
            models == events@.map_values(|e: Event| event_model(e)),
            mt == modern@.map_values(|t: Turn| turn_pair(t)),
            out@.map_values(|e: Event| event_model(e)) == retained(models.subrange(0, i as int), mt),
        decreases events.len() - i,
    {
        let e = &events[i];
        assert(models.subrange(0, i + 1).drop_last() =~= models.subrange(0, i as int));
        assert(models.subrange(0, i + 1).last() == event_model(*e));
        let superseded = match &e.legacy_turn {
            Some(t) => any_modern(modern, t.as_str(), e.timestamp),
            None => false,
        };
        if !superseded {
            let ghost before = out@;
            out.push(crate::statistics::records::copy_event(e));
            assert(out@.map_values(|e: Event| event_model(e)) =~= before.map_values(|e: Event| event_model(e)).push(event_model(*e)));
        }
        i = i + 1;
    }
    assert(models.subrange(0, events.len() as int) =~= models);
    out
}

/// Completes a pass: fork baselines, the earliest usage, turns that cannot be
/// attributed, superseded legacy snapshots, and the session's own snapshots
/// for forks that start from it.
pub fn finish_pass(state: &ParserState, parsed: &mut ParsedFile)
    ensures
        file_model(*final(parsed)) == finish_model(state_model(*state), file_model(*old(parsed))),
        crate::statistics::laws::records_after_first_usage(*final(parsed)),
{
    let (forked, times, first) = fork_copies(state, &parsed.events);
    let kept = keep_unsuperseded(&forked, &parsed.modern_turns);
    parsed.events = kept;
    parsed.first_usage = first;
    parsed.unknown_turns = if !state.has_turn_format && !state.subagent { times } else { Vec::new() };
    parsed.history = Some(SessionHistory {
        session_id: crate::statistics::records::copy_text(&state.session_id),
        snapshots: copy_snapshots(&state.snapshots),
    });
    assert(file_model(*parsed).unknown_turns =~= (if !state.has_turn_format && !state.subagent {
        event_times(forked_events(state_model(*state), file_model(*old(parsed)).events))
    } else {
        Seq::empty()
    }));
    proof {
        law_finished_pass_bounds_first_usage(state_model(*state), file_model(*old(parsed)));
        lemma_first_usage_view(*parsed);
    }
}

/// Whether a pass may go on from this state: a pending prefix is still within
/// the records kept, and pending task starts are valid instants.
pub fn resumable(state: &ParserState, parsed: &ParsedFile) -> (ok: bool)
    ensures
        ok == state_ok(*state, *parsed),
{
    if let Some(c) = state.marker_event_count {
        if c > parsed.events.len() {
            return false;
        }
    }
    let mut i: usize = 0;
    while i < state.pending_tasks.len()
        invariant
            i <= state.pending_tasks@.len(),
            forall|j: int| 0 <= j < i ==> wf_time((#[trigger] state.pending_tasks@[j]).1),
        decreases state.pending_tasks.len() - i,
    {
        if state.pending_tasks[i].1.nanos >= 2_000_000_000 {
            return false;
        }
        i = i + 1;
    }
    true
}

} // verus!
