//! Normalized, content-free records that parsers extract from session logs.
use vstd::prelude::*;
use crate::statistics::usage::{Usage, ForkBaseline, Snapshot};
use crate::statistics::activity::CompletedTask;
use crate::time::Timestamp;
use crate::text::str_eq;
use crate::models::ProviderId;

verus! {

/// One model request (or a cumulative snapshot standing for one).
#[derive(Debug)]
pub struct Event {
    /// Deduplication key: copies of one request share it.
    pub key: String,
    pub timestamp: Timestamp,
    pub model: Option<String>,
    pub usage: Usage,
    /// One for an identified request; absent when the record cannot prove one.
    pub request_count: Option<u64>,
    /// The turn of a legacy cumulative snapshot, superseded by request records.
    pub legacy_turn: Option<String>,
    /// Set on snapshots of a forked session whose parent totals must be removed.
    pub fork_baseline: Option<ForkBaseline>,
    /// The cumulative snapshot a legacy record was derived from.
    pub codex_snapshot: Option<Snapshot>,
}

/// A user-initiated conversation turn.
#[derive(Debug)]
pub struct Turn {
    pub key: String,
    pub timestamp: Timestamp,
}

/// The cumulative snapshots of one session, used as fork baselines.
#[derive(Debug)]
pub struct SessionHistory {
    pub session_id: Option<String>,
    pub snapshots: Vec<(Timestamp, Usage)>,
}

/// Everything normalized from one log file.
#[derive(Debug)]
pub struct ParsedFile {
    pub events: Vec<Event>,
    pub turns: Vec<Turn>,
    /// Turns known to exist but not attributable to an identified user turn.
    pub unknown_turns: Vec<Timestamp>,
    /// Turns that have request records, with their times.
    pub modern_turns: Vec<Turn>,
    pub first_usage: Option<Timestamp>,
    pub malformed: bool,
    pub history: Option<SessionHistory>,
    pub completed_tasks: Vec<CompletedTask>,
}

impl ParsedFile {
    /// A file with nothing parsed yet.
    pub fn new() -> (f: ParsedFile)
        ensures
            f.events@.len() == 0,
            f.turns@.len() == 0,
            f.unknown_turns@.len() == 0,
            f.modern_turns@.len() == 0,
            f.first_usage is None,
            !f.malformed,
            f.history is None,
            f.completed_tasks@.len() == 0,
    {
        ParsedFile {
            events: Vec::new(),
            turns: Vec::new(),
            unknown_turns: Vec::new(),
            modern_turns: Vec::new(),
            first_usage: None,
            malformed: false,
            history: None,
            completed_tasks: Vec::new(),
        }
    }
}

/// The revision of each provider's parser: a result parsed by another
/// revision is parsed again.
pub fn parser_version(provider: ProviderId) -> (v: u32)
    ensures
        v == (match provider {
            ProviderId::Codex => 2u32,
            ProviderId::Claude => 1u32,
        }),
{
    match provider {
        ProviderId::Codex => 2,
        ProviderId::Claude => 1,
    }
}

pub fn copy_text(s: &Option<String>) -> (c: Option<String>)
    ensures
        c == *s,
{
    match s {
        Some(t) => Some(t.clone()),
        None => None,
    }
}

pub fn copy_fork(f: &ForkBaseline) -> (c: ForkBaseline)
    ensures
        c == *f,
{
    ForkBaseline {
        parent: f.parent.clone(),
        cutoff: f.cutoff,
        total: f.total,
        last: f.last,
        previous: f.previous,
    }
}

pub fn copy_event(e: &Event) -> (c: Event)
    ensures
        c == *e,
{
    Event {
        key: e.key.clone(),
        timestamp: e.timestamp,
        model: copy_text(&e.model),
        usage: e.usage,
        request_count: e.request_count,
        legacy_turn: copy_text(&e.legacy_turn),
        fork_baseline: match &e.fork_baseline {
            Some(f) => Some(copy_fork(f)),
            None => None,
        },
        codex_snapshot: e.codex_snapshot,
    }
}

/// Whether two optional texts hold the same characters.
pub fn same_text(a: &Option<String>, b: &str) -> (r: bool)
    ensures
        r == (a matches Some(t) && t@ == b@),
{
    match a {
        Some(t) => str_eq(t.as_str(), b),
        None => false,
    }
}

} // verus!
