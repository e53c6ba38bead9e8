//! Content-free normalization of Anthropic session logs: assistant requests with
//! their usage, and identified user turns.
use vstd::prelude::*;
use vstd::string::*;
use crate::models::ProviderId;
use crate::statistics::usage::{RawUsage, normalized_of};
use crate::statistics::records::{Event, Turn, ParsedFile};
use crate::statistics::codex_history::{FileModel, EventModel, TaskModel, file_model, event_model, turn_pair, task_model, add_event_model, event_times, or_else, first_usage_precedes, lemma_add_event_keeps_first_usage};
use crate::statistics::activity::{CompletedTask, ExplicitDuration, task_duration};
use crate::time::{Timestamp, spec_rfc3339, wf_time};
use crate::text::{opt_view, decimal, spec_trim, spec_contains};

verus! {

/// The content of a user message, reduced to what tells a human turn apart:
/// absent, a text, or the kinds of its blocks.
pub enum Content {
    Absent,
    Text(String),
    Blocks(Vec<String>),
}

pub open spec fn is_human_block(kind: Seq<char>) -> bool {
    kind == "text"@ || kind == "image"@ || kind == "document"@
}

/// Human content: a text that is not blank, or a block of text, an image or a document.
pub open spec fn human_content(c: Content) -> bool {
    match c {
        Content::Absent => false,
        Content::Text(t) => spec_trim(t@).len() > 0,
        Content::Blocks(b) => exists|i: int| 0 <= i < b@.len() && is_human_block((#[trigger] b@[i])@),
    }
}

impl Content {
    pub fn is_human(&self) -> (r: bool)
        ensures
            r == human_content(*self),
    {
        match self {
            Content::Absent => false,
            Content::Text(t) => !crate::text::trim_text(t.as_str()).is_empty(),
            Content::Blocks(b) => any_human_block(b),
        }
    }
}

fn any_human_block(b: &Vec<String>) -> (r: bool)
    ensures
        r == exists|i: int| 0 <= i < b@.len() && is_human_block((#[trigger] b@[i])@),
{
    let mut i: usize = 0;
    while i < b.len()
        invariant
            i <= b@.len(),
            forall|j: int| 0 <= j < i ==> !is_human_block((#[trigger] b@[j])@),
        decreases b.len() - i,
    {
        let k = b[i].as_str();
        if crate::text::str_eq(k, "text") || crate::text::str_eq(k, "image") || crate::text::str_eq(k, "document") {
            assert(is_human_block(b@[i as int]@));
            return true;
        }
        i = i + 1;
    }
    false
}

pub struct ClaudeMessage {
    pub id: Option<String>,
    pub model: Option<String>,
    pub usage: Option<RawUsage>,
    pub content: Content,
}

/// One Anthropic log record, reduced to the facts the parser reads.
pub struct ClaudeRecord {
    pub kind: String,
    pub timestamp: Option<String>,
    pub message: Option<ClaudeMessage>,
    pub uuid: Option<String>,
    pub request_id: Option<String>,
    pub is_meta: bool,
    pub is_compact_summary: bool,
    pub is_sidechain: bool,
    pub is_synthetic: bool,
    pub subtype: Option<String>,
    /// The explicit duration of a completed turn, as logged.
    pub duration: ExplicitDuration,
}

/// What the parser carries between lines.
#[derive(Clone, Copy, Debug, PartialEq, Eq, Structural)]
pub struct ClaudeParser {
    pub has_turn_format: bool,
    pub line_number: u64,
}

impl ClaudeParser {
    pub fn new() -> (p: ClaudeParser)
        ensures
            p == (ClaudeParser { has_turn_format: false, line_number: 0 }),
    {
        ClaudeParser { has_turn_format: false, line_number: 0 }
    }
}

/// A line is read only where it may hold an assistant request with usage, a
/// user turn or a turn's duration.
pub open spec fn worth_reading(text: Seq<char>) -> bool {
    (spec_contains(text, "\"assistant\""@) && spec_contains(text, "\"usage\""@)) || spec_contains(text, "\"user\""@)
        || spec_contains(text, "\"turn_duration\""@)
}

/// The key of a completed turn: its record's identity, else its line.
pub open spec fn duration_key(r: ClaudeRecord, path: Seq<char>, line: u64) -> Seq<char> {
    match r.uuid {
        Some(id) => "anthropic-duration:"@ + id@,
        None => "anthropic-duration-line:"@ + path + ":"@ + decimal(line as nat),
    }
}

/// A main-thread record of a turn's duration becomes a completed task where
/// its explicit duration is usable.
pub open spec fn duration_step(f: FileModel, r: ClaudeRecord, ts: Timestamp, path: Seq<char>, line: u64) -> FileModel {
    if opt_view(r.subtype) == Some("turn_duration"@) && !r.is_sidechain {
        match task_duration(None, ts, r.duration) {
            Some(d) => FileModel {
                completed_tasks: f.completed_tasks.push(TaskModel {
                    key: duration_key(r, path, line),
                    started_at: None,
                    completed_at: ts,
                    duration_sec: d as u64,
                }),
                ..f
            },
            None => f,
        }
    } else {
        f
    }
}

pub open spec fn nonempty(o: Option<Seq<char>>) -> Option<Seq<char>> {
    match o {
        Some(t) => if t.len() > 0 { Some(t) } else { None },
        None => None,
    }
}

/// A user record that stands for a turn someone typed.
pub open spec fn is_typed_turn(r: ClaudeRecord) -> bool {
    !r.is_meta && !r.is_compact_summary && !r.is_sidechain && !r.is_synthetic
        && (r.message matches Some(m) && human_content(m.content))
}

/// What one line does to the parser and the file.
pub open spec fn claude_line_step(p: ClaudeParser, f: FileModel, text: Seq<char>, record: Option<ClaudeRecord>, path: Seq<char>) -> (ClaudeParser, FileModel) {
    let p1 = ClaudeParser { line_number: (p.line_number + 1) as u64, ..p };
    if !worth_reading(text) {
        (p1, f)
    } else {
        match record {
            None => (p1, FileModel { malformed: f.malformed || (text.len() > 0 && text.last() == '\n'), ..f }),
            Some(r) => match (match r.timestamp { Some(t) => spec_rfc3339(t@), None => None }) {
                None => (p1, FileModel { malformed: true, ..f }),
                Some(ts) => if r.kind@ == "user"@ {
                    (ClaudeParser { has_turn_format: true, ..p1 }, if !is_typed_turn(r) {
                        f
                    } else {
                        match r.uuid {
                            Some(id) => FileModel { turns: f.turns.push(("anthropic-turn:"@ + id@, ts)), ..f },
                            None => FileModel { unknown_turns: f.unknown_turns.push(ts), ..f },
                        }
                    })
                } else if r.kind@ == "system"@ {
                    (p1, duration_step(f, r, ts, path, p1.line_number))
                } else if r.kind@ != "assistant"@ {
                    (p1, f)
                } else {
                    match r.message {
                        None => (p1, f),
                        Some(m) => match m.usage {
                            None => (p1, f),
                            Some(raw) => {
                                let request_id = or_else(nonempty(opt_view(r.request_id)), nonempty(opt_view(m.id)));
                                let key = match or_else(request_id, opt_view(r.uuid)) {
                                    Some(id) => "anthropic-message:"@ + id,
                                    None => "anthropic-line:"@ + path + ":"@ + decimal(p1.line_number as nat),
                                };
                                (p1, add_event_model(f, EventModel {
                                    key,
                                    timestamp: ts,
                                    model: opt_view(m.model),
                                    usage: normalized_of(raw, ProviderId::Claude),
                                    request_count: if request_id is Some { Some(1) } else { None },
                                    legacy_turn: None,
                                    fork_baseline: None,
                                    codex_snapshot: None,
                                }))
                            },
                        },
                    }
                },
            },
        }
    }
}

fn nonempty_text(o: &Option<String>) -> (r: Option<String>)
    ensures
        opt_view(r) == nonempty(opt_view(*o)),
{
    match o {
        Some(t) => if t.as_str().is_empty() { None } else { Some(t.clone()) },
        None => None,
    }
}

fn duration_record(r: &ClaudeRecord, ts: Timestamp, line: u64, parsed: &mut ParsedFile, path: &str)
    requires
        wf_time(ts),
    ensures
        file_model(*final(parsed)) == duration_step(file_model(*old(parsed)), *r, ts, path@, line),
{
    if !crate::statistics::records::same_text(&r.subtype, "turn_duration") || r.is_sidechain {
        return;
    }
    let key = match &r.uuid {
        Some(id) => {
            let mut k = String::from_str("anthropic-duration:");
            k.append(id.as_str());
            k
        },
        None => {
            let mut k = String::from_str("anthropic-duration-line:");
            k.append(path);
            k.append(":");
            crate::text::push_decimal(&mut k, line);
            assert(k@ =~= "anthropic-duration-line:"@ + path@ + ":"@ + decimal(line as nat));
            k
        },
    };
    if let Some(task) = CompletedTask::new(key, None, ts, r.duration) {
        let ghost before = parsed.completed_tasks@;
        parsed.completed_tasks.push(task);
        assert(file_model(*parsed).completed_tasks =~= before.map_values(|t: CompletedTask| task_model(t)).push(task_model(task)));
    }
}

/// Consumes one line of a Anthropic log, with the record it holds where it holds
/// a readable one.
pub fn parse_claude_line(line: &str, record: Option<ClaudeRecord>, parser: &mut ClaudeParser, parsed: &mut ParsedFile, path: &str)
    requires
        old(parser).line_number < u64::MAX,
    ensures
        (*final(parser), file_model(*final(parsed)))
            == claude_line_step(*old(parser), file_model(*old(parsed)), line@, record, path@),
{
    parser.line_number = parser.line_number + 1;
    if !((crate::text::contains_text(line, "\"assistant\"") && crate::text::contains_text(line, "\"usage\""))
        || crate::text::contains_text(line, "\"user\"") || crate::text::contains_text(line, "\"turn_duration\"")) {
        return;
    }
    let r = match record {
        Some(r) => r,
        None => {
            if crate::text::ends_with_newline(line) {
                parsed.malformed = true;
            }
            return;
        },
    };
    let ts = match &r.timestamp {
        Some(t) => match crate::time::parse_rfc3339(t.as_str()) {
            Some(ts) => ts,
            None => {
                parsed.malformed = true;
                return;
            },
        },
        None => {
            parsed.malformed = true;
            return;
        },
    };
    if crate::text::str_eq(r.kind.as_str(), "user") {
        parser.has_turn_format = true;
        let typed = !r.is_meta && !r.is_compact_summary && !r.is_sidechain && !r.is_synthetic
            && match &r.message {
                Some(m) => m.content.is_human(),
                None => false,
            };
        if typed {
            match &r.uuid {
                Some(id) => {
                    let ghost turns = parsed.turns@;
                    let mut key = String::from_str("anthropic-turn:");
                    key.append(id.as_str());
                    parsed.turns.push(Turn { key, timestamp: ts });
                    assert(file_model(*parsed).turns =~= turns.map_values(|t: Turn| turn_pair(t)).push(("anthropic-turn:"@ + id@, ts)));
                },
                None => {
                    let ghost unknown = parsed.unknown_turns@;
                    parsed.unknown_turns.push(ts);
                    assert(parsed.unknown_turns@ =~= unknown.push(ts));
                },
            }
        }
        return;
    }
    if crate::text::str_eq(r.kind.as_str(), "system") {
        duration_record(&r, ts, parser.line_number, parsed, path);
        return;
    }
    if !crate::text::str_eq(r.kind.as_str(), "assistant") {
        return;
    }
    let m = match &r.message {
        Some(m) => m,
        None => { return; },
    };
    let raw = match m.usage {
        Some(u) => u,
        None => { return; },
    };
    let request_id = match nonempty_text(&r.request_id) {
        Some(id) => Some(id),
        None => nonempty_text(&m.id),
    };
    let request_count = if request_id.is_some() { Some(1u64) } else { None };
    let key = match (&request_id, &r.uuid) {
        (Some(id), _) | (None, Some(id)) => {
            let mut k = String::from_str("anthropic-message:");
            k.append(id.as_str());
            k
        },
        (None, None) => {
            let mut k = String::from_str("anthropic-line:");
            k.append(path);
            k.append(":");
            crate::text::push_decimal(&mut k, parser.line_number);
            assert(k@ =~= "anthropic-line:"@ + path@ + ":"@ + decimal(parser.line_number as nat));
            k
        },
    };
    crate::statistics::codex_history::add_event(parsed, Event {
        key,
        timestamp: ts,
        model: crate::statistics::records::copy_text(&m.model),
        usage: raw.normalize(ProviderId::Claude),
        request_count,
        legacy_turn: None,
        fork_baseline: None,
        codex_snapshot: None,
    });
}

/// Completes a Anthropic file: without any user record, every request stands
/// for a turn that cannot be attributed.
pub fn finish_claude(parser: &ClaudeParser, parsed: &mut ParsedFile)
    ensures
        file_model(*final(parsed)) == (if parser.has_turn_format {
            file_model(*old(parsed))
        } else {
            FileModel {
                unknown_turns: file_model(*old(parsed)).unknown_turns + event_times(file_model(*old(parsed)).events),
                ..file_model(*old(parsed))
            }
        }),
{
    if parser.has_turn_format {
        return;
    }
    let ghost start = parsed.unknown_turns@;
    let ghost times = event_times(file_model(*parsed).events);
    let mut extra: Vec<Timestamp> = Vec::new();
    let mut i: usize = 0;
    while i < parsed.events.len()
        invariant
            i <= parsed.events@.len(),
            times == event_times(parsed.events@.map_values(|e: Event| event_model(e))),
            extra@ == times.subrange(0, i as int),
        decreases parsed.events.len() - i,
    {
        extra.push(parsed.events[i].timestamp);
        i = i + 1;
        assert(extra@ =~= times.subrange(0, i as int));
    }
    assert(times.subrange(0, parsed.events@.len() as int) =~= times);
    parsed.unknown_turns.append(&mut extra);
    let ghost fin = file_model(*parsed);
    assert(fin.unknown_turns =~= start + times);
}

/// A line keeps every record of the file at or after its first usage.
pub proof fn law_line_keeps_first_usage(p: ClaudeParser, f: FileModel, text: Seq<char>, record: Option<ClaudeRecord>, path: Seq<char>)
    requires
        first_usage_precedes(f),
    ensures
        first_usage_precedes(claude_line_step(p, f, text, record, path).1),
{
    let g = claude_line_step(p, f, text, record, path).1;
    if g.events.len() != f.events.len() {
        let r = record->0;
        let m = r.message->0;
        let raw = m.usage->0;
        let ts = match r.timestamp { Some(t) => spec_rfc3339(t@), None => None }->0;
        let p1 = ClaudeParser { line_number: (p.line_number + 1) as u64, ..p };
        let request_id = or_else(nonempty(opt_view(r.request_id)), nonempty(opt_view(m.id)));
        let key = match or_else(request_id, opt_view(r.uuid)) {
            Some(id) => "anthropic-message:"@ + id,
            None => "anthropic-line:"@ + path + ":"@ + decimal(p1.line_number as nat),
        };
        lemma_add_event_keeps_first_usage(f, EventModel {
            key,
            timestamp: ts,
            model: opt_view(m.model),
            usage: normalized_of(raw, ProviderId::Claude),
            request_count: if request_id is Some { Some(1) } else { None },
            legacy_turn: None,
            fork_baseline: None,
            codex_snapshot: None,
        });
    } else {
        assert(g.events == f.events && g.first_usage == f.first_usage);
    }
}

} // verus!
