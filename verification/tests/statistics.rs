use agentbar::models::{ProviderId, ProviderStatus};
use agentbar::statistics::activity::{summarize_activity, ActivityStatistics, CompletedTask, DatedTime, DatedTask, ExplicitDuration};
use agentbar::statistics::aggregate::{summarize, PeriodLabel, TokenStatistics, Window};
use agentbar::statistics::claude_history::{
    finish_claude, parse_claude_line, ClaudeMessage, ClaudeParser, ClaudeRecord, Content,
};
use agentbar::statistics::codex_history::{
    finish_pass, parse_line, Info, Payload, ParserState, PiMessage, PiUsage, Record, SessionSource,
};
use agentbar::statistics::records::ParsedFile;
use agentbar::statistics::usage::RawUsage;
use agentbar::time::Timestamp;
use chrono::{DateTime, Datelike, FixedOffset, TimeZone, Utc};
use serde_json::Value;

// ---------------------------------------------------------------------------
// Reading JSON log lines into the library's records, as the logs are typed.

fn vendor() -> String {
    format!("{:?}", ProviderId::Claude).to_lowercase()
}

fn stamp(time: DateTime<Utc>) -> Timestamp {
    Timestamp { secs: time.timestamp(), nanos: time.timestamp_subsec_nanos() }
}

fn time(value: &str) -> Timestamp {
    stamp(DateTime::parse_from_rfc3339(value).unwrap().with_timezone(&Utc))
}

fn opt_text(value: &Value, keys: &[&str]) -> Result<Option<String>, ()> {
    for key in keys {
        match value.get(*key) {
            None => continue,
            Some(Value::Null) => return Ok(None),
            Some(Value::String(text)) => return Ok(Some(text.clone())),
            Some(_) => return Err(()),
        }
    }
    Ok(None)
}

fn opt_u64(value: &Value, key: &str) -> Result<Option<u64>, ()> {
    match value.get(key) {
        None | Some(Value::Null) => Ok(None),
        Some(number) => number.as_u64().map(Some).ok_or(()),
    }
}

fn opt_i64(value: &Value, key: &str) -> Result<Option<i64>, ()> {
    match value.get(key) {
        None | Some(Value::Null) => Ok(None),
        Some(number) => number.as_i64().map(Some).ok_or(()),
    }
}

fn count(value: &Value, keys: &[&str], required: bool) -> Result<u64, ()> {
    for key in keys {
        if let Some(number) = value.get(*key) {
            return number.as_u64().ok_or(());
        }
    }
    if required {
        Err(())
    } else {
        Ok(0)
    }
}

fn numeric_time(value: f64) -> Option<Timestamp> {
    if !value.is_finite() {
        return None;
    }
    let milliseconds = if value > 1_000_000_000_000.0 { value } else { value * 1000.0 };
    DateTime::from_timestamp_millis(milliseconds as i64).map(stamp)
}

fn log_time(value: &Value, key: &str) -> Result<Option<Timestamp>, ()> {
    match value.get(key) {
        None | Some(Value::Null) => Ok(None),
        Some(Value::String(text)) => Ok(DateTime::parse_from_rfc3339(text)
            .ok()
            .map(|time| stamp(time.with_timezone(&Utc)))
            .or_else(|| text.parse::<f64>().ok().and_then(numeric_time))),
        Some(Value::Number(number)) => Ok(number.as_f64().and_then(numeric_time)),
        Some(_) => Err(()),
    }
}

fn raw_usage(value: &Value) -> Result<RawUsage, ()> {
    if !value.is_object() {
        return Err(());
    }
    let creation = match value.get("cache_creation") {
        None => None,
        Some(object) if object.is_object() => Some(object),
        Some(_) => return Err(()),
    };
    let nested = |key: &str| match creation {
        Some(object) => count(object, &[key], false),
        None => Ok(0),
    };
    Ok(RawUsage {
        input_tokens: count(value, &["input_tokens"], true)?,
        cached_input_tokens: count(value, &["cached_input_tokens"], false)?,
        cache_write_input_tokens: count(value, &["cache_write_input_tokens"], false)?,
        cache_read_input_tokens: count(value, &["cache_read_input_tokens"], false)?,
        cache_creation_input_tokens: count(value, &["cache_creation_input_tokens"], false)?,
        output_tokens: count(value, &["output_tokens"], true)?,
        ephemeral_5m_input_tokens: nested("ephemeral_5m_input_tokens")?,
        ephemeral_1h_input_tokens: nested("ephemeral_1h_input_tokens")?,
    })
}

fn opt_raw_usage(value: &Value, key: &str) -> Result<Option<RawUsage>, ()> {
    match value.get(key) {
        None | Some(Value::Null) => Ok(None),
        Some(usage) => raw_usage(usage).map(Some),
    }
}

fn pi_usage(value: &Value) -> Result<PiUsage, ()> {
    if !value.is_object() {
        return Err(());
    }
    Ok(PiUsage {
        input: count(value, &["input", "inputTokens", "input_tokens", "promptTokens", "prompt_tokens"], false)?,
        cached: count(
            value,
            &["cacheRead", "cacheReadTokens", "cache_read", "cache_read_tokens", "cacheReadInputTokens", "cache_read_input_tokens"],
            false,
        )?,
        write: count(
            value,
            &[
                "cacheWrite",
                "cacheWriteTokens",
                "cache_write",
                "cache_write_tokens",
                "cacheCreationTokens",
                "cache_creation_tokens",
                "cacheCreationInputTokens",
                "cache_creation_input_tokens",
            ],
            false,
        )?,
        output: count(value, &["output", "outputTokens", "output_tokens", "completionTokens", "completion_tokens"], false)?,
    })
}

fn explicit(milliseconds: Option<f64>) -> ExplicitDuration {
    match milliseconds {
        None => ExplicitDuration::Absent,
        Some(value) if value.is_finite() && value >= 0.0 => {
            ExplicitDuration::WholeSeconds((value / 1000.0).floor() as u64)
        }
        Some(_) => ExplicitDuration::Invalid,
    }
}

fn milliseconds(value: Option<&Value>) -> Result<ExplicitDuration, ()> {
    match value {
        None | Some(Value::Null) => Ok(ExplicitDuration::Absent),
        Some(number) => Ok(explicit(Some(number.as_f64().ok_or(())?))),
    }
}

fn duration(value: &Value) -> Result<ExplicitDuration, ()> {
    milliseconds(value.get("duration_ms"))
}

fn source(value: &Value) -> Result<Option<SessionSource>, ()> {
    match value.get("source") {
        None | Some(Value::Null) => Ok(None),
        Some(Value::String(name)) => Ok(Some(SessionSource::Name(name.clone()))),
        Some(Value::Object(details)) => Ok(Some(SessionSource::Details {
            subagent: details.get("subagent").is_some_and(|value| !value.is_null()),
        })),
        Some(_) => Err(()),
    }
}

fn info(value: &Value) -> Result<Option<Info>, ()> {
    match value.get("info") {
        None | Some(Value::Null) => Ok(None),
        Some(info) if info.is_object() => Ok(Some(Info {
            model: opt_text(info, &["model"])?,
            model_name: opt_text(info, &["model_name"])?,
            total_token_usage: opt_raw_usage(info, "total_token_usage")?,
            last_token_usage: opt_raw_usage(info, "last_token_usage")?,
        })),
        Some(_) => Err(()),
    }
}

fn payload(value: &Value) -> Result<Payload, ()> {
    let empty = Value::Object(Default::default());
    let payload = match value.get("payload") {
        None => &empty,
        Some(object) if object.is_object() => object,
        Some(_) => return Err(()),
    };
    let trigger_turn = match payload.get("trigger_turn") {
        None | Some(Value::Null) => None,
        Some(Value::Bool(flag)) => Some(*flag),
        Some(_) => return Err(()),
    };
    Ok(Payload {
        kind: opt_text(payload, &["type"])?,
        id: opt_text(payload, &["id"])?,
        session_id: opt_text(payload, &["session_id", "sessionId"])?,
        forked_from_id: opt_text(payload, &["forked_from_id", "forkedFromId", "parent_session_id", "parentSessionId"])?,
        timestamp: log_time(payload, "timestamp")?,
        source: source(payload)?,
        subagent_history_start_ordinal: opt_u64(payload, "subagent_history_start_ordinal")?,
        model: opt_text(payload, &["model"])?,
        model_name: opt_text(payload, &["model_name"])?,
        turn_id: opt_text(payload, &["turn_id", "turnId"])?,
        started_at: opt_i64(payload, "started_at")?,
        completed_at: opt_i64(payload, "completed_at")?,
        duration: duration(payload)?,
        trigger_turn,
        usage: opt_raw_usage(payload, "usage")?,
        response_id: opt_text(payload, &["response_id"])?,
        thread_token_usage: opt_raw_usage(payload, "thread_token_usage")?,
        info: info(payload)?,
    })
}

fn pi_message(value: &Value) -> Result<Option<PiMessage>, ()> {
    match value.get("message") {
        None | Some(Value::Null) => Ok(None),
        Some(message) if message.is_object() => Ok(Some(PiMessage {
            role: opt_text(message, &["role"])?,
            model: opt_text(message, &["model"])?,
            model_id: opt_text(message, &["modelId"])?,
            provider: opt_text(message, &["provider"])?,
            timestamp: log_time(message, "timestamp")?,
            usage: match message.get("usage") {
                None | Some(Value::Null) => None,
                Some(usage) => Some(pi_usage(usage)?),
            },
        })),
        Some(_) => Err(()),
    }
}

fn codex_record(line: &str) -> Option<Record> {
    let value: Value = serde_json::from_str(line).ok()?;
    if !value.is_object() {
        return None;
    }
    let convert = || -> Result<Record, ()> {
        Ok(Record {
            kind: opt_text(&value, &["type"])?.unwrap_or_default(),
            ordinal: opt_u64(&value, "ordinal")?,
            timestamp: log_time(&value, "timestamp")?,
            id: opt_text(&value, &["id"])?,
            session_id: opt_text(&value, &["session_id", "sessionId"])?,
            model: opt_text(&value, &["model"])?,
            model_id: opt_text(&value, &["modelId"])?,
            provider: opt_text(&value, &["provider"])?,
            payload: payload(&value)?,
            message: pi_message(&value)?,
        })
    };
    convert().ok()
}

fn content(value: Option<&Value>) -> Result<Content, ()> {
    match value {
        None | Some(Value::Null) => Ok(Content::Absent),
        Some(Value::String(text)) => Ok(Content::Text(text.clone())),
        Some(Value::Array(blocks)) => blocks
            .iter()
            .map(|block| match block.get("type") {
                Some(Value::String(kind)) => Ok(kind.clone()),
                _ => Err(()),
            })
            .collect::<Result<Vec<_>, _>>()
            .map(Content::Blocks),
        Some(_) => Err(()),
    }
}

fn flag(value: &Value, key: &str) -> Result<bool, ()> {
    match value.get(key) {
        None => Ok(false),
        Some(Value::Bool(flag)) => Ok(*flag),
        Some(_) => Err(()),
    }
}

fn anthropic_record(line: &str) -> Option<ClaudeRecord> {
    let value: Value = serde_json::from_str(line).ok()?;
    if !value.is_object() {
        return None;
    }
    let convert = || -> Result<ClaudeRecord, ()> {
        let message = match value.get("message") {
            None | Some(Value::Null) => None,
            Some(message) if message.is_object() => Some(ClaudeMessage {
                id: opt_text(message, &["id"])?,
                model: opt_text(message, &["model"])?,
                usage: opt_raw_usage(message, "usage")?,
                content: content(message.get("content"))?,
            }),
            Some(_) => return Err(()),
        };
        Ok(ClaudeRecord {
            kind: opt_text(&value, &["type"])?.unwrap_or_default(),
            timestamp: opt_text(&value, &["timestamp"])?,
            message,
            uuid: opt_text(&value, &["uuid"])?,
            request_id: opt_text(&value, &["requestId"])?,
            is_meta: flag(&value, "isMeta")?,
            is_compact_summary: flag(&value, "isCompactSummary")?,
            is_sidechain: flag(&value, "isSidechain")?,
            is_synthetic: flag(&value, "isSynthetic")?,
            subtype: opt_text(&value, &["subtype"])?,
            duration: milliseconds(value.get("durationMs"))?,
        })
    };
    convert().ok()
}

fn lines(text: &str) -> Vec<&str> {
    text.split_inclusive('\n').collect()
}

fn parse_text(provider: ProviderId, text: &str, path: &str) -> ParsedFile {
    let mut parsed = ParsedFile::new();
    match provider {
        ProviderId::Codex => {
            let mut state = ParserState::new(path);
            for line in lines(text) {
                if !parse_line(line, codex_record(line), &mut state, &mut parsed, path) {
                    break;
                }
            }
            finish_pass(&state, &mut parsed);
        }
        ProviderId::Claude => {
            let mut parser = ClaudeParser::new();
            for line in lines(text) {
                parse_claude_line(line, anthropic_record(line), &mut parser, &mut parsed, path);
            }
            finish_claude(&parser, &mut parsed);
        }
    }
    parsed
}

fn log_text(records: &[String]) -> String {
    records.join("\n") + "\n"
}

fn parsed(provider: ProviderId, records: &[String]) -> ParsedFile {
    parse_text(provider, &log_text(records), "test.jsonl")
}

// ---------------------------------------------------------------------------
// Calendar windows of 2026-09-16T20:00:00+08:00.

fn windows_at(day: &str, week: &str, month: &str, year: &str) -> Vec<Window> {
    vec![
        Window { label: PeriodLabel::Day, start: time(day) },
        Window { label: PeriodLabel::Week, start: time(week) },
        Window { label: PeriodLabel::Month, start: time(month) },
        Window { label: PeriodLabel::Year, start: time(year) },
        Window { label: PeriodLabel::All, start: time(year) },
    ]
}

fn windows() -> Vec<Window> {
    windows_at(
        "2026-09-15T16:00:00Z",
        "2026-09-13T16:00:00Z",
        "2026-08-31T16:00:00Z",
        "2025-12-31T16:00:00Z",
    )
}

fn end() -> Timestamp {
    time("2026-09-16T12:00:00Z")
}

fn collect_at(provider: ProviderId, files: &[Vec<String>], windows: &[Window], end: Timestamp) -> TokenStatistics {
    let parsed = files
        .iter()
        .enumerate()
        .map(|(index, records)| parse_text(provider, &log_text(records), &format!("file-{index}.jsonl")))
        .collect::<Vec<_>>();
    summarize(provider, &vendor(), &parsed, &windows.to_vec(), end, false, false)
}

fn collect(provider: ProviderId, files: &[Vec<String>]) -> TokenStatistics {
    collect_at(provider, files, &windows(), end())
}

// ---------------------------------------------------------------------------
// Log records.

fn usage(input: u64, cached: u64, output: u64) -> String {
    format!(r#"{{"input_tokens":{input},"cached_input_tokens":{cached},"output_tokens":{output}}}"#)
}

fn context(model: &str) -> String {
    format!(r#"{{"type":"turn_context","timestamp":"2026-09-16T09:00:00Z","payload":{{"turn_id":"turn-1","model":"{model}"}}}}"#)
}

fn started() -> String {
    r#"{"type":"event_msg","timestamp":"2026-09-16T09:00:00Z","payload":{"type":"task_started","turn_id":"turn-1"}}"#.to_string()
}

fn legacy(timestamp: &str, total: &str, last: &str) -> String {
    format!(r#"{{"type":"event_msg","timestamp":"{timestamp}","payload":{{"type":"token_count","info":{{"total_token_usage":{total},"last_token_usage":{last}}}}}}}"#)
}

fn modern(timestamp: &str, id: &str, count: &str) -> String {
    format!(r#"{{"type":"token_usage_record","timestamp":"{timestamp}","payload":{{"turn_id":"turn-1","response_id":"{id}","usage":{count},"thread_token_usage":{count}}}}}"#)
}

fn known_turn(provider: ProviderId, timestamp: &str, id: &str) -> Vec<String> {
    match provider {
        ProviderId::Codex => vec![
            format!(r#"{{"type":"turn_context","timestamp":"{timestamp}","payload":{{"turn_id":"{id}","model":"gpt-6-astra"}}}}"#),
            format!(r#"{{"type":"event_msg","timestamp":"{timestamp}","payload":{{"type":"task_started","turn_id":"{id}"}}}}"#),
            format!(r#"{{"type":"token_usage_record","timestamp":"{timestamp}","payload":{{"turn_id":"{id}","response_id":"{id}","usage":{{"input_tokens":100,"cached_input_tokens":40,"cache_write_input_tokens":20,"output_tokens":10}}}}}}"#),
        ],
        ProviderId::Claude => vec![
            format!(r#"{{"type":"user","timestamp":"{timestamp}","uuid":"{id}","message":{{"content":"hello"}}}}"#),
            format!(r#"{{"type":"assistant","timestamp":"{timestamp}","message":{{"id":"{id}","model":"{}-sonnet-4-6","usage":{{"input_tokens":40,"cache_read_input_tokens":40,"cache_creation_input_tokens":20,"output_tokens":10}}}}}}"#, vendor()),
        ],
    }
}

fn codex_meta(id: &str, parent: Option<&str>, ordinal: Option<u64>) -> String {
    let parent_text = parent.map_or("null".to_string(), |parent| format!("\"{parent}\""));
    let ordinal_text = ordinal.map_or("null".to_string(), |ordinal| ordinal.to_string());
    let source = if parent.is_some() { r#"{"subagent":{"thread_spawn":{}}}"# } else { r#""vscode""# };
    format!(
        r#"{{"type":"session_meta","ordinal":0,"timestamp":"2026-09-16T09:00:00Z","payload":{{"id":"{id}","forked_from_id":{parent_text},"subagent_history_start_ordinal":{ordinal_text},"source":{source}}}}}"#
    )
}

fn total(parsed: &ParsedFile) -> u64 {
    parsed.events.iter().map(|event| event.usage.total()).sum()
}

// ---------------------------------------------------------------------------

#[test]
fn old_unknown_metrics_propagate_only_to_periods_containing_them() {
    for provider in [ProviderId::Codex, ProviderId::Claude] {
        let unknown = |timestamp: &str| match provider {
            ProviderId::Codex => vec![legacy(timestamp, &usage(300, 40, 30), "null")],
            ProviderId::Claude => vec![format!(
                r#"{{"type":"assistant","timestamp":"{timestamp}","message":{{"model":"unknown","usage":{{"input_tokens":300,"output_tokens":30}}}}}}"#
            )],
        };
        let old = unknown("2025-12-01T00:00:00Z");
        let result = collect(provider, &[old.clone()]);
        let all = &result.periods[4];
        assert_eq!(all.total_tokens, 330);
        assert_eq!(all.unpriced_tokens, 330);
        assert_eq!(all.estimated_cost_nano_usd, None);
        assert_eq!(all.request_count, None);
        assert_eq!(all.conversation_turns, None);
        assert_eq!(result.periods[3].total_tokens, 0);
        assert_eq!(result.periods[3].request_count, Some(0));
        assert_eq!(result.periods[3].conversation_turns, Some(0));
        assert_eq!(result.periods[3].estimated_cost_nano_usd, Some(0));

        let result = collect(
            provider,
            &[
                old,
                known_turn(provider, "2026-09-16T09:00:00Z", "known"),
                unknown("2026-08-01T00:00:00Z"),
            ],
        );
        let day = &result.periods[0];
        assert_eq!(day.request_count, Some(1));
        assert_eq!(day.conversation_turns, Some(1));
        for (period, unpriced) in result.periods[3..].iter().zip([330, 660]) {
            assert_eq!(period.total_tokens, 110 + unpriced);
            assert_eq!(period.unpriced_tokens, unpriced);
            assert_eq!(period.estimated_cost_nano_usd, day.estimated_cost_nano_usd);
            assert_eq!(period.request_count, None);
            assert_eq!(period.conversation_turns, None);
        }
    }
}

#[test]
fn codex_repeated_snapshots_and_lagging_legacy_totals_are_not_new_requests() {
    let records = [
        context("gpt-6-astra"),
        started(),
        modern("2026-09-16T09:01:00Z", "response-1", &usage(100, 40, 10)),
        legacy("2026-09-16T09:01:00.001Z", &usage(90, 30, 10), &usage(100, 40, 10)),
        legacy("2026-09-16T09:01:10Z", &usage(90, 30, 10), &usage(100, 40, 10)),
        legacy("2026-09-16T09:01:30Z", &usage(80, 20, 10), &usage(100, 40, 10)),
        legacy("2026-09-16T09:01:31Z", &usage(0, 0, 0), &usage(0, 0, 0)),
        modern("2026-09-16T09:02:00Z", "response-2", &usage(150, 60, 15)),
        legacy("2026-09-16T09:02:00.001Z", &usage(250, 100, 25), &usage(150, 60, 15)),
    ];
    let result = parsed(ProviderId::Codex, &records);
    assert_eq!(result.events.len(), 2);
    assert_eq!(total(&result), 275);
    assert!(result.events.iter().all(|event| event.request_count == Some(1)));
    assert_eq!(result.turns.len(), 1);
}

#[test]
fn legacy_counts_deltas_handles_reset_and_marks_missing_requests_unknown() {
    let records = [
        context("gpt-5.6-sol"),
        started(),
        legacy("2026-09-16T09:01:00Z", &usage(100, 20, 10), &usage(100, 20, 10)),
        legacy("2026-09-16T09:02:00Z", &usage(400, 100, 50), &usage(150, 40, 20)),
        legacy("2026-09-16T09:03:00Z", &usage(50, 0, 5), &usage(50, 0, 5)),
    ];
    let result = parsed(ProviderId::Codex, &records);
    assert_eq!(result.events.len(), 3);
    assert_eq!(result.events[1].usage.total(), 340);
    assert_eq!(result.events[1].request_count, None);
    assert_eq!(result.events[2].usage.total(), 55);
    assert_eq!(result.events[2].request_count, Some(1));
}

#[test]
fn duplicate_files_fork_copies_and_model_contexts_do_not_double_bill() {
    let records = vec![
        context("gpt-6-astra"),
        started(),
        modern("2026-09-16T09:01:00Z", "response-1", &usage(100, 40, 10)),
    ];
    let result = collect(ProviderId::Codex, &[records.clone(), records.clone()]);
    assert_eq!(result.status, ProviderStatus::Ready);
    assert_eq!(result.periods[0].total_tokens, 110);
    assert_eq!(result.periods[0].request_count, Some(1));
    assert_eq!(result.periods[0].conversation_turns, Some(1));
    assert_eq!(result.periods[0].estimated_cost_nano_usd, Some(1_140_000));
    let mut records = records;
    records.insert(
        2,
        r#"{"type":"turn_context","payload":{"turn_id":"unrelated","model":"unknown-model"}}"#.to_string(),
    );
    assert_eq!(parsed(ProviderId::Codex, &records).events[0].model.as_deref(), Some("gpt-6-astra"));
}

#[test]
fn subagent_metadata_is_first_record_and_does_not_create_user_turns() {
    let records = [
        r#"{"type":"session_meta","payload":{"source":{"subagent":{"thread_spawn":{}}}}}"#.to_string(),
        r#"{"type":"session_meta","payload":{"source":"vscode"}}"#.to_string(),
        context("gpt-6-astra"),
        started(),
        modern("2026-09-16T09:01:00Z", "response-1", &usage(100, 40, 10)),
    ];
    let result = parsed(ProviderId::Codex, &records);
    assert_eq!(result.events.len(), 1);
    assert!(result.turns.is_empty());
    assert!(result.unknown_turns.is_empty());
}

#[test]
fn claude_merges_message_chunks_includes_caches_and_excludes_tool_results_and_meta_turns() {
    let human = |id: &str, content: &str, meta: bool| {
        format!(r#"{{"type":"user","uuid":"{id}","timestamp":"2026-09-16T08:00:00Z","isMeta":{meta},"message":{{"content":{content}}}}}"#)
    };
    let message = |output: u64| {
        format!(
            r#"{{"type":"assistant","uuid":"chunk-{output}","timestamp":"2026-09-16T09:01:00Z","message":{{"id":"message-1","model":"{}-sonnet-4-6","usage":{{"input_tokens":100,"cache_read_input_tokens":50,"cache_creation_input_tokens":20,"output_tokens":{output}}}}}}}"#,
            vendor()
        )
    };
    let records = vec![
        human("human-1", r#""hello""#, false),
        human("human-1", r#""copied history""#, false),
        human("tool-1", r#"[{"type":"tool_result","content":"result"}]"#, false),
        human("meta-1", r#""system context""#, true),
        message(5),
        message(20),
    ];
    let result = collect(ProviderId::Claude, &[records]);
    let day = &result.periods[0];
    assert_eq!(day.input_tokens, 170);
    assert_eq!(day.cached_input_tokens, 50);
    assert_eq!(day.cache_write_tokens, 20);
    assert_eq!(day.output_tokens, 20);
    assert_eq!(day.total_tokens, 190);
    assert_eq!(day.request_count, Some(1));
    assert_eq!(day.conversation_turns, Some(1));
    assert_eq!(day.estimated_cost_nano_usd, Some(690_000));
}

#[test]
fn missing_logs_are_unavailable_but_old_usage_makes_current_period_zero() {
    let result = collect(ProviderId::Codex, &[]);
    assert_eq!(result.status, ProviderStatus::Unavailable);
    assert_eq!(result.periods[0].estimated_cost_nano_usd, None);
    assert_eq!(result.periods[0].request_count, None);
    let result = collect(
        ProviderId::Codex,
        &[vec![context("gpt-6-astra"), modern("2026-08-01T00:00:00Z", "old-response", &usage(100, 40, 10))]],
    );
    assert_eq!(result.status, ProviderStatus::Ready);
    assert_eq!(result.periods[0].total_tokens, 0);
    assert_eq!(result.periods[0].estimated_cost_nano_usd, Some(0));
    assert_eq!(result.periods[0].request_count, Some(0));
}

#[test]
fn partially_priced_period_keeps_known_subtotal_and_exposes_unpriced_tokens() {
    let result = collect(
        ProviderId::Codex,
        &[vec![
            context("gpt-6-astra"),
            started(),
            modern("2026-09-16T09:01:00Z", "known-price", &usage(100, 40, 10)),
            context("codex-auto-review"),
            modern("2026-09-16T09:02:00Z", "unknown-price", &usage(200, 0, 20)),
        ]],
    );
    let day = &result.periods[0];
    assert_eq!(day.total_tokens, 330);
    assert_eq!(day.unpriced_tokens, 220);
    assert_eq!(day.estimated_cost_nano_usd, Some(1_140_000));
}

#[test]
fn exact_calendar_boundaries_unknown_prices_and_missing_turns_are_visible() {
    let result = collect(
        ProviderId::Codex,
        &[vec![
            context("unknown-model"),
            modern("2026-09-15T15:59:59.999Z", "before-day", &usage(10, 0, 1)),
            modern("2026-09-15T16:00:00Z", "day-boundary", &usage(20, 0, 2)),
            modern("2026-09-01T00:00:00Z", "month-only", &usage(30, 0, 3)),
            modern("2026-09-16T12:00:00.001Z", "future", &usage(40, 0, 4)),
        ]],
    );
    assert_eq!(
        result.periods.iter().map(|period| period.total_tokens).collect::<Vec<_>>(),
        [22, 33, 66, 66, 66]
    );
    assert_eq!(result.periods[0].estimated_cost_nano_usd, None);
    assert_eq!(result.periods[0].unpriced_tokens, 22);
    assert_eq!(result.periods[0].conversation_turns, None);
    assert!(result.message.unwrap().contains("无法还原"));
}

#[test]
fn future_only_logs_become_eligible_and_empty_all_starts_at_now() {
    for provider in [ProviderId::Codex, ProviderId::Claude] {
        let files = [known_turn(provider, "2026-09-17T00:00:00Z", "future")];
        let result = collect(provider, &files);
        assert_eq!(result.status, ProviderStatus::Unavailable);
        assert_eq!(result.periods[4].start_at, result.periods[4].end_at);
        for period in &result.periods {
            assert_eq!(period.total_tokens, 0);
            assert_eq!(period.request_count, None);
            assert_eq!(period.conversation_turns, None);
            assert_eq!(period.estimated_cost_nano_usd, None);
        }
        let later = windows_at(
            "2026-09-17T00:00:00Z",
            "2026-09-13T16:00:00Z",
            "2026-08-31T16:00:00Z",
            "2025-12-31T16:00:00Z",
        );
        let result = collect_at(provider, &files, &later, time("2026-09-17T00:00:00Z"));
        assert_eq!(result.status, ProviderStatus::Ready);
        for period in &result.periods {
            assert_eq!(period.total_tokens, 110);
            assert_eq!(period.request_count, Some(1));
            assert_eq!(period.conversation_turns, Some(1));
        }
        assert_eq!(result.periods[4].start_at, time("2026-09-17T00:00:00Z"));
    }
}

#[test]
fn future_claude_chunks_and_unknown_turns_cannot_change_current_metrics() {
    let mut records = known_turn(ProviderId::Claude, "2026-09-16T09:00:00Z", "message");
    records.push(r#"{"type":"assistant","timestamp":"2026-09-16T12:00:00.001Z","uuid":"message","message":{"model":"unknown","usage":{"input_tokens":1000,"output_tokens":900}}}"#.to_string());
    records.push(r#"{"type":"user","timestamp":"2026-09-16T12:00:00.001Z","message":{"content":"future user without id"}}"#.to_string());
    let result = collect(ProviderId::Claude, &[records]);
    for period in &result.periods {
        assert_eq!(period.total_tokens, 110);
        assert_eq!(period.request_count, Some(1));
        assert_eq!(period.conversation_turns, Some(1));
        assert_eq!(period.unpriced_tokens, 0);
        assert_eq!(period.estimated_cost_nano_usd, Some(357_000));
    }
}

#[test]
fn future_modern_codex_record_does_not_suppress_retained_legacy_usage() {
    for separate_files in [false, true] {
        let mut records = vec![
            context("gpt-6-astra"),
            started(),
            legacy("2026-09-16T09:01:00Z", &usage(100, 40, 10), &usage(100, 40, 10)),
        ];
        let future = modern("2026-09-16T12:00:00.001Z", "future", &usage(200, 40, 20));
        let mut files = Vec::new();
        if separate_files {
            files.push(vec![context("gpt-6-astra"), started(), future]);
        } else {
            records.push(future);
        }
        files.push(records);
        let result = collect(ProviderId::Codex, &files);
        for period in &result.periods {
            assert_eq!(period.total_tokens, 110);
            assert_eq!(period.request_count, Some(1));
            assert_eq!(period.conversation_turns, Some(1));
        }
        let later = windows_at(
            "2026-09-15T16:00:00Z",
            "2026-09-13T16:00:00Z",
            "2026-08-31T16:00:00Z",
            "2025-12-31T16:00:00Z",
        );
        let result = collect_at(ProviderId::Codex, &files, &later, time("2026-09-16T12:00:01Z"));
        for period in &result.periods {
            assert_eq!(period.total_tokens, 220);
            assert_eq!(period.request_count, Some(1));
        }
    }
}

#[test]
fn truncated_active_line_is_ignored_and_bad_complete_line_reports_partial_data() {
    let text = context("gpt-6-astra")
        + "\n"
        + &modern("2026-09-16T09:01:00Z", "response-1", &usage(100, 0, 10))
        + "\n{\"type\":\"token_usage_record\",";
    let result = parse_text(ProviderId::Codex, &text, "test");
    assert!(!result.malformed);
    assert_eq!(result.events.len(), 1);
    let result = parse_text(ProviderId::Codex, &(text + "\n"), "test");
    assert!(result.malformed);
}

#[test]
fn missing_usage_fields_are_not_reported_as_zero_usage_or_a_request() {
    for invalid in ["{}", r#"{"input_tokens": 100}"#, r#"{"output_tokens": 100}"#] {
        let result = parsed(
            ProviderId::Codex,
            &[context("gpt-6-astra"), modern("2026-09-16T09:01:00Z", "invalid", invalid)],
        );
        assert!(result.first_usage.is_none());
        assert!(result.events.is_empty());
        assert!(result.malformed);
        let result = parsed(
            ProviderId::Claude,
            &[format!(
                r#"{{"type":"assistant","timestamp":"2026-09-16T09:01:00Z","message":{{"id":"invalid","usage":{invalid}}}}}"#
            )],
        );
        assert!(result.first_usage.is_none());
        assert!(result.events.is_empty());
        assert!(result.malformed);
    }
}

#[test]
fn pure_legacy_zero_resets_are_not_requests() {
    let result = parsed(
        ProviderId::Codex,
        &[
            context("gpt-6-astra"),
            started(),
            legacy("2026-09-16T09:01:00Z", &usage(100, 0, 10), &usage(100, 0, 10)),
            legacy("2026-09-16T09:01:30Z", &usage(0, 0, 0), &usage(0, 0, 0)),
        ],
    );
    assert_eq!(result.events.len(), 1);
    assert_eq!(result.events[0].request_count, Some(1));
}

#[test]
fn request_records_override_legacy_copies_of_the_same_turn_across_files() {
    let result = collect(
        ProviderId::Codex,
        &[
            vec![context("gpt-6-astra"), started(), modern("2026-09-16T09:01:00Z", "response-1", &usage(100, 0, 10))],
            vec![
                context("gpt-6-astra"),
                started(),
                legacy("2026-09-16T09:01:30Z", &usage(100, 0, 10), &usage(100, 0, 10)),
            ],
        ],
    );
    assert_eq!(result.periods[0].request_count, Some(1));
    assert_eq!(result.periods[0].total_tokens, 110);
}

#[test]
fn local_subagent_marker_proves_owned_suffix_and_model_context_is_authoritative() {
    let records = [
        codex_meta("child", Some("missing-parent"), None),
        legacy("2026-09-16T09:01:00Z", &usage(1000, 900, 100), "null"),
        context("gpt-6-astra"),
        r#"{"type":"inter_agent_communication_metadata","timestamp":"2026-09-16T09:01:00Z","payload":{"trigger_turn":true}}"#.to_string(),
        legacy("2026-09-16T09:02:00Z", &usage(1050, 910, 105), &usage(50, 10, 5)),
        legacy("2026-09-16T09:03:00Z", &usage(1070, 915, 110), &usage(20, 5, 5)),
    ];
    let result = parsed(ProviderId::Codex, &records);
    assert_eq!(total(&result), 80);
    assert!(result.events.iter().all(|event| event.fork_baseline.is_none()));
    let request = r#"{"type":"token_usage_record","timestamp":"2026-09-16T09:04:00Z","payload":{"turn_id":"turn-1","response_id":"model-authority","usage":{"input_tokens":10,"cached_input_tokens":0,"output_tokens":1},"thread_token_usage":{"input_tokens":10,"cached_input_tokens":0,"output_tokens":1},"model":"stale-model"}}"#.to_string();
    let result = parsed(ProviderId::Codex, &[context("gpt-6-astra"), request]);
    assert_eq!(result.events[0].model.as_deref(), Some("gpt-6-astra"));
}

#[test]
fn independent_sessions_with_identical_legacy_usage_do_not_collide() {
    let files = ["one", "two"]
        .iter()
        .map(|id| {
            vec![
                codex_meta(id, None, None),
                legacy("2026-09-16T09:01:00Z", &usage(100, 0, 10), &usage(100, 0, 10)),
            ]
        })
        .collect::<Vec<_>>();
    let result = collect(ProviderId::Codex, &files);
    assert_eq!(result.periods[4].total_tokens, 220);
}

#[test]
fn pi_omp_filter_provider_combine_disjoint_caches_and_deduplicate_across_days() {
    let mut records = vec![
        r#"{"type":"session","id":"pi-session"}"#.to_string(),
        r#"{"type":"model_change","provider":"openai-codex","modelId":"gpt-6-astra"}"#.to_string(),
        r#"{"type":"message","id":"user","timestamp":"2026-09-15T08:00:00Z","message":{"role":"user"}}"#.to_string(),
        r#"{"type":"message","id":"old","timestamp":"2026-09-15T09:00:00Z","message":{"role":"assistant","usage":{"input":40,"cacheRead":30,"cacheWrite":20,"output":10}}}"#.to_string(),
        r#"{"type":"message","id":"ignored","timestamp":"2026-09-16T09:00:00Z","message":{"role":"assistant","provider":"openai","model":"gpt-6-astra","usage":{"input":9000,"output":1000}}}"#.to_string(),
        r#"{"type":"message","id":"today","timestamp":"2026-09-16T09:00:00Z","message":{"role":"assistant","usage":{"input_tokens":100,"output_tokens":10}}}"#.to_string(),
        format!(r#"{{"type":"model_change","provider":"anthropic","modelId":"{}-sonnet-4-6"}}"#, vendor()),
        r#"{"type":"message","id":"other","timestamp":"2026-09-16T09:00:00Z","message":{"role":"assistant","usage":{"input":8000,"output":1000}}}"#.to_string(),
    ];
    let result = collect(ProviderId::Codex, &[records.clone(), records.clone()]);
    assert_eq!(result.periods[0].total_tokens, 110);
    assert_eq!(result.periods[4].total_tokens, 210);
    assert_eq!(result.periods[4].cached_input_tokens, 30);
    assert_eq!(result.periods[4].cache_write_tokens, 20);
    assert_eq!(result.periods[4].request_count, Some(2));
    assert_eq!(result.periods[4].conversation_turns, Some(1));
    let copy = records.clone();
    records.push(r#"{"type":"message","id":"new-explicit","timestamp":"2026-09-16T10:00:00Z","message":{"role":"assistant","provider":"openai-codex","model":"gpt-6-astra","usage":{"input":20,"output":2}}}"#.to_string());
    let result = collect(ProviderId::Codex, &[records, copy]);
    assert_eq!(result.periods[4].total_tokens, 232);
    assert_eq!(result.periods[4].request_count, Some(3));
}

#[test]
fn confirmed_legacy_reset_starts_a_new_deduplication_epoch() {
    let result = parsed(
        ProviderId::Codex,
        &[
            context("gpt-6-astra"),
            started(),
            legacy("2026-09-16T09:01:00Z", &usage(100, 0, 10), &usage(100, 0, 10)),
            legacy("2026-09-16T09:02:00Z", &usage(0, 0, 0), &usage(0, 0, 0)),
            legacy("2026-09-16T09:03:00Z", &usage(100, 0, 10), &usage(100, 0, 10)),
            legacy("2026-09-16T09:04:00Z", &usage(100, 0, 10), &usage(100, 0, 10)),
        ],
    );
    assert_eq!(result.events.len(), 2);
    assert_eq!(total(&result), 220);
}

#[test]
fn a_resumed_pass_reads_only_lines_appended_after_its_offset() {
    let first = log_text(&[context("gpt-6-astra"), started(), modern("2026-09-16T09:01:00Z", "first", &usage(100, 0, 10))]);
    let mut parsed = ParsedFile::new();
    let mut state = ParserState::new("session.jsonl");
    for line in lines(&first) {
        assert!(parse_line(line, codex_record(line), &mut state, &mut parsed, "session.jsonl"));
    }
    assert_eq!(state.offset, first.len() as u64);
    assert_eq!(state.line_number, 3);
    let appended = modern("2026-09-16T09:02:00Z", "second", &usage(20, 0, 2)) + "\n";
    for line in lines(&appended) {
        assert!(parse_line(line, codex_record(line), &mut state, &mut parsed, "session.jsonl"));
    }
    finish_pass(&state, &mut parsed);
    assert_eq!(parsed.events.len(), 2);
    assert_eq!(total(&parsed), 132);
    assert_eq!(parsed.first_usage, Some(time("2026-09-16T09:01:00Z")));
}

// ---------------------------------------------------------------------------
// Activity.

fn utc(value: &str) -> DateTime<Utc> {
    DateTime::parse_from_rfc3339(value).unwrap().with_timezone(&Utc)
}

fn day_in<Tz: TimeZone>(zone: &Tz, time: Timestamp) -> i64 {
    let instant = DateTime::from_timestamp(time.secs, time.nanos).unwrap();
    instant.with_timezone(zone).date_naive().num_days_from_ce() as i64
}

fn activity_in<Tz: TimeZone>(
    now: DateTime<Tz>,
    times: &[Timestamp],
    tasks: &[&CompletedTask],
) -> Option<ActivityStatistics> {
    let zone = now.timezone();
    let end = stamp(now.with_timezone(&Utc));
    let today = now.date_naive().num_days_from_ce() as i64;
    let times = times
        .iter()
        .map(|time| DatedTime { at: *time, day: day_in(&zone, *time) })
        .collect::<Vec<_>>();
    let tasks = tasks
        .iter()
        .map(|task| {
            let started = task.started_at.map_or(0, |start| day_in(&zone, start));
            task.dated(started, day_in(&zone, task.completed_at))
        })
        .collect::<Vec<DatedTask>>();
    summarize_activity(today, end, &times, &tasks)
}

fn activity_summary(parsed: &ParsedFile) -> Option<ActivityStatistics> {
    let times = parsed.turns.iter().map(|turn| turn.timestamp).collect::<Vec<_>>();
    let tasks = parsed.completed_tasks.iter().collect::<Vec<_>>();
    activity_in(utc("2026-09-17T12:00:00Z"), &times, &tasks)
}

fn task(kind: &str, id: &str, timestamp: &str) -> Value {
    serde_json::from_str(&format!(
        r#"{{"type":"event_msg","timestamp":"{timestamp}","payload":{{"type":"{kind}","turn_id":"{id}"}}}}"#
    ))
    .unwrap()
}

fn values(provider: ProviderId, records: &[Value]) -> ParsedFile {
    let records = records.iter().map(Value::to_string).collect::<Vec<_>>();
    parse_text(provider, &log_text(&records), "activity.jsonl")
}

#[test]
fn streaks_use_local_days_deduplicate_and_ignore_future_records() {
    let now = DateTime::parse_from_rfc3339("2026-09-17T00:30:00+08:00").unwrap();
    let times = [
        "2026-09-12T16:00:00Z",
        "2026-09-13T16:00:00Z",
        "2026-09-14T16:00:00Z",
        "2026-09-14T20:00:00Z",
        "2026-09-16T16:00:00Z",
        "2026-09-17T16:00:00Z",
    ]
    .map(time);
    let result = activity_in(now, &times, &[]).unwrap();
    assert_eq!(result.current_streak_days, Some(1));
    assert_eq!(result.longest_streak_days, Some(3));
    assert_eq!(result.longest_running_turn_sec, None);
    let boundary = ["2026-09-16T15:59:00Z", "2026-09-16T16:01:00Z"].map(time);
    let east_result = activity_in(now, &boundary, &[]).unwrap();
    assert_eq!(east_result.current_streak_days, Some(2));
    let west = now.with_timezone(&FixedOffset::west_opt(7 * 3600).unwrap());
    let result = activity_in(west, &boundary, &[]).unwrap();
    assert_eq!(result.current_streak_days, Some(1));
    assert_eq!(result.longest_streak_days, Some(1));
}

#[test]
fn streak_ending_yesterday_survives_until_tomorrow_and_empty_is_unknown() {
    let times = ["2026-09-14T09:00:00Z", "2026-09-15T09:00:00Z", "2026-09-16T09:00:00Z"].map(time);
    let result = activity_in(utc("2026-09-17T09:00:00Z"), &times, &[]).unwrap();
    assert_eq!(result.current_streak_days, Some(3));
    let result = activity_in(utc("2026-09-18T09:00:00Z"), &times, &[]).unwrap();
    assert_eq!(result.current_streak_days, Some(0));
    assert_eq!(result.longest_streak_days, Some(3));
    assert!(activity_in(utc("2026-09-17T09:00:00Z"), &[], &[]).is_none());
}

#[test]
fn explicit_duration_is_authoritative_and_only_completed_past_tasks_count() {
    let start = time("2026-09-16T09:00:00Z");
    let end = time("2026-09-16T09:02:00Z");
    let task = CompletedTask::new("task".into(), Some(start), end, explicit(Some(1500.0))).unwrap();
    assert_eq!(task.duration_sec, 1);
    let same_task = CompletedTask::new("task".into(), Some(start), end, explicit(Some(1500.0))).unwrap();
    let future = CompletedTask::new("future".into(), Some(start), time("2026-09-18T09:00:00Z"), explicit(None)).unwrap();
    let result = activity_in(utc("2026-09-17T09:00:00Z"), &[], &[&task, &same_task, &future]).unwrap();
    assert_eq!(result.longest_running_turn_sec, Some(1));
    assert_eq!(result.current_streak_days, Some(1));
    assert!(CompletedTask::new("bad".into(), Some(end), start, explicit(Some(1.0))).is_none());
    assert!(CompletedTask::new("bad".into(), None, end, explicit(Some(-1.0))).is_none());
    assert!(CompletedTask::new("bad".into(), None, end, explicit(Some(f64::NAN))).is_none());
    assert!(CompletedTask::new("unknown".into(), None, end, explicit(None)).is_none());
}

#[test]
fn codex_pairs_turn_ids_and_ignores_unfinished_aborted_or_unmatched_tasks() {
    let parsed = values(
        ProviderId::Codex,
        &[
            task("task_started", "done", "2026-09-16T09:00:00Z"),
            task("task_started", "done", "2026-09-16T09:00:10Z"),
            task("task_complete", "done", "2026-09-16T09:02:30Z"),
            task("task_started", "alias", "2026-09-16T09:04:00Z"),
            task("task_completed", "alias", "2026-09-16T09:05:00Z"),
            task("task_started", "open", "2026-09-01T09:00:00Z"),
            task("task_complete", "unmatched", "2026-09-16T09:09:00Z"),
            task("task_started", "abort", "2026-09-01T09:00:00Z"),
            task("turn_aborted", "abort", "2026-09-16T09:00:00Z"),
            task("task_complete", "abort", "2026-09-16T09:10:00Z"),
        ],
    );
    assert_eq!(parsed.completed_tasks.len(), 2);
    assert_eq!(activity_summary(&parsed).unwrap().longest_running_turn_sec, Some(150));
    let open = values(ProviderId::Codex, &[task("task_started", "open", "2026-09-01T09:00:00Z")]);
    assert_eq!(activity_summary(&open).unwrap().longest_running_turn_sec, None);
}

#[test]
fn codex_explicit_metadata_survives_rewritten_envelope_times() {
    let start = utc("2026-09-16T09:00:00Z").timestamp();
    let mut explicit_task = task("task_complete", "explicit", "2026-09-19T09:00:00Z");
    explicit_task["payload"]["started_at"] = Value::from(start);
    explicit_task["payload"]["completed_at"] = Value::from(start + 600);
    explicit_task["payload"]["duration_ms"] = Value::from(62_900);
    let mut fallback = task("task_complete", "metadata", "2026-09-19T09:00:00Z");
    fallback["payload"]["started_at"] = Value::from(start);
    fallback["payload"]["completed_at"] = Value::from(start + 60);
    let parsed = values(ProviderId::Codex, &[explicit_task, fallback]);
    let result = activity_summary(&parsed).unwrap();
    assert_eq!(result.longest_running_turn_sec, Some(62));
    assert_eq!(result.current_streak_days, Some(1));
}

fn object(text: &str) -> Value {
    serde_json::from_str(text).unwrap()
}

#[test]
fn fork_ownership_and_subagent_boundaries_apply_to_completed_tasks() {
    let meta = object(
        r#"{"type":"session_meta","timestamp":"2026-09-16T09:00:00Z","payload":{"id":"fork","forked_from_id":"parent","subagent_history_start_ordinal":10,"source":"vscode"}}"#,
    );
    let mut inherited = task("task_complete", "parent-task", "2026-09-16T09:00:00Z");
    inherited["ordinal"] = Value::from(9);
    inherited["payload"]["duration_ms"] = Value::from(9_999_000);
    let mut own = task("task_complete", "own-task", "2026-09-16T09:02:00Z");
    own["ordinal"] = Value::from(11);
    own["payload"]["duration_ms"] = Value::from(60_000);
    let parsed = values(ProviderId::Codex, &[meta.clone(), inherited.clone(), own.clone()]);
    assert_eq!(parsed.completed_tasks.len(), 1);
    assert_eq!(activity_summary(&parsed).unwrap().longest_running_turn_sec, Some(60));
    let mut child = meta;
    child["payload"]["source"] = object(r#"{"subagent":{"thread_spawn":{}}}"#);
    let parsed = values(ProviderId::Codex, &[child, inherited, own]);
    assert!(parsed.completed_tasks.is_empty());
    assert!(activity_summary(&parsed).is_none());
}

fn replayed(provider: ProviderId, records: &[Value]) -> ParsedFile {
    let records = records.iter().map(Value::to_string).collect::<Vec<_>>();
    let text = log_text(&records);
    let path = "activity.jsonl";
    let mut parsed = ParsedFile::new();
    let mut state = ParserState::new(path);
    for line in lines(&text) {
        if !parse_line(line, codex_record(line), &mut state, &mut parsed, path) {
            break;
        }
    }
    finish_pass(&state, &mut parsed);
    assert_eq!(provider, ProviderId::Codex);
    if let Some(seed) = agentbar::statistics::codex_history::replay_seed(&state, path) {
        let mut state = seed;
        parsed = ParsedFile::new();
        for line in lines(&text) {
            if !parse_line(line, codex_record(line), &mut state, &mut parsed, path) {
                break;
            }
        }
        finish_pass(&state, &mut parsed);
    }
    parsed
}

#[test]
fn fork_timestamp_boundary_uses_original_completion_and_late_ordinal_replays_activity() {
    let mut meta = object(
        r#"{"type":"session_meta","timestamp":"2026-09-16T09:00:00Z","payload":{"id":"fork","forked_from_id":"parent","source":"vscode"}}"#,
    );
    let mut inherited = task("task_complete", "parent-task", "2026-09-16T10:00:00Z");
    inherited["payload"]["completed_at"] = Value::from(utc("2026-09-16T08:00:00Z").timestamp());
    inherited["payload"]["duration_ms"] = Value::from(9_999_000);
    let parsed = replayed(ProviderId::Codex, &[meta.clone(), inherited.clone()]);
    assert!(parsed.completed_tasks.is_empty());

    meta["payload"]["forked_from_id"] = Value::Null;
    let mut owned = task("task_complete", "own-task", "2026-09-16T10:00:00Z");
    owned["ordinal"] = Value::from(11);
    owned["payload"]["duration_ms"] = Value::from(60_000);
    inherited["ordinal"] = Value::from(9);
    let mut late_meta = meta.clone();
    late_meta["payload"]["subagent_history_start_ordinal"] = Value::from(10);
    let parsed = replayed(ProviderId::Codex, &[meta, inherited, late_meta, owned]);
    assert_eq!(parsed.completed_tasks.len(), 1);
    assert_eq!(activity_summary(&parsed).unwrap().longest_running_turn_sec, Some(60));
}

#[test]
fn claude_only_uses_explicit_turn_duration_and_real_human_activity() {
    let parsed = values(
        ProviderId::Claude,
        &[
            object(r#"{"type":"user","timestamp":"2026-09-01T09:00:00Z","uuid":"meta","isMeta":true,"message":{"content":"metadata"}}"#),
            object(r#"{"type":"user","timestamp":"2026-09-16T09:00:00Z","uuid":"human","message":{"content":"hello"}}"#),
            object(r#"{"type":"system","subtype":"turn_duration","timestamp":"2026-09-16T09:01:00Z","uuid":"duration","durationMs":62990}"#),
            object(r#"{"type":"system","subtype":"turn_duration","timestamp":"2026-09-16T09:02:00Z","uuid":"child-duration","durationMs":900000,"isSidechain":true}"#),
            object(r#"{"type":"system","subtype":"turn_duration","timestamp":"2026-09-16T09:02:00Z","uuid":"bad-duration","durationMs":-1}"#),
        ],
    );
    assert_eq!(parsed.turns.len(), 1);
    assert_eq!(parsed.completed_tasks.len(), 1);
    assert_eq!(activity_summary(&parsed).unwrap().longest_running_turn_sec, Some(62));
}

#[test]
fn a_repeated_cumulative_snapshot_counts_once() {
    let line = legacy("2026-09-16T09:01:00Z", &usage(100, 0, 10), &usage(100, 0, 10));
    let result = parsed(ProviderId::Codex, &[context("gpt-6-astra"), started(), line.clone(), line]);
    assert_eq!(result.events.len(), 1);
    assert_eq!(total(&result), 110);
}

#[test]
fn history_copied_before_a_fork_is_not_counted() {
    let records = [
        codex_meta("child", Some("parent"), Some(5)),
        r#"{"type":"event_msg","ordinal":3,"timestamp":"2026-09-16T09:00:30Z","payload":{"type":"token_count","info":{"total_token_usage":{"input_tokens":500,"output_tokens":50},"last_token_usage":{"input_tokens":500,"output_tokens":50}}}}"#.to_string(),
        r#"{"type":"token_usage_record","ordinal":4,"timestamp":"2026-09-16T09:00:40Z","payload":{"turn_id":"t","response_id":"copied","usage":{"input_tokens":7,"output_tokens":1}}}"#.to_string(),
        r#"{"type":"token_usage_record","ordinal":6,"timestamp":"2026-09-16T09:01:00Z","payload":{"turn_id":"t","response_id":"own","usage":{"input_tokens":20,"output_tokens":2}}}"#.to_string(),
    ];
    let result = parsed(ProviderId::Codex, &records);
    assert_eq!(result.events.len(), 1);
    assert_eq!(result.events[0].key, "codex-response:own");
    assert_eq!(total(&result), 22);
}
