use agentbar::account_activity::{apply_metadata, is_day, map_stats, valid_service_date, RawDay, RawStats};
use agentbar::account_statistics::AccountUsageSnapshot;
use agentbar::models::{CodexStatisticsSource, ProviderStatus};
use agentbar::providers::FetchError;
use agentbar::time::Timestamp;
use serde_json::Value;

const PARTIAL_STATS: &str = "服务端提示部分使用统计暂不可用，已展示已返回的数据";

fn now() -> Timestamp {
    Timestamp { secs: 1_789_700_000, nanos: 0 }
}

fn count(value: &Value, keys: &[&str]) -> Result<Option<u64>, ()> {
    for key in keys {
        match value.get(*key) {
            None => continue,
            Some(Value::Null) => return Ok(None),
            Some(number) => return number.as_u64().map(Some).ok_or(()),
        }
    }
    Ok(None)
}

/// The statistics object read as the service's typed schema reads it.
fn raw_stats(value: &Value) -> Result<RawStats, ()> {
    if !value.is_object() {
        return Err(());
    }
    let daily_usage_buckets = match value.get("daily_usage_buckets") {
        None | Some(Value::Null) => None,
        Some(Value::Array(items)) => Some(
            items
                .iter()
                .map(|item| {
                    Ok(RawDay {
                        start_date: item
                            .get("start_date")
                            .or_else(|| item.get("startDate"))
                            .and_then(Value::as_str)
                            .ok_or(())?
                            .to_string(),
                        tokens: item.get("tokens").and_then(Value::as_u64).ok_or(())?,
                    })
                })
                .collect::<Result<Vec<_>, ()>>()?,
        ),
        Some(_) => return Err(()),
    };
    Ok(RawStats {
        lifetime_tokens: count(value, &["lifetime_tokens", "lifetimeTokens"])?,
        peak_daily_tokens: count(value, &["peak_daily_tokens", "peakDailyTokens"])?,
        longest_running_turn_sec: count(value, &["longest_running_turn_sec", "longestRunningTurnSec"])?,
        current_streak_days: count(value, &["current_streak_days", "currentStreakDays"])?,
        longest_streak_days: count(value, &["longest_streak_days", "longestStreakDays"])?,
        daily_usage_buckets,
    })
}

fn parse_profile(
    text: &str,
    source: CodexStatisticsSource,
    email: Option<String>,
    account_id: Option<String>,
) -> Result<AccountUsageSnapshot, FetchError> {
    let value: Value = serde_json::from_str(text).unwrap();
    let stats = value.get("stats").ok_or(FetchError::InvalidResponse)?;
    let stats = raw_stats(stats).map_err(|_| FetchError::InvalidResponse)?;
    let mut snapshot = map_stats(stats, source, email, account_id, now())?;
    if let Some(metadata) = value.get("metadata").filter(|metadata| metadata.is_object()) {
        let text = |key: &str| metadata.get(key).and_then(Value::as_str).map(str::to_string);
        apply_metadata(&mut snapshot, text("stats_as_of"), text("stats_error"));
    }
    Ok(snapshot)
}

#[test]
fn profile_keeps_missing_empty_and_zero_distinct_and_never_fills_dates() {
    let missing = parse_profile(r#"{"stats":{}}"#, CodexStatisticsSource::Oauth, None, None).unwrap();
    assert_eq!(missing.status, ProviderStatus::Unavailable);
    assert!(missing.summary.lifetime_tokens.is_none());
    assert!(missing.daily_usage.is_none());
    assert_eq!(missing.message.as_deref(), Some("服务端暂未返回可展示的 Token 活动数据"));
    let zero = parse_profile(r#"{"stats":{"lifetime_tokens":0}}"#, CodexStatisticsSource::Oauth, None, None).unwrap();
    assert_eq!(zero.status, ProviderStatus::Ready);
    assert_eq!(zero.summary.lifetime_tokens, Some(0));
    let empty = parse_profile(r#"{"stats":{"daily_usage_buckets":[]}}"#, CodexStatisticsSource::Oauth, None, None).unwrap();
    assert!(empty.daily_usage.unwrap().is_empty());
    let stats = parse_profile(
        r#"{"stats":{"lifetime_tokens":100,"peak_daily_tokens":80,"longest_running_turn_sec":3600,"current_streak_days":2,"longest_streak_days":4,"daily_usage_buckets":[{"start_date":"2026-09-17","tokens":80},{"start_date":"2026-09-15","tokens":20}]}}"#,
        CodexStatisticsSource::Oauth,
        Some("user@example.test".into()),
        Some("account-test".into()),
    )
    .unwrap();
    assert_eq!(stats.source, CodexStatisticsSource::Oauth);
    assert_eq!(stats.account.as_deref(), Some("user@example.test"));
    assert_eq!(stats.account_id.as_deref(), Some("account-test"));
    assert_eq!(stats.summary.longest_running_turn_sec, Some(3600));
    let daily = stats.daily_usage.unwrap();
    assert_eq!(daily.len(), 2);
    assert_eq!(daily[0].date, "2026-09-15");
    assert_eq!(daily[1].date, "2026-09-17");
    assert_eq!(daily[1].tokens, 80);
    assert_eq!(stats.updated_at.as_deref(), Some("2026-09-18T02:53:20Z"));
}

#[test]
fn invalid_counts_dates_and_duplicate_buckets_fail_without_fabricating_totals() {
    for stats in [
        r#"{"lifetime_tokens":-1}"#,
        r#"{"lifetime_tokens":1.5}"#,
        r#"{"daily_usage_buckets":[{"start_date":"2026-09-17","tokens":-1}]}"#,
        r#"{"daily_usage_buckets":[{"start_date":"2026-02-30","tokens":1}]}"#,
        r#"{"daily_usage_buckets":[{"start_date":"2026-9-17","tokens":1}]}"#,
        r#"{"daily_usage_buckets":[{"start_date":"2026-09-17","tokens":1},{"start_date":"2026-09-17","tokens":1}]}"#,
    ] {
        assert_eq!(
            parse_profile(&format!(r#"{{"stats":{stats}}}"#), CodexStatisticsSource::Pat, None, None).unwrap_err(),
            FetchError::InvalidResponse
        );
    }
    for value in ["{}", "[]", r#"{"stats":null}"#] {
        assert!(parse_profile(value, CodexStatisticsSource::Pat, None, None).is_err());
    }
}

#[test]
fn service_metadata_preserves_valid_dates_but_never_exposes_upstream_error_text() {
    let snapshot = parse_profile(
        r#"{"stats":{"lifetime_tokens":12},"metadata":{"stats_as_of":"2026-09-09","stats_error":"private response with synthetic-secret"}}"#,
        CodexStatisticsSource::Oauth,
        None,
        None,
    )
    .unwrap();
    assert_eq!(snapshot.service_updated_at.as_deref(), Some("2026-09-09"));
    assert_eq!(snapshot.message.as_deref(), Some(PARTIAL_STATS));
    assert!(!format!("{snapshot:?}").contains("secret"));
    let snapshot = parse_profile(
        r#"{"stats":{"lifetime_tokens":12},"metadata":{"stats_as_of":"private upstream string","stats_error":""}}"#,
        CodexStatisticsSource::Oauth,
        None,
        None,
    )
    .unwrap();
    assert!(snapshot.service_updated_at.is_none());
    assert!(snapshot.message.is_none());
    assert_eq!(valid_service_date("2026-09-09T12:00:00+00:00".into()).as_deref(), Some("2026-09-09T12:00:00Z"));
}

#[test]
fn days_are_exactly_ten_byte_calendar_dates() {
    assert!(is_day("2026-09-17"));
    assert!(!is_day("2026-02-30"));
    assert!(!is_day("2026-9-17"));
    assert!(!is_day("02026-9-17"));
    assert!(!is_day("2026-09-17T00:00:00Z"));
}
