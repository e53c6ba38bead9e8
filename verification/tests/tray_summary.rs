use agentbar::models::{ProviderId, ProviderStatus};
use agentbar::time::Timestamp;
use agentbar::tray_summary::{reset_countdown, title, tooltip, TrayProvider, TrayWindow};
use chrono::{DateTime, Duration, Utc};

fn now_time() -> DateTime<Utc> {
    DateTime::parse_from_rfc3339("2026-09-16T04:00:00Z").unwrap().with_timezone(&Utc)
}

fn now() -> Timestamp {
    Timestamp { secs: now_time().timestamp(), nanos: 0 }
}

/// A window whose remaining share is what the menu shows for a finite used
/// percentage, and none for one that is not a number or infinite.
fn window(remaining_percent: Option<u8>, remaining: Duration) -> TrayWindow {
    TrayWindow {
        label: "每周用量".into(),
        remaining_percent,
        resets_at: Some((now_time() + remaining).to_rfc3339()),
    }
}

fn provider(id: ProviderId, windows: Vec<TrayWindow>) -> TrayProvider {
    TrayProvider { id, name: format!("{id:?}"), status: ProviderStatus::Ready, windows }
}

#[test]
fn title_uses_remaining_percent_and_requested_day_hour_format() {
    let providers = vec![provider(ProviderId::Codex, vec![window(Some(60), Duration::hours(68))])];
    assert_eq!(title(&providers, now()).as_deref(), Some("60% 2天 20小时"));
    assert_eq!(tooltip(&providers, now()), "AgentBar · Codex · 每周用量\n剩余 60% · 2天 20小时");
}

#[test]
fn countdown_rounds_up_to_minutes_and_handles_boundaries() {
    for (remaining, expected) in [
        (Duration::nanoseconds(1), "1分钟"),
        (Duration::seconds(60), "1分钟"),
        (Duration::seconds(61), "2分钟"),
        (Duration::minutes(59), "59分钟"),
        (Duration::seconds(3_541), "1小时"),
        (Duration::hours(1) + Duration::seconds(1), "1小时 1分钟"),
        (Duration::minutes(1439), "23小时 59分钟"),
        (Duration::seconds(86_341), "1天"),
        (Duration::days(2), "2天"),
        (Duration::hours(49) + Duration::minutes(20), "2天 1小时"),
        (Duration::zero(), "等待重置"),
        (Duration::seconds(-1), "等待重置"),
    ] {
        let resets_at = (now_time() + remaining).to_rfc3339();
        assert_eq!(reset_countdown(Some(&resets_at), now()), expected);
    }
}

#[test]
fn missing_or_invalid_reset_keeps_known_usage() {
    for resets_at in [None, Some("invalid".to_string())] {
        let mut window = window(Some(60), Duration::zero());
        window.resets_at = resets_at;
        let providers = vec![provider(ProviderId::Codex, vec![window])];
        assert_eq!(title(&providers, now()).as_deref(), Some("60% 重置时间未知"));
    }
}

#[test]
fn reset_timestamps_respect_timezone_offsets() {
    assert_eq!(reset_countdown(Some("2026-09-16T13:30:00+08:00"), now()), "1小时 30分钟");
}

#[test]
fn codex_primary_window_wins_over_claude_and_other_windows() {
    let mut primary = window(Some(60), Duration::hours(5));
    primary.label = "5 小时用量".into();
    let mut spark = window(Some(10), Duration::hours(1));
    spark.label = "Spark · 5 小时用量".into();
    let providers = vec![
        provider(ProviderId::Claude, vec![window(Some(90), Duration::hours(1))]),
        provider(ProviderId::Codex, vec![primary, window(Some(20), Duration::days(3)), spark]),
    ];
    assert_eq!(title(&providers, now()).as_deref(), Some("60% 5小时"));
    assert!(tooltip(&providers, now()).contains("Codex · 5 小时用量"));
}

#[test]
fn unavailable_or_invalid_codex_usage_falls_back_to_claude() {
    for (status, windows) in [
        (ProviderStatus::Unavailable, vec![window(Some(60), Duration::hours(5))]),
        (ProviderStatus::Error, vec![window(Some(60), Duration::hours(5))]),
        (ProviderStatus::Ready, vec![]),
        (ProviderStatus::Ready, vec![window(None, Duration::hours(5))]),
    ] {
        let mut codex = provider(ProviderId::Codex, windows);
        codex.status = status;
        let providers = vec![codex, provider(ProviderId::Claude, vec![window(Some(90), Duration::hours(1))])];
        assert_eq!(title(&providers, now()).as_deref(), Some("90% 1小时"));
        assert!(tooltip(&providers, now()).contains(&format!("{:?}", ProviderId::Claude)));
    }
}

#[test]
fn invalid_window_is_skipped_without_fabricating_usage() {
    let invalid = (0..3).map(|_| window(None, Duration::hours(1))).collect::<Vec<_>>();
    let mut codex = provider(ProviderId::Codex, invalid);
    assert_eq!(title(&vec![codex.clone()], now()), None);
    codex.windows.push(window(Some(0), Duration::hours(1)));
    assert_eq!(title(&vec![codex], now()).as_deref(), Some("0% 1小时"));
    let empty: Vec<TrayProvider> = vec![];
    assert_eq!(title(&empty, now()), None);
    assert!(tooltip(&empty, now()).contains("暂无可用用量"));
}

