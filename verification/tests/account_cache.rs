use agentbar::account_cache::{finish_restore, read_cached, Envelope, FinishStep, RequestOrder};
use agentbar::account_statistics::{AccountUsageSnapshot, AccountUsageSummary};
use agentbar::models::{CodexStatisticsSource, ProviderStatus};

const SOURCE: CodexStatisticsSource = CodexStatisticsSource::Auto;
const SCOPE: &str = "synthetic-scope-a";
const SUPERSEDED: &str = "已有更新的服务端统计请求，请读取最新缓存";

fn ready(tokens: u64) -> AccountUsageSnapshot {
    AccountUsageSnapshot {
        source: CodexStatisticsSource::Oauth,
        status: ProviderStatus::Ready,
        message: None,
        account: Some("synthetic@example.test".into()),
        account_id: Some("synthetic-account-a".into()),
        summary: AccountUsageSummary {
            lifetime_tokens: Some(tokens),
            peak_daily_tokens: None,
            longest_running_turn_sec: None,
            current_streak_days: None,
            longest_streak_days: None,
        },
        daily_usage: None,
        service_updated_at: None,
        updated_at: Some("2026-09-17T00:00:00Z".into()),
        web: None,
    }
}

/// The stored envelope stands for the cache file.
fn finish(
    order: &RequestOrder,
    ticket: u64,
    disk: &mut Option<Envelope>,
    snapshot: AccountUsageSnapshot,
) -> Result<AccountUsageSnapshot, String> {
    match order.finish(ticket, Ok(true), SOURCE, Some(SCOPE), snapshot)? {
        FinishStep::Return(snapshot) => Ok(snapshot),
        FinishStep::Write { envelope, transient_web } => {
            *disk = Some(envelope);
            let restored = read_cached(disk.clone(), SOURCE, Some(SCOPE), true);
            finish_restore(restored, transient_web, Ok(true))
        }
    }
}

fn lifetime(disk: &Option<Envelope>) -> Option<u64> {
    read_cached(disk.clone(), SOURCE, Some(SCOPE), false).unwrap().summary.lifetime_tokens
}

#[test]
fn incompatible_and_unsuccessful_envelopes_are_not_restored() {
    let mut envelope = Envelope { version: 2, scope: SCOPE.into(), requested_source: SOURCE, snapshot: ready(41) };
    assert!(read_cached(Some(envelope.clone()), SOURCE, Some(SCOPE), true).is_none());
    envelope.version = 1;
    envelope.snapshot.status = ProviderStatus::Error;
    assert!(read_cached(Some(envelope.clone()), SOURCE, Some(SCOPE), true).is_none());
    envelope.snapshot.status = ProviderStatus::Ready;
    envelope.snapshot.source = CodexStatisticsSource::Local;
    assert!(read_cached(Some(envelope.clone()), SOURCE, Some(SCOPE), true).is_none());
    envelope.snapshot.source = CodexStatisticsSource::Oauth;
    assert!(read_cached(Some(envelope.clone()), SOURCE, Some(SCOPE), true).is_some());
    assert!(read_cached(Some(envelope.clone()), SOURCE, Some("synthetic-scope-b"), true).is_none());
    assert!(read_cached(Some(envelope.clone()), CodexStatisticsSource::Cli, Some(SCOPE), true).is_none());
    assert!(read_cached(Some(envelope), SOURCE, None, true).is_none());
    assert!(read_cached(None, SOURCE, Some(SCOPE), true).is_none());
}

#[test]
fn older_in_flight_results_cannot_overwrite_a_newer_request() {
    let mut disk = None;
    let mut order = RequestOrder::new();
    let older = order.begin();
    let newer = order.begin();
    finish(&order, newer, &mut disk, ready(42)).unwrap();
    assert_eq!(finish(&order, older, &mut disk, ready(41)).unwrap_err(), SUPERSEDED);
    assert_eq!(lifetime(&disk), Some(42));
    let older = order.begin();
    let newer = order.begin();
    let mut failed = ready(0);
    failed.status = ProviderStatus::Error;
    finish(&order, newer, &mut disk, failed).unwrap();
    assert!(finish(&order, older, &mut disk, ready(43)).is_err());
    assert_eq!(lifetime(&disk), Some(42));
}

#[test]
fn results_without_a_scope_are_returned_with_a_notice_and_not_written() {
    let mut order = RequestOrder::new();
    let ticket = order.begin();
    match order.finish(ticket, Ok(true), SOURCE, None, ready(7)).unwrap() {
        FinishStep::Return(snapshot) => {
            assert_eq!(snapshot.summary.lifetime_tokens, Some(7));
            assert_eq!(snapshot.message.as_deref(), Some("无法确认本机登录范围，本次服务端数据未缓存"));
        }
        FinishStep::Write { .. } => panic!("an unscoped result must not be written"),
    }
    assert_eq!(
        order.finish(ticket, Err("settings unavailable".into()), SOURCE, Some(SCOPE), ready(7)).err().as_deref(),
        Some("settings unavailable")
    );
    assert_eq!(
        finish_restore(None, None, Ok(true)).unwrap_err(),
        "无法确认服务端统计缓存已保存，请重试"
    );
}
