use agentbar::dashboard::{arrange, pending_provider, refresh_result, refresh_settings, saved_settings_snapshot, ProviderNames, RefreshOutcome};
use agentbar::models::{AppSettings, DashboardSnapshot, DataMode, ProviderId, ProviderStatus, ProviderUsage};

fn names() -> ProviderNames {
    ProviderNames { codex: format!("{:?}", ProviderId::Codex), claude: format!("{:?}", ProviderId::Claude) }
}

fn ready(id: ProviderId, plan: &str) -> ProviderUsage {
    let mut usage = pending_provider(id, &format!("{id:?}"));
    usage.status = ProviderStatus::Ready;
    usage.plan = plan.into();
    usage.message = None;
    usage
}

fn snapshot(providers: Vec<ProviderUsage>, revision: u64) -> DashboardSnapshot {
    DashboardSnapshot { providers, updated_at: "2026-09-16T00:00:00Z".into(), mode: DataMode::Live, revision }
}

#[test]
fn restored_dashboard_obeys_settings_saved_after_last_refresh() {
    let current = vec![ready(ProviderId::Codex, "Pro")];
    let cards = arrange(&vec![ProviderId::Claude, ProviderId::Codex], &current, &names());
    assert_eq!(cards.len(), 2);
    assert_eq!(cards[0].id, ProviderId::Claude);
    assert_eq!(cards[0].status, ProviderStatus::Unavailable);
    assert_eq!(cards[0].message.as_deref(), Some("正在读取本机账号…"));
    assert_eq!(cards[0].name, format!("{:?}", ProviderId::Claude));
    assert_eq!(cards[1].plan, "Pro");
    assert!(arrange(&vec![], &current, &names()).is_empty());
}

#[test]
fn refresh_and_successful_saves_share_one_monotonic_revision() {
    let settings = AppSettings::default();
    let saved = saved_settings_snapshot(&snapshot(vec![ready(ProviderId::Codex, "Pro")], 4), &settings, &names()).unwrap();
    assert_eq!(saved.revision, 5);
    assert_eq!(saved.providers.len(), 2);
    let collected = snapshot(vec![ready(ProviderId::Codex, "Plus"), ready(ProviderId::Claude, "Max")], 0);
    match refresh_result(&saved, collected, None, 7, 7).unwrap() {
        RefreshOutcome::Publish(published) => {
            assert_eq!(published.revision, 6);
            assert_eq!(published.providers[1].plan, "Max");
        }
        RefreshOutcome::Superseded => panic!("nothing was saved meanwhile"),
    }
    assert!(saved_settings_snapshot(&snapshot(vec![], u64::MAX), &settings, &names()).is_err());
}

#[test]
fn card_refresh_only_replaces_its_target_and_keeps_the_other_card() {
    let current = snapshot(vec![ready(ProviderId::Codex, "Pro"), ready(ProviderId::Claude, "Max")], 3);
    let collected = snapshot(vec![ready(ProviderId::Claude, "Team")], 0);
    match refresh_result(&current, collected, Some(ProviderId::Claude), 1, 1).unwrap() {
        RefreshOutcome::Publish(published) => {
            assert_eq!(published.revision, 4);
            assert_eq!(published.providers[0].plan, "Pro");
            assert_eq!(published.providers[1].plan, "Team");
        }
        RefreshOutcome::Superseded => panic!("nothing was saved meanwhile"),
    }
    let empty = snapshot(vec![], 0);
    assert_eq!(
        refresh_result(&current, empty, Some(ProviderId::Claude), 1, 1).err().as_deref(),
        Some("未能读取该服务用量，请重试")
    );
}

#[test]
fn a_save_during_collection_wins_over_the_collected_result() {
    let current = snapshot(vec![ready(ProviderId::Codex, "Pro")], 3);
    let collected = snapshot(vec![ready(ProviderId::Codex, "Plus")], 0);
    assert!(matches!(refresh_result(&current, collected, None, 1, 2), Ok(RefreshOutcome::Superseded)));
}

#[test]
fn card_refresh_rejects_disabled_and_missing_providers_without_collecting() {
    let mut settings = AppSettings::default();
    settings.enabled_providers = vec![ProviderId::Codex];
    assert_eq!(
        refresh_settings(&settings, Some(ProviderId::Claude), &vec![ProviderId::Codex, ProviderId::Claude]).err().as_deref(),
        Some("该服务已停用，无法刷新用量")
    );
    assert_eq!(
        refresh_settings(&settings, Some(ProviderId::Codex), &vec![ProviderId::Claude]).err().as_deref(),
        Some("未找到该服务，无法刷新用量")
    );
    let only = refresh_settings(&settings, Some(ProviderId::Codex), &vec![ProviderId::Codex]).unwrap();
    assert_eq!(only.enabled_providers, [ProviderId::Codex]);
    let all = refresh_settings(&AppSettings::default(), None, &vec![]).unwrap();
    assert_eq!(all.enabled_providers, [ProviderId::Codex, ProviderId::Claude]);
}
