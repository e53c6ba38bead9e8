use agentbar::account_statistics::empty_snapshot;
use agentbar::commands::{
    check_statistics_request, require_local_settings_window, require_panel_window, require_statistics_window,
    valid_interaction_intent,
};
use agentbar::models::{AppSettings, CodexStatisticsSource, ProviderId, ProviderStatus};
use agentbar::panel::{content_target, ResizeTarget, StatisticsPanelState};
use agentbar::statistics::records::parser_version;

#[test]
fn windows_are_limited_to_their_own_commands() {
    assert!(require_panel_window("main").is_ok());
    assert!(require_panel_window("statistics").is_ok());
    assert_eq!(require_panel_window("settings").unwrap_err(), "该窗口不能控制统计面板");
    assert!(require_local_settings_window("settings").is_ok());
    assert_eq!(require_local_settings_window("web").unwrap_err(), "该窗口不能访问本机账号统计");
    assert!(require_statistics_window("statistics").is_ok());
    assert_eq!(require_statistics_window("main").unwrap_err(), "只能从统计窗口确认显示");
    for intent in ["pointer", "leave", "keyboard", "focus"] {
        assert!(valid_interaction_intent(intent));
    }
    assert!(!valid_interaction_intent("click"));
}

#[test]
fn statistics_open_only_from_main_at_a_valid_anchor_for_an_enabled_provider() {
    let mut settings = AppSettings::default();
    assert!(check_statistics_request("main", true, &settings, ProviderId::Codex).is_ok());
    assert_eq!(check_statistics_request("settings", true, &settings, ProviderId::Codex).unwrap_err(), "只能从主面板展开统计");
    assert_eq!(check_statistics_request("main", false, &settings, ProviderId::Codex).unwrap_err(), "统计面板位置无效");
    settings.enabled_providers = vec![ProviderId::Codex];
    assert_eq!(check_statistics_request("main", true, &settings, ProviderId::Claude).unwrap_err(), "当前服务未启用");
}

#[test]
fn content_heights_follow_only_the_current_selection() {
    let mut statistics = StatisticsPanelState::empty();
    assert_eq!(content_target("settings", None, &statistics), Ok(ResizeTarget::Settings));
    assert_eq!(content_target("main", Some(3), &statistics), Ok(ResizeTarget::Main));
    assert_eq!(content_target("statistics", None, &statistics), Ok(ResizeTarget::Ignore));
    statistics.provider = Some(ProviderId::Codex);
    statistics.revision = 4;
    assert_eq!(content_target("statistics", Some(3), &statistics), Ok(ResizeTarget::Ignore));
    assert_eq!(content_target("statistics", Some(4), &statistics), Ok(ResizeTarget::Statistics));
    assert_eq!(content_target("statistics", None, &statistics), Ok(ResizeTarget::Statistics));
    assert_eq!(content_target("tray", None, &statistics), Err("该窗口不支持内容自适应高度".to_string()));
}

#[test]
fn empty_snapshots_carry_only_status_and_message_and_parsers_are_versioned() {
    let snapshot = empty_snapshot(CodexStatisticsSource::Local, ProviderStatus::Unavailable, "当前使用本机日志统计");
    assert_eq!(snapshot.source, CodexStatisticsSource::Local);
    assert_eq!(snapshot.status, ProviderStatus::Unavailable);
    assert_eq!(snapshot.message.as_deref(), Some("当前使用本机日志统计"));
    assert!(snapshot.account.is_none() && snapshot.daily_usage.is_none() && snapshot.updated_at.is_none());
    assert!(snapshot.summary.lifetime_tokens.is_none());
    assert_eq!(parser_version(ProviderId::Codex), 2);
    assert_eq!(parser_version(ProviderId::Claude), 1);
}

#[test]
fn providers_report_their_ids() {
    assert_eq!(agentbar::providers::CodexProvider.id(), ProviderId::Codex);
    assert_eq!(agentbar::providers::ClaudeProvider.id(), ProviderId::Claude);
}
