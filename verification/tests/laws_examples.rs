use agentbar::account_statistics::Amount;
use agentbar::models::{AppSettings, CodexStatisticsSource, ProviderId};
use agentbar::panel::{
    restore_main_focus, Companion, PanelInteraction, PointerPosition, PointerWatch, ShowRequest, StatisticsPanelState,
    StatisticsSide, WatchDecision,
};
use agentbar::statistics::usage::Usage;

#[test]
fn validating_validated_settings_changes_nothing() {
    let once = AppSettings {
        enabled_providers: vec![ProviderId::Claude, ProviderId::Claude, ProviderId::Codex],
        codex_statistics_source: CodexStatisticsSource::Oauth,
        ..AppSettings::default()
    }
    .validated()
    .unwrap();
    let twice = once.clone().validated().unwrap();
    assert_eq!(twice.enabled_providers, once.enabled_providers);
    assert_eq!(twice.codex_statistics_source, once.codex_statistics_source);
    assert_eq!(twice.refresh_interval_seconds, once.refresh_interval_seconds);
}

fn request(provider: ProviderId) -> ShowRequest {
    ShowRequest {
        provider,
        focus: false,
        update_only: false,
        main_ready: true,
        side: StatisticsSide::Right,
        same_bounds: false,
        statistics_visible: false,
        statistics_focused: false,
        pointer: Some(PointerPosition { x: Amount { bits: 10.0f64.to_bits() }, y: Amount { bits: 20.0f64.to_bits() } }),
    }
}

#[test]
fn a_new_selection_makes_the_old_revision_stale() {
    let mut companion = Companion {
        statistics: StatisticsPanelState { provider: Some(ProviderId::Codex), side: Some(StatisticsSide::Right), revision: 7 },
        pending_focus: false,
        interaction: PanelInteraction::new(),
        watch: None,
    };
    let actions = companion.show_statistics(request(ProviderId::Claude));
    assert!(actions.hide_statistics && actions.apply_bounds && actions.emit_state);
    assert_eq!(actions.start_watch, Some(8));
    assert_eq!(companion.statistics.revision, 8);
    assert!(!companion.statistics.can_present(7, true));
    assert!(companion.statistics.can_present(8, true));
    let mut update = request(ProviderId::Codex);
    update.update_only = true;
    let before = companion;
    let nothing = companion.show_statistics(update);
    assert!(!nothing.place && !nothing.apply_bounds);
    assert_eq!(companion, before);
}

#[test]
fn a_difference_added_back_restores_the_counts_and_merging_keeps_maxima() {
    let previous = Usage { input: 100, cached: 40, cache_write: 10, output: 5, write_5m: 0, write_1h: 0 };
    let current = Usage { input: 150, cached: 60, cache_write: 10, output: 9, write_5m: 0, write_1h: 0 };
    let delta = current.difference(previous).unwrap();
    assert_eq!(delta, Usage { input: 50, cached: 20, cache_write: 0, output: 4, write_5m: 0, write_1h: 0 });
    assert!(previous.difference(current).is_none());
    let mut merged = previous;
    merged.merge_max(Usage { input: 90, cached: 50, cache_write: 0, output: 7, write_5m: 1, write_1h: 0 });
    assert_eq!(merged, Usage { input: 100, cached: 50, cache_write: 10, output: 7, write_5m: 1, write_1h: 0 });
    assert_eq!(merged.total(), 107);
    assert_eq!(Usage { input: u64::MAX, output: 1, ..merged }.total(), u64::MAX);
}

#[test]
fn closing_the_companion_clears_its_watch_and_only_the_current_selection_is_sampled() {
    let pointer = PointerPosition { x: Amount { bits: 1.0f64.to_bits() }, y: Amount { bits: 2.0f64.to_bits() } };
    let mut companion = Companion {
        statistics: StatisticsPanelState { provider: Some(ProviderId::Codex), side: Some(StatisticsSide::Left), revision: 3 },
        pending_focus: true,
        interaction: PanelInteraction::new(),
        watch: Some(PointerWatch::new(3, Some(pointer))),
    };
    assert_eq!(companion.sample_pointer(2, true, true, pointer, false, 0), WatchDecision::Stop);
    assert_eq!(companion.sample_pointer(3, true, false, pointer, false, 0), WatchDecision::Stop);
    assert_eq!(companion.sample_pointer(3, true, true, pointer, false, 0), WatchDecision::Keep);
    assert_eq!(companion.sample_pointer(3, true, true, pointer, false, 250_000_000), WatchDecision::Close);
    companion.clear();
    assert_eq!(companion.statistics.revision, 4);
    assert!(companion.watch.is_none() && !companion.pending_focus && companion.statistics.provider.is_none());
    assert_eq!(companion.sample_pointer(4, true, true, pointer, false, 0), WatchDecision::Stop);
    assert!(restore_main_focus(true, false, false, false));
    assert!(restore_main_focus(false, true, true, true));
    assert!(!restore_main_focus(false, true, true, false));
}
