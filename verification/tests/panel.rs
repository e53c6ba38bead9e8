use agentbar::account_statistics::Amount;
use agentbar::models::ProviderId;
use agentbar::panel::{PanelInteraction, PointerPosition, PointerWatch, StatisticsPanelState, StatisticsSide, WatchDecision};

const STATISTICS_LABEL: &str = "statistics";
const MILLISECOND: u64 = 1_000_000;
const SECOND: u64 = 1_000_000_000;
const START: u64 = 5 * SECOND;

fn at(x: f64, y: f64) -> PointerPosition {
    PointerPosition { x: Amount { bits: x.to_bits() }, y: Amount { bits: y.to_bits() } }
}

/// The card spans x 20..340 and y 60..220, the statistics window x 364..724
/// and y 60..660, and the bridge between them x 340..364 over y 60..220.
fn inside(pointer: PointerPosition) -> bool {
    let x = f64::from_bits(pointer.x.bits);
    let y = f64::from_bits(pointer.y.bits);
    let card = (20.0..=340.0).contains(&x) && (60.0..=220.0).contains(&y);
    let statistics = (364.0..=724.0).contains(&x) && (60.0..=660.0).contains(&y);
    let bridge = (340.0..=364.0).contains(&x) && (60.0..=220.0).contains(&y);
    card || statistics || bridge
}

fn watch_sample(watch: &mut PointerWatch, interaction: &mut PanelInteraction, pointer: PointerPosition, now: u64) -> WatchDecision {
    watch.sample(7, pointer, inside(pointer), interaction, now)
}

#[test]
fn card_to_gap_to_statistics_stays_open_without_any_dom_enter() {
    let card = at(300.0, 100.0);
    let gap = at(362.0, 100.0);
    let statistics = at(500.0, 100.0);
    let mut watch = PointerWatch::new(7, Some(card));
    let mut interaction = PanelInteraction::new();
    assert_eq!(watch_sample(&mut watch, &mut interaction, card, START), WatchDecision::Keep);
    assert_eq!(watch_sample(&mut watch, &mut interaction, gap, START + 50 * MILLISECOND), WatchDecision::Keep);
    assert_eq!(watch_sample(&mut watch, &mut interaction, statistics, START + 100 * MILLISECOND), WatchDecision::Keep);
    assert_eq!(watch_sample(&mut watch, &mut interaction, statistics, START + 10 * SECOND), WatchDecision::Keep);
    assert_eq!(watch.outside_since, None);
}

#[test]
fn narrow_horizontal_bridge_keeps_slow_crossing_open_but_excludes_main_blank() {
    let gap = at(350.0, 100.0);
    let blank = at(350.0, 400.0);
    let mut watch = PointerWatch::new(7, Some(gap));
    let mut interaction = PanelInteraction::new();
    assert_eq!(watch_sample(&mut watch, &mut interaction, gap, START), WatchDecision::Keep);
    assert_eq!(watch_sample(&mut watch, &mut interaction, gap, START + 2 * SECOND), WatchDecision::Keep);
    assert_eq!(watch_sample(&mut watch, &mut interaction, blank, START + 3 * SECOND), WatchDecision::Keep);
    assert_eq!(watch_sample(&mut watch, &mut interaction, blank, START + 3250 * MILLISECOND), WatchDecision::Close);
}

#[test]
fn late_dom_leave_and_focus_cannot_close_a_real_pointer_inside_statistics() {
    let pointer = at(500.0, 100.0);
    let mut watch = PointerWatch::new(7, Some(pointer));
    let mut interaction = PanelInteraction::new();
    interaction.update("main", false, "leave");
    interaction.update(STATISTICS_LABEL, false, "leave");
    interaction.update(STATISTICS_LABEL, true, "focus");
    assert_eq!(watch_sample(&mut watch, &mut interaction, pointer, START), WatchDecision::Keep);
    assert_eq!(watch_sample(&mut watch, &mut interaction, pointer, START + SECOND), WatchDecision::Keep);
}

#[test]
fn leaving_statistics_for_main_blank_space_closes_after_continuous_250ms() {
    let statistics = at(500.0, 100.0);
    let blank = at(200.0, 400.0);
    let mut watch = PointerWatch::new(7, Some(statistics));
    let mut interaction = PanelInteraction::new();
    interaction.update(STATISTICS_LABEL, true, "focus");
    assert_eq!(watch_sample(&mut watch, &mut interaction, blank, START), WatchDecision::Keep);
    assert_eq!(watch_sample(&mut watch, &mut interaction, blank, START + 249 * MILLISECOND), WatchDecision::Keep);
    assert_eq!(watch_sample(&mut watch, &mut interaction, blank, START + 250 * MILLISECOND), WatchDecision::Close);
}

#[test]
fn returning_to_card_resets_the_continuous_outside_timer() {
    let card = at(300.0, 100.0);
    let blank = at(200.0, 400.0);
    let mut watch = PointerWatch::new(7, Some(card));
    let mut interaction = PanelInteraction::new();
    watch_sample(&mut watch, &mut interaction, blank, START);
    watch_sample(&mut watch, &mut interaction, card, START + 200 * MILLISECOND);
    assert_eq!(watch_sample(&mut watch, &mut interaction, blank, START + 300 * MILLISECOND), WatchDecision::Keep);
    assert_eq!(watch_sample(&mut watch, &mut interaction, blank, START + 549 * MILLISECOND), WatchDecision::Keep);
    assert_eq!(watch_sample(&mut watch, &mut interaction, blank, START + 550 * MILLISECOND), WatchDecision::Close);
}

#[test]
fn keyboard_with_stationary_outside_pointer_survives_until_real_mouse_movement() {
    let outside = at(1000.0, 700.0);
    let moved = at(1001.0, 700.0);
    let mut watch = PointerWatch::new(7, Some(outside));
    let mut interaction = PanelInteraction::new();
    interaction.begin_keyboard_navigation();
    assert_eq!(watch_sample(&mut watch, &mut interaction, outside, START), WatchDecision::Keep);
    assert_eq!(watch_sample(&mut watch, &mut interaction, outside, START + 10 * SECOND), WatchDecision::Keep);
    assert_eq!(watch_sample(&mut watch, &mut interaction, moved, START + 11 * SECOND), WatchDecision::Keep);
    interaction.update(STATISTICS_LABEL, true, "focus");
    assert_eq!(watch_sample(&mut watch, &mut interaction, moved, START + 11250 * MILLISECOND), WatchDecision::Close);
    interaction.update(STATISTICS_LABEL, true, "keyboard");
    assert_eq!(watch_sample(&mut watch, &mut interaction, moved, START + 12 * SECOND), WatchDecision::Keep);
}

#[test]
fn keyboard_rebase_ignores_movement_before_the_newer_key_event() {
    let previous = at(1000.0, 700.0);
    let before_key = at(1001.0, 700.0);
    let after_key = at(1002.0, 700.0);
    let mut watch = PointerWatch::new(7, Some(previous));
    let mut interaction = PanelInteraction::new();
    watch_sample(&mut watch, &mut interaction, previous, START);
    interaction.update(STATISTICS_LABEL, true, "keyboard");
    watch.rebase(Some(before_key));
    assert_eq!(watch.outside_since, None);
    assert_eq!(watch_sample(&mut watch, &mut interaction, before_key, START + SECOND), WatchDecision::Keep);
    assert!(interaction.keyboard_active());
    assert_eq!(watch_sample(&mut watch, &mut interaction, after_key, START + 2 * SECOND), WatchDecision::Keep);
    assert!(!interaction.keyboard_active());
    assert_eq!(watch_sample(&mut watch, &mut interaction, after_key, START + 2250 * MILLISECOND), WatchDecision::Close);
}

#[test]
fn new_selection_invalidates_old_watcher_and_hiding_clears_watch() {
    let outside = at(1000.0, 700.0);
    let mut watch = PointerWatch::new(7, Some(outside));
    let mut interaction = PanelInteraction::new();
    watch.sample(7, outside, false, &mut interaction, START);
    assert_eq!(watch.sample(8, outside, false, &mut interaction, START + SECOND), WatchDecision::Stop);
    let mut next_watch = PointerWatch::new(8, Some(outside));
    assert_eq!(next_watch.sample(8, outside, false, &mut interaction, START + SECOND), WatchDecision::Keep);
}

#[test]
fn readiness_for_old_provider_or_hidden_group_cannot_present_child() {
    let mut statistics = StatisticsPanelState::empty();
    statistics.provider = Some(ProviderId::Codex);
    statistics.side = Some(StatisticsSide::Right);
    statistics.revision = 10;
    assert!(statistics.can_present(10, true));
    assert!(!statistics.can_present(9, true));
    assert!(!statistics.can_present(10, false));
    statistics.clear();
    assert_eq!(statistics.revision, 11);
    assert!(!statistics.can_present(10, true));
    assert!(!statistics.can_present(11, true));
}
