//! Panel state decisions: selecting, re-placing and dismissing a provider's
//! statistics companion, which selection may be presented, which interaction
//! mode is active, and when the pointer has left long enough for the panels to
//! close. Geometry and native windows stay outside.
use vstd::prelude::*;
use crate::account_statistics::{Amount, amount_eq};
use crate::models::ProviderId;
use crate::text::str_eq;

verus! {

/// How long the pointer must stay outside before the panels close.
pub const CASCADE_CLOSE_DELAY_NANOS: u64 = 250_000_000;

#[derive(Clone, Copy, Debug, PartialEq, Eq, Structural)]
pub enum StatisticsSide {
    Left,
    Right,
}

/// The provider whose statistics are selected, the side they open on, and the
/// selection's revision.
#[derive(Clone, Copy, Debug, PartialEq, Eq, Structural)]
pub struct StatisticsPanelState {
    pub provider: Option<ProviderId>,
    pub side: Option<StatisticsSide>,
    pub revision: u64,
}

impl StatisticsPanelState {
    pub fn empty() -> (s: StatisticsPanelState)
        ensures
            s.provider is None && s.side is None && s.revision == 0,
    {
        StatisticsPanelState { provider: None, side: None, revision: 0 }
    }

    pub open spec fn can_present_spec(&self, revision: u64, main_visible: bool) -> bool {
        main_visible && self.provider is Some && self.revision == revision
    }

    /// A rendered statistics window may be shown only for the current
    /// selection, while a provider is selected and the main panel is visible.
    pub fn can_present(&self, revision: u64, main_visible: bool) -> (r: bool)
        ensures
            r == self.can_present_spec(revision, main_visible),
    {
        main_visible && self.provider.is_some() && self.revision == revision
    }

    /// Dismisses the selection: no provider or side, and a new revision so that
    /// late results for the old one cannot be presented.
    pub fn clear(&mut self)
        ensures
            final(self).provider is None,
            final(self).side is None,
            final(self).revision == (if old(self).revision == u64::MAX { 0 } else { (old(self).revision + 1) as u64 }),
    {
        self.provider = None;
        self.side = None;
        self.revision = if self.revision == u64::MAX { 0 } else { self.revision + 1 };
    }
}

#[derive(Clone, Copy, Debug, PartialEq, Eq, Structural)]
pub enum InteractionMode {
    Pointer,
    Keyboard,
}

/// Whether each panel holds keyboard focus, and the last interaction mode.
#[derive(Clone, Copy, Debug, PartialEq, Eq, Structural)]
pub struct PanelInteraction {
    pub main_keyboard: bool,
    pub statistics_keyboard: bool,
    pub mode: InteractionMode,
}

pub open spec fn keyboard_active_of(i: PanelInteraction) -> bool {
    i.mode == InteractionMode::Keyboard && (i.main_keyboard || i.statistics_keyboard)
}

pub open spec fn default_interaction() -> PanelInteraction {
    PanelInteraction { main_keyboard: false, statistics_keyboard: false, mode: InteractionMode::Pointer }
}

/// The effect of a reported interaction: pointer and leave switch to pointer
/// mode, keyboard to keyboard mode, focus keeps the mode; unknown intents or
/// windows change nothing.
pub open spec fn updated_interaction(i: PanelInteraction, label: Seq<char>, keyboard: bool, intent: Seq<char>) -> PanelInteraction {
    let mode = if intent == "pointer"@ || intent == "leave"@ {
        Some(InteractionMode::Pointer)
    } else if intent == "keyboard"@ {
        Some(InteractionMode::Keyboard)
    } else if intent == "focus"@ {
        Some(i.mode)
    } else {
        None
    };
    match mode {
        None => i,
        Some(m) => if label == "main"@ {
            PanelInteraction { main_keyboard: keyboard, mode: m, ..i }
        } else if label == "statistics"@ {
            PanelInteraction { statistics_keyboard: keyboard, mode: m, ..i }
        } else {
            i
        },
    }
}

impl PanelInteraction {
    pub fn new() -> (i: PanelInteraction)
        ensures
            i == default_interaction(),
    {
        PanelInteraction { main_keyboard: false, statistics_keyboard: false, mode: InteractionMode::Pointer }
    }

    /// Keyboard mode with some panel holding keyboard focus.
    pub fn keyboard_active(&self) -> (r: bool)
        ensures
            r == keyboard_active_of(*self),
    {
        self.mode == InteractionMode::Keyboard && (self.main_keyboard || self.statistics_keyboard)
    }

    pub fn update(&mut self, label: &str, keyboard: bool, intent: &str)
        ensures
            *final(self) == updated_interaction(*old(self), label@, keyboard, intent@),
    {
        let mode = if str_eq(intent, "pointer") || str_eq(intent, "leave") {
            InteractionMode::Pointer
        } else if str_eq(intent, "keyboard") {
            InteractionMode::Keyboard
        } else if str_eq(intent, "focus") {
            self.mode
        } else {
            return;
        };
        if str_eq(label, "main") {
            self.main_keyboard = keyboard;
        } else if str_eq(label, "statistics") {
            self.statistics_keyboard = keyboard;
        } else {
            return;
        }
        self.mode = mode;
    }

    /// Explicit entry into the statistics panel keeps it alive until the
    /// rendered panel takes focus.
    pub fn begin_keyboard_navigation(&mut self)
        ensures
            final(self).mode == InteractionMode::Keyboard,
            final(self).statistics_keyboard,
            final(self).main_keyboard == old(self).main_keyboard,
    {
        self.mode = InteractionMode::Keyboard;
        self.statistics_keyboard = true;
    }

    pub fn reset_statistics(&mut self)
        ensures
            *final(self) == (PanelInteraction { statistics_keyboard: false, ..*old(self) }),
    {
        self.statistics_keyboard = false;
    }

    pub fn reset(&mut self)
        ensures
            *final(self) == default_interaction(),
    {
        *self = PanelInteraction::new();
    }
}

/// After entering keyboard navigation, the panels stay open without the pointer.
pub proof fn law_keyboard_navigation_keeps_panels(i: PanelInteraction)
    ensures
        keyboard_active_of(PanelInteraction { mode: InteractionMode::Keyboard, statistics_keyboard: true, ..i }),
{
}

/// A pointer position in screen points.
#[derive(Clone, Copy, Debug, PartialEq, Eq, Structural)]
pub struct PointerPosition {
    pub x: Amount,
    pub y: Amount,
}

pub open spec fn same_position(a: PointerPosition, b: PointerPosition) -> bool {
    amount_eq(a.x, b.x) && amount_eq(a.y, b.y)
}

#[derive(Clone, Copy, Debug, PartialEq, Eq, Structural)]
pub enum WatchDecision {
    Keep,
    Close,
    Stop,
}

/// Samples the real pointer for one statistics selection. Times are monotonic
/// nanoseconds.
#[derive(Clone, Copy, Debug, PartialEq, Eq, Structural)]
pub struct PointerWatch {
    pub revision: u64,
    pub last_pointer: Option<PointerPosition>,
    pub outside_since: Option<u64>,
}

pub open spec fn sample_outcome(
    w: PointerWatch,
    i: PanelInteraction,
    revision: u64,
    pointer: PointerPosition,
    inside: bool,
    now: u64,
) -> (PointerWatch, PanelInteraction, WatchDecision) {
    if w.revision != revision {
        (w, i, WatchDecision::Stop)
    } else {
        let moved = w.last_pointer matches Some(p) && !same_position(p, pointer);
        let i2 = if moved { PanelInteraction { mode: InteractionMode::Pointer, ..i } } else { i };
        let w2 = PointerWatch { last_pointer: Some(pointer), ..w };
        if inside || keyboard_active_of(i2) {
            (PointerWatch { outside_since: None, ..w2 }, i2, WatchDecision::Keep)
        } else {
            let since = match w.outside_since { Some(s) => s, None => now };
            let w3 = PointerWatch { outside_since: Some(since), ..w2 };
            let elapsed: int = if now >= since { now - since } else { 0 };
            (w3, i2, if elapsed >= CASCADE_CLOSE_DELAY_NANOS { WatchDecision::Close } else { WatchDecision::Keep })
        }
    }
}

impl PointerWatch {
    pub fn new(revision: u64, pointer: Option<PointerPosition>) -> (w: PointerWatch)
        ensures
            w.revision == revision && w.last_pointer == pointer && w.outside_since is None,
    {
        PointerWatch { revision, last_pointer: pointer, outside_since: None }
    }

    /// Starts the outside timer afresh from `pointer`.
    pub fn rebase(&mut self, pointer: Option<PointerPosition>)
        ensures
            *final(self) == (PointerWatch { last_pointer: pointer, outside_since: None, ..*old(self) }),
    {
        self.last_pointer = pointer;
        self.outside_since = None;
    }

    /// A stale selection stops the watch. Real pointer movement returns to
    /// pointer mode. Inside a kept region, or with keyboard focus, the panels
    /// stay; otherwise they close once the pointer has been outside without
    /// interruption for the close delay.
    pub fn sample(
        &mut self,
        revision: u64,
        pointer: PointerPosition,
        inside: bool,
        interaction: &mut PanelInteraction,
        now: u64,
    ) -> (d: WatchDecision)
        ensures
            (*final(self), *final(interaction), d)
                == sample_outcome(*old(self), *old(interaction), revision, pointer, inside, now),
    {
        if self.revision != revision {
            return WatchDecision::Stop;
        }
        let moved = match self.last_pointer {
            Some(p) => !(p.x.equals(pointer.x) && p.y.equals(pointer.y)),
            None => false,
        };
        if moved {
            interaction.mode = InteractionMode::Pointer;
        }
        self.last_pointer = Some(pointer);
        if inside || interaction.keyboard_active() {
            self.outside_since = None;
            return WatchDecision::Keep;
        }
        let since = match self.outside_since { Some(s) => s, None => now };
        self.outside_since = Some(since);
        let elapsed = now.saturating_sub(since);
        if elapsed >= CASCADE_CLOSE_DELAY_NANOS { WatchDecision::Close } else { WatchDecision::Keep }
    }
}

/// Returning inside resets the outside timer, so the close delay counts only
/// continuous time outside.
pub proof fn law_inside_resets_timer(w: PointerWatch, i: PanelInteraction, pointer: PointerPosition, now: u64)
    ensures
        sample_outcome(w, i, w.revision, pointer, true, now).0.outside_since is None,
        sample_outcome(w, i, w.revision, pointer, true, now).2 == WatchDecision::Keep,
{
}

/// The watch and interaction after successive calls of `PointerWatch::sample`
/// with the samples `(pointer, inside, time)` for one revision, with the
/// decision that each call returned; each call is `sample_outcome`, as the
/// contract of `sample` states.
pub open spec fn watch_run(
    w: PointerWatch,
    i: PanelInteraction,
    revision: u64,
    samples: Seq<(PointerPosition, bool, u64)>,
) -> (PointerWatch, PanelInteraction, Seq<WatchDecision>)
    decreases samples.len(),
{
    if samples.len() == 0 {
        (w, i, Seq::empty())
    } else {
        let before = watch_run(w, i, revision, samples.drop_last());
        let s = samples.last();
        let step = sample_outcome(before.0, before.1, revision, s.0, s.1, s.2);
        (step.0, step.1, before.2.push(step.2))
    }
}

/// Where the unbroken run of outside samples that reaches sample `k` began.
pub open spec fn outside_run_start(samples: Seq<(PointerPosition, bool, u64)>, k: int) -> int
    decreases k,
{
    if k <= 0 || samples[k - 1].1 { k } else { outside_run_start(samples, k - 1) }
}

/// The decision owed at sample `k`: keep inside; outside, close once the run
/// of outside samples reaching `k` has lasted the close delay.
pub open spec fn timer_decision(samples: Seq<(PointerPosition, bool, u64)>, k: int) -> WatchDecision {
    if samples[k].1 {
        WatchDecision::Keep
    } else if samples[k].2 - samples[outside_run_start(samples, k)].2 >= CASCADE_CLOSE_DELAY_NANOS {
        WatchDecision::Close
    } else {
        WatchDecision::Keep
    }
}

/// Since when the last sample has been outside without interruption.
pub open spec fn timer_since(samples: Seq<(PointerPosition, bool, u64)>) -> Option<u64> {
    if samples.len() == 0 || samples.last().1 {
        None
    } else {
        Some(samples[outside_run_start(samples, samples.len() - 1)].2)
    }
}

proof fn lemma_run_start_bounds(samples: Seq<(PointerPosition, bool, u64)>, k: int)
    requires
        0 <= k,
    ensures
        0 <= outside_run_start(samples, k) <= k,
        forall|j: int| outside_run_start(samples, k) <= j < k ==> !(#[trigger] samples[j]).1,
    decreases k,
{
    if k > 0 && !samples[k - 1].1 {
        lemma_run_start_bounds(samples, k - 1);
    }
}

proof fn lemma_run_start_prefix(samples: Seq<(PointerPosition, bool, u64)>, k: int)
    requires
        0 <= k < samples.len(),
    ensures
        outside_run_start(samples.drop_last(), k) == outside_run_start(samples, k),
    decreases k,
{
    if k > 0 {
        lemma_run_start_prefix(samples, k - 1);
    }
}

proof fn lemma_watch_run(w: PointerWatch, i: PanelInteraction, revision: u64, samples: Seq<(PointerPosition, bool, u64)>)
    requires
        w.revision == revision,
        w.outside_since is None,
        !keyboard_active_of(i),
        forall|j: int, k: int| 0 <= j <= k < samples.len() ==> samples[j].2 <= samples[k].2,
    ensures
        watch_run(w, i, revision, samples).0.revision == revision,
        !keyboard_active_of(watch_run(w, i, revision, samples).1),
        watch_run(w, i, revision, samples).2.len() == samples.len(),
        watch_run(w, i, revision, samples).0.outside_since == timer_since(samples),
        forall|k: int| 0 <= k < samples.len() ==> (#[trigger] watch_run(w, i, revision, samples).2[k]) == timer_decision(samples, k),
    decreases samples.len(),
{
    if samples.len() > 0 {
        let prefix = samples.drop_last();
        lemma_watch_run(w, i, revision, prefix);
        let n = samples.len() - 1;
        let before = watch_run(w, i, revision, prefix);
        let s = samples[n];
        let step = sample_outcome(before.0, before.1, revision, s.0, s.1, s.2);
        let out = watch_run(w, i, revision, samples);
        assert(out == (step.0, step.1, before.2.push(step.2)));
        lemma_run_start_bounds(samples, n);
        if n > 0 && !samples[n - 1].1 {
            lemma_run_start_prefix(samples, n - 1);
            lemma_run_start_bounds(samples, n - 1);
            assert(outside_run_start(samples, n) == outside_run_start(samples, n - 1));
            assert(prefix.last() == samples[n - 1]);
            assert(prefix[outside_run_start(samples, n - 1)] == samples[outside_run_start(samples, n - 1)]);
            assert(timer_since(prefix) == Some(samples[outside_run_start(samples, n)].2));
        }
        assert(samples[outside_run_start(samples, n)].2 <= s.2);
        assert(step.2 == timer_decision(samples, n));
        assert(step.0.outside_since == timer_since(samples));
        assert forall|k: int| 0 <= k < samples.len() implies (#[trigger] out.2[k]) == timer_decision(samples, k) by {
            if k < n {
                lemma_run_start_prefix(samples, k);
                lemma_run_start_bounds(samples, k);
                assert(prefix[k] == samples[k]);
                assert(prefix[outside_run_start(samples, k)] == samples[outside_run_start(samples, k)]);
                assert(out.2[k] == before.2[k]);
                assert(timer_decision(prefix, k) == timer_decision(samples, k));
            }
        }
    }
}

/// Over samples of one selection at non-decreasing times, with no keyboard
/// focus at the start: an inside sample keeps the panels, and an outside
/// sample closes them exactly when the unbroken run of outside samples that
/// reaches it began at least the close delay earlier. An inside sample ends the
/// run, so the delay counts again from the next outside sample.
pub proof fn law_outside_timer(revision: u64, pointer: Option<PointerPosition>, i: PanelInteraction, samples: Seq<(PointerPosition, bool, u64)>)
    requires
        !keyboard_active_of(i),
        forall|j: int, k: int| 0 <= j <= k < samples.len() ==> samples[j].2 <= samples[k].2,
    ensures
        watch_run(PointerWatch { revision, last_pointer: pointer, outside_since: None }, i, revision, samples).2.len() == samples.len(),
        forall|k: int| 0 <= k < samples.len() ==> (#[trigger] watch_run(
            PointerWatch { revision, last_pointer: pointer, outside_since: None }, i, revision, samples).2[k]) == timer_decision(samples, k),
{
    lemma_watch_run(PointerWatch { revision, last_pointer: pointer, outside_since: None }, i, revision, samples);
}

/// A watch for another revision stops at once and changes nothing.
pub proof fn law_stale_watch_stops(w: PointerWatch, i: PanelInteraction, revision: u64, pointer: PointerPosition, inside: bool, now: u64)
    requires
        w.revision != revision,
    ensures
        sample_outcome(w, i, revision, pointer, inside, now) == (w, i, WatchDecision::Stop),
{
}

// ---------------------------------------------------------------------------
// Selecting a provider's statistics companion.

/// What the companion decisions read and change between window events.
#[derive(Clone, Copy, Debug, PartialEq, Eq, Structural)]
pub struct Companion {
    pub statistics: StatisticsPanelState,
    pub pending_focus: bool,
    pub interaction: PanelInteraction,
    pub watch: Option<PointerWatch>,
}

/// A request to show a provider's statistics beside its card, with what the
/// windows report: whether the main panel is placed and visible, the side and
/// whether the computed bounds equal the current ones, whether the companion is
/// visible and focused, and the pointer where it can be read.
#[derive(Clone, Copy, Debug, PartialEq, Eq, Structural)]
pub struct ShowRequest {
    pub provider: ProviderId,
    pub focus: bool,
    pub update_only: bool,
    pub main_ready: bool,
    pub side: StatisticsSide,
    pub same_bounds: bool,
    pub statistics_visible: bool,
    pub statistics_focused: bool,
    pub pointer: Option<PointerPosition>,
}

/// The window work that follows, in this order: record the anchor and
/// placement, focus the main panel, hide the companion, move it to its new
/// bounds, announce the new selection, focus the companion, then start a
/// pointer watch for the given revision.
#[derive(Clone, Copy, Debug, PartialEq, Eq, Structural)]
pub struct ShowActions {
    pub place: bool,
    pub focus_main: bool,
    pub hide_statistics: bool,
    pub apply_bounds: bool,
    pub emit_state: bool,
    pub focus_statistics: bool,
    pub start_watch: Option<u64>,
}

pub open spec fn no_actions() -> ShowActions {
    ShowActions {
        place: false,
        focus_main: false,
        hide_statistics: false,
        apply_bounds: false,
        emit_state: false,
        focus_statistics: false,
        start_watch: None,
    }
}

pub open spec fn keyboard_entry(i: PanelInteraction) -> PanelInteraction {
    PanelInteraction { mode: InteractionMode::Keyboard, statistics_keyboard: true, ..i }
}

pub open spec fn rebased(w: Option<PointerWatch>, pointer: Option<PointerPosition>) -> Option<PointerWatch> {
    match w {
        Some(x) => Some(PointerWatch { last_pointer: pointer, outside_since: None, ..x }),
        None => None,
    }
}

pub open spec fn next_revision(r: u64) -> u64 {
    if r == u64::MAX { 0 } else { (r + 1) as u64 }
}

/// Showing statistics: a geometry update for another selection, or a hidden
/// main panel, does nothing. The same selection at the same bounds only takes
/// focus when asked. A new provider replaces the companion: it is hidden (the
/// main panel keeps focus), its keyboard state reset, and a new revision with a
/// new pointer watch is announced; a new side is announced the same way.
pub open spec fn show_step(c: Companion, r: ShowRequest) -> (Companion, ShowActions) {
    if r.update_only && c.statistics.provider != Some(r.provider) {
        (c, no_actions())
    } else if !r.main_ready {
        (c, no_actions())
    } else {
        let changed = c.statistics.provider != Some(r.provider);
        let pending = if changed { r.focus } else if r.focus { true } else { c.pending_focus };
        let entered = r.focus && !changed;
        let i1 = if entered { keyboard_entry(c.interaction) } else { c.interaction };
        let w1 = if entered { rebased(c.watch, r.pointer) } else { c.watch };
        if !changed && r.same_bounds {
            let now_focus = r.focus && r.statistics_visible;
            (Companion { pending_focus: if now_focus { false } else { pending }, interaction: i1, watch: w1, ..c },
             ShowActions { place: true, focus_statistics: now_focus, ..no_actions() })
        } else {
            let i2 = if changed {
                let reset = PanelInteraction { statistics_keyboard: false, ..i1 };
                if r.focus { keyboard_entry(reset) } else { reset }
            } else {
                i1
            };
            let announce = changed || c.statistics.side != Some(r.side);
            let revision = next_revision(c.statistics.revision);
            let statistics = if announce {
                StatisticsPanelState { provider: Some(r.provider), side: Some(r.side), revision }
            } else {
                c.statistics
            };
            let w2 = if announce {
                Some(PointerWatch { revision, last_pointer: r.pointer, outside_since: None })
            } else {
                w1
            };
            let late_focus = !changed && r.focus && r.statistics_visible;
            (Companion { statistics, pending_focus: if late_focus { false } else { pending }, interaction: i2, watch: w2 },
             ShowActions {
                place: true,
                focus_main: changed && r.statistics_focused,
                hide_statistics: changed,
                apply_bounds: true,
                emit_state: announce,
                focus_statistics: late_focus,
                start_watch: if announce { Some(revision) } else { None },
            })
        }
    }
}

/// Selecting another provider starts a new revision, so nothing rendered or
/// measured for the previous selection can be presented or resize it.
pub proof fn law_new_selection_stales_the_old_one(c: Companion, r: ShowRequest)
    requires
        !r.update_only,
        r.main_ready,
        c.statistics.provider != Some(r.provider),
    ensures
        show_step(c, r).0.statistics.provider == Some(r.provider),
        show_step(c, r).0.statistics.revision != c.statistics.revision,
        !show_step(c, r).0.statistics.can_present_spec(c.statistics.revision, true),
        show_step(c, r).1.start_watch == Some(show_step(c, r).0.statistics.revision),
{
}

impl Companion {
    /// Decides what showing statistics does to the companion; see `show_step`.
    pub fn show_statistics(&mut self, r: ShowRequest) -> (actions: ShowActions)
        ensures
            (*final(self), actions) == show_step(*old(self), r),
    {
        let mut actions = ShowActions {
            place: false,
            focus_main: false,
            hide_statistics: false,
            apply_bounds: false,
            emit_state: false,
            focus_statistics: false,
            start_watch: None,
        };
        let selected = match self.statistics.provider {
            Some(p) => p == r.provider,
            None => false,
        };
        if r.update_only && !selected {
            return actions;
        }
        if !r.main_ready {
            return actions;
        }
        actions.place = true;
        let changed = !selected;
        if changed {
            self.pending_focus = r.focus;
        } else if r.focus {
            self.pending_focus = true;
        }
        if r.focus && !changed {
            self.interaction.begin_keyboard_navigation();
            if let Some(mut w) = self.watch {
                w.rebase(r.pointer);
                self.watch = Some(w);
            }
        }
        if !changed && r.same_bounds {
            if r.focus && r.statistics_visible {
                actions.focus_statistics = true;
                self.pending_focus = false;
            }
            return actions;
        }
        if changed {
            actions.focus_main = r.statistics_focused;
            actions.hide_statistics = true;
            self.interaction.reset_statistics();
            if r.focus {
                self.interaction.begin_keyboard_navigation();
            }
        }
        actions.apply_bounds = true;
        let same_side = match self.statistics.side {
            Some(s) => s == r.side,
            None => false,
        };
        if changed || !same_side {
            let revision = if self.statistics.revision == u64::MAX { 0 } else { self.statistics.revision + 1 };
            self.statistics = StatisticsPanelState { provider: Some(r.provider), side: Some(r.side), revision };
            self.watch = Some(PointerWatch::new(revision, r.pointer));
            actions.emit_state = true;
            actions.start_watch = Some(revision);
        }
        if !changed && r.focus && r.statistics_visible {
            actions.focus_statistics = true;
            self.pending_focus = false;
        }
        actions
    }
}

/// Which measured window a content height belongs to.
#[derive(Clone, Copy, Debug, PartialEq, Eq, Structural)]
pub enum ResizeTarget {
    Settings,
    Main,
    Statistics,
    /// A late measurement of a previous or dismissed selection.
    Ignore,
}

pub open spec fn resize_target(label: Seq<char>, revision: Option<u64>, s: StatisticsPanelState) -> Result<ResizeTarget, Seq<char>> {
    if label == "settings"@ {
        Ok(ResizeTarget::Settings)
    } else if label == "main"@ {
        Ok(ResizeTarget::Main)
    } else if label == "statistics"@ {
        if s.provider is None || (revision matches Some(r) && r != s.revision) {
            Ok(ResizeTarget::Ignore)
        } else {
            Ok(ResizeTarget::Statistics)
        }
    } else {
        Err("该窗口不支持内容自适应高度"@)
    }
}

/// Routes a measured content height: settings and main panel heights are
/// kept; a statistics height only for the current selection; other windows
/// are refused.
pub fn content_target(label: &str, revision: Option<u64>, statistics: &StatisticsPanelState) -> (t: Result<ResizeTarget, String>)
    ensures
        match t {
            Ok(x) => resize_target(label@, revision, *statistics) == Ok::<ResizeTarget, Seq<char>>(x),
            Err(e) => resize_target(label@, revision, *statistics) == Err::<ResizeTarget, Seq<char>>(e@),
        },
{
    if str_eq(label, "settings") {
        Ok(ResizeTarget::Settings)
    } else if str_eq(label, "main") {
        Ok(ResizeTarget::Main)
    } else if str_eq(label, "statistics") {
        let stale = match revision {
            Some(r) => r != statistics.revision,
            None => false,
        };
        if statistics.provider.is_none() || stale {
            Ok(ResizeTarget::Ignore)
        } else {
            Ok(ResizeTarget::Statistics)
        }
    } else {
        Err(String::from_str("该窗口不支持内容自适应高度"))
    }
}

impl Companion {
    /// After a content change re-placed the companion: new bounds restart the
    /// pointer watch's outside timer from `pointer`; a new side is recorded and
    /// must be announced (the result), keeping the selection's revision.
    pub fn companion_placed(&mut self, side: StatisticsSide, bounds_changed: bool, pointer: Option<PointerPosition>) -> (announce: bool)
        ensures
            final(self).watch == (if bounds_changed { rebased(old(self).watch, pointer) } else { old(self).watch }),
            announce == (old(self).statistics.side != Some(side)),
            final(self).statistics == (if announce {
                StatisticsPanelState { side: Some(side), ..old(self).statistics }
            } else {
                old(self).statistics
            }),
            final(self).pending_focus == old(self).pending_focus,
            final(self).interaction == old(self).interaction,
    {
        if bounds_changed {
            if let Some(mut w) = self.watch {
                w.rebase(pointer);
                self.watch = Some(w);
            }
        }
        let same_side = match self.statistics.side {
            Some(s) => s == side,
            None => false,
        };
        if !same_side {
            self.statistics.side = Some(side);
        }
        !same_side
    }
}

impl Companion {
    /// Dismisses the companion: the selection is cleared under a new revision,
    /// its pointer watch and pending focus are dropped, and the companion's
    /// keyboard focus is forgotten.
    pub fn clear(&mut self)
        ensures
            final(self).statistics.provider is None,
            final(self).statistics.side is None,
            final(self).statistics.revision == next_revision(old(self).statistics.revision),
            final(self).watch is None,
            !final(self).pending_focus,
            final(self).interaction == (PanelInteraction { statistics_keyboard: false, ..old(self).interaction }),
    {
        self.statistics.clear();
        self.watch = None;
        self.pending_focus = false;
        self.interaction.reset_statistics();
    }

    /// One sample of the real pointer for the selection `revision`. A stale
    /// or dismissed selection, a hidden main panel, or no watch stops the
    /// watch; otherwise the watch decides. `inside` tells whether the pointer
    /// is over the card, the visible companion or the bridge between them.
    pub fn sample_pointer(
        &mut self,
        revision: u64,
        placed: bool,
        main_visible: bool,
        pointer: PointerPosition,
        inside: bool,
        now: u64,
    ) -> (d: WatchDecision)
        ensures
            (old(self).statistics.provider is None || old(self).statistics.revision != revision || !placed || !main_visible
                || old(self).watch is None) ==> (d == WatchDecision::Stop && *final(self) == *old(self)),
            !(old(self).statistics.provider is None || old(self).statistics.revision != revision || !placed || !main_visible
                || old(self).watch is None) ==> ({
                let (w, i, decision) = sample_outcome(old(self).watch->0, old(self).interaction, revision, pointer, inside, now);
                &&& d == decision
                &&& final(self).watch == Some(w)
                &&& final(self).interaction == i
                &&& final(self).statistics == old(self).statistics
                &&& final(self).pending_focus == old(self).pending_focus
            }),
    {
        if self.statistics.provider.is_none() || self.statistics.revision != revision || !placed || !main_visible {
            return WatchDecision::Stop;
        }
        match self.watch {
            Some(mut w) => {
                let d = w.sample(revision, pointer, inside, &mut self.interaction, now);
                self.watch = Some(w);
                d
            },
            None => WatchDecision::Stop,
        }
    }
}

/// Whether closing the companion returns focus to the main panel: when asked,
/// or when an idle close finds the companion focused and the main panel visible.
pub fn restore_main_focus(focus_main: bool, idle_close: bool, statistics_focused: bool, main_visible: bool) -> (r: bool)
    ensures
        r == (focus_main || (idle_close && statistics_focused && main_visible)),
{
    focus_main || (idle_close && statistics_focused && main_visible)
}

} // verus!
