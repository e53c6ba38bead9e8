//! The dashboard snapshot: one card per enabled provider in settings order,
//! and a revision that grows with every published refresh or settings save.
use vstd::prelude::*;
use vstd::string::*;
use crate::models::{AppSettings, DashboardSnapshot, DataMode, ProviderId, ProviderStatus, ProviderUsage, ResetCredit, ResetCredits, UsageWindow};
use crate::commands::contains_provider;

verus! {

pub open spec fn reading_text() -> Seq<char> { "正在读取本机账号…"@ }

/// A card waiting for its first reading.
pub open spec fn is_pending_card(u: ProviderUsage, id: ProviderId, name: Seq<char>) -> bool {
    u.id == id && u.name@ == name && u.plan@ == Seq::<char>::empty() && u.source == DataMode::Local
        && u.status == ProviderStatus::Unavailable && u.account is None
        && (u.message matches Some(m) && m@ == reading_text())
        && u.windows@.len() == 0 && u.updated_at is None && u.cache_scope is None && u.reset_credits is None
}

/// The card of a provider before anything was read; `name` is its display name.
pub fn pending_provider(id: ProviderId, name: &str) -> (u: ProviderUsage)
    ensures
        is_pending_card(u, id, name@),
{
    ProviderUsage {
        id,
        name: String::from_str(name),
        plan: String::new(),
        source: DataMode::Local,
        status: ProviderStatus::Unavailable,
        account: None,
        message: Some(String::from_str("正在读取本机账号…")),
        windows: Vec::new(),
        updated_at: None,
        cache_scope: None,
        reset_credits: None,
    }
}

/// The display names of the providers.
pub struct ProviderNames {
    pub codex: String,
    pub claude: String,
}

pub open spec fn name_of(names: ProviderNames, id: ProviderId) -> Seq<char> {
    match id {
        ProviderId::Codex => names.codex@,
        ProviderId::Claude => names.claude@,
    }
}

fn name_for(names: &ProviderNames, id: ProviderId) -> (n: &str)
    ensures
        n@ == name_of(*names, id),
{
    match id {
        ProviderId::Codex => names.codex.as_str(),
        ProviderId::Claude => names.claude.as_str(),
    }
}

pub fn copy_window(w: &UsageWindow) -> (c: UsageWindow)
    ensures
        c == *w,
{
    UsageWindow {
        label: w.label.clone(),
        used_percent: w.used_percent,
        resets_at: crate::statistics::records::copy_text(&w.resets_at),
    }
}

fn copy_windows(v: &Vec<UsageWindow>) -> (c: Vec<UsageWindow>)
    ensures
        c@ == v@,
{
    let mut c: Vec<UsageWindow> = Vec::new();
    let mut i: usize = 0;
    while i < v.len()
        invariant
            i <= v@.len(),
            c@ == v@.subrange(0, i as int),
        decreases v.len() - i,
    {
        c.push(copy_window(&v[i]));
        i = i + 1;
        assert(c@ =~= v@.subrange(0, i as int));
    }
    assert(v@.subrange(0, v@.len() as int) =~= v@);
    c
}

fn copy_credit(r: &ResetCredit) -> (c: ResetCredit)
    ensures
        c == *r,
{
    ResetCredit { id: r.id.clone(), remaining: r.remaining, expires_at: crate::statistics::records::copy_text(&r.expires_at) }
}

fn copy_credits(v: &Vec<ResetCredit>) -> (c: Vec<ResetCredit>)
    ensures
        c@ == v@,
{
    let mut c: Vec<ResetCredit> = Vec::new();
    let mut i: usize = 0;
    while i < v.len()
        invariant
            i <= v@.len(),
            c@ == v@.subrange(0, i as int),
        decreases v.len() - i,
    {
        c.push(copy_credit(&v[i]));
        i = i + 1;
        assert(c@ =~= v@.subrange(0, i as int));
    }
    assert(v@.subrange(0, v@.len() as int) =~= v@);
    c
}

/// Two cards that hold the same values.
pub open spec fn same_card(a: ProviderUsage, b: ProviderUsage) -> bool {
    &&& a.id == b.id && a.name == b.name && a.plan == b.plan && a.source == b.source && a.status == b.status
    &&& a.account == b.account && a.message == b.message && a.windows@ == b.windows@
    &&& a.updated_at == b.updated_at && a.cache_scope == b.cache_scope
    &&& match (a.reset_credits, b.reset_credits) {
        (None, None) => true,
        (Some(x), Some(y)) => x.remaining == y.remaining && x.updated_at == y.updated_at && x.message == y.message
            && match (x.credits, y.credits) {
                (None, None) => true,
                (Some(p), Some(q)) => p@ == q@,
                _ => false,
            },
        _ => false,
    }
}

pub fn copy_usage(u: &ProviderUsage) -> (c: ProviderUsage)
    ensures
        same_card(c, *u),
{
    let reset_credits = match &u.reset_credits {
        Some(r) => Some(ResetCredits {
            remaining: r.remaining,
            credits: match &r.credits {
                Some(v) => Some(copy_credits(v)),
                None => None,
            },
            updated_at: crate::statistics::records::copy_text(&r.updated_at),
            message: crate::statistics::records::copy_text(&r.message),
        }),
        None => None,
    };
    ProviderUsage {
        id: u.id,
        name: u.name.clone(),
        plan: u.plan.clone(),
        source: u.source,
        status: u.status,
        account: crate::statistics::records::copy_text(&u.account),
        message: crate::statistics::records::copy_text(&u.message),
        windows: copy_windows(&u.windows),
        updated_at: crate::statistics::records::copy_text(&u.updated_at),
        cache_scope: crate::statistics::records::copy_text(&u.cache_scope),
        reset_credits,
    }
}

/// The first card of provider `id`.
pub open spec fn card_index(cards: Seq<ProviderUsage>, id: ProviderId) -> Option<int>
    decreases cards.len(),
{
    if cards.len() == 0 {
        None
    } else {
        match card_index(cards.drop_last(), id) {
            Some(i) => Some(i),
            None => if cards.last().id == id { Some(cards.len() - 1) } else { None },
        }
    }
}

proof fn lemma_card_index_bounds(cards: Seq<ProviderUsage>, id: ProviderId)
    ensures
        card_index(cards, id) matches Some(i) ==> 0 <= i < cards.len() && cards[i].id == id,
    decreases cards.len(),
{
    if cards.len() > 0 {
        lemma_card_index_bounds(cards.drop_last(), id);
    }
}

proof fn lemma_card_index(cards: Seq<ProviderUsage>, id: ProviderId, n: int)
    requires
        0 <= n <= cards.len(),
        forall|k: int| 0 <= k < n ==> (#[trigger] cards[k]).id != id,
    ensures
        card_index(cards.subrange(0, n), id) is None,
    decreases n,
{
    if n > 0 {
        assert(cards.subrange(0, n).drop_last() =~= cards.subrange(0, n - 1));
        lemma_card_index(cards, id, n - 1);
    }
}

proof fn lemma_card_index_found(cards: Seq<ProviderUsage>, id: ProviderId, k: int)
    requires
        0 <= k < cards.len(),
        cards[k].id == id,
        forall|m: int| 0 <= m < k ==> (#[trigger] cards[m]).id != id,
    ensures
        card_index(cards, id) == Some(k),
    decreases cards.len(),
{
    if cards.len() - 1 > k {
        assert(cards.drop_last()[k] == cards[k]);
        assert forall|m: int| 0 <= m < k implies (#[trigger] cards.drop_last()[m]).id != id by {
            assert(cards.drop_last()[m] == cards[m]);
        }
        lemma_card_index_found(cards.drop_last(), id, k);
    } else {
        lemma_card_index(cards, id, k);
        assert(cards.subrange(0, k) =~= cards.drop_last());
    }
}

/// The cards for the enabled providers, in settings order: each provider's
/// current card where there is one, else a pending card.
pub open spec fn arranged_card(id: ProviderId, current: Seq<ProviderUsage>, names: ProviderNames, card: ProviderUsage) -> bool {
    match card_index(current, id) {
        Some(k) => same_card(card, current[k]),
        None => is_pending_card(card, id, name_of(names, id)),
    }
}

fn card_for(id: ProviderId, current: &Vec<ProviderUsage>, names: &ProviderNames) -> (card: ProviderUsage)
    ensures
        arranged_card(id, current@, *names, card),
{
    let mut k: usize = 0;
    while k < current.len()
        invariant
            k <= current@.len(),
            forall|m: int| 0 <= m < k ==> (#[trigger] current@[m]).id != id,
        decreases current.len() - k,
    {
        if current[k].id == id {
            proof { lemma_card_index_found(current@, id, k as int); }
            return copy_usage(&current[k]);
        }
        k = k + 1;
    }
    proof {
        lemma_card_index(current@, id, current@.len() as int);
        assert(current@.subrange(0, current@.len() as int) =~= current@);
    }
    pending_provider(id, name_for(names, id))
}

/// Arranges cards for the enabled providers; settings are authoritative even
/// when saved after the last reading.
pub fn arrange(enabled: &Vec<ProviderId>, current: &Vec<ProviderUsage>, names: &ProviderNames) -> (cards: Vec<ProviderUsage>)
    ensures
        cards@.len() == enabled@.len(),
        forall|i: int| 0 <= i < enabled@.len() ==> arranged_card(enabled@[i], current@, *names, #[trigger] cards@[i]),
{
    let mut cards: Vec<ProviderUsage> = Vec::new();
    let mut i: usize = 0;
    while i < enabled.len()
        invariant
            i <= enabled@.len(),
            cards@.len() == i,
            forall|j: int| 0 <= j < i ==> arranged_card(enabled@[j], current@, *names, #[trigger] cards@[j]),
        decreases enabled.len() - i,
    {
        let card = card_for(enabled[i], current, names);
        cards.push(card);
        i = i + 1;
    }
    cards
}

pub open spec fn revision_limit_text() -> Seq<char> { "快照版本已达到上限，请重启 AgentBar"@ }

/// The snapshot to publish after saving settings: the enabled providers'
/// cards arranged, under the next revision.
pub fn saved_settings_snapshot(current: &DashboardSnapshot, settings: &AppSettings, names: &ProviderNames) -> (r: Result<DashboardSnapshot, String>)
    ensures
        current.revision == u64::MAX ==> (r matches Err(e) && e@ == revision_limit_text()),
        current.revision < u64::MAX ==> (r matches Ok(s)
            && s.revision == current.revision + 1
            && s.updated_at == current.updated_at && s.mode == current.mode
            && s.providers@.len() == settings.enabled_providers@.len()
            && forall|i: int| 0 <= i < s.providers@.len()
                ==> arranged_card(settings.enabled_providers@[i], current.providers@, *names, #[trigger] s.providers@[i])),
{
    if current.revision == u64::MAX {
        return Err(String::from_str("快照版本已达到上限，请重启 AgentBar"));
    }
    Ok(DashboardSnapshot {
        providers: arrange(&settings.enabled_providers, &current.providers, names),
        updated_at: current.updated_at.clone(),
        mode: current.mode,
        revision: current.revision + 1,
    })
}

pub open spec fn disabled_text() -> Seq<char> { "该服务已停用，无法刷新用量"@ }
pub open spec fn unknown_text() -> Seq<char> { "未找到该服务，无法刷新用量"@ }

/// The providers a refresh collects: all enabled ones, or only the requested
/// card's provider, which must be enabled and known.
pub open spec fn collected_providers(settings: AppSettings, provider: Option<ProviderId>, known: Seq<ProviderId>) -> Result<Seq<ProviderId>, Seq<char>> {
    match provider {
        None => Ok(settings.enabled_providers@),
        Some(id) => if !settings.enabled_providers@.contains(id) {
            Err(disabled_text())
        } else if !known.contains(id) {
            Err(unknown_text())
        } else {
            Ok(seq![id])
        },
    }
}

/// The settings a refresh collects with: all enabled providers, or only the
/// requested card's provider, which must be enabled and known.
pub fn refresh_settings(settings: &AppSettings, provider: Option<ProviderId>, known: &Vec<ProviderId>) -> (r: Result<AppSettings, String>)
    ensures
        match (r, collected_providers(*settings, provider, known@)) {
            (Ok(s), Ok(p)) => s.enabled_providers@ == p
                && s.refresh_interval_seconds == settings.refresh_interval_seconds
                && s.theme == settings.theme && s.codex_statistics_source == settings.codex_statistics_source,
            (Err(e), Err(m)) => e@ == m,
            _ => false,
        },
{
    let mut enabled: Vec<ProviderId> = Vec::new();
    match provider {
        None => {
            let mut i: usize = 0;
            while i < settings.enabled_providers.len()
                invariant
                    i <= settings.enabled_providers@.len(),
                    enabled@ == settings.enabled_providers@.subrange(0, i as int),
                decreases settings.enabled_providers.len() - i,
            {
                enabled.push(settings.enabled_providers[i]);
                i = i + 1;
                assert(enabled@ =~= settings.enabled_providers@.subrange(0, i as int));
            }
            assert(settings.enabled_providers@.subrange(0, settings.enabled_providers@.len() as int) =~= settings.enabled_providers@);
        },
        Some(id) => {
            if !contains_provider(&settings.enabled_providers, id) {
                return Err(String::from_str("该服务已停用，无法刷新用量"));
            }
            if !contains_provider(known, id) {
                return Err(String::from_str("未找到该服务，无法刷新用量"));
            }
            enabled.push(id);
            assert(enabled@ =~= seq![id]);
        },
    }
    Ok(AppSettings {
        refresh_interval_seconds: settings.refresh_interval_seconds,
        enabled_providers: enabled,
        theme: settings.theme,
        codex_statistics_source: settings.codex_statistics_source,
    })
}

fn find_card(cards: &Vec<ProviderUsage>, id: ProviderId) -> (k: Option<usize>)
    ensures
        match k {
            Some(i) => card_index(cards@, id) == Some(i as int),
            None => card_index(cards@, id) is None,
        },
{
    let mut k: usize = 0;
    while k < cards.len()
        invariant
            k <= cards@.len(),
            forall|m: int| 0 <= m < k ==> (#[trigger] cards@[m]).id != id,
        decreases cards.len() - k,
    {
        if cards[k].id == id {
            proof { lemma_card_index_found(cards@, id, k as int); }
            return Some(k);
        }
        k = k + 1;
    }
    proof {
        lemma_card_index(cards@, id, cards@.len() as int);
        assert(cards@.subrange(0, cards@.len() as int) =~= cards@);
    }
    None
}

/// What a finished collection does to the dashboard.
pub enum RefreshOutcome {
    /// Settings were saved meanwhile: their snapshot stands.
    Superseded,
    /// This snapshot is to be stored and then published.
    Publish(DashboardSnapshot),
}

pub open spec fn unread_text() -> Seq<char> { "未能读取该服务用量，请重试"@ }
pub open spec fn missing_card_text() -> Seq<char> { "该服务用量卡片已不可用，请重试"@ }

/// The card at position `i` after refreshing provider `id`: the first collected
/// card in place of that provider's first card, the current card elsewhere.
pub open spec fn refreshed_card(current: Seq<ProviderUsage>, collected: Seq<ProviderUsage>, id: ProviderId, i: int) -> ProviderUsage {
    if i == card_index(current, id)->0 { collected[0] } else { current[i] }
}

/// `s` is what a card refresh of provider `id` publishes: the current cards
/// with that provider's card replaced, the collection time, the current mode and
/// the next revision.
pub open spec fn card_refresh_publishes(current: DashboardSnapshot, collected: DashboardSnapshot, id: ProviderId, s: DashboardSnapshot) -> bool {
    &&& collected.providers@.len() > 0
    &&& card_index(current.providers@, id) is Some
    &&& current.revision < u64::MAX
    &&& s.providers@.len() == current.providers@.len()
    &&& forall|i: int| 0 <= i < s.providers@.len()
        ==> same_card(#[trigger] s.providers@[i], refreshed_card(current.providers@, collected.providers@, id, i))
    &&& s.updated_at == collected.updated_at && s.mode == current.mode
    &&& s.revision == current.revision + 1
}

/// Merges a finished collection. A settings save during the collection wins.
/// A full refresh replaces the cards; a card refresh replaces only that
/// provider's card with the first collected card, keeping the others in full.
/// Either way the revision is the next one.
pub fn refresh_result(
    current: &DashboardSnapshot,
    collected: DashboardSnapshot,
    provider: Option<ProviderId>,
    version_at_start: u64,
    version_now: u64,
) -> (r: Result<RefreshOutcome, String>)
    ensures
        version_now != version_at_start ==> (r matches Ok(RefreshOutcome::Superseded)),
        version_now == version_at_start ==> match provider {
            None => if current.revision == u64::MAX {
                r matches Err(e) && e@ == revision_limit_text()
            } else {
                r matches Ok(RefreshOutcome::Publish(s)) && s.providers == collected.providers
                    && s.updated_at == collected.updated_at && s.mode == collected.mode
                    && s.revision == current.revision + 1
            },
            Some(id) => if collected.providers@.len() == 0 {
                r matches Err(e) && e@ == unread_text()
            } else if card_index(current.providers@, id) is None {
                r matches Err(e) && e@ == missing_card_text()
            } else if current.revision == u64::MAX {
                r matches Err(e) && e@ == revision_limit_text()
            } else {
                r matches Ok(RefreshOutcome::Publish(s)) && card_refresh_publishes(*current, collected, id, s)
            },
        },
{
    if version_now != version_at_start {
        return Ok(RefreshOutcome::Superseded);
    }
    match provider {
        None => {
            if current.revision == u64::MAX {
                return Err(String::from_str("快照版本已达到上限，请重启 AgentBar"));
            }
            let mut s = collected;
            s.revision = current.revision + 1;
            Ok(RefreshOutcome::Publish(s))
        },
        Some(id) => {
            if collected.providers.len() == 0 {
                return Err(String::from_str("未能读取该服务用量，请重试"));
            }
            let k = match find_card(&current.providers, id) {
                Some(k) => k,
                None => { return Err(String::from_str("该服务用量卡片已不可用，请重试")); },
            };
            proof { lemma_card_index_bounds(current.providers@, id); }
            if current.revision == u64::MAX {
                return Err(String::from_str("快照版本已达到上限，请重启 AgentBar"));
            }
            let mut providers: Vec<ProviderUsage> = Vec::new();
            let mut i: usize = 0;
            while i < current.providers.len()
                invariant
                    i <= current.providers@.len(),
                    k < current.providers@.len(),
                    collected.providers@.len() > 0,
                    providers@.len() == i,
                    forall|j: int| 0 <= j < i ==> same_card(#[trigger] providers@[j],
                        if j == k as int { collected.providers@[0] } else { current.providers@[j] }),
                decreases current.providers.len() - i,
            {
                if i == k {
                    providers.push(copy_usage(&collected.providers[0]));
                } else {
                    providers.push(copy_usage(&current.providers[i]));
                }
                i = i + 1;
            }
            Ok(RefreshOutcome::Publish(DashboardSnapshot {
                providers,
                updated_at: collected.updated_at,
                mode: current.mode,
                revision: current.revision + 1,
            }))
        },
    }
}

/// Refreshing one provider's card collects that provider alone, and the
/// published dashboard keeps every other provider's card in full, holds the
/// collected card in place of the old one and takes the next revision.
pub proof fn law_card_refresh_keeps_other_cards(
    settings: AppSettings,
    known: Seq<ProviderId>,
    id: ProviderId,
    current: DashboardSnapshot,
    collected: DashboardSnapshot,
    s: DashboardSnapshot,
)
    requires
        settings.enabled_providers@.contains(id),
        known.contains(id),
        card_refresh_publishes(current, collected, id, s),
    ensures
        collected_providers(settings, Some(id), known) == Ok::<Seq<ProviderId>, Seq<char>>(seq![id]),
        s.revision == current.revision + 1,
        s.providers@.len() == current.providers@.len(),
        forall|i: int| 0 <= i < current.providers@.len() && (#[trigger] current.providers@[i]).id != id
            ==> same_card(s.providers@[i], current.providers@[i]),
        same_card(s.providers@[card_index(current.providers@, id)->0], collected.providers@[0]),
{
    lemma_card_index_bounds(current.providers@, id);
    let k = card_index(current.providers@, id)->0;
    assert(same_card(s.providers@[k], refreshed_card(current.providers@, collected.providers@, id, k)));
    assert forall|i: int| 0 <= i < current.providers@.len() && (#[trigger] current.providers@[i]).id != id
        implies same_card(s.providers@[i], current.providers@[i]) by {
        assert(same_card(s.providers@[i], refreshed_card(current.providers@, collected.providers@, id, i)));
    }
}

} // verus!
