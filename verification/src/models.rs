//! Shared data contract: providers, settings and their validation.
use vstd::prelude::*;

verus! {

broadcast use vstd::seq_lib::group_seq_properties;

/// A usage provider that AgentBar can read.
#[derive(Clone, Copy, Debug, PartialEq, Eq, Structural)]
pub enum ProviderId {
    Codex,
    Claude,
}

/// Appearance preference.
#[derive(Clone, Copy, Debug, PartialEq, Eq, Structural)]
pub enum Theme {
    System,
    Light,
    Dark,
}

/// Where Codex account statistics come from.
#[derive(Clone, Copy, Debug, PartialEq, Eq, Structural)]
pub enum CodexStatisticsSource {
    Local,
    Auto,
    Oauth,
    Pat,
    Cli,
}

/// How provider data was obtained.
#[derive(Clone, Copy, Debug, PartialEq, Eq, Structural)]
pub enum DataMode {
    Local,
    Live,
}

/// Outcome of one provider read.
#[derive(Clone, Copy, Debug, PartialEq, Eq, Structural)]
pub enum ProviderStatus {
    Ready,
    Unavailable,
    Error,
}

/// Desktop preferences.
#[derive(Clone, Debug)]
pub struct AppSettings {
    pub refresh_interval_seconds: u64,
    pub enabled_providers: Vec<ProviderId>,
    pub theme: Theme,
    pub codex_statistics_source: CodexStatisticsSource,
}

/// The refresh intervals that settings accept.
pub open spec fn valid_interval(seconds: u64) -> bool {
    seconds == 60 || seconds == 300 || seconds == 900
}

/// The providers of `s`, each kept at its first occurrence, in order.
pub open spec fn dedup_providers(s: Seq<ProviderId>) -> Seq<ProviderId>
    decreases s.len(),
{
    if s.len() == 0 {
        Seq::empty()
    } else {
        let prefix = dedup_providers(s.drop_last());
        if prefix.contains(s.last()) {
            prefix
        } else {
            prefix.push(s.last())
        }
    }
}

/// Explicit credential sources from older settings read as automatic selection.
pub open spec fn migrated_source(source: CodexStatisticsSource) -> CodexStatisticsSource {
    match source {
        CodexStatisticsSource::Local => CodexStatisticsSource::Local,
        _ => CodexStatisticsSource::Auto,
    }
}

pub open spec fn interval_error_text() -> Seq<char> {
    "刷新间隔仅支持 60、300 或 900 秒"@
}

proof fn lemma_dedup_contains(s: Seq<ProviderId>, p: ProviderId)
    ensures
        dedup_providers(s).contains(p) <==> s.contains(p),
    decreases s.len(),
{
    if s.len() > 0 {
        let prefix = s.drop_last();
        lemma_dedup_contains(prefix, p);
        assert(s =~= prefix.push(s.last()));
        if s.contains(p) && p != s.last() {
            let i = choose|i: int| 0 <= i < s.len() && s[i] == p;
            assert(prefix[i] == p);
        }
        if prefix.contains(p) {
            let i = choose|i: int| 0 <= i < prefix.len() && prefix[i] == p;
            assert(s[i] == p);
        }
        if p == s.last() {
            assert(s[s.len() - 1] == p);
            assert(dedup_providers(prefix).push(s.last()).last() == p);
        }
    }
}

/// Deduplication keeps every distinct provider exactly once.
pub proof fn lemma_dedup_is_duplicate_free(s: Seq<ProviderId>)
    ensures
        dedup_providers(s).no_duplicates(),
        forall|p: ProviderId| dedup_providers(s).contains(p) <==> s.contains(p),
    decreases s.len(),
{
    if s.len() > 0 {
        lemma_dedup_is_duplicate_free(s.drop_last());
        assert forall|p: ProviderId| dedup_providers(s).contains(p) <==> s.contains(p) by {
            lemma_dedup_contains(s, p);
        }
    }
}

proof fn lemma_dedup_fixed(s: Seq<ProviderId>)
    requires
        s.no_duplicates(),
    ensures
        dedup_providers(s) == s,
    decreases s.len(),
{
    if s.len() > 0 {
        let prefix = s.drop_last();
        assert(prefix.no_duplicates());
        lemma_dedup_fixed(prefix);
        lemma_dedup_contains(prefix, s.last());
        if prefix.contains(s.last()) {
            let i = choose|i: int| 0 <= i < prefix.len() && prefix[i] == s.last();
            assert(s[i] == s[s.len() - 1]);
        }
        assert(prefix.push(s.last()) =~= s);
    }
}

/// Validating settings that validation produced changes nothing: the interval
/// stays accepted, the providers are already free of repeats, and the source
/// is already migrated.
pub proof fn law_validation_is_idempotent(interval: u64, providers: Seq<ProviderId>, source: CodexStatisticsSource)
    requires
        valid_interval(interval),
    ensures
        dedup_providers(dedup_providers(providers)) == dedup_providers(providers),
        migrated_source(migrated_source(source)) == migrated_source(source),
{
    lemma_dedup_is_duplicate_free(providers);
    lemma_dedup_fixed(dedup_providers(providers));
}

impl Default for AppSettings {
    /// Two providers, a five-minute refresh, the system theme and local statistics.
    fn default() -> (settings: AppSettings)
        ensures
            settings.refresh_interval_seconds == 300,
            settings.enabled_providers@ == seq![ProviderId::Codex, ProviderId::Claude],
            settings.theme == Theme::System,
            settings.codex_statistics_source == CodexStatisticsSource::Local,
    {
        AppSettings::default_settings()
    }
}

impl AppSettings {
    /// Two providers, a five-minute refresh, the system theme and local statistics.
    pub fn default_settings() -> (settings: AppSettings)
        ensures
            settings.refresh_interval_seconds == 300,
            settings.enabled_providers@ == seq![ProviderId::Codex, ProviderId::Claude],
            settings.theme == Theme::System,
            settings.codex_statistics_source == CodexStatisticsSource::Local,
    {
        let mut providers = Vec::new();
        providers.push(ProviderId::Codex);
        providers.push(ProviderId::Claude);
        AppSettings {
            refresh_interval_seconds: 300,
            enabled_providers: providers,
            theme: Theme::System,
            codex_statistics_source: CodexStatisticsSource::Local,
        }
    }

    /// Accepts only the supported intervals; removes repeated providers while
    /// keeping the first occurrence of each, and migrates old credential sources.
    pub fn validated(self) -> (result: Result<AppSettings, String>)
        ensures
            result is Ok <==> valid_interval(self.refresh_interval_seconds),
            result matches Ok(s) ==> {
                &&& s.refresh_interval_seconds == self.refresh_interval_seconds
                &&& s.enabled_providers@ == dedup_providers(self.enabled_providers@)
                &&& s.theme == self.theme
                &&& s.codex_statistics_source == migrated_source(self.codex_statistics_source)
            },
            result matches Err(e) ==> e@ == interval_error_text(),
    {
        let seconds = self.refresh_interval_seconds;
        if !(seconds == 60 || seconds == 300 || seconds == 900) {
            return Err(String::from_str("刷新间隔仅支持 60、300 或 900 秒"));
        }
        let providers = &self.enabled_providers;
        let mut unique: Vec<ProviderId> = Vec::new();
        let mut i: usize = 0;
        while i < providers.len()
            invariant
                i <= providers.len(),
                unique@ == dedup_providers(providers@.subrange(0, i as int)),
            decreases providers.len() - i,
        {
            let provider = providers[i];
            let mut present = false;
            let mut j: usize = 0;
            while j < unique.len()
                invariant
                    j <= unique.len(),
                    present <==> unique@.subrange(0, j as int).contains(provider),
                decreases unique.len() - j,
            {
                if unique[j] == provider {
                    present = true;
                }
                proof {
                    assert(unique@.subrange(0, j + 1) =~= unique@.subrange(0, j as int).push(unique@[j as int]));
                }
                j = j + 1;
            }
            proof {
                assert(unique@.subrange(0, j as int) =~= unique@);
                assert(providers@.subrange(0, i + 1).drop_last() =~= providers@.subrange(0, i as int));
            }
            if !present {
                unique.push(provider);
            }
            i = i + 1;
        }
        proof {
            assert(providers@.subrange(0, providers.len() as int) =~= providers@);
        }
        let source = match self.codex_statistics_source {
            CodexStatisticsSource::Local => CodexStatisticsSource::Local,
            _ => CodexStatisticsSource::Auto,
        };
        Ok(AppSettings {
            refresh_interval_seconds: seconds,
            enabled_providers: unique,
            theme: self.theme,
            codex_statistics_source: source,
        })
    }
}

/// One quota window as reported: its label, the share used (an IEEE-754
/// encoding, see `Amount`) and the reset time when known.
#[derive(Clone, Debug)]
pub struct UsageWindow {
    pub label: String,
    pub used_percent: crate::account_statistics::Amount,
    pub resets_at: Option<String>,
}

/// One reset credit that is still available.
#[derive(Clone, Debug)]
pub struct ResetCredit {
    pub id: String,
    pub remaining: u64,
    pub expires_at: Option<String>,
}

/// Reset credits: the service-reported count and an optional detail list.
#[derive(Clone, Debug)]
pub struct ResetCredits {
    pub remaining: Option<u64>,
    pub credits: Option<Vec<ResetCredit>>,
    pub updated_at: Option<String>,
    pub message: Option<String>,
}

/// The usage of one provider as shown on its card.
#[derive(Clone, Debug)]
pub struct ProviderUsage {
    pub id: ProviderId,
    pub name: String,
    pub plan: String,
    pub source: DataMode,
    pub status: ProviderStatus,
    pub account: Option<String>,
    pub message: Option<String>,
    pub windows: Vec<UsageWindow>,
    pub updated_at: Option<String>,
    pub cache_scope: Option<String>,
    pub reset_credits: Option<ResetCredits>,
}

/// All providers' usage, with a revision that only grows.
#[derive(Clone, Debug)]
pub struct DashboardSnapshot {
    pub providers: Vec<ProviderUsage>,
    pub updated_at: String,
    pub mode: DataMode,
    pub revision: u64,
}

} // verus!
