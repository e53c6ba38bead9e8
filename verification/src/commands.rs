//! Checks that guard the desktop commands: which window may ask for what, and
//! whether account statistics may be read under the current settings.
use vstd::prelude::*;
use crate::models::{AppSettings, CodexStatisticsSource, ProviderId};
use crate::text::str_eq;

verus! {

pub open spec fn codex_disabled_text() -> Seq<char> { "Codex 已停用，请先启用后读取使用统计"@ }
pub open spec fn source_changed_text() -> Seq<char> { "统计来源已变更，请按当前来源重新读取"@ }

/// Whether `providers` contains `id`.
pub fn contains_provider(providers: &Vec<ProviderId>, id: ProviderId) -> (found: bool)
    ensures
        found == providers@.contains(id),
{
    let mut i: usize = 0;
    while i < providers.len()
        invariant
            i <= providers.len(),
            forall|k: int| 0 <= k < i ==> providers@[k] != id,
        decreases providers.len() - i,
    {
        if providers[i] == id {
            assert(providers@[i as int] == id);
            return true;
        }
        i = i + 1;
    }
    false
}

/// Remote Codex statistics are read only while Codex is enabled and only for the
/// automatic source that the saved settings currently select.
pub fn validate_account_statistics_request(
    settings: &AppSettings,
    source: CodexStatisticsSource,
) -> (result: Result<(), String>)
    ensures
        !settings.enabled_providers@.contains(ProviderId::Codex) ==> (result matches Err(e) && e@ == codex_disabled_text()),
        settings.enabled_providers@.contains(ProviderId::Codex)
            && (source != CodexStatisticsSource::Auto || settings.codex_statistics_source != source)
            ==> (result matches Err(e) && e@ == source_changed_text()),
        result is Ok <==> (settings.enabled_providers@.contains(ProviderId::Codex)
            && source == CodexStatisticsSource::Auto
            && settings.codex_statistics_source == CodexStatisticsSource::Auto),
{
    if !contains_provider(&settings.enabled_providers, ProviderId::Codex) {
        return Err(String::from_str("Codex 已停用，请先启用后读取使用统计"));
    }
    if source != CodexStatisticsSource::Auto || settings.codex_statistics_source != source {
        return Err(String::from_str("统计来源已变更，请按当前来源重新读取"));
    }
    Ok(())
}

pub open spec fn panel_window_text() -> Seq<char> { "该窗口不能控制统计面板"@ }
pub open spec fn local_window_text() -> Seq<char> { "该窗口不能访问本机账号统计"@ }

/// Only the main panel and its statistics companion control the statistics panel.
pub fn require_panel_window(label: &str) -> (result: Result<(), String>)
    ensures
        result is Ok <==> (label@ == "main"@ || label@ == "statistics"@),
        result matches Err(e) ==> e@ == panel_window_text(),
{
    if str_eq(label, "main") || str_eq(label, "statistics") {
        Ok(())
    } else {
        Err(String::from_str("该窗口不能控制统计面板"))
    }
}

/// The app's own windows may read local account statistics; others may not.
pub fn require_local_settings_window(label: &str) -> (result: Result<(), String>)
    ensures
        result is Ok <==> (label@ == "main"@ || label@ == "settings"@ || label@ == "statistics"@),
        result matches Err(e) ==> e@ == local_window_text(),
{
    if str_eq(label, "main") || str_eq(label, "settings") || str_eq(label, "statistics") {
        Ok(())
    } else {
        Err(String::from_str("该窗口不能访问本机账号统计"))
    }
}

/// The interaction intents a panel may report.
pub fn valid_interaction_intent(intent: &str) -> (valid: bool)
    ensures
        valid <==> (intent@ == "pointer"@ || intent@ == "leave"@ || intent@ == "keyboard"@
            || intent@ == "focus"@),
{
    str_eq(intent, "pointer") || str_eq(intent, "leave") || str_eq(intent, "keyboard")
        || str_eq(intent, "focus")
}

pub open spec fn main_only_text() -> Seq<char> { "只能从主面板展开统计"@ }
pub open spec fn anchor_invalid_text() -> Seq<char> { "统计面板位置无效"@ }
pub open spec fn provider_disabled_text() -> Seq<char> { "当前服务未启用"@ }

/// A statistics panel opens only from the main panel, at a valid card position,
/// for an enabled provider; the first failing check names the error.
pub fn check_statistics_request(
    label: &str,
    anchor_valid: bool,
    settings: &AppSettings,
    provider: ProviderId,
) -> (result: Result<(), String>)
    ensures
        label@ != "main"@ ==> (result matches Err(e) && e@ == main_only_text()),
        label@ == "main"@ && !anchor_valid ==> (result matches Err(e) && e@ == anchor_invalid_text()),
        label@ == "main"@ && anchor_valid && !settings.enabled_providers@.contains(provider)
            ==> (result matches Err(e) && e@ == provider_disabled_text()),
        result is Ok <==> (label@ == "main"@ && anchor_valid && settings.enabled_providers@.contains(provider)),
{
    if !str_eq(label, "main") {
        return Err(String::from_str("只能从主面板展开统计"));
    }
    if !anchor_valid {
        return Err(String::from_str("统计面板位置无效"));
    }
    if !contains_provider(&settings.enabled_providers, provider) {
        return Err(String::from_str("当前服务未启用"));
    }
    Ok(())
}

pub open spec fn statistics_only_text() -> Seq<char> { "只能从统计窗口确认显示"@ }

/// Only the statistics window confirms that it has rendered.
pub fn require_statistics_window(label: &str) -> (result: Result<(), String>)
    ensures
        result is Ok <==> label@ == "statistics"@,
        result matches Err(e) ==> e@ == statistics_only_text(),
{
    if str_eq(label, "statistics") {
        Ok(())
    } else {
        Err(String::from_str("只能从统计窗口确认显示"))
    }
}

} // verus!
