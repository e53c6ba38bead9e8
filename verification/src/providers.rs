//! Provider-facing rules that need no network: plan names, error texts, the
//! unavailable and failed cards, and which login scope a result may keep.
use vstd::prelude::*;
use crate::models::{DataMode, ProviderId, ProviderStatus, ProviderUsage, ResetCredits};
use crate::text::{str_eq, decimal, push_decimal};

verus! {

/// Anthropic subscription names.
pub open spec fn claude_plan_text(v: Seq<char>) -> Seq<char> {
    if v == "pro"@ || v == "claude_pro"@ { "Pro"@ }
    else if v == "max"@ || v == "claude_max"@ { "Max"@ }
    else if v == "team"@ || v == "claude_team"@ { "Team"@ }
    else if v == "enterprise"@ || v == "claude_enterprise"@ { "Enterprise"@ }
    else { "订阅未确认"@ }
}

pub fn plan_name(value: &str) -> (name: String)
    ensures
        name@ == claude_plan_text(value@),
{
    if str_eq(value, "pro") || str_eq(value, "claude_pro") { String::from_str("Pro") }
    else if str_eq(value, "max") || str_eq(value, "claude_max") { String::from_str("Max") }
    else if str_eq(value, "team") || str_eq(value, "claude_team") { String::from_str("Team") }
    else if str_eq(value, "enterprise") || str_eq(value, "claude_enterprise") { String::from_str("Enterprise") }
    else { String::from_str("订阅未确认") }
}

/// ChatGPT plan names as the Codex service reports them.
pub open spec fn codex_plan_text(plan: Option<Seq<char>>) -> Seq<char> {
    match plan {
        None => "ChatGPT"@,
        Some(v) => {
            if v == "guest"@ { "Guest"@ }
            else if v == "free"@ { "Free"@ }
            else if v == "free_workspace"@ { "Free Workspace"@ }
            else if v == "go"@ { "Go"@ }
            else if v == "plus"@ { "Plus"@ }
            else if v == "pro"@ { "Pro"@ }
            else if v == "prolite"@ { "Pro Lite"@ }
            else if v == "team"@ { "Team"@ }
            else if v == "business"@ || v == "self_serve_business_prolite"@ || v == "self_serve_business_usage_based"@ { "Business"@ }
            else if v == "enterprise"@ || v == "ent26"@ || v == "enterprise_cbp_automation"@ || v == "enterprise_cbp_usage_based"@ { "Enterprise"@ }
            else if v == "edu"@ || v == "education"@ || v == "edu_plus"@ || v == "edu_pro"@ { "Edu"@ }
            else if v == "quorum"@ { "Quorum"@ }
            else if v == "k12"@ { "K12"@ }
            else { "ChatGPT"@ }
        },
    }
}

pub fn plan_label(plan: Option<&str>) -> (label: String)
    ensures
        label@ == codex_plan_text(match plan { Some(p) => Some(p@), None => None }),
{
    let v = match plan { None => { return String::from_str("ChatGPT"); }, Some(v) => v };
    if str_eq(v, "guest") { String::from_str("Guest") }
    else if str_eq(v, "free") { String::from_str("Free") }
    else if str_eq(v, "free_workspace") { String::from_str("Free Workspace") }
    else if str_eq(v, "go") { String::from_str("Go") }
    else if str_eq(v, "plus") { String::from_str("Plus") }
    else if str_eq(v, "pro") { String::from_str("Pro") }
    else if str_eq(v, "prolite") { String::from_str("Pro Lite") }
    else if str_eq(v, "team") { String::from_str("Team") }
    else if str_eq(v, "business") || str_eq(v, "self_serve_business_prolite") || str_eq(v, "self_serve_business_usage_based") { String::from_str("Business") }
    else if str_eq(v, "enterprise") || str_eq(v, "ent26") || str_eq(v, "enterprise_cbp_automation") || str_eq(v, "enterprise_cbp_usage_based") { String::from_str("Enterprise") }
    else if str_eq(v, "edu") || str_eq(v, "education") || str_eq(v, "edu_plus") || str_eq(v, "edu_pro") { String::from_str("Edu") }
    else if str_eq(v, "quorum") { String::from_str("Quorum") }
    else if str_eq(v, "k12") { String::from_str("K12") }
    else { String::from_str("ChatGPT") }
}

/// Why a request to the Codex usage service failed.
#[derive(Clone, Copy, Debug, PartialEq, Eq, Structural)]
pub enum FetchError {
    Unauthorized,
    InvalidResponse,
    Network,
    Server(u16),
}

pub open spec fn invalid_response_text() -> Seq<char> { "Codex 返回的数据格式无法识别，请更新 Codex 后重试"@ }

pub open spec fn fetch_error_text(e: FetchError) -> Seq<char> {
    match e {
        FetchError::Unauthorized => "Codex 登录凭据已失效，请在 Codex 中重新登录"@,
        FetchError::InvalidResponse => invalid_response_text(),
        FetchError::Network => "无法连接 Codex 用量服务，请检查网络后重试"@,
        FetchError::Server(code) => if code == 429 {
            "Codex 用量服务请求过于频繁，请稍后重试"@
        } else {
            "Codex 用量服务返回错误（HTTP "@ + decimal(code as nat) + "），请稍后重试"@
        },
    }
}

impl FetchError {
    /// The message shown for this failure; it never includes a response body.
    pub fn message(self) -> (m: String)
        ensures
            m@ == fetch_error_text(self),
    {
        match self {
            FetchError::Unauthorized => String::from_str("Codex 登录凭据已失效，请在 Codex 中重新登录"),
            FetchError::InvalidResponse => String::from_str("Codex 返回的数据格式无法识别，请更新 Codex 后重试"),
            FetchError::Network => String::from_str("无法连接 Codex 用量服务，请检查网络后重试"),
            FetchError::Server(code) => {
                if code == 429 {
                    String::from_str("Codex 用量服务请求过于频繁，请稍后重试")
                } else {
                    let mut m = String::from_str("Codex 用量服务返回错误（HTTP ");
                    push_decimal(&mut m, code as u64);
                    m.append("），请稍后重试");
                    m
                }
            },
        }
    }
}

pub open spec fn details_unavailable_text() -> Seq<char> { "暂时无法读取重置次数明细，请稍后刷新"@ }

/// Records that the reset-credit details could not be read, keeping any count
/// and list already known.
pub fn mark_details_unavailable(current: &mut Option<ResetCredits>)
    ensures
        *final(current) matches Some(c) && (c.message matches Some(m) && m@ == details_unavailable_text()),
        match *old(current) {
            Some(o) => (*final(current))->0.remaining == o.remaining && (*final(current))->0.credits == o.credits
                && (*final(current))->0.updated_at == o.updated_at,
            None => (*final(current))->0.remaining is None && (*final(current))->0.credits is None
                && (*final(current))->0.updated_at is None,
        },
{
    let message = String::from_str("暂时无法读取重置次数明细，请稍后刷新");
    match current {
        Some(c) => { c.message = Some(message); },
        None => {
            *current = Some(ResetCredits { remaining: None, credits: None, updated_at: None, message: Some(message) });
        },
    }
}

/// An unavailable card: a provider, its message, and nothing else known.
pub open spec fn is_unavailable_card(u: ProviderUsage, id: ProviderId) -> bool {
    u.id == id && u.source == DataMode::Local && u.status == ProviderStatus::Unavailable
        && u.account is None && u.windows@.len() == 0 && u.updated_at is None && u.cache_scope is None
        && u.reset_credits is None
}

/// The Codex card shown while no usage can be read.
pub fn codex_unavailable(message: &str) -> (u: ProviderUsage)
    ensures
        is_unavailable_card(u, ProviderId::Codex),
        u.name@ == "Codex"@,
        u.plan@ == "未连接"@,
        u.message matches Some(m) && m@ == message@,
{
    ProviderUsage {
        id: ProviderId::Codex,
        name: String::from_str("Codex"),
        plan: String::from_str("未连接"),
        source: DataMode::Local,
        status: ProviderStatus::Unavailable,
        account: None,
        message: Some(String::from_str(message)),
        windows: Vec::new(),
        updated_at: None,
        cache_scope: None,
        reset_credits: None,
    }
}

/// A Codex result may be cached under the login scope only when the scope did
/// not change while reading, and the result is ready or the credentials were
/// usable and accepted.
pub open spec fn kept_scope(before: Option<Seq<char>>, after: Option<Seq<char>>, ready: bool, usable: bool, unauthorized: bool) -> Option<Seq<char>> {
    if before == after && (ready || (usable && !unauthorized)) { after } else { None }
}

pub fn result_scope(before: &Option<String>, after: Option<String>, ready: bool, usable: bool, unauthorized: bool) -> (scope: Option<String>)
    ensures
        crate::quota::opt_text_of(scope) == kept_scope(crate::quota::opt_text_of(*before), crate::quota::opt_text_of(after), ready, usable, unauthorized),
{
    let same = match (before, &after) {
        (Some(a), Some(b)) => str_eq(a.as_str(), b.as_str()),
        (None, None) => true,
        _ => false,
    };
    if same && (ready || (usable && !unauthorized)) { after } else { None }
}

/// A provider whose reading failed shows its message on an error card; the
/// other providers are unaffected.
pub fn failed_card(id: ProviderId, name: &str, message: String) -> (u: ProviderUsage)
    ensures
        u.id == id && u.name@ == name@ && u.status == ProviderStatus::Error && u.message == Some(message)
            && u.account is None && u.windows@.len() == 0 && u.updated_at is None && u.plan@ == Seq::<char>::empty()
            && u.source == DataMode::Local && u.cache_scope is None && u.reset_credits is None,
{
    let mut usage = crate::dashboard::pending_provider(id, name);
    usage.status = ProviderStatus::Error;
    usage.message = Some(message);
    usage
}

/// The Codex usage provider.
pub struct CodexProvider;

impl CodexProvider {
    pub fn id(&self) -> (id: ProviderId)
        ensures
            id == ProviderId::Codex,
    {
        ProviderId::Codex
    }
}

/// The Anthropic subscription usage provider.
pub struct ClaudeProvider;

impl ClaudeProvider {
    pub fn id(&self) -> (id: ProviderId)
        ensures
            id == ProviderId::Claude,
    {
        ProviderId::Claude
    }
}

/// Each ChatGPT plan id that the service reports is shown under its own
/// published name; no plan, or an id the table does not know, shows as ChatGPT.
pub proof fn law_codex_plan_names()
    ensures
        codex_plan_text(None) == "ChatGPT"@,
        codex_plan_text(Some("guest"@)) == "Guest"@,
        codex_plan_text(Some("free"@)) == "Free"@,
        codex_plan_text(Some("free_workspace"@)) == "Free Workspace"@,
        codex_plan_text(Some("go"@)) == "Go"@,
        codex_plan_text(Some("plus"@)) == "Plus"@,
        codex_plan_text(Some("pro"@)) == "Pro"@,
        codex_plan_text(Some("prolite"@)) == "Pro Lite"@,
        codex_plan_text(Some("team"@)) == "Team"@,
        codex_plan_text(Some("business"@)) == "Business"@,
        codex_plan_text(Some("self_serve_business_prolite"@)) == "Business"@,
        codex_plan_text(Some("self_serve_business_usage_based"@)) == "Business"@,
        codex_plan_text(Some("enterprise"@)) == "Enterprise"@,
        codex_plan_text(Some("ent26"@)) == "Enterprise"@,
        codex_plan_text(Some("enterprise_cbp_automation"@)) == "Enterprise"@,
        codex_plan_text(Some("enterprise_cbp_usage_based"@)) == "Enterprise"@,
        codex_plan_text(Some("edu"@)) == "Edu"@,
        codex_plan_text(Some("education"@)) == "Edu"@,
        codex_plan_text(Some("edu_plus"@)) == "Edu"@,
        codex_plan_text(Some("edu_pro"@)) == "Edu"@,
        codex_plan_text(Some("quorum"@)) == "Quorum"@,
        codex_plan_text(Some("k12"@)) == "K12"@,
        codex_plan_text(Some("unknown_plan"@)) == "ChatGPT"@,
{
    reveal_strlit("guest");
    assert("guest"@.len() == 5 && "guest"@[0] == 'g' && "guest"@[1] == 'u' && "guest"@[2] == 'e' && "guest"@[3] == 's' && "guest"@[4] == 't');
    reveal_strlit("free");
    assert("free"@.len() == 4 && "free"@[0] == 'f' && "free"@[1] == 'r' && "free"@[2] == 'e' && "free"@[3] == 'e');
    reveal_strlit("free_workspace");
    assert("free_workspace"@.len() == 14 && "free_workspace"@[0] == 'f' && "free_workspace"@[1] == 'r' && "free_workspace"@[2] == 'e' && "free_workspace"@[3] == 'e' && "free_workspace"@[4] == '_' && "free_workspace"@[5] == 'w' && "free_workspace"@[6] == 'o' && "free_workspace"@[7] == 'r' && "free_workspace"@[8] == 'k' && "free_workspace"@[9] == 's' && "free_workspace"@[10] == 'p' && "free_workspace"@[11] == 'a' && "free_workspace"@[12] == 'c' && "free_workspace"@[13] == 'e');
    reveal_strlit("go");
    assert("go"@.len() == 2 && "go"@[0] == 'g' && "go"@[1] == 'o');
    reveal_strlit("plus");
    assert("plus"@.len() == 4 && "plus"@[0] == 'p' && "plus"@[1] == 'l' && "plus"@[2] == 'u' && "plus"@[3] == 's');
    reveal_strlit("pro");
    assert("pro"@.len() == 3 && "pro"@[0] == 'p' && "pro"@[1] == 'r' && "pro"@[2] == 'o');
    reveal_strlit("prolite");
    assert("prolite"@.len() == 7 && "prolite"@[0] == 'p' && "prolite"@[1] == 'r' && "prolite"@[2] == 'o' && "prolite"@[3] == 'l' && "prolite"@[4] == 'i' && "prolite"@[5] == 't' && "prolite"@[6] == 'e');
    reveal_strlit("team");
    assert("team"@.len() == 4 && "team"@[0] == 't' && "team"@[1] == 'e' && "team"@[2] == 'a' && "team"@[3] == 'm');
    reveal_strlit("business");
    assert("business"@.len() == 8 && "business"@[0] == 'b' && "business"@[1] == 'u' && "business"@[2] == 's' && "business"@[3] == 'i' && "business"@[4] == 'n' && "business"@[5] == 'e' && "business"@[6] == 's' && "business"@[7] == 's');
    reveal_strlit("self_serve_business_prolite");
    assert("self_serve_business_prolite"@.len() == 27 && "self_serve_business_prolite"@[0] == 's' && "self_serve_business_prolite"@[1] == 'e' && "self_serve_business_prolite"@[2] == 'l' && "self_serve_business_prolite"@[3] == 'f' && "self_serve_business_prolite"@[4] == '_' && "self_serve_business_prolite"@[5] == 's' && "self_serve_business_prolite"@[6] == 'e' && "self_serve_business_prolite"@[7] == 'r' && "self_serve_business_prolite"@[8] == 'v' && "self_serve_business_prolite"@[9] == 'e' && "self_serve_business_prolite"@[10] == '_' && "self_serve_business_prolite"@[11] == 'b' && "self_serve_business_prolite"@[12] == 'u' && "self_serve_business_prolite"@[13] == 's' && "self_serve_business_prolite"@[14] == 'i' && "self_serve_business_prolite"@[15] == 'n' && "self_serve_business_prolite"@[16] == 'e' && "self_serve_business_prolite"@[17] == 's' && "self_serve_business_prolite"@[18] == 's' && "self_serve_business_prolite"@[19] == '_' && "self_serve_business_prolite"@[20] == 'p' && "self_serve_business_prolite"@[21] == 'r' && "self_serve_business_prolite"@[22] == 'o' && "self_serve_business_prolite"@[23] == 'l' && "self_serve_business_prolite"@[24] == 'i' && "self_serve_business_prolite"@[25] == 't' && "self_serve_business_prolite"@[26] == 'e');
    reveal_strlit("self_serve_business_usage_based");
    assert("self_serve_business_usage_based"@.len() == 31 && "self_serve_business_usage_based"@[0] == 's' && "self_serve_business_usage_based"@[1] == 'e' && "self_serve_business_usage_based"@[2] == 'l' && "self_serve_business_usage_based"@[3] == 'f' && "self_serve_business_usage_based"@[4] == '_' && "self_serve_business_usage_based"@[5] == 's' && "self_serve_business_usage_based"@[6] == 'e' && "self_serve_business_usage_based"@[7] == 'r' && "self_serve_business_usage_based"@[8] == 'v' && "self_serve_business_usage_based"@[9] == 'e' && "self_serve_business_usage_based"@[10] == '_' && "self_serve_business_usage_based"@[11] == 'b' && "self_serve_business_usage_based"@[12] == 'u' && "self_serve_business_usage_based"@[13] == 's' && "self_serve_business_usage_based"@[14] == 'i' && "self_serve_business_usage_based"@[15] == 'n' && "self_serve_business_usage_based"@[16] == 'e' && "self_serve_business_usage_based"@[17] == 's' && "self_serve_business_usage_based"@[18] == 's' && "self_serve_business_usage_based"@[19] == '_' && "self_serve_business_usage_based"@[20] == 'u' && "self_serve_business_usage_based"@[21] == 's' && "self_serve_business_usage_based"@[22] == 'a' && "self_serve_business_usage_based"@[23] == 'g' && "self_serve_business_usage_based"@[24] == 'e' && "self_serve_business_usage_based"@[25] == '_' && "self_serve_business_usage_based"@[26] == 'b' && "self_serve_business_usage_based"@[27] == 'a' && "self_serve_business_usage_based"@[28] == 's' && "self_serve_business_usage_based"@[29] == 'e' && "self_serve_business_usage_based"@[30] == 'd');
    reveal_strlit("enterprise");
    assert("enterprise"@.len() == 10 && "enterprise"@[0] == 'e' && "enterprise"@[1] == 'n' && "enterprise"@[2] == 't' && "enterprise"@[3] == 'e' && "enterprise"@[4] == 'r' && "enterprise"@[5] == 'p' && "enterprise"@[6] == 'r' && "enterprise"@[7] == 'i' && "enterprise"@[8] == 's' && "enterprise"@[9] == 'e');
    reveal_strlit("ent26");
    assert("ent26"@.len() == 5 && "ent26"@[0] == 'e' && "ent26"@[1] == 'n' && "ent26"@[2] == 't' && "ent26"@[3] == '2' && "ent26"@[4] == '6');
    reveal_strlit("enterprise_cbp_automation");
    assert("enterprise_cbp_automation"@.len() == 25 && "enterprise_cbp_automation"@[0] == 'e' && "enterprise_cbp_automation"@[1] == 'n' && "enterprise_cbp_automation"@[2] == 't' && "enterprise_cbp_automation"@[3] == 'e' && "enterprise_cbp_automation"@[4] == 'r' && "enterprise_cbp_automation"@[5] == 'p' && "enterprise_cbp_automation"@[6] == 'r' && "enterprise_cbp_automation"@[7] == 'i' && "enterprise_cbp_automation"@[8] == 's' && "enterprise_cbp_automation"@[9] == 'e' && "enterprise_cbp_automation"@[10] == '_' && "enterprise_cbp_automation"@[11] == 'c' && "enterprise_cbp_automation"@[12] == 'b' && "enterprise_cbp_automation"@[13] == 'p' && "enterprise_cbp_automation"@[14] == '_' && "enterprise_cbp_automation"@[15] == 'a' && "enterprise_cbp_automation"@[16] == 'u' && "enterprise_cbp_automation"@[17] == 't' && "enterprise_cbp_automation"@[18] == 'o' && "enterprise_cbp_automation"@[19] == 'm' && "enterprise_cbp_automation"@[20] == 'a' && "enterprise_cbp_automation"@[21] == 't' && "enterprise_cbp_automation"@[22] == 'i' && "enterprise_cbp_automation"@[23] == 'o' && "enterprise_cbp_automation"@[24] == 'n');
    reveal_strlit("enterprise_cbp_usage_based");
    assert("enterprise_cbp_usage_based"@.len() == 26 && "enterprise_cbp_usage_based"@[0] == 'e' && "enterprise_cbp_usage_based"@[1] == 'n' && "enterprise_cbp_usage_based"@[2] == 't' && "enterprise_cbp_usage_based"@[3] == 'e' && "enterprise_cbp_usage_based"@[4] == 'r' && "enterprise_cbp_usage_based"@[5] == 'p' && "enterprise_cbp_usage_based"@[6] == 'r' && "enterprise_cbp_usage_based"@[7] == 'i' && "enterprise_cbp_usage_based"@[8] == 's' && "enterprise_cbp_usage_based"@[9] == 'e' && "enterprise_cbp_usage_based"@[10] == '_' && "enterprise_cbp_usage_based"@[11] == 'c' && "enterprise_cbp_usage_based"@[12] == 'b' && "enterprise_cbp_usage_based"@[13] == 'p' && "enterprise_cbp_usage_based"@[14] == '_' && "enterprise_cbp_usage_based"@[15] == 'u' && "enterprise_cbp_usage_based"@[16] == 's' && "enterprise_cbp_usage_based"@[17] == 'a' && "enterprise_cbp_usage_based"@[18] == 'g' && "enterprise_cbp_usage_based"@[19] == 'e' && "enterprise_cbp_usage_based"@[20] == '_' && "enterprise_cbp_usage_based"@[21] == 'b' && "enterprise_cbp_usage_based"@[22] == 'a' && "enterprise_cbp_usage_based"@[23] == 's' && "enterprise_cbp_usage_based"@[24] == 'e' && "enterprise_cbp_usage_based"@[25] == 'd');
    reveal_strlit("edu");
    assert("edu"@.len() == 3 && "edu"@[0] == 'e' && "edu"@[1] == 'd' && "edu"@[2] == 'u');
    reveal_strlit("education");
    assert("education"@.len() == 9 && "education"@[0] == 'e' && "education"@[1] == 'd' && "education"@[2] == 'u' && "education"@[3] == 'c' && "education"@[4] == 'a' && "education"@[5] == 't' && "education"@[6] == 'i' && "education"@[7] == 'o' && "education"@[8] == 'n');
    reveal_strlit("edu_plus");
    assert("edu_plus"@.len() == 8 && "edu_plus"@[0] == 'e' && "edu_plus"@[1] == 'd' && "edu_plus"@[2] == 'u' && "edu_plus"@[3] == '_' && "edu_plus"@[4] == 'p' && "edu_plus"@[5] == 'l' && "edu_plus"@[6] == 'u' && "edu_plus"@[7] == 's');
    reveal_strlit("edu_pro");
    assert("edu_pro"@.len() == 7 && "edu_pro"@[0] == 'e' && "edu_pro"@[1] == 'd' && "edu_pro"@[2] == 'u' && "edu_pro"@[3] == '_' && "edu_pro"@[4] == 'p' && "edu_pro"@[5] == 'r' && "edu_pro"@[6] == 'o');
    reveal_strlit("quorum");
    assert("quorum"@.len() == 6 && "quorum"@[0] == 'q' && "quorum"@[1] == 'u' && "quorum"@[2] == 'o' && "quorum"@[3] == 'r' && "quorum"@[4] == 'u' && "quorum"@[5] == 'm');
    reveal_strlit("k12");
    assert("k12"@.len() == 3 && "k12"@[0] == 'k' && "k12"@[1] == '1' && "k12"@[2] == '2');
    reveal_strlit("unknown_plan");
    assert("unknown_plan"@.len() == 12 && "unknown_plan"@[0] == 'u' && "unknown_plan"@[1] == 'n' && "unknown_plan"@[2] == 'k' && "unknown_plan"@[3] == 'n' && "unknown_plan"@[4] == 'o' && "unknown_plan"@[5] == 'w' && "unknown_plan"@[6] == 'n' && "unknown_plan"@[7] == '_' && "unknown_plan"@[8] == 'p' && "unknown_plan"@[9] == 'l' && "unknown_plan"@[10] == 'a' && "unknown_plan"@[11] == 'n');
}

/// Each Anthropic subscription id, bare or with its vendor prefix, is shown
/// under its own name; any other id shows that the subscription is unconfirmed.
pub proof fn law_anthropic_plan_names()
    ensures
        claude_plan_text("pro"@) == "Pro"@,
        claude_plan_text("claude_pro"@) == "Pro"@,
        claude_plan_text("max"@) == "Max"@,
        claude_plan_text("claude_max"@) == "Max"@,
        claude_plan_text("team"@) == "Team"@,
        claude_plan_text("claude_team"@) == "Team"@,
        claude_plan_text("enterprise"@) == "Enterprise"@,
        claude_plan_text("claude_enterprise"@) == "Enterprise"@,
        claude_plan_text("free"@) == "订阅未确认"@,
{
    reveal_strlit("pro");
    assert("pro"@.len() == 3 && "pro"@[0] == 'p' && "pro"@[1] == 'r' && "pro"@[2] == 'o');
    reveal_strlit("claude_pro");
    assert("claude_pro"@.len() == 10 && "claude_pro"@[0] == 'c' && "claude_pro"@[1] == 'l' && "claude_pro"@[2] == 'a' && "claude_pro"@[3] == 'u' && "claude_pro"@[4] == 'd' && "claude_pro"@[5] == 'e' && "claude_pro"@[6] == '_' && "claude_pro"@[7] == 'p' && "claude_pro"@[8] == 'r' && "claude_pro"@[9] == 'o');
    reveal_strlit("max");
    assert("max"@.len() == 3 && "max"@[0] == 'm' && "max"@[1] == 'a' && "max"@[2] == 'x');
    reveal_strlit("claude_max");
    assert("claude_max"@.len() == 10 && "claude_max"@[0] == 'c' && "claude_max"@[1] == 'l' && "claude_max"@[2] == 'a' && "claude_max"@[3] == 'u' && "claude_max"@[4] == 'd' && "claude_max"@[5] == 'e' && "claude_max"@[6] == '_' && "claude_max"@[7] == 'm' && "claude_max"@[8] == 'a' && "claude_max"@[9] == 'x');
    reveal_strlit("team");
    assert("team"@.len() == 4 && "team"@[0] == 't' && "team"@[1] == 'e' && "team"@[2] == 'a' && "team"@[3] == 'm');
    reveal_strlit("claude_team");
    assert("claude_team"@.len() == 11 && "claude_team"@[0] == 'c' && "claude_team"@[1] == 'l' && "claude_team"@[2] == 'a' && "claude_team"@[3] == 'u' && "claude_team"@[4] == 'd' && "claude_team"@[5] == 'e' && "claude_team"@[6] == '_' && "claude_team"@[7] == 't' && "claude_team"@[8] == 'e' && "claude_team"@[9] == 'a' && "claude_team"@[10] == 'm');
    reveal_strlit("enterprise");
    assert("enterprise"@.len() == 10 && "enterprise"@[0] == 'e' && "enterprise"@[1] == 'n' && "enterprise"@[2] == 't' && "enterprise"@[3] == 'e' && "enterprise"@[4] == 'r' && "enterprise"@[5] == 'p' && "enterprise"@[6] == 'r' && "enterprise"@[7] == 'i' && "enterprise"@[8] == 's' && "enterprise"@[9] == 'e');
    reveal_strlit("claude_enterprise");
    assert("claude_enterprise"@.len() == 17 && "claude_enterprise"@[0] == 'c' && "claude_enterprise"@[1] == 'l' && "claude_enterprise"@[2] == 'a' && "claude_enterprise"@[3] == 'u' && "claude_enterprise"@[4] == 'd' && "claude_enterprise"@[5] == 'e' && "claude_enterprise"@[6] == '_' && "claude_enterprise"@[7] == 'e' && "claude_enterprise"@[8] == 'n' && "claude_enterprise"@[9] == 't' && "claude_enterprise"@[10] == 'e' && "claude_enterprise"@[11] == 'r' && "claude_enterprise"@[12] == 'p' && "claude_enterprise"@[13] == 'r' && "claude_enterprise"@[14] == 'i' && "claude_enterprise"@[15] == 's' && "claude_enterprise"@[16] == 'e');
    reveal_strlit("free");
    assert("free"@.len() == 4 && "free"@[0] == 'f' && "free"@[1] == 'r' && "free"@[2] == 'e' && "free"@[3] == 'e');
}

} // verus!
