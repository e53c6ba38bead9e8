//! Which Codex credential to use, in order: a personal access token, then a
//! fresh OAuth login, then the local Codex command-line app, which owns token
//! refresh. The requests themselves are made by the caller.
use vstd::prelude::*;
use vstd::string::*;
use crate::models::CodexStatisticsSource;
use crate::providers::{FetchError, fetch_error_text};

verus! {

/// What reading the login file gave.
#[derive(Clone, Copy, Debug, PartialEq, Eq, Structural)]
pub enum CredentialLoad {
    Missing,
    Unreadable,
    Invalid,
    /// The kinds of credential found; `oauth` tells whether the OAuth login
    /// needs a refresh, where there is one.
    Loaded { pat: bool, api_key: bool, oauth: Option<bool> },
}

pub open spec fn sat_sub(a: i64, b: i64) -> int {
    let d = a - b;
    if d > i64::MAX { i64::MAX as int } else if d < i64::MIN { i64::MIN as int } else { d }
}

/// An OAuth login needs a refresh within five minutes of its expiry; without
/// an expiry, when it was never refreshed or last refreshed over eight days ago.
pub open spec fn needs_refresh_at(expires_at: Option<i64>, last_refresh: Option<i64>, now: i64) -> bool {
    match expires_at {
        Some(expiry) => sat_sub(expiry, now) <= 300,
        None => match last_refresh {
            None => true,
            Some(last) => sat_sub(now, last) > 8 * 24 * 60 * 60,
        },
    }
}

/// `needs_refresh_at` for an OAuth login, `now` in seconds since the epoch.
pub fn needs_refresh(expires_at: Option<i64>, last_refresh: Option<i64>, now: i64) -> (r: bool)
    ensures
        r == needs_refresh_at(expires_at, last_refresh, now),
{
    match expires_at {
        Some(expiry) => saturating_sub(expiry, now) <= 300,
        None => match last_refresh {
            None => true,
            Some(last) => saturating_sub(now, last) > 8 * 24 * 60 * 60,
        },
    }
}

fn saturating_sub(a: i64, b: i64) -> (d: i64)
    ensures
        d == sat_sub(a, b),
{
    let d: i128 = a as i128 - b as i128;
    if d > i64::MAX as i128 {
        i64::MAX
    } else if d < i64::MIN as i128 {
        i64::MIN
    } else {
        d as i64
    }
}

/// The next request to make, or the end of the attempt.
#[derive(Debug)]
pub enum Step {
    /// Ask the usage service with the personal access token.
    Pat,
    /// Ask the usage service with the OAuth login.
    OAuth,
    /// Ask the local Codex app; its answer is final.
    Cli,
    /// Ask the local Codex app; only a ready answer is accepted, else `Fail`.
    CliMustBeReady(String),
    /// An API-key login: no subscription figures exist.
    ApiKey,
    Fail(String),
}

/// How a direct request ended.
#[derive(Clone, Copy, Debug, PartialEq, Eq, Structural)]
pub enum Outcome {
    Success,
    Failed(FetchError),
}

/// Steps as values for the contracts.
pub enum StepModel {
    Pat,
    OAuth,
    Cli,
    CliMustBeReady(Seq<char>),
    ApiKey,
    Fail(Seq<char>),
    Done,
}

pub open spec fn step_model(s: Step) -> StepModel {
    match s {
        Step::Pat => StepModel::Pat,
        Step::OAuth => StepModel::OAuth,
        Step::Cli => StepModel::Cli,
        Step::CliMustBeReady(m) => StepModel::CliMustBeReady(m@),
        Step::ApiKey => StepModel::ApiKey,
        Step::Fail(m) => StepModel::Fail(m@),
    }
}

pub open spec fn opt_step_model(s: Option<Step>) -> StepModel {
    match s {
        Some(x) => step_model(x),
        None => StepModel::Done,
    }
}

pub open spec fn invalid_login_text() -> Seq<char> { "Codex 登录文件格式无法识别，请在 Codex 中重新登录"@ }
pub open spec fn unreadable_quota_text() -> Seq<char> {
    "无法读取 Codex 登录文件，且本机 Codex 未能恢复用量；请检查登录文件权限或重新登录"@
}

// ---------------------------------------------------------------------------
// Quota.

/// After the token, or without one: an API key has no quota; a fresh OAuth
/// login is asked directly; a stale one, or none, is left to the local app.
pub open spec fn quota_after_pat(api_key: bool, oauth: Option<bool>) -> StepModel {
    if api_key {
        StepModel::ApiKey
    } else {
        match oauth {
            Some(stale) => if stale { StepModel::Cli } else { StepModel::OAuth },
            None => StepModel::Cli,
        }
    }
}

pub open spec fn quota_first(load: CredentialLoad) -> StepModel {
    match load {
        CredentialLoad::Invalid => StepModel::Fail(invalid_login_text()),
        CredentialLoad::Missing => StepModel::Cli,
        CredentialLoad::Unreadable => StepModel::CliMustBeReady(unreadable_quota_text()),
        CredentialLoad::Loaded { pat, api_key, oauth } => if pat { StepModel::Pat } else { quota_after_pat(api_key, oauth) },
    }
}

/// After a direct request: success ends; an unauthorized token falls through
/// to the next credential, an unauthorized OAuth login to the local app; any
/// other failure ends with its message.
pub open spec fn quota_next(step: StepModel, outcome: Outcome, load: CredentialLoad) -> StepModel {
    match outcome {
        Outcome::Success => StepModel::Done,
        Outcome::Failed(FetchError::Unauthorized) => match (step, load) {
            (StepModel::Pat, CredentialLoad::Loaded { pat, api_key, oauth }) => quota_after_pat(api_key, oauth),
            _ => StepModel::Cli,
        },
        Outcome::Failed(e) => StepModel::Fail(fetch_error_text(e)),
    }
}

/// A network, server or decoding failure ends the attempt with its message:
/// it never hands the login to the local app or switches credentials.
pub proof fn law_transient_failures_end_the_attempt(step: StepModel, e: FetchError, load: CredentialLoad)
    requires
        e != FetchError::Unauthorized,
    ensures
        quota_next(step, Outcome::Failed(e), load) == StepModel::Fail(fetch_error_text(e)),
{
}

/// An explicitly selected source never falls back to another: after a direct
/// request, any failure ends the attempt.
pub proof fn law_explicit_sources_never_fall_back(source: CodexStatisticsSource, step: StepModel, e: FetchError, load: CredentialLoad)
    requires
        source != CodexStatisticsSource::Auto,
    ensures
        activity_next(source, step, Outcome::Failed(e), load) == StepModel::Fail(fetch_error_text(e)),
{
}

fn quota_after(api_key: bool, oauth: Option<bool>) -> (s: Step)
    ensures
        step_model(s) == quota_after_pat(api_key, oauth),
{
    if api_key {
        Step::ApiKey
    } else {
        match oauth {
            Some(stale) => if stale { Step::Cli } else { Step::OAuth },
            None => Step::Cli,
        }
    }
}

/// The first step of reading quota.
pub fn quota_start(load: CredentialLoad) -> (s: Step)
    ensures
        step_model(s) == quota_first(load),
{
    match load {
        CredentialLoad::Invalid => Step::Fail(String::from_str("Codex 登录文件格式无法识别，请在 Codex 中重新登录")),
        CredentialLoad::Missing => Step::Cli,
        CredentialLoad::Unreadable => Step::CliMustBeReady(String::from_str(
            "无法读取 Codex 登录文件，且本机 Codex 未能恢复用量；请检查登录文件权限或重新登录")),
        CredentialLoad::Loaded { pat, api_key, oauth } => if pat { Step::Pat } else { quota_after(api_key, oauth) },
    }
}

/// The step after a direct quota request made at `step`.
pub fn quota_step(step: &Step, outcome: Outcome, load: CredentialLoad) -> (next: Option<Step>)
    ensures
        opt_step_model(next) == quota_next(step_model(*step), outcome, load),
{
    match outcome {
        Outcome::Success => None,
        Outcome::Failed(FetchError::Unauthorized) => match (step, load) {
            (Step::Pat, CredentialLoad::Loaded { pat, api_key, oauth }) => Some(quota_after(api_key, oauth)),
            _ => Some(Step::Cli),
        },
        Outcome::Failed(e) => Some(Step::Fail(e.message())),
    }
}

// ---------------------------------------------------------------------------
// Account activity.

pub open spec fn oauth_refresh_text() -> Seq<char> {
    "Codex OAuth 凭据需要刷新，请先在 Codex 中恢复登录，或选择自动 / CLI 来源"@
}
pub open spec fn unreadable_activity_text() -> Seq<char> {
    "无法读取 Codex 登录文件，且本机 Codex 未能恢复使用统计；请检查权限或重新登录"@
}
pub open spec fn no_login_text() -> Seq<char> { "所选来源没有可用的本机 Codex 登录凭据，请先在 Codex 中登录"@ }
pub open spec fn unreadable_text() -> Seq<char> { "无法读取 Codex 登录文件，请检查文件权限后重试"@ }
pub open spec fn no_pat_text() -> Seq<char> { "当前 Codex 登录文件未配置 PAT，请在 Codex 中配置 PAT 或选择其他来源"@ }
pub open spec fn api_key_text() -> Seq<char> { "当前 Codex 使用 API Key 登录，无法读取 ChatGPT 账号的服务端 Token 活动"@ }
pub open spec fn no_oauth_text() -> Seq<char> { "当前 Codex 登录文件没有 OAuth 凭据，请先使用 ChatGPT 登录 Codex"@ }

/// After the token step for account activity: an API key cannot read it; a
/// fresh OAuth login is asked; a stale one is left to the local app in
/// automatic mode and refused otherwise; without OAuth, the automatic mode
/// falls to the local app and an explicit source fails.
pub open spec fn activity_after_pat(automatic: bool, api_key: bool, oauth: Option<bool>) -> StepModel {
    if api_key {
        StepModel::Fail(api_key_text())
    } else {
        match oauth {
            Some(stale) => if stale {
                if automatic { StepModel::Cli } else { StepModel::Fail(oauth_refresh_text()) }
            } else {
                StepModel::OAuth
            },
            None => if automatic { StepModel::Cli } else { StepModel::Fail(no_oauth_text()) },
        }
    }
}

pub open spec fn activity_first(source: CodexStatisticsSource, load: CredentialLoad) -> StepModel {
    let automatic = source == CodexStatisticsSource::Auto;
    match load {
        CredentialLoad::Missing => if automatic { StepModel::Cli } else { StepModel::Fail(no_login_text()) },
        CredentialLoad::Unreadable => if automatic {
            StepModel::CliMustBeReady(unreadable_activity_text())
        } else {
            StepModel::Fail(unreadable_text())
        },
        CredentialLoad::Invalid => StepModel::Fail(invalid_login_text()),
        CredentialLoad::Loaded { pat, api_key, oauth } => {
            if automatic || source == CodexStatisticsSource::Pat {
                if pat {
                    StepModel::Pat
                } else if !automatic {
                    StepModel::Fail(no_pat_text())
                } else {
                    activity_after_pat(automatic, api_key, oauth)
                }
            } else {
                activity_after_pat(automatic, api_key, oauth)
            }
        },
    }
}

/// After a direct activity request: only the automatic mode moves on after an
/// unauthorized answer.
pub open spec fn activity_next(source: CodexStatisticsSource, step: StepModel, outcome: Outcome, load: CredentialLoad) -> StepModel {
    let automatic = source == CodexStatisticsSource::Auto;
    match outcome {
        Outcome::Success => StepModel::Done,
        Outcome::Failed(e) => if e == FetchError::Unauthorized && automatic {
            match (step, load) {
                (StepModel::Pat, CredentialLoad::Loaded { pat, api_key, oauth }) => activity_after_pat(automatic, api_key, oauth),
                _ => StepModel::Cli,
            }
        } else {
            StepModel::Fail(fetch_error_text(e))
        },
    }
}

fn activity_after(automatic: bool, api_key: bool, oauth: Option<bool>) -> (s: Step)
    ensures
        step_model(s) == activity_after_pat(automatic, api_key, oauth),
{
    if api_key {
        return Step::Fail(String::from_str("当前 Codex 使用 API Key 登录，无法读取 ChatGPT 账号的服务端 Token 活动"));
    }
    match oauth {
        Some(stale) => if stale {
            if automatic {
                Step::Cli
            } else {
                Step::Fail(String::from_str("Codex OAuth 凭据需要刷新，请先在 Codex 中恢复登录，或选择自动 / CLI 来源"))
            }
        } else {
            Step::OAuth
        },
        None => if automatic {
            Step::Cli
        } else {
            Step::Fail(String::from_str("当前 Codex 登录文件没有 OAuth 凭据，请先使用 ChatGPT 登录 Codex"))
        },
    }
}

/// The first step of reading account activity from the selected source.
pub fn activity_start(source: CodexStatisticsSource, load: CredentialLoad) -> (s: Step)
    ensures
        step_model(s) == activity_first(source, load),
{
    let automatic = match source {
        CodexStatisticsSource::Auto => true,
        _ => false,
    };
    let pat_source = match source {
        CodexStatisticsSource::Pat => true,
        _ => false,
    };
    match load {
        CredentialLoad::Missing => if automatic {
            Step::Cli
        } else {
            Step::Fail(String::from_str("所选来源没有可用的本机 Codex 登录凭据，请先在 Codex 中登录"))
        },
        CredentialLoad::Unreadable => if automatic {
            Step::CliMustBeReady(String::from_str("无法读取 Codex 登录文件，且本机 Codex 未能恢复使用统计；请检查权限或重新登录"))
        } else {
            Step::Fail(String::from_str("无法读取 Codex 登录文件，请检查文件权限后重试"))
        },
        CredentialLoad::Invalid => Step::Fail(String::from_str("Codex 登录文件格式无法识别，请在 Codex 中重新登录")),
        CredentialLoad::Loaded { pat, api_key, oauth } => {
            if (automatic || pat_source) && pat {
                Step::Pat
            } else if pat_source && !pat {
                Step::Fail(String::from_str("当前 Codex 登录文件未配置 PAT，请在 Codex 中配置 PAT 或选择其他来源"))
            } else {
                activity_after(automatic, api_key, oauth)
            }
        },
    }
}

/// The step after a direct activity request made at `step`.
pub fn activity_step(source: CodexStatisticsSource, step: &Step, outcome: Outcome, load: CredentialLoad) -> (next: Option<Step>)
    ensures
        opt_step_model(next) == activity_next(source, step_model(*step), outcome, load),
{
    let automatic = match source {
        CodexStatisticsSource::Auto => true,
        _ => false,
    };
    match outcome {
        Outcome::Success => None,
        Outcome::Failed(e) => {
            let unauthorized = match e {
                FetchError::Unauthorized => true,
                _ => false,
            };
            if unauthorized && automatic {
                match (step, load) {
                    (Step::Pat, CredentialLoad::Loaded { pat, api_key, oauth }) => Some(activity_after(automatic, api_key, oauth)),
                    _ => Some(Step::Cli),
                }
            } else {
                Some(Step::Fail(e.message()))
            }
        },
    }
}

// ---------------------------------------------------------------------------
// Routing an account-activity request, and the identities it reports.

/// Where an account-activity request goes first.
#[derive(Debug)]
pub enum Route {
    /// Statistics come from the local logs; the service is not asked.
    LocalOnly,
    /// Follow the credential steps.
    Credentials(Step),
}

pub open spec fn custom_backend_text() -> Seq<char> { "当前 Codex 使用自定义服务地址，请选择 CLI 来源读取服务端统计"@ }

/// Local statistics ask nothing; the CLI source asks the local app; a custom
/// backend stays with the local app in automatic mode and fails an explicit
/// direct source; otherwise the credential steps apply.
pub open spec fn route_of(source: CodexStatisticsSource, custom_backend: bool, load: CredentialLoad) -> Option<StepModel> {
    if source == CodexStatisticsSource::Local {
        None
    } else if source == CodexStatisticsSource::Cli {
        Some(StepModel::Cli)
    } else if custom_backend {
        Some(if source == CodexStatisticsSource::Auto { StepModel::Cli } else { StepModel::Fail(custom_backend_text()) })
    } else {
        Some(activity_first(source, load))
    }
}

pub fn activity_route(source: CodexStatisticsSource, custom_backend: bool, load: CredentialLoad) -> (r: Route)
    ensures
        match r {
            Route::LocalOnly => route_of(source, custom_backend, load) is None,
            Route::Credentials(s) => route_of(source, custom_backend, load) == Some(step_model(s)),
        },
{
    match source {
        CodexStatisticsSource::Local => Route::LocalOnly,
        CodexStatisticsSource::Cli => Route::Credentials(Step::Cli),
        _ => if custom_backend {
            match source {
                CodexStatisticsSource::Auto => Route::Credentials(Step::Cli),
                _ => Route::Credentials(Step::Fail(String::from_str("当前 Codex 使用自定义服务地址，请选择 CLI 来源读取服务端统计"))),
            }
        } else {
            Route::Credentials(activity_start(source, load))
        },
    }
}

/// The OAuth login's identity as stored.
pub struct OAuthIdentity {
    pub email: Option<String>,
    pub account_id: Option<String>,
}

pub open spec fn lower(s: Seq<char>) -> Seq<char> {
    s.map_values(|c: char| crate::text::ascii_lower(c))
}

/// The account id attached to a result of the local app: only from an OAuth
/// login stored beside no token or API key, and only when its e-mail matches
/// the app's (ignoring ASCII case and surrounding whitespace).
pub open spec fn cli_account_of(load: CredentialLoad, oauth: Option<OAuthIdentity>, email: Option<Seq<char>>) -> Option<Seq<char>> {
    match load {
        CredentialLoad::Loaded { pat, api_key, oauth: present } => if pat || api_key || present is None {
            None
        } else {
            match oauth {
                None => None,
                Some(o) => match (o.email, email) {
                    (Some(expected), Some(actual)) => if lower(expected@) != lower(crate::text::spec_trim(actual)) {
                        None
                    } else {
                        crate::quota::opt_text_of(o.account_id)
                    },
                    _ => crate::quota::opt_text_of(o.account_id),
                },
            }
        },
        _ => None,
    }
}

pub fn cli_account_id(load: CredentialLoad, oauth: Option<OAuthIdentity>, email: Option<&str>) -> (id: Option<String>)
    ensures
        crate::quota::opt_text_of(id) == cli_account_of(load, oauth, match email { Some(e) => Some(e@), None => None }),
{
    match load {
        CredentialLoad::Loaded { pat, api_key, oauth: present } => {
            if pat || api_key || present.is_none() {
                return None;
            }
            let o = match oauth {
                Some(o) => o,
                None => { return None; },
            };
            if let (Some(expected), Some(actual)) = (&o.email, email) {
                if !crate::text::eq_ignore_ascii_case(expected.as_str(), crate::text::trim_text(actual)) {
                    return None;
                }
            }
            o.account_id
        },
        _ => None,
    }
}

/// How an HTTP status ends a usage request: success goes on; 401 is an
/// unauthorized credential; any other status is a server error.
pub open spec fn status_error(code: u16) -> Option<FetchError> {
    if 200 <= code <= 299 { None } else if code == 401 { Some(FetchError::Unauthorized) } else { Some(FetchError::Server(code)) }
}

pub fn http_status(code: u16) -> (e: Option<FetchError>)
    ensures
        e == status_error(code),
{
    if 200 <= code && code <= 299 { None } else if code == 401 { Some(FetchError::Unauthorized) } else { Some(FetchError::Server(code)) }
}

} // verus!
