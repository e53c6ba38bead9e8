use agentbar::models::CodexStatisticsSource;
use agentbar::providers::FetchError;
use agentbar::strategy::{activity_start, activity_step, needs_refresh, quota_start, quota_step, CredentialLoad, Outcome, Step};

/// Runs the quota strategy against scripted answers and records which
/// requests were made; the result is the final answer's tag or the failure.
fn run_quota(load: CredentialLoad, direct: &mut dyn FnMut(&str) -> Outcome, cli_ready: bool, calls: &mut Vec<&'static str>) -> Result<&'static str, String> {
    let mut step = quota_start(load);
    loop {
        let (name, outcome) = match &step {
            Step::Pat => ("pat", direct("pat")),
            Step::OAuth => ("oauth", direct("oauth")),
            Step::Cli => {
                calls.push("cli");
                return Ok("cli");
            }
            Step::CliMustBeReady(message) => {
                calls.push("cli");
                return if cli_ready { Ok("cli") } else { Err(message.clone()) };
            }
            Step::ApiKey => return Ok("api-key"),
            Step::Fail(message) => return Err(message.clone()),
        };
        calls.push(name);
        match quota_step(&step, outcome, load) {
            None => return Ok(name),
            Some(next) => step = next,
        }
    }
}

fn loaded(pat: bool, stale: bool) -> CredentialLoad {
    CredentialLoad::Loaded { pat, api_key: false, oauth: Some(stale) }
}

#[test]
fn auto_strategy_prefers_pat_then_oauth_and_repairs_only_unauthorized_with_cli() {
    let mut calls = Vec::new();
    let result = run_quota(
        loaded(true, false),
        &mut |name| if name == "pat" { Outcome::Failed(FetchError::Unauthorized) } else { Outcome::Success },
        true,
        &mut calls,
    );
    assert_eq!(result, Ok("oauth"));
    assert_eq!(calls, ["pat", "oauth"]);
    let mut calls = Vec::new();
    run_quota(loaded(true, false), &mut |_| Outcome::Failed(FetchError::Unauthorized), true, &mut calls).unwrap();
    assert_eq!(calls, ["pat", "oauth", "cli"]);
    let mut calls = Vec::new();
    run_quota(loaded(true, false), &mut |_| Outcome::Success, true, &mut calls).unwrap();
    assert_eq!(calls, ["pat"]);
}

#[test]
fn network_server_and_decode_failures_never_launch_cli_or_switch_identity() {
    for pat in [true, false] {
        for error in [
            FetchError::Network,
            FetchError::InvalidResponse,
            FetchError::Server(429),
            FetchError::Server(403),
            FetchError::Server(500),
        ] {
            let mut calls = Vec::new();
            let actual = run_quota(loaded(pat, false), &mut |_| Outcome::Failed(error), true, &mut calls).unwrap_err();
            assert_eq!(calls.len(), 1);
            assert_eq!(actual, error.message());
        }
    }
}

#[test]
fn expired_or_missing_native_credentials_delegate_refresh_to_cli_and_invalid_json_stops() {
    for load in [
        loaded(false, true),
        CredentialLoad::Missing,
        CredentialLoad::Loaded { pat: false, api_key: false, oauth: None },
    ] {
        let mut calls = Vec::new();
        assert_eq!(run_quota(load, &mut |_| panic!("credentials cannot be used directly"), true, &mut calls), Ok("cli"));
    }
    let mut calls = Vec::new();
    let error = run_quota(CredentialLoad::Invalid, &mut |_| unreachable!(), true, &mut calls).unwrap_err();
    assert!(error.contains("格式"));
    assert!(calls.is_empty());
    let error = run_quota(CredentialLoad::Unreadable, &mut |_| unreachable!(), false, &mut calls).unwrap_err();
    assert!(error.contains("权限"));
    let mut calls = Vec::new();
    let api_key = CredentialLoad::Loaded { pat: false, api_key: true, oauth: None };
    assert_eq!(run_quota(api_key, &mut |_| unreachable!(), true, &mut calls), Ok("api-key"));
    assert!(calls.is_empty());
}

#[test]
fn oauth_refresh_follows_expiry_then_last_refresh_age() {
    let now = 1_900_000_000;
    assert!(!needs_refresh(Some(now + 301), None, now));
    assert!(needs_refresh(Some(now + 300), Some(now), now));
    assert!(needs_refresh(None, None, now));
    assert!(!needs_refresh(None, Some(now - 8 * 24 * 3600), now));
    assert!(needs_refresh(None, Some(now - 8 * 24 * 3600 - 1), now));
    assert!(needs_refresh(Some(i64::MIN), None, i64::MAX));
}

fn run_activity(source: CodexStatisticsSource, load: CredentialLoad, direct: &mut dyn FnMut(&str) -> Outcome, calls: &mut Vec<&'static str>) -> Result<&'static str, String> {
    let mut step = activity_start(source, load);
    loop {
        let (name, outcome) = match &step {
            Step::Pat => ("pat", direct("pat")),
            Step::OAuth => ("oauth", direct("oauth")),
            Step::Cli | Step::CliMustBeReady(_) => {
                calls.push("cli");
                return Ok("cli");
            }
            Step::ApiKey => return Ok("api-key"),
            Step::Fail(message) => return Err(message.clone()),
        };
        calls.push(name);
        match activity_step(source, &step, outcome, load) {
            None => return Ok(name),
            Some(next) => step = next,
        }
    }
}

#[test]
fn auto_retries_only_authorization_failures_and_reports_the_effective_source() {
    let mut calls = Vec::new();
    let result = run_activity(
        CodexStatisticsSource::Auto,
        loaded(true, false),
        &mut |name| if name == "pat" { Outcome::Failed(FetchError::Unauthorized) } else { Outcome::Success },
        &mut calls,
    );
    assert_eq!(result, Ok("oauth"));
    assert_eq!(calls, ["pat", "oauth"]);
    let mut calls = Vec::new();
    let error = run_activity(CodexStatisticsSource::Auto, loaded(true, false), &mut |_| Outcome::Failed(FetchError::Network), &mut calls).unwrap_err();
    assert_eq!(error, FetchError::Network.message());
    assert_eq!(calls, ["pat"]);
}

#[test]
fn explicit_sources_never_silently_fallback_and_oauth_expiry_is_explicit() {
    let mut calls = Vec::new();
    let error = run_activity(CodexStatisticsSource::Pat, loaded(true, false), &mut |_| Outcome::Failed(FetchError::Unauthorized), &mut calls).unwrap_err();
    assert_eq!(error, FetchError::Unauthorized.message());
    assert_eq!(calls, ["pat"]);
    let mut calls = Vec::new();
    let error = run_activity(CodexStatisticsSource::Pat, loaded(false, false), &mut |_| unreachable!(), &mut calls).unwrap_err();
    assert!(error.contains("未配置 PAT"));
    let error = run_activity(CodexStatisticsSource::Oauth, loaded(true, true), &mut |_| unreachable!(), &mut calls).unwrap_err();
    assert!(error.contains("OAuth 凭据需要刷新"));
    assert!(calls.is_empty());
    let mut calls = Vec::new();
    assert_eq!(run_activity(CodexStatisticsSource::Oauth, loaded(true, false), &mut |_| Outcome::Success, &mut calls), Ok("oauth"));
    assert_eq!(calls, ["oauth"]);
    let error = run_activity(CodexStatisticsSource::Oauth, CredentialLoad::Missing, &mut |_| unreachable!(), &mut calls).unwrap_err();
    assert!(error.contains("没有可用的本机 Codex 登录凭据"));
    assert_eq!(run_activity(CodexStatisticsSource::Auto, CredentialLoad::Missing, &mut |_| unreachable!(), &mut calls), Ok("cli"));
}
