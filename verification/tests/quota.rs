use agentbar::account_statistics::Amount;
use agentbar::claude_usage::{
    apply_failure, apply_profile, apply_windows, empty_usage, login_failure, login_scope, missing_login, parse_credential,
    parse_windows, profile_account, unsupported_auth, CredentialInfo, Failure,
};
use agentbar::providers::{failed_card, result_scope};
use agentbar::json::{Json, JsonNumber};
use agentbar::models::{ProviderId, ProviderStatus, UsageWindow};
use agentbar::providers::FetchError;
use agentbar::quota::{apply_limits, limit_buckets, map_usage, monthly_limit, parse_account, parse_window};
use agentbar::time::Timestamp;
use serde_json::Value;

fn convert(value: &Value) -> Json {
    match value {
        Value::Null => Json::Null,
        Value::Bool(flag) => Json::Bool(*flag),
        Value::Number(number) => Json::Number(JsonNumber {
            int: number.as_i64(),
            unsigned: number.as_u64(),
            double: Amount { bits: number.as_f64().unwrap().to_bits() },
        }),
        Value::String(text) => Json::Text(text.clone()),
        Value::Array(items) => Json::Array(items.iter().map(convert).collect()),
        Value::Object(members) => Json::Object(members.iter().map(|(key, value)| (key.clone(), convert(value))).collect()),
    }
}

fn json(text: &str) -> Json {
    convert(&serde_json::from_str::<Value>(text).unwrap())
}

fn percent(window: &UsageWindow) -> f64 {
    f64::from_bits(window.used_percent.bits)
}

fn now() -> Timestamp {
    Timestamp { secs: 1_789_700_000, nanos: 0 }
}

/// The monthly window, computed in floating point from the service's numbers.
fn flexible_number(value: Option<&Value>) -> Option<f64> {
    value
        .and_then(|value| value.as_f64().or_else(|| value.as_str()?.trim().parse().ok()))
        .filter(|value: &f64| value.is_finite())
}

fn monthly_window(value: &Value) -> Option<UsageWindow> {
    let remaining = flexible_number(value.get("remaining_percent").or_else(|| value.get("remainingPercent")));
    let percent = remaining.map(|remaining| 100.0 - remaining).or_else(|| {
        let limit = flexible_number(value.get("limit")).filter(|limit| *limit > 0.0)?;
        let used = flexible_number(value.get("used"))?;
        Some(used / limit * 100.0)
    })?;
    let reset = value
        .get("reset_at")
        .or_else(|| value.get("resets_at"))
        .or_else(|| value.get("resetsAt"))
        .and_then(|value| value.as_i64().or_else(|| value.as_str()?.parse().ok()))
        .filter(|timestamp| *timestamp > 0)
        .and_then(|timestamp| chrono::DateTime::from_timestamp(timestamp, 0))
        .map(|date| date.to_rfc3339_opts(chrono::SecondsFormat::Secs, true));
    Some(UsageWindow {
        label: "每月额度".into(),
        used_percent: Amount { bits: percent.clamp(0.0, 100.0).to_bits() },
        resets_at: reset,
    })
}

fn back(json: &Json) -> Value {
    match json {
        Json::Null => Value::Null,
        Json::Bool(flag) => Value::Bool(*flag),
        Json::Number(number) => match (number.unsigned, number.int) {
            (Some(u), _) => Value::from(u),
            (None, Some(i)) => Value::from(i),
            (None, None) => Value::from(f64::from_bits(number.double.bits)),
        },
        Json::Text(text) => Value::String(text.clone()),
        Json::Array(items) => Value::Array(items.iter().map(back).collect()),
        Json::Object(members) => Value::Object(members.iter().map(|(key, value)| (key.clone(), back(value))).collect()),
    }
}

fn http(response: &Json) -> Result<agentbar::models::ProviderUsage, FetchError> {
    let monthly = monthly_limit(response).and_then(|limit| monthly_window(&back(limit)));
    map_usage(response, None, None, monthly, now())
}

fn limits(usage: &mut agentbar::models::ProviderUsage, result: &Json) -> Result<(), String> {
    let monthly = limit_buckets(result)
        .iter()
        .map(|(_, bucket)| match bucket {
            Json::Object(_) => back(bucket).get("individualLimit").and_then(monthly_window),
            _ => None,
        })
        .collect::<Vec<_>>();
    apply_limits(usage, result, &monthly, now())
}

fn response() -> &'static str {
    r#"{"plan_type":"pro","rate_limit":{"primary_window":{"used_percent":21,"limit_window_seconds":18000,"reset_at":1789805400},"secondary_window":{"used_percent":9,"limit_window_seconds":604800}},"additional_rate_limits":[{"limit_name":"Spark","metered_feature":"spark","rate_limit":{"primary_window":{"used_percent":2,"limit_window_seconds":18000},"secondary_window":{"used_percent":5,"limit_window_seconds":604800}}}]}"#
}

fn account() -> Json {
    json(r#"{ "account": { "type": "chatgpt", "email": "user@example.com", "planType": "pro" } }"#)
}

#[test]
fn http_usage_reads_core_and_additional_windows_with_plan_and_resets() {
    let usage = map_usage(&json(response()), Some("pat@example.test".into()), None, None, now()).unwrap();
    assert_eq!(usage.account.as_deref(), Some("pat@example.test"));
    assert_eq!(usage.plan, "Pro");
    assert_eq!(usage.status, ProviderStatus::Ready);
    assert_eq!(usage.windows.len(), 4);
    assert_eq!(usage.windows[0].label, "5 小时用量");
    assert_eq!(usage.windows[1].label, "每周用量");
    assert_eq!(usage.windows[3].label, "Spark · 每周用量");
    assert_eq!(usage.windows[0].resets_at.as_deref(), Some("2026-09-19T08:10:00Z"));
    assert_eq!(percent(&usage.windows[0]), 21.0);
    assert!(usage.message.is_none());
    assert!(usage.updated_at.is_some());
}

#[test]
fn malformed_additive_windows_preserve_valid_core_without_inventing_values() {
    let usage = http(&json(
        r#"{"rate_limit":{"primary_window":{"used_percent":0},"secondary_window":{"used_percent":null}},"additional_rate_limits":[{"limit_name":"broken","rate_limit":{"primary_window":{}}},{"limit_name":"valid","rate_limit":{"primary_window":{"used_percent":27}}},42]}"#,
    ))
    .unwrap();
    assert_eq!(usage.windows.len(), 2);
    assert_eq!(percent(&usage.windows[0]), 0.0);
    assert!(usage.windows[0].resets_at.is_none());
    assert!(usage.message.is_some());
    let extras = serde_json::from_str::<Value>(response()).unwrap()["additional_rate_limits"].clone();
    let mut only = serde_json::Map::new();
    only.insert("additional_rate_limits".into(), extras);
    let extras_only = http(&convert(&Value::Object(only))).unwrap();
    assert_eq!(extras_only.status, ProviderStatus::Unavailable);
    assert!(extras_only.windows.is_empty());
    assert_eq!(http(&json(r#"{"rate_limit":{"primary_window":{}}}"#)).err(), Some(FetchError::InvalidResponse));
}

#[test]
fn inline_monthly_limits_use_reported_percent_and_reset_without_assuming_zero() {
    let usage = http(&json(r#"{"spend_control":{"individual_limit":{"remaining_percent":"75","reset_at":1789805400}}}"#)).unwrap();
    assert_eq!(usage.windows[0].label, "每月额度");
    assert_eq!(percent(&usage.windows[0]), 25.0);
    assert_eq!(usage.windows[0].resets_at.as_deref(), Some("2026-09-19T08:10:00Z"));
    assert!(monthly_window(&serde_json::from_str(r#"{"limit":100}"#).unwrap()).is_none());
    assert_eq!(
        f64::from_bits(monthly_window(&serde_json::from_str(r#"{"limit":"100","used":"20"}"#).unwrap()).unwrap().used_percent.bits),
        20.0
    );
}

#[test]
fn monthly_limit_is_found_at_the_top_then_under_rate_limit_then_spend_control() {
    let top = json(r#"{"individualLimit":{"used":1},"rate_limit":{"individual_limit":{"used":2}}}"#);
    assert!(matches!(monthly_limit(&top), Some(Json::Object(members)) if back(&members[0].1) == Value::from(1)));
    let nested = json(r#"{"individual_limit":null,"rate_limit":{"individual_limit":{"used":2}},"spendControl":{"individualLimit":{"used":3}}}"#);
    assert!(matches!(monthly_limit(&nested), Some(Json::Object(members)) if back(&members[0].1) == Value::from(2)));
    let control = json(r#"{"spendControl":{"individualLimit":{"used":3}}}"#);
    assert!(matches!(monthly_limit(&control), Some(Json::Object(members)) if back(&members[0].1) == Value::from(3)));
    assert!(monthly_limit(&json(r#"{"rate_limit":{}}"#)).is_none());
}

#[test]
fn http_response_that_is_not_an_object_is_unrecognized() {
    assert_eq!(http(&json("[]")).err(), Some(FetchError::InvalidResponse));
    let empty = http(&json(r#"{"plan_type":"plus"}"#)).unwrap();
    assert_eq!(empty.status, ProviderStatus::Unavailable);
    assert_eq!(empty.plan, "Plus");
    assert_eq!(empty.message.as_deref(), Some("已读取本机 Codex 账号，服务未返回可展示的额度窗口"));
}

#[test]
fn extra_limits_are_taken_once_and_their_names_drop_control_characters() {
    let usage = http(&json(
        r#"{"rate_limit":{"primary_window":{"used_percent":1}},"additional_rate_limits":[{"limit_name":"Sp\u0007ark","metered_feature":"spark","rate_limit":{"primary_window":{"used_percent":2,"limit_window_seconds":5400}}},{"limit_name":"Again","metered_feature":"spark","rate_limit":{"primary_window":{"used_percent":3}}}]}"#,
    ))
    .unwrap();
    assert_eq!(usage.windows.len(), 2);
    assert_eq!(usage.windows[1].label, "Spark · 90 分钟用量");
    assert!(usage.message.is_none());
}

#[test]
fn native_pat_account_is_reported_as_chatgpt_with_nullable_email() {
    let usage = parse_account(&json(r#"{"account":{"type":"chatgpt","email":null,"planType":"business"}}"#)).unwrap();
    assert_eq!(usage.status, ProviderStatus::Ready);
    assert_eq!(usage.plan, "Business");
    assert!(usage.account.is_none());
}

#[test]
fn missing_account_and_api_keys_do_not_fabricate_usage() {
    let missing = parse_account(&json(r#"{"account":null}"#)).unwrap();
    assert_eq!(missing.status, ProviderStatus::Unavailable);
    assert_eq!(missing.message.as_deref(), Some("未找到本机 Codex 登录账号，请先在 Codex 中登录"));
    let api_key = parse_account(&json(r#"{"account":{"type":"apiKey"}}"#)).unwrap();
    assert_eq!(api_key.status, ProviderStatus::Unavailable);
    assert_eq!(api_key.plan, "API Key");
    assert!(api_key.windows.is_empty());
    let other = parse_account(&json(r#"{"account":{"type":"other"}}"#)).unwrap();
    assert_eq!(other.message.as_deref(), Some("当前 Codex 登录方式不提供 ChatGPT 订阅额度"));
    assert!(parse_account(&json(r#"{"account":{}}"#)).is_err());
}

#[test]
fn prefers_all_current_buckets_and_actual_window_durations() {
    let mut usage = parse_account(&account()).unwrap();
    let result = json(
        r#"{"rateLimits":{"primary":{"usedPercent":99,"windowDurationMins":300}},"rateLimitsByLimitId":{"codex":{"primary":{"usedPercent":38,"windowDurationMins":10080,"resetsAt":1789805400}},"spark":{"limitName":"Spark","primary":{"usedPercent":0,"windowDurationMins":300,"resetsAt":null}}}}"#,
    );
    limits(&mut usage, &result).unwrap();
    assert_eq!(usage.windows.len(), 2);
    assert_eq!(usage.windows[0].label, "每周用量");
    assert_eq!(percent(&usage.windows[0]), 38.0);
    assert_eq!(usage.windows[0].resets_at.as_deref(), Some("2026-09-19T08:10:00Z"));
    assert_eq!(usage.windows[1].label, "Spark · 5 小时用量");
    assert_eq!(percent(&usage.windows[1]), 0.0);
    assert!(usage.windows[1].resets_at.is_none());
}

#[test]
fn accepts_legacy_limits_without_inventing_missing_percent_or_reset() {
    let mut usage = parse_account(&account()).unwrap();
    limits(&mut usage, &json(r#"{ "rateLimits": { "primary": { "usedPercent": 25 } } }"#)).unwrap();
    assert_eq!(usage.windows[0].label, "主要额度");
    assert!(usage.windows[0].resets_at.is_none());
    assert!(parse_window(&json(r#"{"resetsAt": 123}"#), "", "主要额度").is_err());
    assert!(parse_window(&json(r#"{"usedPercent": null}"#), "", "主要额度").is_err());
}

#[test]
fn absent_limits_are_unavailable_and_do_not_become_zero_usage() {
    let mut usage = parse_account(&account()).unwrap();
    limits(&mut usage, &json(r#"{ "rateLimits": {} }"#)).unwrap();
    assert_eq!(usage.status, ProviderStatus::Unavailable);
    assert!(usage.windows.is_empty());
    assert!(usage.updated_at.is_none());
}

#[test]
fn cli_monthly_limits_preserve_service_reported_percentage_and_reset() {
    let mut usage = parse_account(&account()).unwrap();
    limits(
        &mut usage,
        &json(r#"{"rateLimits":{"individualLimit":{"limit":100,"used":15,"remainingPercent":85,"resetsAt":1789805400}}}"#),
    )
    .unwrap();
    assert_eq!(usage.status, ProviderStatus::Ready);
    assert_eq!(usage.windows[0].label, "每月额度");
    assert_eq!(percent(&usage.windows[0]), 15.0);
}

#[test]
fn used_percent_is_clamped_to_the_percent_range_and_non_numbers_are_refused() {
    let window = |used: &str| parse_window(&json(&format!(r#"{{"usedPercent":{used}}}"#)), "", "主要额度");
    assert_eq!(percent(&window("-5").unwrap()), 0.0);
    assert_eq!(percent(&window("150.5").unwrap()), 100.0);
    assert_eq!(percent(&window("42.25").unwrap()), 42.25);
    assert!(window(r#""12""#).is_err());
    let unrecognized = parse_account(&account()).unwrap();
    let mut usage = unrecognized;
    assert_eq!(
        limits(&mut usage, &json(r#"{"rateLimitsByLimitId":{"codex":{"planType":"plus","primary":{"usedPercent":"x"}}}}"#)).unwrap_err(),
        "Codex 返回的数据格式无法识别，请更新 Codex 后重试"
    );
    assert_eq!(usage.plan, "Plus");
    assert!(usage.windows.is_empty());
}

fn name() -> String {
    format!("{:?}", ProviderId::Claude)
}

fn message(failure: Failure) -> String {
    match failure {
        Failure::Error(message) | Failure::Unavailable(message) => message,
    }
}

#[test]
fn subscription_windows_preserve_real_values_and_missing_resets() {
    let windows = parse_windows(
        &json(r#"{"five_hour":{"utilization":12.5,"resets_at":"2026-09-16T18:00:00+08:00"},"seven_day":{"utilization":104.0,"resets_at":null},"seven_day_sonnet":null}"#),
        &name(),
    )
    .ok()
    .unwrap();
    assert_eq!(windows.len(), 2);
    assert_eq!(percent(&windows[0]), 12.5);
    assert_eq!(windows[0].resets_at.as_deref(), Some("2026-09-16T10:00:00Z"));
    assert_eq!(percent(&windows[1]), 104.0);
    assert_eq!(windows[1].resets_at, None);
}

#[test]
fn current_server_rows_take_precedence_and_preserve_scope_and_order() {
    let windows = parse_windows(
        &json(r#"{"limits":[{"kind":"session","group":"session","percent":4.0,"resets_at":null},{"kind":"weekly_scoped","group":"weekly","percent":16.0,"resets_at":null,"scope":{"model":{"display_name":"Fable"}}}],"five_hour":{"utilization":99.0}}"#),
        &name(),
    )
    .ok()
    .unwrap();
    assert_eq!(windows.len(), 2);
    assert_eq!(percent(&windows[0]), 4.0);
    assert_eq!(windows[0].label, "5 小时用量");
    assert_eq!(windows[1].label, "Fable · 每周用量");
    assert!(parse_windows(&json(r#"{"limits":[],"five_hour":{"utilization":99.0}}"#), &name()).ok().unwrap().is_empty());
    assert!(parse_windows(&json(r#"{"limits":[{"kind":"session","percent":null}]}"#), &name()).is_err());
}

#[test]
fn absent_or_changed_usage_schema_never_means_zero() {
    assert!(parse_windows(&json(r#"{"five_hour":null,"seven_day":{"utilization":null}}"#), &name()).ok().unwrap().is_empty());
    assert!(parse_windows(&json(r#"{"different_schema":{}}"#), &name()).ok().unwrap().is_empty());
    assert!(parse_windows(&json(r#"{"five_hour":{"utilization":"12"}}"#), &name()).is_err());
    assert!(parse_windows(&json(r#"{"five_hour":{"utilization":-1}}"#), &name()).is_err());
    let invalid = parse_windows(&json(r#"{"five_hour":{"utilization":12,"resets_at":"invalid"}}"#), &name());
    assert_eq!(message(invalid.err().unwrap()), format!("{} 返回了无效的重置时间。", name()));
    let list = parse_windows(&json(r#"{"limits":{}}"#), &name());
    assert_eq!(message(list.err().unwrap()), format!("{} 返回了无法识别的用量列表。", name()));
}

#[test]
fn credentials_only_accept_subscription_oauth_and_require_profile_scope() {
    assert!(matches!(parse_credential(&json(r#"{"apiKey":"synthetic-key"}"#), &name()), Ok(None)));
    let value = json(
        r#"{"claudeAiOauth": {"accessToken":"synthetic-token", "expiresAt":1800000000000, "subscriptionType":"max", "scopes":["user:profile", "user:inference"]}}"#,
    );
    let credential = parse_credential(&value, &name()).ok().flatten().unwrap();
    assert_eq!(credential.plan, "Max");
    assert!(credential.profile_scope);
    assert_eq!(credential.expires_at, Some(1800000000000));
    let missing_scope = json(r#"{"claudeAiOauth":{"accessToken":"synthetic-token","scopes":["user:inference"]}}"#);
    assert!(!parse_credential(&missing_scope, &name()).ok().flatten().unwrap().profile_scope);
    let blank = json(r#"{"claudeAiOauth":{"accessToken":"  "}}"#);
    assert!(matches!(parse_credential(&blank, &name()), Err(Failure::Unavailable(_))));
}

#[test]
fn custom_auth_does_not_contact_subscription_service() {
    for settings in [
        r#"{"env":{"ANTHROPIC_API_KEY":"synthetic-key"}}"#,
        r#"{"env":{"ANTHROPIC_BASE_URL":"https://proxy.invalid"}}"#,
        r#"{"env":{"CLAUDE_CODE_USE_BEDROCK":"1"}}"#,
        r#"{"apiKeyHelper":"must never execute"}"#,
    ] {
        assert!(unsupported_auth(Some(&json(settings)), &vec![], &name()).is_some());
    }
    assert!(unsupported_auth(Some(&json(r#"{"env":{"ANTHROPIC_BASE_URL":"https://api.anthropic.com/"}}"#)), &vec![], &name()).is_none());
    let env = vec![("ANTHROPIC_AUTH_TOKEN".to_string(), "synthetic-token".to_string())];
    assert!(unsupported_auth(None, &env, &name()).is_some());
    let token = vec![("CLAUDE_CODE_OAUTH_TOKEN".to_string(), "t".to_string())];
    assert_eq!(
        unsupported_auth(None, &token, &name()),
        Some(format!("本机 {0} 使用环境变量令牌，通常仅有推理权限；请使用 {0} Code 的订阅登录读取用量。", name()))
    );
    assert!(unsupported_auth(None, &vec![("CLAUDE_CODE_OAUTH_TOKEN".to_string(), " ".to_string())], &name()).is_none());
}

#[test]
fn profile_uses_only_allowlisted_identity_fields() {
    assert_eq!(
        profile_account(&json(r#"{"account":{"email":"person@example.test","accessToken":"never expose"}}"#)).as_deref(),
        Some("person@example.test")
    );
    assert_eq!(profile_account(&json(r#"{"accessToken":"never expose"}"#)), None);
    assert_eq!(profile_account(&json(r#"{"account":{"email":" ","display_name":"Person"}}"#)).as_deref(), Some("Person"));
}

#[test]
fn failed_cards_and_result_scopes_follow_the_login() {
    let card = failed_card(ProviderId::Codex, "Codex", "服务暂时不可用".into());
    assert_eq!(card.status, ProviderStatus::Error);
    assert_eq!(card.message.as_deref(), Some("服务暂时不可用"));
    let scope = Some("scope-a".to_string());
    assert_eq!(result_scope(&scope, scope.clone(), true, false, false), scope);
    assert_eq!(result_scope(&scope, Some("scope-b".into()), true, true, false), None);
    assert_eq!(result_scope(&scope, scope.clone(), false, true, true), None);
    assert_eq!(result_scope(&scope, scope.clone(), false, true, false), scope);
}

#[test]
fn subscription_card_follows_login_profile_and_windows() {
    let mut usage = empty_usage(&name());
    assert_eq!(usage.plan, "订阅未确认");
    let credential = CredentialInfo { token: "synthetic-token".into(), plan: "Max".into(), expires_at: Some(2_000), profile_scope: true };
    assert!(login_failure(&credential, 1_999, &name()).is_none());
    assert_eq!(message(login_failure(&credential, 2_000, &name()).unwrap()), format!("{0} 登录已过期，请打开 {0} Code 刷新登录后重试。", name()));
    let unscoped = CredentialInfo { profile_scope: false, ..credential };
    assert!(matches!(login_failure(&unscoped, 0, &name()), Some(Failure::Unavailable(_))));
    assert_eq!(message(missing_login(false, &name())), format!("未检测到 {0} Code 订阅登录，请先在 {0} Code 中登录。", name()));
    assert_eq!(
        login_scope(b"/home/u/.cfg", "synthetic-token"),
        "9f57ca9342e71df9b999754c24ea8c5b638bd2f3a4ac9bd014f342da018032ea"
    );
    apply_profile(&mut usage, &json(r#"{"account":{"email":"p@example.test"},"organization":{"organization_type":"claude_team"}}"#));
    assert_eq!(usage.account.as_deref(), Some("p@example.test"));
    assert_eq!(usage.plan, "Team");
    assert!(apply_windows(&mut usage, vec![], now(), &name()).is_err());
    let windows = parse_windows(&json(r#"{"five_hour":{"utilization":12.5}}"#), &name()).ok().unwrap();
    assert!(apply_windows(&mut usage, windows, now(), &name()).is_ok());
    assert_eq!(usage.status, ProviderStatus::Ready);
    assert!(usage.updated_at.is_some());
    apply_failure(&mut usage, Failure::Error("x".into()));
    assert_eq!(usage.status, ProviderStatus::Error);
}
