use agentbar::account_statistics::Amount;
use agentbar::claude_usage::{response_failure, Failure};
use agentbar::json::{Json, JsonNumber};
use agentbar::models::{CodexStatisticsSource, ProviderId};
use agentbar::providers::FetchError;
use agentbar::quota::{pat_scope, whoami_identity};
use agentbar::strategy::{activity_route, cli_account_id, http_status, CredentialLoad, OAuthIdentity, Route, Step};
use serde_json::Value;

fn convert(value: &Value) -> Json {
    match value {
        Value::Null => Json::Null,
        Value::Bool(flag) => Json::Bool(*flag),
        Value::Number(number) => Json::Number(JsonNumber {
            int: number.as_i64(),
            unsigned: number.as_u64(),
            double: Amount { bits: number.as_f64().unwrap().to_bits() },
        }),
        Value::String(text) => Json::Text(text.clone()),
        Value::Array(items) => Json::Array(items.iter().map(convert).collect()),
        Value::Object(members) => Json::Object(members.iter().map(|(key, value)| (key.clone(), convert(value))).collect()),
    }
}

fn json(text: &str) -> Json {
    convert(&serde_json::from_str::<Value>(text).unwrap())
}

fn oauth() -> CredentialLoad {
    CredentialLoad::Loaded { pat: false, api_key: false, oauth: Some(false) }
}

fn identity() -> Option<OAuthIdentity> {
    Some(OAuthIdentity { email: Some("oauth@example.test".into()), account_id: Some("oauth-account".into()) })
}

#[test]
fn cli_account_id_does_not_attach_stale_oauth_to_pat_or_another_email() {
    assert_eq!(cli_account_id(oauth(), identity(), Some("oauth@example.test")).as_deref(), Some("oauth-account"));
    assert_eq!(cli_account_id(oauth(), identity(), Some(" OAuth@Example.test ")).as_deref(), Some("oauth-account"));
    assert!(cli_account_id(oauth(), identity(), Some("different@example.test")).is_none());
    let mixed = CredentialLoad::Loaded { pat: true, api_key: false, oauth: Some(false) };
    assert!(cli_account_id(mixed, identity(), Some("oauth@example.test")).is_none());
    assert!(cli_account_id(CredentialLoad::Missing, identity(), None).is_none());
}

#[test]
fn pat_identity_and_scope_come_only_from_whoami() {
    let whoami = json(r#"{"chatgpt_account_id":"pat-account","email":"pat@example.test","chatgpt_plan_type":"plus"}"#);
    let identity = whoami_identity(&whoami).ok().unwrap();
    assert_eq!(identity.account.as_deref(), Some("pat-account"));
    assert_eq!(identity.email.as_deref(), Some("pat@example.test"));
    assert_eq!(identity.plan.as_deref(), Some("plus"));
    assert_eq!(whoami_identity(&json("[]")).err(), Some(FetchError::InvalidResponse));
    let (account, email) = pat_scope(&whoami).unwrap();
    assert_eq!(account, "pat-account");
    assert_eq!(email.as_deref(), Some("pat@example.test"));
    assert_eq!(pat_scope(&json(r#"{"email":"pat@example.test"}"#)).err(), Some(FetchError::InvalidResponse));
}

#[test]
fn local_and_custom_backend_choices_never_send_credentials_to_other_origins() {
    assert!(matches!(activity_route(CodexStatisticsSource::Local, false, oauth()), Route::LocalOnly));
    assert!(matches!(activity_route(CodexStatisticsSource::Cli, false, oauth()), Route::Credentials(Step::Cli)));
    assert!(matches!(activity_route(CodexStatisticsSource::Auto, true, oauth()), Route::Credentials(Step::Cli)));
    match activity_route(CodexStatisticsSource::Oauth, true, oauth()) {
        Route::Credentials(Step::Fail(message)) => assert!(message.contains("自定义服务地址")),
        _ => panic!("an explicit direct source must fail with a custom backend"),
    }
    assert!(matches!(activity_route(CodexStatisticsSource::Oauth, false, oauth()), Route::Credentials(Step::OAuth)));
}

#[test]
fn statuses_map_to_credential_and_server_failures_without_bodies() {
    assert_eq!(http_status(200), None);
    assert_eq!(http_status(204), None);
    assert_eq!(http_status(401), Some(FetchError::Unauthorized));
    assert_eq!(http_status(429), Some(FetchError::Server(429)));
    let name = format!("{:?}", ProviderId::Claude);
    assert!(response_failure(200, &name).is_none());
    assert!(matches!(response_failure(401, &name), Some(Failure::Unavailable(_))));
    assert!(matches!(response_failure(403, &name), Some(Failure::Unavailable(_))));
    match response_failure(503, &name) {
        Some(Failure::Error(message)) => assert_eq!(message, format!("{name} 官方用量服务暂不可用（HTTP 503）。")),
        _ => panic!("a server failure is an error"),
    }
}
