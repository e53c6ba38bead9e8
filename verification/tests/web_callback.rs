use agentbar::account_statistics::{Amount, WebCreditEvent, WebServiceAmount, WebUsageDay, WebUsageSnapshot};
use agentbar::models::ProviderStatus;
use agentbar::web_usage::{allowed_fields, allowed_navigation, answer_snapshot, checked_snapshot, read_stage, usage_origin, valid_snapshot, PageAnswer, ReadStage};
use agentbar::json::{Json, JsonNumber};
use serde_json::Value;

const MALFORMED: &str = "Codex 网页补充数据格式异常。";

fn convert(value: &Value) -> Json {
    match value {
        Value::Null => Json::Null,
        Value::Bool(flag) => Json::Bool(*flag),
        Value::Number(number) => Json::Number(JsonNumber {
            int: number.as_i64(),
            unsigned: number.as_u64(),
            double: Amount { bits: number.as_f64().unwrap().to_bits() },
        }),
        Value::String(text) => Json::Text(text.clone()),
        Value::Array(items) => Json::Array(items.iter().map(convert).collect()),
        Value::Object(members) => Json::Object(members.iter().map(|(key, value)| (key.clone(), convert(value))).collect()),
    }
}

fn text(value: &Value, key: &str) -> Result<Option<String>, ()> {
    match value.get(key) {
        None | Some(Value::Null) => Ok(None),
        Some(Value::String(text)) => Ok(Some(text.clone())),
        Some(_) => Err(()),
    }
}

fn number(value: &Value) -> Result<Amount, ()> {
    value.as_f64().map(|number| Amount { bits: number.to_bits() }).ok_or(())
}

fn opt_number(value: &Value, key: &str) -> Result<Option<Amount>, ()> {
    match value.get(key) {
        None | Some(Value::Null) => Ok(None),
        Some(number_value) => number(number_value).map(Some),
    }
}

fn required_text(value: &Value, key: &str) -> Result<String, ()> {
    text(value, key)?.ok_or(())
}

/// The snapshot read with the supplement's typed schema.
fn snapshot(value: &Value) -> Result<WebUsageSnapshot, ()> {
    let status = match value.get("status").and_then(Value::as_str) {
        Some("ready") => ProviderStatus::Ready,
        Some("unavailable") => ProviderStatus::Unavailable,
        Some("error") => ProviderStatus::Error,
        _ => return Err(()),
    };
    let usage_breakdown = match value.get("usageBreakdown") {
        None | Some(Value::Null) => None,
        Some(Value::Array(days)) => Some(
            days.iter()
                .map(|day| {
                    let amounts = day.get("amounts").and_then(Value::as_array).ok_or(())?;
                    Ok(WebUsageDay {
                        date: required_text(day, "date")?,
                        amounts: amounts
                            .iter()
                            .map(|amount| {
                                Ok(WebServiceAmount {
                                    service: required_text(amount, "service")?,
                                    amount: number(amount.get("amount").ok_or(())?)?,
                                })
                            })
                            .collect::<Result<Vec<_>, ()>>()?,
                    })
                })
                .collect::<Result<Vec<_>, ()>>()?,
        ),
        Some(_) => return Err(()),
    };
    let credit_events = match value.get("creditEvents") {
        None | Some(Value::Null) => None,
        Some(Value::Array(events)) => Some(
            events
                .iter()
                .map(|event| {
                    Ok(WebCreditEvent {
                        date: required_text(event, "date")?,
                        service: required_text(event, "service")?,
                        credits: number(event.get("credits").ok_or(())?)?,
                    })
                })
                .collect::<Result<Vec<_>, ()>>()?,
        ),
        Some(_) => return Err(()),
    };
    Ok(WebUsageSnapshot {
        status,
        message: text(value, "message")?,
        account: text(value, "account")?,
        credits_remaining: opt_number(value, "creditsRemaining")?,
        code_review_remaining_percent: opt_number(value, "codeReviewRemainingPercent")?,
        usage_unit: text(value, "usageUnit")?,
        usage_breakdown,
        credit_events,
        updated_at: text(value, "updatedAt")?,
    })
}

/// Decodes a page's answer: `None` where it is not one, `Some(None)` for `null`.
fn decode_answer(raw: &str) -> Option<Option<PageAnswer>> {
    let value: Value = serde_json::from_str(raw).ok()?;
    match &value {
        Value::Null => Some(None),
        Value::Object(members) => {
            if members.keys().any(|key| !["id", "done", "snapshot"].contains(&key.as_str())) {
                return None;
            }
            let id = members.get("id").and_then(Value::as_u64)?;
            let done = members.get("done").and_then(Value::as_bool)?;
            let snapshot = members.get("snapshot").filter(|snapshot| !snapshot.is_null()).map(convert);
            Some(Some(PageAnswer { id, done, snapshot }))
        }
        _ => None,
    }
}

/// Reads a page's answer as the desktop does: bounded, current, finished,
/// with only allowed fields, and valid for the expected account.
fn parse_result(raw: &str, request_id: u64, expected_account: &str) -> Result<Option<WebUsageSnapshot>, String> {
    if answer_snapshot(raw.len(), decode_answer(raw), request_id)?.is_none() {
        return Ok(None);
    }
    let value: Value = serde_json::from_str(raw).map_err(|_| MALFORMED.to_string())?;
    let decoded = snapshot(&value["snapshot"]).ok();
    checked_snapshot(decoded, expected_account).map(Some)
}

fn valid_wire_result() -> Value {
    serde_json::from_str(
        r#"{"id":1,"done":true,"snapshot":{"status":"ready","message":null,"account":"a@b.test","creditsRemaining":0,"codeReviewRemainingPercent":100,"usageUnit":"credits","usageBreakdown":[{"date":"2026-09-17","amounts":[{"service":"codex_cli","amount":1.5}]}],"creditEvents":[{"date":"2026-09-17T00:00:00Z","service":"codex_cli","credits":-1.5}],"updatedAt":"2026-09-17T12:00:00Z"}}"#,
    )
    .unwrap()
}

#[test]
fn results_require_current_request_and_finished_snapshot() {
    assert!(parse_result(r#"{"id":1,"done":false,"snapshot":null}"#, 1, "a@b.test").unwrap().is_none());
    assert!(parse_result(r#"{"id":1,"done":false,"snapshot":null}"#, 2, "a@b.test").is_err());
    assert!(parse_result(r#"{"id":1,"done":true,"snapshot":null}"#, 1, "a@b.test").is_err());
    assert!(parse_result("null", 1, "a@b.test").is_err());
    assert!(parse_result("secret malformed response", 1, "a@b.test").unwrap_err().contains("格式异常"));
}

#[test]
fn callback_round_trip_preserves_units_and_signed_credits() {
    let snapshot = parse_result(&valid_wire_result().to_string(), 1, " A@B.test ").unwrap().unwrap();
    assert_eq!(snapshot.usage_unit.as_deref(), Some("credits"));
    assert_eq!(f64::from_bits(snapshot.credit_events.unwrap()[0].credits.bits), -1.5);
    assert!(parse_result(&Value::String(valid_wire_result().to_string()).to_string(), 1, "a@b.test").is_err());
}

#[test]
fn altered_callback_cannot_bypass_native_identity_amount_or_field_checks() {
    for (field, value) in [
        ("account", r#""other@example.test""#),
        ("creditsRemaining", "-1"),
        ("codeReviewRemainingPercent", "101"),
        ("updatedAt", r#""not-a-date""#),
        ("message", r#""raw secret response""#),
        ("accessToken", r#""unexpected secret""#),
    ] {
        let mut raw = valid_wire_result();
        raw["snapshot"][field] = serde_json::from_str(value).unwrap();
        assert!(parse_result(&raw.to_string(), 1, "a@b.test").is_err(), "{field}");
    }
    let mut raw = valid_wire_result();
    raw["snapshot"]["creditEvents"][0]["date"] = Value::from("2026-02-31");
    assert!(parse_result(&raw.to_string(), 1, "a@b.test").is_err());
    raw = valid_wire_result();
    raw["snapshot"]["creditEvents"][0]["raw"] = Value::from("unexpected");
    assert!(parse_result(&raw.to_string(), 1, "a@b.test").is_err());
    let mut read = snapshot(&valid_wire_result()["snapshot"]).unwrap();
    read.credits_remaining = Some(Amount { bits: f64::INFINITY.to_bits() });
    assert!(!valid_snapshot(&read, "a@b.test"));
}

#[test]
fn altered_callback_is_bounded_and_unavailable_cannot_carry_data() {
    let mut raw = valid_wire_result();
    let day = raw["snapshot"]["usageBreakdown"][0].clone();
    raw["snapshot"]["usageBreakdown"] = Value::Array(vec![day; 63]);
    assert!(parse_result(&raw.to_string(), 1, "a@b.test").is_err());
    raw = valid_wire_result();
    raw["snapshot"]["status"] = Value::from("unavailable");
    raw["snapshot"]["message"] = Value::from("请在 Codex 用量网页完成登录，然后刷新使用统计。");
    assert!(parse_result(&raw.to_string(), 1, "a@b.test").is_err());
    assert!(parse_result(&"x".repeat(512 * 1024 + 1), 1, "a@b.test").is_err());
}

#[test]
fn allowed_fields_refuse_unknown_keys_at_every_level() {
    let snapshot = valid_wire_result()["snapshot"].clone();
    assert!(allowed_fields(&convert(&snapshot)));
    let mut extra_amount = snapshot.clone();
    extra_amount["usageBreakdown"][0]["amounts"][0]["raw"] = Value::from(1);
    assert!(!allowed_fields(&convert(&extra_amount)));
    let mut extra_day = snapshot.clone();
    extra_day["usageBreakdown"][0]["raw"] = Value::from(1);
    assert!(!allowed_fields(&convert(&extra_day)));
    assert!(!allowed_fields(&convert(&Value::from(3))));
    assert_eq!(read_stage(Some((4, true)), 4), ReadStage::Finished);
    assert_eq!(read_stage(Some((4, false)), 4), ReadStage::Running);
    assert_eq!(read_stage(Some((3, true)), 4), ReadStage::Stale);
    assert_eq!(read_stage(None, 4), ReadStage::Stale);
}

#[test]
fn answers_are_bounded_current_and_complete() {
    assert_eq!(answer_snapshot(512 * 1024 + 1, Some(None), 1).unwrap_err(), MALFORMED);
    assert_eq!(answer_snapshot(10, None, 1).unwrap_err(), MALFORMED);
    assert_eq!(answer_snapshot(10, Some(None), 1).unwrap_err(), "网页已切换或重新加载，请刷新使用统计。");
    let running = PageAnswer { id: 1, done: false, snapshot: None };
    assert!(answer_snapshot(10, Some(Some(running)), 1).unwrap().is_none());
    let finished_without = PageAnswer { id: 1, done: true, snapshot: None };
    assert_eq!(answer_snapshot(10, Some(Some(finished_without)), 1).unwrap_err(), MALFORMED);
    let snapshot = convert(&valid_wire_result()["snapshot"]);
    let finished = PageAnswer { id: 1, done: true, snapshot: Some(snapshot) };
    assert!(matches!(answer_snapshot(512 * 1024, Some(Some(finished)), 1), Ok(Some(Json::Object(_)))));
    assert_eq!(checked_snapshot(None, "a@b.test").unwrap_err(), MALFORMED);
}

#[test]
fn navigation_stays_on_known_https_hosts() {
    assert!(allowed_navigation("https", "", false, Some(443), Some("chatgpt.com")));
    assert!(allowed_navigation("https", "", false, Some(443), Some("appleid.apple.com")));
    assert!(!allowed_navigation("http", "", false, Some(443), Some("chatgpt.com")));
    assert!(!allowed_navigation("https", "user", false, Some(443), Some("chatgpt.com")));
    assert!(!allowed_navigation("https", "", true, Some(443), Some("chatgpt.com")));
    assert!(!allowed_navigation("https", "", false, Some(8443), Some("chatgpt.com")));
    assert!(!allowed_navigation("https", "", false, Some(443), Some("evil.example")));
    assert!(!allowed_navigation("https", "", false, Some(443), None));
    assert!(usage_origin("https", "", false, Some(443), Some("chatgpt.com")));
    assert!(!usage_origin("https", "", false, Some(443), Some("auth.openai.com")));
}

/// A URL by the parts that decide navigation: scheme, user name, whether a
/// password is given, the port or the scheme's default, and the host.
type UrlParts = (&'static str, &'static str, bool, Option<u16>, Option<&'static str>);

#[test]
fn navigation_is_limited_to_https_login_hosts() {
    let allowed: [(&str, UrlParts); 3] = [
        ("https://chatgpt.com/codex/settings/usage", ("https", "", false, Some(443), Some("chatgpt.com"))),
        ("https://auth.openai.com/log-in", ("https", "", false, Some(443), Some("auth.openai.com"))),
        ("https://accounts.google.com/signin", ("https", "", false, Some(443), Some("accounts.google.com"))),
    ];
    for (url, (scheme, user, password, port, host)) in allowed {
        assert!(allowed_navigation(scheme, user, password, port, host), "{url}");
    }
    let refused: [(&str, UrlParts); 9] = [
        ("http://chatgpt.com/codex", ("http", "", false, Some(80), Some("chatgpt.com"))),
        ("https://chatgpt.com.evil.test/", ("https", "", false, Some(443), Some("chatgpt.com.evil.test"))),
        ("https://evil.test/", ("https", "", false, Some(443), Some("evil.test"))),
        ("https://chatgpt.com:444/", ("https", "", false, Some(444), Some("chatgpt.com"))),
        ("https://username@chatgpt.com/", ("https", "username", false, Some(443), Some("chatgpt.com"))),
        ("tauri://localhost/", ("tauri", "", false, None, Some("localhost"))),
        ("file:///tmp/test.html", ("file", "", false, None, None)),
        ("https://localhost/", ("https", "", false, Some(443), Some("localhost"))),
        ("javascript:alert(1)", ("javascript", "", false, None, None)),
    ];
    for (url, (scheme, user, password, port, host)) in refused {
        assert!(!allowed_navigation(scheme, user, password, port, host), "{url}");
    }
    assert!(!usage_origin("https", "", false, Some(443), Some("auth.openai.com")));
}
