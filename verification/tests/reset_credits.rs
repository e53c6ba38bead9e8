use agentbar::account_statistics::Amount;
use agentbar::json::{Json, JsonNumber};
use agentbar::providers::mark_details_unavailable;
use agentbar::reset_credits::{apply_http_details, summary, WireFormat};
use agentbar::time::Timestamp;
use serde_json::Value;

fn convert(value: &Value) -> Json {
    match value {
        Value::Null => Json::Null,
        Value::Bool(flag) => Json::Bool(*flag),
        Value::Number(number) => Json::Number(JsonNumber {
            int: number.as_i64(),
            unsigned: number.as_u64(),
            double: Amount { bits: number.as_f64().unwrap().to_bits() },
        }),
        Value::String(text) => Json::Text(text.clone()),
        Value::Array(items) => Json::Array(items.iter().map(convert).collect()),
        Value::Object(members) => Json::Object(members.iter().map(|(key, value)| (key.clone(), convert(value))).collect()),
    }
}

fn json(text: &str) -> Json {
    convert(&serde_json::from_str::<Value>(text).unwrap())
}

fn now() -> Timestamp {
    let time = chrono::DateTime::parse_from_rfc3339("2026-09-17T08:00:00Z").unwrap();
    Timestamp { secs: time.timestamp(), nanos: 0 }
}

#[test]
fn missing_balances_and_details_are_distinct_from_confirmed_zero() {
    assert!(summary(None, WireFormat::Http, now()).is_none());
    let unknown = summary(Some(&json(r#"{"available_count":null}"#)), WireFormat::Http, now()).unwrap();
    assert_eq!(unknown.remaining, None);
    assert!(unknown.credits.is_none());
    let zero = summary(Some(&json(r#"{"available_count":0,"credits":[]}"#)), WireFormat::Http, now()).unwrap();
    assert_eq!(zero.remaining, Some(0));
    assert_eq!(zero.credits.map(|credits| credits.len()), Some(0));
    assert!(zero.message.is_none());
    assert_eq!(summary(Some(&json(r#"{"available_count":-1}"#)), WireFormat::Http, now()).unwrap().remaining, None);
}

#[test]
fn http_uses_available_balance_and_only_available_unexpired_distinct_details() {
    let result = summary(
        Some(&json(
            r#"{"available_count":5,"applicable_available_count":0,"credits":[
                {"id":"later","status":"available","expires_at":"2026-10-05T04:19:47.093933Z"},
                {"id":"first","status":"available","expires_at":"2026-10-04T02:33:50.795488Z"},
                {"id":"first","status":"available","expires_at":"2026-10-04T02:33:50.795488Z"},
                {"id":"used","status":"redeemed","expires_at":null},
                {"id":"expired","status":"available","expires_at":"2026-09-17T08:00:00Z"},
                {"id":"forever","status":"available","expires_at":null}
            ]}"#,
        )),
        WireFormat::Http,
        now(),
    )
    .unwrap();
    assert_eq!(result.remaining, Some(5));
    let credits = result.credits.unwrap();
    assert_eq!(credits.iter().map(|credit| credit.id.as_str()).collect::<Vec<_>>(), ["first", "later", "forever"]);
    assert_eq!(credits[0].expires_at.as_deref(), Some("2026-10-04T02:33:50Z"));
    assert!(credits.iter().all(|credit| credit.remaining == 1));
}

#[test]
fn cli_uses_epoch_expiry_and_preserves_capped_balance() {
    let result = summary(
        Some(&json(r#"{"availableCount":2,"credits":[{"id":"credit","status":"available","expiresAt":1789805400}]}"#)),
        WireFormat::Cli,
        now(),
    )
    .unwrap();
    assert_eq!(result.remaining, Some(2));
    let credits = result.credits.unwrap();
    assert_eq!(credits.len(), 1);
    assert_eq!(credits[0].expires_at.as_deref(), Some("2026-09-19T08:10:00Z"));
}

#[test]
fn detail_failure_does_not_erase_known_count_or_invent_empty_list() {
    let mut current = summary(Some(&json(r#"{"available_count":2}"#)), WireFormat::Http, now());
    apply_http_details(
        &mut current,
        &json(r#"{"credits":[{"id":"bad","status":"available","expires_at":"invalid"}]}"#),
        now(),
    );
    let current = current.unwrap();
    assert_eq!(current.remaining, Some(2));
    assert!(current.credits.is_none());
    assert!(current.message.is_some());
}

#[test]
fn details_without_a_count_keep_the_known_count_and_drop_the_note() {
    let mut current = summary(Some(&json(r#"{"available_count":3}"#)), WireFormat::Http, now());
    apply_http_details(
        &mut current,
        &json(r#"{"credits":[{"id":"b","status":"available"},{"id":"a","status":"available"}]}"#),
        now(),
    );
    let current = current.unwrap();
    assert_eq!(current.remaining, Some(3));
    assert_eq!(current.credits.unwrap().iter().map(|credit| credit.id.as_str()).collect::<Vec<_>>(), ["a", "b"]);
    assert!(current.message.is_none());
    let mut none = None;
    mark_details_unavailable(&mut none);
    assert_eq!(none.unwrap().message.as_deref(), Some("暂时无法读取重置次数明细，请稍后刷新"));
}
