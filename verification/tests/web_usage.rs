use agentbar::models::ProviderStatus;
use agentbar::web_usage::unavailable;

#[test]
fn unavailable_never_contains_previous_account_or_amounts() {
    let snapshot = unavailable("未连接");
    assert_eq!(snapshot.status, ProviderStatus::Unavailable);
    assert!(snapshot.account.is_none());
    assert!(snapshot.credits_remaining.is_none());
    assert!(snapshot.usage_breakdown.is_none());
    assert!(snapshot.updated_at.is_none());
    assert_eq!(snapshot.message.as_deref(), Some("未连接"));
}
