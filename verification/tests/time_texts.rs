use agentbar::quota::positive_reset_text;
use agentbar::time::{log_time_text, Timestamp};

#[test]
fn log_times_read_any_offset_as_utc() {
    assert_eq!(log_time_text("2026-09-17T12:00:00.250+02:00"), Some(Timestamp { secs: 1_789_639_200, nanos: 250_000_000 }));
    assert_eq!(log_time_text("2026-09-17T10:00:00Z"), Some(Timestamp { secs: 1_789_639_200, nanos: 0 }));
    assert_eq!(log_time_text("1789639200"), None);
}

#[test]
fn reset_texts_need_a_time_after_the_epoch() {
    assert_eq!(positive_reset_text(Some(1_789_639_200)).as_deref(), Some("2026-09-17T10:00:00Z"));
    assert_eq!(positive_reset_text(Some(0)), None);
    assert_eq!(positive_reset_text(Some(-5)), None);
    assert_eq!(positive_reset_text(None), None);
}
