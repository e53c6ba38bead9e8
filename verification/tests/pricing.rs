use agentbar::models::ProviderId;
use agentbar::statistics::pricing::{estimate, lookup, LongContext};
use agentbar::statistics::usage::Usage;

fn vendor() -> String {
    format!("{:?}", ProviderId::Claude).to_lowercase()
}

fn model(family: &str) -> String {
    format!("{}-{family}", vendor())
}

fn usage(input: u64, cached: u64, cache_write: u64, output: u64) -> Usage {
    Usage { input, cached, cache_write, output, write_5m: 0, write_1h: 0 }
}

#[test]
fn codex_counts_cached_input_once_and_applies_request_context_threshold() {
    let v = vendor();
    assert_eq!(estimate(ProviderId::Codex, &v, Some("gpt-6-astra"), usage(100_000, 40_000, 10_000, 1_000)), Some(715_000_000));
    let threshold = usage(272_000, 0, 0, 1_000);
    assert_eq!(estimate(ProviderId::Codex, &v, Some("gpt-6-astra"), threshold), Some(2_770_000_000));
    assert_eq!(
        estimate(ProviderId::Codex, &v, Some("gpt-6-astra"), Usage { input: 272_001, ..threshold }),
        Some(5_515_020_000)
    );
}

#[test]
fn claude_prices_cache_ttls_separately() {
    let v = vendor();
    let usage = Usage { input: 1_000, cached: 300, cache_write: 300, write_5m: 100, write_1h: 200, output: 100 };
    assert_eq!(estimate(ProviderId::Claude, &v, Some(&model("sonnet-4-6")), usage), Some(4_365_000));
    assert!(estimate(ProviderId::Claude, &v, Some(&model("sonnet-4-6")), Usage { write_1h: 100, ..usage }).is_none());
}

#[test]
fn unknown_models_invalid_cache_and_unverified_legacy_cache_write_are_not_free() {
    let v = vendor();
    let base = usage(10, 0, 0, 5);
    for name in [None, Some("custom-model"), Some("codex-auto-review"), Some("gpt-5.5-pro")] {
        assert!(estimate(ProviderId::Codex, &v, name, base).is_none());
    }
    assert!(estimate(ProviderId::Codex, &v, Some("gpt-6-astra"), Usage { cached: 11, ..base }).is_none());
    assert!(estimate(ProviderId::Codex, &v, Some("gpt-5.5"), Usage { cache_write: 1, ..base }).is_none());
    assert!(estimate(ProviderId::Claude, &v, Some(&model("sonnet-4-5")), Usage { input: 200_001, ..base }).is_none());
    assert_eq!(
        estimate(ProviderId::Claude, &v, Some(&model("sonnet-4-6")), Usage { input: 300_000, output: 0, ..base }),
        Some(900_000_000)
    );
}

#[test]
fn zero_usage_is_free_even_for_an_unknown_model() {
    assert_eq!(estimate(ProviderId::Codex, &vendor(), None, usage(0, 0, 0, 0)), Some(0));
}

#[test]
fn prices_are_exact_names_without_family_fallback() {
    let v = vendor();
    let opus = lookup(ProviderId::Claude, &v, &model("opus-4-5")).unwrap();
    assert_eq!((opus.input, opus.cached, opus.write, opus.write_hour, opus.output), (5000, 500, Some(6250), Some(10000), 25000));
    assert_eq!(opus.long_context, LongContext::UnknownAbove200k);
    assert!(lookup(ProviderId::Claude, &v, "opus-4-5").is_none());
    assert!(lookup(ProviderId::Codex, &v, &model("opus-4-5")).is_none());
    assert!(lookup(ProviderId::Codex, &v, "gpt-6").is_none());
    let codex = lookup(ProviderId::Codex, &v, "gpt-5.3-codex").unwrap();
    assert_eq!((codex.input, codex.cached, codex.write, codex.output), (1750, 175, None, 14000));
    assert_eq!(codex.long_context, LongContext::Standard);
}
