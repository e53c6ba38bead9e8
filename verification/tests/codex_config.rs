use agentbar::codex_config::{uses_custom_backend, ConfigRead};

fn text(config: &str) -> ConfigRead {
    ConfigRead::Text(config.to_string())
}

#[test]
fn custom_backend_detection_preserves_cli_configuration() {
    assert!(!uses_custom_backend(&ConfigRead::Missing));
    for (config, expected) in [
        ("chatgpt_base_url = 'https://chatgpt.com/backend-api/'", false),
        ("chatgpt_base_url = 'https://example.test/api'", true),
        ("# chatgpt_base_url = 'https://example.test'", false),
    ] {
        assert_eq!(uses_custom_backend(&text(config)), expected, "{config}");
    }
}

#[test]
fn custom_backend_reads_every_line_and_fails_closed_on_unreadable_files() {
    assert!(uses_custom_backend(&ConfigRead::Unreadable));
    assert!(!uses_custom_backend(&text("")));
    assert!(!uses_custom_backend(&text("model = \"gpt-6-astra\"\r\nchatgpt_base_url=\"https://chatgpt.com\"\r\n")));
    assert!(uses_custom_backend(&text("model = 'x'\n  \"chatgpt_base_url\" = \"https://proxy.test\" # note\n")));
    assert!(!uses_custom_backend(&text("other_url = 'https://proxy.test'")));
    assert!(!uses_custom_backend(&text("chatgpt_base_url = https://chatgpt.com///")));
}
