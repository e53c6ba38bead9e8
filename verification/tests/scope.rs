use agentbar::scope::{cache_scope_key, scope_key, scope_keys, FileRead};

fn missing() -> FileRead {
    FileRead::Failed { not_found: true, kind: b"NotFound".to_vec() }
}

fn bytes(text: &[u8]) -> FileRead {
    FileRead::Bytes(text.to_vec())
}

fn home() -> Option<Vec<u8>> {
    Some(b"/synthetic/home/.codex".to_vec())
}

#[test]
fn request_scope_digest_changes_with_account_configuration_without_modifying_credentials() {
    let first = scope_key(&home(), &missing(), false, &missing());
    let contents = br#"{"personal_access_token":"synthetic-secret"}"#;
    let second = scope_key(&home(), &bytes(contents), true, &missing());
    assert_ne!(first, second);
    assert!(!second.contains("secret"));
    assert_eq!(second, scope_key(&home(), &bytes(contents), true, &missing()));
    let configured = scope_key(
        &home(),
        &bytes(contents),
        true,
        &bytes(b"chatgpt_base_url='https://custom.example.test'"),
    );
    assert_ne!(second, configured);
}

#[test]
fn cache_scope_requires_a_readable_identifiable_login_and_configuration() {
    assert!(!scope_keys(&None, &missing(), false, &missing()).1);
    assert!(!scope_keys(&home(), &missing(), false, &missing()).1);
    for auth in ["", "invalid", "{}", r#"{"OPENAI_API_KEY":"synthetic-key"}"#] {
        assert!(!scope_keys(&home(), &bytes(auth.as_bytes()), false, &missing()).1);
    }
    let (first, valid) = scope_keys(&home(), &bytes(br#"{"personal_access_token":"synthetic-token-a"}"#), true, &missing());
    assert!(valid);
    assert!(!first.contains("synthetic-token"));
    let (second, valid) = scope_keys(&home(), &bytes(br#"{"personal_access_token":"synthetic-token-b"}"#), true, &missing());
    assert!(valid);
    assert_ne!(first, second);
    let directory = FileRead::Failed { not_found: false, kind: b"IsADirectory".to_vec() };
    assert!(!scope_keys(&home(), &bytes(br#"{"personal_access_token":"a"}"#), true, &directory).1);
    assert!(!scope_keys(&home(), &bytes(&vec![b'x'; 256 * 1024 + 1]), true, &missing()).1);
    assert!(!scope_keys(&home(), &directory, false, &missing()).1);
}

#[test]
fn the_digest_is_lower_case_sha256_hex_of_the_scope_material() {
    let none = "cfcdf188d39b022c29f8da7a41690f3dd4dcc42fb2cbc44cb1617a582334f273";
    assert_eq!(scope_key(&None, &missing(), false, &missing()), none);
    assert_eq!(scope_key(&None, &bytes(b"ignored without a home"), true, &bytes(b"")), none);
    assert_eq!(
        scope_key(&home(), &missing(), false, &missing()),
        "04c8de63ede018a483e53c68d1086dff4bc4dc8b325cadd60eba4b5187323f30"
    );
    assert_eq!(cache_scope_key(&home(), &missing(), false, &missing()), None);
    let auth = bytes(br#"{"personal_access_token":"a"}"#);
    assert_eq!(cache_scope_key(&home(), &auth, true, &missing()), Some(scope_key(&home(), &auth, true, &missing())));
}
