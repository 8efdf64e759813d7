use ricochet_cli::auth::ApiKeyResponse;
use ricochet_cli::auth::AuthError;
use ricochet_cli::auth::AuthState;
use ricochet_cli::auth::CallbackPage;
use ricochet_cli::auth::CreateApiKeyRequest;
use ricochet_cli::auth::OauthStep;
use ricochet_cli::auth::ValidationOutcome;
use ricochet_cli::auth::api_key_name;
use ricochet_cli::auth::api_keys_url;
use ricochet_cli::auth::auth_header_value;
use ricochet_cli::auth::build_authorize_url;
use ricochet_cli::auth::callback_url_for_port;
use ricochet_cli::auth::check_key_url;
use ricochet_cli::auth::entry_name_for_login;
use ricochet_cli::auth::handle_callback;
use ricochet_cli::auth::is_api_key;
use ricochet_cli::auth::is_headless;
use ricochet_cli::auth::keys_page_url;
use ricochet_cli::auth::logout;
use ricochet_cli::auth::mask_api_key;
use ricochet_cli::auth::oauth_step;
use ricochet_cli::auth::persist_validated_key;
use ricochet_cli::auth::resolve_login_target;
use ricochet_cli::auth::session_cookie_header;
use ricochet_cli::auth::OAUTH_TIMEOUT_MS;
use ricochet_cli::config::Config;
use ricochet_cli::config::EnvSnapshot;
use ricochet_cli::config::parse_server_url;

fn params(pairs: &[(&str, &str)]) -> Vec<(String, String)> {
    pairs
        .iter()
        .map(|(k, v)| (k.to_string(), v.to_string()))
        .collect()
}

/// Test that logout clears the API key
#[test]
fn test_logout_clears_api_key() {
    let mut config = Config::new();
    config.add_server(
        "default".to_string(),
        parse_server_url("http://localhost:3000").unwrap(),
        Some("rico_test_key".to_string()),
    );

    let result = logout(&mut config, None);

    assert!(result.is_ok(), "Logout should succeed");
    assert_eq!(result.unwrap(), true);
    assert_eq!(
        config.servers[0].api_key, None,
        "API key should be cleared after logout"
    );
}

/// Test that logout handles already logged out state
#[test]
fn test_logout_when_not_logged_in() {
    let mut config = Config::new();
    config.add_server(
        "default".to_string(),
        parse_server_url("http://localhost:3000").unwrap(),
        None,
    );

    let result = logout(&mut config, None);

    assert!(result.is_ok(), "Logout should succeed even when not logged in");
    assert_eq!(result.unwrap(), false);
    assert_eq!(config.servers[0].api_key, None, "API key should remain None");
}

/// Logout is idempotent: the second run never errors and the key stays gone.
#[test]
fn test_logout_twice_is_harmless() {
    let mut config = Config::new();
    config.add_server(
        "prod".to_string(),
        parse_server_url("https://prod.ricochet.com").unwrap(),
        Some("rico_prod_key".to_string()),
    );
    config.add_server(
        "staging".to_string(),
        parse_server_url("https://staging.ricochet.com").unwrap(),
        Some("rico_staging_key".to_string()),
    );

    assert_eq!(logout(&mut config, Some("prod")).unwrap(), true);
    assert_eq!(config.servers[0].api_key, None);
    // The other server's credentials are untouched
    assert_eq!(
        config.servers[1].api_key,
        Some("rico_staging_key".to_string())
    );

    let second = logout(&mut config, Some("prod"));
    assert!(second.is_ok(), "Second logout must not error");
    assert_eq!(second.unwrap(), false);
    assert_eq!(config.servers[0].api_key, None);
}

#[test]
fn test_logout_by_url_matches_entry() {
    let mut config = Config::new();
    config.add_server(
        "prod".to_string(),
        parse_server_url("https://prod.ricochet.com").unwrap(),
        Some("rico_prod_key".to_string()),
    );

    assert_eq!(
        logout(&mut config, Some("https://prod.ricochet.com")).unwrap(),
        true
    );
    assert_eq!(config.servers[0].api_key, None);
}

#[test]
fn test_logout_unknown_name_fails() {
    let mut config = Config::new();
    config.add_server(
        "prod".to_string(),
        parse_server_url("https://prod.ricochet.com").unwrap(),
        Some("rico_prod_key".to_string()),
    );
    let before = config.clone();

    let err = logout(&mut config, Some("ghost")).unwrap_err();
    assert!(err.message().contains("not found"));
    assert_eq!(config, before);

    let err = logout(&mut config, Some("https://other.example.com")).unwrap_err();
    assert!(err.message().contains("No server found with URL"));
    assert_eq!(config, before);
}

/// Test API key validation format
#[test]
fn test_api_key_format_validation() {
    let valid_keys = vec![
        "rico_abc123",
        "rico_Lg47wQANfgs_LdTNgNXvRMGXmAS2wfUNrJUYXpe2PaWRy",
        "rico_3DLhvjM4hQv_8xGUyQ4RxJXn62hsQYSZgr69T7cVUAR7X",
    ];

    for key in valid_keys {
        assert!(
            is_api_key(key),
            "Valid API key '{}' should start with 'rico_'",
            key
        );
    }

    let invalid_keys = vec!["not_a_key", "bearer_token", "session_123"];

    for key in invalid_keys {
        assert!(
            !is_api_key(key),
            "Invalid key '{}' should not start with 'rico_'",
            key
        );
    }
}

/// Test key abbreviation for display
#[test]
fn test_api_key_abbreviation() {
    let test_cases = vec![
        ("rico_short", "rico_short"), // Short key not abbreviated
        (
            "rico_Lg47wQANfgs_LdTNgNXvRMGXmAS2wfUNrJUYXpe2PaWRy",
            "rico_Lg47wQA...",
        ), // Long key abbreviated
        ("rico_exactly12c", "rico_exactly..."), // Exactly 12 chars + ...
    ];

    for (input, expected) in test_cases {
        let abbreviated = if input.len() > 12 {
            format!("{}...", &input[..12])
        } else {
            input.to_string()
        };

        assert_eq!(
            abbreviated, expected,
            "Key '{}' should abbreviate to '{}'",
            input, expected
        );
    }
}

/// The display form never contains the raw key: first eight and last four
/// characters around an ellipsis, or a fixed marker for short keys.
#[test]
fn test_mask_api_key_display() {
    let long = "rico_Lg47wQANfgs_LdTNgNXvRMGXmAS2wfUNrJUYXpe2PaWRy";
    let masked = mask_api_key(long);
    assert_eq!(masked, "rico_Lg4...aWRy");
    assert!(!masked.contains(&long[8..long.len() - 4]));

    assert_eq!(mask_api_key("rico_short"), "***");
    assert_eq!(mask_api_key("exactly12car"), "***");
    assert_eq!(mask_api_key("thirteen-char"), "thirteen...char");
    assert_eq!(mask_api_key(""), "No API key provided");
}

/// Test OAuth URL construction
#[test]
fn test_oauth_url_format() {
    let server = "https://test.ricochet.com";
    let callback_url = "http://localhost:12345/callback";

    let oauth_url = build_authorize_url(server, callback_url);

    // Verify URL structure
    assert!(oauth_url.starts_with(server));
    assert!(oauth_url.contains("/oauth/authorize"));
    assert!(oauth_url.contains("redirect_uri=http%3A%2F%2Flocalhost"));
    assert!(oauth_url.contains("response_type=code"));
    assert!(oauth_url.contains("client_id=cli"));

    // Verify proper query parameter separator
    assert!(oauth_url.contains("?redirect_uri"));
    assert!(oauth_url.contains("&response_type"));
    assert!(oauth_url.contains("&client_id"));
}

#[test]
fn test_oauth_url_exact_form() {
    let url = build_authorize_url("https://test.ricochet.com", "http://localhost:12345/callback");
    assert_eq!(
        url,
        "https://test.ricochet.com/oauth/authorize?redirect_uri=http%3A%2F%2Flocalhost%3A12345%2Fcallback&response_type=code&client_id=cli"
    );
    // A trailing slash on the server does not double up
    let url = build_authorize_url("https://test.ricochet.com/", "http://localhost:1/callback");
    assert!(url.starts_with("https://test.ricochet.com/oauth/authorize"));
}

#[test]
fn test_callback_url_for_port() {
    assert_eq!(callback_url_for_port(12345), "http://localhost:12345/callback");
    assert_eq!(callback_url_for_port(80), "http://localhost:80/callback");
}

/// Test CreateApiKeyRequest serialization
#[test]
fn test_api_key_request_serialization() {
    let request = CreateApiKeyRequest {
        name: "ricochet-cli-test".to_string(),
        expires_in_hours: 8,
        expires_at: Some("2024-03-18T20:00:00Z".to_string()),
    };

    let json = request.to_json();

    assert!(json.contains("\"name\":\"ricochet-cli-test\""));
    assert!(json.contains("\"expires_in_hours\":8"));
    assert!(json.contains("\"expires_at\":\"2024-03-18T20:00:00Z\""));

    // Test with None expires_at
    let request_no_expiry = CreateApiKeyRequest {
        name: "test".to_string(),
        expires_in_hours: 8,
        expires_at: None,
    };

    let json_no_expiry = request_no_expiry.to_json();
    assert!(!json_no_expiry.contains("expires_at"));
}

#[test]
fn test_api_key_request_parses_as_json() {
    let request = CreateApiKeyRequest {
        name: "ricochet-cli-20240318".to_string(),
        expires_in_hours: 8,
        expires_at: Some("2024-03-18T20:00:00Z".to_string()),
    };

    let value: serde_json::Value = serde_json::from_str(&request.to_json()).unwrap();
    assert_eq!(value["name"], "ricochet-cli-20240318");
    assert_eq!(value["expires_in_hours"], 8);
    assert_eq!(value["expires_at"], "2024-03-18T20:00:00Z");
}

/// Test ApiKeyResponse deserialization
#[test]
fn test_api_key_response_deserialization() {
    let json = r#"{
        "key": "rico_test_key_123",
        "name": "ricochet-cli-20240318",
        "expires_at": "2024-03-18T20:00:00Z"
    }"#;

    let parsed: serde_json::Value = serde_json::from_str(json).unwrap();
    let response = ApiKeyResponse {
        key: parsed["key"].as_str().unwrap().to_string(),
        name: parsed["name"].as_str().unwrap().to_string(),
        expires_at: parsed["expires_at"].as_str().map(|s| s.to_string()),
    };

    assert_eq!(response.key, "rico_test_key_123");
    assert_eq!(response.name, "ricochet-cli-20240318");
    assert_eq!(response.expires_at, Some("2024-03-18T20:00:00Z".to_string()));

    // Without expires_at
    let json_no_expiry = r#"{
        "key": "rico_test_key_456",
        "name": "test-key"
    }"#;

    let parsed: serde_json::Value = serde_json::from_str(json_no_expiry).unwrap();
    let response_no_expiry = ApiKeyResponse {
        key: parsed["key"].as_str().unwrap().to_string(),
        name: parsed["name"].as_str().unwrap().to_string(),
        expires_at: parsed["expires_at"].as_str().map(|s| s.to_string()),
    };
    assert_eq!(response_no_expiry.expires_at, None);
}

#[test]
fn test_api_key_name_embeds_timestamp() {
    assert_eq!(api_key_name("20240318-200000"), "ricochet-cli-20240318-200000");
}

#[test]
fn test_endpoint_urls() {
    assert_eq!(
        check_key_url("https://prod.ricochet.com/"),
        "https://prod.ricochet.com/api/v0/check_key"
    );
    assert_eq!(
        api_keys_url("https://prod.ricochet.com"),
        "https://prod.ricochet.com/api/v0/api-keys"
    );
    assert_eq!(keys_page_url("https://prod.ricochet.com/"), "https://prod.ricochet.com/keys");
    assert_eq!(auth_header_value("rico_k"), "Key rico_k");
    assert_eq!(session_cookie_header("tok123"), "tower.session=tok123");
}

#[test]
fn test_callback_with_error_param() {
    let mut state = AuthState::new();
    let page = handle_callback(&mut state, &params(&[("error", "access_denied")]));

    assert_eq!(page, CallbackPage::Error);
    assert!(state.received_callback);
    assert_eq!(state.error, Some("access_denied".to_string()));
    assert_eq!(state.payload, None);
}

#[test]
fn test_callback_with_api_key_param() {
    let mut state = AuthState::new();
    let page = handle_callback(&mut state, &params(&[("api_key", "rico_abc123")]));

    assert_eq!(page, CallbackPage::Success);
    assert!(state.received_callback);
    assert_eq!(state.payload, Some("rico_abc123".to_string()));
    assert_eq!(state.error, None);
}

#[test]
fn test_callback_with_session_param() {
    let mut state = AuthState::new();
    let page = handle_callback(&mut state, &params(&[("session", "sess-42")]));

    assert_eq!(page, CallbackPage::Session);
    assert!(state.received_callback);
    assert_eq!(state.payload, Some("sess-42".to_string()));
}

#[test]
fn test_callback_with_no_recognized_params_still_completes() {
    let mut state = AuthState::new();
    let page = handle_callback(&mut state, &params(&[("flavour", "plain")]));

    // The lenient fallback: completion is marked with nothing recorded
    assert_eq!(page, CallbackPage::Session);
    assert!(state.received_callback);
    assert_eq!(state.payload, None);
    assert_eq!(state.error, None);
}

#[test]
fn test_callback_error_beats_api_key() {
    let mut state = AuthState::new();
    let page = handle_callback(
        &mut state,
        &params(&[("api_key", "rico_x"), ("error", "denied")]),
    );

    assert_eq!(page, CallbackPage::Error);
    assert_eq!(state.error, Some("denied".to_string()));
    assert_eq!(state.payload, None);
}

#[test]
fn test_oauth_step_waits_then_reads_payload() {
    let mut state = AuthState::new();
    assert_eq!(oauth_step(&state, 0), OauthStep::Wait);

    handle_callback(&mut state, &params(&[("api_key", "rico_abc123")]));
    assert_eq!(oauth_step(&state, 1000), OauthStep::UseKey("rico_abc123".to_string()));
}

#[test]
fn test_oauth_step_splits_session_from_key() {
    let mut state = AuthState::new();
    handle_callback(&mut state, &params(&[("session", "sess-42")]));
    assert_eq!(
        oauth_step(&state, 1000),
        OauthStep::ExchangeSession("sess-42".to_string())
    );
}

#[test]
fn test_oauth_step_manual_fallback() {
    let mut state = AuthState::new();
    let empty: Vec<(String, String)> = Vec::new();
    handle_callback(&mut state, &empty);
    assert_eq!(oauth_step(&state, 1000), OauthStep::ManualFallback);
}

/// Scenario: the callback never arrives within the timeout window.
#[test]
fn test_oauth_timeout() {
    let mut config = Config::new();
    config.add_server(
        "staging".to_string(),
        parse_server_url("https://staging.ricochet.com").unwrap(),
        None,
    );
    let before = config.clone();

    let state = AuthState::new();
    let step = oauth_step(&state, OAUTH_TIMEOUT_MS + 1);

    match step {
        OauthStep::Fail(e) => {
            assert_eq!(e, AuthError::OauthTimeout);
            assert!(e.message().contains("timeout"));
        }
        other => panic!("expected a timeout failure, got {:?}", other),
    }
    // Past the deadline even a delivered payload no longer counts
    let mut late = AuthState::new();
    handle_callback(&mut late, &params(&[("api_key", "rico_late")]));
    assert_eq!(
        oauth_step(&late, OAUTH_TIMEOUT_MS + 1),
        OauthStep::Fail(AuthError::OauthTimeout)
    );
    // The store was never touched
    assert_eq!(config, before);
}

#[test]
fn test_oauth_server_reported_error() {
    let mut state = AuthState::new();
    handle_callback(&mut state, &params(&[("error", "access_denied")]));

    match oauth_step(&state, 1000) {
        OauthStep::Fail(e) => {
            assert_eq!(e, AuthError::OauthError("access_denied".to_string()));
            assert!(e.message().contains("access_denied"));
        }
        other => panic!("expected a failure, got {:?}", other),
    }
}

/// Scenario: fresh login with a directly supplied key on an empty store.
#[test]
fn test_fresh_login_with_direct_key() {
    let mut config = Config::new();
    let env = EnvSnapshot::empty();

    let target = resolve_login_target(&config, None, &env).unwrap();
    assert_eq!(target.url, "http://localhost:3000");
    assert_eq!(target.api_key, None);

    let outcome = persist_validated_key(
        &mut config,
        None,
        &target.url,
        "rico_validkey".to_string(),
        ValidationOutcome::Valid,
    )
    .unwrap();

    assert_eq!(outcome.name, "default");
    assert_eq!(config.servers.len(), 1);
    assert_eq!(config.servers[0].name, "default");
    assert_eq!(config.servers[0].api_key, Some("rico_validkey".to_string()));
    assert_eq!(config.default_server, Some("default".to_string()));
    // The displayed key is abbreviated, never the raw key
    assert!(!outcome.key_display.contains("rico_validkey"));
}

/// Scenario: a named server's OAuth callback delivers a direct API key.
#[test]
fn test_named_server_oauth_direct_key_callback() {
    let mut config = Config::new();
    config.add_server(
        "staging".to_string(),
        parse_server_url("https://staging.ricochet.com").unwrap(),
        None,
    );

    let mut state = AuthState::new();
    handle_callback(&mut state, &params(&[("api_key", "rico_abc12345678")]));

    let key = match oauth_step(&state, 1000) {
        OauthStep::UseKey(k) => k,
        other => panic!("expected a direct key, got {:?}", other),
    };

    persist_validated_key(
        &mut config,
        Some("staging"),
        "https://staging.ricochet.com/",
        key,
        ValidationOutcome::Valid,
    )
    .unwrap();

    // The existing entry gained the key; no new entry was created
    assert_eq!(config.servers.len(), 1);
    assert_eq!(config.servers[0].name, "staging");
    assert_eq!(config.servers[0].api_key, Some("rico_abc12345678".to_string()));
}

#[test]
fn test_invalid_key_leaves_store_untouched() {
    let mut config = Config::new();
    config.add_server(
        "prod".to_string(),
        parse_server_url("https://prod.ricochet.com").unwrap(),
        None,
    );
    let before = config.clone();

    let err = persist_validated_key(
        &mut config,
        Some("prod"),
        "https://prod.ricochet.com/",
        "rico_badkey".to_string(),
        ValidationOutcome::Invalid,
    )
    .unwrap_err();

    assert_eq!(err, AuthError::InvalidKey);
    assert!(err.message().contains("Invalid API key"));
    assert_eq!(config, before);

    let err = persist_validated_key(
        &mut config,
        Some("prod"),
        "https://prod.ricochet.com/",
        "rico_key".to_string(),
        ValidationOutcome::TransportError("connection refused".to_string()),
    )
    .unwrap_err();

    assert!(err.message().contains("connection refused"));
    assert_eq!(config, before);
}

#[test]
fn test_entry_name_matches_url_of_existing_entry() {
    let mut config = Config::new();
    config.add_server(
        "prod".to_string(),
        parse_server_url("https://prod.ricochet.com").unwrap(),
        None,
    );

    // No reference, but the URL matches a stored entry: reuse its name
    let name = entry_name_for_login(&config, None, "https://prod.ricochet.com");
    assert_eq!(name, "prod");
}

#[test]
fn test_entry_name_derived_from_host() {
    let config = Config::new();

    assert_eq!(
        entry_name_for_login(&config, None, "https://www.example.com"),
        "example.com"
    );
    assert_eq!(
        entry_name_for_login(&config, None, "https://api.example.com:8443/x"),
        "api.example.com"
    );
    assert_eq!(entry_name_for_login(&config, None, "http://localhost:3000"), "default");
    assert_eq!(entry_name_for_login(&config, None, "http://127.0.0.1:3000"), "default");
    assert_eq!(entry_name_for_login(&config, None, "not a url"), "default");
}

#[test]
fn test_headless_detection() {
    assert!(is_headless(true, None, None));
    assert!(is_headless(true, Some(""), None));
    assert!(!is_headless(true, Some(":0"), None));
    assert!(!is_headless(true, None, Some("wayland-0")));
    // Platforms that do not rely on display variables are never headless
    assert!(!is_headless(false, None, None));
}
