use musedesk::config::{ChatFailure, Env, LocalCliClient, MetaApiClient, ModelBackend};
use musedesk::json::{parse, Json};

fn env(backend: Option<&str>, url: Option<&str>, key: Option<&str>, model: Option<&str>) -> Env {
    let own = |s: Option<&str>| s.map(|s| s.to_string());
    Env {
        backend: own(backend),
        base_url: own(url),
        api_key: own(key),
        model: own(model),
    }
}

// Bad or missing settings come back as a plain error that the program can start
// past.
#[test]
fn bad_config_is_a_plain_error_never_a_panic() {
    let result = ModelBackend::from_env(&env(Some("bogus-backend-for-test"), None, None, None));
    assert!(
        result.is_err(),
        "bad backend config must be an Err the app can boot past"
    );
}

#[test]
fn backend_selection_from_env() {
    // local-cli resolves with no META keys at all (fresh-install path),
    // and tolerates stray whitespace/case in the value.
    for value in ["local-cli", "  Local-CLI  "] {
        let backend = ModelBackend::from_env(&env(Some(value), None, None, None))
            .expect("local-cli must not require META keys");
        assert!(matches!(backend, ModelBackend::LocalCli(_)));
    }
    // Unset backend + no keys: the error must name what's actually
    // missing (both keys), not just the first one checked.
    let err = ModelBackend::from_env(&env(None, None, None, None))
        .expect_err("keyless meta-api must fail");
    assert!(
        err.contains("META_BASE_URL") && err.contains("META_API_KEY"),
        "unhelpful missing-key error: {err}"
    );
    assert!(ModelBackend::from_env(&env(Some("bogus"), None, None, None)).is_err());
}

#[test]
fn missing_settings_are_named_exactly() {
    let tail = "(see .env.example), or set MUSED_BACKEND=local-cli to use the local CLI with no key";
    let both = MetaApiClient::from_env(&env(None, None, Some(" \t"), None)).unwrap_err();
    assert_eq!(both, format!("missing META_BASE_URL and META_API_KEY — set them {tail}"));
    let url = MetaApiClient::from_env(&env(None, Some("\u{a0}"), Some("k"), None)).unwrap_err();
    assert_eq!(url, format!("missing META_BASE_URL — set it {tail}"));
    let key = MetaApiClient::from_env(&env(None, Some("http://h"), Some(""), None)).unwrap_err();
    assert_eq!(key, format!("missing META_API_KEY — set it {tail}"));
}

#[test]
fn meta_settings_are_kept_as_they_are() {
    let c = MetaApiClient::from_env(&env(None, Some(" http://h "), Some("k "), None)).unwrap();
    assert_eq!(c.base_url, " http://h ");
    assert_eq!(c.api_key, "k ");
    assert_eq!(c.model, "muse-spark-1.2");
    let c = MetaApiClient::from_env(&env(None, Some("u"), Some("k"), Some("m"))).unwrap();
    assert_eq!(c.model, "m");
    let c = MetaApiClient::from_env(&env(None, Some("u"), Some("k"), Some(""))).unwrap();
    assert_eq!(c.model, "");
}

#[test]
fn meta_api_is_selected_by_name_or_by_default() {
    for value in [None, Some(""), Some("  "), Some("META-API"), Some("\nmeta-api\t")] {
        let backend = ModelBackend::from_env(&env(value, Some("u"), Some("k"), None)).unwrap();
        assert!(matches!(backend, ModelBackend::MetaApi(_)));
    }
}

#[test]
fn an_unknown_backend_is_quoted_as_it_was_given() {
    let err = ModelBackend::from_env(&env(Some(" Bo\"gus\n"), None, None, None)).unwrap_err();
    assert_eq!(
        err,
        "unknown MUSED_BACKEND=\" Bo\\\"gus\\n\" (expected meta-api or local-cli)"
    );
}

#[test]
fn letters_beyond_ascii_are_put_in_lower_case_too() {
    // A capital I with a dot becomes an i and a dot, so the name is another one.
    assert!(ModelBackend::from_env(&env(Some("LOCAL-CL\u{130}"), None, None, None)).is_err());
    assert!(ModelBackend::select(&env(None, None, None, None), "local-cli").is_ok());
    assert!(ModelBackend::select(&env(None, None, None, None), "Local-CLI").is_err());
}

#[test]
fn a_run_of_the_local_cli_may_take_five_minutes() {
    assert_eq!(LocalCliClient::default().timeout_secs(), 5 * 60);
    assert_eq!(
        musedesk::local_cli::TIMEOUT_MESSAGE,
        "local CLI timed out after 5 minutes"
    );
}

#[test]
fn a_chat_request_has_its_address_and_body() {
    let client = MetaApiClient {
        base_url: "https://h/v1//".to_string(),
        api_key: "k".to_string(),
        model: "m".to_string(),
    };
    assert_eq!(client.chat_url(), "https://h/v1/chat/completions");
    let messages = vec![parse(r#"{"role":"user","content":"hi"}"#).unwrap()];
    let tools = vec![Json::Null];
    assert_eq!(
        musedesk::json::print(&client.chat_body(&messages, &tools)),
        r#"{"messages":[{"content":"hi","role":"user"}],"model":"m","stream":true,"tools":[null]}"#
    );
}

#[test]
fn a_chat_that_failed_says_why() {
    let e = || "e".to_string();
    assert_eq!(ChatFailure::Request(e()).message(), "request failed: e");
    assert_eq!(ChatFailure::Refused(e()).message(), "API error: e");
    assert_eq!(ChatFailure::Stream(e()).message(), "stream error: e");
}
