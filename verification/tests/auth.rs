//! Tokens: the device flow, the token file and the token manager.

use std::ops::ControlFlow;
use std::time::Instant;

use allegro_mcp::auth::device::{
    after_poll, banner_text, classify, device_code_request, format_user_code, next_poll,
    parse_device_authorization, token_poll_request, u64_lenient, DeviceAuthorizationResponse,
    DeviceFlowError, PollAction, PollOutcome, PollState, PollingPolicy, MAX_TRANSIENT_ERRORS,
};
use allegro_mcp::auth::resolution::{begin, step, ResolveEvent, ResolveState, ResolveStep};
use allegro_mcp::auth::token_store::{
    env_label, epoch_now, PendingDeviceGrant, StoredState, StoredTokens, TokenStore,
};
use allegro_mcp::auth::{
    clamp_expires_in, client_credentials_request, is_definitive_rejection, parse_token_response,
    refresh_request, token_endpoint_reply, AllegroAuth, AuthError, CachedToken, TokenPlan,
    TokenResponse,
};
use allegro_mcp::config::auth_base_url;
use allegro_mcp::json::Json;
use allegro_mcp::login::{self, LoginEvent, LoginState, LoginStep};
use allegro_mcp::time::Duration;

// ── Numbers in device responses ──

#[test]
fn u64_lenient_accepts_numbers_and_numeric_strings() {
    let read = |text: &str| u64_lenient(&Json::parse(text).expect("JSON"));
    assert_eq!(read("3600").expect("json number"), 3600);
    assert_eq!(read("\"5\"").expect("numeric string"), 5);
    assert_eq!(read("\" 42 \"").expect("trimmed"), 42);
    assert!(
        read("\"abc\"").is_err(),
        "non-numeric string must be rejected"
    );
    assert!(read("null").is_err(), "null must be rejected");
    assert!(read("-1").is_err(), "negative numbers must be rejected");
}

#[test]
fn a_text_that_is_no_number_says_why() {
    let read = |text: &str| u64_lenient(&Json::parse(text).expect("JSON"));
    for text in ["abc", "", "-1", "18446744073709551616"] {
        let reason = text.parse::<u64>().expect_err("no number");
        assert_eq!(
            read(&format!("\" {text} \"")).expect_err("no number"),
            format!("expected a numeric string: {reason}")
        );
    }
}

#[test]
fn device_response_parses_numeric_fields() {
    let resp = parse_device_authorization(
        r#"{
            "user_code": "cbt3zdu4g",
            "device_code": "645629715",
            "expires_in": 3600,
            "interval": 5,
            "verification_uri": "https://allegro.pl/skojarz-aplikacje",
            "verification_uri_complete": "https://allegro.pl/skojarz-aplikacje?code=cbt3zdu4g"
        }"#,
    )
    .expect("valid device response");
    assert_eq!(resp.expires_in, 3600);
    assert_eq!(resp.interval, 5);
    assert!(resp.verification_uri_complete.is_some());
}

#[test]
fn device_response_parses_quoted_numeric_fields() {
    let resp = parse_device_authorization(
        r#"{
            "user_code": "cbt3zdu4g",
            "device_code": "645629715",
            "expires_in": "3600",
            "interval": "5",
            "verification_uri": "https://allegro.pl/skojarz-aplikacje"
        }"#,
    )
    .expect("valid device response");
    assert_eq!(resp.expires_in, 3600);
    assert_eq!(resp.interval, 5);
    assert!(
        resp.verification_uri_complete.is_none(),
        "missing verification_uri_complete must be tolerated"
    );
    assert!(parse_device_authorization("{\"user_code\": \"x\"}").is_none());
}

// ── Poll answers ──

#[test]
fn classify_success_yields_token() {
    let outcome = classify(
        200,
        r#"{"access_token":"t","token_type":"bearer","refresh_token":"r","expires_in":43199}"#,
    );
    let PollOutcome::Token(tokens) = outcome else {
        panic!("expected Token, got {outcome:?}");
    };
    assert_eq!(tokens.access_token, "t");
    assert_eq!(tokens.refresh_token.as_deref(), Some("r"));
}

#[test]
fn classify_pending_yields_authorization_pending() {
    assert!(matches!(
        classify(400, r#"{"error":"authorization_pending"}"#),
        PollOutcome::AuthorizationPending
    ));
}

#[test]
fn classify_slow_down_yields_slow_down() {
    assert!(matches!(
        classify(400, r#"{"error":"slow_down"}"#),
        PollOutcome::SlowDown
    ));
}

#[test]
fn classify_access_denied_yields_access_denied() {
    assert!(matches!(
        classify(400, r#"{"error":"access_denied"}"#),
        PollOutcome::AccessDenied
    ));
}

#[test]
fn classify_invalid_device_code_literal_is_terminal() {
    for body in [
        r#"{"error":"Invalid device code"}"#,
        r#"{"error":"invalid device code"}"#,
        r#"{"error":"Something: Invalid Device Code!"}"#,
    ] {
        assert!(
            matches!(classify(400, body), PollOutcome::ExpiredOrInvalid),
            "body {body} must be terminal"
        );
    }
}

#[test]
fn classify_expired_token_is_terminal() {
    assert!(matches!(
        classify(400, r#"{"error":"expired_token"}"#),
        PollOutcome::ExpiredOrInvalid
    ));
}

#[test]
fn classify_unknown_4xx_error_code_is_terminal() {
    assert!(matches!(
        classify(400, r#"{"error":"some_future_code"}"#),
        PollOutcome::ExpiredOrInvalid
    ));
    assert!(matches!(
        classify(403, r#"{"error":"forbidden"}"#),
        PollOutcome::ExpiredOrInvalid
    ));
}

#[test]
fn classify_4xx_without_error_field_is_terminal() {
    assert!(matches!(
        classify(400, "<html>bad gateway</html>"),
        PollOutcome::ExpiredOrInvalid
    ));
}

#[test]
fn classify_5xx_is_transient() {
    let outcome = classify(503, "service unavailable");
    assert!(
        matches!(outcome, PollOutcome::Transient(_)),
        "5xx must be transient, got {outcome:?}"
    );
}

#[test]
fn classify_unparsable_2xx_body_is_transient() {
    let outcome = classify(200, "not json");
    assert!(
        matches!(outcome, PollOutcome::Transient(_)),
        "garbage 200 body must be transient, got {outcome:?}"
    );
}

// ── Polling ──

#[test]
fn poll_state_pending_keeps_interval() {
    let mut state = PollState::new(5, 3600);
    assert!(matches!(
        state.advance(&PollOutcome::AuthorizationPending),
        ControlFlow::Continue(())
    ));
    assert_eq!(state.interval(), Duration::from_secs(5));
}

#[test]
fn poll_state_slow_down_adds_exactly_one_second_each_time() {
    let mut state = PollState::new(5, 3600);
    let _ = state.advance(&PollOutcome::SlowDown);
    assert_eq!(
        state.interval(),
        Duration::from_secs(6),
        "+1 s per slow_down"
    );
    let _ = state.advance(&PollOutcome::SlowDown);
    assert_eq!(state.interval(), Duration::from_secs(7), "twice → +2 s");
}

#[test]
fn poll_state_access_denied_breaks_immediately() {
    let mut state = PollState::new(5, 3600);
    assert!(matches!(
        state.advance(&PollOutcome::AccessDenied),
        ControlFlow::Break(DeviceFlowError::AccessDenied)
    ));
}

#[test]
fn poll_state_expired_breaks_immediately() {
    let mut state = PollState::new(5, 3600);
    assert!(matches!(
        state.advance(&PollOutcome::ExpiredOrInvalid),
        ControlFlow::Break(DeviceFlowError::Expired)
    ));
}

#[test]
fn poll_state_transient_cap_breaks_on_fifth() {
    let mut state = PollState::new(5, 3600);
    for i in 1..MAX_TRANSIENT_ERRORS {
        assert!(
            matches!(
                state.advance(&PollOutcome::Transient("boom".to_owned())),
                ControlFlow::Continue(())
            ),
            "transient #{i} must continue"
        );
    }
    assert!(
        matches!(
            state.advance(&PollOutcome::Transient("boom".to_owned())),
            ControlFlow::Break(DeviceFlowError::Network(_))
        ),
        "the {MAX_TRANSIENT_ERRORS}th consecutive transient must break"
    );
}

#[test]
fn only_transient_failures_in_a_row_count() {
    let mut state = PollState::new(5, 3600);
    for _ in 0..20 {
        let flow = state.advance(&PollOutcome::Transient("boom".to_owned()));
        assert!(matches!(flow, ControlFlow::Continue(())));
        let flow = state.advance(&PollOutcome::AuthorizationPending);
        assert!(matches!(flow, ControlFlow::Continue(())));
    }
}

#[test]
fn poll_state_deadline_boundary() {
    let expired = PollState::new(5, 0);
    assert!(expired.deadline_exceeded());
    let live = PollState::new(5, 3600);
    assert!(!live.deadline_exceeded());
    assert!(live.expired_after(Duration::from_secs(3600)));
    assert!(!live.expired_after(Duration::from_millis(3_599_999)));
}

#[test]
fn device_flow_slow_down_backs_off() {
    let policy = PollingPolicy::production();
    let mut state = PollState::new(policy.effective_interval(5).as_secs(), 3600);
    match next_poll(&state, &policy, false) {
        PollAction::SleepThenPoll(d) => assert_eq!(d.as_secs(), 5),
        other => panic!("expected a poll, got: {other:?}"),
    }
    match after_poll(&mut state, &policy, PollOutcome::SlowDown, false) {
        PollAction::SleepThenPoll(d) => assert_eq!(d.as_secs(), 6),
        other => panic!("expected a poll, got: {other:?}"),
    }
    let slow_down = classify(400, r#"{"error":"slow_down"}"#);
    match after_poll(&mut state, &policy, slow_down, false) {
        PollAction::SleepThenPoll(d) => assert_eq!(d.as_secs(), 7),
        other => panic!("expected a poll, got: {other:?}"),
    }
    let answer = r#"{"access_token":"sd-access","refresh_token":"sd-refresh","expires_in":43199}"#;
    match after_poll(&mut state, &policy, classify(200, answer), false) {
        PollAction::Granted(t) => assert_eq!(t.access_token, "sd-access"),
        other => panic!("slow_down must not abort, got: {other:?}"),
    }
    let instant = PollingPolicy::test_instant();
    match after_poll(&mut state, &instant, PollOutcome::AuthorizationPending, false) {
        PollAction::SleepThenPoll(d) => assert_eq!(d.as_nanos(), 0),
        other => panic!("expected a poll, got: {other:?}"),
    }
    assert!(matches!(
        after_poll(&mut state, &policy, PollOutcome::AuthorizationPending, true),
        PollAction::Failed(DeviceFlowError::Expired)
    ));
    assert!(matches!(
        after_poll(&mut state, &policy, PollOutcome::Token(token_response("t", None)), true),
        PollAction::Granted(t) if t.access_token == "t"
    ));
}

// ── The banner ──

fn banner_fixture(complete: Option<&str>) -> DeviceAuthorizationResponse {
    DeviceAuthorizationResponse {
        user_code: "cbt3zdu4g".to_owned(),
        device_code: "645629715".to_owned(),
        expires_in: 3600,
        interval: 5,
        verification_uri: "https://allegro.pl/skojarz-aplikacje".to_owned(),
        verification_uri_complete: complete.map(str::to_owned),
    }
}

#[test]
fn format_user_code_groups_in_threes() {
    assert_eq!(format_user_code("cbt3zdu4g"), "cbt 3zd u4g");
    assert_eq!(format_user_code("abcdefg"), "abc def g");
    assert_eq!(format_user_code("ab"), "ab");
    assert_eq!(format_user_code(""), "");
}

#[test]
fn banner_prefers_the_complete_uri_and_never_leaks_device_code() {
    let resp = banner_fixture(Some("https://allegro.pl/skojarz-aplikacje?code=cbt3zdu4g"));
    let text = banner_text(&resp, false, false);
    assert!(text.contains("https://allegro.pl/skojarz-aplikacje?code=cbt3zdu4g"));
    assert!(text.contains("cbt 3zd u4g"), "grouped user code present");
    assert!(text.contains("3600"), "expiry present");
    assert!(text.contains("every 5 s"), "poll cadence present");
    assert!(
        !text.contains("645629715"),
        "device_code must never appear in the banner, got: {text}"
    );
    assert!(!text.contains("resuming"), "fresh start is not a resume");
}

#[test]
fn banner_falls_back_to_uri_plus_code_and_marks_resumes() {
    let resp = banner_fixture(None);
    let text = banner_text(&resp, true, true);
    assert!(text.contains("https://allegro.pl/skojarz-aplikacje"));
    assert!(text.contains("(sandbox)"), "sandbox flag surfaced");
    assert!(
        text.contains("resuming your earlier device authorization"),
        "resume note present, got: {text}"
    );
}

// ── Forms ──

fn pairs(form: &[(String, String)]) -> Vec<(&str, &str)> {
    form.iter().map(|(k, v)| (k.as_str(), v.as_str())).collect()
}

#[test]
fn test_token_request_carries_scope_param_only_when_configured() {
    let plain = client_credentials_request("https://a", &vec![]);
    assert_eq!(plain.url, "https://a/auth/oauth/token");
    assert_eq!(
        pairs(&plain.form),
        vec![("grant_type", "client_credentials")]
    );
    let scoped = client_credentials_request("https://a", &vec!["x".to_owned(), "y".to_owned()]);
    assert_eq!(
        pairs(&scoped.form),
        vec![("grant_type", "client_credentials"), ("scope", "x y")]
    );
}

#[test]
fn device_forms() {
    let request = device_code_request("https://a", "id", &vec!["x".to_owned()]);
    assert_eq!(request.url, "https://a/auth/oauth/device");
    assert_eq!(
        pairs(&request.form),
        vec![("client_id", "id"), ("scope", "x")]
    );
    let request = token_poll_request("https://a", "dc");
    assert_eq!(request.url, "https://a/auth/oauth/token");
    assert_eq!(
        pairs(&request.form),
        vec![
            ("grant_type", "urn:ietf:params:oauth:grant-type:device_code"),
            ("device_code", "dc")
        ]
    );
    let request = refresh_request("https://a", "rfr");
    assert_eq!(
        pairs(&request.form),
        vec![("grant_type", "refresh_token"), ("refresh_token", "rfr")]
    );
}

// ── Errors ──

#[test]
fn missing_env_var_error_display() {
    let err = AuthError::MissingEnvVar("ALLEGRO_CLIENT_ID".to_owned());
    assert!(
        matches!(&err, AuthError::MissingEnvVar(name) if name == "ALLEGRO_CLIENT_ID"),
        "MissingEnvVar variant must carry the variable name"
    );
    assert_eq!(
        err.message(),
        "missing environment variable: ALLEGRO_CLIENT_ID"
    );
}

#[test]
fn from_env_returns_err_for_absent_var() {
    let result = AllegroAuth::from_env(None, Some("secret".to_owned()), false);
    assert!(
        matches!(result, Err(AuthError::MissingEnvVar(name)) if name == "ALLEGRO_CLIENT_ID"),
        "expected MissingEnvVar(\"ALLEGRO_CLIENT_ID\")"
    );
}

#[test]
fn from_env_returns_err_for_missing_secret() {
    let result = AllegroAuth::from_env(Some("id".to_owned()), None, false);
    assert!(
        matches!(result, Err(AuthError::MissingEnvVar(name)) if name == "ALLEGRO_CLIENT_SECRET"),
        "expected MissingEnvVar(\"ALLEGRO_CLIENT_SECRET\")"
    );
    let err = AuthError::MissingEnvVar("ALLEGRO_CLIENT_SECRET".to_owned());
    assert_eq!(
        err.message(),
        "missing environment variable: ALLEGRO_CLIENT_SECRET"
    );
}

#[test]
fn malformed_response_error_display() {
    let err = AuthError::MalformedResponse("access_token".to_owned());
    assert_eq!(
        err.message(),
        "token response missing required field: access_token"
    );
}

#[test]
fn reauth_required_error_display_mentions_the_cli() {
    let err = AuthError::ReauthRequired {
        reason: "no stored device authorization".to_owned(),
    };
    let msg = err.message();
    assert!(
        msg.contains("allegro-mcp auth device"),
        "the error must point at the CLI command, got: {msg}"
    );
}

// ── Token responses ──

#[test]
fn token_responses_are_read() {
    let resp = parse_token_response(r#"{"access_token":"t","expires_in":5,"scope":"a b","x":1}"#)
        .expect("a token");
    assert_eq!(resp.access_token, "t");
    assert_eq!(resp.expires_in, 5);
    assert_eq!(resp.scope.as_deref(), Some("a b"));
    assert_eq!(resp.refresh_token, None);
    assert!(parse_token_response(r#"{"expires_in":5}"#).is_err());
    assert!(parse_token_response("no").is_err());
}

#[test]
fn token_endpoint_replies_are_told_apart() {
    let ok = token_endpoint_reply(200, r#"{"access_token":"t","expires_in":5}"#, None, None);
    assert!(matches!(ok, Ok(t) if t.access_token == "t"));
    let limited = token_endpoint_reply(
        429,
        "",
        Some("tr".to_owned()),
        Some(Duration::from_secs(3)),
    );
    let e = limited.expect_err("a 429");
    assert!(matches!(e, AuthError::TokenMintRateLimited { .. }));
    assert!(!is_definitive_rejection(&e));
    let refused = token_endpoint_reply(
        400,
        r#"{"error":"invalid_grant","error_description":"gone"}"#,
        None,
        None,
    )
    .expect_err("a 400");
    assert!(refused.message().contains("invalid_grant"));
    assert!(refused.message().contains("gone"));
    assert!(is_definitive_rejection(&refused));
    let down = token_endpoint_reply(503, "", None, None).expect_err("a 503");
    assert!(!is_definitive_rejection(&down));
}

// ── The token in memory ──

fn cached(secs: u64) -> CachedToken {
    CachedToken::new("tok".to_owned(), Instant::now(), Duration::from_secs(secs))
}

#[test]
fn cached_token_is_valid_with_plenty_of_time() {
    assert!(
        cached(3600).is_valid(),
        "token with 1 hour remaining should be valid"
    );
}

#[test]
fn cached_token_is_invalid_when_expired() {
    let token = cached(0);
    assert!(!token.is_valid(), "expired token should not be valid");
    assert!(!cached(1).is_valid_after(Duration::from_secs(2)));
    assert_eq!(cached(1).remaining_secs_after(Duration::from_secs(2)), None);
}

#[test]
fn cached_token_is_valid_at_61s_boundary() {
    assert!(
        cached(62).is_valid(),
        "token with 62 s remaining should be valid (> 60 s threshold)"
    );
    assert!(cached(61).is_valid_after(Duration::zero()));
    assert!(!cached(60).is_valid_after(Duration::zero()));
}

#[test]
fn cached_token_is_invalid_at_exactly_60s_boundary() {
    assert!(
        !cached(30).is_valid(),
        "token with 30 s remaining should be invalid (threshold is strictly > 60 s)"
    );
}

#[test]
fn cached_token_with_clamped_120s_lifetime_is_valid() {
    assert!(
        cached(120).is_valid(),
        "token clamped to 120 s lifetime should be valid immediately after creation"
    );
    assert_eq!(clamp_expires_in(5), 120);
    assert_eq!(clamp_expires_in(120), 120);
    assert_eq!(clamp_expires_in(43199), 43199);
}

// ── The token manager ──

fn manager(sandbox: bool) -> AllegroAuth {
    AllegroAuth::new("id".to_owned(), "secret".to_owned(), sandbox)
}

fn device_manager() -> AllegroAuth {
    AllegroAuth::with_base_url(
        "id".to_owned(),
        "secret".to_owned(),
        "https://example.com".to_owned(),
    )
    .with_token_store(TokenStore::new("/tmp/tokens.json".to_owned(), false))
}

fn token_response(access: &str, refresh: Option<&str>) -> TokenResponse {
    TokenResponse {
        access_token: access.to_owned(),
        expires_in: 3600,
        token_type: Some("bearer".to_owned()),
        refresh_token: refresh.map(str::to_owned),
        scope: Some("allegro:api:read".to_owned()),
        jti: None,
    }
}

#[test]
fn debug_redacts_client_secret() {
    let auth = AllegroAuth::new(
        "test-client-id".to_owned(),
        "super-secret".to_owned(),
        false,
    );
    let debug_str = auth.describe();
    assert!(
        !debug_str.contains("super-secret"),
        "Debug output must not contain the client secret"
    );
    assert!(
        debug_str.contains("[REDACTED]"),
        "Debug output must contain [REDACTED]"
    );
}

#[test]
fn debug_includes_client_id_and_base_url() {
    let auth = AllegroAuth::new("my-client-id".to_owned(), "s3cr3t".to_owned(), false);
    let debug_str = auth.describe();
    assert!(
        debug_str.contains("my-client-id"),
        "Debug output must contain client_id, got: {debug_str}"
    );
    assert!(
        debug_str.contains("auth_base_url"),
        "Debug output must contain the auth_base_url field name, got: {debug_str}"
    );
    assert_eq!(
        debug_str,
        "AllegroAuth { client_id: \"my-client-id\", client_secret: \"[REDACTED]\", auth_base_url: \"https://allegro.pl\", .. }"
    );
}

#[test]
fn new_production_uses_prod_url() {
    assert_eq!(
        manager(false).auth_base_url(),
        "https://allegro.pl",
        "production auth_base_url must be 'https://allegro.pl'"
    );
}

#[test]
fn new_sandbox_uses_sandbox_url() {
    assert_eq!(
        manager(true).auth_base_url(),
        "https://allegro.pl.allegrosandbox.pl",
        "sandbox auth_base_url must be 'https://allegro.pl.allegrosandbox.pl'"
    );
}

#[test]
fn new_delegates_host_to_config_helper() {
    assert_eq!(manager(false).auth_base_url(), auth_base_url(false));
    assert_eq!(manager(true).auth_base_url(), auth_base_url(true));
}

#[test]
fn with_http_client_stores_base_url_and_default_scopes() {
    let mut auth = AllegroAuth::with_base_url(
        "id".to_owned(),
        "secret".to_owned(),
        "https://example.com".to_owned(),
    );
    assert_eq!(auth.auth_base_url(), "https://example.com");
    match auth.token() {
        TokenPlan::Fetch(request) => assert_eq!(request.form.len(), 1, "no scope by default"),
        other => panic!("expected a fetch, got: {other:?}"),
    }
}

#[test]
fn with_scopes_builder_sets_scopes() {
    let mut auth = AllegroAuth::with_base_url(
        "id".to_owned(),
        "secret".to_owned(),
        "https://example.com".to_owned(),
    )
    .with_scopes(vec!["allegro:api:read".to_owned()]);
    match auth.token() {
        TokenPlan::Fetch(request) => assert_eq!(
            pairs(&request.form),
            vec![
                ("grant_type", "client_credentials"),
                ("scope", "allegro:api:read")
            ]
        ),
        other => panic!("expected a fetch, got: {other:?}"),
    }
}

#[test]
fn flow_label_follows_the_active_mode() {
    assert_eq!(manager(false).flow_label(), "client_credentials");
    assert_eq!(device_manager().flow_label(), "device_code");
}

#[test]
fn status_reports_no_token_before_first_fetch() {
    let status = manager(false).status(None);
    assert!(!status.token_cached);
    assert!(!status.token_valid);
    assert_eq!(status.expires_in_secs, None);
    assert_eq!(status.auth_flow, "client_credentials");
}

#[test]
fn status_reports_valid_token_after_seeding_cache() {
    let mut auth = manager(false);
    auth.remember("tok", 3600);
    let status = auth.status(None);
    assert!(status.token_cached);
    assert!(status.token_valid);
    assert!(status.expires_in_secs.is_some());
    assert_eq!(status.auth_flow, "client_credentials");
    let later = auth.status_after(None, Duration::from_secs(600));
    assert_eq!(later.expires_in_secs, Some(3000));
}

#[test]
fn status_reports_invalid_when_token_expired() {
    let mut auth = manager(false);
    auth.remember("expired", 1);
    let status = auth.status_after(None, Duration::from_secs(2));
    assert!(status.token_cached);
    assert!(!status.token_valid);
    assert_eq!(status.expires_in_secs, None);
}

#[test]
fn install_tokens_persists_and_seeds_the_cache() {
    let mut auth = device_manager();
    let resp = token_response("installed", Some("rfr"));
    let bytes = auth.install_tokens(&resp, 1_000).expect("install");
    assert_eq!(auth.finish_fetch(&resp), "installed");
    match auth.token() {
        TokenPlan::Cached(token) => assert_eq!(token, "installed"),
        other => panic!("expected the cached token, got: {other:?}"),
    }
    let status = auth.status(Some(bytes.as_slice()));
    assert!(status.token_cached && status.token_valid);
    assert!(status.persisted, "the store holds a granted pair");
    let saved = TokenStore::new("/tmp/tokens.json".to_owned(), false)
        .load(Some(bytes.as_slice()))
        .expect("store readable")
        .tokens
        .expect("a pair");
    assert_eq!(saved.expires_at_epoch, 4_600);
    assert_eq!(saved.updated_at_epoch, 1_000);
}

#[test]
fn install_tokens_requires_device_mode() {
    let err = manager(false)
        .install_tokens(&token_response("tok", None), 0)
        .expect_err("client_credentials mode has no store");
    assert!(
        matches!(err, AuthError::ReauthRequired { .. }),
        "got: {err:?}"
    );
}

#[test]
fn invalidate_forces_the_next_token_call_to_re_resolve() {
    let mut auth = device_manager();
    let resp = token_response("before", None);
    let bytes = auth.install_tokens(&resp, epoch_now()).expect("install");
    auth.finish_fetch(&resp);
    assert!(auth.status(Some(bytes.as_slice())).token_cached);

    auth.invalidate();
    let status = auth.status(Some(bytes.as_slice()));
    assert!(!status.token_cached, "cache must be empty after invalidate");
    assert!(
        status.persisted,
        "the persisted pair survives an invalidate"
    );
    match auth.token() {
        TokenPlan::Device { path, forced } => {
            assert_eq!(path, "/tmp/tokens.json");
            assert!(!forced);
        }
        other => panic!("expected the token file, got: {other:?}"),
    }
    let store = TokenStore::new("/tmp/tokens.json".to_owned(), false);
    match begin(store.load(Some(bytes.as_slice())), false, epoch_now()) {
        ResolveStep::Done(token) => assert_eq!(token.access_token, "before"),
        other => panic!("expected the stored token, got: {other:?}"),
    }
}

#[test]
fn status_persisted_flag_tracks_the_store() {
    let auth = device_manager();
    assert!(
        !auth.status(None).persisted,
        "an empty store holds no granted pair"
    );
    let bytes = auth
        .install_tokens(&token_response("tok", None), 5)
        .expect("install");
    assert!(auth.status(Some(bytes.as_slice())).persisted);
    assert!(!auth.status(Some(b"garbage")).persisted);
}

#[test]
fn status_persisted_is_always_false_for_client_credentials() {
    let mut auth = manager(false);
    auth.remember("tok", 3600);
    let bytes = device_manager()
        .install_tokens(&token_response("tok", None), 5)
        .expect("install");
    let status = auth.status(Some(bytes.as_slice()));
    assert!(status.token_cached);
    assert!(
        !status.persisted,
        "client_credentials never persists tokens"
    );
    assert_eq!(status.auth_flow, "client_credentials");
}

// ── Coming by a token in the device flow ──

fn stored(refresh: Option<&str>, expires_at_epoch: u64, updated_at_epoch: u64) -> StoredState {
    StoredState {
        tokens: Some(StoredTokens {
            access_token: "live".to_owned(),
            refresh_token: refresh.map(str::to_owned),
            expires_at_epoch,
            scope: None,
            updated_at_epoch,
        }),
        pending: None,
    }
}

#[test]
fn refresh_now_falls_back_to_the_stored_token_on_transient_failure() {
    let mut auth = device_manager();
    auth.refresh_now();
    assert!(matches!(auth.token(), TokenPlan::Device { forced: true, .. }));
    assert!(
        matches!(auth.token(), TokenPlan::Device { forced: false, .. }),
        "the flag is used up"
    );
    let (used, state) = match begin(Ok(stored(Some("rfr"), 10_000, 0)), true, 100) {
        ResolveStep::Refresh(used, state) => (used, state),
        other => panic!("expected a refresh, got: {other:?}"),
    };
    assert_eq!(used, "rfr");
    let failure = AuthError::Http("error sending request".to_owned());
    match step(state, ResolveEvent::Refreshed(Err(failure))) {
        ResolveStep::Done(token) => {
            assert_eq!(token.access_token, "live");
            assert_eq!(token.expires_in, 9_900);
        }
        other => panic!("expected the stored token, got: {other:?}"),
    }
}

#[test]
fn refresh_rotates_and_persists() {
    let state = match begin(Ok(stored(Some("rfr"), 10, 0)), false, 100) {
        ResolveStep::Refresh(_, state) => state,
        other => panic!("expected a refresh, got: {other:?}"),
    };
    let state = match step(
        state,
        ResolveEvent::Refreshed(Ok(token_response("new", Some("rfr-2")))),
    ) {
        ResolveStep::Save(pair, lifetime, state) => {
            assert_eq!(pair.refresh_token.as_deref(), Some("rfr-2"));
            assert_eq!(lifetime, 3600);
            state
        }
        other => panic!("the new pair is stored first, got: {other:?}"),
    };
    match step(state, ResolveEvent::Saved(Ok(()))) {
        ResolveStep::Done(token) => assert_eq!(token.access_token, "new"),
        other => panic!("expected the new token, got: {other:?}"),
    }
}

fn rejected() -> AuthError {
    AuthError::TokenEndpoint {
        status: 400,
        error: Some("invalid_grant".to_owned()),
        error_description: None,
        trace_id: None,
    }
}

#[test]
fn refresh_rejection_forces_reauth() {
    let state = ResolveState::FirstRefresh {
        used: "rfr".to_owned(),
        fallback: None,
    };
    let state = match step(state, ResolveEvent::Refreshed(Err(rejected()))) {
        ResolveStep::Load(state) => state,
        other => panic!("the store is read again, got: {other:?}"),
    };
    let state = match step(
        state,
        ResolveEvent::Loaded(Ok(stored(Some("rfr"), 10, 0))),
    ) {
        ResolveStep::Remove(state) => state,
        other => panic!("the store is removed, got: {other:?}"),
    };
    match step(state, ResolveEvent::Removed(Ok(()))) {
        ResolveStep::Failed(AuthError::ReauthRequired { reason }) => {
            assert!(reason.contains("refresh token rejected"))
        }
        other => panic!("expected a new authorization, got: {other:?}"),
    }
}

#[test]
fn a_rotated_refresh_token_gets_a_second_chance() {
    let state = ResolveState::Reload {
        used: "old".to_owned(),
    };
    match step(
        state,
        ResolveEvent::Loaded(Ok(stored(Some("newer"), 10, 0))),
    ) {
        ResolveStep::Refresh(token, ResolveState::SecondRefresh) => assert_eq!(token, "newer"),
        other => panic!("expected a second refresh, got: {other:?}"),
    }
    match step(
        ResolveState::SecondRefresh,
        ResolveEvent::Refreshed(Err(rejected())),
    ) {
        ResolveStep::Remove(ResolveState::Clear) => {}
        other => panic!("the store is removed, got: {other:?}"),
    }
    let limited = AuthError::TokenMintRateLimited {
        retry_after: None,
        trace_id: None,
    };
    match step(
        ResolveState::SecondRefresh,
        ResolveEvent::Refreshed(Err(limited)),
    ) {
        ResolveStep::Failed(AuthError::TokenMintRateLimited { .. }) => {}
        other => panic!("a 429 never wipes the store, got: {other:?}"),
    }
}

#[test]
fn stale_authorizations_are_not_tried() {
    let old = stored(Some("rfr"), 10, 0);
    match begin(Ok(old), false, 7_689_601) {
        ResolveStep::Failed(AuthError::ReauthRequired { reason }) => {
            assert!(reason.contains("no usable refresh token"))
        }
        other => panic!("expected a new authorization, got: {other:?}"),
    }
    let young = stored(Some("rfr"), 10, 0);
    assert!(matches!(
        begin(Ok(young), false, 7_689_600),
        ResolveStep::Refresh(..)
    ));
    assert!(matches!(
        begin(Ok(stored(None, 161, 0)), false, 100),
        ResolveStep::Done(_)
    ));
    assert!(matches!(
        begin(Ok(stored(None, 160, 0)), false, 100),
        ResolveStep::Failed(_)
    ));
    match begin(Ok(StoredState::default()), false, 0) {
        ResolveStep::Failed(AuthError::ReauthRequired { reason }) => {
            assert_eq!(reason, "no stored device authorization")
        }
        other => panic!("expected a new authorization, got: {other:?}"),
    }
}

// ── The token file ──

fn store() -> TokenStore {
    TokenStore::new("/tmp/x/tokens.json".to_owned(), false)
}

fn grant() -> DeviceAuthorizationResponse {
    banner_fixture(None)
}

#[test]
fn round_trip_pending_then_tokens() {
    let store = store();
    let bytes = store.save_pending(None, &grant()).expect("save pending");
    let state = store.load(Some(bytes.as_slice())).expect("load");
    let pending = state.pending.expect("pending persisted");
    assert_eq!(pending.device_code, "645629715");
    assert_eq!(pending.interval_secs, 5);
    assert!(pending.expires_at_epoch > epoch_now());
    assert!(
        state.tokens.is_none(),
        "no tokens before the grant completes"
    );

    let bytes = store.save_tokens(&token_response("tok", Some("rfr")), 3600);
    let state = store.load(Some(bytes.as_slice())).expect("load");
    let tokens = state.tokens.expect("tokens persisted");
    assert_eq!(tokens.access_token, "tok");
    assert_eq!(tokens.refresh_token.as_deref(), Some("rfr"));
    assert!(tokens.expires_at_epoch > epoch_now(), "epoch expiry stored");
    assert!(state.pending.is_none(), "grant completion clears pending");
}

#[test]
fn the_token_file_has_its_format() {
    let bytes = store().save_tokens_at(&token_response("tok", None), 3600, 100);
    let text = String::from_utf8(bytes).expect("text");
    assert_eq!(
        text,
        "{\n  \"version\": 1,\n  \"env\": \"production\",\n  \"tokens\": {\n    \"access_token\": \"tok\",\n    \"refresh_token\": null,\n    \"expires_at_epoch\": 3700,\n    \"scope\": \"allegro:api:read\",\n    \"updated_at_epoch\": 100\n  },\n  \"pending_device_grant\": null\n}"
    );
}

#[test]
fn load_missing_file_returns_default_state() {
    let state = store().load(None).expect("missing file must not error");
    assert_eq!(state, StoredState::default());
}

#[test]
fn load_corrupt_json_errors_naming_the_path() {
    let store = store();
    let err = store
        .load(Some(b"not json at all"))
        .expect_err("corrupt file must error");
    let msg = err.message();
    assert!(
        matches!(err, AuthError::StoreIo(_)),
        "expected StoreIo, got: {err:?}"
    );
    assert!(
        msg.contains(store.path()),
        "error must name the offending path, got: {msg}"
    );
}

#[test]
fn load_newer_version_is_a_store_version_error() {
    let err = store()
        .load(Some(br#"{"version": 2, "env": "production"}"#))
        .expect_err("newer version must be refused");
    assert!(
        matches!(err, AuthError::StoreVersion { found: 2 }),
        "expected StoreVersion {{ found: 2 }}, got: {err:?}"
    );
}

#[test]
fn load_env_mismatch_is_a_hard_error() {
    let store = TokenStore::new("/tmp/x/tokens.json".to_owned(), true);
    let err = store
        .load(Some(br#"{"version": 1, "env": "production", "tokens": {"access_token": "t", "expires_at_epoch": 1, "updated_at_epoch": 1}}"#))
        .expect_err("env mismatch must error");
    assert!(
        matches!(
            &err,
            AuthError::EnvMismatch {
                stored,
                current
            } if stored == "production" && current == "sandbox"
        ),
        "expected EnvMismatch, got: {err:?}"
    );
}

#[test]
fn load_unknown_env_label_is_a_store_io_error() {
    assert!(
        matches!(
            store().load(Some(br#"{"version": 1, "env": "staging"}"#)),
            Err(AuthError::StoreIo(_))
        ),
        "unknown env label must be a loud error"
    );
}

#[test]
fn save_tokens_drops_a_stale_pending_grant() {
    let store = store();
    let _ = store.save_pending(None, &grant()).expect("save pending");
    let bytes = store.save_tokens(&token_response("tok", None), 3600);
    let state = store.load(Some(bytes.as_slice())).expect("load");
    assert!(state.tokens.is_some());
    assert!(state.pending.is_none(), "stale pending must not survive");
}

#[test]
fn save_pending_preserves_existing_tokens() {
    let store = store();
    let bytes = store.save_tokens(&token_response("tok", Some("rfr")), 3600);
    let bytes = store
        .save_pending(Some(bytes.as_slice()), &grant())
        .expect("save pending");
    let state = store.load(Some(bytes.as_slice())).expect("load");
    assert_eq!(
        state.tokens.expect("tokens preserved").access_token,
        "tok",
        "a re-authorization must not destroy working tokens"
    );
    assert!(state.pending.is_some());
}

#[test]
fn clear_pending_keeps_tokens() {
    let store = store();
    let bytes = store.save_tokens(&token_response("tok", None), 3600);
    let bytes = store
        .save_pending(Some(bytes.as_slice()), &grant())
        .expect("save pending");
    let bytes = store
        .clear_pending(Some(bytes.as_slice()))
        .expect("clear pending");
    let state = store.load(Some(bytes.as_slice())).expect("load");
    assert!(state.tokens.is_some(), "tokens must survive clear_pending");
    assert!(state.pending.is_none());
}

#[test]
fn environments_do_not_mix() {
    let bytes = store().save_tokens(&token_response("tok", None), 3600);
    let other = TokenStore::new("/tmp/x/tokens.json".to_owned(), true);
    assert!(matches!(
        other.load(Some(bytes.as_slice())),
        Err(AuthError::EnvMismatch { .. })
    ));
    assert!(other.clear_pending(Some(bytes.as_slice())).is_err());
}

#[test]
fn env_label_follows_sandbox_flag() {
    assert_eq!(env_label(false), "production");
    assert_eq!(env_label(true), "sandbox");
}

#[test]
fn default_path_lands_in_the_allegro_mcp_config_dir() {
    assert_eq!(
        TokenStore::default_path(Some("/home/u/.config")).expect("a directory"),
        "/home/u/.config/allegro-mcp/tokens.json"
    );
    match TokenStore::default_path(None) {
        Err(AuthError::StoreIo(msg)) => assert!(msg.contains("config directory")),
        other => panic!("unexpected: {other:?}"),
    }
}

#[test]
fn a_file_that_cannot_be_written_names_the_path() {
    let err = store().io_error("Permission denied (os error 13)");
    assert_eq!(
        err.message(),
        "token store error: /tmp/x/tokens.json: Permission denied (os error 13)"
    );
}

// ── The command `auth device` ──

#[test]
fn device_flow_happy_path_persists_tokens() {
    let store = store();
    let state = match login::begin() {
        LoginStep::Read(state) => state,
        other => panic!("the file is read first, got: {other:?}"),
    };
    let state = match login::step(&store, state, LoginEvent::Contents(Ok(None)), 100) {
        LoginStep::Ask(state) => state,
        other => panic!("codes are asked for, got: {other:?}"),
    };
    let state = match login::step(&store, state, LoginEvent::Codes(Ok(grant())), 100) {
        LoginStep::Read(state) => state,
        other => panic!("the file is read again, got: {other:?}"),
    };
    let (bytes, state) =
        match login::step(&store, state, LoginEvent::Contents(Ok(None)), 100) {
            LoginStep::Write(bytes, state) => (bytes, state),
            other => panic!("the codes are stored, got: {other:?}"),
        };
    let kept = store.load(Some(bytes.as_slice())).expect("a token file");
    assert_eq!(kept.pending.expect("codes").expires_at_epoch, 3700);
    let state = match login::step(&store, state, LoginEvent::Written(Ok(())), 100) {
        LoginStep::Poll {
            banner,
            grant,
            next,
        } => {
            assert!(banner.contains("cbt 3zd u4g"));
            assert!(!banner.contains("645629715"));
            assert_eq!(grant.device_code, "645629715");
            next
        }
        other => panic!("the codes are shown, got: {other:?}"),
    };
    let tokens = token_response("tok", Some("rfr"));
    let (bytes, state) =
        match login::step(&store, state, LoginEvent::Polled(Ok(tokens)), 200) {
            LoginStep::Write(bytes, state) => (bytes, state),
            other => panic!("the tokens are stored, got: {other:?}"),
        };
    let kept = store.load(Some(bytes.as_slice())).expect("a token file");
    assert!(kept.pending.is_none());
    assert_eq!(kept.tokens.expect("tokens").expires_at_epoch, 3800);
    match login::step(&store, state, LoginEvent::Written(Ok(())), 200) {
        LoginStep::Done(lines) => assert_eq!(
            lines,
            vec![
                "Tokens saved to /tmp/x/tokens.json",
                "Access token expires in 1h (expires_in = 3600 s)",
                "Scope: allegro:api:read"
            ]
        ),
        other => panic!("the command is done, got: {other:?}"),
    }
}

#[test]
fn resume_uses_persisted_pending_grant() {
    let store = store();
    let bytes = store.save_pending_at(None, &grant(), 100).expect("codes");
    let contents = LoginEvent::Contents(Ok(Some(bytes.clone())));
    match login::step(&store, LoginState::Reading, contents, 3_699) {
        LoginStep::Poll { banner, grant, .. } => {
            assert!(banner.contains("resuming your earlier device authorization"));
            assert_eq!(grant.expires_in, 1);
        }
        other => panic!("the codes are taken up again, got: {other:?}"),
    }
    let contents = LoginEvent::Contents(Ok(Some(bytes)));
    assert!(matches!(
        login::step(&store, LoginState::Reading, contents, 3_700),
        LoginStep::Ask(_)
    ));
}

/// Stores the codes, polls once, gets a 400 answer with `error_code`, and hands
/// the failure to the command: the failure, the last step and what was stored.
fn refused_login(error_code: &str) -> (DeviceFlowError, LoginStep, StoredState) {
    let store = store();
    let grant = grant();
    let bytes = store.save_pending_at(None, &grant, 100).expect("codes");
    let policy = PollingPolicy::test_instant();
    let interval = policy.effective_interval(grant.interval);
    let mut state = PollState::new(interval.as_secs(), grant.expires_in);
    assert!(matches!(next_poll(&state, &policy, false), PollAction::SleepThenPoll(_)));
    let outcome = classify(400, &format!(r#"{{"error":"{error_code}"}}"#));
    let err = match after_poll(&mut state, &policy, outcome, false) {
        PollAction::Failed(e) => e,
        other => panic!("expected the end of the polling, got: {other:?}"),
    };
    let failure = LoginEvent::Polled(Err(err.clone()));
    let last = login::step(&store, LoginState::Polling, failure, 200);
    let stored = store.load(Some(bytes.as_slice())).expect("load store");
    (err, last, stored)
}

#[test]
fn device_flow_access_denied_is_terminal() {
    let (err, last, stored) = refused_login("access_denied");
    assert!(matches!(err, DeviceFlowError::AccessDenied));
    match last {
        LoginStep::Failed(m) => assert_eq!(m, "authorization denied by user"),
        other => panic!("nothing is written any more, got: {other:?}"),
    }
    assert!(stored.tokens.is_none());
    assert!(stored.pending.is_some());
}

#[test]
fn device_flow_expired_is_terminal() {
    for error_code in ["Invalid device code", "expired_token"] {
        let (err, last, stored) = refused_login(error_code);
        assert!(
            matches!(err, DeviceFlowError::Expired),
            "error code {error_code:?} must map to Expired, got: {err:?}"
        );
        match last {
            LoginStep::Failed(m) => assert!(m.contains("rerun `allegro-mcp auth device`")),
            other => panic!("nothing is written any more, got: {other:?}"),
        }
        assert!(stored.tokens.is_none());
        assert!(stored.pending.is_some());
    }
    assert_eq!(
        DeviceFlowError::Network("x".to_owned()).message(),
        "gave up after 5 consecutive transient failures: x"
    );
}

#[test]
fn copies_of_device_values_hold_the_same() {
    let codes = grant();
    let copy = codes.clone();
    assert_eq!(copy.device_code, codes.device_code);
    assert_eq!(copy.user_code, codes.user_code);
    assert_eq!(copy.verification_uri, codes.verification_uri);
    assert_eq!(copy.verification_uri_complete, codes.verification_uri_complete);
    assert_eq!((copy.interval, copy.expires_in), (codes.interval, codes.expires_in));
    match PollOutcome::Transient("x".to_owned()).clone() {
        PollOutcome::Transient(m) => assert_eq!(m, "x"),
        other => panic!("{other:?}"),
    }
    match PollOutcome::Token(token_response("t", None)).clone() {
        PollOutcome::Token(t) => assert_eq!(t.access_token, "t"),
        other => panic!("{other:?}"),
    }
    let network = DeviceFlowError::Network("x".to_owned());
    assert_eq!(network.clone(), network);
    let store = store();
    let bytes = store.save_pending_at(None, &codes, 100).expect("codes");
    let state = store.load(Some(bytes.as_slice())).expect("load store");
    let pending = state.clone().pending.expect("codes");
    assert_eq!(pending.clone().device_code, "645629715");
    assert_eq!(pending.expires_at_epoch, 3700);
    assert!(state.clone().tokens.is_none());
    assert_eq!(stored(Some("r"), 9, 8).clone().tokens.expect("tokens").expires_at_epoch, 9);
}

#[test]
fn a_token_lives_from_when_it_was_taken() {
    let mut auth = AllegroAuth::new("id".to_owned(), "secret".to_owned(), false);
    auth.remember_at("t", 3600, Instant::now());
    assert!(matches!(auth.token(), TokenPlan::Cached(t) if t == "t"));
    // Handing the token out leaves its age as it was.
    let old = Instant::now().checked_sub(std::time::Duration::from_secs(3600));
    if let Some(taken) = old {
        auth.remember_at("t", 3600, taken);
        assert!(matches!(auth.token(), TokenPlan::Fetch(_)));
        assert!(!auth.cache_is_valid());
    }
}

#[test]
fn a_foreign_token_file_stops_the_command() {
    let contents = LoginEvent::Contents(Ok(Some(b"nonsense".to_vec())));
    match login::step(&store(), LoginState::Reading, contents, 0) {
        LoginStep::Failed(m) => assert!(m.contains("unparsable token store")),
        other => panic!("expected a failure, got: {other:?}"),
    }
}

#[test]
fn a_stored_authorization_counts_down() {
    let grant = |expires_at_epoch: u64| PendingDeviceGrant {
        device_code: "645629715".to_owned(),
        user_code: "cbt3zdu4g".to_owned(),
        verification_uri: "https://allegro.pl/skojarz-aplikacje".to_owned(),
        verification_uri_complete: None,
        interval_secs: 5,
        expires_at_epoch,
    };
    let rest = grant(1000).to_authorization_response_at(400);
    assert_eq!(rest.expires_in, 600);
    assert_eq!(rest.interval, 5);
    assert_eq!(rest.device_code, "645629715");
    assert_eq!(grant(1000).to_authorization_response_at(2000).expires_in, 0);
    assert_eq!(grant(0).to_authorization_response().expires_in, 0);
    let left = grant(epoch_now() + 600).to_authorization_response().expires_in;
    assert!(left > 0 && left <= 600);
}

#[test]
fn a_token_is_kept_until_the_guard_time() {
    let mut auth = AllegroAuth::new("id".to_owned(), "secret".to_owned(), false);
    assert!(matches!(
        auth.token_after(Duration::zero()),
        TokenPlan::Fetch(_)
    ));
    auth.remember("tok", 3600);
    match auth.token_after(Duration::from_secs(3539)) {
        TokenPlan::Cached(token) => assert_eq!(token, "tok"),
        other => panic!("the token is valid: {other:?}"),
    }
    assert!(auth.cache_is_valid_after(Duration::from_secs(3539)));
    assert!(!auth.cache_is_valid_after(Duration::from_secs(3540)));
    assert!(matches!(
        auth.token_after(Duration::from_secs(3540)),
        TokenPlan::Fetch(_)
    ));
    assert!(matches!(auth.token(), TokenPlan::Cached(_)));
    assert!(auth.cache_is_valid());
    auth.remember("short", 60);
    assert!(!auth.cache_is_valid());
    assert!(matches!(auth.token(), TokenPlan::Fetch(_)));
}

#[test]
fn a_malformed_token_response_is_told_in_few_words() {
    match token_endpoint_reply(200, "{}", None, None) {
        Err(AuthError::Http(text)) => assert_eq!(text, "error decoding response body"),
        other => panic!("no token response: {other:?}"),
    }
}
