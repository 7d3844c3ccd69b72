//! The HTTP transport, the clients and the rules of the command line.

use allegro_mcp::auth::device::DeviceFlowError;
use allegro_mcp::auth::token_store::{PendingDeviceGrant, StoredState};
use allegro_mcp::auth::AuthError;
use allegro_mcp::cli::{
    after_startup_load, after_startup_token, build_auth, device_failure, device_store,
    format_duration_hm, healthcheck_result, healthcheck_url, login_summary, resolve_port,
    resolve_schema_source, resolve_token_path, resolve_user_agent, resumable_grant, stats_summary,
    tools_summary, verbosity_level, LogLevel, StartupStep,
};
use allegro_mcp::config::{AuthFlow, Config};
use allegro_mcp::http::{
    build_client, build_schema_client, default_client, default_schema_client, HttpError,
    DEFAULT_ACCEPT_LANGUAGE, DEFAULT_USER_AGENT,
};
use allegro_mcp::http_server::{
    constant_time_eq, resolve_allowed_hosts, startup_check, startup_decision, Admission, AppState, StartupCheck,
    StartupDecision,
};
use allegro_mcp::schema::parse::parse_bytes;
use allegro_mcp::schema::{SchemaSource, SchemaStats};
use allegro_mcp::tool_registry::ToolRegistry;
use reqwest::header::{HeaderMap, HeaderValue, AUTHORIZATION};

// ── Clients ──

#[test]
fn test_default_user_agent_matches_required_format() {
    assert!(
        DEFAULT_USER_AGENT.starts_with("allegro-mcp/"),
        "default UA must start with 'allegro-mcp/', got: {DEFAULT_USER_AGENT}"
    );
    assert!(
        DEFAULT_USER_AGENT.contains(" (+https://"),
        "default UA must contain ' (+https://', got: {DEFAULT_USER_AGENT}"
    );
    assert!(
        DEFAULT_USER_AGENT.ends_with(')'),
        "default UA must end with ')', got: {DEFAULT_USER_AGENT}"
    );
}

#[test]
fn test_build_client_returns_client_for_valid_inputs() {
    let result = build_client(DEFAULT_USER_AGENT, DEFAULT_ACCEPT_LANGUAGE);
    assert!(result.is_ok(), "expected Ok, got: {result:?}");
    assert_eq!(result.unwrap().timeout_secs, None);
}

#[test]
fn test_build_client_invalid_accept_language_errors_at_build() {
    let result = build_client(DEFAULT_USER_AGENT, "pl-PL\n");
    assert!(
        matches!(result, Err(HttpError::InvalidHeader(_))),
        "invalid Accept-Language must surface as InvalidHeader, got: {result:?}"
    );
    assert_eq!(
        result.unwrap_err().message(),
        "invalid header value: failed to parse header value"
    );
}

#[test]
fn test_build_client_invalid_user_agent_errors_at_build() {
    let result = build_client("allegro-mcp/0.1.0\n", DEFAULT_ACCEPT_LANGUAGE);
    assert!(
        matches!(result, Err(HttpError::Build(_))),
        "invalid User-Agent must surface as Build, got: {result:?}"
    );
    assert_eq!(
        result.unwrap_err().message(),
        "client build failed: builder error"
    );
}

#[test]
fn test_build_schema_client_returns_client_for_valid_inputs() {
    let result = build_schema_client(DEFAULT_USER_AGENT, DEFAULT_ACCEPT_LANGUAGE);
    assert!(result.is_ok(), "expected Ok, got: {result:?}");
    assert_eq!(result.unwrap().timeout_secs, Some(10));
}

#[test]
fn test_default_client_does_not_panic() {
    assert_eq!(default_client().user_agent, DEFAULT_USER_AGENT);
}

#[test]
fn test_default_schema_client_does_not_panic() {
    assert_eq!(
        default_schema_client().accept_language,
        DEFAULT_ACCEPT_LANGUAGE
    );
}

#[test]
fn header_values_are_checked_by_their_bytes() {
    for good in ["", "pl-PL", "a\tb", "ż"] {
        assert!(build_client("A", good).is_ok(), "{good:?}");
    }
    for bad in ["\n", "a\u{0}", "\u{7f}", "\r"] {
        assert!(build_client("A", bad).is_err(), "{bad:?}");
    }
}

// ── The guard ──

#[test]
fn constant_time_eq_matches_equal_slices() {
    assert!(constant_time_eq(b"secret", b"secret"));
}

#[test]
fn constant_time_eq_rejects_different_slices() {
    assert!(!constant_time_eq(b"secret", b"wrong-token"));
    assert!(!constant_time_eq(b"secret", b"secreT"));
}

#[test]
fn constant_time_eq_rejects_different_lengths() {
    assert!(!constant_time_eq(b"short", b"much-longer-value"));
}

#[test]
fn resolve_allowed_hosts_defaults_to_loopback_when_env_absent() {
    let hosts = resolve_allowed_hosts(None);
    assert_eq!(hosts, vec!["localhost", "127.0.0.1", "::1"]);
}

#[test]
fn resolve_allowed_hosts_reads_its_list() {
    assert!(resolve_allowed_hosts(Some(" * ")).is_empty());
    assert_eq!(
        resolve_allowed_hosts(Some("allegro-mcp, allegro-mcp:8080 ,,")),
        vec!["allegro-mcp", "allegro-mcp:8080"]
    );
    assert!(resolve_allowed_hosts(Some("")).is_empty());
    assert_eq!(resolve_allowed_hosts(Some("*,a")), vec!["*", "a"]);
}

fn headers(value: &str) -> HeaderMap {
    let mut map = HeaderMap::new();
    map.insert(AUTHORIZATION, HeaderValue::from_str(value).expect("a value"));
    map
}

#[test]
fn auth_status_without_server_token_is_public() {
    let state = AppState::new(None);
    assert_eq!(state.bearer_auth(&HeaderMap::new()), Admission::Granted);
    assert_eq!(state.bearer_auth(&headers("Bearer x")), Admission::Granted);
}

#[test]
fn auth_status_with_server_token_requires_bearer() {
    let state = AppState::new(Some("s3cret".to_string())).clone();
    assert_eq!(state.bearer_auth(&HeaderMap::new()), Admission::Refused);
    for wrong in ["Bearer wrong", "bearer s3cret", "s3cret", "Bearer s3cret ", "Bearer ż"] {
        assert_eq!(
            state.bearer_auth(&headers(wrong)),
            Admission::Refused,
            "{wrong}"
        );
    }
    assert_eq!(
        state.bearer_auth(&headers("Bearer s3cret")),
        Admission::Granted
    );
}

#[test]
fn the_startup_check_names_the_failure() {
    match startup_check(&Ok(()), true) {
        StartupCheck::Passed { banner } => assert!(banner.contains("check OK (sandbox=true)")),
        other => panic!("expected a pass, got: {other:?}"),
    }
    match startup_check(&Err(AuthError::Http("refused".to_string())), false) {
        StartupCheck::Failed { banner, reason } => {
            assert!(banner.contains("STARTUP AUTH CHECK FAILED: HTTP request failed: refused"));
            assert_eq!(
                reason,
                "startup Allegro auth check failed: HTTP request failed: refused"
            );
        }
        other => panic!("expected a failure, got: {other:?}"),
    }
}

// ── The command line ──

#[test]
fn default_verbosity_is_warn() {
    assert_eq!(verbosity_level(0), LogLevel::Warn);
}

#[test]
fn single_v_gives_info() {
    assert_eq!(verbosity_level(1), LogLevel::Info);
}

#[test]
fn double_v_gives_debug() {
    assert_eq!(verbosity_level(2), LogLevel::Debug);
}

#[test]
fn triple_v_and_above_gives_trace() {
    assert_eq!(verbosity_level(3), LogLevel::Trace);
    assert_eq!(verbosity_level(255), LogLevel::Trace);
}

#[test]
fn the_schema_source_follows_the_configuration() {
    let mut cfg = Config::default();
    assert_eq!(
        resolve_schema_source(&cfg),
        SchemaSource::Url("https://developer.allegro.pl/swagger.yaml".to_string())
    );
    cfg.schema_url = Some("https://x/s.yaml".to_string());
    assert_eq!(
        resolve_schema_source(&cfg),
        SchemaSource::Url("https://x/s.yaml".to_string())
    );
    cfg.schema_file = Some("/s.yaml".to_string());
    assert_eq!(
        resolve_schema_source(&cfg),
        SchemaSource::File("/s.yaml".to_string())
    );
}

#[test]
fn the_user_agent_has_a_default() {
    let mut cfg = Config::default();
    assert_eq!(resolve_user_agent(&cfg), DEFAULT_USER_AGENT);
    cfg.user_agent = Some("A/1.0.0 (+https://x.com)".to_string());
    assert_eq!(resolve_user_agent(&cfg), "A/1.0.0 (+https://x.com)");
}

#[test]
fn ports_are_resolved() {
    assert_eq!(resolve_port(Some(9090), Some("1")), 9090);
    assert_eq!(resolve_port(None, Some("9091")), 9091);
    assert_eq!(resolve_port(None, Some("65536")), 8080);
    assert_eq!(resolve_port(None, Some(" 80")), 8080);
    assert_eq!(resolve_port(None, None), 8080);
    assert_eq!(healthcheck_url(None), "http://127.0.0.1:8080/health");
    assert_eq!(healthcheck_url(Some("81")), "http://127.0.0.1:81/health");
}

#[test]
fn only_a_2xx_is_healthy() {
    assert!(healthcheck_result(200).is_ok());
    assert!(healthcheck_result(299).is_ok());
    assert_eq!(
        healthcheck_result(503).unwrap_err(),
        "healthcheck failed: HTTP 503 Service Unavailable"
    );
    assert!(healthcheck_result(301).is_err());
}

#[test]
fn durations_are_shown_for_people() {
    assert_eq!(format_duration_hm(45), "45s");
    assert_eq!(format_duration_hm(59), "59s");
    assert_eq!(format_duration_hm(60), "1m");
    assert_eq!(format_duration_hm(3599), "59m");
    assert_eq!(format_duration_hm(3600), "1h");
    assert_eq!(format_duration_hm(3659), "1h");
    assert_eq!(format_duration_hm(45000), "12h 30m");
    assert_eq!(
        login_summary("/t.json", 43199, &Some("a b".to_string())),
        vec![
            "Tokens saved to /t.json",
            "Access token expires in 11h 59m (expires_in = 43199 s)",
            "Scope: a b"
        ]
    );
    assert_eq!(login_summary("/t.json", 5, &None).len(), 2);
}

#[test]
fn the_token_path_has_an_order() {
    let mut cfg = Config::default();
    let path = |flag: Option<&str>, cfg: &Config, dir: Option<&str>| {
        resolve_token_path(flag.map(|f| f.to_string()), cfg, dir)
    };
    assert_eq!(
        path(None, &cfg, Some("/c")).expect("a place"),
        "/c/allegro-mcp/tokens.json"
    );
    assert!(matches!(path(None, &cfg, None), Err(AuthError::StoreIo(m)) if m.contains("config directory")));
    cfg.token_path = Some("/cfg.json".to_string());
    assert_eq!(path(None, &cfg, Some("/c")).expect("a place"), "/cfg.json");
    assert_eq!(
        path(Some("/flag.json"), &cfg, Some("/c")).expect("a place"),
        "/flag.json"
    );
}

#[test]
fn only_the_device_flow_has_a_store() {
    let mut cfg = Config::default();
    assert!(device_store(&cfg, None).expect("no store").is_none());
    cfg.auth_flow = AuthFlow::DeviceCode;
    assert!(device_store(&cfg, None).is_err());
    let store = device_store(&cfg, Some("/c")).expect("a place").expect("a store");
    assert_eq!(store.path(), "/c/allegro-mcp/tokens.json");
}

#[test]
fn the_token_manager_follows_the_configuration() {
    let mut cfg = Config::default();
    cfg.sandbox = true;
    let id = Some("id".to_string());
    let secret = Some("secret".to_string());
    assert!(matches!(
        build_auth(&cfg, None, secret.clone(), None),
        Err(AuthError::MissingEnvVar(name)) if name == "ALLEGRO_CLIENT_ID"
    ));
    assert!(matches!(
        build_auth(&cfg, id.clone(), None, None),
        Err(AuthError::MissingEnvVar(name)) if name == "ALLEGRO_CLIENT_SECRET"
    ));
    let auth = build_auth(&cfg, id.clone(), secret.clone(), None).expect("a manager");
    assert_eq!(auth.auth_base_url(), "https://allegro.pl.allegrosandbox.pl");
    assert_eq!(auth.flow_label(), "client_credentials");
    cfg.auth_flow = AuthFlow::DeviceCode;
    assert!(build_auth(&cfg, id.clone(), secret.clone(), None).is_err());
    let auth = build_auth(&cfg, id, secret, Some("/c")).expect("a manager");
    assert_eq!(auth.flow_label(), "device_code");
}

#[test]
fn device_failures_have_their_words() {
    assert_eq!(
        device_failure(&DeviceFlowError::AccessDenied),
        "authorization denied by user"
    );
    assert_eq!(
        device_failure(&DeviceFlowError::Expired),
        "device/user code expired — rerun `allegro-mcp auth device`"
    );
    assert_eq!(
        device_failure(&DeviceFlowError::Network("x".to_string())),
        "device flow failed after repeated transient errors: x"
    );
}

fn pending(expires_at_epoch: u64) -> StoredState {
    StoredState {
        tokens: None,
        pending: Some(PendingDeviceGrant {
            device_code: "dc".to_string(),
            user_code: "uc".to_string(),
            verification_uri: "https://allegro.pl/skojarz-aplikacje".to_string(),
            verification_uri_complete: None,
            interval_secs: 5,
            expires_at_epoch,
        }),
    }
}

#[test]
fn a_grant_is_taken_up_while_it_lasts() {
    let grant = resumable_grant(&pending(100), 60).expect("time is left");
    assert_eq!(grant.expires_in, 40);
    assert_eq!(grant.device_code, "dc");
    assert!(resumable_grant(&pending(100), 100).is_none());
    assert!(resumable_grant(&StoredState::default(), 0).is_none());
}

#[test]
fn startup_in_the_device_flow() {
    assert!(matches!(after_startup_token(Ok(())), StartupStep::Ready));
    let reauth = AuthError::ReauthRequired {
        reason: "r".to_string(),
    };
    assert!(matches!(
        after_startup_token(Err(reauth)),
        StartupStep::Inspect
    ));
    assert!(matches!(
        after_startup_token(Err(AuthError::StoreVersion { found: 2 })),
        StartupStep::Abort(m) if m.contains("version 2")
    ));
    assert!(after_startup_load(Ok(pending(100)), 99).is_ok());
    assert_eq!(
        after_startup_load(Ok(pending(100)), 100).unwrap_err(),
        "no Allegro authorization found — run `allegro-mcp auth device` first"
    );
    assert_eq!(
        after_startup_load(Err(AuthError::StoreIo("x".to_string())), 0).unwrap_err(),
        "token store error: x"
    );
}

#[test]
fn listings_are_printed() {
    let stats = SchemaStats {
        path_count: 2,
        operation_count: 3,
        parameter_count: 10,
        sha256: "abc".to_string(),
    };
    assert_eq!(
        stats_summary(&stats),
        vec![
            "Paths:      2",
            "Operations: 3",
            "Parameters: 10",
            "SHA-256:    abc"
        ]
    );
    let mut doc = "openapi: \"3.0.3\"\ninfo:\n  title: t\n  version: v\npaths:\n".to_string();
    for i in 0..7 {
        doc.push_str(&format!(
            "  /p{i}:\n    get:\n      operationId: op{i}\n      summary: S{i}\n      responses: {{}}\n"
        ));
    }
    let api = parse_bytes(doc.as_bytes()).expect("a document");
    let registry = ToolRegistry::from_openapi(&api).expect("a registry");
    assert_eq!(
        tools_summary(&registry),
        vec![
            "Tools: 7",
            "  - allegro_op0 (S0)",
            "  - allegro_op1 (S1)",
            "  - allegro_op2 (S2)",
            "  - allegro_op3 (S3)",
            "  - allegro_op4 (S4)",
            "  ... and 2 more"
        ]
    );
}

#[test]
fn a_pending_grant_does_not_keep_the_server_from_starting() {
    let unauthorized = || {
        Err(AuthError::ReauthRequired {
            reason: "a device authorization is pending".to_string(),
        })
    };
    match startup_decision(&unauthorized(), false, true) {
        StartupDecision::ServePending { notice } => {
            assert!(notice.contains("device authorization pending"))
        }
        other => panic!("the server must start: {other:?}"),
    }
    assert!(matches!(
        startup_decision(&unauthorized(), false, false),
        StartupDecision::Stop { .. }
    ));
    match startup_decision(&Err(AuthError::Http("refused".to_string())), false, true) {
        StartupDecision::Stop { reason, .. } => {
            assert!(reason.starts_with("startup Allegro auth check failed: "))
        }
        other => panic!("other errors stop the server: {other:?}"),
    }
    assert!(matches!(
        startup_decision(&Ok(()), true, true),
        StartupDecision::Serve { .. }
    ));
}
