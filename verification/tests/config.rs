//! Configuration: User-Agent validation, the layers and their precedence.

use allegro_mcp::config::{
    api_base_url, auth_base_url, config_from_table, is_valid_semver, parse_env_bool,
    validate_user_agent, AuthFlow, CliOverrides, Config, ConfigError, ConfigFile, EnvOverrides,
    ToolFilters,
};
use allegro_mcp::http::DEFAULT_USER_AGENT;
use allegro_mcp::json::Json;

// ── Copies and defaults ──

#[test]
fn filters_begin_empty() {
    let filters = ToolFilters::default();
    assert!(filters.allow.is_empty());
    assert!(filters.deny.is_empty());
}

#[test]
fn copies_of_the_configuration_hold_the_same() {
    let cfg = Config::from_toml_str(
        "sandbox = true\naccept_language = \"pl-PL\"\n[tools]\nallow = [\"a\"]\ndeny = [\"b\", \"c\"]\n",
    )
    .expect("config");
    let copy = cfg.clone();
    assert!(copy.sandbox);
    assert_eq!(copy.accept_language, "pl-PL");
    assert_eq!(copy.user_agent, None);
    let filters = copy.tools.expect("filters");
    assert_eq!(filters.allow, vec!["a"]);
    assert_eq!(filters.deny, vec!["b", "c"]);
    let flags = CliOverrides {
        sandbox: Some(true),
        user_agent: Some("ua".to_owned()),
        schema_url: None,
        schema_file: Some("f".to_owned()),
        config: Some("c".to_owned()),
    };
    let copy = flags.clone();
    assert_eq!(copy.sandbox, Some(true));
    assert_eq!(copy.user_agent.as_deref(), Some("ua"));
    assert_eq!(copy.schema_url, None);
    assert_eq!(copy.schema_file.as_deref(), Some("f"));
    assert_eq!(copy.config.as_deref(), Some("c"));
}

// ── User-Agent ──

#[test]
fn validate_user_agent_accepts_documented_example() {
    let ua = "TestApplication/1.1.0 (+https://firma.com/TestApplication-info)";
    assert!(
        validate_user_agent(ua).is_ok(),
        "documented example must pass"
    );
}

#[test]
fn validate_user_agent_accepts_default() {
    assert!(
        validate_user_agent(DEFAULT_USER_AGENT).is_ok(),
        "the compile-time default UA must always be valid"
    );
}

#[test]
fn validate_user_agent_accepts_semver_prerelease() {
    assert!(validate_user_agent("App/0.1.0-rc.1 (+https://x.com)").is_ok());
}

#[test]
fn validate_user_agent_trims_surrounding_whitespace() {
    assert!(
        validate_user_agent("  App/1.0.0 (+https://x.com)  ").is_ok(),
        "surrounding whitespace must be trimmed before validation"
    );
}

#[test]
fn validate_user_agent_rejects_missing_plus_before_parens() {
    assert!(validate_user_agent("App/1.0.0 (https://x.com)").is_err());
}

#[test]
fn validate_user_agent_rejects_missing_parens() {
    assert!(validate_user_agent("App/1.0.0 +https://x.com").is_err());
}

#[test]
fn validate_user_agent_rejects_missing_url_entirely() {
    assert!(validate_user_agent("App/1.0.0").is_err());
}

#[test]
fn validate_user_agent_rejects_bad_semver() {
    assert!(validate_user_agent("App/1.0 (+https://x.com)").is_err());
    assert!(validate_user_agent("App/latest (+https://x.com)").is_err());
    assert!(validate_user_agent("App/1.0.0.0 (+https://x.com)").is_err());
    assert!(validate_user_agent("App/1..0 (+https://x.com)").is_err());
}

#[test]
fn validate_user_agent_rejects_empty_name() {
    assert!(validate_user_agent("/1.0.0 (+https://x.com)").is_err());
}

#[test]
fn validate_user_agent_rejects_missing_url_scheme() {
    assert!(validate_user_agent("App/1.0.0 (+ftp://x.com)").is_err());
    assert!(validate_user_agent("App/1.0.0 (+x.com)").is_err());
}

#[test]
fn validate_user_agent_rejects_empty_url_after_scheme() {
    assert!(validate_user_agent("App/1.0.0 (+https://)").is_err());
}

#[test]
fn validate_user_agent_rejects_slash_in_name() {
    assert!(validate_user_agent("My/App/1.0.0 (+https://x.com)").is_err());
}

#[test]
fn validate_user_agent_rejects_paren_in_name() {
    assert!(validate_user_agent("Ap(p/1.0.0 (+https://x.com)").is_err());
}

#[test]
fn validate_user_agent_rejects_non_ascii_anywhere() {
    assert!(validate_user_agent("Ąpp/1.0.0 (+https://x.com)").is_err());
    assert!(validate_user_agent("App/1.0.0 (+https://ą.com)").is_err());
    assert!(validate_user_agent("App/1.0.0\t(+https://x.com)").is_err());
    assert!(validate_user_agent("App/1.\x000 (+https://x.com)").is_err());
    assert!(validate_user_agent("My App/1.0.0 (+https://x.com)").is_err());
    assert!(validate_user_agent("App/1.0.0  (+https://x.com)").is_err());
}

#[test]
fn validate_user_agent_rejects_overlong_name() {
    let long_name = "a".repeat(65);
    assert!(validate_user_agent(&format!("{long_name}/1.0.0 (+https://x.com)")).is_err());
    let ok_name = "a".repeat(64);
    assert!(validate_user_agent(&format!("{ok_name}/1.0.0 (+https://x.com)")).is_ok());
}

#[test]
fn validate_user_agent_error_message_contains_doc_link() {
    let err = validate_user_agent("nope").expect_err("must be rejected");
    let msg = err.message();
    assert!(
        msg.contains("https://apps.developer.allegro.pl/user-agent"),
        "error must link the UA docs, got: {msg}"
    );
    assert!(
        msg.contains("nope"),
        "error must include the offending value, got: {msg}"
    );
}

#[test]
fn user_agent_faults_are_told_apart() {
    let cases = [
        ("", "User-Agent must not be empty"),
        (
            "App/1.0.0",
            "missing ` (+` before the documentation URL — the format is `AppName/Version (+URL)`",
        ),
        (
            "App/1.0.0 (+https://x.com",
            "must end with `)` closing the documentation URL",
        ),
        (
            "App (+x)",
            "missing `/` between the app name and the version",
        ),
        (
            "App (+https://x.com)",
            "app name must not contain spaces, parentheses, or `+` (first ` (+` found before the version)",
        ),
        (
            "/1.0.0 (+https://x.com)",
            "app name must be 1..=64 characters, got an empty name",
        ),
        (
            "Ap+p/1.0.0 (+https://x.com)",
            "app name must be visible ASCII without the structural breakers `/ ( ) +`",
        ),
        (
            "App/1 (+https://x.com)",
            "version must be semver MAJOR.MINOR.PATCH (e.g. 1.1.0, 0.1.0-rc.1)",
        ),
        (
            "App/1.0.0 (+x.com)",
            "documentation URL must start with `https://` or `http://`",
        ),
        (
            "App/1.0.0 (+http://)",
            "documentation URL must not be empty after the scheme",
        ),
        (
            "App/1.0.0 (+http://x y)",
            "must contain only visible ASCII characters — control characters, non-ASCII, and extra spaces are rejected anywhere in the string",
        ),
    ];
    for (ua, why) in cases {
        match validate_user_agent(ua) {
            Err(ConfigError::InvalidUserAgent { value, reason }) => {
                assert_eq!(value, ua);
                assert_eq!(reason, why, "for {ua:?}");
            }
            other => panic!("expected InvalidUserAgent for {ua:?}, got: {other:?}"),
        }
    }
    let long = "a".repeat(65);
    match validate_user_agent(&format!("{long}/1.0.0 (+https://x.com)")) {
        Err(ConfigError::InvalidUserAgent { reason, .. }) => {
            assert_eq!(reason, "app name must be 1..=64 characters");
        }
        other => panic!("expected InvalidUserAgent, got: {other:?}"),
    }
}

#[test]
fn is_valid_semver_matrix() {
    assert!(is_valid_semver("1.1.0"));
    assert!(is_valid_semver("0.1.0"));
    assert!(is_valid_semver("12.34.56"));
    assert!(is_valid_semver("1.0.0-rc.1"));
    assert!(!is_valid_semver("1.1"));
    assert!(!is_valid_semver("1.1.0.0"));
    assert!(!is_valid_semver("latest"));
    assert!(!is_valid_semver("1.a.0"));
    assert!(!is_valid_semver("1..0"));
    assert!(!is_valid_semver("1.0."));
    assert!(!is_valid_semver("1.0.0-"));
}

// ── Hosts ──

#[test]
fn host_helpers_prod_pair() {
    assert_eq!(api_base_url(false), "https://api.allegro.pl");
    assert_eq!(auth_base_url(false), "https://allegro.pl");
}

#[test]
fn host_helpers_sandbox_pair() {
    assert_eq!(api_base_url(true), "https://api.allegrosandbox.pl");
    assert_eq!(auth_base_url(true), "https://allegro.pl.allegrosandbox.pl");
}

#[test]
fn host_helpers_swap_both_hosts_with_sandbox_flag() {
    assert_eq!(api_base_url(false), "https://api.allegro.pl");
    assert_eq!(auth_base_url(false), "https://allegro.pl");
    assert_eq!(api_base_url(true), "https://api.allegrosandbox.pl");
    assert_eq!(auth_base_url(true), "https://allegro.pl.allegrosandbox.pl");
}

// ── The file ──

#[test]
fn from_toml_str_full_file_parses_all_keys() {
    let cfg = Config::from_toml_str(
        "sandbox = true\n\
         user_agent = \"MyApp/1.2.3 (+https://example.com/app)\"\n\
         accept_language = \"en-US\"\n\
         schema_url = \"https://example.com/schema.yaml\"\n\
         auth_flow = \"client_credentials\"\n\
         scopes = [\"allegro:api:sale:offers:read\"]\n\
         [tools]\n\
         allow = [\"allegro_get\"]\n\
         deny = [\"allegro_delete\"]\n",
    )
    .expect("full file must parse");
    assert!(cfg.sandbox);
    assert_eq!(
        cfg.user_agent.as_deref(),
        Some("MyApp/1.2.3 (+https://example.com/app)")
    );
    assert_eq!(cfg.accept_language, "en-US");
    assert_eq!(
        cfg.schema_url.as_deref(),
        Some("https://example.com/schema.yaml")
    );
    assert_eq!(cfg.auth_flow, AuthFlow::ClientCredentials);
    assert_eq!(cfg.scopes, vec!["allegro:api:sale:offers:read"]);
    let tools = cfg.tools.expect("tools section must parse");
    assert_eq!(tools.allow, vec!["allegro_get"]);
    assert_eq!(tools.deny, vec!["allegro_delete"]);
}

#[test]
fn from_toml_str_partial_file_sandbox_only() {
    let cfg = Config::from_toml_str("sandbox = true\n").expect("partial file must parse");
    assert!(cfg.sandbox);
    assert_eq!(
        cfg.accept_language, "pl-PL",
        "unset keys fall back to defaults"
    );
    assert_eq!(cfg.user_agent, None);
}

#[test]
fn from_toml_str_partial_file_user_agent_only() {
    let cfg = Config::from_toml_str("user_agent = \"App/1.0.0 (+https://x.com)\"\n")
        .expect("partial file must parse");
    assert_eq!(
        cfg.user_agent.as_deref(),
        Some("App/1.0.0 (+https://x.com)")
    );
    assert!(!cfg.sandbox);
}

#[test]
fn from_toml_str_empty_input_gives_defaults() {
    let cfg = Config::from_toml_str("").expect("empty input must parse as defaults");
    assert_eq!(cfg.accept_language, "pl-PL");
    assert_eq!(cfg.auth_flow, AuthFlow::ClientCredentials);
    assert!(cfg.scopes.is_empty());
    assert!(cfg.tools.is_none());
}

#[test]
fn from_toml_str_unknown_key_is_hard_error() {
    let err =
        Config::from_toml_str("useragent = \"x\"\n").expect_err("typo'd key must be rejected");
    assert!(
        matches!(&err, ConfigError::UnknownKey { key, .. } if key == "useragent"),
        "expected UnknownKey(useragent), got: {err:?}"
    );
}

#[test]
fn from_toml_str_unknown_nested_key_is_hard_error() {
    let err = Config::from_toml_str("[tools]\nallowed = [\"x\"]\n")
        .expect_err("typo'd nested key must be rejected");
    assert!(
        matches!(&err, ConfigError::UnknownKey { key, .. } if key == "allowed"),
        "expected UnknownKey(allowed), got: {err:?}"
    );
}

#[test]
fn from_toml_str_malformed_input_is_toml_error() {
    let err = Config::from_toml_str("sandbox = \n").expect_err("malformed TOML must fail");
    assert!(matches!(err, ConfigError::Toml { .. }), "got: {err:?}");
}

#[test]
fn from_toml_str_client_credentials_flow_parses() {
    let cfg = Config::from_toml_str("auth_flow = \"client_credentials\"\n")
        .expect("client_credentials must parse");
    assert_eq!(cfg.auth_flow, AuthFlow::ClientCredentials);
}

#[test]
fn from_toml_str_unknown_auth_flow_errors_listing_supported_values() {
    let err = Config::from_toml_str("auth_flow = \"device_code\"\n")
        .expect_err("unknown flow must be rejected");
    let msg = err.message();
    assert!(
        msg.contains("client_credentials"),
        "error must list the supported value(s), got: {msg}"
    );
}

#[test]
fn from_toml_str_token_path_parses() {
    let cfg = Config::from_toml_str("token_path = \"/tmp/tokens.json\"\n")
        .expect("token_path must parse");
    assert_eq!(cfg.token_path.as_deref(), Some("/tmp/tokens.json"));
}

#[test]
fn the_first_fault_of_a_file_is_reported() {
    let err = Config::from_toml_str_at("sandbox = 1\nusragent = \"x\"\n", "/etc/a.toml")
        .expect_err("both lines are wrong");
    match err {
        ConfigError::Toml { path, message } => {
            assert_eq!(path, "/etc/a.toml");
            assert_eq!(message, "invalid value for key `sandbox`");
        }
        other => panic!("expected Toml, got: {other:?}"),
    }
    let err = Config::from_toml_str("usragent = \"x\"\nsandbox = 1\n")
        .expect_err("both lines are wrong");
    assert!(matches!(&err, ConfigError::UnknownKey { key, .. } if key == "usragent"));
}

#[test]
fn a_tools_section_needs_both_lists() {
    let err = Config::from_toml_str("[tools]\nallow = [\"x\"]\n").expect_err("deny is missing");
    assert!(matches!(&err, ConfigError::Toml { message, .. } if message == "missing field `deny`"));
    let err = Config::from_toml_str("[tools]\ndeny = [\"x\"]\n").expect_err("allow is missing");
    assert!(
        matches!(&err, ConfigError::Toml { message, .. } if message == "missing field `allow`")
    );
    let err = Config::from_toml_str("[tools]\nallow = [1]\ndeny = []\n").expect_err("no text");
    assert!(matches!(err, ConfigError::Toml { .. }));
    let cfg = Config::from_toml_str("tools = [[\"a\"], [\"b\"]]\n").expect("lists by position");
    let tools = cfg.tools.expect("tools");
    assert_eq!(tools.allow, vec!["a"]);
    assert_eq!(tools.deny, vec!["b"]);
}

#[test]
fn a_table_is_read_key_by_key() {
    let table = Json::Object(vec![
        ("sandbox".to_owned(), Json::Bool(true)),
        ("schema_file".to_owned(), Json::text("/a.yaml")),
        (
            "resilience".to_owned(),
            Json::Object(vec![(
                "rate_limit_per_minute".to_owned(),
                Json::number(7),
            )]),
        ),
    ]);
    let cfg = config_from_table(Ok(table), "p").expect("valid table");
    assert!(cfg.sandbox);
    assert_eq!(cfg.schema_file.as_deref(), Some("/a.yaml"));
    assert_eq!(cfg.rate_limit_rpm(), 7);
    let err = config_from_table(Err("bad".to_owned()), "p").expect_err("no table");
    assert_eq!(err.message(), "failed to parse config file p: bad");
    let err = config_from_table(Ok(Json::Null), "p").expect_err("no table");
    assert!(matches!(&err, ConfigError::Toml { message, .. } if message == "expected a table"));
}

#[test]
fn a_rate_limit_must_be_a_number_that_fits() {
    for bad in ["-1", "4294967296", "\"100\"", "1.5"] {
        let text = format!("[resilience]\nrate_limit_per_minute = {bad}\n");
        let err = Config::from_toml_str(&text).expect_err("not a rate limit");
        assert!(matches!(err, ConfigError::Toml { .. }), "{bad}: {err:?}");
    }
    let err = Config::from_toml_str("[resilience]\nburst = 1\n").expect_err("unknown");
    assert!(matches!(&err, ConfigError::UnknownKey { key, .. } if key == "burst"));
}

// ── Which file ──

#[test]
fn discover_path_cli_path_wins_over_everything() {
    let found = Config::discover_path(
        Some("/explicit/path.toml"),
        Some("/nonexistent-from-env.toml"),
        true,
        Some("/home/u/.config/allegro-mcp/allegro-mcp.toml"),
    );
    assert_eq!(found.as_deref(), Some("/explicit/path.toml"));
}

#[test]
fn discover_path_env_var_wins_over_cwd_file() {
    let found = Config::discover_path(None, Some("/tmp/from-env.toml"), true, None);
    assert_eq!(found.as_deref(), Some("/tmp/from-env.toml"));
    let found = Config::discover_path(None, Some("   "), true, None);
    assert_eq!(
        found.as_deref(),
        Some("allegro-mcp.toml"),
        "a blank variable does not count"
    );
}

#[test]
fn discover_path_finds_cwd_file() {
    let found = Config::discover_path(None, None, true, None);
    assert_eq!(found.as_deref(), Some("allegro-mcp.toml"));
}

#[test]
fn discover_path_returns_none_when_nothing_exists() {
    let found = Config::discover_path(None, None, false, None);
    assert_eq!(found, None, "no explicit source and no files → None");
}

#[test]
fn discover_path_ends_at_the_platform_file() {
    let platform = Config::platform_path("/home/u/.config");
    assert_eq!(platform, "/home/u/.config/allegro-mcp/allegro-mcp.toml");
    let found = Config::discover_path(None, None, false, Some(&platform));
    assert_eq!(found, Some(platform));
}

// ── The environment ──

fn env_sandbox(v: &str) -> EnvOverrides {
    EnvOverrides {
        sandbox: Some(v.to_owned()),
        ..EnvOverrides::default()
    }
}

#[test]
fn apply_env_sandbox_true_variants() {
    for v in ["true", "1", "yes", "TRUE", "Yes"] {
        let mut cfg = Config::default();
        Config::apply_env(&mut cfg, &env_sandbox(v)).expect("valid bool must apply");
        assert!(cfg.sandbox, "ALLEGRO_MCP_SANDBOX={v} must set sandbox=true");
    }
}

#[test]
fn apply_env_sandbox_false_variants() {
    for v in ["false", "0", "no", "FALSE", "No"] {
        let mut cfg = Config {
            sandbox: true,
            ..Config::default()
        };
        Config::apply_env(&mut cfg, &env_sandbox(v)).expect("valid bool must apply");
        assert!(
            !cfg.sandbox,
            "ALLEGRO_MCP_SANDBOX={v} must set sandbox=false"
        );
    }
}

#[test]
fn apply_env_sandbox_maybe_is_invalid_env() {
    let mut cfg = Config::default();
    let err = Config::apply_env(&mut cfg, &env_sandbox("maybe"))
        .expect_err("'maybe' must be rejected");
    assert!(
        matches!(&err, ConfigError::InvalidEnv { var, value } if *var == "ALLEGRO_MCP_SANDBOX" && value == "maybe"),
        "expected InvalidEnv, got: {err:?}"
    );
    assert!(!cfg.sandbox);
}

#[test]
fn apply_env_overrides_user_agent_and_language() {
    let mut cfg = Config {
        user_agent: Some("FileApp/1.0.0 (+https://file.com)".to_owned()),
        ..Config::default()
    };
    let env = EnvOverrides {
        user_agent: Some("EnvApp/2.0.0 (+https://env.com)".to_owned()),
        accept_language: Some("en-US".to_owned()),
        ..EnvOverrides::default()
    };
    Config::apply_env(&mut cfg, &env).expect("apply_env");
    assert_eq!(
        cfg.user_agent.as_deref(),
        Some("EnvApp/2.0.0 (+https://env.com)")
    );
    assert_eq!(cfg.accept_language, "en-US");
}

#[test]
fn apply_env_url_shadows_config_schema_file() {
    let mut cfg = Config {
        schema_file: Some("/from/file.yaml".to_owned()),
        ..Config::default()
    };
    let env = EnvOverrides {
        schema_url: Some("https://env.example/schema.yaml".to_owned()),
        ..EnvOverrides::default()
    };
    Config::apply_env(&mut cfg, &env).expect("apply_env");
    assert!(cfg.schema_file.is_none(), "env url must shadow config file");
    assert_eq!(
        cfg.schema_url.as_deref(),
        Some("https://env.example/schema.yaml")
    );
}

#[test]
fn apply_env_file_shadows_config_schema_url() {
    let mut cfg = Config {
        schema_url: Some("https://file.example/schema.yaml".to_owned()),
        ..Config::default()
    };
    let env = EnvOverrides {
        schema_file: Some("/from/env.yaml".to_owned()),
        ..EnvOverrides::default()
    };
    Config::apply_env(&mut cfg, &env).expect("apply_env");
    assert!(cfg.schema_url.is_none(), "env file must shadow config url");
    assert_eq!(cfg.schema_file.as_deref(), Some("/from/env.yaml"));
}

#[test]
fn apply_env_file_beats_url_within_env_layer() {
    let mut cfg = Config::default();
    let env = EnvOverrides {
        schema_url: Some("https://env.example/schema.yaml".to_owned()),
        schema_file: Some("/from/env.yaml".to_owned()),
        ..EnvOverrides::default()
    };
    Config::apply_env(&mut cfg, &env).expect("apply_env");
    assert!(cfg.schema_url.is_none(), "env file > env url");
    assert_eq!(cfg.schema_file.as_deref(), Some("/from/env.yaml"));
}

#[test]
fn apply_env_selects_the_flow_and_the_token_path() {
    let mut cfg = Config::default();
    let env = EnvOverrides {
        auth_flow: Some(" device_code ".to_owned()),
        token_path: Some("/data/tokens.json".to_owned()),
        ..EnvOverrides::default()
    };
    Config::apply_env(&mut cfg, &env).expect("apply_env");
    assert_eq!(cfg.auth_flow, AuthFlow::DeviceCode);
    assert_eq!(cfg.token_path.as_deref(), Some("/data/tokens.json"));
    let env = EnvOverrides {
        auth_flow: Some("password".to_owned()),
        sandbox: Some("true".to_owned()),
        ..EnvOverrides::default()
    };
    let err = Config::apply_env(&mut cfg, &env).expect_err("no such flow");
    assert_eq!(
        err.message(),
        "invalid value for environment variable ALLEGRO_MCP_AUTH_FLOW: \"password\" (expected one of client_credentials or device_code)"
    );
    assert!(!cfg.sandbox, "nothing is changed where a value is refused");
}

#[test]
fn parse_env_bool_takes_only_its_words() {
    assert!(matches!(parse_env_bool("V", " YES "), Ok(true)));
    assert!(matches!(parse_env_bool("V", "0"), Ok(false)));
    let err = parse_env_bool("V", "on").expect_err("not a truth value");
    assert_eq!(
        err.message(),
        "invalid value for environment variable V: \"on\" (expected one of true/1/yes or false/0/no)"
    );
}

// ── The command line ──

#[test]
fn apply_cli_overrides_env_and_file() {
    let mut cfg = Config {
        sandbox: true,
        user_agent: Some("FileApp/1.0.0 (+https://file.com)".to_owned()),
        ..Config::default()
    };
    cfg.sandbox = false;
    Config::apply_cli(
        &mut cfg,
        &CliOverrides {
            sandbox: Some(true),
            user_agent: Some("CliApp/1.0.0 (+https://cli.com)".to_owned()),
            ..CliOverrides::default()
        },
    );
    assert!(cfg.sandbox, "CLI --sandbox must win");
    assert_eq!(
        cfg.user_agent.as_deref(),
        Some("CliApp/1.0.0 (+https://cli.com)")
    );
}

#[test]
fn apply_cli_none_leaves_values_untouched() {
    let mut cfg = Config {
        sandbox: true,
        user_agent: Some("EnvApp/1.0.0 (+https://env.com)".to_owned()),
        ..Config::default()
    };
    Config::apply_cli(&mut cfg, &CliOverrides::default());
    assert!(
        cfg.sandbox,
        "absent flags must not override env/file values"
    );
    assert_eq!(
        cfg.user_agent.as_deref(),
        Some("EnvApp/1.0.0 (+https://env.com)")
    );
}

#[test]
fn apply_cli_url_shadows_lower_layers() {
    let mut cfg = Config {
        schema_file: Some("/from/env-or-file.yaml".to_owned()),
        ..Config::default()
    };
    Config::apply_cli(
        &mut cfg,
        &CliOverrides {
            schema_url: Some("https://cli.example/schema.yaml".to_owned()),
            ..CliOverrides::default()
        },
    );
    assert!(
        cfg.schema_file.is_none(),
        "CLI url must shadow lower-layer file"
    );
    assert_eq!(
        cfg.schema_url.as_deref(),
        Some("https://cli.example/schema.yaml")
    );
}

#[test]
fn apply_cli_file_beats_cli_url() {
    let mut cfg = Config::default();
    Config::apply_cli(
        &mut cfg,
        &CliOverrides {
            schema_url: Some("https://cli.example/schema.yaml".to_owned()),
            schema_file: Some("/from/cli.yaml".to_owned()),
            ..CliOverrides::default()
        },
    );
    assert!(cfg.schema_url.is_none(), "CLI file > CLI url");
    assert_eq!(cfg.schema_file.as_deref(), Some("/from/cli.yaml"));
}

// ── Validation ──

#[test]
fn validate_accepts_default_config() {
    assert!(Config::default().validate().is_ok());
}

#[test]
fn validate_rejects_invalid_user_agent() {
    let cfg = Config {
        user_agent: Some("not a valid ua".to_owned()),
        ..Config::default()
    };
    let err = cfg.validate().expect_err("invalid UA must fail validation");
    assert!(matches!(err, ConfigError::InvalidUserAgent { .. }));
}

#[test]
fn validate_accepts_valid_custom_user_agent() {
    let cfg = Config {
        user_agent: Some("MyApp/2.0.0 (+https://example.com/app)".to_owned()),
        ..Config::default()
    };
    assert!(cfg.validate().is_ok());
}

#[test]
fn validate_rejects_empty_scope_entry() {
    let cfg = Config {
        scopes: vec!["allegro:api:read".to_owned(), String::new()],
        ..Config::default()
    };
    let err = cfg.validate().expect_err("empty scope must fail");
    assert!(
        matches!(&err, ConfigError::InvalidScopes { value, .. } if value.is_empty()),
        "expected InvalidScopes, got: {err:?}"
    );
}

#[test]
fn validate_rejects_scope_with_internal_whitespace() {
    let cfg = Config {
        scopes: vec!["allegro api read".to_owned()],
        ..Config::default()
    };
    let err = cfg.validate().expect_err("whitespace scope must fail");
    assert!(
        matches!(&err, ConfigError::InvalidScopes { value, reason } if value == "allegro api read" && !reason.is_empty()),
        "expected InvalidScopes with reason, got: {err:?}"
    );
    assert_eq!(
        err.message(),
        "invalid scope entry \"allegro api read\": scope entries must not contain whitespace (they are space-joined into one OAuth2 parameter)"
    );
}

#[test]
fn validate_accepts_clean_scopes() {
    let cfg = Config {
        scopes: vec![
            "allegro:api:sale:offers:read".to_owned(),
            "allegro:api:offers:write".to_owned(),
        ],
        ..Config::default()
    };
    assert!(cfg.validate().is_ok());
}

// ── All layers ──

fn file(path: &str, contents: &str) -> Option<ConfigFile> {
    Some(ConfigFile {
        path: path.to_owned(),
        contents: Ok(contents.to_owned()),
    })
}

fn load(contents: &str, env: &EnvOverrides, cli: &CliOverrides) -> Result<Config, ConfigError> {
    Config::load(cli, env, &file("/tmp/allegro-mcp.toml", contents))
}

fn load_file(contents: &str) -> Result<Config, ConfigError> {
    load(contents, &EnvOverrides::default(), &CliOverrides::default())
}

#[test]
fn load_explicit_config_file_applies_all_keys() {
    let cfg = load_file(
        "sandbox = true\n\
         user_agent = \"MyApp/1.2.3 (+https://example.com/app)\"\n\
         accept_language = \"en-US\"\n\
         schema_url = \"https://example.com/schema.yaml\"\n\
         scopes = [\"allegro:api:read\"]\n",
    )
    .expect("load must succeed");
    assert!(cfg.sandbox);
    assert_eq!(
        cfg.user_agent.as_deref(),
        Some("MyApp/1.2.3 (+https://example.com/app)")
    );
    assert_eq!(cfg.accept_language, "en-US");
    assert_eq!(
        cfg.schema_url.as_deref(),
        Some("https://example.com/schema.yaml")
    );
    assert_eq!(cfg.scopes, vec!["allegro:api:read"]);
}

#[test]
fn load_partial_config_file_uses_defaults_for_missing_keys() {
    let cfg = load_file("sandbox = true\n").expect("partial file must load");
    assert!(cfg.sandbox);
    assert_eq!(cfg.user_agent, None, "no UA override → default UA in main");
    assert_eq!(cfg.accept_language, "pl-PL");
    assert!(cfg.scopes.is_empty());
}

#[test]
fn load_missing_explicit_config_file_is_io_error() {
    let missing = Some(ConfigFile {
        path: "/tmp/does-not-exist.toml".to_owned(),
        contents: Err("No such file or directory (os error 2)".to_owned()),
    });
    let err = Config::load(&CliOverrides::default(), &EnvOverrides::default(), &missing)
        .expect_err("explicit --config must not silently fall back");
    assert!(matches!(err, ConfigError::Io(_)), "got: {err:?}");
    assert_eq!(
        err.message(),
        "config file I/O error: No such file or directory (os error 2)"
    );
}

#[test]
fn load_malformed_config_file_names_the_path() {
    let err = load_file("sandbox = \n").expect_err("malformed TOML must fail");
    match &err {
        ConfigError::Toml { path: p, .. } => assert_eq!(p, "/tmp/allegro-mcp.toml"),
        other => panic!("expected Toml error naming the path, got: {other:?}"),
    }
}

#[test]
fn load_unknown_key_names_the_path_and_key() {
    let err = load_file("useragent = \"typo\"\n").expect_err("typo'd key must fail");
    match &err {
        ConfigError::UnknownKey { path: p, key } => {
            assert_eq!(p, "/tmp/allegro-mcp.toml");
            assert_eq!(key, "useragent");
        }
        other => panic!("expected UnknownKey, got: {other:?}"),
    }
    assert_eq!(
        err.message(),
        "unknown key `useragent` in config file /tmp/allegro-mcp.toml — every key must match the schema"
    );
}

#[test]
fn load_invalid_user_agent_aborts_with_doc_link() {
    let err = load_file("user_agent = \"not a valid ua\"\n").expect_err("invalid UA must fail load");
    let msg = err.message();
    assert!(matches!(err, ConfigError::InvalidUserAgent { .. }));
    assert!(
        msg.contains("https://apps.developer.allegro.pl/user-agent"),
        "error must link the UA docs, got: {msg}"
    );
    assert!(
        msg.contains("not a valid ua"),
        "error must include the offending value, got: {msg}"
    );
}

#[test]
fn load_invalid_scope_entry_aborts() {
    let err = load_file("scopes = [\"allegro api read\"]\n").expect_err("whitespace scope must fail");
    assert!(
        matches!(err, ConfigError::InvalidScopes { .. }),
        "got: {err:?}"
    );
}

#[test]
fn load_without_any_config_source_gives_defaults() {
    let cfg = Config::load(&CliOverrides::default(), &EnvOverrides::default(), &None)
        .expect("defaults must load");
    assert!(!cfg.sandbox);
    assert_eq!(cfg.user_agent, None);
    assert_eq!(cfg.accept_language, "pl-PL");
    assert_eq!(cfg.auth_flow, AuthFlow::ClientCredentials);
    assert!(cfg.schema_file.is_none() && cfg.schema_url.is_none());
}

#[test]
fn load_env_overrides_config_file() {
    let env = EnvOverrides {
        sandbox: Some("true".to_owned()),
        user_agent: Some("EnvApp/2.0.0 (+https://env.example/app)".to_owned()),
        accept_language: Some("pl-PL".to_owned()),
        ..EnvOverrides::default()
    };
    let cfg = load(
        "sandbox = false\n\
         user_agent = \"FileApp/1.0.0 (+https://file.example/app)\"\n\
         accept_language = \"en-US\"\n",
        &env,
        &CliOverrides::default(),
    )
    .expect("load");
    assert!(cfg.sandbox, "env sandbox=true must beat file's false");
    assert_eq!(
        cfg.user_agent.as_deref(),
        Some("EnvApp/2.0.0 (+https://env.example/app)"),
        "env UA must beat the file's UA"
    );
    assert_eq!(cfg.accept_language, "pl-PL");
}

#[test]
fn load_invalid_sandbox_env_value_aborts() {
    let err = load("sandbox = true\n", &env_sandbox("maybe"), &CliOverrides::default())
        .expect_err("'maybe' must be a hard error");
    assert!(
        matches!(err, ConfigError::InvalidEnv { .. }),
        "got: {err:?}"
    );
}

#[test]
fn load_user_agent_env_is_trimmed() {
    let env = EnvOverrides {
        user_agent: Some("  EnvApp/3.0.0 (+https://env.example/app)  ".to_owned()),
        ..EnvOverrides::default()
    };
    let cfg =
        Config::load(&CliOverrides::default(), &env, &None).expect("trimmed UA must load");
    assert_eq!(
        cfg.user_agent.as_deref(),
        Some("EnvApp/3.0.0 (+https://env.example/app)"),
        "UA must be trimmed before validation and use"
    );
}

#[test]
fn load_cli_beats_env_beats_file_for_sandbox_and_ua() {
    let env = EnvOverrides {
        sandbox: Some("true".to_owned()),
        user_agent: Some("EnvApp/2.0.0 (+https://env.example/app)".to_owned()),
        ..EnvOverrides::default()
    };
    let cfg = load(
        "sandbox = false\n\
         user_agent = \"FileApp/1.0.0 (+https://file.example/app)\"\n",
        &env,
        &CliOverrides {
            sandbox: Some(false),
            user_agent: Some("CliApp/9.9.9 (+https://cli.example/app)".to_owned()),
            ..CliOverrides::default()
        },
    )
    .expect("load");
    assert!(
        !cfg.sandbox,
        "CLI --sandbox=false (from overrides) must win"
    );
    assert_eq!(
        cfg.user_agent.as_deref(),
        Some("CliApp/9.9.9 (+https://cli.example/app)")
    );
}

#[test]
fn load_schema_source_resolution_cli_url_beats_config_file() {
    let cfg = load(
        "schema_file = \"/from/config-file.yaml\"\n",
        &EnvOverrides::default(),
        &CliOverrides {
            schema_url: Some("https://cli.example/schema.yaml".to_owned()),
            ..CliOverrides::default()
        },
    )
    .expect("load");
    assert!(
        cfg.schema_file.is_none(),
        "CLI url must shadow the config file's schema_file"
    );
    assert_eq!(
        cfg.schema_url.as_deref(),
        Some("https://cli.example/schema.yaml")
    );
}

#[test]
fn load_schema_source_resolution_env_url_beats_config_file() {
    let env = EnvOverrides {
        schema_url: Some("https://env.example/schema.yaml".to_owned()),
        ..EnvOverrides::default()
    };
    let cfg = load(
        "schema_file = \"/from/config-file.yaml\"\n",
        &env,
        &CliOverrides::default(),
    )
    .expect("load");
    assert!(cfg.schema_file.is_none(), "env url must shadow config file");
    assert_eq!(
        cfg.schema_url.as_deref(),
        Some("https://env.example/schema.yaml")
    );
}

#[test]
fn load_uses_env_discovered_config_file() {
    let path = Config::discover_path(None, Some("/tmp/renamed-config.toml"), false, None)
        .expect("the variable names a file");
    let cfg = Config::load(
        &CliOverrides::default(),
        &EnvOverrides::default(),
        &file(&path, "sandbox = true\naccept_language = \"en-US\"\n"),
    )
    .expect("load");
    assert!(
        cfg.sandbox,
        "settings must come from the env-discovered file"
    );
    assert_eq!(cfg.accept_language, "en-US");
}

#[test]
fn load_resilience_section_parses_rate_limit() {
    let cfg =
        load_file("[resilience]\nrate_limit_per_minute = 100\n").expect("load must succeed");
    assert_eq!(cfg.rate_limit_rpm(), 100);
}

#[test]
fn load_resilience_defaults_to_8000_without_the_section() {
    let cfg = load_file("sandbox = true\n").expect("load must succeed");
    assert_eq!(
        cfg.rate_limit_rpm(),
        8000,
        "soft cap default, under the 9000 hard limit"
    );
}

#[test]
fn load_resilience_invalid_value_aborts() {
    for bad in ["9000", "99999"] {
        let err = load_file(&format!("[resilience]\nrate_limit_per_minute = {bad}\n"))
            .expect_err("values >= 9000 must abort startup");
        assert!(
            matches!(err, ConfigError::InvalidRateLimit { value } if value.to_string() == bad),
            "expected InvalidRateLimit({bad}), got: {err:?}"
        );
    }
    assert!(load_file("[resilience]\nrate_limit_per_minute = 8999\n").is_ok());
}

#[test]
fn load_resilience_zero_disables_the_guard() {
    let cfg =
        load_file("[resilience]\nrate_limit_per_minute = 0\n").expect("0 is explicitly legal");
    assert_eq!(cfg.rate_limit_rpm(), 0, "0 disables the budget guard");
}

#[test]
fn env_override_sets_rate_limit() {
    let env = EnvOverrides {
        rate_limit: Some("250".to_owned()),
        ..EnvOverrides::default()
    };
    let cfg = load(
        "[resilience]\nrate_limit_per_minute = 100\n",
        &env,
        &CliOverrides::default(),
    )
    .expect("load must succeed");
    assert_eq!(
        cfg.rate_limit_rpm(),
        250,
        "env ALLEGRO_MCP_RATE_LIMIT must beat the file value"
    );
}

#[test]
fn env_override_garbage_errors() {
    let env = EnvOverrides {
        rate_limit: Some("fast".to_owned()),
        ..EnvOverrides::default()
    };
    let err = load("sandbox = true\n", &env, &CliOverrides::default())
        .expect_err("non-numeric env values must abort, never silently default");
    assert!(
        matches!(&err, ConfigError::InvalidEnv { var, .. } if *var == "ALLEGRO_MCP_RATE_LIMIT"),
        "expected InvalidEnv(ALLEGRO_MCP_RATE_LIMIT), got: {err:?}"
    );
}

#[test]
fn no_two_layers_mix_their_schema_sources() {
    let env = EnvOverrides {
        schema_file: Some("/from/env.yaml".to_owned()),
        ..EnvOverrides::default()
    };
    let cli = CliOverrides {
        schema_url: Some("https://cli.example/s.yaml".to_owned()),
        ..CliOverrides::default()
    };
    let cfg = load("schema_url = \"https://file.example/s.yaml\"\n", &env, &cli).expect("load");
    assert_eq!(cfg.schema_url.as_deref(), Some("https://cli.example/s.yaml"));
    assert!(cfg.schema_file.is_none());
}

#[test]
fn a_flow_can_be_named_by_a_table() {
    for text in [
        "auth_flow = { client_credentials = {} }\n",
        "auth_flow = { client_credentials = [] }\n",
        "[auth_flow]\nclient_credentials = {}\n",
        "[auth_flow.client_credentials]\n",
    ] {
        let cfg = Config::from_toml_str(text).expect(text);
        assert_eq!(cfg.auth_flow, AuthFlow::ClientCredentials, "{text}");
    }
    for text in [
        "auth_flow = {}\n",
        "auth_flow = { client_credentials = { a = 1 } }\n",
        "auth_flow = { client_credentials = 1 }\n",
        "auth_flow = { client_credentials = {}, device_code = {} }\n",
        "auth_flow = { device_code = {} }\n",
        "auth_flow = []\n",
    ] {
        assert!(Config::from_toml_str(text).is_err(), "{text}");
    }
    let err = Config::from_toml_str("auth_flow = { device_code = 1 }\n").expect_err("unknown");
    assert!(err.message().contains("unknown variant `device_code`"));
}
