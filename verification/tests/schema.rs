//! The OpenAPI document: reading, counting, caching and fetching it.

use allegro_mcp::json::Json;
use allegro_mcp::schema::cache::{
    cache_dir, cache_path, checksum_drifted, detect_drift, read_cached_sha256, sha256_hex,
    sha256_path, write_cache,
};
use allegro_mcp::schema::fetch::{after_attempt, FetchOutcome, FetchStep};
use allegro_mcp::schema::parse::{
    parse_bytes, require_json, require_version_3, OpenApi, NO_JSON,
};
use allegro_mcp::schema::yaml::Yaml;
use allegro_mcp::schema::{
    after_fetch, begin_load, compute_stats, finish_load, AfterFetch, LoadStart, SchemaError,
    SchemaSource,
};
use allegro_mcp::time::Duration;

const MINIMAL: &str = r##"openapi: "3.0.3"
info:
  title: Minimal
  version: "1.0.0"
paths:
  /items:
    get:
      operationId: listItems
      parameters:
        - name: limit
          in: query
          schema:
            type: integer
      responses:
        "200":
          description: OK
  /items/{id}:
    get:
      operationId: getItem
      parameters:
        - name: id
          in: path
          required: true
          schema:
            type: string
      responses:
        "200":
          description: OK
"##;

/// Loads a document that stands in a file.
fn load(contents: &[u8]) -> Result<(OpenApi, Vec<u8>), SchemaError> {
    match begin_load(&SchemaSource::File("doc.yaml".to_owned())) {
        LoadStart::ReadFile(path) => assert_eq!(path, "doc.yaml"),
        other => panic!("expected to read the file, got: {other:?}"),
    }
    finish_load(contents.to_vec())
}

// ── Reading ──

#[test]
fn load_from_file_returns_parsed_api() {
    let (api, raw) = load(MINIMAL.as_bytes()).expect("load failed");
    let version = api.as_json().get("openapi").and_then(|v| v.as_str());
    assert!(version.expect("a version").starts_with("3."));
    assert!(!raw.is_empty());
}

#[test]
fn load_file_returns_raw_bytes_matching_disk() {
    let on_disk = MINIMAL.as_bytes();
    let (_api, raw) = load(on_disk).expect("load failed");
    assert_eq!(
        raw, on_disk,
        "raw bytes from load() must match the file on disk"
    );
}

#[test]
fn not_oas3_returns_error() {
    let result = load(b"openapi: \"2.0\"\ninfo:\n  title: t\n  version: v\npaths: {}\n");
    assert!(matches!(result, Err(SchemaError::NotOas3 { .. })));
}

#[test]
fn load_non_3x_openapi_field_returns_not_oas3_error() {
    let err = load(b"openapi: \"2.0\"\ninfo:\n  title: t\n  version: v\npaths: {}\n")
        .expect_err("non-3.x openapi field should be rejected");
    assert!(
        matches!(err, SchemaError::NotOas3 { .. }),
        "expected SchemaError::NotOas3, got: {err:?}"
    );
    assert_eq!(
        err.message(),
        "Not an OpenAPI 3.x document (found openapi field: \"2.0\")"
    );
}

#[test]
fn only_version_3_is_accepted() {
    let versioned = |v: &str| {
        Ok(OpenApi::from_json(Json::Object(vec![(
            "openapi".to_owned(),
            Json::text(v),
        )])))
    };
    assert!(require_version_3(versioned("3.0.3")).is_ok());
    assert!(require_version_3(versioned("3.1.0")).is_ok());
    for v in ["2.0", "3", "30.1", ""] {
        match require_version_3(versioned(v)) {
            Err(SchemaError::NotOas3 { found }) => assert_eq!(found, v),
            other => panic!("{v}: {other:?}"),
        }
    }
    match require_version_3(Err("bad".to_owned())) {
        Err(SchemaError::Yaml(e)) => assert_eq!(e, "bad"),
        other => panic!("{other:?}"),
    }
}

#[test]
fn what_is_no_document_is_a_yaml_error() {
    for text in ["", ": : :", "swagger: \"2.0\"\n"] {
        let err = parse_bytes(text.as_bytes()).expect_err("no document");
        assert!(
            matches!(err, SchemaError::Yaml(_)),
            "{text}: expected SchemaError::Yaml, got: {err:?}"
        );
        assert!(err.message().starts_with("YAML parse error: "));
    }
}

/// A document with one path, whose description is `item`.
fn document_with(item: &str) -> String {
    format!("openapi: 3.0.3\ninfo:\n  title: t\n  version: 1.0\npaths:\n  /x:\n{item}")
}

#[test]
fn a_key_that_stands_twice_is_a_yaml_error() {
    for item in [
        "    summary: a\n    summary: b\n",
        "    get:\n      operationId: a\n      operationId: b\n      responses: {}\n",
        "    summary: a\n    get:\n      responses: {}\n    get:\n      responses: {}\n",
    ] {
        match parse_bytes(document_with(item).as_bytes()) {
            Err(SchemaError::Yaml(m)) => assert!(m.contains("duplicate"), "{m}"),
            other => panic!("{item}: {other:?}"),
        }
    }
}

#[test]
fn a_number_that_is_not_finite_is_a_yaml_error() {
    for item in [
        "    summary: .nan\n",
        "    summary: .inf\n",
        "    description: -.inf\n",
        "    get:\n      summary: .NaN\n      responses: {}\n",
        "    parameters: [[.inf]]\n",
        "    ? [.nan]\n    : a\n",
        "    x-tagged: !t .nan\n",
    ] {
        match parse_bytes(document_with(item).as_bytes()) {
            Err(SchemaError::Yaml(m)) => assert_eq!(m, NO_JSON),
            other => panic!("{item}: {other:?}"),
        }
    }
}

#[test]
fn a_reserved_key_is_a_yaml_error() {
    for key in ["$serde_json::private::RawValue", "$serde_json::private::Number"] {
        let item = format!("    {key}: \"{{}}\"\n");
        match parse_bytes(document_with(&item).as_bytes()) {
            Err(SchemaError::Yaml(m)) => assert_eq!(m, NO_JSON),
            other => panic!("{key}: {other:?}"),
        }
    }
}

#[test]
fn an_item_of_the_wrong_shape_is_a_yaml_error() {
    for item in ["    summary: 1\n", "    get: []\n", "    - a\n", "    parameters:\n      200: a\n"] {
        assert!(
            matches!(
                parse_bytes(document_with(item).as_bytes()),
                Err(SchemaError::Yaml(_))
            ),
            "{item}"
        );
    }
}

#[test]
fn a_bare_version_number_is_read_as_a_text() {
    let api = parse_bytes(document_with("    summary: \".nan\"\n").as_bytes()).expect("a document");
    let root = api.as_json();
    let version = root.get("info").and_then(|i| i.get("version"));
    assert_eq!(version.and_then(Json::as_str), Some("1.0"));
    let item = root.get("paths").and_then(|p| p.get("/x"));
    let summary = item.and_then(|i| i.get("summary"));
    assert_eq!(summary.and_then(Json::as_str), Some(".nan"));
}

#[test]
fn yaml_that_json_cannot_hold_is_refused() {
    let text = |s: &str| Yaml::Text(s.to_owned());
    let number = |s: &str| Yaml::Number(s.to_owned());
    let entry = |key: Yaml, value: Yaml| Yaml::Table(vec![(key, value)]);
    for good in [
        Yaml::Null,
        Yaml::Bool(true),
        number("1.5"),
        text(".nan"),
        Yaml::List(vec![number("1"), text("a")]),
        entry(text("$ref"), text("#/x")),
        entry(number("200"), text("$serde_json::private::RawValue")),
        Yaml::Tagged("!t".to_owned(), Box::new(number("1"))),
    ] {
        assert!(good.fits_json(), "{good:?}");
        assert!(require_json(Ok(good)).is_ok());
    }
    for bad in [
        number(".nan"),
        Yaml::List(vec![number("1"), number(".inf")]),
        entry(text("a"), number("-.inf")),
        entry(number(".nan"), text("a")),
        entry(text("$serde_json::private::RawValue"), Yaml::Null),
        Yaml::Tagged("!t".to_owned(), Box::new(number(".inf"))),
    ] {
        assert!(!bad.fits_json(), "{bad:?}");
        match require_json(Ok(bad)) {
            Err(SchemaError::Yaml(m)) => assert_eq!(m, NO_JSON),
            other => panic!("{other:?}"),
        }
    }
    match require_json(Err("bad".to_owned())) {
        Err(SchemaError::Yaml(m)) => assert_eq!(m, "bad"),
        other => panic!("{other:?}"),
    }
}

// ── Where it comes from ──

#[test]
fn schema_source_default_is_allegro_url() {
    let source = SchemaSource::default();
    match source {
        SchemaSource::Url(url) => {
            assert_eq!(
                url, "https://developer.allegro.pl/swagger.yaml",
                "default URL must point to the official Allegro swagger endpoint"
            );
        }
        other => panic!("expected SchemaSource::Url, got: {other:?}"),
    }
}

#[test]
fn copies_of_a_source_name_the_same_place() {
    let file = SchemaSource::File("f.yaml".to_owned());
    assert!(matches!(file.clone(), SchemaSource::File(f) if f == "f.yaml"));
    let url = SchemaSource::default();
    assert!(matches!(url.clone(), SchemaSource::Url(u) if u.ends_with("/swagger.yaml")));
}

#[test]
fn load_url_success_writes_cache() {
    match begin_load(&SchemaSource::Url("http://x/doc".to_owned())) {
        LoadStart::Fetch(url) => assert_eq!(url, "http://x/doc"),
        other => panic!("expected a fetch, got: {other:?}"),
    }
    match after_fetch(Ok(MINIMAL.as_bytes().to_vec())) {
        AfterFetch::CacheAndUse(bytes) => {
            assert_eq!(write_cache(&bytes).document, MINIMAL.as_bytes());
            assert!(finish_load(bytes).is_ok());
        }
        other => panic!("expected the bytes to be cached, got: {other:?}"),
    }
}

#[test]
fn load_url_fetch_fails_falls_back_to_cache() {
    let kept = write_cache(MINIMAL.as_bytes());
    assert!(matches!(
        after_fetch(Err(SchemaError::Fetch("refused".to_owned()))),
        AfterFetch::ReadCache
    ));
    assert!(
        finish_load(kept.document).is_ok(),
        "should fall back to cache on fetch failure"
    );
}

// ── Counting ──

#[test]
fn compute_stats_counts_correctly() {
    let (api, raw) = load(MINIMAL.as_bytes()).expect("load failed");
    let stats = compute_stats(&api, &raw);
    assert_eq!(stats.path_count, 2);
    assert_eq!(stats.operation_count, 2);
    assert_eq!(stats.parameter_count, 2);
    assert_eq!(stats.sha256.len(), 64);
}

#[test]
fn compute_stats_zero_paths() {
    let (api, raw) =
        load(b"openapi: \"3.0.3\"\ninfo:\n  title: Empty\n  version: \"0.1.0\"\npaths: {}\n")
            .expect("load failed");
    let stats = compute_stats(&api, &raw);
    assert_eq!(
        stats.path_count, 0,
        "path_count should be 0 for empty paths"
    );
    assert_eq!(
        stats.operation_count, 0,
        "operation_count should be 0 for empty paths"
    );
    assert_eq!(
        stats.parameter_count, 0,
        "parameter_count should be 0 for empty paths"
    );
    assert_eq!(
        stats.sha256.len(),
        64,
        "sha256 should always be 64 hex chars"
    );
}

#[test]
fn compute_stats_sha256_is_deterministic() {
    let (api, raw) = load(MINIMAL.as_bytes()).expect("load failed");
    let stats1 = compute_stats(&api, &raw);
    let stats2 = compute_stats(&api, &raw);
    assert_eq!(
        stats1.sha256, stats2.sha256,
        "sha256 must be deterministic for identical input"
    );
}

#[test]
fn compute_stats_sha256_changes_with_different_content() {
    let (api_a, raw_a) =
        load(b"openapi: \"3.0.3\"\ninfo:\n  title: A\n  version: \"1\"\npaths: {}\n")
            .expect("load a");
    let (api_b, raw_b) =
        load(b"openapi: \"3.0.3\"\ninfo:\n  title: B\n  version: \"2\"\npaths: {}\n")
            .expect("load b");
    let stats_a = compute_stats(&api_a, &raw_a);
    let stats_b = compute_stats(&api_b, &raw_b);
    assert_ne!(
        stats_a.sha256, stats_b.sha256,
        "different file contents must produce different sha256 values"
    );
}

#[test]
fn compute_stats_skips_reference_path_items() {
    let (api, raw) = load(
        b"openapi: \"3.0.3\"\ninfo:\n  title: t\n  version: v\npaths:\n  /ref-path:\n    $ref: \"#/components/pathItems/myPath\"\ncomponents: {}\n",
    )
    .expect("load failed");
    let stats = compute_stats(&api, &raw);
    assert_eq!(stats.path_count, 1);
    assert_eq!(stats.operation_count, 0);
}

// ── The cache ──

#[test]
fn cache_dir_uses_env_var() {
    let dir = cache_dir(Some("/tmp/c"), Some("/home/u/.cache")).expect("cache_dir should succeed");
    assert_eq!(dir, "/tmp/c");
}

#[test]
fn cache_dir_without_env_var() {
    assert_eq!(
        cache_dir(None, Some("/home/u/.cache")).expect("a directory"),
        "/home/u/.cache/allegro-mcp"
    );
    let err = cache_dir(None, None).expect_err("no directory");
    assert!(matches!(err, SchemaError::NoCacheDir));
    assert_eq!(err.message(), "Cache directory unavailable");
    assert!(cache_path(None, None).is_err());
    assert!(sha256_path(None, None).is_err());
}

#[test]
fn cache_path_is_swagger_yaml_inside_cache_dir() {
    let path = cache_path(Some("/tmp/c"), None).expect("cache_path should succeed");
    assert_eq!(path, "/tmp/c/swagger.yaml");
}

#[test]
fn sha256_path_is_sidecar_inside_cache_dir() {
    let path = sha256_path(Some("/tmp/c"), None).expect("sha256_path should succeed");
    assert_eq!(path, "/tmp/c/swagger.yaml.sha256");
}

#[test]
fn read_cached_sha256_returns_empty_when_no_cache_exists() {
    let sha = read_cached_sha256(None);
    assert_eq!(sha, "", "should return empty string when sidecar is absent");
}

#[test]
fn read_cached_sha256_returns_written_hash() {
    let data = b"hello world";
    let written = write_cache(data);
    let sha = read_cached_sha256(Some(written.checksum));
    assert_eq!(sha.len(), 64, "sha256 hex string should be 64 chars");
    let expected = format!("{:x}", <sha2::Sha256 as sha2::Digest>::digest(data));
    assert_eq!(sha, expected);
    assert_eq!(
        sha,
        "b94d27b9934d3e08a52e52d7da7dabfac484efe37a5380ee9088f7ace2efcde9"
    );
}

#[test]
fn cache_write_and_read_roundtrip() {
    let bytes = MINIMAL.as_bytes();
    let written = write_cache(bytes);
    assert_eq!(bytes, written.document);
    assert_eq!(written.checksum.len(), 64, "sha256 should be 64 hex chars");
    assert_eq!(written.checksum, sha256_hex(bytes));
}

#[test]
fn detect_drift_returns_false_when_no_cache_exists() {
    assert!(
        !detect_drift(b"any bytes", &read_cached_sha256(None)),
        "drift should be false when there is no cached sha"
    );
}

#[test]
fn detect_drift_returns_false_when_bytes_match_cache() {
    let data = b"stable schema bytes";
    let cached = write_cache(data).checksum;
    assert!(
        !detect_drift(data, &cached),
        "drift should be false when bytes are identical to cached version"
    );
}

#[test]
fn detect_drift_returns_true_when_bytes_differ_from_cache() {
    let original = b"original schema";
    let updated = b"updated schema - something changed";
    let cached = write_cache(original).checksum;
    assert!(
        detect_drift(updated, &cached),
        "drift should be true when bytes differ from cached version"
    );
    assert!(checksum_drifted("a", "b"));
    assert!(!checksum_drifted("a", ""));
}

// ── Fetching ──

#[test]
fn fetch_bytes_success_returns_body() {
    match after_attempt(0, FetchOutcome::Body(b"hello world".to_vec())) {
        FetchStep::Done(bytes) => assert_eq!(bytes, b"hello world"),
        other => panic!("expected the body, got: {other:?}"),
    }
}

#[test]
fn fetch_bytes_404_returns_fetch_error_immediately() {
    assert!(matches!(
        after_attempt(0, FetchOutcome::Refused("404 Not Found".to_owned())),
        FetchStep::Failed(SchemaError::Fetch(_))
    ));
}

#[test]
fn fetch_bytes_500_returns_fetch_error_immediately() {
    assert!(matches!(
        after_attempt(0, FetchOutcome::Refused("500".to_owned())),
        FetchStep::Failed(SchemaError::Fetch(_))
    ));
}

#[test]
fn a_missing_connection_is_tried_once_more() {
    match after_attempt(0, FetchOutcome::NoConnection("refused".to_owned())) {
        FetchStep::RetryAfter(d) => assert_eq!(d, Duration::from_secs(1)),
        other => panic!("expected another try, got: {other:?}"),
    }
    assert!(matches!(
        after_attempt(1, FetchOutcome::NoConnection("refused".to_owned())),
        FetchStep::Failed(SchemaError::Fetch(_))
    ));
    assert!(matches!(
        after_attempt(0, FetchOutcome::Broken("redirects".to_owned())),
        FetchStep::Failed(SchemaError::Fetch(_))
    ));
}
