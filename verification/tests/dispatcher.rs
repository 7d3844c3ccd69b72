//! Dispatch: the shape of a request, and what the answers make of a call.

use allegro_mcp::auth::AuthError;
use allegro_mcp::config::api_base_url;
use allegro_mcp::dispatcher::{
    allegro_api_base, direct_verdict, percent_encode, plan_request, substitute_path_params,
    truncate_body, Attempts, DirectAction, DirectDispatch, DirectEvent, Dispatch, DispatchAction,
    DispatchEvent, Outcome, Payload, RequestPlan, MAX_BODY_BYTES,
};
use allegro_mcp::json::Json;
use allegro_mcp::resilience::{
    BudgetStep, DispatchError, RateBudget, Resilience, MAX_429_RETRIES, MAX_5XX_RETRIES,
};
use allegro_mcp::time::Duration;
use allegro_mcp::tool_registry::ToolDef;

fn map(pairs: &[(&str, &str)]) -> Vec<(String, Json)> {
    pairs
        .iter()
        .map(|(k, v)| (k.to_string(), Json::text(v)))
        .collect()
}

fn tool(method: &str, path: &str, media: Option<&str>) -> ToolDef {
    ToolDef {
        id: "allegro_get_offers".to_string(),
        name: "allegro_get_offers".to_string(),
        description: "List offers".to_string(),
        input_schema: Json::Object(vec![]),
        method: method.to_string(),
        path: path.to_string(),
        accept_media_type: media.map(|m| m.to_string()),
    }
}

fn get_offers_tool() -> ToolDef {
    tool("get", "/sale/offers", None)
}

// ── Path parameters ──

#[test]
fn test_substitute_path_params_replaces_single_param() {
    let args = map(&[("offerId", "123")]);
    let (path, consumed) = substitute_path_params("/sale/offers/{offerId}", &args);
    assert_eq!(path, "/sale/offers/123");
    assert_eq!(consumed, vec!["offerId".to_string()]);
}

#[test]
fn test_substitute_path_params_no_params() {
    let args = map(&[]);
    let (path, consumed) = substitute_path_params("/sale/offers", &args);
    assert_eq!(path, "/sale/offers");
    assert!(consumed.is_empty());
}

#[test]
fn test_substitute_path_params_missing_param_left_as_literal() {
    let args = map(&[]);
    let (path, consumed) = substitute_path_params("/sale/offers/{offerId}", &args);
    assert_eq!(path, "/sale/offers/{offerId}");
    assert!(consumed.is_empty());
}

#[test]
fn test_substitute_path_params_multiple_params() {
    let args = map(&[("offerId", "123"), ("itemId", "456")]);
    let (path, consumed) = substitute_path_params("/sale/offers/{offerId}/items/{itemId}", &args);
    assert_eq!(path, "/sale/offers/123/items/456");
    assert_eq!(consumed.len(), 2);
    assert!(consumed.contains(&"offerId".to_string()));
    assert!(consumed.contains(&"itemId".to_string()));
}

#[test]
fn test_substitute_path_params_numeric_value() {
    let args = vec![("offerId".to_string(), Json::number(42))];
    let (path, consumed) = substitute_path_params("/sale/offers/{offerId}", &args);
    assert_eq!(path, "/sale/offers/42");
    assert_eq!(consumed, vec!["offerId".to_string()]);
}

#[test]
fn test_substitute_path_params_value_with_special_chars_is_encoded() {
    let args = map(&[("q", "hello world")]);
    let (path, consumed) = substitute_path_params("/search/{q}", &args);
    assert_eq!(path, "/search/hello%20world");
    assert_eq!(consumed, vec!["q".to_string()]);
}

#[test]
fn substitution_copes_with_any_path() {
    let args = vec![
        ("a".to_string(), Json::Bool(true)),
        ("b".to_string(), Json::Null),
        (
            "c".to_string(),
            Json::parse("{\"x\": [1, 2]}").expect("valid JSON"),
        ),
    ];
    let (path, consumed) = substitute_path_params("/{a}/{b}/ż{c}{d", &args);
    assert_eq!(path, "/true/null/ż%7B%22x%22%3A%5B1%2C2%5D%7D{d");
    assert_eq!(consumed, vec!["a", "b", "c"]);
    let (path, consumed) = substitute_path_params("}{a}{a}", &args);
    assert_eq!(path, "}truetrue");
    assert_eq!(consumed, vec!["a", "a"]);
}

// ── Percent-encoding ──

#[test]
fn test_percent_encode_unreserved_chars_unchanged() {
    let input = "abcXYZ0129-._~";
    assert_eq!(percent_encode(input), input);
}

#[test]
fn test_percent_encode_space_becomes_percent_20() {
    assert_eq!(percent_encode("hello world"), "hello%20world");
}

#[test]
fn test_percent_encode_slash_becomes_percent_2f() {
    assert_eq!(percent_encode("a/b"), "a%2Fb");
}

#[test]
fn test_percent_encode_empty_string() {
    assert_eq!(percent_encode(""), "");
}

#[test]
fn test_percent_encode_special_chars() {
    let encoded = percent_encode("{id}");
    assert_eq!(encoded, "%7Bid%7D");
}

#[test]
fn percent_encode_works_on_bytes() {
    assert_eq!(percent_encode("€ż"), "%E2%82%AC%C5%BC");
    assert_eq!(percent_encode("\u{0}\u{7f}"), "%00%7F");
    assert_ne!(percent_encode("%41"), percent_encode("A"));
    assert!(!percent_encode("../?q={x}").contains('/'));
}

// ── The body of an answer ──

#[test]
fn test_truncate_body_at_100kb() {
    let body = "a".repeat(MAX_BODY_BYTES + 100);
    let truncated = truncate_body(body);
    assert!(truncated.ends_with("[truncated]"));
    assert!(truncated.len() <= MAX_BODY_BYTES + "\n[truncated]".len());
}

#[test]
fn test_truncate_body_not_applied_under_100kb() {
    let body = "small body".to_string();
    let truncated = truncate_body(body.clone());
    assert_eq!(truncated, body);
}

#[test]
fn test_truncate_body_at_utf8_boundary() {
    let mut body = "a".repeat(MAX_BODY_BYTES - 1);
    body.push('€');
    body.push_str(&"b".repeat(50));
    let truncated = truncate_body(body);
    assert!(truncated.ends_with("[truncated]"));
    assert!(truncated.is_char_boundary(truncated.len() - "\n[truncated]".len()));
    assert_eq!(truncated.len(), MAX_BODY_BYTES - 1 + "\n[truncated]".len());
}

#[test]
fn test_truncate_body_exactly_at_100kb_is_not_truncated() {
    let body = "x".repeat(MAX_BODY_BYTES);
    let result = truncate_body(body.clone());
    assert_eq!(result, body, "body at exactly 100 KB must not be truncated");
}

// ── Hosts ──

#[test]
fn test_allegro_api_base_production() {
    assert_eq!(allegro_api_base(false), "https://api.allegro.pl");
}

#[test]
fn test_allegro_api_base_sandbox() {
    assert_eq!(allegro_api_base(true), "https://api.allegrosandbox.pl");
}

#[test]
fn test_allegro_api_base_delegates_to_config_helper() {
    assert_eq!(allegro_api_base(false), api_base_url(false));
    assert_eq!(allegro_api_base(true), api_base_url(true));
}

// ── The request ──

#[test]
fn a_get_request_carries_the_rest_as_a_query() {
    let args = vec![
        ("offerId".to_string(), Json::text("1")),
        ("limit".to_string(), Json::number(5)),
        ("phrase".to_string(), Json::text("a b")),
        ("deep".to_string(), Json::parse("[1,null]").expect("JSON")),
    ];
    let plan = plan_request(
        "https://api.allegro.pl",
        &tool("get", "/sale/offers/{offerId}", None),
        args,
    )
    .expect("a GET request");
    assert_eq!(plan.method, "GET");
    assert_eq!(plan.url, "https://api.allegro.pl/sale/offers/1");
    assert_eq!(plan.accept, "application/vnd.allegro.public.v1+json");
    assert_eq!(plan.content_type, None);
    match plan.payload {
        Payload::Query(pairs) => {
            let expected = vec![
                ("limit".to_string(), "5".to_string()),
                ("phrase".to_string(), "a b".to_string()),
                ("deep".to_string(), "[1,null]".to_string()),
            ];
            assert_eq!(pairs, expected);
        }
        other => panic!("expected a query, got: {other:?}"),
    }
}

#[test]
fn test_per_operation_accept_override_sent_for_get() {
    let media = "application/vnd.allegro.beta.v1+json";
    let plan = plan_request("b", &tool("get", "/x", Some(media)), vec![]).expect("plan");
    assert_eq!(plan.accept, media);
    assert_eq!(plan.content_type, None, "a query has no content type");
}

#[test]
fn test_post_carries_versioned_content_type_and_accept_single_header() {
    let media = "application/vnd.allegro.public.v1+json";
    let body = Json::parse("{\"name\":\"n\"}").expect("JSON");
    let args = vec![
        ("body".to_string(), body.clone()),
        ("other".to_string(), Json::number(1)),
    ];
    let plan = plan_request("b", &tool("post", "/x", Some(media)), args).expect("plan");
    assert_eq!(plan.method, "POST");
    assert_eq!(plan.accept, media);
    assert_eq!(plan.content_type.as_deref(), Some(media));
    match plan.payload {
        Payload::Body(j) => assert_eq!(j, body, "the reserved argument is the body"),
        other => panic!("expected a body, got: {other:?}"),
    }
}

#[test]
fn a_request_without_a_body_argument_sends_all_of_them() {
    let args = map(&[("id", "7"), ("name", "n")]);
    let plan = plan_request("b", &tool("put", "/x/{id}", None), args).expect("plan");
    match plan.payload {
        Payload::Body(j) => assert_eq!(j, Json::Object(map(&[("name", "n")]))),
        other => panic!("expected a body, got: {other:?}"),
    }
}

#[test]
fn methods_are_checked() {
    for (method, shown) in [("patch", "PATCH"), ("x-y", "X-Y"), ("ſ", "S")] {
        let plan = plan_request("b", &tool(method, "/x", None), vec![]).expect("a method");
        assert_eq!(plan.method, shown);
    }
    for method in ["", "get post", "ż", "a/b"] {
        let err = plan_request("b", &tool(method, "/x", None), vec![]).expect_err("no method");
        assert_eq!(err, format!("unsupported HTTP method: {method}"));
    }
}

// ── A call ──

fn answer(status: u16, body: &str) -> Outcome {
    Outcome::Answer {
        status,
        retry_after: None,
        trace_id: None,
        body: Ok(body.to_string()),
    }
}

fn traced(status: u16, retry_after: u64, trace_id: &str, body: &str) -> Outcome {
    Outcome::Answer {
        status,
        retry_after: Some(Duration::from_secs(retry_after)),
        trace_id: Some(trace_id.to_string()),
        body: Ok(body.to_string()),
    }
}

struct Run {
    result: Result<String, DispatchError>,
    sends: usize,
    tokens: usize,
    waits: Vec<u32>,
}

/// Runs a call against scripted answers; the last one is given for ever.
fn run(
    plan: Result<RequestPlan, String>,
    answers: &mut dyn FnMut(usize) -> Outcome,
    tokens: &mut dyn FnMut(usize) -> Result<(), AuthError>,
    budget: &mut Option<RateBudget>,
) -> Run {
    let mut call = Dispatch::begin(plan);
    let mut run = Run {
        result: Ok(String::new()),
        sends: 0,
        tokens: 0,
        waits: vec![],
    };
    let mut action = DispatchAction::ResolveToken;
    loop {
        let event = match action {
            DispatchAction::ResolveToken | DispatchAction::RefreshToken => {
                run.tokens += 1;
                DispatchEvent::Token(tokens(run.tokens))
            }
            DispatchAction::AcquireBudget => DispatchEvent::Budget(match budget {
                None => Ok(()),
                Some(b) => match b.acquire(1_700_000_000, Duration::from_secs(3600)) {
                    BudgetStep::Acquired => Ok(()),
                    _ => match b.exceeded() {
                        DispatchError::BudgetExceeded { cap } => Err(cap),
                        other => panic!("unexpected: {other:?}"),
                    },
                },
            }),
            DispatchAction::Send => {
                run.sends += 1;
                DispatchEvent::Sent(answers(run.sends))
            }
            DispatchAction::Wait { retry_no, .. } => {
                run.waits.push(retry_no);
                DispatchEvent::Waited
            }
            DispatchAction::Finish(result) => {
                run.result = result;
                return run;
            }
        };
        action = call.step(event);
    }
}

fn dispatch(tool: &ToolDef, answers: &mut dyn FnMut(usize) -> Outcome) -> Run {
    run(
        plan_request("https://api.allegro.pl", tool, vec![]),
        answers,
        &mut |_| Ok(()),
        &mut None,
    )
}

fn report(run: &Run) -> String {
    match &run.result {
        Ok(body) => panic!("expected an error, got: {body}"),
        Err(e) => e.report(),
    }
}

#[test]
fn dispatch_429_backoff_then_success() {
    let out = dispatch(&get_offers_tool(), &mut |n| {
        if n <= 2 {
            traced(429, 0, "tr-429", "")
        } else {
            answer(200, "[]")
        }
    });
    assert_eq!(out.result.expect("429s must be absorbed by backoff"), "[]");
    assert_eq!(out.sends, 3);
    assert_eq!(out.tokens, 1);
    assert_eq!(out.waits, vec![1, 2]);
}

#[test]
fn dispatch_persistent_429_clean_error_with_trace_id() {
    let out = dispatch(&get_offers_tool(), &mut |_| traced(429, 1, "tr-persist", ""));
    let err = report(&out);
    assert!(err.contains("429"), "got: {err}");
    assert!(err.contains("Trace-Id: tr-persist"), "got: {err}");
    assert!(err.contains("Retry-After:"), "got: {err}");
    assert!(
        err.contains("limiting how often"),
        "actionable user copy must be present, got: {err}"
    );
    assert!(
        err.contains("rate limited after 4 attempts"),
        "the report counts every send, got: {err}"
    );
    assert_eq!(out.sends, 4, "initial send + 3 retries");
}

#[test]
fn dispatch_401_refresh_retry_from_phase5() {
    let out = dispatch(&get_offers_tool(), &mut |n| {
        if n == 1 {
            answer(401, "stale token")
        } else {
            answer(200, "[]")
        }
    });
    assert_eq!(
        out.result
            .expect("single 401 must be recovered by refresh + re-send"),
        "[]"
    );
    assert_eq!(out.sends, 2);
    assert_eq!(out.tokens, 2, "initial fetch + the forced re-resolution");
}

#[test]
fn dispatch_5xx_single_retry_then_success() {
    let out = dispatch(&get_offers_tool(), &mut |n| {
        if n == 1 {
            answer(503, "")
        } else {
            answer(200, "[]")
        }
    });
    assert_eq!(
        out.result.expect("a single 5xx on a GET must be retried"),
        "[]"
    );
    assert_eq!(out.sends, 2);
}

#[test]
fn dispatch_persistent_5xx_clean_error() {
    let out = dispatch(&get_offers_tool(), &mut |_| traced(503, 0, "tr-5xx", ""));
    let err = report(&out);
    assert!(err.contains("503"), "got: {err}");
    assert!(err.contains("Trace-Id: tr-5xx"), "got: {err}");
    assert_eq!(out.sends, 2);
}

#[test]
fn a_post_is_not_replayed_after_a_5xx() {
    let out = dispatch(&tool("post", "/sale/offers", None), &mut |_| {
        answer(500, "boom")
    });
    assert!(matches!(
        out.result,
        Err(DispatchError::Server {
            status: 500,
            retries: 0,
            ..
        })
    ));
    assert_eq!(out.sends, 1);
    let out = dispatch(&tool("post", "/sale/offers", None), &mut |n| {
        if n == 1 {
            answer(429, "")
        } else {
            answer(201, "made")
        }
    });
    assert_eq!(out.result.expect("a 429 is retried for every method"), "made");
}

#[test]
fn dispatch_network_error_unreachable_message() {
    let out = dispatch(&get_offers_tool(), &mut |_| {
        Outcome::NoAnswer("error sending request".to_string())
    });
    let err = report(&out);
    assert!(
        err.contains("Allegro unreachable"),
        "the report header must name the failure mode (ticket wording), got: {err}"
    );
    assert!(
        err.contains("could not be reached"),
        "user-facing reachability copy, got: {err}"
    );
    assert_eq!(out.sends, 1, "network errors are never retried");
}

#[test]
fn a_body_that_cannot_be_read_is_unreachable() {
    let out = dispatch(&get_offers_tool(), &mut |_| Outcome::Answer {
        status: 200,
        retry_after: None,
        trace_id: None,
        body: Err("connection reset".to_string()),
    });
    assert!(matches!(
        out.result,
        Err(DispatchError::Unreachable { source_text }) if source_text == "connection reset"
    ));
}

#[test]
fn dispatch_maps_oauth_error_body() {
    let out = run(
        plan_request("b", &get_offers_tool(), vec![]),
        &mut |_| answer(200, "[]"),
        &mut |_| {
            Err(AuthError::TokenEndpoint {
                status: 400,
                error: Some("invalid_client".to_string()),
                error_description: Some("Client authentication failed".to_string()),
                trace_id: None,
            })
        },
        &mut None,
    );
    let err = report(&out);
    assert!(err.contains("invalid_client"), "got: {err}");
    assert!(err.contains("Client authentication failed"), "got: {err}");
    assert!(
        err.contains("auth error"),
        "the historical prefix is kept, got: {err}"
    );
    assert_eq!(out.sends, 0);
}

#[test]
fn dispatch_token_mint_429_not_retried() {
    let out = run(
        plan_request("b", &get_offers_tool(), vec![]),
        &mut |_| answer(401, ""),
        &mut |n| {
            if n == 1 {
                Ok(())
            } else {
                Err(AuthError::TokenMintRateLimited {
                    retry_after: Some(Duration::from_secs(1)),
                    trace_id: Some("tr-mint".to_string()),
                })
            }
        },
        &mut None,
    );
    let err = report(&out);
    assert!(err.contains("token churn"), "got: {err}");
    assert_eq!(
        out.tokens, 2,
        "initial fetch + the single forced re-resolution — no retry loop"
    );
}

#[test]
fn dispatch_maps_allegro_error_body_dev_and_user() {
    let body = "{\"errors\":[{\"message\":\"Delivery point data not passed\",\"code\":\"MissingDeliveryPointException\",\"details\":null,\"path\":\"Endpoint.getDeliveries.arg1\",\"userMessage\":\"Nie wybrano punktu dla odbioru osobistego.\"}]}";
    let out = dispatch(&get_offers_tool(), &mut |_| traced(422, 0, "tr-422", body));
    let err = report(&out);
    assert!(
        err.contains("MissingDeliveryPointException"),
        "Dev line must carry the code, got: {err}"
    );
    assert!(
        err.contains("Delivery point data not passed"),
        "Dev line must carry the raw body, got: {err}"
    );
    assert!(
        err.contains("Nie wybrano punktu"),
        "User line must prefer the localized userMessage, got: {err}"
    );
    assert!(err.contains("Trace-Id: tr-422"), "got: {err}");
    assert_eq!(out.sends, 1);
}

#[test]
fn rate_budget_guard_trips_second_call() {
    let mut budget = Some(RateBudget::new_for_tests(1, Duration::zero()));
    let first = run(
        plan_request("b", &get_offers_tool(), vec![]),
        &mut |_| answer(200, "[]"),
        &mut |_| Ok(()),
        &mut budget,
    );
    assert_eq!(
        first.result.expect("the first dispatch fits the cap"),
        "[]"
    );
    let second = run(
        plan_request("b", &get_offers_tool(), vec![]),
        &mut |_| answer(200, "[]"),
        &mut |_| Ok(()),
        &mut budget,
    );
    let err = report(&second);
    assert!(
        err.contains("rate budget"),
        "the budget error must be identifiable, got: {err}"
    );
    assert_eq!(second.sends, 0, "the blocked request was never sent");
}

#[test]
fn a_call_makes_at_most_six_sends() {
    let out = dispatch(&get_offers_tool(), &mut |n| match n {
        1 => answer(401, ""),
        2 => answer(503, ""),
        _ => answer(429, ""),
    });
    assert_eq!(
        out.sends as u32,
        1 + 1 + MAX_429_RETRIES + MAX_5XX_RETRIES
    );
    assert!(matches!(
        out.result,
        Err(DispatchError::RateLimited { attempts: 6, .. })
    ));
    assert_eq!(out.tokens, 2);
    assert_eq!(out.waits, vec![1, 1, 2, 3]);
}

#[test]
fn a_second_401_ends_the_call() {
    let out = dispatch(&get_offers_tool(), &mut |_| answer(401, "no"));
    assert!(matches!(
        out.result,
        Err(DispatchError::Client { status: 401, .. })
    ));
    assert_eq!(out.sends, 2);
}

#[test]
fn attempts_count_what_follows_a_send() {
    let mut attempts = Attempts::start();
    let next = attempts.after_send("GET", traced(429, 7, "t", ""));
    match next {
        DispatchAction::Wait {
            retry_no,
            retry_after,
        } => {
            assert_eq!(retry_no, 1);
            assert_eq!(retry_after.map(|d| d.as_secs()), Some(7));
        }
        other => panic!("expected a wait, got: {other:?}"),
    }
    assert_eq!(attempts.sends, 1);
    assert_eq!(attempts.retries_429, 1);
    let next = attempts.after_send("GET", traced(500, 7, "t", ""));
    assert!(matches!(
        next,
        DispatchAction::Wait {
            retry_no: 1,
            retry_after: None
        }
    ));
    let next = attempts.after_send("GET", answer(204, ""));
    assert!(matches!(next, DispatchAction::Finish(Ok(body)) if body.is_empty()));
    assert_eq!(attempts.sends, 3);
}

#[test]
fn a_long_answer_is_cut() {
    let out = dispatch(&get_offers_tool(), &mut |_| {
        answer(200, &"a".repeat(MAX_BODY_BYTES + 1))
    });
    let body = out.result.expect("a 200");
    assert_eq!(body.len(), MAX_BODY_BYTES + "\n[truncated]".len());
    assert!(Resilience::test_instant().budget.is_none());
}

// ── A call without retries ──

struct DirectRun {
    result: Result<String, String>,
    sends: usize,
    actions: Vec<&'static str>,
}

fn direct(
    plan: Result<RequestPlan, String>,
    answers: &mut dyn FnMut(usize) -> Outcome,
    tokens: &mut dyn FnMut(usize) -> Result<(), AuthError>,
) -> DirectRun {
    let mut call = DirectDispatch::begin(plan);
    let mut run = DirectRun {
        result: Ok(String::new()),
        sends: 0,
        actions: vec![],
    };
    let mut asked = 0;
    let mut action = DirectAction::ResolveToken;
    loop {
        let event = match action {
            DirectAction::ResolveToken => {
                asked += 1;
                run.actions.push("resolve");
                DirectEvent::Token(tokens(asked))
            }
            DirectAction::ReplaceToken => {
                asked += 1;
                run.actions.push("replace");
                DirectEvent::Token(tokens(asked))
            }
            DirectAction::Send => {
                run.sends += 1;
                run.actions.push("send");
                DirectEvent::Sent(answers(run.sends))
            }
            DirectAction::Finish(result) => {
                run.result = result;
                return run;
            }
        };
        action = call.step(event);
    }
}

fn plan() -> Result<RequestPlan, String> {
    plan_request("https://api.allegro.pl", &get_offers_tool(), vec![])
}

#[test]
fn test_dispatch_unsupported_method_returns_error() {
    let bad = plan_request("b", &tool("get post", "/x", None), vec![]);
    let out = direct(bad, &mut |_| answer(200, ""), &mut |_| Ok(()));
    let err = out.result.expect_err("invalid method must be rejected");
    assert!(
        err.contains("unsupported HTTP method"),
        "expected 'unsupported HTTP method' error, got: {err}"
    );
    assert_eq!(out.sends, 0);
    let bad = plan_request("b", &tool("get post", "/x", None), vec![]);
    let out = run(bad, &mut |_| answer(200, ""), &mut |_| Ok(()), &mut None);
    assert_eq!(report(&out), "unsupported HTTP method: get post");
}

#[test]
fn test_dispatch_auth_failure_returns_auth_error() {
    let out = direct(plan(), &mut |_| answer(200, ""), &mut |_| {
        Err(AuthError::Http("500".to_string()))
    });
    let err = out.result.expect_err("auth failure must return Err");
    assert_eq!(err, "auth error: HTTP request failed: 500");
}

#[test]
fn test_dispatch_with_base_401_once_then_200_succeeds_with_two_api_hits() {
    let out = direct(
        plan(),
        &mut |n| {
            if n == 1 {
                answer(401, "stale token")
            } else {
                answer(200, "[]")
            }
        },
        &mut |_| Ok(()),
    );
    assert_eq!(
        out.result
            .expect("single 401 must be retried and succeed"),
        "[]"
    );
    assert_eq!(out.sends, 2, "the API must be hit twice (401 then 200)");
    assert_eq!(
        out.actions,
        vec!["resolve", "send", "replace", "send"],
        "the token must be re-resolved after the 401 (invalidate + token)"
    );
}

#[test]
fn test_dispatch_with_base_persistent_401_returns_second_body() {
    let out = direct(
        plan(),
        &mut |n| {
            if n == 1 {
                answer(401, "first")
            } else {
                answer(401, "still unauthorized after refresh")
            }
        },
        &mut |_| Ok(()),
    );
    let err = out.result.expect_err("persistent 401 must fail");
    assert!(
        err.contains("still unauthorized after refresh"),
        "the retry's body must be surfaced (not the first 401's), got: {err}"
    );
    assert!(err.contains("401"), "status must be included, got: {err}");
    assert_eq!(
        err,
        "HTTP 401 Unauthorized: still unauthorized after refresh"
    );
}

#[test]
fn test_dispatch_with_base_auth_failure_on_re_resolve_is_auth_error() {
    let out = direct(plan(), &mut |_| answer(401, ""), &mut |n| {
        if n == 1 {
            Ok(())
        } else {
            Err(AuthError::Http("500".to_string()))
        }
    });
    let err = out
        .result
        .expect_err("failed re-resolve must fail the dispatch");
    assert!(
        err.contains("auth error"),
        "re-resolve failure must surface as 'auth error', got: {err}"
    );
}

#[test]
fn statuses_are_shown_with_their_reason() {
    for (status, shown) in [
        (404, "HTTP 404 Not Found: b"),
        (503, "HTTP 503 Service Unavailable: b"),
        (499, "HTTP 499 <unknown status code>: b"),
    ] {
        let out = direct(plan(), &mut |_| answer(status, "b"), &mut |_| Ok(()));
        assert_eq!(out.result.expect_err("an error status"), shown);
    }
    let out = direct(plan(), &mut |_| answer(302, "b"), &mut |_| Ok(()));
    assert_eq!(out.result.expect("no error status"), "b");
}

#[test]
fn direct_verdicts() {
    assert!(matches!(
        direct_verdict(false, answer(401, ""), "401 X"),
        DirectAction::ReplaceToken
    ));
    assert!(matches!(
        direct_verdict(true, answer(401, "b"), "401 X"),
        DirectAction::Finish(Err(m)) if m == "HTTP 401 X: b"
    ));
    assert!(matches!(
        direct_verdict(false, Outcome::NoAnswer("refused".to_string()), ""),
        DirectAction::Finish(Err(m)) if m == "HTTP error: refused"
    ));
}
