//! The MCP server: listings and calls.

use allegro_mcp::auth::AllegroAuth;
use allegro_mcp::cli::assemble_server;
use allegro_mcp::config::Config;
use allegro_mcp::dispatcher::Payload;
use allegro_mcp::json::Json;
use allegro_mcp::resilience::{BudgetStep, DispatchError, Resilience};
use allegro_mcp::schema::parse::parse_bytes;
use allegro_mcp::server::{tool_def_to_rmcp, AllegroServer, METHOD_NOT_FOUND};
use allegro_mcp::time::Duration;
use allegro_mcp::tool_registry::{ToolDef, ToolRegistry};

fn make_tool_def(method: &str) -> ToolDef {
    ToolDef {
        id: "allegro_test_tool".to_string(),
        name: "allegro_test_tool".to_string(),
        description: "A test tool".to_string(),
        input_schema: Json::parse(
            "{\"type\":\"object\",\"properties\":{\"foo\":{\"type\":\"string\"}}}",
        )
        .expect("JSON"),
        method: method.to_string(),
        path: "/test/{foo}".to_string(),
        accept_media_type: None,
    }
}

fn hint(method: &str) -> Option<bool> {
    tool_def_to_rmcp(&make_tool_def(method))
        .annotations
        .unwrap()
        .read_only_hint
}

#[test]
fn test_tool_def_to_rmcp_get_has_read_only_hint() {
    assert_eq!(hint("get"), Some(true));
}

#[test]
fn test_tool_def_to_rmcp_post_no_read_only_hint() {
    assert_eq!(hint("post"), Some(false));
}

#[test]
fn test_tool_def_to_rmcp_head_has_read_only_hint() {
    assert_eq!(hint("head"), Some(true));
}

#[test]
fn test_tool_def_to_rmcp_delete_no_read_only_hint() {
    assert_eq!(hint("delete"), Some(false));
}

#[test]
fn test_tool_def_to_rmcp_name_and_description_match() {
    let def = make_tool_def("get");
    let tool = tool_def_to_rmcp(&def);
    assert_eq!(tool.name, def.name);
    assert_eq!(tool.description.as_deref(), Some(def.description.as_str()));
}

#[test]
fn test_tool_def_to_rmcp_input_schema_preserved() {
    let def = make_tool_def("get");
    let tool = tool_def_to_rmcp(&def);
    assert!(tool.input_schema.iter().any(|(k, _)| k == "properties"));
    assert!(!tool.input_schema.is_empty());
}

#[test]
fn test_tool_def_to_rmcp_put_no_read_only_hint() {
    assert_eq!(hint("put"), Some(false), "PUT must not be read-only");
}

#[test]
fn test_tool_def_to_rmcp_patch_no_read_only_hint() {
    assert_eq!(hint("patch"), Some(false), "PATCH must not be read-only");
}

#[test]
fn test_tool_def_to_rmcp_non_object_input_schema_falls_back_to_empty() {
    let def = ToolDef {
        id: "allegro_null_schema".to_string(),
        name: "allegro_null_schema".to_string(),
        description: "Tool with null schema".to_string(),
        input_schema: Json::Null,
        method: "get".to_string(),
        path: "/test".to_string(),
        accept_media_type: None,
    };
    let tool = tool_def_to_rmcp(&def);
    assert!(
        tool.input_schema.is_empty(),
        "non-object input_schema must fall back to empty map"
    );
}

fn empty_registry() -> ToolRegistry {
    let api = parse_bytes(b"openapi: \"3.0.3\"\ninfo:\n  title: t\n  version: v\npaths: {}\n")
        .expect("a document");
    ToolRegistry::from_openapi(&api).expect("a registry")
}

const OFFERS: &[u8] = b"openapi: \"3.0.3\"\n\
info:\n  title: t\n  version: v\n\
paths:\n\
\x20 /sale/offers:\n\
\x20   get:\n\
\x20     operationId: getListingOffers\n\
\x20     summary: List offers\n\
\x20     responses:\n\
\x20       \"200\":\n\
\x20         description: OK\n\
\x20   post:\n\
\x20     operationId: createOffer\n\
\x20     summary: Create an offer\n\
\x20     responses:\n\
\x20       \"201\":\n\
\x20         description: Created\n";

fn offers_registry() -> ToolRegistry {
    let api = parse_bytes(OFFERS).expect("a document");
    ToolRegistry::from_openapi(&api).expect("a registry")
}

fn server(registry: ToolRegistry, sandbox: bool) -> AllegroServer {
    let auth = AllegroAuth::new("id".to_string(), "secret".to_string(), sandbox);
    AllegroServer::new(registry, auth, sandbox)
}

#[test]
fn test_get_info_returns_allegro_mcp_server_name() {
    let info = server(empty_registry(), false).get_info();
    assert_eq!(
        info.server_info.name.as_str(),
        "allegro-mcp",
        "server name must be 'allegro-mcp'"
    );
    assert_eq!(info.server_info.version, "0.1.0");
}

#[test]
fn test_get_info_has_tools_capability() {
    let info = server(empty_registry(), false).get_info();
    assert!(
        info.capabilities.tools,
        "server must advertise tools capability"
    );
}

#[test]
fn test_get_info_instructions_mention_allegro() {
    let info = server(empty_registry(), false).get_info();
    let instructions = info.instructions.as_deref().unwrap_or("");
    assert!(
        instructions.contains("Allegro"),
        "instructions must mention Allegro, got: {instructions}"
    );
}

#[test]
fn test_allegro_server_new_stores_sandbox_flag() {
    for (sandbox, base) in [
        (false, "https://api.allegro.pl/sale/offers"),
        (true, "https://api.allegrosandbox.pl/sale/offers"),
    ] {
        let plan = server(offers_registry(), sandbox)
            .begin_call("allegro_getlistingoffers", None)
            .expect("the tool exists")
            .expect("the request can be shaped");
        assert_eq!(plan.url, base);
    }
}

#[test]
fn test_list_tools_returns_registry_tools() {
    let listed = server(offers_registry(), false).list_tools();
    let names: Vec<&str> = listed.iter().map(|t| t.name.as_str()).collect();
    assert_eq!(names, vec!["allegro_getlistingoffers", "allegro_createoffer"]);
    let hints: Vec<Option<bool>> = listed
        .iter()
        .map(|t| t.annotations.and_then(|a| a.read_only_hint))
        .collect();
    assert_eq!(hints, vec![Some(true), Some(false)]);
}

#[test]
fn test_list_tools_empty_registry_returns_empty_array() {
    let registry = empty_registry();
    assert_eq!(registry.len(), 0, "empty schema must produce 0 tools");
    assert!(server(registry, false).list_tools().is_empty());
}

#[test]
fn test_call_tool_unknown_name_returns_method_not_found() {
    let err = server(offers_registry(), false)
        .begin_call("nonexistent_tool", None)
        .expect_err("no such tool");
    assert_eq!(err.code, METHOD_NOT_FOUND);
    assert_eq!(err.code, -32601);
    assert_eq!(err.message, "unknown tool: nonexistent_tool");
}

#[test]
fn test_call_tool_with_api_base_url_override_succeeds() {
    let mut server = server(offers_registry(), true)
        .with_api_base_url("http://127.0.0.1:1".to_string())
        .with_resilience(Resilience::test_instant());
    let args = vec![("limit".to_string(), Json::number(3))];
    let plan = server
        .begin_call("allegro_getlistingoffers", Some(args))
        .expect("the tool exists")
        .expect("the request can be shaped");
    assert_eq!(plan.url, "http://127.0.0.1:1/sale/offers");
    assert!(
        matches!(plan.payload, Payload::Query(pairs) if pairs == vec![("limit".to_string(), "3".to_string())])
    );
    assert!(server.resilience().budget.is_none());
    assert_eq!(server.auth().client_id(), "id");
}

#[test]
fn every_listed_tool_can_be_called() {
    let server = server(offers_registry(), false);
    for (tool, method) in server.list_tools().iter().zip(["GET", "POST"]) {
        let plan = server
            .begin_call(&tool.name, None)
            .expect("a listed tool exists")
            .expect("its request can be shaped");
        assert_eq!(plan.method, method);
    }
}

#[test]
fn test_call_tool_api_4xx_returns_tool_level_error() {
    let result = AllegroServer::finish_call(Err(DispatchError::Client {
        status: 404,
        trace_id: None,
        allegro: None,
        body: "gone".to_string(),
    }));
    assert!(result.is_error);
    assert!(result.text.contains("404"));
    let result = AllegroServer::finish_call(Ok("[]".to_string()));
    assert!(!result.is_error);
    assert_eq!(result.text, "[]");
}

#[test]
fn a_server_is_assembled_from_its_configuration() {
    let api = parse_bytes(OFFERS).expect("a document");
    let auth = AllegroAuth::new("id".to_string(), "secret".to_string(), false);
    let cfg = Config::from_toml_str("[resilience]\nrate_limit_per_minute = 2\n").expect("config");
    let mut server = assemble_server(&cfg, auth, &api).expect("a server");
    assert_eq!(server.list_tools().len(), 2);
    let wait = Duration::from_secs(5);
    assert_eq!(server.resilience().backoff.effective_sleep(wait), Some(wait));
    let budget = server.resilience().budget.as_mut().expect("a budget");
    assert!(budget.try_acquire(100));
    assert!(budget.try_acquire(100));
    assert!(!budget.try_acquire(100));
    let patient = budget.acquire(100, Duration::from_millis(1099));
    assert_eq!(patient, BudgetStep::WaitMillis(50));
    let done = budget.acquire(100, Duration::from_millis(1100));
    assert_eq!(done, BudgetStep::Exceeded);
}

#[test]
fn test_call_tool_unknown_name_error_message_includes_tool_name() {
    let err = server(offers_registry(), false)
        .begin_call("allegro_totally_unknown", Some(vec![]))
        .expect_err("no such tool");
    assert!(
        err.message.contains("allegro_totally_unknown"),
        "{}",
        err.message
    );
}

#[test]
fn test_list_tools_each_tool_has_name_and_description() {
    for tool in server(offers_registry(), false).list_tools() {
        assert!(!tool.name.is_empty());
        assert!(!tool.description.unwrap_or_default().is_empty());
    }
}

#[test]
fn test_list_tools_write_methods_have_no_read_only_hint() {
    let listed = server(offers_registry(), false).list_tools();
    assert!(listed.iter().any(|t| t.name == "allegro_createoffer"));
    for tool in listed {
        let hint = tool
            .annotations
            .and_then(|a| a.read_only_hint)
            .expect("every tool has a hint");
        assert_eq!(hint, tool.name == "allegro_getlistingoffers");
    }
}

#[test]
fn test_initialize_response_identifies_server() {
    let info = server(offers_registry(), false).get_info();
    assert_eq!(info.server_info.name, "allegro-mcp");
    assert!(!info.server_info.version.is_empty());
}
