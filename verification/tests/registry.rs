//! The tools that are made from a document.

use allegro_mcp::json::Json;
use allegro_mcp::schema::parse::{parse_bytes, OpenApi};
use allegro_mcp::tool_registry::builder::{
    build_tools, deduplicate_id, derive_name_from_path, list_operations, sanitize_name,
};
use allegro_mcp::tool_registry::ref_resolver::{resolve_schema, schema_to_value};
use allegro_mcp::tool_registry::schema_builder::{
    build_input_schema, extract_accept_media_type, is_allegro_versioned_media_type,
};
use allegro_mcp::tool_registry::{ToolDef, ToolRegistry, ToolRegistryError};

const EMPTY: &str = "openapi: \"3.0.3\"\ninfo:\n  title: t\n  version: v\npaths: {}\n";

fn api_from_yaml(yaml: &str) -> OpenApi {
    parse_bytes(yaml.as_bytes()).expect("invalid test YAML")
}

fn registry(yaml: &str) -> ToolRegistry {
    ToolRegistry::from_openapi(&api_from_yaml(yaml)).expect("a registry")
}

/// The value at a path of member names; null where there is none.
fn at<'a>(j: &'a Json, path: &[&str]) -> &'a Json {
    let mut here = j;
    for name in path {
        match here.get(name) {
            Some(next) => here = next,
            None => return &Json::Null,
        }
    }
    here
}

fn is_object(j: &Json) -> bool {
    matches!(j, Json::Object(_))
}

/// The names under `required`; none where the member is missing.
fn required(schema: &Json) -> Option<Vec<&str>> {
    match schema.get("required") {
        Some(Json::Array(items)) => Some(items.iter().filter_map(|v| v.as_str()).collect()),
        Some(other) => panic!("required is no array: {other:?}"),
        None => None,
    }
}

/// The first operation of the first path.
fn first_operation(api: &OpenApi) -> Json {
    list_operations(api).into_iter().next().expect("an operation").operation.clone()
}

fn accept_from_op_yaml(op_yaml: &str) -> Option<String> {
    let api = api_from_yaml(op_yaml);
    let op = first_operation(&api);
    let responses = match op.get("responses") {
        Some(Json::Object(ms)) => ms.clone(),
        _ => vec![],
    };
    extract_accept_media_type(&api, op.get("requestBody"), &responses)
}

fn schema_from_op_yaml(op_yaml: &str) -> Json {
    let api = api_from_yaml(op_yaml);
    let op = first_operation(&api);
    let parameters = match op.get("parameters") {
        Some(Json::Array(items)) => items.clone(),
        _ => vec![],
    };
    build_input_schema(&api, &parameters, op.get("requestBody")).expect("a schema")
}

// ── Media types ──

#[test]
fn extract_accept_request_body_vnd_key_wins() {
    let mt = accept_from_op_yaml(
        r##"openapi: "3.0.3"
info:
  title: t
  version: v
paths:
  /offers:
    put:
      requestBody:
        content:
          application/vnd.allegro.public.v1+json:
            schema:
              type: object
      responses:
        "200":
          description: OK
          content:
            application/vnd.allegro.beta.v1+json:
              schema:
                type: object
"##,
    )
    .expect("a versioned media type");
    assert_eq!(mt, "application/vnd.allegro.public.v1+json");
}

#[test]
fn extract_accept_ref_request_body_resolves_media_type() {
    let mt = accept_from_op_yaml(
        r##"openapi: "3.0.3"
info:
  title: t
  version: v
paths:
  /offers:
    post:
      requestBody:
        $ref: "#/components/requestBodies/OfferBody"
      responses:
        "201":
          description: Created
components:
  requestBodies:
    OfferBody:
      content:
        application/vnd.allegro.public.v1+json:
          schema:
            type: object
"##,
    )
    .expect("a versioned media type");
    assert_eq!(mt, "application/vnd.allegro.public.v1+json");
}

#[test]
fn extract_accept_get_responses_only_vnd_key() {
    let mt = accept_from_op_yaml(
        r##"openapi: "3.0.3"
info:
  title: t
  version: v
paths:
  /offers:
    get:
      responses:
        "200":
          description: OK
          content:
            application/vnd.allegro.public.v1+json:
              schema:
                type: object
"##,
    )
    .expect("a versioned media type");
    assert_eq!(mt, "application/vnd.allegro.public.v1+json");
}

#[test]
fn extract_accept_prefers_2xx_over_4xx_regardless_of_map_order() {
    let mt = accept_from_op_yaml(
        r##"openapi: "3.0.3"
info:
  title: t
  version: v
paths:
  /offers:
    get:
      responses:
        "404":
          description: Not Found
          content:
            application/vnd.allegro.beta.v1+json:
              schema:
                type: object
        "200":
          description: OK
          content:
            application/vnd.allegro.public.v1+json:
              schema:
                type: object
"##,
    )
    .expect("a versioned media type");
    assert_eq!(mt, "application/vnd.allegro.public.v1+json");
}

#[test]
fn extract_accept_lowest_2xx_ascending() {
    let mt = accept_from_op_yaml(
        r##"openapi: "3.0.3"
info:
  title: t
  version: v
paths:
  /offers:
    post:
      responses:
        "201":
          description: Created
          content:
            application/vnd.allegro.beta.v1+json:
              schema:
                type: object
        "200":
          description: OK
          content:
            application/vnd.allegro.public.v1+json:
              schema:
                type: object
"##,
    )
    .expect("a versioned media type");
    assert_eq!(mt, "application/vnd.allegro.public.v1+json");
}

#[test]
fn extract_accept_beta_v1_extracted_verbatim() {
    let mt = accept_from_op_yaml(
        r##"openapi: "3.0.3"
info:
  title: t
  version: v
paths:
  /beta:
    get:
      responses:
        "200":
          description: OK
          content:
            application/vnd.allegro.beta.v1+json:
              schema:
                type: object
"##,
    )
    .expect("a versioned media type");
    assert_eq!(mt, "application/vnd.allegro.beta.v1+json");
}

#[test]
fn extract_accept_range_and_default_entries_sort_last() {
    let mt = accept_from_op_yaml(
        r##"openapi: "3.0.3"
info:
  title: t
  version: v
paths:
  /offers:
    get:
      responses:
        "2XX":
          description: Range
          content:
            application/vnd.allegro.beta.v2+json:
              schema:
                type: object
        "200":
          description: OK
          content:
            application/vnd.allegro.public.v1+json:
              schema:
                type: object
        default:
          description: Fallback
          content:
            application/vnd.allegro.beta.v1+json:
              schema:
                type: object
"##,
    )
    .expect("a versioned media type");
    assert_eq!(mt, "application/vnd.allegro.public.v1+json");
}

#[test]
fn extract_accept_default_scanned_when_nothing_else_matches() {
    let mt = accept_from_op_yaml(
        r##"openapi: "3.0.3"
info:
  title: t
  version: v
paths:
  /offers:
    get:
      responses:
        "404":
          description: Not Found
        default:
          description: Fallback
          content:
            application/vnd.allegro.beta.v1+json:
              schema:
                type: object
"##,
    )
    .expect("a versioned media type");
    assert_eq!(mt, "application/vnd.allegro.beta.v1+json");
}

#[test]
fn extract_accept_ref_response_resolves() {
    let mt = accept_from_op_yaml(
        r##"openapi: "3.0.3"
info:
  title: t
  version: v
paths:
  /offers:
    get:
      responses:
        "200":
          $ref: "#/components/responses/OkResponse"
components:
  responses:
    OkResponse:
      description: OK
      content:
        application/vnd.allegro.public.v1+json:
          schema:
            type: object
"##,
    )
    .expect("a versioned media type");
    assert_eq!(mt, "application/vnd.allegro.public.v1+json");
}

#[test]
fn extract_accept_multiple_distinct_keys_first_wins() {
    let mt = accept_from_op_yaml(
        r##"openapi: "3.0.3"
info:
  title: t
  version: v
paths:
  /offers:
    post:
      requestBody:
        content:
          application/vnd.allegro.public.v1+json:
            schema:
              type: object
          application/vnd.allegro.beta.v1+json:
            schema:
              type: object
      responses:
        "200":
          description: OK
"##,
    )
    .expect("a versioned media type");
    assert_eq!(mt, "application/vnd.allegro.public.v1+json");
}

#[test]
fn extract_accept_plain_json_keys_yield_none() {
    let result = accept_from_op_yaml(
        r##"openapi: "3.0.3"
info:
  title: t
  version: v
paths:
  /offers:
    post:
      requestBody:
        content:
          application/json:
            schema:
              type: object
      responses:
        "200":
          description: OK
          content:
            application/json:
              schema:
                type: object
"##,
    );
    assert_eq!(result, None);
}

#[test]
fn extract_accept_no_content_keys_yields_none() {
    let result = accept_from_op_yaml(
        r##"openapi: "3.0.3"
info:
  title: t
  version: v
paths:
  /offers/{offerId}:
    delete:
      responses:
        "204":
          description: No Content
"##,
    );
    assert_eq!(result, None);
}

#[test]
fn extract_accept_none_when_no_responses_and_no_body() {
    let api = api_from_yaml(EMPTY);
    assert_eq!(extract_accept_media_type(&api, None, &vec![]), None);
}

#[test]
fn is_allegro_versioned_media_type_matrix() {
    assert!(is_allegro_versioned_media_type(
        "application/vnd.allegro.public.v1+json"
    ));
    assert!(is_allegro_versioned_media_type(
        "application/vnd.allegro.beta.v2+json"
    ));
    assert!(!is_allegro_versioned_media_type("application/json"));
    assert!(!is_allegro_versioned_media_type(
        "application/vnd.allegro.public.v1"
    ));
    assert!(!is_allegro_versioned_media_type("text/plain"));
    assert!(!is_allegro_versioned_media_type(
        "application/vnd.other.public.v1+json"
    ));
}

// ── Input schemas ──

#[test]
fn build_input_schema_no_params_no_body_returns_empty_object() {
    let api = api_from_yaml(EMPTY);
    let schema = build_input_schema(&api, &vec![], None).expect("a schema");
    assert_eq!(at(&schema, &["type"]).as_str(), Some("object"));
    assert_eq!(
        at(&schema, &["properties"]),
        &Json::Object(vec![]),
        "properties must be empty when there are no params or body"
    );
    assert!(
        schema.get("required").is_none(),
        "required must be absent when nothing is required"
    );
}

#[test]
fn build_input_schema_path_params_all_required() {
    let schema = schema_from_op_yaml(
        r##"openapi: "3.0.3"
info:
  title: t
  version: v
paths:
  /items/{id}:
    get:
      parameters:
        - name: id
          in: path
          required: true
          schema:
            type: string
      responses:
        "200":
          description: OK
"##,
    );
    let required = required(&schema).expect("required must be present for path params");
    assert!(
        required.contains(&"id"),
        "path param 'id' must be in required, got: {required:?}"
    );
}

#[test]
fn build_input_schema_optional_query_params_not_required() {
    let schema = schema_from_op_yaml(
        r##"openapi: "3.0.3"
info:
  title: t
  version: v
paths:
  /items:
    get:
      parameters:
        - name: limit
          in: query
          schema:
            type: integer
        - name: offset
          in: query
          schema:
            type: integer
      responses:
        "200":
          description: OK
"##,
    );
    assert!(
        schema.get("required").is_none(),
        "optional query params must not appear in required, got: {:?}",
        schema.get("required")
    );
    assert!(is_object(at(&schema, &["properties", "limit"])));
    assert!(is_object(at(&schema, &["properties", "offset"])));
}

#[test]
fn build_input_schema_required_body_is_in_required() {
    let schema = schema_from_op_yaml(
        r##"openapi: "3.0.3"
info:
  title: t
  version: v
paths:
  /items:
    post:
      requestBody:
        required: true
        content:
          application/json:
            schema:
              type: object
      responses:
        "201":
          description: Created
"##,
    );
    let required = required(&schema).expect("required must be present when requestBody is required");
    assert!(
        required.contains(&"body"),
        "'body' must be in required when requestBody.required=true, got: {required:?}"
    );
}

#[test]
fn build_input_schema_optional_body_not_in_required() {
    let schema = schema_from_op_yaml(
        r##"openapi: "3.0.3"
info:
  title: t
  version: v
paths:
  /items:
    post:
      requestBody:
        required: false
        content:
          application/json:
            schema:
              type: object
      responses:
        "201":
          description: Created
"##,
    );
    assert!(
        is_object(at(&schema, &["properties", "body"])),
        "body property must be present even when not required"
    );
    if let Some(required) = required(&schema) {
        assert!(
            !required.contains(&"body"),
            "'body' must NOT be in required when requestBody.required=false, got: {required:?}"
        );
    }
}

#[test]
fn build_input_schema_ref_parameter_resolves_into_properties() {
    let schema = schema_from_op_yaml(
        r##"openapi: "3.0.3"
info:
  title: t
  version: v
paths:
  /items:
    get:
      parameters:
        - $ref: "#/components/parameters/LimitParam"
      responses:
        "200":
          description: OK
components:
  parameters:
    LimitParam:
      name: limit
      in: query
      schema:
        type: integer
"##,
    );
    assert!(
        is_object(at(&schema, &["properties", "limit"])),
        "$ref parameter 'limit' must be resolved into properties"
    );
    assert_eq!(
        at(&schema, &["properties", "limit", "type"]).as_str(),
        Some("integer"),
        "$ref parameter must resolve to the correct schema type"
    );
}

#[test]
fn build_input_schema_ref_request_body_resolves_body_property() {
    let schema = schema_from_op_yaml(
        r##"openapi: "3.0.3"
info:
  title: t
  version: v
paths:
  /items:
    post:
      requestBody:
        $ref: "#/components/requestBodies/ItemBody"
      responses:
        "201":
          description: Created
components:
  requestBodies:
    ItemBody:
      required: true
      content:
        application/json:
          schema:
            type: object
            properties:
              name:
                type: string
"##,
    );
    assert!(
        is_object(at(&schema, &["properties", "body"])),
        "$ref requestBody must produce a 'body' property"
    );
    assert!(
        is_object(at(&schema, &["properties", "body", "properties", "name"])),
        "$ref requestBody must resolve to the actual schema content, not just a placeholder object"
    );
}

#[test]
fn build_input_schema_required_header_param_in_required() {
    let schema = schema_from_op_yaml(
        r##"openapi: "3.0.3"
info:
  title: t
  version: v
paths:
  /items:
    get:
      parameters:
        - name: X-Request-Id
          in: header
          required: true
          schema:
            type: string
      responses:
        "200":
          description: OK
"##,
    );
    assert!(is_object(at(&schema, &["properties", "X-Request-Id"])));
    let required = required(&schema).expect("required must be present for a required param");
    assert!(
        required.contains(&"X-Request-Id"),
        "required param must be in required array, got: {required:?}"
    );
}

#[test]
fn build_input_schema_required_cookie_param_in_required() {
    let schema = schema_from_op_yaml(
        r##"openapi: "3.0.3"
info:
  title: t
  version: v
paths:
  /items:
    get:
      parameters:
        - name: session
          in: cookie
          required: true
          schema:
            type: string
      responses:
        "200":
          description: OK
"##,
    );
    assert!(is_object(at(&schema, &["properties", "session"])));
    let required = required(&schema).expect("required must be present for a required param");
    assert!(
        required.contains(&"session"),
        "required param must be in required array, got: {required:?}"
    );
}

#[test]
fn build_input_schema_optional_header_param_not_in_required() {
    let schema = schema_from_op_yaml(
        r##"openapi: "3.0.3"
info:
  title: t
  version: v
paths:
  /items:
    get:
      parameters:
        - name: X-Trace-Id
          in: header
          required: false
          schema:
            type: string
      responses:
        "200":
          description: OK
"##,
    );
    assert!(is_object(at(&schema, &["properties", "X-Trace-Id"])));
    if let Some(required) = required(&schema) {
        assert!(
            !required.contains(&"X-Trace-Id"),
            "optional param must NOT be in required, got: {required:?}"
        );
    }
}

#[test]
fn build_input_schema_optional_cookie_param_not_in_required() {
    let schema = schema_from_op_yaml(
        r##"openapi: "3.0.3"
info:
  title: t
  version: v
paths:
  /items:
    get:
      parameters:
        - name: pref
          in: cookie
          required: false
          schema:
            type: string
      responses:
        "200":
          description: OK
"##,
    );
    assert!(is_object(at(&schema, &["properties", "pref"])));
    if let Some(required) = required(&schema) {
        assert!(
            !required.contains(&"pref"),
            "optional param must NOT be in required, got: {required:?}"
        );
    }
}

#[test]
fn every_required_name_is_a_property() {
    for tool in registry(SAMPLE).list_tools() {
        for name in required(&tool.input_schema).unwrap_or_default() {
            assert!(
                is_object(at(&tool.input_schema, &["properties", name])),
                "{}: {name}",
                tool.id
            );
        }
    }
}

#[test]
fn accepted_media_types_are_versioned() {
    let registry = registry(SAMPLE);
    let create = registry.get_tool("allegro_createoffer").expect("a tool");
    let media = create.accept_media_type.as_deref().expect("a media type");
    assert!(is_allegro_versioned_media_type(media));
    let update = registry.get_tool("allegro_updateoffer").expect("a tool");
    assert_eq!(update.accept_media_type, None);
}

// ── References ──

fn reference(name: &str) -> Json {
    Json::Object(vec![(
        "$ref".to_owned(),
        Json::text(&format!("#/components/schemas/{name}")),
    )])
}

fn typed(name: &str) -> Json {
    Json::Object(vec![("type".to_owned(), Json::text(name))])
}

#[test]
fn schema_to_value_simple_string_type() {
    let api = api_from_yaml(EMPTY);
    let val = schema_to_value(&api, &typed("string"));
    assert_eq!(
        at(&val, &["type"]).as_str(),
        Some("string"),
        "schema_to_value must preserve type: string"
    );
}

#[test]
fn resolve_schema_inline_returns_schema_as_json() {
    let api = api_from_yaml(EMPTY);
    let val = resolve_schema(&api, &typed("integer"), &vec![]);
    assert_eq!(at(&val, &["type"]).as_str(), Some("integer"));
}

#[test]
fn resolve_schema_known_ref_resolves_correctly() {
    let api = api_from_yaml(
        r##"openapi: "3.0.3"
info:
  title: t
  version: v
paths: {}
components:
  schemas:
    MyType:
      type: string
"##,
    );
    let val = resolve_schema(&api, &reference("MyType"), &vec![]);
    assert_eq!(
        at(&val, &["type"]).as_str(),
        Some("string"),
        "known $ref must resolve to the component schema"
    );
}

#[test]
fn resolve_schema_unknown_ref_returns_unresolved_sentinel() {
    let api = api_from_yaml(EMPTY);
    let val = resolve_schema(&api, &reference("DoesNotExist"), &vec![]);
    assert_eq!(at(&val, &["type"]).as_str(), Some("object"));
    let desc = at(&val, &["description"]).as_str().unwrap_or("");
    assert!(
        desc.contains("unresolved"),
        "sentinel description must mention 'unresolved', got: {desc}"
    );
}

#[test]
fn resolve_schema_cyclic_ref_returns_sentinel_without_panic() {
    let api = api_from_yaml(
        r##"openapi: "3.0.3"
info:
  title: t
  version: v
paths: {}
components:
  schemas:
    Category:
      type: object
      properties:
        parent:
          $ref: "#/components/schemas/Category"
"##,
    );
    let val = resolve_schema(&api, &reference("Category"), &vec![]);
    assert_eq!(at(&val, &["type"]).as_str(), Some("object"));
    let parent = at(&val, &["properties", "parent"]);
    assert!(
        parent.get("$ref").is_none(),
        "cyclic $ref must be replaced with sentinel, not left as $ref: {parent:?}"
    );
    let desc = at(parent, &["description"]).as_str().unwrap_or("");
    assert!(
        desc.contains("circular"),
        "sentinel description must mention 'circular', got: {desc}"
    );
}

fn holds_reference(j: &Json) -> bool {
    match j {
        Json::Array(items) => items.iter().any(holds_reference),
        Json::Object(ms) => ms.iter().any(|(k, v)| k == "$ref" || holds_reference(v)),
        _ => false,
    }
}

#[test]
fn no_reference_is_left() {
    let api = api_from_yaml(
        r##"openapi: "3.0.3"
info:
  title: t
  version: v
paths: {}
components:
  schemas:
    A:
      type: object
      properties:
        b:
          $ref: "#/components/schemas/B"
        self:
          $ref: "#/components/schemas/A"
        list:
          type: array
          items:
            $ref: "#/components/schemas/Missing"
    B:
      $ref: "#/components/schemas/C"
    C:
      $ref: "#/components/schemas/B"
"##,
    );
    for name in ["A", "B", "C", "D"] {
        let val = resolve_schema(&api, &reference(name), &vec![]);
        assert!(!holds_reference(&val), "{name}: {val:?}");
    }
}

#[test]
fn resolving_keeps_what_has_no_reference() {
    let api = api_from_yaml(EMPTY);
    let plain = Json::parse(
        "{\"type\":\"object\",\"properties\":{\"a\":{\"type\":\"string\"}},\"x\":[1,null,{\"b\":true}]}",
    )
    .expect("JSON");
    let val = resolve_schema(&api, &plain, &vec![]);
    assert_eq!(val, plain);
    assert_eq!(resolve_schema(&api, &val, &vec![]), val);
}

// ── Names ──

#[test]
fn sanitize_name_empty_string_returns_empty() {
    assert_eq!(sanitize_name(""), "");
}

#[test]
fn sanitize_name_all_special_chars_returns_empty() {
    assert_eq!(sanitize_name("---"), "");
}

#[test]
fn sanitize_name_single_special_char_returns_empty() {
    assert_eq!(sanitize_name("-"), "");
    assert_eq!(sanitize_name("_"), "");
    assert_eq!(sanitize_name("!"), "");
}

#[test]
fn sanitize_name_lowercases_and_replaces_special_chars() {
    assert_eq!(sanitize_name("getListingOffers"), "getlistingoffers");
    assert_eq!(sanitize_name("get-listing-offers"), "get_listing_offers");
    assert_eq!(sanitize_name("GET_OFFERS_V2"), "get_offers_v2");
    assert_eq!(sanitize_name("__leading__"), "leading");
}

#[test]
fn sanitize_name_keeps_letters_of_every_script() {
    assert_eq!(sanitize_name("żółć"), "żółć");
    assert_eq!(sanitize_name("a—b…c"), "a_b_c");
    assert_eq!(sanitize_name("A１B"), "a１b");
}

#[test]
fn sanitizing_twice_is_sanitizing_once() {
    for name in ["getListingOffers", "a--B  c", "żółć", "__x__"] {
        let once = sanitize_name(name);
        assert_eq!(sanitize_name(&once), once, "{name}");
    }
}

#[test]
fn derive_name_from_path_produces_valid_name() {
    assert_eq!(
        derive_name_from_path("get", "/sale/offers"),
        "get_sale_offers"
    );
    assert_eq!(
        derive_name_from_path("get", "/sale/offers/{offerId}"),
        "get_sale_offers_offerid"
    );
    assert_eq!(derive_name_from_path("post", "/"), "post");
}

#[test]
fn deduplicate_id_returns_base_when_not_seen() {
    assert_eq!(
        deduplicate_id("allegro_foo".to_string(), &vec![]),
        "allegro_foo"
    );
}

#[test]
fn deduplicate_id_appends_2_when_base_taken() {
    let seen = vec!["allegro_foo".to_string()];
    assert_eq!(
        deduplicate_id("allegro_foo".to_string(), &seen),
        "allegro_foo_2"
    );
}

#[test]
fn deduplicate_id_appends_3_when_base_and_2_taken() {
    let seen = vec!["allegro_foo".to_string(), "allegro_foo_2".to_string()];
    assert_eq!(
        deduplicate_id("allegro_foo".to_string(), &seen),
        "allegro_foo_3"
    );
}

// ── Tools ──

#[test]
fn build_tools_empty_path_item_yields_zero_tools() {
    let api = api_from_yaml(
        "openapi: \"3.0.3\"\ninfo:\n  title: t\n  version: v\npaths:\n  /empty: {}\n",
    );
    let tools = build_tools(&api).expect("tools");
    assert_eq!(tools.len(), 0, "empty PathItem must yield 0 tools");
}

#[test]
fn build_tools_ref_path_item_yields_zero_tools() {
    let api = api_from_yaml(
        "openapi: \"3.0.3\"\ninfo:\n  title: t\n  version: v\npaths:\n  /ref-path:\n    $ref: \"#/components/pathItems/MyPath\"\ncomponents: {}\n",
    );
    let tools = build_tools(&api).expect("tools");
    assert_eq!(
        tools.len(),
        0,
        "$ref path item must be skipped and contribute 0 tools, got: {tools:?}"
    );
}

#[test]
fn build_one_tool_populates_accept_media_type_from_vnd_keys() {
    let api = api_from_yaml(
        r##"openapi: "3.0.3"
info:
  title: t
  version: v
paths:
  /offers:
    post:
      operationId: createOffer
      requestBody:
        content:
          application/vnd.allegro.public.v1+json:
            schema:
              type: object
      responses:
        "201":
          description: Created
  /beta:
    get:
      operationId: getBeta
      responses:
        "200":
          description: OK
          content:
            application/vnd.allegro.beta.v1+json:
              schema:
                type: object
  /plain:
    get:
      operationId: getPlain
      responses:
        "200":
          description: OK
          content:
            application/json:
              schema:
                type: object
"##,
    );
    let tools = build_tools(&api).expect("tools");
    let find = |id: &str| -> &ToolDef {
        tools
            .iter()
            .find(|t| t.id == id)
            .unwrap_or_else(|| panic!("missing {id}"))
    };
    assert_eq!(
        find("allegro_createoffer").accept_media_type.as_deref(),
        Some("application/vnd.allegro.public.v1+json"),
        "requestBody vnd key must populate accept_media_type"
    );
    assert_eq!(
        find("allegro_getbeta").accept_media_type.as_deref(),
        Some("application/vnd.allegro.beta.v1+json"),
        "response vnd key must populate accept_media_type"
    );
    assert_eq!(
        find("allegro_getplain").accept_media_type,
        None,
        "plain application/json must leave accept_media_type None (default Accept)"
    );
}

#[test]
fn operations_of_one_name_get_ids_of_their_own() {
    let doc = r##"openapi: "3.0.3"
info:
  title: t
  version: v
paths:
  /a:
    get:
      operationId: same
      responses: {}
    post:
      operationId: SAME
      responses: {}
  /b:
    get:
      operationId: "--"
      responses: {}
    delete:
      responses: {}
"##;
    let registry = registry(doc);
    let ids: Vec<&str> = registry.list_tools().iter().map(|t| t.id.as_str()).collect();
    assert_eq!(
        ids,
        vec!["allegro_same", "allegro_same_2", "allegro_", "allegro_delete_b"]
    );
    assert!(registry.list_tools().iter().all(|t| t.id == t.name));
    assert_eq!(
        registry
            .get_tool_by_name("allegro_delete_b")
            .expect("a tool")
            .path,
        "/b"
    );
}

// ── The registry ──

const TWO_TOOLS: &str = r##"openapi: "3.0.3"
info:
  title: t
  version: v
paths:
  /a:
    get:
      summary: A
      responses:
        "200":
          description: OK
  /b:
    post:
      summary: B
      responses:
        "201":
          description: Created
"##;

#[test]
fn is_empty_returns_true_for_empty_registry() {
    assert!(
        registry(EMPTY).is_empty(),
        "empty registry must report is_empty=true"
    );
}

#[test]
fn is_empty_returns_false_for_non_empty_registry() {
    assert!(
        !registry(TWO_TOOLS).is_empty(),
        "non-empty registry must report is_empty=false"
    );
}

#[test]
fn filter_tools_always_true_returns_all_tools() {
    let registry = registry(TWO_TOOLS);
    let all = registry.filter_tools(|_| true);
    assert_eq!(
        all.len(),
        registry.len(),
        "always-true predicate must return all tools"
    );
}

#[test]
fn filter_tools_always_false_returns_empty_vec() {
    let registry = registry(TWO_TOOLS);
    let none = registry.filter_tools(|_| false);
    assert!(
        none.is_empty(),
        "always-false predicate must return empty vec"
    );
}

const MINIMAL: &str = r##"openapi: "3.0.3"
info:
  title: Minimal
  version: "1.0.0"
paths:
  /items:
    get:
      operationId: listItems
      summary: List items
      parameters:
        - name: limit
          in: query
          schema:
            type: integer
      responses:
        "200":
          description: OK
  /items/{id}:
    get:
      operationId: getItem
      summary: Get one item
      parameters:
        - name: id
          in: path
          required: true
          schema:
            type: string
      responses:
        "200":
          description: OK
"##;

#[test]
fn minimal_fixture_yields_two_tools() {
    assert_eq!(registry(MINIMAL).len(), 2);
}

#[test]
fn minimal_fixture_tool_ids_are_prefixed() {
    for tool in registry(MINIMAL).list_tools() {
        assert!(
            tool.id.starts_with("allegro_"),
            "id '{}' must start with allegro_",
            tool.id
        );
    }
}

#[test]
fn minimal_fixture_input_schemas_are_objects() {
    for tool in registry(MINIMAL).list_tools() {
        assert_eq!(
            at(&tool.input_schema, &["type"]).as_str(),
            Some("object"),
            "tool '{}' input_schema must have type=object",
            tool.id
        );
    }
}

#[test]
fn get_tool_returns_correct_tool() {
    let registry = registry(MINIMAL);
    let first = registry.list_tools().first().expect("a tool");
    let found = registry.get_tool(&first.id).expect("the tool");
    assert_eq!(found.id, first.id);
}

#[test]
fn get_tool_returns_none_for_unknown_id() {
    let registry = registry(MINIMAL);
    assert!(registry.get_tool("allegro_nonexistent_xyz").is_none());
    assert!(registry
        .get_tool_by_name("allegro_nonexistent_xyz")
        .is_none());
}

#[test]
fn filter_tools_by_method() {
    let registry = registry(MINIMAL);
    let get_tools = registry.filter_tools(|t| t.method == "get");
    assert_eq!(get_tools.len(), 2);
}

const SAMPLE: &str = r##"openapi: "3.0.3"
info:
  title: Sample
  version: "1.0.0"
paths:
  /offers/listing:
    get:
      operationId: getListingOffers
      summary: Search offers
      parameters:
        - $ref: "#/components/parameters/Phrase"
      responses:
        "200":
          description: OK
  /sale/offers:
    post:
      operationId: createOffer
      summary: Create an offer
      requestBody:
        required: true
        content:
          application/vnd.allegro.public.v1+json:
            schema:
              $ref: "#/components/schemas/Offer"
      responses:
        "201":
          description: Created
  /sale/offers/{offerId}:
    get:
      operationId: getOffer
      description: Get an offer
      parameters:
        - $ref: "#/components/parameters/OfferId"
      responses:
        "200":
          description: OK
    put:
      operationId: updateOffer
      summary: Update an offer
      parameters:
        - $ref: "#/components/parameters/OfferId"
      requestBody:
        content:
          application/json:
            schema:
              $ref: "#/components/schemas/Offer"
      responses:
        "200":
          description: OK
    delete:
      operationId: deleteOffer
      parameters:
        - $ref: "#/components/parameters/OfferId"
      responses:
        "204":
          description: Gone
components:
  parameters:
    Phrase:
      name: phrase
      in: query
      schema:
        type: string
    OfferId:
      name: offerId
      in: path
      required: true
      schema:
        type: string
  schemas:
    Offer:
      type: object
      properties:
        name:
          type: string
        category:
          $ref: "#/components/schemas/Category"
    Category:
      type: object
      properties:
        id:
          type: string
        parent:
          $ref: "#/components/schemas/Category"
"##;

#[test]
fn sample_fixture_yields_five_tools() {
    assert_eq!(registry(SAMPLE).len(), 5);
}

#[test]
fn sample_fixture_operation_ids_are_used() {
    let registry = registry(SAMPLE);
    let ids: Vec<&str> = registry
        .list_tools()
        .iter()
        .map(|t| t.id.as_str())
        .collect();
    assert!(
        ids.contains(&"allegro_getlistingoffers"),
        "expected allegro_getlistingoffers, got: {ids:?}"
    );
    assert!(ids.contains(&"allegro_createoffer"));
    assert!(ids.contains(&"allegro_getoffer"));
    assert!(ids.contains(&"allegro_updateoffer"));
    assert!(ids.contains(&"allegro_deleteoffer"));
}

#[test]
fn sample_fixture_post_has_body_property() {
    let registry = registry(SAMPLE);
    let create = registry.get_tool("allegro_createoffer").expect("a tool");
    assert!(
        is_object(at(&create.input_schema, &["properties", "body"])),
        "POST tool must have a 'body' property in input_schema"
    );
}

#[test]
fn sample_fixture_path_params_are_required() {
    let registry = registry(SAMPLE);
    let get_offer = registry.get_tool("allegro_getoffer").expect("a tool");
    let required_names = required(&get_offer.input_schema).expect("required names");
    assert!(
        required_names.contains(&"offerId"),
        "path param offerId must be required, got: {required_names:?}"
    );
}

#[test]
fn sample_fixture_cyclic_ref_does_not_panic() {
    assert_eq!(registry(SAMPLE).len(), 5);
}

#[test]
fn sample_fixture_descriptions_are_non_empty() {
    for tool in registry(SAMPLE).list_tools() {
        assert!(
            !tool.description.is_empty(),
            "tool '{}' must have a non-empty description",
            tool.id
        );
    }
}

#[test]
fn empty_openapi_yields_empty_registry() {
    let registry = registry(EMPTY);
    assert_eq!(registry.len(), 0);
    assert!(registry.is_empty());
}

#[test]
fn registry_errors_have_their_words() {
    assert_eq!(
        ToolRegistryError::Json("x".to_string()).message(),
        "JSON serialization error: x"
    );
    assert_eq!(
        ToolRegistryError::Build("x".to_string()).message(),
        "Schema build error: x"
    );
}
