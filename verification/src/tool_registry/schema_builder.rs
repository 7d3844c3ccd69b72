//! The input schema of a tool and the media type it accepts, read from one
//! operation of the OpenAPI document.

use vstd::prelude::*;

use super::ref_resolver::{
    component_section, reference, reference_of, resolved, schema_to_value, schemas_of, section,
};
use super::ToolRegistryError;
use crate::json::{
    find_member, items_view, lookup, lookup_at, lookup_with_member, members_view, set_member,
    with_member, Json, JsonView,
};
use crate::schema::parse::OpenApi;
use crate::text::{
    after_prefix, all_digits, chars_of, digits_value, ends_with, has_prefix, has_suffix, opt_view,
    parse_unsigned, starts_with, strip_prefix, views,
};

verus! {

broadcast use vstd::string::group_string_axioms;

/// The value itself, or what it refers to in a section of the components. A
/// reference to a reference counts for nothing.
pub open spec fn component(
    doc: JsonView,
    prefix: Seq<char>,
    name: Seq<char>,
    j: JsonView,
) -> Option<JsonView> {
    match reference_of(j) {
        None => Some(j),
        Some(r) => match after_prefix(r, prefix) {
            None => None,
            Some(key) => match lookup(section(doc, name), key) {
                Some(v) if reference_of(v) is None => Some(v),
                _ => None,
            },
        },
    }
}

fn find_component<'a>(api: &'a OpenApi, prefix: &str, name: &str, j: &'a Json) -> (r: Option<
    &'a Json,
>)
    ensures
        match r {
            Some(v) => component(api@, prefix@, name@, j@) == Some(v@),
            None => component(api@, prefix@, name@, j@) is None,
        },
{
    match reference(j) {
        None => Some(j),
        Some(text) => match strip_prefix(text, prefix) {
            None => None,
            Some(key) => match component_section(api, name) {
                None => None,
                Some(ms) => match find_member(ms, key.as_str()) {
                    Some(v) => match reference(v) {
                        None => Some(v),
                        Some(_) => None,
                    },
                    None => None,
                },
            },
        },
    }
}

/// The parameter that a value is or refers to.
pub open spec fn parameter(doc: JsonView, j: JsonView) -> Option<JsonView> {
    component(doc, "#/components/parameters/"@, "parameters"@, j)
}

/// The request body that a value is or refers to.
pub open spec fn request_body(doc: JsonView, j: JsonView) -> Option<JsonView> {
    component(doc, "#/components/requestBodies/"@, "requestBodies"@, j)
}

/// The response that a value is or refers to.
pub open spec fn response(doc: JsonView, j: JsonView) -> Option<JsonView> {
    component(doc, "#/components/responses/"@, "responses"@, j)
}

/// The schema of any object.
pub open spec fn any_object() -> JsonView {
    JsonView::Object(seq![("type"@, JsonView::Text("object"@))])
}

fn any_object_json() -> (r: Json)
    ensures
        r@ == any_object(),
{
    broadcast use crate::json::object_view;

    let mut ms: Vec<(String, Json)> = Vec::new();
    ms.push(("type".to_owned(), Json::text("object")));
    assert(members_view(ms@) =~= seq![("type"@, JsonView::Text("object"@))]);
    Json::Object(ms)
}

/// A schema with its references replaced, the schema of any object when there
/// is none.
pub open spec fn schema_or_object(doc: JsonView, schema: Option<JsonView>) -> JsonView {
    match schema {
        Some(s) => resolved(schemas_of(doc), s, Seq::empty()),
        None => any_object(),
    }
}

/// Whether the member `key` of a value is `true`.
pub open spec fn flag(j: JsonView, key: Seq<char>) -> bool {
    j.get(key) == Some(JsonView::Bool(true))
}

fn read_flag(j: &Json, key: &str) -> (r: bool)
    ensures
        r == flag(j@, key@),
{
    match j.get(key) {
        Some(Json::Bool(b)) => *b,
        _ => false,
    }
}

/// The name of a parameter.
pub open spec fn parameter_name(p: JsonView) -> Seq<char> {
    match p.get("name"@) {
        Some(JsonView::Text(s)) => s,
        _ => Seq::empty(),
    }
}

/// Whether a parameter must be given: one in the path always, any other when
/// it says so.
pub open spec fn parameter_required(p: JsonView) -> bool {
    p.get("in"@) == Some(JsonView::Text("path"@)) || flag(p, "required"@)
}

/// The name of a parameter, its schema and whether it must be given.
pub fn extract_parameter_parts<'a>(param: &'a Json) -> (r: (String, Option<&'a Json>, bool))
    ensures
        r.0@ == parameter_name(param@),
        match r.1 {
            Some(s) => param@.get("schema"@) == Some(s@),
            None => param@.get("schema"@) is None,
        },
        r.2 == parameter_required(param@),
{
    let name: String = match param.get("name") {
        Some(Json::Text(s)) => s.clone(),
        _ => String::new(),
    };
    let in_path: bool = match param.get("in") {
        Some(Json::Text(s)) => crate::text::str_eq(s.as_str(), "path"),
        _ => false,
    };
    (name, param.get("schema"), in_path || read_flag(param, "required"))
}

/// The properties and the required names that the parameters give.
pub open spec fn parameter_parts(doc: JsonView, ps: Seq<JsonView>) -> (
    Seq<(Seq<char>, JsonView)>,
    Seq<JsonView>,
)
    decreases ps.len(),
{
    if ps.len() == 0 {
        (Seq::empty(), Seq::empty())
    } else {
        let (properties, required) = parameter_parts(doc, ps.drop_last());
        match parameter(doc, ps.last()) {
            None => (properties, required),
            Some(p) => (
                with_member(
                    properties,
                    parameter_name(p),
                    schema_or_object(doc, p.get("schema"@)),
                ),
                if parameter_required(p) {
                    required.push(JsonView::Text(parameter_name(p)))
                } else {
                    required
                },
            ),
        }
    }
}

/// The members of the content of a request body or a response.
pub open spec fn content(j: JsonView) -> Seq<(Seq<char>, JsonView)> {
    match j.get("content"@) {
        Some(JsonView::Object(ms)) => ms,
        _ => Seq::empty(),
    }
}

fn read_content<'a>(j: &'a Json) -> (r: Option<&'a Vec<(String, Json)>>)
    ensures
        content(j@) == match r {
            Some(ms) => members_view(ms@),
            None => Seq::empty(),
        },
{
    broadcast use crate::json::object_view;

    match j.get("content") {
        Some(Json::Object(ms)) => {
            assert(Json::Object(*ms)@ == JsonView::Object(members_view(ms@)));
            Some(ms)
        },
        _ => None,
    }
}

/// The schema of a request body: that of `application/json` when there is such
/// a content, that of the first content otherwise.
pub open spec fn body_schema(doc: JsonView, j: JsonView) -> JsonView {
    match request_body(doc, j) {
        None => any_object(),
        Some(body) => {
            let ms = content(body);
            let media = match lookup(ms, "application/json"@) {
                Some(m) => Some(m),
                None => if ms.len() > 0 {
                    Some(ms[0].1)
                } else {
                    None
                },
            };
            match media {
                Some(m) => schema_or_object(doc, m.get("schema"@)),
                None => any_object(),
            }
        },
    }
}

fn resolve_or_object(api: &OpenApi, schema: Option<&Json>) -> (r: Json)
    ensures
        r@ == schema_or_object(
            api@,
            match schema {
                Some(s) => Some(s@),
                None => None,
            },
        ),
{
    match schema {
        Some(s) => schema_to_value(api, s),
        None => any_object_json(),
    }
}

/// The schema of a request body.
pub fn extract_request_body_schema(api: &OpenApi, body_ref: &Json) -> (r: Json)
    ensures
        r@ == body_schema(api@, body_ref@),
{
    let body: &Json = match find_component(
        api,
        "#/components/requestBodies/",
        "requestBodies",
        body_ref,
    ) {
        Some(b) => b,
        None => return any_object_json(),
    };
    let ms: &Vec<(String, Json)> = match read_content(body) {
        Some(ms) => ms,
        None => return any_object_json(),
    };
    match find_member(ms, "application/json") {
        Some(m) => resolve_or_object(api, m.get("schema")),
        None => {
            if ms.len() > 0 {
                assert(members_view(ms@)[0].1 == ms@[0].1@);
                resolve_or_object(api, ms[0].1.get("schema"))
            } else {
                any_object_json()
            }
        },
    }
}

/// Whether a request body must be given.
pub open spec fn body_required(doc: JsonView, j: JsonView) -> bool {
    match request_body(doc, j) {
        Some(b) => flag(b, "required"@),
        None => false,
    }
}

/// Whether a request body must be given.
pub fn is_request_body_required(api: &OpenApi, body_ref: &Json) -> (r: bool)
    ensures
        r == body_required(api@, body_ref@),
{
    match find_component(api, "#/components/requestBodies/", "requestBodies", body_ref) {
        Some(b) => read_flag(b, "required"),
        None => false,
    }
}

/// The input schema of an operation: an object with one property for each
/// parameter that can be found, and the property `body` for the request body.
pub open spec fn input_schema(
    doc: JsonView,
    parameters: Seq<JsonView>,
    body: Option<JsonView>,
) -> JsonView {
    let (properties, required) = parameter_parts(doc, parameters);
    let all_properties = match body {
        Some(b) => with_member(properties, "body"@, body_schema(doc, b)),
        None => properties,
    };
    let all_required = match body {
        Some(b) if body_required(doc, b) => required.push(JsonView::Text("body"@)),
        _ => required,
    };
    let head = seq![
        ("type"@, JsonView::Text("object"@)),
        ("properties"@, JsonView::Object(all_properties)),
    ];
    JsonView::Object(
        if all_required.len() > 0 {
            head.push(("required"@, JsonView::Array(all_required)))
        } else {
            head
        },
    )
}

/// What an optional reference to a value is.
pub open spec fn opt_json_view(o: Option<&Json>) -> Option<JsonView> {
    match o {
        Some(j) => Some(j@),
        None => None,
    }
}

/// Builds the input schema of an operation.
pub fn build_input_schema(
    api: &OpenApi,
    parameters: &Vec<Json>,
    request_body: Option<&Json>,
) -> (r: Result<Json, ToolRegistryError>)
    ensures
        r matches Ok(j) && j@ == input_schema(
            api@,
            items_view(parameters@),
            opt_json_view(request_body),
        ),
{
    broadcast use {crate::json::array_view, crate::json::object_view};

    let ghost ps = items_view(parameters@);
    let mut properties: Vec<(String, Json)> = Vec::new();
    let mut required: Vec<Json> = Vec::new();
    let mut i: usize = 0;
    assert(ps.take(0) =~= Seq::<JsonView>::empty());
    assert(members_view(properties@) =~= Seq::<(Seq<char>, JsonView)>::empty());
    assert(items_view(required@) =~= Seq::<JsonView>::empty());
    while i < parameters.len()
        invariant
            ps == items_view(parameters@),
            i <= parameters@.len(),
            parameter_parts(api@, ps.take(i as int)) == (
                members_view(properties@),
                items_view(required@),
            ),
        decreases parameters@.len() - i,
    {
        proof {
            assert(ps.take(i as int + 1).drop_last() =~= ps.take(i as int));
            assert(ps.take(i as int + 1).last() == parameters@[i as int]@);
        }
        if let Some(param) = find_component(
            api,
            "#/components/parameters/",
            "parameters",
            &parameters[i],
        ) {
            let (name, schema, is_required) = extract_parameter_parts(param);
            let value: Json = resolve_or_object(api, schema);
            properties = set_member(properties, name.as_str(), value);
            if is_required {
                let ghost before = items_view(required@);
                required.push(Json::Text(name));
                assert(items_view(required@) =~= before.push(JsonView::Text(name@)));
            }
        }
        i += 1;
    }
    assert(ps.take(ps.len() as int) =~= ps);
    if let Some(body_ref) = request_body {
        let schema: Json = extract_request_body_schema(api, body_ref);
        properties = set_member(properties, "body", schema);
        if is_request_body_required(api, body_ref) {
            let ghost before = items_view(required@);
            required.push(Json::text("body"));
            assert(items_view(required@) =~= before.push(JsonView::Text("body"@)));
        }
    }
    let mut ms: Vec<(String, Json)> = Vec::new();
    ms.push(("type".to_owned(), Json::text("object")));
    ms.push(("properties".to_owned(), Json::Object(properties)));
    let ghost head = seq![
        ("type"@, JsonView::Text("object"@)),
        ("properties"@, JsonView::Object(members_view(properties@))),
    ];
    assert(members_view(ms@) =~= head);
    if required.len() > 0 {
        let ghost names = items_view(required@);
        ms.push(("required".to_owned(), Json::Array(required)));
        assert(members_view(ms@) =~= head.push(("required"@, JsonView::Array(names))));
    }
    Ok(Json::Object(ms))
}

// ── Accepted media type ─────────────────────────────────────────────────────

/// What a versioned media type begins with.
pub const VND_PREFIX: &'static str = "application/vnd.allegro.";

/// What a versioned media type ends with.
pub const JSON_SUFFIX: &'static str = "+json";

/// Whether a media type is one of Allegro's versioned ones.
pub open spec fn is_versioned(key: Seq<char>) -> bool {
    has_prefix(key, VND_PREFIX@) && has_suffix(key, JSON_SUFFIX@)
}

/// Whether a media type is one of Allegro's versioned ones.
pub fn is_allegro_versioned_media_type(key: &str) -> (r: bool)
    ensures
        r == is_versioned(key@),
{
    starts_with(key, VND_PREFIX) && ends_with(key, JSON_SUFFIX)
}

/// The first versioned media type among the names of a content.
pub open spec fn first_versioned(ms: Seq<(Seq<char>, JsonView)>) -> Option<Seq<char>>
    decreases ms.len(),
{
    if ms.len() == 0 {
        None
    } else if is_versioned(ms[0].0) {
        Some(ms[0].0)
    } else {
        first_versioned(ms.drop_first())
    }
}

fn find_versioned(j: &Json) -> (r: Option<String>)
    ensures
        opt_view(r) == first_versioned(content(j@)),
{
    let ms: &Vec<(String, Json)> = match read_content(j) {
        Some(ms) => ms,
        None => return None,
    };
    let ghost all = members_view(ms@);
    let mut i: usize = 0;
    assert(all.skip(0) =~= all);
    while i < ms.len()
        invariant
            all == members_view(ms@),
            all == content(j@),
            i <= ms@.len(),
            first_versioned(all) == first_versioned(all.skip(i as int)),
        decreases ms@.len() - i,
    {
        assert(all.skip(i as int)[0].0 == ms@[i as int].0@);
        if is_allegro_versioned_media_type(ms[i].0.as_str()) {
            return Some(ms[i].0.clone());
        }
        assert(all.skip(i as int).drop_first() =~= all.skip(i as int + 1));
        i += 1;
    }
    None
}

/// The versioned media type of a request body.
pub open spec fn body_media(doc: JsonView, body: Option<JsonView>) -> Option<Seq<char>> {
    match body {
        Some(j) => match request_body(doc, j) {
            Some(b) => first_versioned(content(b)),
            None => None,
        },
        None => None,
    }
}

/// The versioned media type of a response.
pub open spec fn response_media(doc: JsonView, j: JsonView) -> Option<Seq<char>> {
    match response(doc, j) {
        Some(r) => first_versioned(content(r)),
        None => None,
    }
}

/// The status code that the name of a response gives: three digits.
pub open spec fn status_code(key: Seq<char>) -> Option<nat> {
    if key.len() == 3 && all_digits(key) {
        Some(digits_value(key))
    } else {
        None
    }
}

/// Whether the name of a response gives a status code of success.
pub open spec fn is_success(key: Seq<char>) -> bool {
    status_code(key) matches Some(n) && 200 <= n < 300
}

/// Whether a name among the responses stands for a status code or a range of
/// them.
pub open spec fn is_status(key: Seq<char>) -> bool {
    key != "default"@ && !has_prefix(key, "x-"@)
}

/// Among the responses with a success code and a versioned media type, the one
/// with the smallest code: the code and the media type.
pub open spec fn best_success(doc: JsonView, ms: Seq<(Seq<char>, JsonView)>) -> Option<
    (nat, Seq<char>),
>
    decreases ms.len(),
{
    if ms.len() == 0 {
        None
    } else {
        let front = best_success(doc, ms.drop_last());
        let (key, value) = ms.last();
        match response_media(doc, value) {
            Some(media) if is_success(key) => match front {
                Some((code, _)) if code <= status_code(key)->0 => front,
                _ => Some((status_code(key)->0, media)),
            },
            _ => front,
        }
    }
}

/// The versioned media type of the first response with another code that has
/// one.
pub open spec fn first_other(doc: JsonView, ms: Seq<(Seq<char>, JsonView)>) -> Option<Seq<char>>
    decreases ms.len(),
{
    if ms.len() == 0 {
        None
    } else if is_status(ms[0].0) && !is_success(ms[0].0) && response_media(doc, ms[0].1) is Some {
        response_media(doc, ms[0].1)
    } else {
        first_other(doc, ms.drop_first())
    }
}

/// The versioned media type of the responses: that of the smallest success
/// code, then that of the other codes in order, then that of the default.
pub open spec fn responses_media(doc: JsonView, ms: Seq<(Seq<char>, JsonView)>) -> Option<
    Seq<char>,
> {
    match best_success(doc, ms) {
        Some((_, media)) => Some(media),
        None => match first_other(doc, ms) {
            Some(media) => Some(media),
            None => match lookup(ms, "default"@) {
                Some(d) => response_media(doc, d),
                None => None,
            },
        },
    }
}

/// The versioned media type of an operation: that of the request body, that of
/// the responses otherwise.
pub open spec fn accept_media_type(
    doc: JsonView,
    body: Option<JsonView>,
    responses: Seq<(Seq<char>, JsonView)>,
) -> Option<Seq<char>> {
    match body_media(doc, body) {
        Some(media) => Some(media),
        None => responses_media(doc, responses),
    }
}

fn read_status_code(key: &str) -> (r: Option<u64>)
    ensures
        match r {
            Some(n) => status_code(key@) == Some(n as nat),
            None => status_code(key@) is None,
        },
{
    let cs: Vec<char> = chars_of(key);
    if cs.len() != 3 {
        return None;
    }
    if cs[0] == '+' {
        assert(!crate::text::is_digit(key@[0]));
        return None;
    }
    match parse_unsigned(key, 999) {
        Some(n) => Some(n),
        None => {
            proof {
                if all_digits(key@) {
                    three_digits(key@);
                }
            }
            None
        },
    }
}

proof fn three_digits(s: Seq<char>)
    requires
        s.len() == 3,
        all_digits(s),
    ensures
        digits_value(s) <= 999,
{
    reveal_with_fuel(digits_value, 4);
    assert(crate::text::is_digit(s[0]));
    assert(crate::text::is_digit(s[1]));
    assert(crate::text::is_digit(s[2]));
    assert(s.drop_last().last() == s[1]);
    assert(s.drop_last().drop_last().last() == s[0]);
}

fn find_response_media(api: &OpenApi, j: &Json) -> (r: Option<String>)
    ensures
        opt_view(r) == response_media(api@, j@),
{
    match find_component(api, "#/components/responses/", "responses", j) {
        Some(response) => find_versioned(response),
        None => None,
    }
}

/// The versioned media type that an operation accepts, `None` when it names
/// none.
pub fn extract_accept_media_type(
    api: &OpenApi,
    request_body: Option<&Json>,
    responses: &Vec<(String, Json)>,
) -> (r: Option<String>)
    ensures
        opt_view(r) == accept_media_type(
            api@,
            opt_json_view(request_body),
            members_view(responses@),
        ),
{
    if let Some(j) = request_body {
        if let Some(body) = find_component(
            api,
            "#/components/requestBodies/",
            "requestBodies",
            j,
        ) {
            if let Some(media) = find_versioned(body) {
                return Some(media);
            }
        }
    }
    let ghost all = members_view(responses@);
    assert(body_media(api@, opt_json_view(request_body)) is None);
    let mut best: Option<(u64, String)> = None;
    let mut i: usize = 0;
    assert(all.take(0) =~= Seq::<(Seq<char>, JsonView)>::empty());
    while i < responses.len()
        invariant
            all == members_view(responses@),
            i <= responses@.len(),
            match best {
                Some((n, media)) => best_success(api@, all.take(i as int)) == Some(
                    (n as nat, media@),
                ),
                None => best_success(api@, all.take(i as int)) is None,
            },
        decreases responses@.len() - i,
    {
        proof {
            assert(all.take(i as int + 1).drop_last() =~= all.take(i as int));
            assert(all.take(i as int + 1).last() == all[i as int]);
        }
        if let Some(n) = read_status_code(responses[i].0.as_str()) {
            if 200 <= n && n < 300 {
                if let Some(media) = find_response_media(api, &responses[i].1) {
                    let better: bool = match &best {
                        Some((code, _)) => n < *code,
                        None => true,
                    };
                    if better {
                        best = Some((n, media));
                    }
                }
            }
        }
        i += 1;
    }
    assert(all.take(all.len() as int) =~= all);
    if let Some((_, media)) = best {
        return Some(media);
    }
    let mut i: usize = 0;
    assert(all.skip(0) =~= all);
    while i < responses.len()
        invariant
            all == members_view(responses@),
            i <= responses@.len(),
            best_success(api@, all) is None,
            body_media(api@, opt_json_view(request_body)) is None,
            first_other(api@, all) == first_other(api@, all.skip(i as int)),
        decreases responses@.len() - i,
    {
        let key: &str = responses[i].0.as_str();
        assert(all.skip(i as int)[0] == all[i as int]);
        let success: bool = match read_status_code(key) {
            Some(n) => 200 <= n && n < 300,
            None => false,
        };
        if !success && !crate::text::str_eq(key, "default") && !starts_with(key, "x-") {
            if let Some(media) = find_response_media(api, &responses[i].1) {
                return Some(media);
            }
        }
        assert(all.skip(i as int).drop_first() =~= all.skip(i as int + 1));
        i += 1;
    }
    match find_member(responses, "default") {
        Some(d) => find_response_media(api, d),
        None => None,
    }
}

// ── Laws ────────────────────────────────────────────────────────────────────

/// Whether an input schema has a property of that name.
pub open spec fn has_property(schema: JsonView, name: Seq<char>) -> bool {
    match schema.get("properties"@) {
        Some(JsonView::Object(ms)) => lookup(ms, name) is Some,
        _ => false,
    }
}

/// Whether an input schema asks for the property of that name.
pub open spec fn asks_for(schema: JsonView, name: Seq<char>) -> bool {
    match schema.get("required"@) {
        Some(JsonView::Array(names)) => names.contains(JsonView::Text(name)),
        _ => false,
    }
}

proof fn input_schema_members(doc: JsonView, ps: Seq<JsonView>, body: Option<JsonView>)
    ensures
        ({
            let (properties, required) = parameter_parts(doc, ps);
            let schema = input_schema(doc, ps, body);
            let all_required = match body {
                Some(b) if body_required(doc, b) => required.push(JsonView::Text("body"@)),
                _ => required,
            };
            &&& schema.get("type"@) == Some(JsonView::Text("object"@))
            &&& schema.get("properties"@) == Some(
                JsonView::Object(
                    match body {
                        Some(b) => with_member(properties, "body"@, body_schema(doc, b)),
                        None => properties,
                    },
                ),
            )
            &&& all_required.len() > 0 ==> schema.get("required"@) == Some(
                JsonView::Array(all_required),
            )
            &&& all_required.len() == 0 ==> schema.get("required"@) is None
        }),
{
    reveal_strlit("type");
    reveal_strlit("properties");
    reveal_strlit("required");
    let ms = input_schema(doc, ps, body)->Object_0;
    assert("type"@.len() == 4 && "properties"@.len() == 10 && "required"@.len() == 8);
    lookup_at(ms, "type"@, 0);
    lookup_at(ms, "properties"@, 1);
    if ms.len() == 3 {
        lookup_at(ms, "required"@, 2);
    } else {
        reveal_with_fuel(lookup, 3);
        assert(ms.drop_first()[0] == ms[1]);
        assert(ms.drop_first().drop_first().len() == 0);
    }
}

proof fn parameter_is_property(doc: JsonView, ps: Seq<JsonView>, i: int)
    requires
        0 <= i < ps.len(),
        parameter(doc, ps[i]) is Some,
    ensures
        lookup(parameter_parts(doc, ps).0, parameter_name(parameter(doc, ps[i])->0)) is Some,
        parameter_required(parameter(doc, ps[i])->0) ==> parameter_parts(doc, ps).1.contains(
            JsonView::Text(parameter_name(parameter(doc, ps[i])->0)),
        ),
    decreases ps.len(),
{
    let p = parameter(doc, ps[i])->0;
    let front = ps.drop_last();
    let (properties, required) = parameter_parts(doc, front);
    if i < ps.len() - 1 {
        parameter_is_property(doc, front, i);
        if parameter_required(p) {
            let k = choose|k: int|
                0 <= k < required.len() && required[k] == JsonView::Text(parameter_name(p));
            assert(parameter_parts(doc, ps).1[k] == JsonView::Text(parameter_name(p)));
        }
    } else if parameter_required(p) {
        assert(parameter_parts(doc, ps).1[required.len() as int] == JsonView::Text(
            parameter_name(p),
        ));
    }
    if let Some(last) = parameter(doc, ps.last()) {
        lookup_with_member(
            properties,
            parameter_name(last),
            schema_or_object(doc, last.get("schema"@)),
            parameter_name(p),
        );
    }
}

proof fn required_parameter_is_property(doc: JsonView, ps: Seq<JsonView>, name: Seq<char>)
    requires
        parameter_parts(doc, ps).1.contains(JsonView::Text(name)),
    ensures
        lookup(parameter_parts(doc, ps).0, name) is Some,
    decreases ps.len(),
{
    let names = parameter_parts(doc, ps).1;
    let k = choose|k: int| 0 <= k < names.len() && names[k] == JsonView::Text(name);
    let (properties, required) = parameter_parts(doc, ps.drop_last());
    if k < required.len() {
        assert(required[k] == JsonView::Text(name));
        required_parameter_is_property(doc, ps.drop_last(), name);
    }
    if let Some(last) = parameter(doc, ps.last()) {
        lookup_with_member(
            properties,
            parameter_name(last),
            schema_or_object(doc, last.get("schema"@)),
            name,
        );
    }
}

/// Every parameter that can be found is a property of the input schema, and
/// one that must be given, as every one in the path, is asked for.
pub proof fn parameters_are_properties(
    doc: JsonView,
    ps: Seq<JsonView>,
    body: Option<JsonView>,
    i: int,
)
    requires
        0 <= i < ps.len(),
        parameter(doc, ps[i]) is Some,
    ensures
        has_property(input_schema(doc, ps, body), parameter_name(parameter(doc, ps[i])->0)),
        parameter_required(parameter(doc, ps[i])->0) ==> asks_for(
            input_schema(doc, ps, body),
            parameter_name(parameter(doc, ps[i])->0),
        ),
{
    let p = parameter(doc, ps[i])->0;
    let (properties, required) = parameter_parts(doc, ps);
    input_schema_members(doc, ps, body);
    parameter_is_property(doc, ps, i);
    if let Some(b) = body {
        lookup_with_member(properties, "body"@, body_schema(doc, b), parameter_name(p));
    }
    if parameter_required(p) {
        let k = choose|k: int|
            0 <= k < required.len() && required[k] == JsonView::Text(parameter_name(p));
        assert(required.push(JsonView::Text("body"@))[k] == JsonView::Text(parameter_name(p)));
    }
}

/// A request body is the property `body`, which is asked for when the body
/// must be given.
pub proof fn request_body_is_property(doc: JsonView, ps: Seq<JsonView>, body: JsonView)
    ensures
        has_property(input_schema(doc, ps, Some(body)), "body"@),
        body_required(doc, body) ==> asks_for(input_schema(doc, ps, Some(body)), "body"@),
{
    let (properties, required) = parameter_parts(doc, ps);
    input_schema_members(doc, ps, Some(body));
    lookup_with_member(properties, "body"@, body_schema(doc, body), "body"@);
    assert(required.push(JsonView::Text("body"@))[required.len() as int] == JsonView::Text(
        "body"@,
    ));
}

/// An input schema is that of an object, and asks for nothing but properties
/// that it has.
pub proof fn required_inputs_are_properties(
    doc: JsonView,
    ps: Seq<JsonView>,
    body: Option<JsonView>,
    name: Seq<char>,
)
    ensures
        input_schema(doc, ps, body).get("type"@) == Some(JsonView::Text("object"@)),
        asks_for(input_schema(doc, ps, body), name) ==> has_property(
            input_schema(doc, ps, body),
            name,
        ),
{
    let (properties, required) = parameter_parts(doc, ps);
    input_schema_members(doc, ps, body);
    if asks_for(input_schema(doc, ps, body), name) {
        let names = input_schema(doc, ps, body).get("required"@)->0->Array_0;
        let k = choose|k: int| 0 <= k < names.len() && names[k] == JsonView::Text(name);
        if k < required.len() {
            assert(required[k] == JsonView::Text(name));
            required_parameter_is_property(doc, ps, name);
        }
        if let Some(b) = body {
            lookup_with_member(properties, "body"@, body_schema(doc, b), name);
        }
    }
}

proof fn first_versioned_is_versioned(ms: Seq<(Seq<char>, JsonView)>)
    ensures
        first_versioned(ms) matches Some(m) ==> is_versioned(m),
    decreases ms.len(),
{
    if ms.len() > 0 && !is_versioned(ms[0].0) {
        first_versioned_is_versioned(ms.drop_first());
    }
}

proof fn response_media_is_versioned(doc: JsonView, j: JsonView)
    ensures
        response_media(doc, j) matches Some(m) ==> is_versioned(m),
{
    if let Some(r) = response(doc, j) {
        first_versioned_is_versioned(content(r));
    }
}

proof fn responses_media_is_versioned(doc: JsonView, ms: Seq<(Seq<char>, JsonView)>)
    ensures
        best_success(doc, ms) matches Some((_, m)) ==> is_versioned(m),
        first_other(doc, ms) matches Some(m) ==> is_versioned(m),
    decreases ms.len(),
{
    if ms.len() > 0 {
        responses_media_is_versioned(doc, ms.drop_last());
        responses_media_is_versioned(doc, ms.drop_first());
        response_media_is_versioned(doc, ms.last().1);
        response_media_is_versioned(doc, ms[0].1);
    }
}

/// The media type that an operation accepts is always one of Allegro's
/// versioned ones.
pub proof fn accepted_media_type_is_versioned(
    doc: JsonView,
    body: Option<JsonView>,
    responses: Seq<(Seq<char>, JsonView)>,
)
    ensures
        accept_media_type(doc, body, responses) matches Some(m) ==> is_versioned(m),
{
    if let Some(j) = body {
        if let Some(b) = request_body(doc, j) {
            first_versioned_is_versioned(content(b));
        }
    }
    responses_media_is_versioned(doc, responses);
    if let Some(d) = lookup(responses, "default"@) {
        response_media_is_versioned(doc, d);
    }
}

/// Whether `found` is what `j` stands for: `j` itself where it is no reference,
/// else what the section `kind` of the components holds under the name that
/// follows `prefix`, unless that is a reference once more.
pub open spec fn denotes(
    doc: JsonView,
    prefix: Seq<char>,
    kind: Seq<char>,
    j: JsonView,
    found: JsonView,
) -> bool {
    match j.get("$ref"@) {
        Some(JsonView::Text(r)) => {
            &&& has_prefix(r, prefix)
            &&& doc.get("components"@) matches Some(components) && components.get(
                kind,
            ) matches Some(entries) && entries.get(r.skip(prefix.len() as int)) == Some(found)
            &&& !(found.get("$ref"@) matches Some(JsonView::Text(_)))
        },
        _ => found == j,
    }
}

proof fn denoted_component(
    doc: JsonView,
    prefix: Seq<char>,
    kind: Seq<char>,
    j: JsonView,
    found: JsonView,
)
    requires
        denotes(doc, prefix, kind, j, found),
    ensures
        component(doc, prefix, kind, j) == Some(found),
{
}

/// Whether `found` is the request body that `j` stands for.
pub open spec fn denotes_body(doc: JsonView, j: JsonView, found: JsonView) -> bool {
    denotes(doc, "#/components/requestBodies/"@, "requestBodies"@, j, found)
}

/// Whether `found` is the parameter that `j` stands for.
pub open spec fn denotes_parameter(doc: JsonView, j: JsonView, found: JsonView) -> bool {
    denotes(doc, "#/components/parameters/"@, "parameters"@, j, found)
}

/// Whether `found` is the response that `j` stands for.
pub open spec fn denotes_response(doc: JsonView, j: JsonView, found: JsonView) -> bool {
    denotes(doc, "#/components/responses/"@, "responses"@, j, found)
}

/// The property of an input schema.
pub open spec fn property(schema: JsonView, name: Seq<char>) -> Option<JsonView> {
    match schema.get("properties"@) {
        Some(properties) => properties.get(name),
        None => None,
    }
}

/// The property `body` of an input schema is the schema of the request body with
/// its references replaced: that of `application/json` where the body has such a
/// content, that of its first content otherwise, whatever media type that has.
pub proof fn body_property_is_the_body_schema(
    doc: JsonView,
    ps: Seq<JsonView>,
    j: JsonView,
    found: JsonView,
    media: Seq<(Seq<char>, JsonView)>,
    schema: JsonView,
)
    requires
        denotes_body(doc, j, found),
        found.get("content"@) == Some(JsonView::Object(media)),
        match lookup(media, "application/json"@) {
            Some(m) => m.get("schema"@) == Some(schema),
            None => media.len() > 0 && media[0].1.get("schema"@) == Some(schema),
        },
    ensures
        property(input_schema(doc, ps, Some(j)), "body"@) == Some(
            resolved(schemas_of(doc), schema, Seq::empty()),
        ),
        body_schema(doc, j) == resolved(schemas_of(doc), schema, Seq::empty()),
{
    denoted_component(doc, "#/components/requestBodies/"@, "requestBodies"@, j, found);
    input_schema_members(doc, ps, Some(j));
    let (properties, _) = parameter_parts(doc, ps);
    lookup_with_member(properties, "body"@, body_schema(doc, j), "body"@);
}

/// A request body of which no schema is known may be any object.
pub proof fn body_without_schema_is_any_object(doc: JsonView, ps: Seq<JsonView>, j: JsonView)
    requires
        forall|found: JsonView| #[trigger]
            denotes_body(doc, j, found) ==> match found.get("content"@) {
                Some(JsonView::Object(media)) => match lookup(media, "application/json"@) {
                    Some(m) => m.get("schema"@) is None,
                    None => media.len() == 0 || media[0].1.get("schema"@) is None,
                },
                _ => true,
            },
    ensures
        property(input_schema(doc, ps, Some(j)), "body"@) == Some(
            JsonView::Object(seq![("type"@, JsonView::Text("object"@))]),
        ),
{
    if let Some(found) = request_body(doc, j) {
        assert(denotes_body(doc, j, found));
    }
    input_schema_members(doc, ps, Some(j));
    let (properties, _) = parameter_parts(doc, ps);
    lookup_with_member(properties, "body"@, body_schema(doc, j), "body"@);
}

/// Whether the parameter that `j` stands for has that name.
pub open spec fn names(doc: JsonView, j: JsonView, name: Seq<char>) -> bool {
    exists|p: JsonView| #[trigger]
        denotes_parameter(doc, j, p) && p.get("name"@) == Some(JsonView::Text(name))
}

/// Whether the parameter that `j` stands for has that name and must be given: it
/// is one in the path, or says so itself.
pub open spec fn demands(doc: JsonView, j: JsonView, name: Seq<char>) -> bool {
    exists|p: JsonView| #[trigger]
        denotes_parameter(doc, j, p) && p.get("name"@) == Some(JsonView::Text(name)) && (p.get(
            "in"@,
        ) == Some(JsonView::Text("path"@)) || p.get("required"@) == Some(JsonView::Bool(true)))
}

proof fn parameter_is_denoted(doc: JsonView, j: JsonView)
    ensures
        parameter(doc, j) matches Some(p) ==> denotes_parameter(doc, j, p),
        forall|p: JsonView| #[trigger]
            denotes_parameter(doc, j, p) ==> parameter(doc, j) == Some(p),
{
    assert forall|p: JsonView| #[trigger] denotes_parameter(doc, j, p) implies parameter(doc, j)
        == Some(p) by {
        denoted_component(doc, "#/components/parameters/"@, "parameters"@, j, p);
    }
}

proof fn parameter_names(doc: JsonView, j: JsonView, name: Seq<char>)
    requires
        name.len() > 0,
    ensures
        names(doc, j, name) <==> (parameter(doc, j) matches Some(p) && parameter_name(p) == name),
        demands(doc, j, name) <==> (parameter(doc, j) matches Some(p) && parameter_name(p) == name
            && parameter_required(p)),
{
    parameter_is_denoted(doc, j);
    if let Some(p) = parameter(doc, j) {
        assert(denotes_parameter(doc, j, p));
    }
}

proof fn parts_are_the_parameters(doc: JsonView, ps: Seq<JsonView>, name: Seq<char>)
    requires
        name.len() > 0,
    ensures
        lookup(parameter_parts(doc, ps).0, name) is Some <==> exists|i: int|
            0 <= i < ps.len() && names(doc, #[trigger] ps[i], name),
        parameter_parts(doc, ps).1.contains(JsonView::Text(name)) <==> exists|i: int|
            0 <= i < ps.len() && demands(doc, #[trigger] ps[i], name),
    decreases ps.len(),
{
    if ps.len() > 0 {
        let front = ps.drop_last();
        let (properties, required) = parameter_parts(doc, front);
        parts_are_the_parameters(doc, front, name);
        parameter_names(doc, ps.last(), name);
        if let Some(p) = parameter(doc, ps.last()) {
            lookup_with_member(
                properties,
                parameter_name(p),
                schema_or_object(doc, p.get("schema"@)),
                name,
            );
            let longer = required.push(JsonView::Text(parameter_name(p)));
            if required.contains(JsonView::Text(name)) {
                let k = choose|k: int|
                    0 <= k < required.len() && required[k] == JsonView::Text(name);
                assert(longer[k] == JsonView::Text(name));
            }
            if longer.contains(JsonView::Text(name)) && parameter_name(p) != name {
                let k = choose|k: int| 0 <= k < longer.len() && longer[k] == JsonView::Text(name);
                assert(required[k] == JsonView::Text(name));
            }
            assert(longer[required.len() as int] == JsonView::Text(parameter_name(p)));
        }
        if exists|i: int| 0 <= i < front.len() && names(doc, #[trigger] front[i], name) {
            let i = choose|i: int| 0 <= i < front.len() && names(doc, #[trigger] front[i], name);
            assert(ps[i] == front[i]);
        }
        if exists|i: int| 0 <= i < front.len() && demands(doc, #[trigger] front[i], name) {
            let i = choose|i: int| 0 <= i < front.len() && demands(doc, #[trigger] front[i], name);
            assert(ps[i] == front[i]);
        }
        assert(names(doc, ps[ps.len() - 1], name) == names(doc, ps.last(), name));
        assert(demands(doc, ps[ps.len() - 1], name) == demands(doc, ps.last(), name));
        if exists|i: int| 0 <= i < ps.len() && names(doc, #[trigger] ps[i], name) {
            let i = choose|i: int| 0 <= i < ps.len() && names(doc, #[trigger] ps[i], name);
            if i < ps.len() - 1 {
                assert(names(doc, front[i], name));
            }
        }
        if exists|i: int| 0 <= i < ps.len() && demands(doc, #[trigger] ps[i], name) {
            let i = choose|i: int| 0 <= i < ps.len() && demands(doc, #[trigger] ps[i], name);
            if i < ps.len() - 1 {
                assert(demands(doc, front[i], name));
            }
        }
    }
}

/// The properties of an input schema are the parameters and, where there is a
/// request body, `body`: these and no others.
pub proof fn properties_are_the_inputs(
    doc: JsonView,
    ps: Seq<JsonView>,
    body: Option<JsonView>,
    name: Seq<char>,
)
    requires
        name.len() > 0,
    ensures
        property(input_schema(doc, ps, body), name) is Some <==> (exists|i: int|
            0 <= i < ps.len() && names(doc, #[trigger] ps[i], name)) || (body is Some && name
            == "body"@),
{
    input_schema_members(doc, ps, body);
    parts_are_the_parameters(doc, ps, name);
    if let Some(b) = body {
        lookup_with_member(
            parameter_parts(doc, ps).0,
            "body"@,
            body_schema(doc, b),
            name,
        );
    }
}

/// An input schema asks for the parameters in the path, for those that say that
/// they must be given, and for a request body that says so: for these and for
/// nothing else.
pub proof fn what_must_be_given_is_asked_for(
    doc: JsonView,
    ps: Seq<JsonView>,
    body: Option<JsonView>,
    name: Seq<char>,
)
    requires
        name.len() > 0,
    ensures
        asks_for(input_schema(doc, ps, body), name) <==> (exists|i: int|
            0 <= i < ps.len() && demands(doc, #[trigger] ps[i], name)) || (name == "body"@ && (body
            matches Some(j) && exists|found: JsonView| #[trigger]
            denotes_body(doc, j, found) && found.get("required"@) == Some(JsonView::Bool(true)))),
{
    input_schema_members(doc, ps, body);
    parts_are_the_parameters(doc, ps, name);
    let required = parameter_parts(doc, ps).1;
    if let Some(j) = body {
        if let Some(found) = request_body(doc, j) {
            assert(denotes_body(doc, j, found));
        }
        if exists|found: JsonView| #[trigger]
            denotes_body(doc, j, found) && found.get("required"@) == Some(JsonView::Bool(true)) {
            let found = choose|found: JsonView| #[trigger]
                denotes_body(doc, j, found) && found.get("required"@) == Some(
                    JsonView::Bool(true),
                );
            denoted_component(doc, "#/components/requestBodies/"@, "requestBodies"@, j, found);
            assert(body_required(doc, j));
        }
        if body_required(doc, j) {
            let longer = required.push(JsonView::Text("body"@));
            assert(longer[required.len() as int] == JsonView::Text("body"@));
            if required.contains(JsonView::Text(name)) {
                let k = choose|k: int|
                    0 <= k < required.len() && required[k] == JsonView::Text(name);
                assert(longer[k] == JsonView::Text(name));
            }
            if longer.contains(JsonView::Text(name)) && name != "body"@ {
                let k = choose|k: int| 0 <= k < longer.len() && longer[k] == JsonView::Text(name);
                assert(required[k] == JsonView::Text(name));
            }
        }
    }
}

proof fn last_parameter_gives_the_schema(
    doc: JsonView,
    ps: Seq<JsonView>,
    i: int,
    p: JsonView,
    name: Seq<char>,
)
    requires
        0 <= i < ps.len(),
        name.len() > 0,
        denotes_parameter(doc, ps[i], p),
        p.get("name"@) == Some(JsonView::Text(name)),
        forall|k: int| i < k < ps.len() ==> !names(doc, #[trigger] ps[k], name),
    ensures
        lookup(parameter_parts(doc, ps).0, name) == Some(
            schema_or_object(doc, p.get("schema"@)),
        ),
    decreases ps.len(),
{
    let front = ps.drop_last();
    let (properties, _) = parameter_parts(doc, front);
    parameter_is_denoted(doc, ps.last());
    parameter_names(doc, ps.last(), name);
    if let Some(last) = parameter(doc, ps.last()) {
        lookup_with_member(
            properties,
            parameter_name(last),
            schema_or_object(doc, last.get("schema"@)),
            name,
        );
    }
    if i < ps.len() - 1 {
        assert(!names(doc, ps[ps.len() - 1], name));
        assert forall|k: int| i < k < front.len() implies !names(doc, #[trigger] front[k], name) by {
            assert(ps[k] == front[k]);
        }
        last_parameter_gives_the_schema(doc, front, i, p, name);
    }
}

/// The property of a parameter is its schema with the references replaced, that
/// of any object where it has none. Of parameters with the same name the last
/// one counts.
pub proof fn parameter_property_is_its_schema(
    doc: JsonView,
    ps: Seq<JsonView>,
    body: Option<JsonView>,
    i: int,
    p: JsonView,
    name: Seq<char>,
)
    requires
        0 <= i < ps.len(),
        name.len() > 0,
        denotes_parameter(doc, ps[i], p),
        p.get("name"@) == Some(JsonView::Text(name)),
        forall|k: int| i < k < ps.len() ==> !names(doc, #[trigger] ps[k], name),
        body is None || name != "body"@,
    ensures
        property(input_schema(doc, ps, body), name) == Some(
            match p.get("schema"@) {
                Some(schema) => resolved(schemas_of(doc), schema, Seq::empty()),
                None => JsonView::Object(seq![("type"@, JsonView::Text("object"@))]),
            },
        ),
{
    input_schema_members(doc, ps, body);
    last_parameter_gives_the_schema(doc, ps, i, p, name);
    if let Some(b) = body {
        lookup_with_member(
            parameter_parts(doc, ps).0,
            "body"@,
            body_schema(doc, b),
            name,
        );
    }
}

/// Whether a media type begins with `application/vnd.allegro.` and ends with
/// `+json`.
pub open spec fn is_vendor_json(key: Seq<char>) -> bool {
    has_prefix(key, "application/vnd.allegro."@) && has_suffix(key, "+json"@)
}

/// Whether `media` is the first versioned media type that a request body or a
/// response offers.
pub open spec fn first_offered(j: JsonView, media: Seq<char>) -> bool {
    j.get("content"@) matches Some(JsonView::Object(ms)) && exists|i: int|
        0 <= i < ms.len() && (#[trigger] ms[i]).0 == media && is_vendor_json(media) && forall|k: int|
            0 <= k < i ==> !is_vendor_json((#[trigger] ms[k]).0)
}

/// Whether a request body or a response offers no versioned media type.
pub open spec fn none_offered(j: JsonView) -> bool {
    j.get("content"@) matches Some(JsonView::Object(ms)) ==> forall|i: int|
        0 <= i < ms.len() ==> !is_vendor_json((#[trigger] ms[i]).0)
}

proof fn first_versioned_at(ms: Seq<(Seq<char>, JsonView)>, i: int)
    requires
        0 <= i < ms.len(),
        is_vendor_json(ms[i].0),
        forall|k: int| 0 <= k < i ==> !is_vendor_json((#[trigger] ms[k]).0),
    ensures
        first_versioned(ms) == Some(ms[i].0),
    decreases ms.len(),
{
    if i > 0 {
        assert(!is_vendor_json(ms[0].0));
        let rest = ms.drop_first();
        assert forall|k: int| 0 <= k < i - 1 implies !is_vendor_json((#[trigger] rest[k]).0) by {
            assert(rest[k] == ms[k + 1]);
        }
        first_versioned_at(rest, i - 1);
    }
}

proof fn first_versioned_none(ms: Seq<(Seq<char>, JsonView)>)
    requires
        forall|i: int| 0 <= i < ms.len() ==> !is_vendor_json((#[trigger] ms[i]).0),
    ensures
        first_versioned(ms) is None,
    decreases ms.len(),
{
    if ms.len() > 0 {
        assert(!is_vendor_json(ms[0].0));
        let rest = ms.drop_first();
        assert forall|k: int| 0 <= k < rest.len() implies !is_vendor_json((#[trigger] rest[k]).0) by {
            assert(rest[k] == ms[k + 1]);
        }
        first_versioned_none(rest);
    }
}

proof fn offered_is_found(j: JsonView, media: Seq<char>)
    ensures
        first_offered(j, media) ==> first_versioned(content(j)) == Some(media),
        none_offered(j) ==> first_versioned(content(j)) is None,
{
    let ms = content(j);
    if first_offered(j, media) {
        let i = choose|i: int|
            0 <= i < ms.len() && (#[trigger] ms[i]).0 == media && is_vendor_json(media) && forall|
                k: int,
            |
                0 <= k < i ==> !is_vendor_json((#[trigger] ms[k]).0);
        first_versioned_at(ms, i);
    }
    if none_offered(j) {
        first_versioned_none(ms);
    }
}

/// The versioned media type that a request body offers is the one that the
/// operation accepts, whatever its responses offer.
pub proof fn body_media_type_comes_first(
    doc: JsonView,
    j: JsonView,
    found: JsonView,
    responses: Seq<(Seq<char>, JsonView)>,
    media: Seq<char>,
)
    requires
        denotes_body(doc, j, found),
        first_offered(found, media),
    ensures
        accept_media_type(doc, Some(j), responses) == Some(media),
{
    denoted_component(doc, "#/components/requestBodies/"@, "requestBodies"@, j, found);
    offered_is_found(found, media);
}

/// The media type of a response is the first versioned one that it offers.
pub proof fn response_media_is_the_first_offered(
    doc: JsonView,
    j: JsonView,
    found: JsonView,
    media: Seq<char>,
)
    requires
        denotes_response(doc, j, found),
    ensures
        first_offered(found, media) ==> response_media(doc, j) == Some(media),
        none_offered(found) ==> response_media(doc, j) is None,
{
    denoted_component(doc, "#/components/responses/"@, "responses"@, j, found);
    offered_is_found(found, media);
}

/// Whether a request body, if there is one, offers no versioned media type.
pub open spec fn body_offers_none(doc: JsonView, body: Option<JsonView>) -> bool {
    body matches Some(j) ==> forall|found: JsonView| #[trigger]
        denotes_body(doc, j, found) ==> none_offered(found)
}

proof fn body_offers_nothing(doc: JsonView, body: Option<JsonView>)
    requires
        body_offers_none(doc, body),
    ensures
        body_media(doc, body) is None,
{
    if let Some(j) = body {
        if let Some(found) = request_body(doc, j) {
            assert(denotes_body(doc, j, found));
            offered_is_found(found, Seq::empty());
        }
    }
}

/// Whether the name of a response is a status code from 200 to 299.
pub open spec fn is_2xx(key: Seq<char>) -> bool {
    key.len() == 3 && key[0] == '2' && '0' <= key[1] <= '9' && '0' <= key[2] <= '9'
}

/// Whether the one 2xx code is smaller than the other.
pub open spec fn smaller_2xx(a: Seq<char>, b: Seq<char>) -> bool {
    a[1] < b[1] || (a[1] == b[1] && a[2] < b[2])
}

proof fn success_code(key: Seq<char>)
    ensures
        is_success(key) <==> is_2xx(key),
        is_2xx(key) ==> status_code(key) == Some(
            (200 + (key[1] as int - 48) * 10 + (key[2] as int - 48)) as nat,
        ),
{
    if key.len() == 3 {
        crate::text::digit_characters(key[0]);
        crate::text::digit_characters(key[1]);
        crate::text::digit_characters(key[2]);
        reveal_with_fuel(digits_value, 4);
        let a = key.drop_last();
        let b = a.drop_last();
        assert(a.last() == key[1] && b.last() == key[0] && b.drop_last().len() == 0);
        if all_digits(key) {
            assert(crate::text::is_digit(key[0]));
            assert(crate::text::is_digit(key[1]));
            assert(crate::text::is_digit(key[2]));
            assert(digits_value(b.drop_last()) == 0);
            assert(digits_value(b) == digits_value(b.drop_last()) * 10 + (b.last() as u32
                - 48) as nat);
            assert(digits_value(a) == digits_value(b) * 10 + (a.last() as u32 - 48) as nat);
            assert(digits_value(key) == digits_value(a) * 10 + (key.last() as u32 - 48) as nat);
            assert(digits_value(key) == (key[0] as u32 - 48) * 100 + (key[1] as u32 - 48) * 10 + (
            key[2] as u32 - 48));
            assert(200 <= digits_value(key) < 300 ==> key[0] as u32 == 50);
        }
        if is_2xx(key) {
            assert(all_digits(key)) by {
                assert forall|i: int| 0 <= i < key.len() implies crate::text::is_digit(
                    #[trigger] key[i],
                ) by {
                    assert(i == 0 || i == 1 || i == 2);
                }
            }
        }
    }
}

proof fn best_success_at(doc: JsonView, ms: Seq<(Seq<char>, JsonView)>, i: int)
    requires
        0 <= i < ms.len(),
        is_2xx(ms[i].0),
        response_media(doc, ms[i].1) is Some,
        forall|k: int|
            0 <= k < ms.len() && k != i && is_2xx((#[trigger] ms[k]).0) && response_media(
                doc,
                ms[k].1,
            ) is Some ==> smaller_2xx(ms[i].0, ms[k].0),
    ensures
        best_success(doc, ms) == Some((status_code(ms[i].0)->0, response_media(doc, ms[i].1)->0)),
    decreases ms.len(),
{
    let front = ms.drop_last();
    success_code(ms[i].0);
    success_code(ms.last().0);
    if i < ms.len() - 1 {
        assert forall|k: int|
            0 <= k < front.len() && k != i && is_2xx((#[trigger] front[k]).0) && response_media(
                doc,
                front[k].1,
            ) is Some implies smaller_2xx(front[i].0, front[k].0) by {
            assert(front[k] == ms[k]);
        }
        best_success_at(doc, front, i);
        assert(ms[ms.len() - 1] == ms.last());
    } else {
        best_success_above(doc, front, ms[i].0);
    }
}

proof fn best_success_above(doc: JsonView, ms: Seq<(Seq<char>, JsonView)>, key: Seq<char>)
    requires
        is_2xx(key),
        forall|k: int|
            0 <= k < ms.len() && is_2xx((#[trigger] ms[k]).0) && response_media(
                doc,
                ms[k].1,
            ) is Some ==> smaller_2xx(key, ms[k].0),
    ensures
        best_success(doc, ms) matches Some((code, _)) ==> code > status_code(key)->0,
    decreases ms.len(),
{
    if ms.len() > 0 {
        let front = ms.drop_last();
        assert forall|k: int|
            0 <= k < front.len() && is_2xx((#[trigger] front[k]).0) && response_media(
                doc,
                front[k].1,
            ) is Some implies smaller_2xx(key, front[k].0) by {
            assert(front[k] == ms[k]);
        }
        best_success_above(doc, front, key);
        success_code(key);
        success_code(ms.last().0);
        assert(ms[ms.len() - 1] == ms.last());
    }
}

proof fn no_best_success(doc: JsonView, ms: Seq<(Seq<char>, JsonView)>)
    requires
        forall|k: int|
            0 <= k < ms.len() ==> !(is_2xx((#[trigger] ms[k]).0) && response_media(
                doc,
                ms[k].1,
            ) is Some),
    ensures
        best_success(doc, ms) is None,
    decreases ms.len(),
{
    if ms.len() > 0 {
        let front = ms.drop_last();
        assert forall|k: int| 0 <= k < front.len() implies !(is_2xx((#[trigger] front[k]).0)
            && response_media(doc, front[k].1) is Some) by {
            assert(front[k] == ms[k]);
        }
        no_best_success(doc, front);
        success_code(ms.last().0);
        assert(ms[ms.len() - 1] == ms.last());
    }
}

/// Where the request body offers none, the operation accepts the versioned media
/// type of the response with the smallest 2xx code that has one.
pub proof fn smallest_success_gives_the_media_type(
    doc: JsonView,
    body: Option<JsonView>,
    responses: Seq<(Seq<char>, JsonView)>,
    i: int,
)
    requires
        body_offers_none(doc, body),
        0 <= i < responses.len(),
        is_2xx(responses[i].0),
        response_media(doc, responses[i].1) is Some,
        forall|k: int|
            0 <= k < responses.len() && k != i && is_2xx((#[trigger] responses[k]).0)
                && response_media(doc, responses[k].1) is Some ==> smaller_2xx(
                responses[i].0,
                responses[k].0,
            ),
    ensures
        accept_media_type(doc, body, responses) == response_media(doc, responses[i].1),
{
    body_offers_nothing(doc, body);
    best_success_at(doc, responses, i);
}

/// Whether the name of a response is one of a status code or a range of codes,
/// and no code from 200 to 299.
pub open spec fn is_other_status(key: Seq<char>) -> bool {
    !is_2xx(key) && key != "default"@ && !has_prefix(key, "x-"@)
}

proof fn first_other_at(doc: JsonView, ms: Seq<(Seq<char>, JsonView)>, i: int)
    requires
        0 <= i < ms.len(),
        is_other_status(ms[i].0),
        response_media(doc, ms[i].1) is Some,
        forall|k: int|
            0 <= k < i ==> !(is_other_status((#[trigger] ms[k]).0) && response_media(
                doc,
                ms[k].1,
            ) is Some),
    ensures
        first_other(doc, ms) == response_media(doc, ms[i].1),
    decreases ms.len(),
{
    success_code(ms[0].0);
    if i > 0 {
        let rest = ms.drop_first();
        assert(!(is_other_status(ms[0].0) && response_media(doc, ms[0].1) is Some));
        assert forall|k: int| 0 <= k < i - 1 implies !(is_other_status((#[trigger] rest[k]).0)
            && response_media(doc, rest[k].1) is Some) by {
            assert(rest[k] == ms[k + 1]);
        }
        first_other_at(doc, rest, i - 1);
    }
}

proof fn no_other(doc: JsonView, ms: Seq<(Seq<char>, JsonView)>)
    requires
        forall|k: int|
            0 <= k < ms.len() ==> !(is_other_status((#[trigger] ms[k]).0) && response_media(
                doc,
                ms[k].1,
            ) is Some),
    ensures
        first_other(doc, ms) is None,
    decreases ms.len(),
{
    if ms.len() > 0 {
        success_code(ms[0].0);
        let rest = ms.drop_first();
        assert(!(is_other_status(ms[0].0) && response_media(doc, ms[0].1) is Some));
        assert forall|k: int| 0 <= k < rest.len() implies !(is_other_status((#[trigger] rest[k]).0)
            && response_media(doc, rest[k].1) is Some) by {
            assert(rest[k] == ms[k + 1]);
        }
        no_other(doc, rest);
    }
}

/// Where neither the request body nor a 2xx response offers one, the first of the
/// other responses that does gives the media type, and the default response after
/// all of them.
pub proof fn other_responses_give_the_media_type(
    doc: JsonView,
    body: Option<JsonView>,
    responses: Seq<(Seq<char>, JsonView)>,
    i: int,
)
    requires
        body_offers_none(doc, body),
        forall|k: int|
            0 <= k < responses.len() ==> !(is_2xx((#[trigger] responses[k]).0) && response_media(
                doc,
                responses[k].1,
            ) is Some),
        0 <= i <= responses.len(),
        i < responses.len() ==> is_other_status(responses[i].0) && response_media(
            doc,
            responses[i].1,
        ) is Some,
        forall|k: int|
            0 <= k < i ==> !(is_other_status((#[trigger] responses[k]).0) && response_media(
                doc,
                responses[k].1,
            ) is Some),
    ensures
        i < responses.len() ==> accept_media_type(doc, body, responses) == response_media(
            doc,
            responses[i].1,
        ),
        i == responses.len() ==> accept_media_type(doc, body, responses) == match lookup(
            responses,
            "default"@,
        ) {
            Some(d) => response_media(doc, d),
            None => None,
        },
{
    body_offers_nothing(doc, body);
    no_best_success(doc, responses);
    if i < responses.len() {
        first_other_at(doc, responses, i);
    } else {
        no_other(doc, responses);
    }
}

} // verus!
