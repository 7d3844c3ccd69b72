//! Replacing references in a schema by what they refer to.

use vstd::prelude::*;

use crate::json::{
    find_member, items_view, lookup, members_view, Json, JsonView,
};
use crate::schema::parse::OpenApi;
use crate::text::{
    after_prefix, contains_string, has_prefix, strip_prefix, views, with_string,
};

verus! {

broadcast use vstd::string::group_string_axioms;

/// The members of a section of the components of a document.
pub open spec fn section(doc: JsonView, name: Seq<char>) -> Seq<(Seq<char>, JsonView)> {
    match doc.get("components"@) {
        Some(c) => match c.get(name) {
            Some(JsonView::Object(ms)) => ms,
            _ => Seq::empty(),
        },
        None => Seq::empty(),
    }
}

/// The reference that a value is: an object whose member `$ref` is a text.
pub open spec fn reference_of(j: JsonView) -> Option<Seq<char>> {
    match j.get("$ref"@) {
        Some(r) => r.as_text(),
        None => None,
    }
}

/// What every reference to a schema of the components begins with.
pub open spec fn schema_prefix() -> Seq<char> {
    "#/components/schemas/"@
}

/// What a reference to a schema of the components names.
pub open spec fn target(schemas: Seq<(Seq<char>, JsonView)>, reference: Seq<char>) -> Option<
    JsonView,
> {
    match after_prefix(reference, schema_prefix()) {
        Some(name) => lookup(schemas, name),
        None => None,
    }
}

/// How many schemas have not been visited.
pub open spec fn unvisited(
    schemas: Seq<(Seq<char>, JsonView)>,
    visited: Seq<Seq<char>>,
) -> nat
    decreases schemas.len(),
{
    if schemas.len() == 0 {
        0
    } else {
        unvisited(schemas.drop_last(), visited) + if visited.contains(
            schema_prefix() + schemas.last().0,
        ) {
            0nat
        } else {
            1nat
        }
    }
}

proof fn lookup_finds_index(ms: Seq<(Seq<char>, JsonView)>, key: Seq<char>) -> (i: int)
    requires
        lookup(ms, key) is Some,
    ensures
        0 <= i < ms.len(),
        ms[i].0 == key,
    decreases ms.len(),
{
    if ms[0].0 == key {
        0
    } else {
        let k = lookup_finds_index(ms.drop_first(), key);
        k + 1
    }
}

proof fn unvisited_shrinks_at(
    schemas: Seq<(Seq<char>, JsonView)>,
    visited: Seq<Seq<char>>,
    reference: Seq<char>,
    at: int,
)
    requires
        at < schemas.len(),
        at >= 0 ==> reference == schema_prefix() + schemas[at].0 && !visited.contains(reference),
    ensures
        unvisited(schemas, visited.push(reference)) <= unvisited(schemas, visited),
        at >= 0 ==> unvisited(schemas, visited.push(reference)) < unvisited(schemas, visited),
    decreases schemas.len(),
{
    if schemas.len() > 0 {
        let last = schema_prefix() + schemas.last().0;
        let longer = visited.push(reference);
        let front = schemas.drop_last();
        assert(visited.contains(last) ==> longer.contains(last)) by {
            if visited.contains(last) {
                let k = choose|k: int| 0 <= k < visited.len() && visited[k] == last;
                assert(longer[k] == last);
            }
        }
        if at == schemas.len() - 1 {
            unvisited_shrinks_at(front, visited, reference, -1);
            assert(longer[visited.len() as int] == last);
        } else {
            unvisited_shrinks_at(front, visited, reference, at);
        }
    }
}

/// Visiting a schema that has not been visited leaves fewer to visit.
pub proof fn unvisited_shrinks(
    schemas: Seq<(Seq<char>, JsonView)>,
    visited: Seq<Seq<char>>,
    reference: Seq<char>,
)
    requires
        target(schemas, reference) is Some,
        !visited.contains(reference),
    ensures
        unvisited(schemas, visited.push(reference)) < unvisited(schemas, visited),
{
    let name = after_prefix(reference, schema_prefix())->0;
    let at = lookup_finds_index(schemas, name);
    assert(reference =~= schema_prefix() + name);
    unvisited_shrinks_at(schemas, visited, reference, at);
}

/// The schema that a reference leads to, through further references where what
/// it names is one; `None` when it names nothing or leads back to something
/// visited.
pub open spec fn followed(
    schemas: Seq<(Seq<char>, JsonView)>,
    reference: Seq<char>,
    visited: Seq<Seq<char>>,
) -> Option<JsonView>
    decreases unvisited(schemas, visited),
{
    match target(schemas, reference) {
        None => None,
        Some(v) => match reference_of(v) {
            None => Some(v),
            Some(inner) => if visited.contains(inner) || target(schemas, inner) is None {
                None
            } else {
                proof {
                    unvisited_shrinks(schemas, visited, inner);
                }
                followed(schemas, inner, visited.push(inner))
            },
        },
    }
}

/// What stands for a reference that leads back to itself.
pub open spec fn circular() -> JsonView {
    JsonView::Object(
        seq![
            ("type"@, JsonView::Text("object"@)),
            ("description"@, JsonView::Text("circular reference"@)),
        ],
    )
}

/// What stands for a reference that leads nowhere.
pub open spec fn unresolved(reference: Seq<char>) -> JsonView {
    JsonView::Object(
        seq![
            ("type"@, JsonView::Text("object"@)),
            ("description"@, JsonView::Text("unresolved $ref: "@ + reference)),
        ],
    )
}

/// A reference that leads to a schema names one.
pub proof fn followed_names_a_schema(
    schemas: Seq<(Seq<char>, JsonView)>,
    reference: Seq<char>,
    visited: Seq<Seq<char>>,
)
    ensures
        followed(schemas, reference, visited) is Some ==> target(schemas, reference) is Some,
{
}

/// A value with every reference in it replaced by the schema it leads to.
/// `visited` are the references that are being replaced.
pub open spec fn resolved(
    schemas: Seq<(Seq<char>, JsonView)>,
    value: JsonView,
    visited: Seq<Seq<char>>,
) -> JsonView
    decreases unvisited(schemas, visited), value,
{
    match value {
        JsonView::Object(ms) => match reference_of(value) {
            Some(reference) => if visited.contains(reference) {
                circular()
            } else {
                match followed(schemas, reference, visited.push(reference)) {
                    None => unresolved(reference),
                    Some(schema) => {
                        proof {
                            followed_names_a_schema(schemas, reference, visited.push(reference));
                            unvisited_shrinks(schemas, visited, reference);
                        }
                        resolved(schemas, schema, visited.push(reference))
                    },
                }
            },
            None => JsonView::Object(
                Seq::new(
                    ms.len(),
                    |i: int|
                        if 0 <= i < ms.len() {
                            (ms[i].0, resolved(schemas, ms[i].1, visited))
                        } else {
                            (Seq::empty(), JsonView::Null)
                        },
                ),
            ),
        },
        JsonView::Array(items) => JsonView::Array(
            Seq::new(
                items.len(),
                |i: int|
                    if 0 <= i < items.len() {
                        resolved(schemas, items[i], visited)
                    } else {
                        JsonView::Null
                    },
            ),
        ),
        _ => value,
    }
}

/// The members of a section of the components of a document.
pub fn component_section<'a>(api: &'a OpenApi, name: &str) -> (r: Option<&'a Vec<(String, Json)>>)
    ensures
        section(api@, name@) == match r {
            Some(ms) => members_view(ms@),
            None => Seq::empty(),
        },
{
    broadcast use crate::json::object_view;

    match api.as_json().get("components") {
        Some(c) => match c.get(name) {
            Some(Json::Object(ms)) => {
                assert(Json::Object(*ms)@ == JsonView::Object(members_view(ms@)));
                Some(ms)
            },
            _ => None,
        },
        None => None,
    }
}

/// The reference that a value is.
pub fn reference<'a>(j: &'a Json) -> (r: Option<&'a str>)
    ensures
        match r {
            Some(s) => reference_of(j@) == Some(s@),
            None => reference_of(j@) is None,
        },
{
    match j.get("$ref") {
        Some(v) => v.as_str(),
        None => None,
    }
}

fn find_target<'a>(schemas: &'a Vec<(String, Json)>, reference: &str) -> (r: Option<&'a Json>)
    ensures
        match r {
            Some(j) => target(members_view(schemas@), reference@) == Some(j@),
            None => target(members_view(schemas@), reference@) is None,
        },
{
    match strip_prefix(reference, "#/components/schemas/") {
        Some(name) => find_member(schemas, name.as_str()),
        None => None,
    }
}

/// The schema that a reference leads to.
pub fn resolve_ref_string<'a>(
    schemas: &'a Vec<(String, Json)>,
    reference_text: &str,
    visited: &Vec<String>,
) -> (r: Option<&'a Json>)
    ensures
        match r {
            Some(j) => followed(members_view(schemas@), reference_text@, views(visited@)) == Some(
                j@,
            ),
            None => followed(members_view(schemas@), reference_text@, views(visited@)) is None,
        },
    decreases unvisited(members_view(schemas@), views(visited@)),
{
    let found: &Json = match find_target(schemas, reference_text) {
        Some(v) => v,
        None => return None,
    };
    match reference(found) {
        None => Some(found),
        Some(inner) => {
            if contains_string(visited, inner) || find_target(schemas, inner).is_none() {
                None
            } else {
                proof {
                    unvisited_shrinks(members_view(schemas@), views(visited@), inner@);
                }
                resolve_ref_string(schemas, inner, &with_string(visited, inner))
            }
        },
    }
}

fn sentinel(description: String) -> (r: Json)
    ensures
        r@ == JsonView::Object(
            seq![
                ("type"@, JsonView::Text("object"@)),
                ("description"@, JsonView::Text(description@)),
            ],
        ),
{
    broadcast use crate::json::object_view;

    let mut ms: Vec<(String, Json)> = Vec::new();
    ms.push(("type".to_owned(), Json::text("object")));
    ms.push(("description".to_owned(), Json::Text(description)));
    assert(members_view(ms@) =~= seq![
        ("type"@, JsonView::Text("object"@)),
        ("description"@, JsonView::Text(description@)),
    ]);
    Json::Object(ms)
}

/// Replaces every reference in a value by the schema it leads to.
pub fn resolve_refs_in_value(
    schemas: &Vec<(String, Json)>,
    value: &Json,
    visited: &Vec<String>,
) -> (r: Json)
    ensures
        r@ == resolved(members_view(schemas@), value@, views(visited@)),
    decreases unvisited(members_view(schemas@), views(visited@)), value,
{
    broadcast use {crate::json::array_view, crate::json::object_view};

    let ghost all = members_view(schemas@);
    let ghost seen = views(visited@);
    match value {
        Json::Object(ms) => {
            assert(Json::Object(*ms)@ == JsonView::Object(members_view(ms@)));
            match reference(value) {
                Some(reference_text) => {
                    if contains_string(visited, reference_text) {
                        return sentinel("circular reference".to_owned());
                    }
                    let deeper: Vec<String> = with_string(visited, reference_text);
                    match resolve_ref_string(schemas, reference_text, &deeper) {
                        Some(schema) => {
                            proof {
                                followed_names_a_schema(all, reference_text@, seen.push(reference_text@));
                                unvisited_shrinks(all, seen, reference_text@);
                            }
                            resolve_refs_in_value(schemas, schema, &deeper)
                        },
                        None => sentinel("unresolved $ref: ".to_owned().concat(reference_text)),
                    }
                },
                None => {
                    let mut out: Vec<(String, Json)> = Vec::new();
                    let mut i: usize = 0;
                    let ghost want = resolved(all, value@, seen)->Object_0;
                    while i < ms.len()
                        invariant
                            value matches Json::Object(w) && *ms == w,
                            all == members_view(schemas@),
                            seen == views(visited@),
                            i <= ms@.len(),
                            want.len() == ms@.len(),
                            forall|k: int|
                                0 <= k < ms@.len() ==> #[trigger] want[k] == (
                                    ms@[k].0@,
                                    resolved(all, ms@[k].1@, seen),
                                ),
                            members_view(out@) =~= want.take(i as int),
                        decreases ms@.len() - i,
                    {
                        let v: Json = resolve_refs_in_value(schemas, &ms[i].1, visited);
                        let ghost before = members_view(out@);
                        out.push((ms[i].0.clone(), v));
                        assert(members_view(out@) =~= before.push(want[i as int]));
                        assert(want.take(i as int + 1) =~= want.take(i as int).push(want[i as int]));
                        i += 1;
                    }
                    assert(want.take(want.len() as int) =~= want);
                    Json::Object(out)
                },
            }
        },
        Json::Array(items) => {
            assert(Json::Array(*items)@ == JsonView::Array(items_view(items@)));
            let mut out: Vec<Json> = Vec::new();
            let mut i: usize = 0;
            let ghost want = resolved(all, value@, seen)->Array_0;
            while i < items.len()
                invariant
                    value matches Json::Array(w) && *items == w,
                    all == members_view(schemas@),
                    seen == views(visited@),
                    i <= items@.len(),
                    want.len() == items@.len(),
                    forall|k: int|
                        0 <= k < items@.len() ==> #[trigger] want[k] == resolved(
                            all,
                            items@[k]@,
                            seen,
                        ),
                    items_view(out@) =~= want.take(i as int),
                decreases items@.len() - i,
            {
                let v: Json = resolve_refs_in_value(schemas, &items[i], visited);
                let ghost before = items_view(out@);
                out.push(v);
                assert(items_view(out@) =~= before.push(want[i as int]));
                assert(want.take(i as int + 1) =~= want.take(i as int).push(want[i as int]));
                i += 1;
            }
            assert(want.take(want.len() as int) =~= want);
            Json::Array(out)
        },
        other => other.clone(),
    }
}

/// The schemas of a document.
pub open spec fn schemas_of(doc: JsonView) -> Seq<(Seq<char>, JsonView)> {
    section(doc, "schemas"@)
}

/// A schema of a document with its references replaced.
pub fn resolve_schema(api: &OpenApi, schema: &Json, visited: &Vec<String>) -> (r: Json)
    ensures
        r@ == resolved(schemas_of(api@), schema@, views(visited@)),
{
    match component_section(api, "schemas") {
        Some(schemas) => resolve_refs_in_value(schemas, schema, visited),
        None => {
            let none: Vec<(String, Json)> = Vec::new();
            assert(members_view(none@) =~= Seq::<(Seq<char>, JsonView)>::empty());
            resolve_refs_in_value(&none, schema, visited)
        },
    }
}

/// A schema of a document with its references replaced, none being replaced
/// already.
pub fn schema_to_value(api: &OpenApi, schema: &Json) -> (r: Json)
    ensures
        r@ == resolved(schemas_of(api@), schema@, Seq::empty()),
{
    let none: Vec<String> = Vec::new();
    assert(views(none@) =~= Seq::<Seq<char>>::empty());
    resolve_schema(api, schema, &none)
}

// ── Laws ────────────────────────────────────────────────────────────────────

/// Whether no reference is left anywhere in a value.
pub open spec fn reference_free(j: JsonView) -> bool
    decreases j,
{
    match j {
        JsonView::Object(ms) => reference_of(j) is None && forall|i: int|
            0 <= i < ms.len() ==> reference_free((#[trigger] ms[i]).1),
        JsonView::Array(items) => forall|i: int|
            0 <= i < items.len() ==> reference_free(#[trigger] items[i]),
        _ => true,
    }
}

/// Whether no schema of the components is a bare text: in the place of a
/// `$ref` such a text would become a reference of its own.
pub open spec fn no_schema_is_text(schemas: Seq<(Seq<char>, JsonView)>) -> bool {
    forall|i: int| 0 <= i < schemas.len() ==> (#[trigger] schemas[i]).1 !is Text
}

proof fn lookup_value_index(ms: Seq<(Seq<char>, JsonView)>, key: Seq<char>) -> (i: int)
    requires
        lookup(ms, key) is Some,
    ensures
        0 <= i < ms.len(),
        lookup(ms, key) == Some(ms[i].1),
    decreases ms.len(),
{
    if ms[0].0 == key {
        0
    } else {
        lookup_value_index(ms.drop_first(), key) + 1
    }
}

proof fn lookup_in_mapped(
    ms: Seq<(Seq<char>, JsonView)>,
    other: Seq<(Seq<char>, JsonView)>,
    key: Seq<char>,
) -> (i: int)
    requires
        ms.len() == other.len(),
        forall|k: int| 0 <= k < ms.len() ==> (#[trigger] ms[k]).0 == other[k].0,
    ensures
        match (lookup(ms, key), lookup(other, key)) {
            (None, None) => true,
            (Some(a), Some(b)) => 0 <= i < ms.len() && a == ms[i].1 && b == other[i].1,
            _ => false,
        },
    decreases ms.len(),
{
    if ms.len() == 0 {
        0
    } else if ms[0].0 == key {
        assert(other[0].0 == key);
        0
    } else {
        assert(other[0].0 != key);
        let a = ms.drop_first();
        let b = other.drop_first();
        assert forall|k: int| 0 <= k < a.len() implies (#[trigger] a[k]).0 == b[k].0 by {
            assert(ms[k + 1].0 == other[k + 1].0);
        }
        lookup_in_mapped(a, b, key) + 1
    }
}

proof fn followed_is_no_reference(
    schemas: Seq<(Seq<char>, JsonView)>,
    reference: Seq<char>,
    visited: Seq<Seq<char>>,
)
    requires
        no_schema_is_text(schemas),
        followed(schemas, reference, visited) is Some,
    ensures
        followed(schemas, reference, visited)->0 !is Text,
        reference_of(followed(schemas, reference, visited)->0) is None,
    decreases unvisited(schemas, visited),
{
    let v = target(schemas, reference)->0;
    let name = after_prefix(reference, schema_prefix())->0;
    let i = lookup_value_index(schemas, name);
    assert(schemas[i].1 !is Text);
    if let Some(inner) = reference_of(v) {
        unvisited_shrinks(schemas, visited, inner);
        followed_is_no_reference(schemas, inner, visited.push(inner));
    }
}

proof fn sentinel_is_reference_free(description: Seq<char>)
    ensures
        reference_free(
            JsonView::Object(
                seq![
                    ("type"@, JsonView::Text("object"@)),
                    ("description"@, JsonView::Text(description)),
                ],
            ),
        ),
{
    reveal_strlit("type");
    reveal_strlit("description");
    reveal_strlit("$ref");
    let ms = seq![
        ("type"@, JsonView::Text("object"@)),
        ("description"@, JsonView::Text(description)),
    ];
    assert("type"@[0] != "$ref"@[0]);
    assert("description"@[0] != "$ref"@[0]);
    assert(ms.drop_first()[0] == ms[1]);
    assert(ms.drop_first().drop_first() =~= Seq::<(Seq<char>, JsonView)>::empty());
    reveal_with_fuel(lookup, 4);
    assert(lookup(ms, "$ref"@) is None);
    assert forall|i: int| 0 <= i < ms.len() implies reference_free((#[trigger] ms[i]).1) by {}
}

/// Replacing the references of a value leaves none anywhere in it, whatever
/// the references refer to, themselves included.
pub proof fn resolving_leaves_no_reference(
    schemas: Seq<(Seq<char>, JsonView)>,
    value: JsonView,
    visited: Seq<Seq<char>>,
)
    requires
        no_schema_is_text(schemas),
    ensures
        reference_free(resolved(schemas, value, visited)),
        value !is Text ==> resolved(schemas, value, visited) !is Text,
    decreases unvisited(schemas, visited), value,
{
    match value {
        JsonView::Object(ms) => match reference_of(value) {
            Some(reference) => {
                if visited.contains(reference) {
                    sentinel_is_reference_free("circular reference"@);
                } else {
                    let deeper = visited.push(reference);
                    match followed(schemas, reference, deeper) {
                        None => {
                            sentinel_is_reference_free("unresolved $ref: "@ + reference);
                        },
                        Some(schema) => {
                            followed_names_a_schema(schemas, reference, deeper);
                            followed_is_no_reference(schemas, reference, deeper);
                            unvisited_shrinks(schemas, visited, reference);
                            resolving_leaves_no_reference(schemas, schema, deeper);
                        },
                    }
                }
            },
            None => {
                let after = resolved(schemas, value, visited)->Object_0;
                assert forall|i: int| 0 <= i < ms.len() implies reference_free(
                    (#[trigger] after[i]).1,
                ) && (ms[i].1 !is Text ==> after[i].1 !is Text) by {
                    resolving_leaves_no_reference(schemas, ms[i].1, visited);
                }
                let i = lookup_in_mapped(ms, after, "$ref"@);
                assert(reference_of(JsonView::Object(after)) is None);
            },
        },
        JsonView::Array(items) => {
            let after = resolved(schemas, value, visited)->Array_0;
            assert forall|i: int| 0 <= i < items.len() implies reference_free(
                #[trigger] after[i],
            ) by {
                resolving_leaves_no_reference(schemas, items[i], visited);
            }
        },
        _ => {},
    }
}

/// Replacing the references of a value that has none changes nothing.
pub proof fn resolving_keeps_what_has_no_reference(
    schemas: Seq<(Seq<char>, JsonView)>,
    value: JsonView,
    visited: Seq<Seq<char>>,
)
    requires
        reference_free(value),
    ensures
        resolved(schemas, value, visited) == value,
    decreases value,
{
    match value {
        JsonView::Object(ms) => {
            let after = resolved(schemas, value, visited)->Object_0;
            assert forall|i: int| 0 <= i < ms.len() implies #[trigger] after[i] == ms[i] by {
                assert(reference_free(ms[i].1));
                resolving_keeps_what_has_no_reference(schemas, ms[i].1, visited);
            }
            assert(after =~= ms);
        },
        JsonView::Array(items) => {
            let after = resolved(schemas, value, visited)->Array_0;
            assert forall|i: int| 0 <= i < items.len() implies #[trigger] after[i] == items[i] by {
                assert(reference_free(items[i]));
                resolving_keeps_what_has_no_reference(schemas, items[i], visited);
            }
            assert(after =~= items);
        },
        _ => {},
    }
}

/// Replacing the references a second time changes nothing more.
pub proof fn resolving_twice_is_once(
    schemas: Seq<(Seq<char>, JsonView)>,
    value: JsonView,
    visited: Seq<Seq<char>>,
)
    requires
        no_schema_is_text(schemas),
    ensures
        resolved(schemas, resolved(schemas, value, visited), visited) == resolved(
            schemas,
            value,
            visited,
        ),
{
    resolving_leaves_no_reference(schemas, value, visited);
    resolving_keeps_what_has_no_reference(schemas, resolved(schemas, value, visited), visited);
}

/// Whether `value` is a reference to the schema `schema` of the components,
/// under the name `name`.
pub open spec fn refers_to(
    schemas: Seq<(Seq<char>, JsonView)>,
    value: JsonView,
    name: Seq<char>,
    schema: JsonView,
) -> bool {
    &&& value.get("$ref"@) == Some(JsonView::Text("#/components/schemas/"@ + name))
    &&& lookup(schemas, name) == Some(schema)
}

proof fn reference_text(name: Seq<char>)
    ensures
        after_prefix("#/components/schemas/"@ + name, schema_prefix()) == Some(name),
{
    let whole = "#/components/schemas/"@ + name;
    assert(whole.take("#/components/schemas/"@.len() as int) =~= "#/components/schemas/"@);
    assert(whole.skip("#/components/schemas/"@.len() as int) =~= name);
}

/// A reference that is not being replaced already gives the schema it names,
/// with the references of that schema replaced, itself now being one that must
/// not occur again.
pub proof fn reference_gives_its_schema(
    schemas: Seq<(Seq<char>, JsonView)>,
    value: JsonView,
    name: Seq<char>,
    schema: JsonView,
    visited: Seq<Seq<char>>,
)
    requires
        refers_to(schemas, value, name, schema),
        !visited.contains("#/components/schemas/"@ + name),
        schema.get("$ref"@) matches Some(r) ==> r !is Text,
    ensures
        resolved(schemas, value, visited) == resolved(
            schemas,
            schema,
            visited.push("#/components/schemas/"@ + name),
        ),
{
    reference_text(name);
    assert(reference_of(value) == Some("#/components/schemas/"@ + name));
    assert(reference_of(schema) is None);
}

/// A reference that is being replaced already is cut off with a note.
pub proof fn cycle_is_cut_off(
    schemas: Seq<(Seq<char>, JsonView)>,
    value: JsonView,
    reference: Seq<char>,
    visited: Seq<Seq<char>>,
)
    requires
        value.get("$ref"@) == Some(JsonView::Text(reference)),
        visited.contains(reference),
    ensures
        resolved(schemas, value, visited) == JsonView::Object(
            seq![
                ("type"@, JsonView::Text("object"@)),
                ("description"@, JsonView::Text("circular reference"@)),
            ],
        ),
{
}

/// A reference to a schema that the components do not have is replaced by a
/// note that shows it.
pub proof fn missing_schema_is_noted(
    schemas: Seq<(Seq<char>, JsonView)>,
    value: JsonView,
    name: Seq<char>,
    visited: Seq<Seq<char>>,
)
    requires
        value.get("$ref"@) == Some(JsonView::Text("#/components/schemas/"@ + name)),
        lookup(schemas, name) is None,
        !visited.contains("#/components/schemas/"@ + name),
    ensures
        resolved(schemas, value, visited) == JsonView::Object(
            seq![
                ("type"@, JsonView::Text("object"@)),
                (
                    "description"@,
                    JsonView::Text("unresolved $ref: "@ + ("#/components/schemas/"@ + name)),
                ),
            ],
        ),
{
    reference_text(name);
}

/// What is no reference keeps its shape: an object its names in their order, an
/// array its length, and what stands in them is replaced piece by piece.
pub proof fn the_rest_keeps_its_shape(
    schemas: Seq<(Seq<char>, JsonView)>,
    value: JsonView,
    visited: Seq<Seq<char>>,
)
    requires
        value.get("$ref"@) matches Some(r) ==> r !is Text,
    ensures
        match value {
            JsonView::Object(ms) => resolved(schemas, value, visited) matches JsonView::Object(out)
                && out.len() == ms.len() && forall|i: int|
                0 <= i < ms.len() ==> (#[trigger] out[i]).0 == ms[i].0 && out[i].1 == resolved(
                    schemas,
                    ms[i].1,
                    visited,
                ),
            JsonView::Array(items) => resolved(schemas, value, visited) matches JsonView::Array(out)
                && out.len() == items.len() && forall|i: int|
                0 <= i < items.len() ==> #[trigger] out[i] == resolved(schemas, items[i], visited),
            _ => resolved(schemas, value, visited) == value,
        },
{
    assert(reference_of(value) is None);
}

/// Whether every reference in a value names a schema, every reference in that
/// schema too, and so on, and `depth` such steps come to an end.
pub open spec fn closes(
    schemas: Seq<(Seq<char>, JsonView)>,
    value: JsonView,
    depth: nat,
) -> bool
    decreases depth, value,
{
    match value {
        JsonView::Object(ms) => match value.get("$ref"@) {
            Some(JsonView::Text(reference)) => depth > 0 && has_prefix(
                reference,
                "#/components/schemas/"@,
            ) && match lookup(schemas, reference.skip("#/components/schemas/"@.len() as int)) {
                Some(schema) => closes(schemas, schema, (depth - 1) as nat),
                None => false,
            },
            _ => forall|i: int| 0 <= i < ms.len() ==> closes(schemas, (#[trigger] ms[i]).1, depth),
        },
        JsonView::Array(items) => forall|i: int|
            0 <= i < items.len() ==> closes(schemas, #[trigger] items[i], depth),
        _ => true,
    }
}

/// A value with the schema that a reference names written out in the place of
/// every reference, at every depth.
pub open spec fn written_out(
    schemas: Seq<(Seq<char>, JsonView)>,
    value: JsonView,
    depth: nat,
) -> JsonView
    decreases depth, value,
{
    match value {
        JsonView::Object(ms) => match value.get("$ref"@) {
            Some(JsonView::Text(reference)) => if depth > 0 {
                match lookup(schemas, reference.skip("#/components/schemas/"@.len() as int)) {
                    Some(schema) => written_out(schemas, schema, (depth - 1) as nat),
                    None => JsonView::Null,
                }
            } else {
                JsonView::Null
            },
            _ => JsonView::Object(
                Seq::new(
                    ms.len(),
                    |i: int|
                        if 0 <= i < ms.len() {
                            (ms[i].0, written_out(schemas, ms[i].1, depth))
                        } else {
                            (Seq::empty(), JsonView::Null)
                        },
                ),
            ),
        },
        JsonView::Array(items) => JsonView::Array(
            Seq::new(
                items.len(),
                |i: int|
                    if 0 <= i < items.len() {
                        written_out(schemas, items[i], depth)
                    } else {
                        JsonView::Null
                    },
            ),
        ),
        _ => value,
    }
}

/// A reference, as a value.
pub open spec fn bare_reference(reference: Seq<char>) -> JsonView {
    JsonView::Object(seq![("$ref"@, JsonView::Text(reference))])
}

proof fn bare_reference_is_one(reference: Seq<char>)
    ensures
        bare_reference(reference).get("$ref"@) == Some(JsonView::Text(reference)),
        reference_of(bare_reference(reference)) == Some(reference),
{
    let ms = seq![("$ref"@, JsonView::Text(reference))];
    assert(ms[0].0 == "$ref"@);
    assert(lookup(ms, "$ref"@) == Some(ms[0].1));
}

/// More steps than needed change nothing.
proof fn closes_further(
    schemas: Seq<(Seq<char>, JsonView)>,
    value: JsonView,
    depth: nat,
    more: nat,
)
    requires
        closes(schemas, value, depth),
        depth <= more,
    ensures
        closes(schemas, value, more),
        written_out(schemas, value, more) == written_out(schemas, value, depth),
    decreases depth, value,
{
    match value {
        JsonView::Object(ms) => match value.get("$ref"@) {
            Some(JsonView::Text(reference)) => {
                let name = reference.skip("#/components/schemas/"@.len() as int);
                closes_further(
                    schemas,
                    lookup(schemas, name)->0,
                    (depth - 1) as nat,
                    (more - 1) as nat,
                );
            },
            _ => {
                let a = written_out(schemas, value, depth)->Object_0;
                let b = written_out(schemas, value, more)->Object_0;
                let inner = value->Object_0;
                assert forall|i: int| 0 <= i < inner.len() implies closes(
                    schemas,
                    (#[trigger] inner[i]).1,
                    more,
                ) && a[i] == b[i] by {
                    closes_further(schemas, inner[i].1, depth, more);
                }
                assert(a =~= b);
            },
        },
        JsonView::Array(items) => {
            let a = written_out(schemas, value, depth)->Array_0;
            let b = written_out(schemas, value, more)->Array_0;
            let inner = value->Array_0;
            assert forall|i: int| 0 <= i < inner.len() implies closes(
                schemas,
                #[trigger] inner[i],
                more,
            ) && a[i] == b[i] by {
                closes_further(schemas, inner[i], depth, more);
            }
            assert(a =~= b);
        },
        _ => {},
    }
}

/// The fewest steps that a value needs.
proof fn fewest_steps(
    schemas: Seq<(Seq<char>, JsonView)>,
    value: JsonView,
    depth: nat,
) -> (least: nat)
    requires
        closes(schemas, value, depth),
    ensures
        least <= depth,
        closes(schemas, value, least),
        least > 0 ==> !closes(schemas, value, (least - 1) as nat),
    decreases depth,
{
    if depth > 0 && closes(schemas, value, (depth - 1) as nat) {
        fewest_steps(schemas, value, (depth - 1) as nat)
    } else {
        depth
    }
}

/// Whether none of the references comes to an end within `depth` steps.
spec fn all_longer(
    schemas: Seq<(Seq<char>, JsonView)>,
    visited: Seq<Seq<char>>,
    depth: nat,
) -> bool {
    forall|i: int|
        0 <= i < visited.len() ==> !closes(schemas, bare_reference(#[trigger] visited[i]), depth)
}

proof fn all_longer_below(
    schemas: Seq<(Seq<char>, JsonView)>,
    visited: Seq<Seq<char>>,
    depth: nat,
    less: nat,
)
    requires
        all_longer(schemas, visited, depth),
        less <= depth,
    ensures
        all_longer(schemas, visited, less),
{
    assert forall|i: int| 0 <= i < visited.len() implies !closes(
        schemas,
        bare_reference(#[trigger] visited[i]),
        less,
    ) by {
        if closes(schemas, bare_reference(visited[i]), less) {
            closes_further(schemas, bare_reference(visited[i]), less, depth);
        }
    }
}

/// What a reference closes like does not depend on what else stands beside it.
proof fn reference_closes_alike(
    schemas: Seq<(Seq<char>, JsonView)>,
    value: JsonView,
    reference: Seq<char>,
    depth: nat,
)
    requires
        value.get("$ref"@) == Some(JsonView::Text(reference)),
    ensures
        closes(schemas, value, depth) == closes(schemas, bare_reference(reference), depth),
        written_out(schemas, value, depth) == written_out(
            schemas,
            bare_reference(reference),
            depth,
        ),
{
    bare_reference_is_one(reference);
}

/// Following a reference that comes to an end finds the schema at its end.
proof fn closing_reference_is_followed(
    schemas: Seq<(Seq<char>, JsonView)>,
    reference: Seq<char>,
    visited: Seq<Seq<char>>,
    depth: nat,
) -> (rest: nat)
    requires
        closes(schemas, bare_reference(reference), depth),
        depth > 0,
        all_longer(schemas, visited, (depth - 1) as nat),
    ensures
        rest < depth,
        followed(schemas, reference, visited) is Some,
        closes(schemas, followed(schemas, reference, visited)->0, rest),
        written_out(schemas, followed(schemas, reference, visited)->0, rest) == written_out(
            schemas,
            bare_reference(reference),
            depth,
        ),
    decreases depth,
{
    bare_reference_is_one(reference);
    let name = reference.skip("#/components/schemas/"@.len() as int);
    let schema = lookup(schemas, name)->0;
    assert(target(schemas, reference) == Some(schema));
    let below = (depth - 1) as nat;
    assert(closes(schemas, schema, below));
    match reference_of(schema) {
        None => below,
        Some(inner) => {
            reference_closes_alike(schemas, schema, inner, below);
            bare_reference_is_one(inner);
            assert(!visited.contains(inner)) by {
                if visited.contains(inner) {
                    let k = choose|k: int| 0 <= k < visited.len() && visited[k] == inner;
                    assert(!closes(schemas, bare_reference(visited[k]), below));
                }
            }
            let least = fewest_steps(schemas, bare_reference(inner), below);
            closes_further(schemas, bare_reference(inner), least, below);
            assert(least > 0);
            let deeper = visited.push(inner);
            all_longer_below(schemas, visited, below, (least - 1) as nat);
            assert(all_longer(schemas, deeper, (least - 1) as nat));
            let innermost = inner.skip("#/components/schemas/"@.len() as int);
            assert(target(schemas, inner) == lookup(schemas, innermost));
            unvisited_shrinks(schemas, visited, inner);
            closing_reference_is_followed(schemas, inner, deeper, least)
        },
    }
}

proof fn closing_value_is_written_out(
    schemas: Seq<(Seq<char>, JsonView)>,
    value: JsonView,
    visited: Seq<Seq<char>>,
    depth: nat,
)
    requires
        closes(schemas, value, depth),
        all_longer(schemas, visited, depth),
    ensures
        resolved(schemas, value, visited) == written_out(schemas, value, depth),
    decreases depth, value,
{
    match value {
        JsonView::Object(ms) => match reference_of(value) {
            Some(reference) => {
                reference_closes_alike(schemas, value, reference, depth);
                bare_reference_is_one(reference);
                assert(!visited.contains(reference)) by {
                    if visited.contains(reference) {
                        let k = choose|k: int| 0 <= k < visited.len() && visited[k] == reference;
                        assert(!closes(schemas, bare_reference(visited[k]), depth));
                    }
                }
                let least = fewest_steps(schemas, bare_reference(reference), depth);
                closes_further(schemas, bare_reference(reference), least, depth);
                let deeper = visited.push(reference);
                all_longer_below(schemas, visited, depth, (least - 1) as nat);
                assert(all_longer(schemas, deeper, (least - 1) as nat));
                let rest = closing_reference_is_followed(schemas, reference, deeper, least);
                all_longer_below(schemas, deeper, (least - 1) as nat, rest);
                closing_value_is_written_out(
                    schemas,
                    followed(schemas, reference, deeper)->0,
                    deeper,
                    rest,
                );
            },
            None => {
                let inner = value->Object_0;
                let a = resolved(schemas, value, visited)->Object_0;
                let b = written_out(schemas, value, depth)->Object_0;
                assert forall|i: int| 0 <= i < inner.len() implies #[trigger] a[i] == b[i] by {
                    assert(closes(schemas, inner[i].1, depth));
                    closing_value_is_written_out(schemas, inner[i].1, visited, depth);
                }
                assert(a =~= b);
            },
        },
        JsonView::Array(_) => {
            let inner = value->Array_0;
            let a = resolved(schemas, value, visited)->Array_0;
            let b = written_out(schemas, value, depth)->Array_0;
            assert forall|i: int| 0 <= i < inner.len() implies #[trigger] a[i] == b[i] by {
                assert(closes(schemas, inner[i], depth));
                closing_value_is_written_out(schemas, inner[i], visited, depth);
            }
            assert(a =~= b);
        },
        _ => {},
    }
}

/// Where every reference names a schema and there is no cycle among them, the
/// schemas are written out in full: in the place of each reference stands what
/// it names, at every depth, and no note stands anywhere for one.
pub proof fn schemas_without_cycle_are_written_out(
    schemas: Seq<(Seq<char>, JsonView)>,
    value: JsonView,
    depth: nat,
)
    requires
        closes(schemas, value, depth),
    ensures
        resolved(schemas, value, Seq::empty()) == written_out(schemas, value, depth),
{
    closing_value_is_written_out(schemas, value, Seq::empty(), depth);
}

/// The schemas of a document are those of its section `components`.
pub proof fn schemas_stand_in_the_components(
    doc: JsonView,
    components: JsonView,
    schemas: Seq<(Seq<char>, JsonView)>,
)
    requires
        doc.get("components"@) == Some(components),
        components.get("schemas"@) == Some(JsonView::Object(schemas)),
    ensures
        schemas_of(doc) == schemas,
{
}

} // verus!
