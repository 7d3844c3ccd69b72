//! Making tools from the operations of an OpenAPI document.

use vstd::prelude::*;

use super::ref_resolver::{reference, reference_of};
use super::schema_builder::{
    accept_media_type, build_input_schema, extract_accept_media_type, input_schema, opt_json_view,
};
use super::{tool_views, ToolDef, ToolRegistryError, ToolView};
use crate::json::{items_view, lookup, members_view, Json, JsonView};
use crate::schema::parse::OpenApi;
use crate::text::{
    chars_of, contains_string, decimal, decimal_value, has_prefix, join, joined, joining_appends,
    lower_ascii, lower_ascii_char, opt_view, push_decimal, split, split_on,
    splitting_finds_the_last_part, starts_with, string_of, to_lower_ascii, views,
};

verus! {

broadcast use vstd::string::group_string_axioms;

// ── Names ───────────────────────────────────────────────────────────────────

/// Whether Rust's standard library counts a character as alphanumeric.
pub uninterp spec fn unicode_alphanumeric(c: char) -> bool;

/// `char::is_alphanumeric`, by Unicode's tables: a function of the character
/// alone.
pub assume_specification[ char::is_alphanumeric ](c: char) -> (r: bool)
    ensures
        r == unicode_alphanumeric(c),
;

/// Whether a character is a letter or a digit.
pub open spec fn is_alphanumeric(c: char) -> bool {
    if (c as u32) < 128 {
        ('a' <= c && c <= 'z') || ('A' <= c && c <= 'Z') || ('0' <= c && c <= '9')
    } else {
        unicode_alphanumeric(c)
    }
}

/// A character of a name: a letter or a digit, its ASCII capitals made small,
/// an underscore for anything else.
pub open spec fn name_char(c: char) -> char {
    if is_alphanumeric(c) {
        lower_ascii_char(c)
    } else {
        '_'
    }
}

fn to_name_char(c: char) -> (r: char)
    ensures
        r == name_char(c),
{
    if (c as u32) < 128 {
        if 'A' <= c && c <= 'Z' {
            (c as u8 + 32) as char
        } else if ('a' <= c && c <= 'z') || ('0' <= c && c <= '9') {
            c
        } else {
            '_'
        }
    } else if c.is_alphanumeric() {
        c
    } else {
        '_'
    }
}

/// `s` with every character made one of a name and one underscore for each run
/// of them, none at the front.
pub open spec fn squeezed(s: Seq<char>) -> Seq<char>
    decreases s.len(),
{
    if s.len() == 0 {
        s
    } else {
        let front = squeezed(s.drop_last());
        let c = name_char(s.last());
        if c == '_' && (front.len() == 0 || front.last() == '_') {
            front
        } else {
            front.push(c)
        }
    }
}

/// The name made of a text: letters and digits, and one underscore between
/// those that something else separates.
pub open spec fn sanitized(s: Seq<char>) -> Seq<char> {
    let t = squeezed(s);
    if t.len() > 0 && t.last() == '_' {
        t.drop_last()
    } else {
        t
    }
}

/// Makes a name of a text: letters and digits, small where they are ASCII, and
/// one underscore between those that something else separates.
pub fn sanitize_name(raw: &str) -> (r: String)
    ensures
        r@ == sanitized(raw@),
{
    let cs: Vec<char> = chars_of(raw);
    let mut out: Vec<char> = Vec::new();
    let mut i: usize = 0;
    assert(raw@.take(0) =~= Seq::<char>::empty());
    while i < cs.len()
        invariant
            cs@ == raw@,
            i <= cs@.len(),
            out@ == squeezed(raw@.take(i as int)),
        decreases cs@.len() - i,
    {
        let c: char = to_name_char(cs[i]);
        proof {
            assert(raw@.take(i as int + 1).drop_last() =~= raw@.take(i as int));
            assert(raw@.take(i as int + 1).last() == cs@[i as int]);
        }
        if !(c == '_' && (out.len() == 0 || out[out.len() - 1] == '_')) {
            out.push(c);
        }
        i += 1;
    }
    assert(raw@.take(raw@.len() as int) =~= raw@);
    let n: usize = out.len();
    if n > 0 && out[n - 1] == '_' {
        let r: String = string_of(&out, 0, n - 1);
        assert(r@ =~= squeezed(raw@).drop_last());
        r
    } else {
        let r: String = string_of(&out, 0, n);
        assert(r@ =~= squeezed(raw@));
        r
    }
}

/// Whether a text has the shape of a name: every character is one of a name,
/// no underscore stands at an end, and no two stand side by side.
pub open spec fn is_name(s: Seq<char>) -> bool {
    &&& forall|i: int| 0 <= i < s.len() ==> name_char(#[trigger] s[i]) == s[i]
    &&& s.len() > 0 ==> s[0] != '_' && s.last() != '_'
    &&& forall|i: int| 0 < i < s.len() && #[trigger] s[i] == '_' ==> s[i - 1] != '_'
}

proof fn name_char_is_stable(c: char)
    ensures
        name_char(name_char(c)) == name_char(c),
{
}

proof fn squeezed_shape(s: Seq<char>)
    ensures
        forall|i: int| 0 <= i < squeezed(s).len() ==> name_char(#[trigger] squeezed(s)[i])
            == squeezed(s)[i],
        squeezed(s).len() > 0 ==> squeezed(s)[0] != '_',
        forall|i: int|
            0 < i < squeezed(s).len() && #[trigger] squeezed(s)[i] == '_' ==> squeezed(s)[i - 1]
                != '_',
    decreases s.len(),
{
    if s.len() > 0 {
        squeezed_shape(s.drop_last());
        name_char_is_stable(s.last());
        let front = squeezed(s.drop_last());
        let t = squeezed(s);
        if t != front {
            assert forall|i: int| 0 <= i < t.len() implies name_char(#[trigger] t[i]) == t[i] by {
                if i < front.len() {
                    assert(t[i] == front[i]);
                }
            }
            assert forall|i: int| 0 < i < t.len() && #[trigger] t[i] == '_' implies t[i - 1]
                != '_' by {
                if i < front.len() {
                    assert(t[i] == front[i]);
                    assert(t[i - 1] == front[i - 1]);
                } else {
                    assert(t[i - 1] == front.last());
                }
            }
            if front.len() > 0 {
                assert(t[0] == front[0]);
            }
        }
    }
}

/// Every name has the shape of one.
pub proof fn sanitized_is_name(s: Seq<char>)
    ensures
        is_name(sanitized(s)),
{
    squeezed_shape(s);
    let t = squeezed(s);
    let r = sanitized(s);
    assert forall|i: int| 0 <= i < r.len() implies name_char(#[trigger] r[i]) == r[i] by {
        assert(r[i] == t[i]);
    }
    assert forall|i: int| 0 < i < r.len() && #[trigger] r[i] == '_' implies r[i - 1] != '_' by {
        assert(r[i] == t[i] && r[i - 1] == t[i - 1]);
    }
    if t.len() > 0 && t.last() == '_' && r.len() > 0 {
        assert(t[t.len() - 1] == '_');
        assert(r.last() == t[t.len() - 2]);
        assert(r[0] == t[0]);
    }
}

proof fn squeezed_of_name(s: Seq<char>, n: int)
    requires
        is_name(s),
        0 <= n <= s.len(),
    ensures
        squeezed(s.take(n)) == s.take(n),
    decreases n,
{
    if n > 0 {
        squeezed_of_name(s, n - 1);
        let t = s.take(n);
        assert(t.drop_last() =~= s.take(n - 1));
        assert(name_char(s[n - 1]) == s[n - 1]);
        assert(squeezed(t) =~= t);
    }
}

/// Making a name of a name changes nothing.
pub proof fn sanitizing_twice_is_once(s: Seq<char>)
    ensures
        sanitized(sanitized(s)) == sanitized(s),
{
    sanitized_is_name(s);
    let t = sanitized(s);
    squeezed_of_name(t, t.len() as int);
    assert(t.take(t.len() as int) =~= t);
}

/// The names made of those parts of a path that are not empty.
pub open spec fn segment_names(parts: Seq<Seq<char>>) -> Seq<Seq<char>>
    decreases parts.len(),
{
    if parts.len() == 0 {
        Seq::empty()
    } else {
        let front = segment_names(parts.drop_last());
        if parts.last().len() == 0 {
            front
        } else {
            front.push(sanitized(parts.last()))
        }
    }
}

/// The name made of a method and a path.
pub open spec fn derived_name(method: Seq<char>, path: Seq<char>) -> Seq<char> {
    let segments = joined(segment_names(split_on(path, '/')), "_"@);
    if segments.len() == 0 {
        sanitized(method)
    } else {
        lower_ascii(method) + "_"@ + segments
    }
}

/// Makes a name of an HTTP method and a path.
pub fn derive_name_from_path(method: &str, path: &str) -> (r: String)
    ensures
        r@ == derived_name(method@, path@),
{
    let parts: Vec<String> = split(path, '/');
    let mut names: Vec<String> = Vec::new();
    let mut i: usize = 0;
    assert(views(parts@).take(0) =~= Seq::<Seq<char>>::empty());
    assert(views(names@) =~= Seq::<Seq<char>>::empty());
    while i < parts.len()
        invariant
            i <= parts@.len(),
            views(names@) == segment_names(views(parts@).take(i as int)),
        decreases parts@.len() - i,
    {
        proof {
            let t = views(parts@).take(i as int + 1);
            assert(t.drop_last() =~= views(parts@).take(i as int));
            assert(t.last() == parts@[i as int]@);
        }
        if !parts[i].as_str().is_empty() {
            let name: String = sanitize_name(parts[i].as_str());
            let ghost before = views(names@);
            names.push(name);
            assert(views(names@) =~= before.push(name@));
        }
        i += 1;
    }
    assert(views(parts@).take(parts@.len() as int) =~= views(parts@));
    let segments: String = join(&names, "_");
    if segments.as_str().is_empty() {
        sanitize_name(method)
    } else {
        to_lower_ascii(method).concat("_").concat(segments.as_str())
    }
}

// ── Unique ids ──────────────────────────────────────────────────────────────

/// The `n`-th way to make an id out of a taken one.
pub open spec fn candidate(base: Seq<char>, n: nat) -> Seq<char> {
    base + "_"@ + decimal(n)
}

/// Whether `r` is the id for `base` when those of `seen` are taken: `base`
/// itself when it is free, the first free candidate from the second on
/// otherwise.
pub open spec fn is_unique_id(r: Seq<char>, base: Seq<char>, seen: Seq<Seq<char>>) -> bool {
    if !seen.contains(base) {
        r == base
    } else {
        exists|n: nat|
            n >= 2 && r == #[trigger] candidate(base, n) && !seen.contains(r) && forall|m: nat|
                2 <= m < n ==> seen.contains(#[trigger] candidate(base, m))
    }
}

proof fn candidates_differ(base: Seq<char>, m: nat, n: nat)
    requires
        candidate(base, m) == candidate(base, n),
    ensures
        m == n,
{
    let head = base + "_"@;
    let a = candidate(base, m);
    let b = candidate(base, n);
    assert(a.skip(head.len() as int) =~= decimal(m));
    assert(b.skip(head.len() as int) =~= decimal(n));
    decimal_value(m);
    decimal_value(n);
}

proof fn taken_candidates_are_few(base: Seq<char>, seen: Seq<Seq<char>>, n: nat)
    requires
        n >= 2,
        forall|m: nat| 2 <= m < n ==> seen.contains(#[trigger] candidate(base, m)),
    ensures
        n - 2 <= seen.len(),
{
    let taken = Seq::new((n - 2) as nat, |i: int| candidate(base, (i + 2) as nat));
    assert forall|i: int, j: int| 0 <= i < taken.len() && 0 <= j < taken.len() && i != j implies taken[i]
        != taken[j] by {
        if taken[i] == taken[j] {
            candidates_differ(base, (i + 2) as nat, (j + 2) as nat);
        }
    }
    assert(taken.no_duplicates());
    taken.unique_seq_to_set();
    seen.lemma_cardinality_of_set();
    vstd::seq_lib::seq_to_set_is_finite(seen);
    assert forall|x: Seq<char>| taken.to_set().contains(x) implies seen.to_set().contains(x) by {
        let i = choose|i: int| 0 <= i < taken.len() && taken[i] == x;
        assert(seen.contains(candidate(base, (i + 2) as nat)));
    }
    vstd::set_lib::lemma_len_subset(taken.to_set(), seen.to_set());
}

/// Makes an id that is not taken: `base` itself when it is free, otherwise with
/// `_2`, `_3` and so on appended.
pub fn deduplicate_id(base: String, seen: &Vec<String>) -> (r: String)
    ensures
        is_unique_id(r@, base@, views(seen@)),
{
    if !contains_string(seen, base.as_str()) {
        return base;
    }
    let ghost taken = views(seen@);
    let count: usize = seen.len();
    let mut n: u128 = 2;
    loop
        invariant
            2 <= n,
            taken == views(seen@),
            taken.contains(base@),
            taken.len() == count,
            count == seen@.len(),
            forall|m: nat| 2 <= m < n ==> taken.contains(#[trigger] candidate(base@, m)),
        decreases count + 3 - n,
    {
        let mut tried: String = base.clone().concat("_");
        push_decimal(&mut tried, n);
        assert(tried@ == candidate(base@, n as nat));
        if !contains_string(seen, tried.as_str()) {
            return tried;
        }
        proof {
            taken_candidates_are_few(base@, taken, n as nat + 1);
        }
        n += 1;
    }
}

/// An id that was made unique is not taken.
pub proof fn unique_id_is_free(r: Seq<char>, base: Seq<char>, seen: Seq<Seq<char>>)
    requires
        is_unique_id(r, base, seen),
    ensures
        !seen.contains(r),
{
}

/// There is only one id that is made unique in this way.
pub proof fn unique_id_is_determined(
    a: Seq<char>,
    b: Seq<char>,
    base: Seq<char>,
    seen: Seq<Seq<char>>,
)
    requires
        is_unique_id(a, base, seen),
        is_unique_id(b, base, seen),
    ensures
        a == b,
{
    if seen.contains(base) {
        let m = choose|n: nat|
            n >= 2 && a == #[trigger] candidate(base, n) && !seen.contains(a) && forall|k: nat|
                2 <= k < n ==> seen.contains(#[trigger] candidate(base, k));
        let n = choose|n: nat|
            n >= 2 && b == #[trigger] candidate(base, n) && !seen.contains(b) && forall|k: nat|
                2 <= k < n ==> seen.contains(#[trigger] candidate(base, k));
        if m < n {
            assert(seen.contains(candidate(base, m)));
        }
        if n < m {
            assert(seen.contains(candidate(base, n)));
        }
    }
}

// ── Operations ──────────────────────────────────────────────────────────────

/// One operation of a document.
pub struct OperationView {
    pub path: Seq<char>,
    pub method: Seq<char>,
    pub operation: JsonView,
}

/// The methods of a path item, in the order in which they are taken.
pub open spec fn method_names() -> Seq<Seq<char>> {
    seq![
        "get"@,
        "put"@,
        "post"@,
        "delete"@,
        "options"@,
        "head"@,
        "patch"@,
        "trace"@,
    ]
}

/// The operations of a path item for the given methods, in their order.
pub open spec fn item_operations(
    path: Seq<char>,
    item: JsonView,
    methods: Seq<Seq<char>>,
) -> Seq<OperationView>
    decreases methods.len(),
{
    if methods.len() == 0 {
        Seq::empty()
    } else {
        let front = item_operations(path, item, methods.drop_last());
        match item.get(methods.last()) {
            Some(operation) => front.push(
                OperationView { path, method: methods.last(), operation },
            ),
            None => front,
        }
    }
}

/// The operations of one entry of the paths: none for an entry that is no path
/// and for one that is a reference.
pub open spec fn entry_operations(path: Seq<char>, item: JsonView) -> Seq<OperationView> {
    if has_prefix(path, "/"@) && reference_of(item) is None {
        item_operations(path, item, method_names())
    } else {
        Seq::empty()
    }
}

/// The operations of the entries of the paths, in order.
pub open spec fn path_operations(ms: Seq<(Seq<char>, JsonView)>) -> Seq<OperationView>
    decreases ms.len(),
{
    if ms.len() == 0 {
        Seq::empty()
    } else {
        path_operations(ms.drop_last()) + entry_operations(ms.last().0, ms.last().1)
    }
}

/// The entries of the paths of a document.
pub open spec fn path_entries(doc: JsonView) -> Seq<(Seq<char>, JsonView)> {
    match doc.get("paths"@) {
        Some(JsonView::Object(ms)) => ms,
        _ => Seq::empty(),
    }
}

/// The operations of a document, in order.
pub open spec fn operations(doc: JsonView) -> Seq<OperationView> {
    path_operations(path_entries(doc))
}

/// One operation of a document.
pub struct OperationRef<'a> {
    pub path: &'a str,
    pub method: &'static str,
    pub operation: &'a Json,
}

impl<'a> View for OperationRef<'a> {
    type V = OperationView;

    open spec fn view(&self) -> OperationView {
        OperationView { path: self.path@, method: self.method@, operation: self.operation@ }
    }
}

/// What the operations of a list are.
pub open spec fn operation_views<'a>(ops: Seq<OperationRef<'a>>) -> Seq<OperationView> {
    ops.map_values(|o: OperationRef<'a>| o@)
}

/// The entries of the paths of a document.
pub fn paths_of<'a>(api: &'a OpenApi) -> (r: Option<&'a Vec<(String, Json)>>)
    ensures
        path_entries(api@) == match r {
            Some(ms) => members_view(ms@),
            None => Seq::empty(),
        },
{
    broadcast use crate::json::object_view;

    match api.as_json().get("paths") {
        Some(Json::Object(ms)) => {
            assert(Json::Object(*ms)@ == JsonView::Object(members_view(ms@)));
            Some(ms)
        },
        _ => None,
    }
}

fn push_operation<'a>(
    ops: &mut Vec<OperationRef<'a>>,
    path: &'a str,
    method: &'static str,
    item: &'a Json,
    methods: Ghost<Seq<Seq<char>>>,
    start: Ghost<Seq<OperationView>>,
)
    requires
        operation_views(old(ops)@) == start@ + item_operations(path@, item@, methods@),
    ensures
        operation_views(final(ops)@) == start@ + item_operations(
            path@,
            item@,
            methods@.push(method@),
        ),
{
    assert(methods@.push(method@).drop_last() =~= methods@);
    if let Some(operation) = item.get(method) {
        let ghost before = operation_views(ops@);
        ops.push(OperationRef { path, method, operation });
        assert(operation_views(ops@) =~= before.push(
            OperationView { path: path@, method: method@, operation: operation@ },
        ));
        assert(operation_views(ops@) =~= start@ + item_operations(
            path@,
            item@,
            methods@.push(method@),
        ));
    }
}

fn push_item<'a>(ops: &mut Vec<OperationRef<'a>>, path: &'a str, item: &'a Json)
    ensures
        operation_views(final(ops)@) == operation_views(old(ops)@) + item_operations(
            path@,
            item@,
            method_names(),
        ),
{
    let ghost start = operation_views(ops@);
    let ghost m0 = Seq::<Seq<char>>::empty();
    assert(start + item_operations(path@, item@, m0) =~= start);
    push_operation(ops, path, "get", item, Ghost(m0), Ghost(start));
    let ghost m1 = m0.push("get"@);
    push_operation(ops, path, "put", item, Ghost(m1), Ghost(start));
    let ghost m2 = m1.push("put"@);
    push_operation(ops, path, "post", item, Ghost(m2), Ghost(start));
    let ghost m3 = m2.push("post"@);
    push_operation(ops, path, "delete", item, Ghost(m3), Ghost(start));
    let ghost m4 = m3.push("delete"@);
    push_operation(ops, path, "options", item, Ghost(m4), Ghost(start));
    let ghost m5 = m4.push("options"@);
    push_operation(ops, path, "head", item, Ghost(m5), Ghost(start));
    let ghost m6 = m5.push("head"@);
    push_operation(ops, path, "patch", item, Ghost(m6), Ghost(start));
    let ghost m7 = m6.push("patch"@);
    push_operation(ops, path, "trace", item, Ghost(m7), Ghost(start));
    assert(m7.push("trace"@) =~= method_names());
}

/// Lists the operations of a document, in order.
pub fn list_operations<'a>(api: &'a OpenApi) -> (r: Vec<OperationRef<'a>>)
    ensures
        operation_views(r@) == operations(api@),
{
    let mut ops: Vec<OperationRef<'a>> = Vec::new();
    assert(operation_views(ops@) =~= Seq::<OperationView>::empty());
    let paths: &'a Vec<(String, Json)> = match paths_of(api) {
        Some(paths) => paths,
        None => return ops,
    };
    let ghost all = members_view(paths@);
    let mut i: usize = 0;
    assert(all.take(0) =~= Seq::<(Seq<char>, JsonView)>::empty());
    while i < paths.len()
        invariant
            all == members_view(paths@),
            i <= paths@.len(),
            operation_views(ops@) == path_operations(all.take(i as int)),
        decreases paths@.len() - i,
    {
        let path: &'a str = paths[i].0.as_str();
        let item: &'a Json = &paths[i].1;
        proof {
            assert(all.take(i as int + 1).drop_last() =~= all.take(i as int));
            assert(all.take(i as int + 1).last() == (path@, item@));
        }
        let ghost before = operation_views(ops@);
        if starts_with(path, "/") && reference(item).is_none() {
            push_item(&mut ops, path, item);
        }
        assert(operation_views(ops@) =~= before + entry_operations(path@, item@));
        i += 1;
    }
    assert(all.take(all.len() as int) =~= all);
    ops
}

// ── Tools ───────────────────────────────────────────────────────────────────

/// The text of a member of an operation.
pub open spec fn text_member(j: JsonView, key: Seq<char>) -> Option<Seq<char>> {
    match j.get(key) {
        Some(v) => v.as_text(),
        None => None,
    }
}

fn read_text_member(j: &Json, key: &str) -> (r: Option<String>)
    ensures
        opt_view(r) == text_member(j@, key@),
{
    match j.get(key) {
        Some(v) => match v.as_str() {
            Some(s) => Some(s.to_owned()),
            None => None,
        },
        None => None,
    }
}

/// What the id of an operation is made from.
pub open spec fn base_id(op: OperationView) -> Seq<char> {
    "allegro_"@ + match text_member(op.operation, "operationId"@) {
        Some(id) => sanitized(id),
        None => derived_name(op.method, op.path),
    }
}

/// The parameters of an operation.
pub open spec fn parameters_of(operation: JsonView) -> Seq<JsonView> {
    match operation.get("parameters"@) {
        Some(JsonView::Array(items)) => items,
        _ => Seq::empty(),
    }
}

/// The responses of an operation.
pub open spec fn responses_of(operation: JsonView) -> Seq<(Seq<char>, JsonView)> {
    match operation.get("responses"@) {
        Some(JsonView::Object(ms)) => ms,
        _ => Seq::empty(),
    }
}

/// Whether `t` is the tool for an operation when the ids of `seen` are taken.
pub open spec fn is_tool(
    doc: JsonView,
    op: OperationView,
    seen: Seq<Seq<char>>,
    t: ToolView,
) -> bool {
    &&& is_unique_id(t.id, base_id(op), seen)
    &&& t.name == t.id
    &&& t.description == match text_member(op.operation, "summary"@) {
        Some(s) => s,
        None => match text_member(op.operation, "description"@) {
            Some(d) => d,
            None => t.id,
        },
    }
    &&& t.input_schema == input_schema(
        doc,
        parameters_of(op.operation),
        op.operation.get("requestBody"@),
    )
    &&& t.method == op.method
    &&& t.path == op.path
    &&& t.accept_media_type == accept_media_type(
        doc,
        op.operation.get("requestBody"@),
        responses_of(op.operation),
    )
}

/// The ids of the first `n` tools.
pub open spec fn ids(tools: Seq<ToolView>, n: int) -> Seq<Seq<char>> {
    Seq::new(n as nat, |i: int| tools[i].id)
}

/// Whether the tools are those of the operations, each made when the ids of
/// those before it are taken.
pub open spec fn is_tool_list(
    doc: JsonView,
    ops: Seq<OperationView>,
    tools: Seq<ToolView>,
) -> bool {
    &&& tools.len() == ops.len()
    &&& forall|i: int|
        0 <= i < ops.len() ==> is_tool(doc, ops[i], ids(tools, i), #[trigger] tools[i])
}

/// Builds the tool for one operation, when the ids of `seen` are taken.
pub fn build_one_tool(api: &OpenApi, op: &OperationRef, seen: &Vec<String>) -> (r: Result<
    ToolDef,
    ToolRegistryError,
>)
    ensures
        r matches Ok(t) && is_tool(api@, op@, views(seen@), t@),
{
    broadcast use {crate::json::array_view, crate::json::object_view};

    let base: String = match read_text_member(op.operation, "operationId") {
        Some(id) => sanitize_name(id.as_str()),
        None => derive_name_from_path(op.method, op.path),
    };
    let id: String = deduplicate_id("allegro_".to_owned().concat(base.as_str()), seen);
    let description: String = match read_text_member(op.operation, "summary") {
        Some(s) => s,
        None => match read_text_member(op.operation, "description") {
            Some(d) => d,
            None => id.clone(),
        },
    };
    let body: Option<&Json> = op.operation.get("requestBody");
    let built: Result<Json, ToolRegistryError> = match op.operation.get("parameters") {
        Some(Json::Array(items)) => {
            assert(Json::Array(*items)@ == JsonView::Array(items_view(items@)));
            build_input_schema(api, items, body)
        },
        _ => {
            let none: Vec<Json> = Vec::new();
            assert(items_view(none@) =~= Seq::<JsonView>::empty());
            build_input_schema(api, &none, body)
        },
    };
    let schema: Json = match built {
        Ok(schema) => schema,
        Err(e) => return Err(e),
    };
    let media: Option<String> = match op.operation.get("responses") {
        Some(Json::Object(ms)) => {
            assert(Json::Object(*ms)@ == JsonView::Object(members_view(ms@)));
            extract_accept_media_type(api, body, ms)
        },
        _ => {
            let none: Vec<(String, Json)> = Vec::new();
            assert(members_view(none@) =~= Seq::<(Seq<char>, JsonView)>::empty());
            extract_accept_media_type(api, body, &none)
        },
    };
    Ok(
        ToolDef {
            id: id.clone(),
            name: id,
            description,
            input_schema: schema,
            method: op.method.to_owned(),
            path: op.path.to_owned(),
            accept_media_type: media,
        },
    )
}

/// Builds the tools for the operations of a document.
pub fn build_tools(api: &OpenApi) -> (r: Result<Vec<ToolDef>, ToolRegistryError>)
    ensures
        r matches Ok(tools) && is_tool_list(api@, operations(api@), tool_views(tools@)),
{
    let ops: Vec<OperationRef> = list_operations(api);
    let ghost want = operations(api@);
    let mut tools: Vec<ToolDef> = Vec::new();
    let mut seen: Vec<String> = Vec::new();
    let mut i: usize = 0;
    while i < ops.len()
        invariant
            want == operation_views(ops@),
            i <= ops@.len(),
            tools@.len() == i,
            views(seen@) =~= ids(tool_views(tools@), i as int),
            forall|k: int|
                0 <= k < i ==> is_tool(
                    api@,
                    want[k],
                    ids(tool_views(tools@), k),
                    #[trigger] tool_views(tools@)[k],
                ),
        decreases ops@.len() - i,
    {
        let tool: ToolDef = match build_one_tool(api, &ops[i], &seen) {
            Ok(tool) => tool,
            Err(e) => return Err(e),
        };
        let ghost before = tool_views(tools@);
        let ghost taken = views(seen@);
        seen.push(tool.id.clone());
        tools.push(tool);
        proof {
            let after = tool_views(tools@);
            assert(after =~= before.push(tool@));
            assert forall|k: int| 0 <= k <= i implies is_tool(
                api@,
                want[k],
                ids(after, k),
                #[trigger] after[k],
            ) by {
                assert(ids(after, k) =~= ids(before, k));
                if k < i {
                    assert(after[k] == before[k]);
                }
            }
            assert(views(seen@) =~= taken.push(tool.id@));
            assert(ids(after, i as int + 1) =~= ids(before, i as int).push(tool.id@));
        }
        i += 1;
    }
    Ok(tools)
}

// ── Laws ────────────────────────────────────────────────────────────────────

/// No two tools of a document have the same id.
pub proof fn tool_ids_are_unique(
    doc: JsonView,
    ops: Seq<OperationView>,
    tools: Seq<ToolView>,
    i: int,
    j: int,
)
    requires
        is_tool_list(doc, ops, tools),
        0 <= i < j < tools.len(),
    ensures
        tools[i].id != tools[j].id,
{
    assert(is_tool(doc, ops[j], ids(tools, j), tools[j]));
    unique_id_is_free(tools[j].id, base_id(ops[j]), ids(tools, j));
    assert(ids(tools, j)[i] == tools[i].id);
}

/// The id of every tool begins with `allegro_`.
pub proof fn tool_ids_are_prefixed(
    doc: JsonView,
    ops: Seq<OperationView>,
    tools: Seq<ToolView>,
    i: int,
)
    requires
        is_tool_list(doc, ops, tools),
        0 <= i < tools.len(),
    ensures
        has_prefix(tools[i].id, "allegro_"@),
{
    let t = tools[i];
    assert(is_tool(doc, ops[i], ids(tools, i), t));
    let p = "allegro_"@;
    let base = base_id(ops[i]);
    assert(base.take(p.len() as int) =~= p);
    assert(t.id.take(p.len() as int) =~= p);
}

/// Whether a text names one of the methods of a path item.
pub open spec fn is_item_method(method: Seq<char>) -> bool {
    method == "get"@ || method == "put"@ || method == "post"@ || method == "delete"@ || method
        == "options"@ || method == "head"@ || method == "patch"@ || method == "trace"@
}

/// Whether a document describes the operation: under a path that begins with a
/// slash, in an entry that is no reference, under the name of its method.
pub open spec fn describes(doc: JsonView, op: OperationView) -> bool {
    doc.get("paths"@) matches Some(JsonView::Object(ms)) && exists|i: int|
        0 <= i < ms.len() && (#[trigger] ms[i]).0 == op.path && op.path.len() > 0 && op.path[0]
            == '/' && !(ms[i].1.get("$ref"@) matches Some(JsonView::Text(_))) && is_item_method(
            op.method,
        ) && ms[i].1.get(op.method) == Some(op.operation)
}

proof fn item_operations_are(
    path: Seq<char>,
    item: JsonView,
    methods: Seq<Seq<char>>,
    op: OperationView,
)
    ensures
        item_operations(path, item, methods).contains(op) <==> op.path == path && methods.contains(
            op.method,
        ) && item.get(op.method) == Some(op.operation),
    decreases methods.len(),
{
    if methods.len() > 0 {
        let before = methods.drop_last();
        let front = item_operations(path, item, before);
        item_operations_are(path, item, before, op);
        assert(methods =~= before.push(methods.last()));
        if before.contains(op.method) {
            let k = choose|k: int| 0 <= k < before.len() && before[k] == op.method;
            assert(methods[k] == op.method);
        }
        if methods.contains(op.method) && op.method != methods.last() {
            let k = choose|k: int| 0 <= k < methods.len() && methods[k] == op.method;
            assert(before[k] == op.method);
        }
        assert(methods[methods.len() - 1] == methods.last());
        if let Some(operation) = item.get(methods.last()) {
            let added = OperationView { path, method: methods.last(), operation };
            let all = front.push(added);
            assert(all[front.len() as int] == added);
            if front.contains(op) {
                let k = choose|k: int| 0 <= k < front.len() && front[k] == op;
                assert(all[k] == op);
            }
            if all.contains(op) && op != added {
                let k = choose|k: int| 0 <= k < all.len() && all[k] == op;
                assert(front[k] == op);
            }
        }
    }
}

proof fn method_names_are(method: Seq<char>)
    ensures
        method_names().contains(method) <==> is_item_method(method),
{
    let names = method_names();
    assert(names[0] == "get"@ && names[1] == "put"@ && names[2] == "post"@ && names[3] == "delete"@
        && names[4] == "options"@ && names[5] == "head"@ && names[6] == "patch"@ && names[7]
        == "trace"@);
    if names.contains(method) {
        let k = choose|k: int| 0 <= k < names.len() && names[k] == method;
        assert(k == 0 || k == 1 || k == 2 || k == 3 || k == 4 || k == 5 || k == 6 || k == 7);
    }
}

proof fn begins_with_slash(path: Seq<char>)
    ensures
        has_prefix(path, "/"@) <==> path.len() > 0 && path[0] == '/',
{
    reveal_strlit("/");
    assert("/"@ =~= seq!['/']);
    if path.len() > 0 {
        assert(path.take(1) =~= seq![path[0]]);
        assert(path.take(1)[0] == path[0]);
        assert(seq!['/'][0] == '/');
    }
}

proof fn path_operations_are(ms: Seq<(Seq<char>, JsonView)>, op: OperationView)
    ensures
        path_operations(ms).contains(op) <==> exists|i: int|
            0 <= i < ms.len() && (#[trigger] ms[i]).0 == op.path && op.path.len() > 0 && op.path[0]
                == '/' && !(ms[i].1.get("$ref"@) matches Some(JsonView::Text(_)))
                && is_item_method(op.method) && ms[i].1.get(op.method) == Some(op.operation),
    decreases ms.len(),
{
    if ms.len() > 0 {
        let before = ms.drop_last();
        let (path, item) = ms.last();
        path_operations_are(before, op);
        item_operations_are(path, item, method_names(), op);
        method_names_are(op.method);
        begins_with_slash(path);
        let front = path_operations(before);
        let added = entry_operations(path, item);
        let all = front + added;
        assert(all.contains(op) <==> front.contains(op) || added.contains(op)) by {
            if front.contains(op) {
                let k = choose|k: int| 0 <= k < front.len() && front[k] == op;
                assert(all[k] == op);
            }
            if added.contains(op) {
                let k = choose|k: int| 0 <= k < added.len() && added[k] == op;
                assert(all[front.len() + k] == op);
            }
            if all.contains(op) {
                let k = choose|k: int| 0 <= k < all.len() && all[k] == op;
                if k < front.len() {
                    assert(front[k] == op);
                } else {
                    assert(added[k - front.len()] == op);
                }
            }
        }
        assert(ms[ms.len() - 1] == ms.last());
        if front.contains(op) {
            let i = choose|i: int|
                0 <= i < before.len() && (#[trigger] before[i]).0 == op.path && op.path.len() > 0
                    && op.path[0] == '/' && !(before[i].1.get("$ref"@) matches Some(
                    JsonView::Text(_),
                )) && is_item_method(op.method) && before[i].1.get(op.method) == Some(
                    op.operation,
                );
            assert(ms[i] == before[i]);
        }
        if exists|i: int|
            0 <= i < ms.len() && (#[trigger] ms[i]).0 == op.path && op.path.len() > 0 && op.path[0]
                == '/' && !(ms[i].1.get("$ref"@) matches Some(JsonView::Text(_)))
                && is_item_method(op.method) && ms[i].1.get(op.method) == Some(op.operation) {
            let i = choose|i: int|
                0 <= i < ms.len() && (#[trigger] ms[i]).0 == op.path && op.path.len() > 0
                    && op.path[0] == '/' && !(ms[i].1.get("$ref"@) matches Some(
                    JsonView::Text(_),
                )) && is_item_method(op.method) && ms[i].1.get(op.method) == Some(op.operation);
            if i < before.len() {
                assert(before[i] == ms[i]);
            }
        }
    }
}

/// The operations of a document are those that it describes, all of them and no
/// others.
pub proof fn operations_are_those_described(doc: JsonView, op: OperationView)
    ensures
        operations(doc).contains(op) <==> describes(doc, op),
{
    path_operations_are(path_entries(doc), op);
}

/// Every operation that a document describes has a tool, which sends its method
/// to its path, takes the arguments that the operation asks for and accepts the
/// media type that it names.
pub proof fn every_operation_has_a_tool(
    doc: JsonView,
    tools: Seq<ToolView>,
    op: OperationView,
)
    requires
        is_tool_list(doc, operations(doc), tools),
        describes(doc, op),
    ensures
        exists|i: int|
            0 <= i < tools.len() && (#[trigger] tools[i]).path == op.path && tools[i].method
                == op.method && tools[i].input_schema == input_schema(
                doc,
                match op.operation.get("parameters"@) {
                    Some(JsonView::Array(items)) => items,
                    _ => Seq::empty(),
                },
                op.operation.get("requestBody"@),
            ) && tools[i].accept_media_type == accept_media_type(
                doc,
                op.operation.get("requestBody"@),
                match op.operation.get("responses"@) {
                    Some(JsonView::Object(ms)) => ms,
                    _ => Seq::empty(),
                },
            ),
{
    operations_are_those_described(doc, op);
    let ops = operations(doc);
    let i = choose|i: int| 0 <= i < ops.len() && ops[i] == op;
    assert(is_tool(doc, ops[i], ids(tools, i), tools[i]));
}

/// Every tool stands for an operation that the document describes.
pub proof fn every_tool_has_an_operation(doc: JsonView, tools: Seq<ToolView>, i: int)
    requires
        is_tool_list(doc, operations(doc), tools),
        0 <= i < tools.len(),
    ensures
        exists|op: OperationView| #[trigger]
            describes(doc, op) && tools[i].path == op.path && tools[i].method == op.method,
{
    let ops = operations(doc);
    let op = ops[i];
    assert(is_tool(doc, op, ids(tools, i), tools[i]));
    assert(ops.contains(op));
    operations_are_those_described(doc, op);
}

/// A tool is described by the summary of its operation, by its description where
/// there is no summary, and by its own name where there is neither. Its name is
/// its id.
pub proof fn tool_says_what_it_does(
    doc: JsonView,
    op: OperationView,
    seen: Seq<Seq<char>>,
    t: ToolView,
)
    requires
        is_tool(doc, op, seen, t),
    ensures
        t.name == t.id,
        match (op.operation.get("summary"@), op.operation.get("description"@)) {
            (Some(JsonView::Text(s)), _) => t.description == s,
            (_, Some(JsonView::Text(d))) => t.description == d,
            _ => t.description == t.id,
        },
{
}

/// The id of a tool is `allegro_` and the name made of the operation's id, with
/// `_2`, `_3` and so on behind it only where the ones before are taken.
pub proof fn tool_is_named_after_its_operation(
    doc: JsonView,
    op: OperationView,
    seen: Seq<Seq<char>>,
    t: ToolView,
    id: Seq<char>,
)
    requires
        is_tool(doc, op, seen, t),
        op.operation.get("operationId"@) == Some(JsonView::Text(id)),
    ensures
        !seen.contains("allegro_"@ + sanitized(id)) ==> t.id == "allegro_"@ + sanitized(id),
        seen.contains("allegro_"@ + sanitized(id)) ==> exists|n: nat|
            n >= 2 && t.id == ("allegro_"@ + sanitized(id)) + "_"@ + #[trigger] decimal(n)
                && forall|m: nat|
                2 <= m < n ==> seen.contains(
                    ("allegro_"@ + sanitized(id)) + "_"@ + #[trigger] decimal(m),
                ),
{
    let base = "allegro_"@ + sanitized(id);
    if seen.contains(base) {
        let n = choose|n: nat|
            n >= 2 && t.id == #[trigger] candidate(base, n) && !seen.contains(t.id) && forall|
                m: nat,
            |
                2 <= m < n ==> seen.contains(#[trigger] candidate(base, m));
        assert(t.id == base + "_"@ + decimal(n));
        assert forall|m: nat| 2 <= m < n implies seen.contains(
            base + "_"@ + #[trigger] decimal(m),
        ) by {
            assert(seen.contains(candidate(base, m)));
        }
    }
}

proof fn squeezed_concat(a: Seq<char>, b: Seq<char>)
    requires
        squeezed(a).len() == 0 || squeezed(a).last() == '_',
    ensures
        squeezed(a + b) == squeezed(a) + squeezed(b),
    decreases b.len(),
{
    if b.len() == 0 {
        assert(a + b =~= a);
        assert(squeezed(a) + squeezed(b) =~= squeezed(a));
    } else {
        let whole = a + b;
        assert(whole.drop_last() =~= a + b.drop_last());
        assert(whole.last() == b.last());
        squeezed_concat(a, b.drop_last());
        let front = squeezed(b.drop_last());
        let both = squeezed(a) + front;
        if front.len() > 0 {
            assert(both.last() == front.last());
        } else {
            assert(both =~= squeezed(a));
        }
        assert(squeezed(whole) =~= squeezed(a) + squeezed(b));
    }
}

/// A character that is neither a letter nor a digit separates: the names of what
/// stands before and behind it are joined by one underscore, and where one of the
/// two has no letter and no digit, the other alone is the name.
pub proof fn names_are_joined_by_underscores(a: Seq<char>, c: char, b: Seq<char>)
    requires
        !is_alphanumeric(c),
    ensures
        sanitized(a + seq![c] + b) == if sanitized(a).len() == 0 {
            sanitized(b)
        } else if sanitized(b).len() == 0 {
            sanitized(a)
        } else {
            sanitized(a) + seq!['_'] + sanitized(b)
        },
{
    let left = a + seq![c];
    assert(left.drop_last() =~= a);
    assert(left.last() == c);
    squeezed_shape(a);
    squeezed_shape(b);
    let sa = squeezed(a);
    if sa.len() > 0 && sa.last() == '_' {
        assert(sa =~= sanitized(a) + seq!['_']);
        assert(sa[0] != '_');
        assert(sanitized(a).len() > 0);
    }
    assert(squeezed(left) =~= if sanitized(a).len() == 0 {
        Seq::<char>::empty()
    } else {
        sanitized(a) + seq!['_']
    });
    squeezed_concat(left, b);
    let sb = squeezed(b);
    let whole = squeezed(left) + sb;
    if sb.len() > 0 {
        assert(whole.last() == sb.last());
        if sb.last() == '_' {
            assert(sb[0] != '_');
            assert(whole.drop_last() =~= squeezed(left) + sb.drop_last());
        }
        assert(sanitized(b).len() > 0);
    } else {
        assert(whole =~= squeezed(left));
        if sanitized(a).len() > 0 {
            assert(whole.drop_last() =~= sanitized(a));
        }
    }
    assert(sanitized(a + seq![c] + b) =~= if sanitized(a).len() == 0 {
        sanitized(b)
    } else if sanitized(b).len() == 0 {
        sanitized(a)
    } else {
        sanitized(a) + seq!['_'] + sanitized(b)
    });
}

/// Letters and digits are kept in a name, with ASCII capitals made small.
pub proof fn letters_and_digits_are_kept(s: Seq<char>)
    requires
        forall|i: int| 0 <= i < s.len() ==> is_alphanumeric(#[trigger] s[i]),
    ensures
        sanitized(s) == lower_ascii(s),
    decreases s.len(),
{
    letters_are_squeezed_to_themselves(s);
    let t = squeezed(s);
    if t.len() > 0 {
        assert(t.last() == lower_ascii_char(s[s.len() - 1]));
        assert(is_alphanumeric(s[s.len() - 1]));
    }
}

proof fn letters_are_squeezed_to_themselves(s: Seq<char>)
    requires
        forall|i: int| 0 <= i < s.len() ==> is_alphanumeric(#[trigger] s[i]),
    ensures
        squeezed(s) == lower_ascii(s),
    decreases s.len(),
{
    if s.len() > 0 {
        let front = s.drop_last();
        assert forall|i: int| 0 <= i < front.len() implies is_alphanumeric(#[trigger] front[i]) by {
            assert(front[i] == s[i]);
        }
        letters_are_squeezed_to_themselves(front);
        assert(is_alphanumeric(s[s.len() - 1]));
        assert(squeezed(s) =~= lower_ascii(s));
    } else {
        assert(squeezed(s) =~= lower_ascii(s));
    }
}

/// Of the ASCII characters, the letters and the digits are those that a name
/// keeps.
pub proof fn ascii_letters_and_digits(c: char)
    requires
        (c as u32) < 128,
    ensures
        is_alphanumeric(c) <==> ('a' <= c <= 'z' || 'A' <= c <= 'Z' || '0' <= c <= '9'),
{
}

/// A name that is taken gets the number 2, or the next one that leaves it free.
pub proof fn taken_names_are_numbered(
    r: Seq<char>,
    base: Seq<char>,
    seen: Seq<Seq<char>>,
    n: nat,
)
    requires
        is_unique_id(r, base, seen),
        seen.contains(base),
        n >= 2,
        !seen.contains(base + "_"@ + decimal(n)),
        forall|m: nat| 2 <= m < n ==> seen.contains(#[trigger] candidate(base, m)),
    ensures
        r == base + "_"@ + decimal(n),
{
    let k = choose|k: nat|
        k >= 2 && r == #[trigger] candidate(base, k) && !seen.contains(r) && forall|m: nat|
            2 <= m < k ==> seen.contains(#[trigger] candidate(base, m));
    assert(!seen.contains(candidate(base, n)));
    assert(k <= n);
    assert(n <= k);
}

/// A candidate is the name, an underscore and a number.
pub proof fn candidates_are_numbered(base: Seq<char>, n: nat)
    ensures
        candidate(base, n) == base + "_"@ + decimal(n),
{
}

/// An operation without a name of its own is named after its method and its path:
/// `get` and `/sale` give `get_sale`, and every further segment of the path goes on
/// behind an underscore.
pub proof fn nameless_operations_are_named_after_their_path(
    method: Seq<char>,
    path: Seq<char>,
    segment: Seq<char>,
)
    requires
        !segment.contains('/'),
        sanitized(segment).len() > 0,
    ensures
        derived_name(method, seq!['/'] + segment) == lower_ascii(method) + "_"@ + sanitized(
            segment,
        ),
        segment_names(split_on(path, '/')).len() > 0 && joined(
            segment_names(split_on(path, '/')),
            "_"@,
        ).len() > 0 ==> derived_name(method, path + seq!['/'] + segment) == derived_name(
            method,
            path,
        ) + "_"@ + sanitized(segment),
{
    let none = Seq::<char>::empty();
    assert(none + seq!['/'] + segment =~= seq!['/'] + segment);
    assert(segment.len() > 0) by {
        if segment.len() == 0 {
            assert(squeezed(segment) == segment);
        }
    }
    splitting_finds_the_last_part(none, '/', segment);
    splitting_finds_the_last_part(none, '/', none);
    splitting_finds_the_last_part(path, '/', segment);
    let first = split_on(none, '/');
    assert(first =~= seq![none]);
    assert(first.drop_last() =~= Seq::<Seq<char>>::empty());
    assert(segment_names(first.drop_last()) =~= Seq::<Seq<char>>::empty());
    assert(segment_names(first) =~= Seq::<Seq<char>>::empty());
    assert(first.push(segment).drop_last() =~= first);
    joining_appends(segment_names(first), sanitized(segment), "_"@);
    let before = split_on(path, '/');
    assert(before.push(segment).drop_last() =~= before);
    joining_appends(segment_names(before), sanitized(segment), "_"@);
    if segment_names(before).len() > 0 && joined(segment_names(before), "_"@).len() > 0 {
        let names = joined(segment_names(before), "_"@);
        assert(lower_ascii(method) + "_"@ + (names + "_"@ + sanitized(segment)) =~= lower_ascii(
            method,
        ) + "_"@ + names + "_"@ + sanitized(segment));
    }
}

/// Operations stand in the order of their paths: those of a further path stand behind
/// all that were there.
pub proof fn operations_stand_in_the_order_of_paths(
    ms: Seq<(Seq<char>, JsonView)>,
    m: (Seq<char>, JsonView),
    i: int,
)
    ensures
        ({
            let before = path_operations(ms);
            let all = path_operations(ms.push(m));
            &&& all.len() >= before.len()
            &&& 0 <= i < before.len() ==> all[i] == before[i]
            &&& before.len() <= i < all.len() ==> all[i].path == m.0
        }),
{
    assert(ms.push(m).drop_last() =~= ms);
    let before = path_operations(ms);
    let all = path_operations(ms.push(m));
    if before.len() <= i < all.len() {
        let added = entry_operations(m.0, m.1);
        assert(all[i] == added[i - before.len()]);
        items_keep_their_path(m.0, m.1, method_names());
    }
}

proof fn items_keep_their_path(path: Seq<char>, item: JsonView, methods: Seq<Seq<char>>)
    ensures
        forall|k: int|
            0 <= k < item_operations(path, item, methods).len() ==> (#[trigger] item_operations(
                path,
                item,
                methods,
            )[k]).path == path,
    decreases methods.len(),
{
    if methods.len() > 0 {
        items_keep_their_path(path, item, methods.drop_last());
    }
}

} // verus!
