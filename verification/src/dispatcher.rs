//! Dispatch: from a tool and its arguments to a request, and from the answers
//! to the outcome of the call.

use vstd::pervasive::unreached;
use vstd::prelude::*;
use vstd::utf8::{encode_utf8, encode_utf8_decode_utf8, is_ascii_chars, is_ascii_chars_encode_utf8};

use crate::config::{api_base, api_base_url};
use crate::auth::{clone_opt, AuthError};
use crate::auth::device::pair_views;
use crate::http::DEFAULT_ACCEPT;
use crate::json::{
    compact_json, drop_member, find_member, json_of_text, lookup, members_view, object_view,
    without_member, Json, JsonView,
};
use crate::resilience::{
    allegro_errors, allegro_errors_of_text, auth_error_text, body_items, idempotent, is_idempotent,
    item_views, parse_allegro_errors, render_auth_error, AllegroApiErrorBody, DispatchError,
    MAX_429_RETRIES, MAX_5XX_RETRIES,
};
use crate::text::{
    byte_prefix, byte_prefix_exists, byte_prefix_whole, chars_of, decimal, has_prefix, index_from,
    index_from_first, index_of, is_byte_prefix, opt_view, str_eq, string_of, to_upper,
    truncate_bytes, upper_case, utf8_len, utf8_len_concat, views,
};
use crate::time::Duration;
use crate::tool_registry::{ToolDef, ToolView};

verus! {

broadcast use vstd::string::group_string_axioms;

/// How many bytes of a response body are handed on.
pub const MAX_BODY_BYTES: usize = 102_400;

/// The base URL of the REST API of an environment.
pub fn allegro_api_base(sandbox: bool) -> (r: &'static str)
    ensures
        r@ == api_base(sandbox),
{
    api_base_url(sandbox)
}

// ── Percent-encoding ────────────────────────────────────────────────────────

/// Whether a byte stands for itself in a URL path segment.
pub open spec fn is_unreserved(b: u8) -> bool {
    ||| 0x41 <= b <= 0x5a
    ||| 0x61 <= b <= 0x7a
    ||| 0x30 <= b <= 0x39
    ||| b == 0x2d
    ||| b == 0x2e
    ||| b == 0x5f
    ||| b == 0x7e
}

/// The hexadecimal digit of value `d`.
pub open spec fn hex_digit(d: u8) -> char {
    if d < 10 {
        (48 + d) as char
    } else {
        (55 + d) as char
    }
}

/// What a byte becomes in a URL path segment.
pub open spec fn encoded_byte(b: u8) -> Seq<char> {
    if is_unreserved(b) {
        seq![b as char]
    } else {
        seq!['%', hex_digit(b / 16), hex_digit(b % 16)]
    }
}

/// What bytes become in a URL path segment.
pub open spec fn encoded_bytes(bytes: Seq<u8>) -> Seq<char>
    decreases bytes.len(),
{
    if bytes.len() == 0 {
        Seq::empty()
    } else {
        encoded_byte(bytes[0]) + encoded_bytes(bytes.drop_first())
    }
}

/// What a text becomes in a URL path segment.
pub open spec fn percent_encoded(s: Seq<char>) -> Seq<char> {
    encoded_bytes(encode_utf8(s))
}

fn push_hex(out: &mut String, d: u8)
    requires
        d < 16,
    ensures
        final(out)@ == old(out)@.push(hex_digit(d)),
{
    let code: u8 = if d < 10 {
        48 + d
    } else {
        55 + d
    };
    out.push(code as char);
}

/// Percent-encodes a text for a URL path segment: every byte of it but the
/// unreserved characters `A`–`Z`, `a`–`z`, `0`–`9`, `-`, `.`, `_` and `~`.
pub fn percent_encode(value: &str) -> (r: String)
    ensures
        r@ == percent_encoded(value@),
{
    let bytes: &[u8] = value.as_bytes();
    let mut out: String = String::new();
    let mut i: usize = 0;
    assert(bytes@.skip(0) =~= bytes@);
    while i < bytes.len()
        invariant
            i <= bytes@.len(),
            out@ + encoded_bytes(bytes@.skip(i as int)) == encoded_bytes(bytes@),
        decreases bytes@.len() - i,
    {
        let b: u8 = bytes[i];
        let ghost before = out@;
        assert(bytes@.skip(i as int).drop_first() =~= bytes@.skip(i + 1));
        if (0x41 <= b && b <= 0x5a) || (0x61 <= b && b <= 0x7a) || (0x30 <= b && b <= 0x39) || b
            == 0x2d || b == 0x2e || b == 0x5f || b == 0x7e {
            out.push(b as char);
        } else {
            out.push('%');
            push_hex(&mut out, b / 16);
            push_hex(&mut out, b % 16);
        }
        assert(out@ =~= before + encoded_byte(b));
        assert(out@ + encoded_bytes(bytes@.skip(i + 1)) =~= before + (encoded_byte(b)
            + encoded_bytes(bytes@.skip(i + 1))));
        i += 1;
    }
    assert(bytes@.skip(i as int) =~= Seq::<u8>::empty());
    assert(out@ =~= encoded_bytes(bytes@));
    out
}

/// Whether a character stands for itself in a URL path segment.
pub open spec fn is_unreserved_char(c: char) -> bool {
    '\0' <= c <= '\u{7f}' && is_unreserved(c as u8)
}

/// A text of unreserved characters is left as it is.
pub proof fn unreserved_text_is_kept(s: Seq<char>)
    requires
        forall|i: int| 0 <= i < s.len() ==> is_unreserved_char(#[trigger] s[i]),
    ensures
        percent_encoded(s) == s,
{
    assert(is_ascii_chars(s));
    is_ascii_chars_encode_utf8(s);
    let bytes = encode_utf8(s);
    assert forall|i: int| 0 <= i < bytes.len() implies is_unreserved(#[trigger] bytes[i]) by {
        assert(is_unreserved_char(s[i]));
    }
    unreserved_bytes_are_kept(bytes);
    assert(percent_encoded(s) =~= s) by {
        assert forall|i: int| 0 <= i < s.len() implies (bytes[i] as char) == #[trigger] s[i] by {
            assert(is_unreserved_char(s[i]));
        }
    }
}

proof fn unreserved_bytes_are_kept(bytes: Seq<u8>)
    requires
        forall|i: int| 0 <= i < bytes.len() ==> is_unreserved(#[trigger] bytes[i]),
    ensures
        encoded_bytes(bytes) =~= Seq::new(bytes.len(), |i: int| bytes[i] as char),
    decreases bytes.len(),
{
    if bytes.len() > 0 {
        unreserved_bytes_are_kept(bytes.drop_first());
    }
}

/// Whether a character can stand in an encoded text.
pub open spec fn is_encoded_char(c: char) -> bool {
    c == '%' || is_unreserved_char(c)
}

/// An encoded text holds nothing but unreserved characters and `%`: it cannot
/// end its path segment, nor begin a query.
pub proof fn encoded_text_stays_in_segment(s: Seq<char>)
    ensures
        forall|i: int| 0 <= i < percent_encoded(s).len() ==> is_encoded_char(#[trigger] percent_encoded(s)[i]),
        !percent_encoded(s).contains('/'),
        !percent_encoded(s).contains('?'),
        !percent_encoded(s).contains('{'),
{
    encoded_bytes_alphabet(encode_utf8(s));
}

proof fn encoded_bytes_alphabet(bytes: Seq<u8>)
    ensures
        forall|i: int| 0 <= i < encoded_bytes(bytes).len() ==> is_encoded_char(#[trigger] encoded_bytes(bytes)[i]),
    decreases bytes.len(),
{
    if bytes.len() > 0 {
        let head = encoded_byte(bytes[0]);
        let rest = encoded_bytes(bytes.drop_first());
        encoded_bytes_alphabet(bytes.drop_first());
        assert forall|i: int| 0 <= i < (head + rest).len() implies is_encoded_char(
            #[trigger] (head + rest)[i],
        ) by {
            if i < head.len() {
                assert((head + rest)[i] == head[i]);
            } else {
                assert((head + rest)[i] == rest[i - head.len()]);
            }
        }
    }
}

/// Two texts that are encoded alike are the same.
pub proof fn encoding_is_injective(a: Seq<char>, b: Seq<char>)
    requires
        percent_encoded(a) == percent_encoded(b),
    ensures
        a == b,
{
    encoded_bytes_injective(encode_utf8(a), encode_utf8(b));
    encode_utf8_decode_utf8(a);
    encode_utf8_decode_utf8(b);
}

proof fn encoded_bytes_injective(a: Seq<u8>, b: Seq<u8>)
    requires
        encoded_bytes(a) == encoded_bytes(b),
    ensures
        a == b,
    decreases a.len(),
{
    let ea = encoded_bytes(a);
    if a.len() == 0 || b.len() == 0 {
        if a.len() > 0 {
            assert(ea.len() >= encoded_byte(a[0]).len());
        }
        if b.len() > 0 {
            assert(encoded_bytes(b).len() >= encoded_byte(b[0]).len());
        }
        assert(a =~= b);
    } else {
        let ha = encoded_byte(a[0]);
        let hb = encoded_byte(b[0]);
        let ra = encoded_bytes(a.drop_first());
        let rb = encoded_bytes(b.drop_first());
        assert((ha + ra)[0] == ha[0]);
        assert((hb + rb)[0] == hb[0]);
        assert(is_unreserved(a[0]) == is_unreserved(b[0]));
        assert(ha.len() == hb.len());
        if is_unreserved(a[0]) {
            assert(a[0] == b[0]);
        } else {
            assert((ha + ra)[1] == ha[1] && (ha + ra)[2] == ha[2]);
            assert((hb + rb)[1] == hb[1] && (hb + rb)[2] == hb[2]);
            assert(a[0] / 16 == b[0] / 16);
            assert(a[0] % 16 == b[0] % 16);
            assert(a[0] == b[0]);
        }
        assert(ra =~= (ha + ra).skip(ha.len() as int));
        assert(rb =~= (hb + rb).skip(hb.len() as int));
        encoded_bytes_injective(a.drop_first(), b.drop_first());
        assert(a =~= seq![a[0]] + a.drop_first());
        assert(b =~= seq![b[0]] + b.drop_first());
    }
}

// ── Path parameters ─────────────────────────────────────────────────────────

/// An argument as it stands in a URL: a string as it is, any other value as
/// its JSON text.
pub open spec fn shown(j: JsonView) -> Seq<char> {
    match j {
        JsonView::Text(s) => s,
        JsonView::Number(t) => t,
        JsonView::Bool(b) => if b {
            "true"@
        } else {
            "false"@
        },
        JsonView::Null => "null"@,
        _ => compact_json(j),
    }
}

fn show(j: &Json) -> (r: String)
    ensures
        r@ == shown(j@),
{
    match j {
        Json::Text(s) => s.clone(),
        Json::Number(n) => n.as_str().to_owned(),
        Json::Bool(b) => if *b {
            "true".to_owned()
        } else {
            "false".to_owned()
        },
        Json::Null => "null".to_owned(),
        _ => j.to_text(),
    }
}

/// The path with the arguments in place of their `{name}`, and the names that
/// were replaced, in order. A name without an argument is left as it stands.
pub open spec fn substituted(path: Seq<char>, args: Seq<(Seq<char>, JsonView)>) -> (
    Seq<char>,
    Seq<Seq<char>>,
)
    decreases path.len(),
{
    if path.len() == 0 {
        (Seq::empty(), Seq::empty())
    } else {
        match index_from(path, '}', 0) {
            Some(end) if path[0] == '{' && 0 < end < path.len() => {
                let name = path.subrange(1, end);
                let rest = substituted(path.skip(end + 1), args);
                match lookup(args, name) {
                    Some(v) => (percent_encoded(shown(v)) + rest.0, seq![name] + rest.1),
                    None => (path.take(end + 1) + rest.0, rest.1),
                }
            },
            _ => {
                let rest = substituted(path.skip(1), args);
                (seq![path[0]] + rest.0, rest.1)
            },
        }
    }
}

/// A position counted from the start, and from `i` on.
proof fn index_from_shift(s: Seq<char>, c: char, i: int, from: int)
    requires
        0 <= i <= from <= s.len(),
    ensures
        index_from(s.skip(i), c, from - i) == (match index_from(s, c, from) {
            Some(k) => Some(k - i),
            None => None,
        }),
    decreases s.len() - from,
{
    if from < s.len() {
        assert(s.skip(i)[from - i] == s[from]);
        index_from_shift(s, c, i, from + 1);
    }
}

/// Puts the arguments in place of their `{name}` in a path; also gives the
/// names that were replaced. A name without an argument is left as it stands.
pub fn substitute_path_params(path: &str, arguments: &Vec<(String, Json)>) -> (r: (
    String,
    Vec<String>,
))
    ensures
        (r.0@, views(r.1@)) == substituted(path@, members_view(arguments@)),
{
    let cs: Vec<char> = chars_of(path);
    let ghost args = members_view(arguments@);
    let mut out: String = String::new();
    let mut consumed: Vec<String> = Vec::new();
    let mut i: usize = 0;
    let n: usize = cs.len();
    assert(path@.skip(0) =~= path@);
    assert(views(consumed@) =~= Seq::<Seq<char>>::empty());
    while i < n
        invariant
            i <= n == cs@.len(),
            cs@ == path@,
            args == members_view(arguments@),
            out@ + substituted(path@.skip(i as int), args).0 == substituted(path@, args).0,
            views(consumed@) + substituted(path@.skip(i as int), args).1 == substituted(
                path@,
                args,
            ).1,
        decreases n - i,
    {
        let ghost rest = path@.skip(i as int);
        let ghost before = out@;
        let ghost names = views(consumed@);
        proof {
            index_from_shift(path@, '}', i as int, i as int);
            index_from_first(path@, '}', i as int);
        }
        assert(rest[0] == cs@[i as int]);
        if cs[i] == '{' {
            if let Some(end) = index_of(&cs, '}', i) {
                assert(end < n && end > i);
                let name: String = string_of(&cs, i + 1, end);
                assert(name@ =~= rest.subrange(1, end - i));
                assert(rest.skip(end - i + 1) =~= path@.skip(end + 1));
                match find_member(arguments, name.as_str()) {
                    Some(value) => {
                        let encoded: String = percent_encode(show(value).as_str());
                        out = out.concat(encoded.as_str());
                        consumed.push(name);
                        assert(views(consumed@) =~= names.push(name@));
                        assert(names.push(name@) + substituted(path@.skip(end + 1), args).1 =~= names
                            + (seq![name@] + substituted(path@.skip(end + 1), args).1));
                        assert(out@ + substituted(path@.skip(end + 1), args).0 =~= before + (encoded@
                            + substituted(path@.skip(end + 1), args).0));
                    },
                    None => {
                        let literal: String = string_of(&cs, i, end + 1);
                        out = out.concat(literal.as_str());
                        assert(literal@ =~= rest.take(end - i + 1));
                        assert(out@ + substituted(path@.skip(end + 1), args).0 =~= before + (literal@
                            + substituted(path@.skip(end + 1), args).0));
                    },
                }
                i = end + 1;
                continue;
            }
        }
        assert(rest.skip(1) =~= path@.skip(i + 1));
        out.push(cs[i]);
        assert(out@ + substituted(path@.skip(i + 1), args).0 =~= before + (seq![rest[0]]
            + substituted(path@.skip(i + 1), args).0));
        i += 1;
    }
    assert(path@.skip(i as int) =~= Seq::<char>::empty());
    assert(out@ =~= substituted(path@, args).0);
    assert(views(consumed@) =~= substituted(path@, args).1);
    (out, consumed)
}

/// A path without a parameter is left as it is.
pub proof fn path_without_parameters_is_kept(path: Seq<char>, args: Seq<(Seq<char>, JsonView)>)
    requires
        !path.contains('{'),
    ensures
        substituted(path, args) == (path, Seq::<Seq<char>>::empty()),
    decreases path.len(),
{
    if path.len() > 0 {
        assert(path.contains(path[0]));
        assert forall|c: char| path.skip(1).contains(c) implies path.contains(c) by {
            let k = choose|k: int| 0 <= k < path.skip(1).len() && path.skip(1)[k] == c;
            assert(path[k + 1] == c);
        }
        path_without_parameters_is_kept(path.skip(1), args);
        assert(seq![path[0]] + path.skip(1) =~= path);
    }
}

// ── The request ─────────────────────────────────────────────────────────────

/// Whether a byte can stand in an HTTP method.
pub open spec fn is_method_byte(b: u8) -> bool {
    ||| 0x41 <= b <= 0x5a
    ||| 0x61 <= b <= 0x7a
    ||| 0x30 <= b <= 0x39
    ||| b == 0x21
    ||| 0x23 <= b <= 0x27
    ||| b == 0x2a
    ||| b == 0x2b
    ||| b == 0x2d
    ||| b == 0x2e
    ||| 0x5e <= b <= 0x60
    ||| b == 0x7c
    ||| b == 0x7e
}

/// Whether a text is an HTTP method.
pub open spec fn is_method(s: Seq<char>) -> bool {
    let bytes = encode_utf8(s);
    bytes.len() > 0 && forall|i: int| 0 <= i < bytes.len() ==> is_method_byte(#[trigger] bytes[i])
}

/// Calls `reqwest::Method::from_bytes` and tells whether it takes the text: one
/// or more of the characters that HTTP allows in a method.
#[verifier::external_body]
fn names_method(s: &str) -> (r: bool)
    ensures
        r == is_method(s@),
{
    reqwest::Method::from_bytes(s.as_bytes()).is_ok()
}

/// What a request carries besides its URL and headers.
#[derive(Debug)]
pub enum Payload {
    /// Pairs for the query string.
    Query(Vec<(String, String)>),
    /// A JSON body.
    Body(Json),
}

/// A request, ready to be sent with any token.
#[derive(Debug)]
pub struct RequestPlan {
    pub method: String,
    pub url: String,
    pub accept: String,
    /// The `Content-Type` to set before the body is; none for the one that
    /// goes with JSON.
    pub content_type: Option<String>,
    pub payload: Payload,
}

/// What a payload is.
pub enum PayloadView {
    Query(Seq<(Seq<char>, Seq<char>)>),
    Body(JsonView),
}

/// What a request is.
pub struct RequestView {
    pub method: Seq<char>,
    pub url: Seq<char>,
    pub accept: Seq<char>,
    pub content_type: Option<Seq<char>>,
    pub payload: PayloadView,
}

impl View for Payload {
    type V = PayloadView;

    open spec fn view(&self) -> PayloadView {
        match self {
            Payload::Query(pairs) => PayloadView::Query(pair_views(pairs@)),
            Payload::Body(j) => PayloadView::Body(j@),
        }
    }
}

impl View for RequestPlan {
    type V = RequestView;

    open spec fn view(&self) -> RequestView {
        RequestView {
            method: self.method@,
            url: self.url@,
            accept: self.accept@,
            content_type: opt_view(self.content_type),
            payload: self.payload@,
        }
    }
}

/// The arguments without those of the given names.
pub open spec fn without_names(
    args: Seq<(Seq<char>, JsonView)>,
    names: Seq<Seq<char>>,
) -> Seq<(Seq<char>, JsonView)>
    decreases names.len(),
{
    if names.len() == 0 {
        args
    } else {
        without_member(without_names(args, names.drop_last()), names.last())
    }
}

/// The arguments as pairs for a query string.
pub open spec fn query_pairs(args: Seq<(Seq<char>, JsonView)>) -> Seq<(Seq<char>, Seq<char>)> {
    args.map_values(|m: (Seq<char>, JsonView)| (m.0, shown(m.1)))
}

/// The payload that the arguments outside the path make up: a query string
/// for `GET` and `HEAD`, else the argument `body` as it is, else all of them as
/// an object.
pub open spec fn payload_of(method: Seq<char>, rest: Seq<(Seq<char>, JsonView)>) -> PayloadView {
    if method == "GET"@ || method == "HEAD"@ {
        PayloadView::Query(query_pairs(rest))
    } else {
        match lookup(rest, "body"@) {
            Some(body) => PayloadView::Body(body),
            None => PayloadView::Body(JsonView::Object(rest)),
        }
    }
}

/// The request for a tool and its arguments; `None` when the tool's method is
/// none.
pub open spec fn request_of(
    base: Seq<char>,
    tool: ToolView,
    args: Seq<(Seq<char>, JsonView)>,
) -> Option<RequestView> {
    let method = upper_case(tool.method);
    let path = substituted(tool.path, args);
    let payload = payload_of(method, without_names(args, path.1));
    if is_method(method) {
        Some(
            RequestView {
                method,
                url: base + path.0,
                accept: match tool.accept_media_type {
                    Some(m) => m,
                    None => DEFAULT_ACCEPT@,
                },
                content_type: match payload {
                    PayloadView::Query(_) => None,
                    PayloadView::Body(_) => tool.accept_media_type,
                },
                payload,
            },
        )
    } else {
        None
    }
}

fn drop_names(arguments: Vec<(String, Json)>, names: &Vec<String>) -> (r: Vec<(String, Json)>)
    ensures
        members_view(r@) == without_names(members_view(arguments@), views(names@)),
{
    let ghost all = members_view(arguments@);
    let ghost dropped = views(names@);
    let mut rest: Vec<(String, Json)> = arguments;
    let mut i: usize = 0;
    assert(dropped.take(0) =~= Seq::<Seq<char>>::empty());
    while i < names.len()
        invariant
            i <= names@.len(),
            dropped == views(names@),
            members_view(rest@) == without_names(all, dropped.take(i as int)),
        decreases names@.len() - i,
    {
        assert(dropped.take(i + 1).drop_last() =~= dropped.take(i as int));
        rest = drop_member(&rest, names[i].as_str());
        i += 1;
    }
    assert(dropped.take(i as int) =~= dropped);
    rest
}

fn show_pairs(arguments: &Vec<(String, Json)>) -> (r: Vec<(String, String)>)
    ensures
        pair_views(r@) == query_pairs(members_view(arguments@)),
{
    let ghost all = members_view(arguments@);
    let mut out: Vec<(String, String)> = Vec::new();
    let mut i: usize = 0;
    while i < arguments.len()
        invariant
            i <= arguments@.len(),
            all == members_view(arguments@),
            pair_views(out@) =~= query_pairs(all.take(i as int)),
        decreases arguments@.len() - i,
    {
        let ghost before = out@;
        out.push((arguments[i].0.clone(), show(&arguments[i].1)));
        assert(all.take(i + 1) =~= all.take(i as int).push(all[i as int]));
        assert(pair_views(out@) =~= pair_views(before).push(
            (arguments@[i as int].0@, shown(arguments@[i as int].1@)),
        ));
        i += 1;
    }
    assert(all.take(i as int) =~= all);
    out
}

/// Shapes the request for a tool and its arguments. The same request is sent
/// again where a call is retried.
pub fn plan_request(api_base: &str, tool: &ToolDef, arguments: Vec<(String, Json)>) -> (r: Result<
    RequestPlan,
    String,
>)
    ensures
        match request_of(api_base@, tool@, members_view(arguments@)) {
            Some(q) => r matches Ok(plan) && plan@ == q,
            None => r matches Err(e) && e@ == "unsupported HTTP method: "@ + tool.method@,
        },
{
    broadcast use object_view;

    let (path, consumed) = substitute_path_params(tool.path.as_str(), &arguments);
    let url: String = api_base.to_owned().concat(path.as_str());
    let method: String = to_upper(tool.method.as_str());
    if !names_method(method.as_str()) {
        return Err("unsupported HTTP method: ".to_owned().concat(tool.method.as_str()));
    }
    let rest: Vec<(String, Json)> = drop_names(arguments, &consumed);
    let accept: String = match &tool.accept_media_type {
        Some(m) => m.clone(),
        None => DEFAULT_ACCEPT.to_owned(),
    };
    if str_eq(method.as_str(), "GET") || str_eq(method.as_str(), "HEAD") {
        let pairs: Vec<(String, String)> = show_pairs(&rest);
        return Ok(
            RequestPlan { method, url, accept, content_type: None, payload: Payload::Query(pairs) },
        );
    }
    let body: Json = match find_member(&rest, "body") {
        Some(j) => j.clone(),
        None => Json::Object(rest),
    };
    Ok(
        RequestPlan {
            method,
            url,
            accept,
            content_type: clone_opt(&tool.accept_media_type),
            payload: Payload::Body(body),
        },
    )
}

/// The names that are left after some were dropped.
proof fn without_names_keeps(
    args: Seq<(Seq<char>, JsonView)>,
    names: Seq<Seq<char>>,
    m: (Seq<char>, JsonView),
)
    ensures
        without_names(args, names).contains(m) <==> args.contains(m) && !names.contains(m.0),
    decreases names.len(),
{
    if names.len() > 0 {
        without_names_keeps(args, names.drop_last(), m);
        without_member_keeps(without_names(args, names.drop_last()), names.last(), m);
        assert(names =~= names.drop_last().push(names.last()));
        if names.contains(m.0) {
            let k = choose|k: int| 0 <= k < names.len() && names[k] == m.0;
            if k < names.len() - 1 {
                assert(names.drop_last()[k] == m.0);
            }
        }
        if names.drop_last().contains(m.0) {
            let k = choose|k: int| 0 <= k < names.drop_last().len() && names.drop_last()[k] == m.0;
            assert(names[k] == m.0);
        }
    }
}

proof fn without_member_keeps(
    ms: Seq<(Seq<char>, JsonView)>,
    key: Seq<char>,
    m: (Seq<char>, JsonView),
)
    ensures
        without_member(ms, key).contains(m) <==> ms.contains(m) && m.0 != key,
    decreases ms.len(),
{
    if ms.len() > 0 {
        let front = ms.drop_last();
        without_member_keeps(front, key, m);
        assert(ms =~= front.push(ms.last()));
        if ms.contains(m) {
            let k = choose|k: int| 0 <= k < ms.len() && ms[k] == m;
            if k < ms.len() - 1 {
                assert(front[k] == m);
            }
        }
        if front.contains(m) {
            let k = choose|k: int| 0 <= k < front.len() && front[k] == m;
            assert(ms[k] == m);
        }
        let kept = without_member(front, key);
        if ms.last().0 != key {
            let after = kept.push(ms.last());
            if kept.contains(m) {
                let k = choose|k: int| 0 <= k < kept.len() && kept[k] == m;
                assert(after[k] == m);
            }
            if m == ms.last() {
                assert(after[kept.len() as int] == m);
            }
            if after.contains(m) {
                let k = choose|k: int| 0 <= k < after.len() && after[k] == m;
                if k < kept.len() {
                    assert(kept[k] == m);
                }
            }
        }
    }
}

/// An argument that went into the path is not sent a second time, and every
/// other one of a `GET` or `HEAD` request stands in its query string.
pub proof fn query_holds_the_rest(
    base: Seq<char>,
    tool: ToolView,
    args: Seq<(Seq<char>, JsonView)>,
    m: (Seq<char>, JsonView),
)
    requires
        upper_case(tool.method) == "GET"@ || upper_case(tool.method) == "HEAD"@,
        request_of(base, tool, args) is Some,
        args.contains(m),
    ensures
        request_of(base, tool, args)->0.payload matches PayloadView::Query(pairs) && {
            let consumed = substituted(tool.path, args).1;
            &&& !consumed.contains(m.0) ==> pairs.contains((m.0, shown(m.1)))
            &&& consumed.contains(m.0) ==> forall|i: int|
                0 <= i < pairs.len() ==> (#[trigger] pairs[i]).0 != m.0
        },
{
    let consumed = substituted(tool.path, args).1;
    let rest = without_names(args, consumed);
    let pairs = query_pairs(rest);
    without_names_keeps(args, consumed, m);
    if rest.contains(m) {
        let k = choose|k: int| 0 <= k < rest.len() && rest[k] == m;
        assert(pairs[k] == (m.0, shown(m.1)));
    }
    assert forall|i: int| consumed.contains(m.0) && 0 <= i < pairs.len() implies (
    #[trigger] pairs[i]).0 != m.0 by {
        assert(rest.contains(rest[i]));
        without_names_keeps(args, consumed, rest[i]);
    }
}

// ── The answer ──────────────────────────────────────────────────────────────

/// The part of a response body that is handed on.
pub open spec fn truncated(body: Seq<char>) -> Seq<char> {
    if utf8_len(body) <= MAX_BODY_BYTES {
        body
    } else {
        byte_prefix(body, MAX_BODY_BYTES as nat) + "\n[truncated]"@
    }
}

/// Cuts a response body to at most `MAX_BODY_BYTES` bytes, at the end of a
/// character, and marks that it was cut.
pub fn truncate_body(body: String) -> (r: String)
    ensures
        r@ == truncated(body@),
{
    let head: String = truncate_bytes(body.as_str(), MAX_BODY_BYTES);
    proof {
        if utf8_len(body@) <= MAX_BODY_BYTES {
            byte_prefix_whole(body@, MAX_BODY_BYTES as nat);
        }
    }
    if str_eq(head.as_str(), body.as_str()) {
        body
    } else {
        head.concat("\n[truncated]")
    }
}

/// A response body that is handed on has at most `MAX_BODY_BYTES` bytes, or
/// that many and the mark that it was cut.
pub proof fn truncated_is_short(body: Seq<char>)
    ensures
        utf8_len(truncated(body)) <= MAX_BODY_BYTES + utf8_len("\n[truncated]"@),
        utf8_len(body) <= MAX_BODY_BYTES ==> truncated(body) == body,
        utf8_len(body) > MAX_BODY_BYTES ==> is_byte_prefix(
            byte_prefix(body, MAX_BODY_BYTES as nat),
            body,
            MAX_BODY_BYTES as nat,
        ),
{
    if utf8_len(body) > MAX_BODY_BYTES {
        byte_prefix_exists(body, MAX_BODY_BYTES as nat);
        utf8_len_concat(byte_prefix(body, MAX_BODY_BYTES as nat), "\n[truncated]"@);
    }
}

/// What came of sending a request.
#[derive(Debug)]
pub enum Outcome {
    /// A response: its status, what its headers say, and its body or why that
    /// could not be read.
    Answer {
        status: u16,
        retry_after: Option<Duration>,
        trace_id: Option<String>,
        body: Result<String, String>,
    },
    /// No response, and why.
    NoAnswer(String),
}

/// The sends of one call so far.
#[derive(Debug, Clone, Copy, PartialEq, Eq, Structural)]
pub struct Attempts {
    /// Requests sent.
    pub sends: u32,
    /// Retries after a 429.
    pub retries_429: u32,
    /// Retries after a 5xx.
    pub retries_5xx: u32,
    /// Whether the token was renewed after a 401.
    pub refreshed: bool,
}

/// What a call needs done next.
#[derive(Debug)]
pub enum DispatchAction {
    /// Come by a token.
    ResolveToken,
    /// Have the token replaced: it was just rejected.
    RefreshToken,
    /// Get the next send into the rate budget.
    AcquireBudget,
    /// Send the request with the current token.
    Send,
    /// Wait for as long as the policy has it for this retry.
    Wait { retry_no: u32, retry_after: Option<Duration> },
    /// The call is over.
    Finish(Result<String, DispatchError>),
}

/// What came of an action.
#[derive(Debug)]
pub enum DispatchEvent {
    /// A token is there, or why not.
    Token(Result<(), AuthError>),
    /// The send is in the budget, or the cap that leaves no room for it.
    Budget(Result<(), u32>),
    /// The request was sent.
    Sent(Outcome),
    /// The wait is over.
    Waited,
}

/// What a call is waiting for.
#[derive(Debug, Clone, Copy, PartialEq, Eq, Structural)]
pub enum Phase {
    Token,
    Budget,
    Wire,
    Pause,
    Over,
}

/// Whether a status is an error of the client.
pub open spec fn is_client_error(status: u16) -> bool {
    400 <= status < 500
}

/// Whether a status is an error of the server.
pub open spec fn is_server_error(status: u16) -> bool {
    500 <= status < 600
}

/// Whether `r` is the end of a call, given its last response.
pub open spec fn is_verdict(
    r: Result<String, DispatchError>,
    before: Attempts,
    status: u16,
    retry_after: Option<Duration>,
    trace_id: Option<String>,
    body: Result<String, String>,
) -> bool {
    match body {
        Err(e) => r matches Err(DispatchError::Unreachable { source_text }) && source_text@ == e@,
        Ok(text) => if status == 429 {
            r matches Err(DispatchError::RateLimited {
                attempts,
                retry_after: after,
                trace_id: trace,
                body: b,
            }) && attempts == before.sends + 1 && after == retry_after && opt_view(trace)
                == opt_view(trace_id) && b@ == text@
        } else if is_server_error(status) {
            r matches Err(DispatchError::Server { status: s, retries, trace_id: trace, body: b })
                && s == status && retries == before.retries_5xx && opt_view(trace) == opt_view(
                trace_id,
            ) && b@ == text@
        } else if is_client_error(status) {
            r matches Err(DispatchError::Client { status: s, trace_id: trace, allegro, body: b })
                && s == status && opt_view(trace) == opt_view(trace_id) && body_items(allegro)
                == allegro_errors_of_text(text@) && b@ == text@
        } else {
            r matches Ok(shown_body) && shown_body@ == truncated(text@)
        },
    }
}

/// Whether `after` and `action` are what follows `outcome` in a call that has
/// made the attempts `before`: a 401 has the token replaced, once; a 429 is
/// retried up to `MAX_429_RETRIES` times; a 5xx is retried up to
/// `MAX_5XX_RETRIES` times where the method may be repeated; anything else ends
/// the call.
pub open spec fn follows(
    before: Attempts,
    method: Seq<char>,
    outcome: Outcome,
    after: Attempts,
    action: DispatchAction,
) -> bool {
    let counted = Attempts { sends: (before.sends + 1) as u32, ..before };
    match outcome {
        Outcome::NoAnswer(e) => {
            &&& after == counted
            &&& action matches DispatchAction::Finish(
                Err(DispatchError::Unreachable { source_text }),
            ) && source_text@ == e@
        },
        Outcome::Answer { status, retry_after, trace_id, body } => if status == 401
            && !before.refreshed {
            action is RefreshToken && after == (Attempts { refreshed: true, ..counted })
        } else if status == 429 && before.retries_429 < MAX_429_RETRIES {
            &&& action matches DispatchAction::Wait { retry_no, retry_after: delay } && retry_no
                == before.retries_429 + 1 && delay == retry_after
            &&& after == (Attempts { retries_429: (before.retries_429 + 1) as u32, ..counted })
        } else if is_server_error(status) && idempotent(method) && before.retries_5xx
            < MAX_5XX_RETRIES {
            &&& action matches DispatchAction::Wait { retry_no, retry_after: delay } && retry_no
                == before.retries_5xx + 1 && delay is None
            &&& after == (Attempts { retries_5xx: (before.retries_5xx + 1) as u32, ..counted })
        } else {
            &&& action matches DispatchAction::Finish(r) && is_verdict(
                r,
                before,
                status,
                retry_after,
                trace_id,
                body,
            )
            &&& after == counted
        },
    }
}

/// The end of a call, given its last response.
fn conclude(
    before: Attempts,
    status: u16,
    retry_after: Option<Duration>,
    trace_id: Option<String>,
    body: Result<String, String>,
) -> (r: Result<String, DispatchError>)
    requires
        before.sends < u32::MAX,
    ensures
        is_verdict(r, before, status, retry_after, trace_id, body),
{
    let body: String = match body {
        Ok(text) => text,
        Err(e) => return Err(DispatchError::Unreachable { source_text: e }),
    };
    if status == 429 {
        Err(
            DispatchError::RateLimited { attempts: before.sends + 1, retry_after, trace_id, body },
        )
    } else if 500 <= status && status < 600 {
        Err(DispatchError::Server { status, retries: before.retries_5xx, trace_id, body })
    } else if 400 <= status && status < 500 {
        let allegro: Option<AllegroApiErrorBody> = parse_allegro_errors(body.as_str());
        Err(DispatchError::Client { status, trace_id, allegro, body })
    } else {
        Ok(truncate_body(body))
    }
}

impl Attempts {
    /// Whether every send but the next one was followed by a retry that is
    /// counted, and no kind of retry was made too often.
    pub open spec fn wf(self) -> bool {
        &&& self.retries_429 <= MAX_429_RETRIES
        &&& self.retries_5xx <= MAX_5XX_RETRIES
        &&& self.sends == self.retries_429 + self.retries_5xx + if self.refreshed {
            1int
        } else {
            0int
        }
    }

    /// How many sends may still follow.
    pub open spec fn left(self) -> int {
        1 + (MAX_429_RETRIES - self.retries_429) + (MAX_5XX_RETRIES - self.retries_5xx)
            + if self.refreshed {
            0int
        } else {
            1int
        }
    }

    /// A call of which nothing was sent yet.
    pub fn start() -> (r: Attempts)
        ensures
            r.wf(),
            r.sends == 0,
    {
        Attempts { sends: 0, retries_429: 0, retries_5xx: 0, refreshed: false }
    }

    /// What to do after a request of the given method was sent.
    pub fn after_send(&mut self, method: &str, outcome: Outcome) -> (r: DispatchAction)
        requires
            old(self).wf(),
        ensures
            follows(*old(self), method@, outcome, *final(self), r),
            r !is Finish ==> final(self).wf(),
    {
        let before: Attempts = *self;
        self.sends = self.sends + 1;
        match outcome {
            Outcome::NoAnswer(e) => DispatchAction::Finish(
                Err(DispatchError::Unreachable { source_text: e }),
            ),
            Outcome::Answer { status, retry_after, trace_id, body } => {
                if status == 401 && !self.refreshed {
                    self.refreshed = true;
                    return DispatchAction::RefreshToken;
                }
                if status == 429 && self.retries_429 < MAX_429_RETRIES {
                    self.retries_429 = self.retries_429 + 1;
                    return DispatchAction::Wait { retry_no: self.retries_429, retry_after };
                }
                if 500 <= status && status < 600 && is_idempotent(method) && self.retries_5xx
                    < MAX_5XX_RETRIES {
                    self.retries_5xx = self.retries_5xx + 1;
                    return DispatchAction::Wait { retry_no: self.retries_5xx, retry_after: None };
                }
                DispatchAction::Finish(conclude(before, status, retry_after, trace_id, body))
            },
        }
    }
}

/// What a request is, or why it cannot be shaped.
pub open spec fn plan_view(plan: Result<RequestPlan, String>) -> Result<RequestView, Seq<char>> {
    match plan {
        Ok(p) => Ok(p@),
        Err(e) => Err(e@),
    }
}

/// A call of a tool: its request, and how far it has come.
#[derive(Debug)]
pub struct Dispatch {
    plan: Result<RequestPlan, String>,
    attempts: Attempts,
    phase: Phase,
}

/// Whether a call in the given phase waits for the event.
pub open spec fn expects(phase: Phase, event: DispatchEvent) -> bool {
    match event {
        DispatchEvent::Token(_) => phase is Token,
        DispatchEvent::Budget(_) => phase is Budget,
        DispatchEvent::Sent(_) => phase is Wire,
        DispatchEvent::Waited => phase is Pause,
    }
}

/// Whether `after` and `action` are what follows `event` in a call: a token
/// comes first, then, for every send, a place in the budget and the send.
pub open spec fn advances(
    before: Dispatch,
    event: DispatchEvent,
    after: Dispatch,
    action: DispatchAction,
) -> bool {
    &&& after.request() == before.request()
    &&& event !is Sent ==> after.made() == before.made()
    &&& match event {
        DispatchEvent::Token(Err(e)) => {
            &&& after.state() is Over
            &&& action matches DispatchAction::Finish(Err(DispatchError::Auth(m))) && m@
                == auth_error_text(e)
        },
        DispatchEvent::Token(Ok(_)) => match before.request() {
            Err(why) => {
                &&& after.state() is Over
                &&& action matches DispatchAction::Finish(Err(DispatchError::Bad(m))) && m@ == why
            },
            Ok(_) => after.state() is Budget && action is AcquireBudget,
        },
        DispatchEvent::Budget(Err(full)) => {
            &&& after.state() is Over
            &&& action matches DispatchAction::Finish(Err(DispatchError::BudgetExceeded { cap }))
                && cap == full
        },
        DispatchEvent::Budget(Ok(_)) => after.state() is Wire && action is Send,
        DispatchEvent::Waited => after.state() is Budget && action is AcquireBudget,
        DispatchEvent::Sent(outcome) => {
            &&& before.request() matches Ok(q) && follows(
                before.made(),
                q.method,
                outcome,
                after.made(),
                action,
            )
            &&& after.state() == match action {
                DispatchAction::RefreshToken => Phase::Token,
                DispatchAction::Wait { .. } => Phase::Pause,
                _ => Phase::Over,
            }
        },
    }
}

impl Dispatch {
    /// The request.
    pub closed spec fn request(self) -> Result<RequestView, Seq<char>> {
        plan_view(self.plan)
    }

    /// The attempts made so far.
    pub closed spec fn made(self) -> Attempts {
        self.attempts
    }

    /// What the call is waiting for.
    pub closed spec fn state(self) -> Phase {
        self.phase
    }

    /// Whether the attempts add up, and nothing but a token is asked for while
    /// there is no request to send.
    pub open spec fn wf(self) -> bool {
        &&& self.state() !is Over ==> self.made().wf()
        &&& self.request() is Err ==> self.state() is Token || self.state() is Over
    }

    /// Begins a call. The first thing it needs is a token.
    pub fn begin(plan: Result<RequestPlan, String>) -> (r: Dispatch)
        ensures
            r.wf(),
            r.request() == plan_view(plan),
            r.made().sends == 0,
            r.state() is Token,
    {
        Dispatch { plan, attempts: Attempts::start(), phase: Phase::Token }
    }

    /// The request to send.
    pub fn plan(&self) -> (r: &Result<RequestPlan, String>)
        ensures
            plan_view(*r) == self.request(),
    {
        &self.plan
    }

    /// What to do after an event that the call was waiting for.
    pub fn step(&mut self, event: DispatchEvent) -> (r: DispatchAction)
        requires
            old(self).wf(),
            expects(old(self).state(), event),
        ensures
            final(self).wf(),
            advances(*old(self), event, *final(self), r),
    {
        match event {
            DispatchEvent::Token(Err(e)) => {
                self.phase = Phase::Over;
                DispatchAction::Finish(Err(DispatchError::Auth(render_auth_error(&e))))
            },
            DispatchEvent::Token(Ok(_)) => match &self.plan {
                Err(why) => {
                    let message: String = why.clone();
                    self.phase = Phase::Over;
                    DispatchAction::Finish(Err(DispatchError::Bad(message)))
                },
                Ok(_) => {
                    self.phase = Phase::Budget;
                    DispatchAction::AcquireBudget
                },
            },
            DispatchEvent::Budget(Err(cap)) => {
                self.phase = Phase::Over;
                DispatchAction::Finish(Err(DispatchError::BudgetExceeded { cap }))
            },
            DispatchEvent::Budget(Ok(_)) => {
                self.phase = Phase::Wire;
                DispatchAction::Send
            },
            DispatchEvent::Waited => {
                self.phase = Phase::Budget;
                DispatchAction::AcquireBudget
            },
            DispatchEvent::Sent(outcome) => {
                let method: String = match &self.plan {
                    Ok(p) => p.method.clone(),
                    Err(_) => unreached(),
                };
                let action: DispatchAction = self.attempts.after_send(method.as_str(), outcome);
                self.phase = match &action {
                    DispatchAction::RefreshToken => Phase::Token,
                    DispatchAction::Wait { .. } => Phase::Pause,
                    _ => Phase::Over,
                };
                action
            },
        }
    }
}

/// How far a call is from its end.
pub open spec fn distance(d: Dispatch) -> int {
    match d.state() {
        Phase::Over => 0,
        Phase::Wire => 4 * d.made().left(),
        Phase::Budget => 4 * d.made().left() + 1,
        Phase::Pause => 4 * d.made().left() + 2,
        Phase::Token => 4 * d.made().left() + 2,
    }
}

/// Every step brings a call nearer to its end, so each call ends, whatever the
/// answers are.
pub proof fn call_ends(
    before: Dispatch,
    event: DispatchEvent,
    after: Dispatch,
    action: DispatchAction,
)
    requires
        before.wf(),
        expects(before.state(), event),
        after.wf(),
        advances(before, event, after, action),
    ensures
        0 <= distance(after) < distance(before),
        after.state() is Over <==> action is Finish,
{
}

/// A call makes at most six sends: the first one, three more for 429, one for
/// 5xx and one for 401.
pub proof fn sends_are_bounded(
    before: Attempts,
    method: Seq<char>,
    outcome: Outcome,
    after: Attempts,
    action: DispatchAction,
)
    requires
        before.wf(),
        follows(before, method, outcome, after, action),
    ensures
        before.sends + before.left() == 6,
        after.sends == before.sends + 1 <= 6,
        action !is Finish ==> after.wf() && after.left() == before.left() - 1,
{
}

/// Nothing is sent that is not in the rate budget.
pub proof fn every_send_is_in_the_budget(
    before: Dispatch,
    event: DispatchEvent,
    after: Dispatch,
    action: DispatchAction,
)
    requires
        expects(before.state(), event),
        advances(before, event, after, action),
        action is Send,
    ensures
        event matches DispatchEvent::Budget(Ok(_)),
{
}

/// A request that the server may have carried out is never repeated where that
/// could do harm: after a 5xx, a method that is not idempotent ends the call.
pub proof fn unsafe_methods_are_not_replayed(
    before: Attempts,
    method: Seq<char>,
    outcome: Outcome,
    after: Attempts,
    action: DispatchAction,
)
    requires
        follows(before, method, outcome, after, action),
        outcome matches Outcome::Answer { status, .. } && is_server_error(status),
        !idempotent(method),
    ensures
        action matches DispatchAction::Finish(Err(_)),
{
}

/// The token is replaced at most once in a call.
pub proof fn token_is_replaced_once(
    before: Attempts,
    method: Seq<char>,
    outcome: Outcome,
    after: Attempts,
    action: DispatchAction,
)
    requires
        follows(before, method, outcome, after, action),
    ensures
        action is RefreshToken ==> !before.refreshed && after.refreshed,
        before.refreshed ==> after.refreshed && action !is RefreshToken,
{
}

/// What could not be sent is not sent again, and a token that could not be had
/// is not asked for again.
pub proof fn failures_to_reach_end_the_call(
    before: Dispatch,
    event: DispatchEvent,
    after: Dispatch,
    action: DispatchAction,
)
    requires
        advances(before, event, after, action),
        event matches DispatchEvent::Sent(Outcome::NoAnswer(_)) || event matches DispatchEvent::Token(
            Err(_),
        ),
    ensures
        action matches DispatchAction::Finish(Err(_)),
{
}

// ── A call without retries ──────────────────────────────────────────────────

/// A status and its reason phrase, as `reqwest` shows them.
pub uninterp spec fn status_text(status: u16) -> Seq<char>;

/// Calls `reqwest::StatusCode::from_u16` and the `Display` impl of the status:
/// the number, a space and the reason phrase that belongs to it; a function of
/// the number alone. Numbers from 100 to 999 are statuses.
#[verifier::external_body]
pub(crate) fn show_status(status: u16) -> (r: String)
    requires
        100 <= status < 1000,
    ensures
        r@ == status_text(status),
        has_prefix(r@, decimal(status as nat) + " "@),
{
    reqwest::StatusCode::from_u16(status).map_or_else(|e| e.to_string(), |s| s.to_string())
}

/// What a call without retries needs done next.
#[derive(Debug)]
pub enum DirectAction {
    /// Come by a token.
    ResolveToken,
    /// Forget the token, then come by another one.
    ReplaceToken,
    /// Send the request with the current token.
    Send,
    /// The call is over.
    Finish(Result<String, String>),
}

/// What came of an action.
#[derive(Debug)]
pub enum DirectEvent {
    /// A token is there, or why not.
    Token(Result<(), AuthError>),
    /// The request was sent.
    Sent(Outcome),
}

/// Whether `action` is what follows `outcome`: a first 401 has the token
/// replaced, any other error ends the call with its status and its body.
pub open spec fn follows_direct(
    retried: bool,
    outcome: Outcome,
    status_line: Seq<char>,
    action: DirectAction,
) -> bool {
    match outcome {
        Outcome::NoAnswer(e) => action matches DirectAction::Finish(Err(m)) && m@ == "HTTP error: "@
            + e@,
        Outcome::Answer { status, retry_after: _, trace_id: _, body } => if status == 401
            && !retried {
            action is ReplaceToken
        } else {
            match body {
                Err(e) => action matches DirectAction::Finish(Err(m)) && m@ == "HTTP error: "@ + e@,
                Ok(text) => if is_client_error(status) || is_server_error(status) {
                    action matches DirectAction::Finish(Err(m)) && m@ == "HTTP "@ + status_line
                        + ": "@ + text@
                } else {
                    action matches DirectAction::Finish(Ok(b)) && b@ == truncated(text@)
                },
            }
        },
    }
}

/// What to do after a request was sent. `status_line` is the text of its
/// status.
pub fn direct_verdict(retried: bool, outcome: Outcome, status_line: &str) -> (r: DirectAction)
    ensures
        follows_direct(retried, outcome, status_line@, r),
{
    match outcome {
        Outcome::NoAnswer(e) => DirectAction::Finish(
            Err("HTTP error: ".to_owned().concat(e.as_str())),
        ),
        Outcome::Answer { status, retry_after: _, trace_id: _, body } => {
            if status == 401 && !retried {
                return DirectAction::ReplaceToken;
            }
            match body {
                Err(e) => DirectAction::Finish(Err("HTTP error: ".to_owned().concat(e.as_str()))),
                Ok(text) => if 400 <= status && status < 600 {
                    DirectAction::Finish(
                        Err(
                            "HTTP ".to_owned().concat(status_line).concat(": ").concat(
                                text.as_str(),
                            ),
                        ),
                    )
                } else {
                    DirectAction::Finish(Ok(truncate_body(text)))
                },
            }
        },
    }
}

/// A call of a tool without retries but the one with a new token.
#[derive(Debug)]
pub struct DirectDispatch {
    plan: Result<RequestPlan, String>,
    retried: bool,
    phase: Phase,
}

/// Whether a call in the given phase waits for the event.
pub open spec fn expects_direct(phase: Phase, event: DirectEvent) -> bool {
    match event {
        DirectEvent::Token(_) => phase is Token,
        DirectEvent::Sent(Outcome::NoAnswer(_)) => phase is Wire,
        DirectEvent::Sent(Outcome::Answer { status, .. }) => phase is Wire && 100 <= status < 1000,
    }
}

/// Whether `after` and `action` are what follows `event` in a call.
pub open spec fn advances_direct(
    before: DirectDispatch,
    event: DirectEvent,
    after: DirectDispatch,
    action: DirectAction,
) -> bool {
    &&& after.request() == before.request()
    &&& match event {
        DirectEvent::Token(Err(e)) => {
            &&& after.state() is Over
            &&& action matches DirectAction::Finish(Err(m)) && m@ == "auth error: "@ + e.text()
        },
        DirectEvent::Token(Ok(_)) => match before.request() {
            Err(why) => {
                &&& after.state() is Over
                &&& action matches DirectAction::Finish(Err(m)) && m@ == why
            },
            Ok(_) => after.state() is Wire && action is Send && after.second_try()
                == before.second_try(),
        },
        DirectEvent::Sent(outcome) => {
            &&& follows_direct(
                before.second_try(),
                outcome,
                match outcome {
                    Outcome::Answer { status, .. } => status_text(status),
                    Outcome::NoAnswer(_) => ""@,
                },
                action,
            )
            &&& after.state() == if action is ReplaceToken {
                Phase::Token
            } else {
                Phase::Over
            }
            &&& action is ReplaceToken ==> after.second_try()
        },
    }
}

impl DirectDispatch {
    /// The request.
    pub closed spec fn request(self) -> Result<RequestView, Seq<char>> {
        plan_view(self.plan)
    }

    /// Whether the token was replaced already.
    pub closed spec fn second_try(self) -> bool {
        self.retried
    }

    /// What the call is waiting for.
    pub closed spec fn state(self) -> Phase {
        self.phase
    }

    /// Begins a call. The first thing it needs is a token.
    pub fn begin(plan: Result<RequestPlan, String>) -> (r: DirectDispatch)
        ensures
            r.request() == plan_view(plan),
            !r.second_try(),
            r.state() is Token,
    {
        DirectDispatch { plan, retried: false, phase: Phase::Token }
    }

    /// The request to send.
    pub fn plan(&self) -> (r: &Result<RequestPlan, String>)
        ensures
            plan_view(*r) == self.request(),
    {
        &self.plan
    }

    /// What to do after an event that the call was waiting for.
    pub fn step(&mut self, event: DirectEvent) -> (r: DirectAction)
        requires
            expects_direct(old(self).state(), event),
        ensures
            advances_direct(*old(self), event, *final(self), r),
    {
        match event {
            DirectEvent::Token(Err(e)) => {
                self.phase = Phase::Over;
                DirectAction::Finish(Err("auth error: ".to_owned().concat(e.message().as_str())))
            },
            DirectEvent::Token(Ok(_)) => match &self.plan {
                Err(why) => {
                    let message: String = why.clone();
                    self.phase = Phase::Over;
                    DirectAction::Finish(Err(message))
                },
                Ok(_) => {
                    self.phase = Phase::Wire;
                    DirectAction::Send
                },
            },
            DirectEvent::Sent(outcome) => {
                let line: String = match &outcome {
                    Outcome::NoAnswer(_) => "".to_owned(),
                    Outcome::Answer { status, .. } => show_status(*status),
                };
                let action: DirectAction = direct_verdict(self.retried, outcome, line.as_str());
                match &action {
                    DirectAction::ReplaceToken => {
                        self.retried = true;
                        self.phase = Phase::Token;
                    },
                    _ => self.phase = Phase::Over,
                }
                action
            },
        }
    }
}

/// How far a call without retries is from its end.
pub open spec fn direct_distance(d: DirectDispatch) -> int {
    match d.state() {
        Phase::Over => 0,
        Phase::Token => if d.second_try() {
            2
        } else {
            4
        },
        _ => if d.second_try() {
            1
        } else {
            3
        },
    }
}

/// A call without retries sends its request at most twice, the second time
/// with another token, and ends.
pub proof fn direct_call_ends(
    before: DirectDispatch,
    event: DirectEvent,
    after: DirectDispatch,
    action: DirectAction,
)
    requires
        expects_direct(before.state(), event),
        advances_direct(before, event, after, action),
    ensures
        0 <= direct_distance(after) < direct_distance(before),
        after.state() is Over <==> action is Finish,
        action is ReplaceToken ==> !before.second_try() && after.second_try(),
{
}

// ── What a call is for ──────────────────────────────────────────────────────

/// Whether the error of a call tells the status of the response behind it.
pub open spec fn tells_status(e: DispatchError, code: u16) -> bool {
    match e {
        DispatchError::Client { status, .. } => status == code && 400 <= code < 500,
        DispatchError::Server { status, .. } => status == code && 500 <= code < 600,
        DispatchError::RateLimited { .. } => code == 429,
        _ => false,
    }
}

/// A call ends well only where its last response has a status outside 400 to
/// 599: with such a status it ends with an error, one that tells the status, what
/// was tried and what the server said, and holds the body as it came, or with the
/// reason why the body could not be read.
pub proof fn error_statuses_end_in_errors(
    before: Attempts,
    method: Seq<char>,
    status: u16,
    retry_after: Option<Duration>,
    trace_id: Option<String>,
    body: Result<String, String>,
    after: Attempts,
    action: DispatchAction,
)
    requires
        follows(
            before,
            method,
            Outcome::Answer { status, retry_after, trace_id, body },
            after,
            action,
        ),
        400 <= status < 600,
    ensures
        action matches DispatchAction::Finish(r) ==> match body {
            Ok(text) => r matches Err(e) && tells_status(e, status) && e.trace() == opt_view(
                trace_id,
            ) && match e {
                DispatchError::Client { body: b, allegro, .. } => {
                    &&& b@ == text@
                    &&& json_of_text(text@) is Err ==> allegro is None
                    &&& json_of_text(text@) matches Ok(j) ==> match allegro {
                        Some(errors) => allegro_errors(j) == Some(item_views(errors.errors@)),
                        None => allegro_errors(j) is None,
                    }
                },
                DispatchError::Server { body: b, retries, .. } => b@ == text@ && retries
                    == before.retries_5xx,
                DispatchError::RateLimited { body: b, attempts, retry_after: told, .. } => b@
                    == text@ && attempts == before.sends + 1 && told == retry_after,
                _ => false,
            },
            Err(why) => r matches Err(DispatchError::Unreachable { source_text }) && source_text@
                == why@,
        },
{
}

/// A response with any other status ends the call with its body, in full where
/// it has no more than 100 KiB, and else with the first 100 KiB of it and a mark.
pub proof fn other_statuses_end_with_the_body(
    before: Attempts,
    method: Seq<char>,
    status: u16,
    retry_after: Option<Duration>,
    trace_id: Option<String>,
    text: String,
    after: Attempts,
    action: DispatchAction,
)
    requires
        follows(
            before,
            method,
            Outcome::Answer { status, retry_after, trace_id, body: Ok(text) },
            after,
            action,
        ),
        status < 400 || status >= 600,
    ensures
        action matches DispatchAction::Finish(Ok(shown_body)) && (utf8_len(text@) <= 100 * 1024
            ==> shown_body@ == text@) && (utf8_len(text@) > 100 * 1024 ==> exists|
            head: Seq<char>,
        | #[trigger]
            is_byte_prefix(head, text@, (100 * 1024) as nat) && shown_body@ == head
                + "\n[truncated]"@),
{
    if utf8_len(text@) > 100 * 1024 {
        long_bodies_are_cut(text@);
    }
}

/// What is cut off of a long body: it begins with the first 100 KiB of it, to the
/// end of a character, and ends with a mark.
pub proof fn long_bodies_are_cut(body: Seq<char>)
    requires
        utf8_len(body) > 100 * 1024,
    ensures
        exists|head: Seq<char>| #[trigger]
            is_byte_prefix(head, body, (100 * 1024) as nat) && truncated(body) == head
                + "\n[truncated]"@,
{
    byte_prefix_exists(body, MAX_BODY_BYTES as nat);
    assert(is_byte_prefix(byte_prefix(body, MAX_BODY_BYTES as nat), body, (100 * 1024) as nat));
}

/// Which responses are not the end of a call: the first 401, whose token is
/// replaced; the first three 429, each after a wait that the server may set; and
/// the first 5xx of `GET`, `HEAD`, `PUT`, `DELETE` and the other methods that may
/// be repeated. No other response is.
pub proof fn which_responses_are_retried(
    before: Attempts,
    method: Seq<char>,
    status: u16,
    retry_after: Option<Duration>,
    trace_id: Option<String>,
    body: Result<String, String>,
    after: Attempts,
    action: DispatchAction,
)
    requires
        before.wf(),
        follows(
            before,
            method,
            Outcome::Answer { status, retry_after, trace_id, body },
            after,
            action,
        ),
    ensures
        status == 401 && !before.refreshed <==> action is RefreshToken,
        status == 429 && before.retries_429 < 3 ==> action == (DispatchAction::Wait {
            retry_no: (before.retries_429 + 1) as u32,
            retry_after,
        }),
        500 <= status < 600 && idempotent(method) && before.retries_5xx < 1 ==> action == (
        DispatchAction::Wait { retry_no: 1, retry_after: None }),
        action is Wait ==> (status == 429 && before.retries_429 < 3) || (500 <= status < 600
            && idempotent(method) && before.retries_5xx < 1),
        action is RefreshToken || action is Wait || action is Finish,
        after.sends == before.sends + 1,
        after.retries_429 == before.retries_429 + if action is Wait && status == 429 {
            1int
        } else {
            0int
        },
        after.retries_5xx == before.retries_5xx + if action is Wait && status != 429 {
            1int
        } else {
            0int
        },
        after.refreshed == (before.refreshed || action is RefreshToken),
{
}

/// The same holds of a call without retries: an error status ends it with an
/// error that shows the status and the body, any other one with the body; only a
/// first 401 has the token replaced.
pub proof fn direct_error_statuses_end_in_errors(
    retried: bool,
    status: u16,
    retry_after: Option<Duration>,
    trace_id: Option<String>,
    text: String,
    status_line: Seq<char>,
    action: DirectAction,
)
    requires
        follows_direct(
            retried,
            Outcome::Answer { status, retry_after, trace_id, body: Ok(text) },
            status_line,
            action,
        ),
    ensures
        action is ReplaceToken <==> status == 401 && !retried,
        400 <= status < 600 && action !is ReplaceToken ==> (action matches DirectAction::Finish(
            Err(m),
        ) && m@ == "HTTP "@ + status_line + ": "@ + text@),
        status < 400 || status >= 600 ==> (action matches DirectAction::Finish(Ok(b)) && (utf8_len(
            text@,
        ) <= 100 * 1024 ==> b@ == text@) && (utf8_len(text@) > 100 * 1024 ==> exists|
            head: Seq<char>,
        | #[trigger]
            is_byte_prefix(head, text@, (100 * 1024) as nat) && b@ == head + "\n[truncated]"@)),
{
    if utf8_len(text@) > 100 * 1024 {
        long_bodies_are_cut(text@);
    }
}

/// A call that has been let into the budget sends its request, one that has
/// waited asks for the budget again, and one whose token was replaced comes by a
/// token before anything else.
pub proof fn steps_of_a_call(
    before: Dispatch,
    event: DispatchEvent,
    after: Dispatch,
    action: DispatchAction,
)
    requires
        before.wf(),
        expects(before.state(), event),
        advances(before, event, after, action),
    ensures
        event matches DispatchEvent::Token(Ok(_)) && before.request() is Ok ==> action is AcquireBudget
            && after.state() is Budget,
        event matches DispatchEvent::Token(Ok(_)) && before.request() is Err ==> action
            matches DispatchAction::Finish(Err(DispatchError::Bad(_))),
        event matches DispatchEvent::Budget(Ok(_)) ==> action is Send && after.state() is Wire,
        event matches DispatchEvent::Budget(Err(full)) ==> action matches DispatchAction::Finish(
            Err(DispatchError::BudgetExceeded { cap }),
        ) && cap == full,
        event is Waited ==> action is AcquireBudget && after.state() is Budget,
        action is RefreshToken ==> after.state() is Token,
        action is Wait ==> after.state() is Pause,
        action is Finish ==> after.state() is Over,
        after.request() == before.request(),
{
}

// ── What a request carries ──────────────────────────────────────────────────

/// Whether an argument is put into the path of a tool: its name stands in curly
/// brackets there.
pub open spec fn goes_into_path(
    path: Seq<char>,
    args: Seq<(Seq<char>, JsonView)>,
    name: Seq<char>,
) -> bool {
    substituted(path, args).1.contains(name)
}

proof fn lookup_without_member(
    ms: Seq<(Seq<char>, JsonView)>,
    key: Seq<char>,
    other: Seq<char>,
)
    ensures
        lookup(without_member(ms, key), other) == if other == key {
            None
        } else {
            lookup(ms, other)
        },
    decreases ms.len(),
{
    if ms.len() > 0 {
        let front = ms.drop_last();
        lookup_without_member(front, key, other);
        lookup_push(front, ms.last(), other);
        assert(front.push(ms.last()) =~= ms);
        lookup_push(without_member(front, key), ms.last(), other);
    }
}

proof fn lookup_push(
    ms: Seq<(Seq<char>, JsonView)>,
    m: (Seq<char>, JsonView),
    key: Seq<char>,
)
    ensures
        lookup(ms.push(m), key) == match lookup(ms, key) {
            Some(v) => Some(v),
            None => if m.0 == key {
                Some(m.1)
            } else {
                None
            },
        },
    decreases ms.len(),
{
    if ms.len() > 0 {
        lookup_push(ms.drop_first(), m, key);
        assert(ms.push(m).drop_first() =~= ms.drop_first().push(m));
    } else {
        assert(ms.push(m).drop_first() =~= ms);
    }
}

proof fn lookup_without_names(
    args: Seq<(Seq<char>, JsonView)>,
    names: Seq<Seq<char>>,
    key: Seq<char>,
)
    ensures
        lookup(without_names(args, names), key) == if names.contains(key) {
            None
        } else {
            lookup(args, key)
        },
    decreases names.len(),
{
    if names.len() > 0 {
        let front = names.drop_last();
        lookup_without_names(args, front, key);
        lookup_without_member(without_names(args, front), names.last(), key);
        if front.contains(key) {
            let k = choose|k: int| 0 <= k < front.len() && front[k] == key;
            assert(names[k] == key);
        }
        if names.contains(key) && key != names.last() {
            let k = choose|k: int| 0 <= k < names.len() && names[k] == key;
            assert(front[k] == key);
        }
        assert(names[names.len() - 1] == names.last());
    }
}

/// A request whose method is neither `GET` nor `HEAD` carries a JSON body and no
/// query string: the argument `body` itself where it is given and not put into
/// the path, else the object of all the arguments that are not put into the path.
/// Its media type is the versioned one of the tool where there is one.
pub proof fn changes_are_sent_in_the_body(
    base: Seq<char>,
    tool: ToolView,
    args: Seq<(Seq<char>, JsonView)>,
    q: RequestView,
)
    requires
        request_of(base, tool, args) == Some(q),
        upper_case(tool.method) != "GET"@,
        upper_case(tool.method) != "HEAD"@,
    ensures
        q.content_type == tool.accept_media_type,
        q.payload matches PayloadView::Body(sent) && match lookup(args, "body"@) {
            Some(body) if !goes_into_path(tool.path, args, "body"@) => sent == body,
            _ => sent matches JsonView::Object(ms) && forall|m: (Seq<char>, JsonView)|
                ms.contains(m) <==> args.contains(m) && !goes_into_path(tool.path, args, m.0),
        },
{
    let consumed = substituted(tool.path, args).1;
    lookup_without_names(args, consumed, "body"@);
    let rest = without_names(args, consumed);
    assert forall|m: (Seq<char>, JsonView)|
        rest.contains(m) <==> args.contains(m) && !goes_into_path(tool.path, args, m.0) by {
        without_names_keeps(args, consumed, m);
    }
}

/// Whether a pair of a query string is an argument that is not put into the path.
pub open spec fn shows_an_argument(
    path: Seq<char>,
    args: Seq<(Seq<char>, JsonView)>,
    pair: (Seq<char>, Seq<char>),
) -> bool {
    exists|m: (Seq<char>, JsonView)| #[trigger]
        args.contains(m) && !goes_into_path(path, args, m.0) && pair == (m.0, shown(m.1))
}

/// A `GET` or `HEAD` request carries a query string, no body and no media type of
/// one; every pair of the query string is an argument that is not put into the
/// path.
pub proof fn queries_are_sent_in_the_url(
    base: Seq<char>,
    tool: ToolView,
    args: Seq<(Seq<char>, JsonView)>,
    q: RequestView,
)
    requires
        request_of(base, tool, args) == Some(q),
        upper_case(tool.method) == "GET"@ || upper_case(tool.method) == "HEAD"@,
    ensures
        q.content_type is None,
        q.payload matches PayloadView::Query(pairs) && forall|i: int|
            0 <= i < pairs.len() ==> shows_an_argument(tool.path, args, #[trigger] pairs[i]),
{
    let consumed = substituted(tool.path, args).1;
    let rest = without_names(args, consumed);
    let pairs = query_pairs(rest);
    assert forall|i: int| 0 <= i < pairs.len() implies shows_an_argument(
        tool.path,
        args,
        #[trigger] pairs[i],
    ) by {
        let m = rest[i];
        assert(rest.contains(m));
        without_names_keeps(args, consumed, m);
        assert(args.contains(m));
    }
}

/// Every request goes to the base URL and the path of the tool, with the method
/// of the tool, and accepts the versioned media type of the tool or, without one,
/// that of Allegro's public API.
pub proof fn request_goes_to_the_tool(
    base: Seq<char>,
    tool: ToolView,
    args: Seq<(Seq<char>, JsonView)>,
    q: RequestView,
)
    requires
        request_of(base, tool, args) == Some(q),
    ensures
        q.method == upper_case(tool.method),
        has_prefix(q.url, base),
        q.url.skip(base.len() as int) == substituted(tool.path, args).0,
        tool.accept_media_type matches Some(m) ==> q.accept == m,
        tool.accept_media_type is None ==> q.accept == "application/vnd.allegro.public.v1+json"@,
{
    assert(q.url.take(base.len() as int) =~= base);
    assert(q.url.skip(base.len() as int) =~= substituted(tool.path, args).0);
}

/// What an argument looks like in a URL: a text as it is, a number in its JSON
/// form, `true`, `false` and `null` as such, anything else as JSON.
pub proof fn arguments_are_shown(j: JsonView)
    ensures
        match j {
            JsonView::Text(s) => shown(j) == s,
            JsonView::Number(t) => shown(j) == t,
            JsonView::Bool(b) => shown(j) == if b {
                "true"@
            } else {
                "false"@
            },
            JsonView::Null => shown(j) == "null"@,
            _ => shown(j) == compact_json(j),
        },
{
}

proof fn literal_part_is_kept(
    head: Seq<char>,
    rest: Seq<char>,
    args: Seq<(Seq<char>, JsonView)>,
)
    requires
        !head.contains('{'),
    ensures
        substituted(head + rest, args) == (
            head + substituted(rest, args).0,
            substituted(rest, args).1,
        ),
    decreases head.len(),
{
    if head.len() == 0 {
        assert(head + rest =~= rest);
        assert(head + substituted(rest, args).0 =~= substituted(rest, args).0);
    } else {
        let whole = head + rest;
        assert(head.contains(head[0]));
        assert(whole[0] == head[0]);
        assert(whole.skip(1) =~= head.skip(1) + rest);
        assert(!head.skip(1).contains('{')) by {
            if head.skip(1).contains('{') {
                let k = choose|k: int| 0 <= k < head.skip(1).len() && head.skip(1)[k] == '{';
                assert(head[k + 1] == '{');
            }
        }
        literal_part_is_kept(head.skip(1), rest, args);
        assert(seq![whole[0]] + (head.skip(1) + substituted(rest, args).0) =~= head + substituted(
            rest,
            args,
        ).0);
    }
}

proof fn index_from_is_first(s: Seq<char>, c: char, from: int, at: int)
    requires
        0 <= from <= at < s.len(),
        s[at] == c,
        forall|k: int| from <= k < at ==> s[k] != c,
    ensures
        index_from(s, c, from) == Some(at),
    decreases at - from,
{
    if from < at {
        index_from_is_first(s, c, from + 1, at);
    }
}

/// In the place of a name in curly brackets stands the argument of that name,
/// percent-encoded; where there is none, the brackets stay. What stands before is
/// kept, and the rest of the path is treated alike.
pub proof fn path_parameter_is_put_in_place(
    head: Seq<char>,
    name: Seq<char>,
    rest: Seq<char>,
    args: Seq<(Seq<char>, JsonView)>,
)
    requires
        !head.contains('{'),
        !name.contains('}'),
    ensures
        substituted(head + (seq!['{'] + name + seq!['}'] + rest), args) == match lookup(
            args,
            name,
        ) {
            Some(v) => (
                head + (percent_encoded(shown(v)) + substituted(rest, args).0),
                seq![name] + substituted(rest, args).1,
            ),
            None => (
                head + (seq!['{'] + name + seq!['}'] + substituted(rest, args).0),
                substituted(rest, args).1,
            ),
        },
{
    let part = seq!['{'] + name + seq!['}'] + rest;
    let end = name.len() as int + 1;
    literal_part_is_kept(head, part, args);
    assert(part[0] == '{');
    assert(part[end] == '}');
    assert forall|k: int| 0 <= k < end implies part[k] != '}' by {
        if k > 0 {
            assert(part[k] == name[k - 1]);
            assert(name.contains(name[k - 1]));
        }
    }
    index_from_is_first(part, '}', 0, end);
    assert(part.subrange(1, end) =~= name);
    assert(part.skip(end + 1) =~= rest);
    assert(part.take(end + 1) =~= seq!['{'] + name + seq!['}']);
}

// ── What an encoded text stands for ─────────────────────────────────────────

/// The value of a hexadecimal digit, written with capital letters.
pub open spec fn hex_value(c: char) -> int {
    if '0' <= c <= '9' {
        c as int - '0' as int
    } else {
        c as int - 'A' as int + 10
    }
}

/// The bytes that a percent-encoded text stands for: `%` and two hexadecimal
/// digits are one byte, any other character is its code.
pub open spec fn percent_decoded(s: Seq<char>) -> Seq<u8>
    decreases s.len(),
{
    if s.len() == 0 {
        Seq::empty()
    } else if s[0] == '%' && s.len() >= 3 {
        seq![(hex_value(s[1]) * 16 + hex_value(s[2])) as u8] + percent_decoded(s.skip(3))
    } else {
        seq![s[0] as u8] + percent_decoded(s.skip(1))
    }
}

proof fn encoded_bytes_decode(bytes: Seq<u8>)
    ensures
        percent_decoded(encoded_bytes(bytes)) == bytes,
    decreases bytes.len(),
{
    if bytes.len() > 0 {
        let b = bytes[0];
        let rest = encoded_bytes(bytes.drop_first());
        let whole = encoded_bytes(bytes);
        encoded_bytes_decode(bytes.drop_first());
        assert(bytes =~= seq![b] + bytes.drop_first());
        if is_unreserved(b) {
            assert(whole[0] == b as char);
            assert(whole.skip(1) =~= rest);
        } else {
            assert(whole[0] == '%' && whole[1] == hex_digit(b / 16) && whole[2] == hex_digit(
                b % 16,
            ));
            assert(whole.skip(3) =~= rest);
            assert(hex_value(hex_digit(b / 16)) == b / 16);
            assert(hex_value(hex_digit(b % 16)) == b % 16);
        }
    } else {
        assert(bytes =~= Seq::<u8>::empty());
    }
}

/// Percent-decoding an encoded text gives the UTF-8 bytes of the text back.
pub proof fn encoding_can_be_undone(s: Seq<char>)
    ensures
        percent_decoded(percent_encoded(s)) == encode_utf8(s),
{
    encoded_bytes_decode(encode_utf8(s));
}

/// The characters of an encoded text are letters and digits of ASCII, `-`, `.`,
/// `_`, `~` and `%`.
pub proof fn encoded_text_is_plain(s: Seq<char>, i: int)
    requires
        0 <= i < percent_encoded(s).len(),
    ensures
        ({
            let c = percent_encoded(s)[i];
            'a' <= c <= 'z' || 'A' <= c <= 'Z' || '0' <= c <= '9' || c == '-' || c == '.' || c == '_'
                || c == '~' || c == '%'
        }),
{
    encoded_text_stays_in_segment(s);
    assert(is_encoded_char(percent_encoded(s)[i]));
}

/// ASCII letters and digits, `-`, `.`, `_` and `~` stand for themselves: they are
/// never encoded.
pub proof fn plain_text_is_not_encoded(s: Seq<char>)
    requires
        forall|i: int|
            0 <= i < s.len() ==> {
                let c = #[trigger] s[i];
                'a' <= c <= 'z' || 'A' <= c <= 'Z' || '0' <= c <= '9' || c == '-' || c == '.' || c
                    == '_' || c == '~'
            },
    ensures
        percent_encoded(s) == s,
{
    assert forall|i: int| 0 <= i < s.len() implies is_unreserved_char(#[trigger] s[i]) by {}
    unreserved_text_is_kept(s);
}

} // verus!
