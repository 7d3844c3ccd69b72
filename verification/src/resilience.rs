//! Retry policy, rate budget and error reports for calls to the Allegro API.
//! What is decided and rendered here is carried out elsewhere.

use vstd::arithmetic::power2::{
    lemma2_to64, lemma_pow2_pos, lemma_pow2_strictly_increases, lemma_pow2_unfold, pow2,
};
use vstd::prelude::*;

use crate::json::{
    field, is_record, items_view, json_of_text, opt_opt_view, optional_text, read_optional_text,
    read_required_text, required_text, Json, JsonView,
};
use crate::auth::{append_opt, opt_suffix, AuthError};
use crate::text::{
    byte_prefix, byte_prefix_exists, byte_prefix_whole, contains_text, decimal, decimal_string,
    is_byte_prefix, join, joined, joining_appends, lower_ascii, opt_view, parse_unsigned, str_eq,
    text_stands_at, trim, trimmed, truncate_bytes, unsigned_value, utf8_len, views,
};
use crate::time::{
    opt_nanos, system_clock_nanos, Duration, MAX_NANOS, NANOS_PER_MILLI, NANOS_PER_SEC,
};

verus! {

broadcast use vstd::string::group_string_axioms;

/// How often a 429 is retried.
pub const MAX_429_RETRIES: u32 = 3;

/// How often a 5xx is retried.
pub const MAX_5XX_RETRIES: u32 = 1;

/// The first computed delay, in milliseconds.
pub const BACKOFF_BASE_MS: u64 = 500;

/// The longest computed delay without jitter, in milliseconds.
pub const BACKOFF_MAX_MS: u64 = 30_000;

/// Jitter stays below this many milliseconds.
pub const JITTER_MAX_MS: u64 = 250;

/// A delay that the server asks for counts up to this many seconds.
pub const RETRY_AFTER_CAP_SECS: u64 = 30;

/// Response header that carries the correlation id.
pub const TRACE_ID_HEADER: &'static str = "Trace-Id";

/// Response header that carries the delay the server asks for.
pub const RETRY_AFTER_HEADER: &'static str = "Retry-After";

/// Allegro's quota of requests per minute for one client id.
pub const ALLEGRO_HARD_LIMIT_RPM: u32 = 9000;

/// The cap of requests per minute unless another is configured.
pub const DEFAULT_RATE_LIMIT_RPM: u32 = 8000;

/// Number of one-second buckets of the rate budget.
pub const WINDOW_BUCKETS: usize = 60;

// ── Error bodies ────────────────────────────────────────────────────────────

/// One entry of Allegro's `{"errors":[...]}` body; every field may be missing.
#[derive(Debug, Clone)]
pub struct AllegroErrorItem {
    pub code: Option<String>,
    pub message: Option<String>,
    pub user_message: Option<String>,
    pub path: Option<String>,
    pub details: Option<String>,
}

/// Allegro's error body.
#[derive(Debug, Clone)]
pub struct AllegroApiErrorBody {
    pub errors: Vec<AllegroErrorItem>,
}

/// The error body of the OAuth token endpoint.
#[derive(Debug, Clone)]
pub struct OAuthErrorBody {
    pub error: String,
    pub error_description: Option<String>,
}

/// What an error entry is.
pub struct ErrorItemView {
    pub code: Option<Seq<char>>,
    pub message: Option<Seq<char>>,
    pub user_message: Option<Seq<char>>,
    pub path: Option<Seq<char>>,
    pub details: Option<Seq<char>>,
}

impl View for AllegroErrorItem {
    type V = ErrorItemView;

    open spec fn view(&self) -> ErrorItemView {
        ErrorItemView {
            code: opt_view(self.code),
            message: opt_view(self.message),
            user_message: opt_view(self.user_message),
            path: opt_view(self.path),
            details: opt_view(self.details),
        }
    }
}

/// What the entries of an error body are.
pub open spec fn item_views(items: Seq<AllegroErrorItem>) -> Seq<ErrorItemView> {
    items.map_values(|item: AllegroErrorItem| item@)
}

/// The error entry that a JSON value denotes: a record of five texts, each of
/// which may be missing or null.
pub open spec fn error_item(j: JsonView) -> Option<ErrorItemView> {
    let code = optional_text(field(j, "code"@, 0));
    let message = optional_text(field(j, "message"@, 1));
    let user_message = optional_text(field(j, "userMessage"@, 2));
    let path = optional_text(field(j, "path"@, 3));
    let details = optional_text(field(j, "details"@, 4));
    if is_record(j, 5, 5) && code is Some && message is Some && user_message is Some && path is Some
        && details is Some {
        Some(
            ErrorItemView {
                code: code->0,
                message: message->0,
                user_message: user_message->0,
                path: path->0,
                details: details->0,
            },
        )
    } else {
        None
    }
}

/// The error entries that a JSON array denotes; `None` when one is not an
/// error entry.
pub open spec fn error_items(js: Seq<JsonView>) -> Option<Seq<ErrorItemView>>
    decreases js.len(),
{
    if js.len() == 0 {
        Some(Seq::empty())
    } else {
        match (error_items(js.drop_last()), error_item(js.last())) {
            (Some(front), Some(last)) => Some(front.push(last)),
            _ => None,
        }
    }
}

/// The error entries of an Allegro error body: a record whose one field
/// `errors` is an array of error entries, none when the field is missing.
pub open spec fn allegro_errors(j: JsonView) -> Option<Seq<ErrorItemView>> {
    if !is_record(j, 0, 1) {
        None
    } else {
        match field(j, "errors"@, 0) {
            None => Some(Seq::empty()),
            Some(JsonView::Array(js)) => error_items(js),
            Some(_) => None,
        }
    }
}

/// The error entries that a response body denotes.
pub open spec fn allegro_errors_of_text(body: Seq<char>) -> Option<Seq<ErrorItemView>> {
    match json_of_text(body) {
        Ok(j) => allegro_errors(j),
        Err(_) => None,
    }
}

/// The entries of a parsed error body.
pub open spec fn body_items(b: Option<AllegroApiErrorBody>) -> Option<Seq<ErrorItemView>> {
    match b {
        Some(b) => Some(item_views(b.errors@)),
        None => None,
    }
}

fn read_error_item(j: &Json) -> (r: Option<AllegroErrorItem>)
    ensures
        match r {
            Some(item) => error_item(j@) == Some(item@),
            None => error_item(j@) is None,
        },
{
    if !j.can_be_record(5, 5) {
        return None;
    }
    let code = read_optional_text(j.record_field("code", 0));
    let message = read_optional_text(j.record_field("message", 1));
    let user_message = read_optional_text(j.record_field("userMessage", 2));
    let path = read_optional_text(j.record_field("path", 3));
    let details = read_optional_text(j.record_field("details", 4));
    match (code, message, user_message, path, details) {
        (Some(code), Some(message), Some(user_message), Some(path), Some(details)) => {
            Some(AllegroErrorItem { code, message, user_message, path, details })
        },
        _ => None,
    }
}

/// Reads an Allegro error body out of a JSON value.
pub fn read_allegro_errors(j: &Json) -> (r: Option<AllegroApiErrorBody>)
    ensures
        body_items(r) == allegro_errors(j@),
{
    broadcast use crate::json::array_view;

    if !j.can_be_record(0, 1) {
        return None;
    }
    match j.record_field("errors", 0) {
        None => {
            let errors: Vec<AllegroErrorItem> = Vec::new();
            assert(item_views(errors@) =~= Seq::empty());
            Some(AllegroApiErrorBody { errors })
        },
        Some(Json::Array(js)) => {
            let ghost all = items_view(js@);
            assert(Json::Array(*js)@ == JsonView::Array(all));
            let mut errors: Vec<AllegroErrorItem> = Vec::new();
            let mut i: usize = 0;
            assert(all.take(0) =~= Seq::<JsonView>::empty());
            assert(item_views(errors@) =~= Seq::empty());
            while i < js.len()
                invariant
                    all == items_view(js@),
                    i <= js@.len(),
                    error_items(all.take(i as int)) == Some(item_views(errors@)),
                    allegro_errors(j@) == error_items(all),
                decreases js@.len() - i,
            {
                proof {
                    assert(all.take(i as int + 1).drop_last() =~= all.take(i as int));
                    assert(all.take(i as int + 1).last() == js@[i as int]@);
                }
                match read_error_item(&js[i]) {
                    Some(item) => {
                        let ghost before = item_views(errors@);
                        errors.push(item);
                        assert(item_views(errors@) =~= before.push(item@));
                    },
                    None => {
                        proof {
                            error_items_prefix(all, i as int + 1);
                        }
                        return None;
                    },
                }
                i += 1;
            }
            assert(all.take(all.len() as int) =~= all);
            Some(AllegroApiErrorBody { errors })
        },
        Some(_) => None,
    }
}

proof fn error_items_prefix(js: Seq<JsonView>, n: int)
    requires
        0 <= n <= js.len(),
        error_items(js.take(n)) is None,
    ensures
        error_items(js) is None,
    decreases js.len() - n,
{
    if n < js.len() {
        assert(js.take(n + 1).drop_last() =~= js.take(n));
        error_items_prefix(js, n + 1);
    } else {
        assert(js.take(n) =~= js);
    }
}

/// Parses an Allegro error body; `None` when the body has another shape.
pub fn parse_allegro_errors(body: &str) -> (r: Option<AllegroApiErrorBody>)
    ensures
        body_items(r) == allegro_errors_of_text(body@),
{
    match Json::parse(body) {
        Ok(j) => read_allegro_errors(&j),
        Err(_) => None,
    }
}

/// The OAuth error body that a JSON value denotes: a record of the text
/// `error` and of the text `error_description`, which may be missing or null.
pub open spec fn oauth_error(j: JsonView) -> Option<(Seq<char>, Option<Seq<char>>)> {
    let error = required_text(field(j, "error"@, 0));
    let description = optional_text(field(j, "error_description"@, 1));
    if is_record(j, 2, 2) && error is Some && description is Some {
        Some((error->0, description->0))
    } else {
        None
    }
}

/// The OAuth error body that a response body denotes.
pub open spec fn oauth_error_of_text(body: Seq<char>) -> Option<(Seq<char>, Option<Seq<char>>)> {
    match json_of_text(body) {
        Ok(j) => oauth_error(j),
        Err(_) => None,
    }
}

/// What a parsed OAuth error body is.
pub open spec fn oauth_view(b: Option<OAuthErrorBody>) -> Option<(Seq<char>, Option<Seq<char>>)> {
    match b {
        Some(b) => Some((b.error@, opt_view(b.error_description))),
        None => None,
    }
}

/// Reads an OAuth error body out of a JSON value.
pub fn read_oauth_error(j: &Json) -> (r: Option<OAuthErrorBody>)
    ensures
        oauth_view(r) == oauth_error(j@),
{
    if !j.can_be_record(2, 2) {
        return None;
    }
    let error = read_required_text(j.record_field("error", 0));
    let description = read_optional_text(j.record_field("error_description", 1));
    match (error, description) {
        (Some(error), Some(error_description)) => Some(
            OAuthErrorBody { error, error_description },
        ),
        _ => None,
    }
}

/// Parses an OAuth token-endpoint error body; `None` when the body has another
/// shape.
pub fn parse_oauth_error(body: &str) -> (r: Option<OAuthErrorBody>)
    ensures
        oauth_view(r) == oauth_error_of_text(body@),
{
    match Json::parse(body) {
        Ok(j) => read_oauth_error(&j),
        Err(_) => None,
    }
}

// ── Header extraction ───────────────────────────────────────────────────────

/// A multimap of HTTP headers.
#[verifier::external_type_specification]
#[verifier::external_body]
#[verifier::reject_recursive_types(T)]
pub struct ExHeaderMap<T>(reqwest::header::HeaderMap<T>);

/// The value of an HTTP header.
#[verifier::external_type_specification]
#[verifier::external_body]
pub struct ExHeaderValue(reqwest::header::HeaderValue);

/// What a header map holds: under each name, written small, the values in the
/// order in which they were added.
pub uninterp spec fn header_values(headers: reqwest::header::HeaderMap) -> Map<
    Seq<char>,
    Seq<Seq<u8>>,
>;

/// Whether `name` is made of ASCII letters and hyphens, not too many of them.
pub open spec fn is_header_name(name: Seq<char>) -> bool {
    &&& 0 < name.len() <= 64
    &&& forall|i: int|
        0 <= i < name.len() ==> {
            let c = #[trigger] name[i];
            ('a' <= c && c <= 'z') || ('A' <= c && c <= 'Z') || c == '-'
        }
}

/// The first value that a multimap holds under `key`.
pub open spec fn first_value(m: Map<Seq<char>, Seq<Seq<u8>>>, key: Seq<char>) -> Option<Seq<u8>> {
    if m.contains_key(key) && m[key].len() > 0 {
        Some(m[key][0])
    } else {
        None
    }
}

/// What optional bytes are.
pub open spec fn opt_bytes(o: Option<Vec<u8>>) -> Option<Seq<u8>> {
    match o {
        Some(v) => Some(v@),
        None => None,
    }
}

/// Calls `HeaderMap::get`: the first value of the header, whatever the case of
/// its name; `None` when there is no such header.
#[verifier::external_body]
fn header_bytes(headers: &reqwest::header::HeaderMap, name: &str) -> (r: Option<Vec<u8>>)
    requires
        is_header_name(name@),
    ensures
        opt_bytes(r) == first_value(header_values(*headers), lower_ascii(name@)),
{
    headers.get(name).map(|value| value.as_bytes().to_vec())
}

/// Whether a byte is a visible ASCII character, a space or a tab.
pub open spec fn is_text_byte(b: u8) -> bool {
    32 <= b < 127 || b == 9
}

/// The text of a header value: its bytes as characters, `None` when one is not
/// a visible ASCII character, a space or a tab.
pub open spec fn header_text_of(bytes: Option<Seq<u8>>) -> Option<Seq<char>> {
    match bytes {
        None => None,
        Some(b) => if forall|i: int| 0 <= i < b.len() ==> is_text_byte(#[trigger] b[i]) {
            Some(b.map_values(|x: u8| x as char))
        } else {
            None
        },
    }
}

/// The text of the header `name`.
pub open spec fn header_text(
    headers: reqwest::header::HeaderMap,
    name: Seq<char>,
) -> Option<Seq<char>> {
    header_text_of(first_value(header_values(headers), lower_ascii(name)))
}

/// The text of the header `name`.
pub(crate) fn read_header(headers: &reqwest::header::HeaderMap, name: &str) -> (r: Option<String>)
    requires
        is_header_name(name@),
    ensures
        opt_view(r) == header_text(*headers, name@),
{
    let bytes: Vec<u8> = match header_bytes(headers, name) {
        Some(bytes) => bytes,
        None => return None,
    };
    let mut out: String = String::new();
    let mut i: usize = 0;
    while i < bytes.len()
        invariant
            i <= bytes@.len(),
            first_value(header_values(*headers), lower_ascii(name@)) == Some(bytes@),
            forall|k: int| 0 <= k < i ==> is_text_byte(#[trigger] bytes@[k]),
            out@ =~= bytes@.take(i as int).map_values(|x: u8| x as char),
        decreases bytes@.len() - i,
    {
        let b: u8 = bytes[i];
        if !((32 <= b && b < 127) || b == 9) {
            assert(!is_text_byte(bytes@[i as int]));
            return None;
        }
        out.push(b as char);
        i += 1;
        assert(out@ =~= bytes@.take(i as int).map_values(|x: u8| x as char));
    }
    assert(bytes@.take(bytes@.len() as int) =~= bytes@);
    Some(out)
}

/// The `Trace-Id` of a response.
pub fn extract_trace_id(headers: &reqwest::header::HeaderMap) -> (r: Option<String>)
    ensures
        opt_view(r) == header_text(*headers, TRACE_ID_HEADER@),
{
    proof {
        reveal_strlit("Trace-Id");
    }
    read_header(headers, TRACE_ID_HEADER)
}

/// The second since the Unix epoch that `httpdate` reads from a text.
pub uninterp spec fn http_date(s: Seq<char>) -> Option<u64>;

/// Calls `httpdate::parse_http_date`: the whole second that the date names,
/// which never lies before the Unix epoch; a function of the text alone.
#[verifier::external_body]
fn read_http_date(s: &str) -> (r: Option<u64>)
    ensures
        r == http_date(s@),
{
    let time = httpdate::parse_http_date(s).ok()?;
    time.duration_since(std::time::UNIX_EPOCH).ok().map(|d| d.as_secs())
}

/// The shorter of two lengths of time.
pub open spec fn min_nanos(a: int, b: int) -> nat {
    if a <= 0 || b <= 0 {
        0
    } else if a <= b {
        a as nat
    } else {
        b as nat
    }
}

/// The delay, in nanoseconds, that a `Retry-After` header asks for at the
/// clock reading `now`: a number of seconds, or the time until an HTTP date,
/// never more than the cap and none for a past date.
pub open spec fn retry_after_delay(raw: Option<Seq<char>>, now: int) -> Option<nat> {
    let cap = RETRY_AFTER_CAP_SECS * NANOS_PER_SEC;
    match raw {
        None => None,
        Some(raw) => {
            let t = trimmed(raw);
            if t.len() == 0 {
                None
            } else {
                match (unsigned_value(t, u64::MAX as nat), http_date(t)) {
                    (Some(secs), _) => Some(min_nanos(secs * NANOS_PER_SEC, cap)),
                    (None, Some(at)) => Some(min_nanos(at * NANOS_PER_SEC - now, cap)),
                    (None, None) => None,
                }
            }
        },
    }
}

/// The delay that the `Retry-After` header of a response asks for, when the
/// system clock reads `now` nanoseconds since the Unix epoch.
pub fn parse_retry_after_at(headers: &reqwest::header::HeaderMap, now: i128) -> (r: Option<
    Duration,
>)
    requires
        -(MAX_NANOS as int) <= now <= MAX_NANOS,
    ensures
        opt_nanos(r) == retry_after_delay(header_text(*headers, RETRY_AFTER_HEADER@), now as int),
{
    proof {
        reveal_strlit("Retry-After");
    }
    let raw: String = match read_header(headers, RETRY_AFTER_HEADER) {
        Some(raw) => raw,
        None => return None,
    };
    let t: String = trim(raw.as_str());
    if t.as_str().is_empty() {
        return None;
    }
    let cap: Duration = Duration::from_secs(RETRY_AFTER_CAP_SECS);
    if let Some(secs) = parse_unsigned(t.as_str(), u64::MAX) {
        return Some(Duration::from_secs(secs).min(cap));
    }
    if let Some(at) = read_http_date(t.as_str()) {
        let diff: i128 = at as i128 * 1_000_000_000 - now;
        if diff <= 0 {
            return Some(Duration::zero());
        }
        if diff >= 30_000_000_000 {
            return Some(cap);
        }
        return Some(Duration::from_nanos(diff as u128));
    }
    None
}

/// The delay that the `Retry-After` header of a response asks for, by the
/// system clock.
pub fn parse_retry_after(headers: &reqwest::header::HeaderMap) -> (r: Option<Duration>)
    ensures
        exists|now: int|
            opt_nanos(r) == #[trigger] retry_after_delay(
                header_text(*headers, RETRY_AFTER_HEADER@),
                now,
            ),
{
    parse_retry_after_at(headers, system_clock_nanos())
}

// ── Error taxonomy and reports ──────────────────────────────────────────────

/// How a call to the Allegro API can fail.
#[derive(Debug)]
pub enum DispatchError {
    /// A 429 outlasted the retries. `attempts` counts every request sent for
    /// the call, `retry_after` is that of the last 429.
    RateLimited {
        attempts: u32,
        retry_after: Option<Duration>,
        trace_id: Option<String>,
        body: String,
    },
    /// A 5xx outlasted the retries, or the method may not be repeated.
    Server { status: u16, retries: u32, trace_id: Option<String>, body: String },
    /// Any other error status.
    Client {
        status: u16,
        trace_id: Option<String>,
        allegro: Option<AllegroApiErrorBody>,
        body: String,
    },
    /// No response came.
    Unreachable { source_text: String },
    /// The rate budget is spent; the request was not sent.
    BudgetExceeded { cap: u32 },
    /// An authentication error, already rendered.
    Auth(String),
    /// A request that cannot be shaped; the text is shown as it is.
    Bad(String),
}

/// The reason phrase shown for a status.
pub open spec fn reason(status: u16) -> Seq<char> {
    match status {
        400 => "Bad Request"@,
        401 => "Unauthorized"@,
        403 => "Forbidden"@,
        404 => "Not Found"@,
        405 => "Method Not Allowed"@,
        409 => "Conflict"@,
        410 => "Gone"@,
        413 => "Content Too Large"@,
        415 => "Unsupported Media Type"@,
        422 => "Unprocessable Entity"@,
        429 => "Too Many Requests"@,
        500 => "Internal Server Error"@,
        501 => "Not Implemented"@,
        502 => "Bad Gateway"@,
        503 => "Service Unavailable"@,
        504 => "Gateway Timeout"@,
        _ => "Error"@,
    }
}

/// The reason phrase shown for a status.
pub fn reason_phrase(status: u16) -> (r: &'static str)
    ensures
        r@ == reason(status),
{
    match status {
        400 => "Bad Request",
        401 => "Unauthorized",
        403 => "Forbidden",
        404 => "Not Found",
        405 => "Method Not Allowed",
        409 => "Conflict",
        410 => "Gone",
        413 => "Content Too Large",
        415 => "Unsupported Media Type",
        422 => "Unprocessable Entity",
        429 => "Too Many Requests",
        500 => "Internal Server Error",
        501 => "Not Implemented",
        502 => "Bad Gateway",
        503 => "Service Unavailable",
        504 => "Gateway Timeout",
        _ => "Error",
    }
}

/// At most this many bytes of a response body stand in a report.
pub const DEV_BODY_MAX_BYTES: usize = 4096;

/// The part of a response body that stands in a report.
pub open spec fn dev_body(body: Seq<char>) -> Seq<char> {
    byte_prefix(body, DEV_BODY_MAX_BYTES as nat)
}

/// Cuts a response body to what stands in a report.
pub fn truncate_dev_body(body: &str) -> (r: String)
    ensures
        r@ == dev_body(body@),
        is_byte_prefix(r@, body@, DEV_BODY_MAX_BYTES as nat),
{
    truncate_bytes(body, DEV_BODY_MAX_BYTES)
}

/// The `Retry-After:` line of a report.
pub open spec fn retry_after_line(retry_after: Option<Duration>) -> Seq<char> {
    match retry_after {
        Some(d) => "\nRetry-After: "@ + decimal(d@ / NANOS_PER_SEC as nat) + "s"@,
        None => Seq::empty(),
    }
}

/// Appends the `Trace-Id:` and `Retry-After:` lines that there are.
pub fn push_trace_and_retry_after(
    out: &mut String,
    trace_id: &Option<String>,
    retry_after: &Option<Duration>,
)
    ensures
        final(out)@ == old(out)@ + opt_suffix("\nTrace-Id: "@, *trace_id) + retry_after_line(
            *retry_after,
        ),
{
    append_opt(out, "\nTrace-Id: ", trace_id);
    let ghost head = out@;
    if let Some(d) = retry_after {
        let line: String = "\nRetry-After: ".to_owned().concat(
            decimal_string(d.as_secs()).as_str(),
        ).concat("s");
        out.append(line.as_str());
    }
    assert(out@ =~= head + retry_after_line(*retry_after));
}

/// `a`, the separator and `b`; only `b` when `a` is empty.
pub open spec fn spaced(a: Seq<char>, sep: Seq<char>, b: Seq<char>) -> Seq<char> {
    if a.len() == 0 {
        b
    } else {
        a + sep + b
    }
}

/// `code: message (path)`, without the parts that are missing.
pub open spec fn item_text(item: ErrorItemView) -> Seq<char> {
    let code = match item.code {
        Some(c) => c,
        None => Seq::empty(),
    };
    let with_message = match item.message {
        Some(m) => spaced(code, ": "@, m),
        None => code,
    };
    match item.path {
        Some(p) => spaced(with_message, " "@, "("@ + p + ")"@),
        None => with_message,
    }
}

/// The texts of the entries that have one.
pub open spec fn item_texts(items: Seq<ErrorItemView>) -> Seq<Seq<char>>
    decreases items.len(),
{
    if items.len() == 0 {
        Seq::empty()
    } else {
        let front = item_texts(items.drop_last());
        let text = item_text(items.last());
        if text.len() == 0 {
            front
        } else {
            front.push(text)
        }
    }
}

/// All entries on one line.
pub open spec fn items_line(items: Seq<ErrorItemView>) -> Seq<char> {
    joined(item_texts(items), "; "@)
}

fn append_spaced(a: String, sep: &str, b: &str) -> (r: String)
    ensures
        r@ == spaced(a@, sep@, b@),
{
    if a.as_str().is_empty() {
        b.to_owned()
    } else {
        a.concat(sep).concat(b)
    }
}

fn format_item(item: &AllegroErrorItem) -> (r: String)
    ensures
        r@ == item_text(item@),
{
    let mut s: String = match &item.code {
        Some(code) => code.clone(),
        None => String::new(),
    };
    if let Some(message) = &item.message {
        s = append_spaced(s, ": ", message.as_str());
    }
    if let Some(path) = &item.path {
        let place: String = "(".to_owned().concat(path.as_str()).concat(")");
        s = append_spaced(s, " ", place.as_str());
    }
    s
}

/// `code: message (path)` of every entry, separated by semicolons.
pub fn format_allegro_items(items: &Vec<AllegroErrorItem>) -> (r: String)
    ensures
        r@ == items_line(item_views(items@)),
{
    let ghost all = item_views(items@);
    let mut parts: Vec<String> = Vec::new();
    let mut i: usize = 0;
    assert(all.take(0) =~= Seq::<ErrorItemView>::empty());
    assert(views(parts@) =~= Seq::<Seq<char>>::empty());
    while i < items.len()
        invariant
            all == item_views(items@),
            i <= items@.len(),
            views(parts@) == item_texts(all.take(i as int)),
        decreases items@.len() - i,
    {
        let text: String = format_item(&items[i]);
        proof {
            assert(all.take(i as int + 1).drop_last() =~= all.take(i as int));
            assert(all.take(i as int + 1).last() == items@[i as int]@);
        }
        if !text.as_str().is_empty() {
            let ghost before = views(parts@);
            parts.push(text);
            assert(views(parts@) =~= before.push(text@));
        }
        i += 1;
    }
    assert(all.take(all.len() as int) =~= all);
    join(&parts, "; ")
}

/// `1 retry` or `{n} retries`.
pub open spec fn retries_text(n: u32) -> Seq<char> {
    if n == 1 {
        "1 retry"@
    } else {
        decimal(n as nat) + " retries"@
    }
}

/// `1 retry` or `{n} retries`.
pub fn plural_retries(n: u32) -> (r: String)
    ensures
        r@ == retries_text(n),
{
    if n == 1 {
        "1 retry".to_owned()
    } else {
        decimal_string(n as u64).concat(" retries")
    }
}

/// The first message meant for the user.
pub open spec fn first_user_message(items: Seq<ErrorItemView>) -> Option<Seq<char>>
    decreases items.len(),
{
    if items.len() == 0 {
        None
    } else if items[0].user_message is Some {
        items[0].user_message
    } else {
        first_user_message(items.drop_first())
    }
}

fn find_user_message(items: &Vec<AllegroErrorItem>) -> (r: Option<String>)
    ensures
        opt_view(r) == first_user_message(item_views(items@)),
{
    let ghost all = item_views(items@);
    let mut i: usize = 0;
    assert(all.skip(0) =~= all);
    while i < items.len()
        invariant
            all == item_views(items@),
            i <= items@.len(),
            first_user_message(all) == first_user_message(all.skip(i as int)),
        decreases items@.len() - i,
    {
        if let Some(message) = &items[i].user_message {
            assert(all.skip(i as int)[0] == items@[i as int]@);
            return Some(message.clone());
        }
        assert(all.skip(i as int).drop_first() =~= all.skip(i as int + 1));
        i += 1;
    }
    None
}

/// The user line of a rejected request: the first message that Allegro meant
/// for the user, a generic one that names the status otherwise.
pub open spec fn client_user_text(status: u16, items: Option<Seq<ErrorItemView>>) -> Seq<char> {
    match items {
        Some(items) if first_user_message(items) is Some => first_user_message(items)->0,
        _ => "Allegro rejected the request (HTTP "@ + decimal(status as nat)
            + "). Check the Dev details — often a missing or invalid parameter."@,
    }
}

/// The developer line of a rejected request.
pub open spec fn client_dev_text(items: Option<Seq<ErrorItemView>>, body: Seq<char>) -> Seq<char> {
    match items {
        Some(items) if items_line(items).len() > 0 => items_line(items) + "; body: "@ + dev_body(
            body,
        ),
        _ => "body: "@ + dev_body(body),
    }
}

impl DispatchError {
    /// The first line of the report.
    pub open spec fn headline(self) -> Seq<char> {
        match self {
            DispatchError::RateLimited { attempts, .. } =>
                "Allegro API error: HTTP 429 Too Many Requests — rate limited after "@ + decimal(
                attempts as nat,
            ) + " attempts"@,
            DispatchError::Server { status, retries, .. } => "Allegro API error: HTTP "@ + decimal(
                status as nat,
            ) + " "@ + reason(status) + " — server error after "@ + retries_text(retries),
            DispatchError::Client { status, .. } => "Allegro API error: HTTP "@ + decimal(
                status as nat,
            ) + " "@ + reason(status),
            DispatchError::Unreachable { .. } =>
                "Allegro API error: Allegro unreachable (transport failure)"@,
            DispatchError::BudgetExceeded { cap } =>
                "Allegro API error: client-side rate budget exceeded ("@ + decimal(cap as nat)
                + " req/min per client_id)"@,
            DispatchError::Auth(text) => text@,
            DispatchError::Bad(text) => text@,
        }
    }

    /// The lines between the first one and the developer line.
    pub open spec fn context_lines(self) -> Seq<char> {
        match self {
            DispatchError::RateLimited { retry_after, trace_id, .. } => opt_suffix(
                "\nTrace-Id: "@,
                trace_id,
            ) + retry_after_line(retry_after),
            DispatchError::Server { trace_id, .. } => opt_suffix("\nTrace-Id: "@, trace_id),
            DispatchError::Client { trace_id, .. } => opt_suffix("\nTrace-Id: "@, trace_id),
            _ => Seq::empty(),
        }
    }

    /// The developer line.
    pub open spec fn dev_line(self) -> Seq<char> {
        match self {
            DispatchError::RateLimited { body, .. } =>
                "\nDev: 429; retries exhausted (backoff 500ms/1s/2s + jitter, server Retry-After honored); body: "@
                + dev_body(body@),
            DispatchError::Server { retries, body, .. } => "\nDev: 5xx persisted after "@
                + retries_text(retries) + "; body: "@ + dev_body(body@),
            DispatchError::Client { allegro, body, .. } => "\nDev: "@ + client_dev_text(
                body_items(allegro),
                body@,
            ),
            DispatchError::Unreachable { source_text } => "\nDev: transport error: "@ + source_text@,
            DispatchError::BudgetExceeded { cap } => "\nDev: sliding 60 s window reached the "@
                + decimal(cap as nat) + " req/min cap; the request was not sent"@,
            _ => Seq::empty(),
        }
    }

    /// The user line.
    pub open spec fn user_line(self) -> Seq<char> {
        match self {
            DispatchError::RateLimited { .. } =>
                "\nUser: Allegro is limiting how often this app can call the API. Wait a moment and retry; if it persists, reduce how many requests you make at once."@,
            DispatchError::Server { .. } =>
                "\nUser: Allegro had a temporary problem handling the request. Try again in a few seconds; if it keeps happening, wait before retrying."@,
            DispatchError::Client { status, allegro, .. } => "\nUser: "@ + client_user_text(
                status,
                body_items(allegro),
            ),
            DispatchError::Unreachable { .. } =>
                "\nUser: Allegro could not be reached — the network or the service may be down. Check connectivity and try again."@,
            DispatchError::BudgetExceeded { cap } => "\nUser: This app made more than "@ + decimal(
                cap as nat,
            )
                + " requests in the last minute and paused itself to protect your Allegro quota. Wait a few seconds and send fewer requests."@,
            _ => Seq::empty(),
        }
    }

    /// The whole report.
    pub open spec fn report_text(self) -> Seq<char> {
        self.headline() + self.context_lines() + self.dev_line() + self.user_line()
    }

    /// The message shown for the error in one line.
    pub open spec fn text(self) -> Seq<char> {
        match self {
            DispatchError::RateLimited { attempts, .. } => "HTTP 429 rate-limited after "@
                + decimal(attempts as nat) + " attempts"@,
            DispatchError::Server { status, retries, .. } => "HTTP "@ + decimal(status as nat)
                + " server error after "@ + decimal(retries as nat) + " 5xx-retries"@,
            DispatchError::Client { status, .. } => "HTTP "@ + decimal(status as nat),
            DispatchError::Unreachable { source_text } => "Allegro unreachable: "@ + source_text@,
            DispatchError::BudgetExceeded { cap } => "client-side rate budget exceeded ("@
                + decimal(cap as nat) + " req/min per client_id)"@,
            DispatchError::Auth(text) => text@,
            DispatchError::Bad(text) => text@,
        }
    }

    /// The message shown for the error in one line.
    pub fn message(&self) -> (r: String)
        ensures
            r@ == self.text(),
    {
        match self {
            DispatchError::RateLimited { attempts, .. } =>
                "HTTP 429 rate-limited after ".to_owned().concat(
                decimal_string(*attempts as u64).as_str()).concat(" attempts"),
            DispatchError::Server { status, retries, .. } => "HTTP ".to_owned().concat(
                decimal_string(*status as u64).as_str(),
            ).concat(" server error after ").concat(decimal_string(*retries as u64).as_str()).concat(
                " 5xx-retries",
            ),
            DispatchError::Client { status, .. } => "HTTP ".to_owned().concat(
                decimal_string(*status as u64).as_str(),
            ),
            DispatchError::Unreachable { source_text } => "Allegro unreachable: ".to_owned().concat(
                source_text.as_str(),
            ),
            DispatchError::BudgetExceeded { cap } =>
                "client-side rate budget exceeded (".to_owned().concat(
                decimal_string(*cap as u64).as_str()).concat(" req/min per client_id)"),
            DispatchError::Auth(text) => text.clone(),
            DispatchError::Bad(text) => text.clone(),
        }
    }

    /// The report that the MCP client sees: what happened, the `Trace-Id` and
    /// the `Retry-After` where they are known, a line for developers and one
    /// for users. Authentication and shaping errors are shown as they are.
    pub fn report(&self) -> (r: String)
        ensures
            r@ == self.report_text(),
    {
        match self {
            DispatchError::Auth(text) => {
                assert(text@ =~= self.report_text());
                text.clone()
            },
            DispatchError::Bad(text) => {
                assert(text@ =~= self.report_text());
                text.clone()
            },
            DispatchError::RateLimited { attempts, retry_after, trace_id, body } => {
                let mut out: String =
                    "Allegro API error: HTTP 429 Too Many Requests — rate limited after ".to_owned().concat(
                decimal_string(*attempts as u64).as_str()).concat(" attempts");
                push_trace_and_retry_after(&mut out, trace_id, retry_after);
                let dev: String =
                    "\nDev: 429; retries exhausted (backoff 500ms/1s/2s + jitter, server Retry-After honored); body: ".to_owned().concat(
                truncate_dev_body(body.as_str()).as_str());
                out.append(dev.as_str());
                out.append(
                    "\nUser: Allegro is limiting how often this app can call the API. Wait a moment and retry; if it persists, reduce how many requests you make at once.",
                );
                assert(out@ =~= self.report_text());
                out
            },
            DispatchError::Server { status, retries, trace_id, body } => {
                let retries_shown: String = plural_retries(*retries);
                let mut out: String = "Allegro API error: HTTP ".to_owned().concat(
                    decimal_string(*status as u64).as_str(),
                ).concat(" ").concat(reason_phrase(*status)).concat(" — server error after ").concat(
                    retries_shown.as_str(),
                );
                push_trace_and_retry_after(&mut out, trace_id, &None);
                let dev: String = "\nDev: 5xx persisted after ".to_owned().concat(
                    retries_shown.as_str(),
                ).concat("; body: ").concat(truncate_dev_body(body.as_str()).as_str());
                out.append(dev.as_str());
                out.append(
                    "\nUser: Allegro had a temporary problem handling the request. Try again in a few seconds; if it keeps happening, wait before retrying.",
                );
                assert(out@ =~= self.report_text());
                out
            },
            DispatchError::Client { status, trace_id, allegro, body } => {
                let mut out: String = "Allegro API error: HTTP ".to_owned().concat(
                    decimal_string(*status as u64).as_str(),
                ).concat(" ").concat(reason_phrase(*status));
                push_trace_and_retry_after(&mut out, trace_id, &None);
                let items: String = match allegro {
                    Some(b) => format_allegro_items(&b.errors),
                    None => String::new(),
                };
                let shown: String = truncate_dev_body(body.as_str());
                let dev: String = if items.as_str().is_empty() {
                    "body: ".to_owned().concat(shown.as_str())
                } else {
                    items.concat("; body: ").concat(shown.as_str())
                };
                assert(dev@ == client_dev_text(body_items(*allegro), body@));
                let dev: String = "\nDev: ".to_owned().concat(dev.as_str());
                out.append(dev.as_str());
                let told: Option<String> = match allegro {
                    Some(b) => find_user_message(&b.errors),
                    None => None,
                };
                let user: String = match told {
                    Some(message) => message,
                    None => "Allegro rejected the request (HTTP ".to_owned().concat(
                        decimal_string(*status as u64).as_str(),
                    ).concat("). Check the Dev details — often a missing or invalid parameter."),
                };
                assert(user@ == client_user_text(*status, body_items(*allegro)));
                let user: String = "\nUser: ".to_owned().concat(user.as_str());
                out.append(user.as_str());
                assert(out@ =~= self.report_text());
                out
            },
            DispatchError::Unreachable { source_text } => {
                let mut out: String =
                    "Allegro API error: Allegro unreachable (transport failure)".to_owned();
                let dev: String = "\nDev: transport error: ".to_owned().concat(
                    source_text.as_str(),
                );
                out.append(dev.as_str());
                out.append(
                    "\nUser: Allegro could not be reached — the network or the service may be down. Check connectivity and try again.",
                );
                assert(out@ =~= self.report_text());
                out
            },
            DispatchError::BudgetExceeded { cap } => {
                let shown: String = decimal_string(*cap as u64);
                let mut out: String =
                    "Allegro API error: client-side rate budget exceeded (".to_owned().concat(
                shown.as_str()).concat(" req/min per client_id)");
                let dev: String = "\nDev: sliding 60 s window reached the ".to_owned().concat(
                    shown.as_str(),
                ).concat(" req/min cap; the request was not sent");
                out.append(dev.as_str());
                let user: String = "\nUser: This app made more than ".to_owned().concat(
                    shown.as_str(),
                ).concat(
                    " requests in the last minute and paused itself to protect your Allegro quota. Wait a few seconds and send fewer requests.",
                );
                out.append(user.as_str());
                assert(out@ =~= self.report_text());
                out
            },
        }
    }

    /// The `Trace-Id` of the response behind the error, where there was one.
    pub open spec fn trace(self) -> Option<Seq<char>> {
        match self {
            DispatchError::RateLimited { trace_id, .. } => opt_view(trace_id),
            DispatchError::Server { trace_id, .. } => opt_view(trace_id),
            DispatchError::Client { trace_id, .. } => opt_view(trace_id),
            _ => None,
        }
    }
}

/// Every report of an error whose response carried a `Trace-Id` shows it.
pub proof fn report_shows_trace_id(e: DispatchError)
    requires
        e.trace() is Some,
    ensures
        contains_text(e.report_text(), "\nTrace-Id: "@ + e.trace()->0),
{
    let line = "\nTrace-Id: "@ + e.trace()->0;
    let at = e.headline().len() as int;
    assert(e.report_text().subrange(at, at + line.len()) =~= line);
}

/// A report of an error without a `Trace-Id` and without a known delay holds
/// nothing between its first line and the developer line.
pub proof fn report_without_context(e: DispatchError)
    requires
        e.trace() is None,
        !(e is RateLimited && e->RateLimited_retry_after is Some),
    ensures
        e.report_text() == e.headline() + e.dev_line() + e.user_line(),
{
    assert(e.headline() + e.context_lines() =~= e.headline());
}

/// The text of an authentication error in a report.
pub open spec fn auth_error_text(e: AuthError) -> Seq<char> {
    "auth error: "@ + e.text() + match e.trace() {
        Some(id) => "\nTrace-Id: "@ + id,
        None => Seq::empty(),
    }
}

/// Renders an authentication error: its message behind a fixed prefix, and the
/// `Trace-Id` line when the error carries one.
pub fn render_auth_error(e: &AuthError) -> (r: String)
    ensures
        r@ == auth_error_text(*e),
{
    let mut out: String = "auth error: ".to_owned().concat(e.message().as_str());
    let ghost head = out@;
    match e {
        AuthError::TokenEndpoint { trace_id, .. } => append_opt(
            &mut out,
            "\nTrace-Id: ",
            trace_id,
        ),
        AuthError::TokenMintRateLimited { trace_id, .. } => append_opt(
            &mut out,
            "\nTrace-Id: ",
            trace_id,
        ),
        _ => {
            assert(out@ =~= head + Seq::empty());
        },
    }
    out
}

// ── Backoff policy ──────────────────────────────────────────────────────────

/// One step of the xorshift64 generator.
pub open spec fn xorshift(x: u64) -> u64 {
    let a = x ^ (x >> 12u64);
    let b = a ^ (a << 25u64);
    b ^ (b >> 27u64)
}

/// The number that the generator gives out from the state it has stepped to.
pub open spec fn scramble(x: u64) -> u64 {
    x.wrapping_mul(0x2545_F491_4F6C_DD1D)
}

/// The seed that a reading of the system clock in nanoseconds gives: its lowest
/// 64 bits, a fixed number for a reading before the Unix epoch.
pub open spec fn clock_seed(nanos: i128) -> u64 {
    if nanos < 0 {
        0x9E37_79B9_7F4A_7C15u64
    } else {
        (nanos as int % 0x1_0000_0000_0000_0000) as u64
    }
}

/// Source of the jitter: xorshift64*, whose state is never zero.
#[derive(Debug, Clone)]
pub struct JitterRng {
    state: u64,
}

impl View for JitterRng {
    type V = u64;

    closed spec fn view(&self) -> u64 {
        self.state
    }
}

proof fn xorshift_nonzero(x: u64)
    requires
        x != 0,
    ensures
        xorshift(x) != 0,
{
    let a = x ^ (x >> 12u64);
    assert(a != 0) by (bit_vector)
        requires
            x != 0,
            a == x ^ (x >> 12u64),
    ;
    let b = a ^ (a << 25u64);
    assert(b != 0) by (bit_vector)
        requires
            a != 0,
            b == a ^ (a << 25u64),
    ;
    assert(b ^ (b >> 27u64) != 0) by (bit_vector)
        requires
            b != 0,
    ;
}

impl JitterRng {
    /// Whether the state can be stepped: zero would stay zero.
    pub open spec fn wf(self) -> bool {
        self@ != 0
    }

    /// The generator with the given seed, its lowest bit set.
    pub fn with_seed(seed: u64) -> (r: JitterRng)
        ensures
            r@ == seed | 1,
            r.wf(),
    {
        assert(seed | 1 != 0) by (bit_vector);
        JitterRng { state: seed | 1 }
    }

    /// A generator seeded from a reading of the system clock in nanoseconds, a
    /// fixed seed when the clock stands before the Unix epoch.
    pub fn seeded_at(nanos: i128) -> (r: JitterRng)
        ensures
            r@ == clock_seed(nanos) | 1,
            r.wf(),
    {
        if nanos < 0 {
            JitterRng::with_seed(0x9E37_79B9_7F4A_7C15)
        } else {
            JitterRng::with_seed((nanos as u128 % 0x1_0000_0000_0000_0000) as u64)
        }
    }

    /// A generator seeded from the system clock. The seed depends on when the
    /// call is made.
    pub fn seeded() -> (r: JitterRng)
        ensures
            exists|nanos: i128| r@ == #[trigger] clock_seed(nanos) | 1,
            r.wf(),
    {
        JitterRng::seeded_at(system_clock_nanos())
    }

    /// Steps the generator and gives out a number.
    pub fn next_u64(&mut self) -> (r: u64)
        requires
            old(self).wf(),
        ensures
            final(self)@ == xorshift(old(self)@),
            final(self).wf(),
            r == scramble(final(self)@),
    {
        proof {
            xorshift_nonzero(self@);
        }
        let mut x: u64 = self.state;
        x = x ^ (x >> 12u64);
        x = x ^ (x << 25u64);
        x = x ^ (x >> 27u64);
        self.state = x;
        x.wrapping_mul(0x2545_F491_4F6C_DD1D)
    }

    /// A number below `max_ms`; 0, without a step, when that is 0.
    pub fn jitter_ms(&mut self, max_ms: u64) -> (r: u64)
        requires
            old(self).wf(),
        ensures
            final(self).wf(),
            max_ms == 0 ==> r == 0 && final(self)@ == old(self)@,
            max_ms > 0 ==> final(self)@ == xorshift(old(self)@) && r == scramble(final(self)@)
                % max_ms && r < max_ms,
    {
        if max_ms == 0 {
            return 0;
        }
        self.next_u64() % max_ms
    }
}

/// How long to wait before a retry: twice as long each time, and some jitter.
/// A clone goes on with the same jitter, independently.
#[derive(Debug)]
pub struct BackoffPolicy {
    sleep_override: Option<Duration>,
    jitter: JitterRng,
}

impl Clone for BackoffPolicy {
    fn clone(&self) -> (r: BackoffPolicy)
        ensures
            r.override_nanos() == self.override_nanos(),
            r.jitter_state() == self.jitter_state(),
    {
        BackoffPolicy {
            sleep_override: self.sleep_override,
            jitter: JitterRng { state: self.jitter.state },
        }
    }
}

/// The computed delay before retry number `retry_no`, in milliseconds and
/// without jitter: the base doubled for every earlier retry, up to the maximum.
pub open spec fn backoff_base(retry_no: u32) -> nat {
    let doublings = if retry_no == 0 {
        0
    } else {
        (retry_no - 1) as nat
    };
    let ms = BACKOFF_BASE_MS as nat * pow2(doublings);
    if ms <= BACKOFF_MAX_MS {
        ms
    } else {
        BACKOFF_MAX_MS as nat
    }
}

fn base_ms(retry_no: u32) -> (r: u64)
    ensures
        r == backoff_base(retry_no),
        BACKOFF_BASE_MS <= r <= BACKOFF_MAX_MS,
{
    let doublings: u32 = if retry_no == 0 {
        0
    } else {
        retry_no - 1
    };
    let mut ms: u64 = BACKOFF_BASE_MS;
    let mut i: u32 = 0;
    proof {
        lemma2_to64();
    }
    while i < doublings && ms < BACKOFF_MAX_MS
        invariant
            i <= doublings,
            ms == 500 * pow2(i as nat) || (ms == BACKOFF_MAX_MS && 500 * pow2(i as nat)
                > BACKOFF_MAX_MS),
            BACKOFF_BASE_MS <= ms <= BACKOFF_MAX_MS,
        decreases doublings - i,
    {
        proof {
            lemma_pow2_unfold(i as nat + 1);
        }
        let twice: u64 = 2 * ms;
        ms = if twice > BACKOFF_MAX_MS {
            BACKOFF_MAX_MS
        } else {
            twice
        };
        i += 1;
    }
    proof {
        if i < doublings {
            lemma_pow2_strictly_increases(i as nat, doublings as nat);
        }
    }
    ms
}

impl BackoffPolicy {
    /// The fixed sleep that replaces every computed one.
    pub closed spec fn override_nanos(self) -> Option<nat> {
        opt_nanos(self.sleep_override)
    }

    /// The state of the jitter.
    pub closed spec fn jitter_state(self) -> u64 {
        self.jitter@
    }

    /// Whether the jitter can be drawn.
    pub open spec fn wf(self) -> bool {
        self.jitter_state() != 0
    }

    /// Whether the policy is one for real use: delays are honoured, and the
    /// jitter starts from some reading of the system clock.
    pub open spec fn is_production(self) -> bool {
        &&& self.override_nanos() is None
        &&& exists|nanos: i128| self.jitter_state() == #[trigger] clock_seed(nanos) | 1
        &&& self.wf()
    }

    /// The policy for real use: delays are honoured, the jitter comes from the
    /// system clock.
    pub fn production() -> (r: BackoffPolicy)
        ensures
            r.is_production(),
    {
        BackoffPolicy { sleep_override: None, jitter: JitterRng::seeded() }
    }

    /// A policy that never sleeps, with a fixed seed.
    pub fn test_instant() -> (r: BackoffPolicy)
        ensures
            r.override_nanos() == Some(0nat),
            r.jitter_state() == 0xA5A5_1234u64 | 1,
            r.wf(),
    {
        BackoffPolicy {
            sleep_override: Some(Duration::zero()),
            jitter: JitterRng::with_seed(0xA5A5_1234),
        }
    }

    /// A policy with the given seed.
    pub fn with_seed(seed: u64) -> (r: BackoffPolicy)
        ensures
            r.override_nanos() is None,
            r.jitter_state() == seed | 1,
            r.wf(),
    {
        BackoffPolicy { sleep_override: None, jitter: JitterRng::with_seed(seed) }
    }

    /// The delay before retry number `retry_no`, counted from 1. A delay that
    /// the server asked for is taken as it is, up to the cap and without
    /// jitter; otherwise it is the computed one and some jitter.
    pub fn delay_for(&mut self, retry_no: u32, retry_after: Option<Duration>) -> (r: Duration)
        requires
            old(self).wf(),
        ensures
            final(self).wf(),
            final(self).override_nanos() == old(self).override_nanos(),
            match retry_after {
                Some(d) => r@ == min_nanos(
                    d@ as int,
                    RETRY_AFTER_CAP_SECS * NANOS_PER_SEC,
                ) && final(self).jitter_state() == old(self).jitter_state(),
                None => final(self).jitter_state() == xorshift(old(self).jitter_state()) && r@ == (
                backoff_base(retry_no) + scramble(final(self).jitter_state()) % JITTER_MAX_MS)
                    * NANOS_PER_MILLI,
            },
            retry_after matches Some(d) ==> r@ == (if d@ <= 30 * 1_000_000_000 {
                d@
            } else {
                30_000_000_000
            }),
            retry_after is None ==> backoff_base(retry_no) * 1_000_000 <= r@ < (backoff_base(
                retry_no,
            ) + 250) * 1_000_000,
    {
        if let Some(server) = retry_after {
            return server.min(Duration::from_secs(RETRY_AFTER_CAP_SECS));
        }
        let base: u64 = base_ms(retry_no);
        let jitter: u64 = self.jitter.jitter_ms(JITTER_MAX_MS);
        Duration::from_millis(base + jitter)
    }

    /// The sleep to make for a delay of `d`: the fixed one when there is one,
    /// none at all when it comes to nothing.
    pub fn effective_sleep(&self, d: Duration) -> (r: Option<Duration>)
        ensures
            opt_nanos(r) == {
                let n = match self.override_nanos() {
                    Some(o) => o,
                    None => d@,
                };
                if n > 0 {
                    Some(n)
                } else {
                    None
                }
            },
    {
        let effective: Duration = match self.sleep_override {
            Some(o) => o,
            None => d,
        };
        if effective.as_nanos() > 0 {
            Some(effective)
        } else {
            None
        }
    }
}

/// The computed delay never shrinks from one retry to a later one and stays
/// between the base and the maximum.
pub proof fn backoff_base_grows(a: u32, b: u32)
    requires
        a <= b,
    ensures
        BACKOFF_BASE_MS <= backoff_base(a) <= backoff_base(b) <= BACKOFF_MAX_MS,
{
    let da = if a == 0 {
        0
    } else {
        (a - 1) as nat
    };
    let db = if b == 0 {
        0
    } else {
        (b - 1) as nat
    };
    lemma2_to64();
    lemma_pow2_pos(da);
    if da < db {
        lemma_pow2_strictly_increases(da, db);
    }
    assert(500 * pow2(da) <= 500 * pow2(db)) by (nonlinear_arith)
        requires
            pow2(da) <= pow2(db),
    ;
}

// ── Rate budget ─────────────────────────────────────────────────────────────

/// The bucket of a second.
pub fn bucket_index(epoch_second: u64) -> (r: usize)
    ensures
        r == epoch_second % 60,
        r < WINDOW_BUCKETS,
{
    (epoch_second % 60) as usize
}

/// The buckets once the window has moved from second `last` to second `now`. An
/// earlier or equal second changes nothing. Another minute empties every
/// bucket. Within the minute the buckets strictly between the two seconds are
/// emptied.
pub open spec fn advanced(b: Seq<u32>, last: u64, now: u64) -> Seq<u32> {
    Seq::new(
        b.len(),
        |i: int|
            if now > last && (now / 60 != last / 60 || last % 60 < i < now % 60) {
                0
            } else {
                b[i]
            },
    )
}

/// Moves the window to `now_second`.
pub fn advance(buckets: &mut [u32; WINDOW_BUCKETS], last: &mut u64, now_second: u64)
    ensures
        *final(last) == if now_second <= *old(last) {
            *old(last)
        } else {
            now_second
        },
        final(buckets)@ == advanced(old(buckets)@, *old(last), now_second),
{
    if now_second <= *last {
        assert(buckets@ =~= advanced(old(buckets)@, *old(last), now_second));
        return;
    }
    let (from, to): (usize, usize) = if now_second / 60 != *last / 60 {
        (0, 60)
    } else {
        ((*last % 60) as usize + 1, (now_second % 60) as usize)
    };
    let ghost before = buckets@;
    let mut i: usize = from;
    while i < to
        invariant
            from <= i <= to <= 60,
            buckets@.len() == 60,
            before.len() == 60,
            forall|k: int|
                0 <= k < 60 ==> #[trigger] buckets@[k] == if from <= k < i {
                    0
                } else {
                    before[k]
                },
        decreases to - i,
    {
        buckets[i] = 0;
        i += 1;
    }
    *last = now_second;
    assert(buckets@ =~= advanced(old(buckets)@, *old(last), now_second));
}

/// The sum of the first `n` buckets.
pub open spec fn bucket_sum(b: Seq<u32>, n: int) -> nat
    decreases n,
{
    if n <= 0 {
        0
    } else {
        bucket_sum(b, n - 1) + b[n - 1] as nat
    }
}

proof fn bucket_sum_monotone(b: Seq<u32>, i: int, j: int)
    requires
        i <= j,
    ensures
        bucket_sum(b, i) <= bucket_sum(b, j),
    decreases j - i,
{
    if i < j {
        bucket_sum_monotone(b, i, j - 1);
    }
}

proof fn bucket_sum_same(a: Seq<u32>, b: Seq<u32>, n: int)
    requires
        forall|i: int| 0 <= i < n ==> a[i] == #[trigger] b[i],
    ensures
        bucket_sum(a, n) == bucket_sum(b, n),
    decreases n,
{
    if n > 0 {
        bucket_sum_same(a, b, n - 1);
    }
}

proof fn bucket_sum_le(a: Seq<u32>, b: Seq<u32>, n: int)
    requires
        forall|i: int| 0 <= i < n ==> #[trigger] a[i] <= b[i],
    ensures
        bucket_sum(a, n) <= bucket_sum(b, n),
    decreases n,
{
    if n > 0 {
        bucket_sum_le(a, b, n - 1);
    }
}

proof fn bucket_sum_zero(b: Seq<u32>, n: int)
    requires
        forall|i: int| 0 <= i < n ==> #[trigger] b[i] == 0,
    ensures
        bucket_sum(b, n) == 0,
    decreases n,
{
    if n > 0 {
        bucket_sum_zero(b, n - 1);
    }
}

proof fn bucket_sum_bump(a: Seq<u32>, b: Seq<u32>, k: int, n: int)
    requires
        0 <= k < n,
        b[k] == a[k] + 1,
        forall|i: int| 0 <= i < n && i != k ==> a[i] == #[trigger] b[i],
    ensures
        bucket_sum(b, n) == bucket_sum(a, n) + 1,
    decreases n,
{
    if k == n - 1 {
        bucket_sum_same(a, b, n - 1);
    } else {
        bucket_sum_bump(a, b, k, n - 1);
    }
}

/// The requests counted in the window.
pub fn window_total(buckets: &[u32; WINDOW_BUCKETS]) -> (r: u32)
    requires
        bucket_sum(buckets@, 60) <= u32::MAX,
    ensures
        r == bucket_sum(buckets@, 60),
{
    let mut total: u32 = 0;
    let mut i: usize = 0;
    while i < 60
        invariant
            i <= 60,
            buckets@.len() == 60,
            total == bucket_sum(buckets@, i as int),
            bucket_sum(buckets@, 60) <= u32::MAX,
        decreases 60 - i,
    {
        proof {
            bucket_sum_monotone(buckets@, i as int + 1, 60);
        }
        total += buckets[i];
        i += 1;
    }
    total
}

/// Counts the requests of the running minute against a cap.
#[derive(Debug)]
pub struct RateBudget {
    cap: u32,
    buckets: [u32; WINDOW_BUCKETS],
    last_second: u64,
    acquire_wait: Duration,
}

/// What to do after one try to get a request into the budget.
#[derive(Debug, Clone, Copy, PartialEq, Eq, Structural)]
pub enum BudgetStep {
    /// The request counts and may be sent.
    Acquired,
    /// The budget stays spent: the request must not be sent.
    Exceeded,
    /// Try again after this many milliseconds.
    WaitMillis(u64),
}

impl RateBudget {
    /// The cap of requests.
    pub closed spec fn limit(self) -> u32 {
        self.cap
    }

    /// The requests counted in each second of the window.
    pub closed spec fn counts(self) -> Seq<u32> {
        self.buckets@
    }

    /// The requests counted in the window.
    pub open spec fn total(self) -> nat {
        bucket_sum(self.counts(), 60)
    }

    /// The latest second the window was moved to.
    pub closed spec fn latest(self) -> u64 {
        self.last_second
    }

    /// How long a caller may wait for room, in nanoseconds.
    pub closed spec fn patience(self) -> nat {
        self.acquire_wait@
    }

    /// Whether the window counts no more than the cap.
    pub open spec fn wf(self) -> bool {
        self.counts().len() == 60 && self.total() <= self.limit()
    }

    /// Whether no second of the minute after the latest one has counted
    /// anything yet, as is the case while the clock never goes back.
    pub open spec fn settled(self) -> bool {
        forall|i: int| self.latest() % 60 < i < 60 ==> #[trigger] self.counts()[i] == 0
    }

    /// Whether nothing has been counted yet against a cap of `cap` requests, and
    /// callers wait a little over a second for room.
    pub open spec fn is_fresh(self, cap: u32) -> bool {
        &&& self.wf()
        &&& self.limit() == cap
        &&& self.total() == 0
        &&& self.settled()
        &&& self.latest() == 0
        &&& self.patience() == 1100 * NANOS_PER_MILLI
    }

    /// A budget of `cap` requests that waits a little over a second for room.
    pub fn new(cap: u32) -> (r: RateBudget)
        ensures
            r.is_fresh(cap),
    {
        RateBudget::new_for_tests(cap, Duration::from_millis(1100))
    }

    /// A budget of `cap` requests that waits as long as told.
    pub fn new_for_tests(cap: u32, acquire_wait: Duration) -> (r: RateBudget)
        ensures
            r.wf(),
            r.limit() == cap,
            r.total() == 0,
            r.settled(),
            r.latest() == 0,
            r.patience() == acquire_wait@,
    {
        let buckets: [u32; WINDOW_BUCKETS] = [
            0, 0, 0, 0, 0, 0, 0, 0, 0, 0, 0, 0, 0, 0, 0, 0, 0, 0, 0, 0, 0, 0, 0, 0, 0, 0, 0, 0, 0,
            0, 0, 0, 0, 0, 0, 0, 0, 0, 0, 0, 0, 0, 0, 0, 0, 0, 0, 0, 0, 0, 0, 0, 0, 0, 0, 0, 0, 0,
            0, 0,
        ];
        proof {
            bucket_sum_zero(buckets@, 60);
        }
        RateBudget { cap, buckets, last_second: 0, acquire_wait }
    }

    /// The counts once the window has moved to second `now`.
    pub open spec fn counts_at(self, now: u64) -> Seq<u32> {
        advanced(self.counts(), self.latest(), now)
    }

    /// The total once the window has moved to second `now`.
    pub open spec fn total_at(self, now: u64) -> nat {
        bucket_sum(self.counts_at(now), 60)
    }

    /// Whether the cap leaves room for a request at second `now`.
    pub open spec fn has_room(self, now: u64) -> bool {
        self.total_at(now) < self.limit()
    }

    /// Whether `after` is the budget after one try at second `now`: the window
    /// has moved there, and the request counts when there was room for it.
    pub open spec fn tried(self, now: u64, after: RateBudget) -> bool {
        &&& after.limit() == self.limit()
        &&& after.patience() == self.patience()
        &&& after.latest() == if now > self.latest() {
            now
        } else {
            self.latest()
        }
        &&& after.counts() == if self.has_room(now) {
            let counts = self.counts_at(now);
            let slot = (now % 60) as int;
            counts.update(slot, (counts[slot] + 1) as u32)
        } else {
            self.counts_at(now)
        }
    }

    /// Counts one request at second `now` when the cap leaves room.
    pub fn try_acquire(&mut self, now: u64) -> (r: bool)
        requires
            old(self).wf(),
        ensures
            final(self).wf(),
            old(self).tried(now, *final(self)),
            r == old(self).has_room(now),
    {
        let ghost before = self.buckets@;
        advance(&mut self.buckets, &mut self.last_second, now);
        proof {
            bucket_sum_le(self.buckets@, before, 60);
        }
        if window_total(&self.buckets) < self.cap {
            let slot: usize = bucket_index(now);
            proof {
                bucket_sum_monotone(self.buckets@, slot as int + 1, 60);
            }
            let ghost moved = self.buckets@;
            let count: u32 = self.buckets[slot];
            self.buckets[slot] = count + 1;
            proof {
                bucket_sum_bump(moved, self.buckets@, slot as int, 60);
            }
            true
        } else {
            false
        }
    }

    /// What a request is told at second `now`, after the caller has waited for
    /// `waited` already.
    pub open spec fn turn(self, now: u64, waited: nat) -> BudgetStep {
        if self.has_room(now) {
            BudgetStep::Acquired
        } else if waited >= self.patience() {
            BudgetStep::Exceeded
        } else {
            BudgetStep::WaitMillis(50)
        }
    }

    /// One try to get a request into the budget at second `now`, after the
    /// caller has waited for `waited` already.
    pub fn acquire(&mut self, now: u64, waited: Duration) -> (r: BudgetStep)
        requires
            old(self).wf(),
        ensures
            final(self).wf(),
            old(self).tried(now, *final(self)),
            r == old(self).turn(now, waited@),
    {
        if self.try_acquire(now) {
            BudgetStep::Acquired
        } else if waited.at_least(&self.acquire_wait) {
            BudgetStep::Exceeded
        } else {
            BudgetStep::WaitMillis(50)
        }
    }

    /// The error of a call that finds the budget spent.
    pub fn exceeded(&self) -> (r: DispatchError)
        ensures
            r matches DispatchError::BudgetExceeded { cap } && cap == self.limit(),
    {
        DispatchError::BudgetExceeded { cap: self.cap }
    }
}

/// While the clock does not go back, the budget counts exactly the requests of
/// the running minute: moving on within the minute forgets none of them, and
/// another minute starts from nothing.
pub proof fn budget_counts_the_minute(b: RateBudget, now: u64)
    requires
        b.wf(),
        b.settled(),
        now >= b.latest(),
    ensures
        b.total_at(now) == if now / 60 == b.latest() / 60 {
            b.total()
        } else {
            0
        },
        forall|i: int| now % 60 < i < 60 ==> #[trigger] b.counts_at(now)[i] == 0,
{
    let before = b.counts();
    let after = b.counts_at(now);
    if now / 60 == b.latest() / 60 {
        assert forall|i: int| 0 <= i < 60 implies after[i] == #[trigger] before[i] by {}
        bucket_sum_same(after, before, 60);
    } else {
        bucket_sum_zero(after, 60);
    }
}

/// A request that is let through adds one to the total, one that is not leaves
/// the total as it is, and the counts of the seconds to come stay empty, while
/// the clock does not go back.
pub proof fn budget_try_adds_one(b: RateBudget, now: u64, after: RateBudget)
    requires
        b.wf(),
        b.settled(),
        now >= b.latest(),
        b.tried(now, after),
    ensures
        after.total() == b.total_at(now) + if b.has_room(now) {
            1nat
        } else {
            0nat
        },
        after.wf(),
        after.settled(),
{
    let moved = b.counts_at(now);
    let slot = (now % 60) as int;
    budget_counts_the_minute(b, now);
    if b.has_room(now) {
        bucket_sum_monotone(moved, slot + 1, 60);
        bucket_sum_bump(moved, after.counts(), slot, 60);
    }
    assert forall|i: int| after.latest() % 60 < i < 60 implies #[trigger] after.counts()[i] == 0 by {
        assert(moved[i] == 0);
    }
}

/// Whether `states` are the states that a budget goes through when it is tried
/// at `times`, by a clock that does not go back.
pub open spec fn is_run(states: Seq<RateBudget>, times: Seq<u64>) -> bool {
    &&& states.len() == times.len() + 1
    &&& states[0].wf()
    &&& states[0].settled()
    &&& times.len() > 0 ==> states[0].latest() <= times[0]
    &&& forall|i: int, k: int|
        0 <= i <= k < times.len() ==> #[trigger] times[i] <= #[trigger] times[k]
    &&& forall|i: int|
        0 <= i < times.len() ==> states[i].tried(#[trigger] times[i], states[i + 1])
}

/// How many of the tries in that minute were let through.
pub open spec fn let_through(states: Seq<RateBudget>, times: Seq<u64>, minute: u64) -> nat
    decreases times.len(),
{
    if times.len() == 0 {
        0
    } else {
        let i = times.len() - 1;
        let_through(states, times.drop_last(), minute) + if times[i] / 60 == minute
            && states[i].has_room(times[i]) {
            1nat
        } else {
            0nat
        }
    }
}

proof fn run_keeps_count(states: Seq<RateBudget>, times: Seq<u64>, n: int, minute: u64)
    requires
        is_run(states, times),
        0 <= n <= times.len(),
    ensures
        states[n].wf(),
        states[n].settled(),
        states[n].limit() == states[0].limit(),
        n > 0 ==> states[n].latest() == times[n - 1],
        n < times.len() ==> states[n].latest() <= times[n],
        let_through(states, times.take(n), minute) <= states[0].limit(),
        minute == states[n].latest() / 60 ==> let_through(states, times.take(n), minute)
            <= states[n].total(),
        minute > states[n].latest() / 60 ==> let_through(states, times.take(n), minute) == 0,
    decreases n,
{
    if n > 0 {
        let i = n - 1;
        run_keeps_count(states, times, i, minute);
        let now = times[i];
        assert(states[i].tried(now, states[i + 1]));
        budget_counts_the_minute(states[i], now);
        budget_try_adds_one(states[i], now, states[n]);
        assert(times.take(n).drop_last() =~= times.take(i));
        assert(times.take(n)[i] == now);
        let here = let_through(states, times.take(i), minute);
        let there = let_through(states, times.take(n), minute);
        assert(there == here + if now / 60 == minute && states[i].has_room(now) {
            1nat
        } else {
            0nat
        });
        assert(states[i].latest() / 60 <= now / 60);
        if minute == now / 60 {
            assert(here <= states[i].total_at(now));
        }
        if n < times.len() {
            assert(times[i] <= times[n]);
        }
    }
}

/// In no minute of the clock does a budget let more requests through than its
/// cap, however often it is tried.
pub proof fn a_minute_lets_through_the_cap(states: Seq<RateBudget>, times: Seq<u64>, minute: u64)
    requires
        is_run(states, times),
    ensures
        let_through(states, times, minute) <= states[0].limit(),
{
    run_keeps_count(states, times, times.len() as int, minute);
    assert(times.take(times.len() as int) =~= times);
}

// ── The bundle ──────────────────────────────────────────────────────────────

/// What a call to the API needs beyond its own shape.
#[derive(Debug)]
pub struct Resilience {
    pub backoff: BackoffPolicy,
    pub budget: Option<RateBudget>,
}

/// The copy has a budget of its own that has counted the same requests. Where
/// one cap is to hold for several callers, they share the value itself.
impl Clone for Resilience {
    fn clone(&self) -> (r: Resilience)
        ensures
            r.backoff.override_nanos() == self.backoff.override_nanos(),
            r.backoff.jitter_state() == self.backoff.jitter_state(),
            r.budget == self.budget,
    {
        let budget: Option<RateBudget> = match &self.budget {
            Some(b) => Some(
                RateBudget {
                    cap: b.cap,
                    buckets: b.buckets,
                    last_second: b.last_second,
                    acquire_wait: b.acquire_wait,
                },
            ),
            None => None,
        };
        Resilience { backoff: self.backoff.clone(), budget }
    }
}

impl Resilience {
    /// Whether both parts are well-formed.
    pub open spec fn wf(self) -> bool {
        self.backoff.wf() && match self.budget {
            Some(b) => b.wf(),
            None => true,
        }
    }

    /// Real backoff and a budget of `rate_limit_rpm` requests per minute, none
    /// when that is 0.
    pub fn production(rate_limit_rpm: u32) -> (r: Resilience)
        ensures
            r.wf(),
            r.backoff.is_production(),
            r.budget is Some <==> rate_limit_rpm > 0,
            r.budget matches Some(b) ==> b.is_fresh(rate_limit_rpm),
    {
        let budget: Option<RateBudget> = if rate_limit_rpm > 0 {
            Some(RateBudget::new(rate_limit_rpm))
        } else {
            None
        };
        Resilience { backoff: BackoffPolicy::production(), budget }
    }

    /// Real backoff and no budget.
    pub fn unguarded() -> (r: Resilience)
        ensures
            r.wf(),
            r.backoff.is_production(),
            r.budget is None,
    {
        Resilience { backoff: BackoffPolicy::production(), budget: None }
    }

    /// No sleeps and no budget.
    pub fn test_instant() -> (r: Resilience)
        ensures
            r.wf(),
            r.backoff.override_nanos() == Some(0nat),
            r.backoff.jitter_state() == 0xA5A5_1234u64 | 1,
            r.budget is None,
    {
        Resilience { backoff: BackoffPolicy::test_instant(), budget: None }
    }
}

/// Whether repeating a request of this method has the effect of making it
/// once.
pub open spec fn idempotent(method: Seq<char>) -> bool {
    method == "GET"@ || method == "HEAD"@ || method == "PUT"@ || method == "DELETE"@
}

/// Whether a 5xx answer to a request of this method may be retried.
pub fn is_idempotent(method: &str) -> (r: bool)
    ensures
        r == idempotent(method@),
{
    str_eq(method, "GET") || str_eq(method, "HEAD") || str_eq(method, "PUT") || str_eq(
        method,
        "DELETE",
    )
}

// ── Laws ────────────────────────────────────────────────────────────────────

/// The report on an error response names its status.
pub proof fn report_names_the_status(e: DispatchError, code: u16)
    requires
        match e {
            DispatchError::Client { status, .. } => status == code,
            DispatchError::Server { status, .. } => status == code,
            DispatchError::RateLimited { .. } => code == 429,
            _ => false,
        },
    ensures
        contains_text(e.report_text(), "HTTP "@ + decimal(code as nat)),
        contains_text(e.text(), "HTTP "@ + decimal(code as nat)),
{
    let part = "HTTP "@ + decimal(code as nat);
    let after_headline = e.context_lines() + e.dev_line() + e.user_line();
    reveal_strlit("HTTP ");
    reveal_strlit("Allegro API error: HTTP ");
    match e {
        DispatchError::Client { .. } => {
            let before = "Allegro API error: HTTP "@.take(19);
            assert(e.report_text() =~= before + part + (" "@ + reason(code) + after_headline));
            text_stands_at(
                e.report_text(),
                before,
                part,
                " "@ + reason(code) + after_headline,
            );
            assert(e.text() =~= Seq::<char>::empty() + part + Seq::<char>::empty());
            text_stands_at(e.text(), Seq::empty(), part, Seq::empty());
        },
        DispatchError::Server { retries, .. } => {
            let before = "Allegro API error: HTTP "@.take(19);
            let after = " "@ + reason(code) + " — server error after "@ + retries_text(retries)
                + after_headline;
            assert(e.report_text() =~= before + part + after);
            text_stands_at(e.report_text(), before, part, after);
            let tail = " server error after "@ + decimal(retries as nat) + " 5xx-retries"@;
            assert(e.text() =~= Seq::<char>::empty() + part + tail);
            text_stands_at(e.text(), Seq::empty(), part, tail);
        },
        DispatchError::RateLimited { attempts, .. } => {
            let first = "Allegro API error: HTTP 429 Too Many Requests — rate limited after "@;
            reveal_strlit("Allegro API error: HTTP 429 Too Many Requests — rate limited after ");
            reveal_strlit("HTTP 429 rate-limited after ");
            code_429();
            assert(part =~= first.subrange(19, 27));
            let after = first.skip(27) + decimal(attempts as nat) + " attempts"@ + after_headline;
            assert(e.report_text() =~= first.take(19) + part + after);
            text_stands_at(e.report_text(), first.take(19), part, after);
            let second = "HTTP 429 rate-limited after "@;
            assert(part =~= second.take(8));
            let tail = second.skip(8) + decimal(attempts as nat) + " attempts"@;
            assert(e.text() =~= Seq::<char>::empty() + part + tail);
            text_stands_at(e.text(), Seq::empty(), part, tail);
        },
        _ => {},
    }
}

proof fn code_429()
    ensures
        decimal(429) =~= seq!['4', '2', '9'],
{
    reveal_with_fuel(decimal, 4);
}

/// The report on an error response holds the body of the response, its first
/// 4 KiB where it is longer.
pub proof fn report_holds_the_body(e: DispatchError, sent: Seq<char>)
    requires
        match e {
            DispatchError::Client { body, .. } => body@ == sent,
            DispatchError::Server { body, .. } => body@ == sent,
            DispatchError::RateLimited { body, .. } => body@ == sent,
            _ => false,
        },
    ensures
        utf8_len(sent) <= 4 * 1024 ==> contains_text(e.report_text(), "body: "@ + sent),
        exists|head: Seq<char>| #[trigger]
            is_byte_prefix(head, sent, (4 * 1024) as nat) && contains_text(
                e.report_text(),
                "body: "@ + head,
            ),
{
    let head = dev_body(sent);
    let part = "body: "@ + head;
    byte_prefix_exists(sent, DEV_BODY_MAX_BYTES as nat);
    if utf8_len(sent) <= 4 * 1024 {
        byte_prefix_whole(sent, DEV_BODY_MAX_BYTES as nat);
    }
    reveal_strlit("body: ");
    let lead = e.headline() + e.context_lines();
    match e {
        DispatchError::Client { allegro, body, .. } => match body_items(allegro) {
            Some(items) if items_line(items).len() > 0 => {
                reveal_strlit("; body: ");
                let before = lead + "\nDev: "@ + items_line(items) + "; body: "@.take(2);
                assert(e.report_text() =~= before + part + e.user_line());
                text_stands_at(e.report_text(), before, part, e.user_line());
            },
            _ => {
                let before = lead + "\nDev: "@;
                assert(e.report_text() =~= before + part + e.user_line());
                text_stands_at(e.report_text(), before, part, e.user_line());
            },
        },
        DispatchError::Server { retries, .. } => {
            reveal_strlit("; body: ");
            let before = lead + "\nDev: 5xx persisted after "@ + retries_text(retries)
                + "; body: "@.take(2);
            assert(e.report_text() =~= before + part + e.user_line());
            text_stands_at(e.report_text(), before, part, e.user_line());
        },
        DispatchError::RateLimited { .. } => {
            let first =
                "\nDev: 429; retries exhausted (backoff 500ms/1s/2s + jitter, server Retry-After honored); body: "@;
            reveal_strlit(
                "\nDev: 429; retries exhausted (backoff 500ms/1s/2s + jitter, server Retry-After honored); body: ",
            );
            let n = first.len() as int;
            assert(first.skip(n - 6) =~= "body: "@);
            let before = lead + first.take(n - 6);
            assert(e.report_text() =~= before + part + e.user_line());
            text_stands_at(e.report_text(), before, part, e.user_line());
        },
        _ => {},
    }
    assert(is_byte_prefix(head, sent, (4 * 1024) as nat));
}

proof fn first_user_message_at(items: Seq<ErrorItemView>, i: int)
    requires
        0 <= i < items.len(),
        items[i].user_message is Some,
        forall|k: int| 0 <= k < i ==> (#[trigger] items[k]).user_message is None,
    ensures
        first_user_message(items) == items[i].user_message,
    decreases items.len(),
{
    if i > 0 {
        assert(items[0].user_message is None);
        let rest = items.drop_first();
        assert forall|k: int| 0 <= k < i - 1 implies (#[trigger] rest[k]).user_message is None by {
            assert(rest[k] == items[k + 1]);
        }
        first_user_message_at(rest, i - 1);
    }
}

/// A message that Allegro meant for the user reaches them: the first one of the
/// error body is the last line of the report.
pub proof fn user_message_reaches_the_user(
    e: DispatchError,
    items: Seq<ErrorItemView>,
    i: int,
    message: Seq<char>,
)
    requires
        e matches DispatchError::Client { allegro, .. } && body_items(allegro) == Some(items),
        0 <= i < items.len(),
        items[i].user_message == Some(message),
        forall|k: int| 0 <= k < i ==> (#[trigger] items[k]).user_message is None,
    ensures
        ({
            let line = "\nUser: "@ + message;
            let n = e.report_text().len() - line.len();
            n >= 0 && e.report_text().skip(n) == line
        }),
{
    first_user_message_at(items, i);
    let line = "\nUser: "@ + message;
    let before = e.headline() + e.context_lines() + e.dev_line();
    assert(e.report_text() =~= before + line);
    assert(e.report_text().skip(before.len() as int) =~= line);
}

/// The delay that the server last asked for stands in the report on a rate limit.
pub proof fn report_shows_the_delay(e: DispatchError, d: Duration)
    requires
        e matches DispatchError::RateLimited { retry_after, .. } && retry_after == Some(d),
    ensures
        contains_text(
            e.report_text(),
            "\nRetry-After: "@ + decimal(d@ / 1_000_000_000) + "s"@,
        ),
{
    let part = "\nRetry-After: "@ + decimal(d@ / 1_000_000_000) + "s"@;
    if let DispatchError::RateLimited { trace_id, .. } = e {
        let before = e.headline() + opt_suffix("\nTrace-Id: "@, trace_id);
        let after = e.dev_line() + e.user_line();
        assert(e.report_text() =~= before + part + after);
        text_stands_at(e.report_text(), before, part, after);
    }
}

/// The first computed delay is half a second, each later one is twice the one
/// before, and none is longer than half a minute.
pub proof fn backoff_doubles(retry_no: u32)
    requires
        1 <= retry_no < u32::MAX,
    ensures
        backoff_base(1) == 500,
        backoff_base((retry_no + 1) as u32) == if 2 * backoff_base(retry_no) <= 30_000 {
            2 * backoff_base(retry_no)
        } else {
            30_000
        },
{
    lemma2_to64();
    lemma_pow2_unfold(retry_no as nat);
    assert(pow2(retry_no as nat) == 2 * pow2((retry_no - 1) as nat));
    assert(500 * pow2(retry_no as nat) == 2 * (500 * pow2((retry_no - 1) as nat)))
        by (nonlinear_arith)
        requires
            pow2(retry_no as nat) == 2 * pow2((retry_no - 1) as nat),
    ;
}

/// A number of seconds in `Retry-After` is the delay, up to half a minute.
pub proof fn seconds_are_the_delay(raw: Seq<char>, now: int, secs: nat)
    requires
        unsigned_value(trimmed(raw), u64::MAX as nat) == Some(secs),
    ensures
        retry_after_delay(Some(raw), now) == Some(
            if secs <= 30 {
                secs * 1_000_000_000
            } else {
                30_000_000_000
            },
        ),
{
}

/// A date in `Retry-After` asks for the time that is left until then, up to half
/// a minute; a date that is past asks for no delay.
pub proof fn date_is_waited_for(raw: Seq<char>, now: int, at: u64)
    requires
        trimmed(raw).len() > 0,
        unsigned_value(trimmed(raw), u64::MAX as nat) is None,
        http_date(trimmed(raw)) == Some(at),
    ensures
        ({
            let left = at * 1_000_000_000 - now;
            retry_after_delay(Some(raw), now) == Some(
                if left <= 0 {
                    0nat
                } else if left <= 30_000_000_000 {
                    left as nat
                } else {
                    30_000_000_000nat
                },
            )
        }),
{
}

/// Without a `Retry-After` that can be read, the server has asked for no delay.
pub proof fn other_texts_ask_for_nothing(raw: Seq<char>, now: int)
    ensures
        retry_after_delay(None, now) is None,
        unsigned_value(trimmed(raw), u64::MAX as nat) is None && http_date(trimmed(raw)) is None
            ==> retry_after_delay(Some(raw), now) is None,
{
}

/// `POST` and `PATCH` are not repeated after a 5xx; `GET`, `HEAD`, `PUT` and
/// `DELETE` may be.
pub proof fn which_methods_may_be_repeated(method: Seq<char>)
    ensures
        method == "POST"@ || method == "PATCH"@ ==> !idempotent(method),
        method == "GET"@ || method == "HEAD"@ || method == "PUT"@ || method == "DELETE"@
            ==> idempotent(method),
{
    reveal_strlit("POST");
    reveal_strlit("PATCH");
    reveal_strlit("GET");
    reveal_strlit("HEAD");
    reveal_strlit("PUT");
    reveal_strlit("DELETE");
    assert("POST"@[0] == 'P' && "PATCH"@[0] == 'P' && "GET"@[0] == 'G' && "HEAD"@[0] == 'H'
        && "PUT"@[0] == 'P' && "DELETE"@[0] == 'D');
    assert("POST"@.len() == 4 && "PATCH"@.len() == 5 && "PUT"@.len() == 3);
}

/// The text of a field; none where it is missing or null.
pub open spec fn text_of(f: Option<JsonView>) -> Option<Seq<char>> {
    match f {
        Some(JsonView::Text(s)) => Some(s),
        _ => None,
    }
}

/// Whether a field is a text, null or missing.
pub open spec fn may_be_text(f: Option<JsonView>) -> bool {
    match f {
        None => true,
        Some(j) => j is Text || j is Null,
    }
}

/// Whether a value is an object whose five members that matter are texts, null
/// or missing.
pub open spec fn is_error_entry(j: JsonView) -> bool {
    &&& j is Object
    &&& may_be_text(j.get("code"@))
    &&& may_be_text(j.get("message"@))
    &&& may_be_text(j.get("userMessage"@))
    &&& may_be_text(j.get("path"@))
    &&& may_be_text(j.get("details"@))
}

proof fn entries_are_read(js: Seq<JsonView>)
    requires
        forall|i: int| 0 <= i < js.len() ==> is_error_entry(#[trigger] js[i]),
    ensures
        error_items(js) matches Some(items) && items.len() == js.len() && forall|i: int|
            0 <= i < js.len() ==> (#[trigger] items[i]) == (ErrorItemView {
                code: text_of(js[i].get("code"@)),
                message: text_of(js[i].get("message"@)),
                user_message: text_of(js[i].get("userMessage"@)),
                path: text_of(js[i].get("path"@)),
                details: text_of(js[i].get("details"@)),
            }),
    decreases js.len(),
{
    if js.len() > 0 {
        let front = js.drop_last();
        assert forall|i: int| 0 <= i < front.len() implies is_error_entry(#[trigger] front[i]) by {
            assert(front[i] == js[i]);
        }
        entries_are_read(front);
        assert(is_error_entry(js[js.len() - 1]));
        let items = error_items(js)->0;
        assert forall|i: int| 0 <= i < js.len() implies (#[trigger] items[i]) == (ErrorItemView {
            code: text_of(js[i].get("code"@)),
            message: text_of(js[i].get("message"@)),
            user_message: text_of(js[i].get("userMessage"@)),
            path: text_of(js[i].get("path"@)),
            details: text_of(js[i].get("details"@)),
        }) by {
            if i < front.len() {
                assert(items[i] == error_items(front)->0[i]);
                assert(front[i] == js[i]);
            }
        }
    }
}

/// Every entry of an error body is read, in order, member by member.
pub proof fn error_body_is_read(j: JsonView, js: Seq<JsonView>)
    requires
        j.get("errors"@) == Some(JsonView::Array(js)),
        forall|i: int| 0 <= i < js.len() ==> is_error_entry(#[trigger] js[i]),
    ensures
        allegro_errors(j) matches Some(items) && items.len() == js.len() && forall|i: int|
            0 <= i < js.len() ==> (#[trigger] items[i]) == (ErrorItemView {
                code: text_of(js[i].get("code"@)),
                message: text_of(js[i].get("message"@)),
                user_message: text_of(js[i].get("userMessage"@)),
                path: text_of(js[i].get("path"@)),
                details: text_of(js[i].get("details"@)),
            }),
{
    entries_are_read(js);
}

/// An OAuth error body is read: its code, and its description where it has one.
pub proof fn oauth_error_is_read(j: JsonView, code: Seq<char>)
    requires
        j.get("error"@) == Some(JsonView::Text(code)),
        may_be_text(j.get("error_description"@)),
    ensures
        oauth_error(j) == Some((code, text_of(j.get("error_description"@)))),
{
}

proof fn run_counts_exactly(states: Seq<RateBudget>, times: Seq<u64>, n: int)
    requires
        is_run(states, times),
        states[0].total() == 0,
        0 <= n <= times.len(),
    ensures
        let_through(states, times.take(n), (states[n].latest() / 60) as u64) == states[n].total(),
    decreases n,
{
    if n > 0 {
        let i = n - 1;
        let now = times[i];
        run_counts_exactly(states, times, i);
        run_keeps_count(states, times, i, (now / 60) as u64);
        run_keeps_count(states, times, n, (now / 60) as u64);
        assert(states[i].tried(now, states[i + 1]));
        budget_counts_the_minute(states[i], now);
        budget_try_adds_one(states[i], now, states[n]);
        assert(times.take(n).drop_last() =~= times.take(i));
        assert(times.take(n)[i] == now);
        let minute = (now / 60) as u64;
        let here = let_through(states, times.take(i), minute);
        assert(let_through(states, times.take(n), minute) == here + if states[i].has_room(now) {
            1nat
        } else {
            0nat
        });
        assert(here == states[i].total_at(now));
    }
}

/// A request is let through exactly as long as fewer than the cap were let through
/// in the minute of the clock that it falls into.
pub proof fn there_is_room_below_the_cap(
    states: Seq<RateBudget>,
    times: Seq<u64>,
    now: u64,
)
    requires
        is_run(states, times),
        states[0].total() == 0,
        states[times.len() as int].latest() <= now,
    ensures
        states[times.len() as int].has_room(now) <==> let_through(
            states,
            times,
            (now / 60) as u64,
        ) < states[0].limit(),
{
    let n = times.len() as int;
    run_counts_exactly(states, times, n);
    run_keeps_count(states, times, n, (now / 60) as u64);
    budget_counts_the_minute(states[n], now);
    assert(times.take(n) =~= times);
}

/// A request goes out exactly where the requests of its minute are fewer than the
/// cap; otherwise it waits for 50 ms at a time, and is given up once it has waited
/// as long as callers wait, which is 1.1 s for a new budget.
pub proof fn what_a_request_is_told(b: RateBudget, now: u64, waited: nat, fresh: RateBudget, cap: u32)
    requires
        fresh.is_fresh(cap),
    ensures
        b.turn(now, waited) is Acquired <==> b.total_at(now) < b.limit(),
        b.turn(now, waited) is Exceeded <==> b.total_at(now) >= b.limit() && waited >= b.patience(),
        b.turn(now, waited) matches BudgetStep::WaitMillis(ms) ==> ms == 50,
        fresh.patience() == 1_100_000_000,
        fresh.limit() == cap,
{
}

/// The report says what was tried and what came of it: how often a request was sent
/// again, the cap that was reached, or why Allegro could not be reached.
pub proof fn report_says_what_was_tried(e: DispatchError)
    ensures
        e matches DispatchError::Server { retries, .. } ==> contains_text(
            e.report_text(),
            if retries == 1 {
                " — server error after "@ + "1 retry"@
            } else {
                " — server error after "@ + (decimal(retries as nat) + " retries"@)
            },
        ),
        e matches DispatchError::RateLimited { attempts, .. } ==> contains_text(
            e.report_text(),
            decimal(attempts as nat) + " attempts"@,
        ),
        e matches DispatchError::BudgetExceeded { cap } ==> contains_text(
            e.report_text(),
            decimal(cap as nat) + " req/min per client_id)"@,
        ),
        e matches DispatchError::Unreachable { source_text } ==> contains_text(
            e.report_text(),
            source_text@,
        ),
        e matches DispatchError::Auth(text) ==> e.report_text() == text@,
        e matches DispatchError::Bad(text) ==> e.report_text() == text@,
{
    let head = e.headline();
    let rest = e.context_lines() + e.dev_line() + e.user_line();
    assert(e.report_text() =~= head + rest);
    match e {
        DispatchError::Server { status, retries, .. } => {
            let before = "Allegro API error: HTTP "@ + decimal(status as nat) + " "@ + reason(status);
            let part = " — server error after "@ + retries_text(retries);
            assert(e.report_text() =~= before + part + rest);
            text_stands_at(e.report_text(), before, part, rest);
        },
        DispatchError::RateLimited { attempts, .. } => {
            let before = "Allegro API error: HTTP 429 Too Many Requests — rate limited after "@;
            let part = decimal(attempts as nat) + " attempts"@;
            assert(e.report_text() =~= before + part + rest);
            text_stands_at(e.report_text(), before, part, rest);
        },
        DispatchError::BudgetExceeded { cap } => {
            let before = "Allegro API error: client-side rate budget exceeded ("@;
            let part = decimal(cap as nat) + " req/min per client_id)"@;
            assert(e.report_text() =~= before + part + rest);
            text_stands_at(e.report_text(), before, part, rest);
        },
        DispatchError::Unreachable { source_text } => {
            let before = head + "\nDev: transport error: "@;
            assert(e.report_text() =~= before + source_text@ + e.user_line());
            text_stands_at(e.report_text(), before, source_text@, e.user_line());
        },
        DispatchError::Auth(text) => {
            assert(e.report_text() =~= text@);
        },
        DispatchError::Bad(text) => {
            assert(e.report_text() =~= text@);
        },
        _ => {},
    }
}

/// The text on a failed authorization holds the message of the failure, and the trace
/// id of the response behind it where there is one.
pub proof fn authorization_failures_are_told(e: AuthError)
    ensures
        contains_text(auth_error_text(e), e.text()),
        e.trace() matches Some(id) ==> contains_text(auth_error_text(e), "\nTrace-Id: "@ + id),
{
    let none = Seq::<char>::empty();
    match e.trace() {
        Some(id) => {
            let line = "\nTrace-Id: "@ + id;
            text_stands_at(auth_error_text(e), "auth error: "@, e.text(), line);
            assert(auth_error_text(e) =~= "auth error: "@ + e.text() + line + none);
            text_stands_at(auth_error_text(e), "auth error: "@ + e.text(), line, none);
        },
        None => {
            text_stands_at(auth_error_text(e), "auth error: "@, e.text(), none);
        },
    }
}

/// An entry of an error body is shown as its code, its message and, in parentheses,
/// its path; entries stand behind each other with semicolons between them.
pub proof fn entries_are_shown(
    items: Seq<ErrorItemView>,
    item: ErrorItemView,
    code: Seq<char>,
    message: Seq<char>,
    path: Seq<char>,
)
    requires
        item.code == Some(code),
        item.message == Some(message),
        code.len() > 0,
    ensures
        item.path == Some(path) ==> items_line(seq![item]) == code + ": "@ + message + " ("@ + path
            + ")"@,
        item.path is None ==> items_line(seq![item]) == code + ": "@ + message,
        items_line(items).len() > 0 ==> items_line(items.push(item)) == items_line(items) + "; "@
            + items_line(seq![item]),
{
    let text = item_text(item);
    let one = seq![item];
    let none = Seq::<Seq<char>>::empty();
    assert(one.drop_last() =~= Seq::<ErrorItemView>::empty());
    assert(item_texts(one.drop_last()) =~= none);
    assert(text.len() > 0);
    assert(item_texts(one) =~= none.push(text));
    joining_appends(none, text, "; "@);
    assert(items.push(item).drop_last() =~= items);
    joining_appends(item_texts(items), text, "; "@);
    reveal_strlit(" (");
    reveal_strlit(" ");
    reveal_strlit("(");
    if item.path == Some(path) {
        let shown = code + ": "@ + message;
        assert(shown.len() > 0);
        assert(shown + " "@ + ("("@ + path + ")"@) =~= shown + " ("@ + path + ")"@);
    }
}

/// What Allegro said of the errors in a request stands in the report on it.
pub proof fn report_holds_the_entries(e: DispatchError, items: Seq<ErrorItemView>)
    requires
        e matches DispatchError::Client { allegro, .. } && body_items(allegro) == Some(items),
    ensures
        contains_text(e.report_text(), items_line(items)),
{
    let line = items_line(items);
    let lead = e.headline() + e.context_lines() + "\nDev: "@;
    if let DispatchError::Client { body, .. } = e {
        if line.len() > 0 {
            let after = "; body: "@ + dev_body(body@) + e.user_line();
            assert(e.report_text() =~= lead + line + after);
            text_stands_at(e.report_text(), lead, line, after);
        } else {
            let after = "body: "@ + dev_body(body@) + e.user_line();
            assert(e.report_text() =~= lead + line + after);
            text_stands_at(e.report_text(), lead, line, after);
        }
    }
}

/// Moving on within a minute empties the seconds in between and leaves the others as
/// they are, moving on to another minute empties all of them, and the clock going
/// back changes nothing.
pub proof fn which_seconds_are_emptied(b: Seq<u32>, last: u64, now: u64, i: int)
    requires
        0 <= i < b.len(),
    ensures
        now <= last ==> advanced(b, last, now) == b,
        now > last && now / 60 != last / 60 ==> advanced(b, last, now)[i] == 0,
        now > last && now / 60 == last / 60 ==> (i <= last % 60 || i >= now % 60 ==> advanced(
            b,
            last,
            now,
        )[i] == b[i]) && (last % 60 < i < now % 60 ==> advanced(b, last, now)[i] == 0),
{
}

} // verus!
