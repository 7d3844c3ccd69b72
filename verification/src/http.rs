//! What every outgoing request says about this client.

use vstd::pervasive::unreached;
use vstd::prelude::*;
use vstd::utf8::{encode_utf8, is_ascii_chars, is_ascii_chars_encode_utf8};

use crate::config::{accepted_user_agents, is_user_agent, user_agent_fault};

verus! {

broadcast use vstd::string::group_string_axioms;

/// The `User-Agent` unless another one is configured.
pub const DEFAULT_USER_AGENT: &'static str =
    "allegro-mcp/0.1.0 (+https://github.com/stepek/allegro-mcp)";

/// The `Accept` media type unless an operation names another.
pub const DEFAULT_ACCEPT: &'static str = "application/vnd.allegro.public.v1+json";

/// The `Accept-Language` unless another one is configured.
pub const DEFAULT_ACCEPT_LANGUAGE: &'static str = "pl-PL";

/// Timeout of a download of the OpenAPI document, in seconds.
pub const SCHEMA_TIMEOUT_SECS: u64 = 10;

/// Why there is no client.
#[derive(Debug)]
pub enum HttpError {
    /// A header that every request carries cannot be sent.
    InvalidHeader(String),
    /// The client cannot be built, for instance for its `User-Agent`.
    Build(String),
}

impl HttpError {
    /// The message shown for the error.
    pub open spec fn text(self) -> Seq<char> {
        match self {
            HttpError::InvalidHeader(e) => "invalid header value: "@ + e@,
            HttpError::Build(e) => "client build failed: "@ + e@,
        }
    }

    /// The message shown for the error.
    pub fn message(&self) -> (r: String)
        ensures
            r@ == self.text(),
    {
        match self {
            HttpError::InvalidHeader(e) => "invalid header value: ".to_owned().concat(e.as_str()),
            HttpError::Build(e) => "client build failed: ".to_owned().concat(e.as_str()),
        }
    }
}

/// Whether a byte can stand in the value of a header.
pub open spec fn is_header_byte(b: u8) -> bool {
    (32 <= b && b != 127) || b == 9
}

/// Whether a text can be the value of a header.
pub open spec fn is_header_value(s: Seq<char>) -> bool {
    forall|i: int| 0 <= i < encode_utf8(s).len() ==> is_header_byte(#[trigger] encode_utf8(s)[i])
}

/// Calls `reqwest::header::HeaderValue::from_str` and tells whether it takes the
/// text: no byte of it is a control character other than a tab.
#[verifier::external_body]
fn fits_header(s: &str) -> (r: bool)
    ensures
        r == is_header_value(s@),
{
    reqwest::header::HeaderValue::from_str(s).is_ok()
}

/// What a client is built from.
#[derive(Debug)]
pub struct ClientProfile {
    pub user_agent: String,
    pub accept_language: String,
    /// The time limit of a request, in seconds; none for no limit.
    pub timeout_secs: Option<u64>,
}

/// Whether `r` is the client for a `User-Agent` and an `Accept-Language`. The
/// language is looked at first.
pub open spec fn is_client(
    r: Result<ClientProfile, HttpError>,
    user_agent: Seq<char>,
    accept_language: Seq<char>,
    timeout: Option<u64>,
) -> bool {
    if !is_header_value(accept_language) {
        r matches Err(HttpError::InvalidHeader(e)) && e@ == "failed to parse header value"@
    } else if !is_header_value(user_agent) {
        r matches Err(HttpError::Build(e)) && e@ == "builder error"@
    } else {
        r matches Ok(p) && p.user_agent@ == user_agent && p.accept_language@ == accept_language
            && p.timeout_secs == timeout
    }
}

fn builder(user_agent: &str, accept_language: &str, timeout_secs: Option<u64>) -> (r: Result<
    ClientProfile,
    HttpError,
>)
    ensures
        is_client(r, user_agent@, accept_language@, timeout_secs),
{
    if !fits_header(accept_language) {
        return Err(HttpError::InvalidHeader("failed to parse header value".to_owned()));
    }
    if !fits_header(user_agent) {
        return Err(HttpError::Build("builder error".to_owned()));
    }
    Ok(
        ClientProfile {
            user_agent: user_agent.to_owned(),
            accept_language: accept_language.to_owned(),
            timeout_secs,
        },
    )
}

/// The client for tokens and for calls of the API. It has no time limit.
pub fn build_client(user_agent: &str, accept_language: &str) -> (r: Result<
    ClientProfile,
    HttpError,
>)
    ensures
        is_client(r, user_agent@, accept_language@, None),
{
    builder(user_agent, accept_language, None)
}

/// The client for downloads of the document: the same headers and a time
/// limit.
pub fn build_schema_client(user_agent: &str, accept_language: &str) -> (r: Result<
    ClientProfile,
    HttpError,
>)
    ensures
        is_client(r, user_agent@, accept_language@, Some(SCHEMA_TIMEOUT_SECS)),
{
    builder(user_agent, accept_language, Some(SCHEMA_TIMEOUT_SECS))
}

/// The client for tokens and for calls of the API when nothing is configured.
pub fn default_client() -> (r: ClientProfile)
    ensures
        r.user_agent@ == DEFAULT_USER_AGENT@,
        r.accept_language@ == DEFAULT_ACCEPT_LANGUAGE@,
        r.timeout_secs is None,
{
    proof {
        default_headers_can_be_sent();
    }
    match build_client(DEFAULT_USER_AGENT, DEFAULT_ACCEPT_LANGUAGE) {
        Ok(profile) => profile,
        Err(_) => unreached(),
    }
}

/// The client for downloads of the document when nothing is configured.
pub fn default_schema_client() -> (r: ClientProfile)
    ensures
        r.user_agent@ == DEFAULT_USER_AGENT@,
        r.accept_language@ == DEFAULT_ACCEPT_LANGUAGE@,
        r.timeout_secs == Some(SCHEMA_TIMEOUT_SECS),
{
    proof {
        default_headers_can_be_sent();
    }
    match build_schema_client(DEFAULT_USER_AGENT, DEFAULT_ACCEPT_LANGUAGE) {
        Ok(profile) => profile,
        Err(_) => unreached(),
    }
}

/// Whether every character of a text is printable ASCII.
pub open spec fn is_printable(s: Seq<char>) -> bool {
    forall|i: int| 0 <= i < s.len() ==> ' ' <= #[trigger] s[i] <= '~'
}

/// Printable ASCII can be the value of a header.
pub proof fn printable_is_header_value(s: Seq<char>)
    requires
        is_printable(s),
    ensures
        is_header_value(s),
{
    assert(is_ascii_chars(s));
    is_ascii_chars_encode_utf8(s);
    assert forall|i: int| 0 <= i < encode_utf8(s).len() implies is_header_byte(
        #[trigger] encode_utf8(s)[i],
    ) by {
        assert(' ' <= s[i] <= '~');
    }
}

/// A `User-Agent` that passes validation can be sent: a configuration that was
/// accepted never fails later for it.
pub proof fn accepted_user_agent_can_be_sent(ua: Seq<char>)
    requires
        user_agent_fault(ua) is None,
    ensures
        is_header_value(ua),
{
    accepted_user_agents(ua);
    let (name, version, url) = choose|name: Seq<char>, version: Seq<char>, url: Seq<char>|
        #[trigger] is_user_agent(ua, name, version, url);
    reveal_strlit("/");
    reveal_strlit(" (+");
    reveal_strlit(")");
    let a = name + "/"@;
    let b = a + version;
    let c = b + " (+"@;
    let d = c + url;
    assert forall|i: int| 0 <= i < ua.len() implies ' ' <= #[trigger] ua[i] <= '~' by {
        if i < name.len() {
            assert(ua[i] == name[i]);
        } else if i < a.len() {
            assert(ua[i] == "/"@[i - name.len()]);
        } else if i < b.len() {
            assert(ua[i] == version[i - a.len()]);
        } else if i < c.len() {
            assert(ua[i] == " (+"@[i - b.len()]);
        } else if i < d.len() {
            assert(ua[i] == url[i - c.len()]);
        } else {
            assert(ua[i] == ")"@[i - d.len()]);
        }
    }
    printable_is_header_value(ua);
}

/// The defaults can be sent.
proof fn default_headers_can_be_sent()
    ensures
        is_header_value(DEFAULT_USER_AGENT@),
        is_header_value(DEFAULT_ACCEPT_LANGUAGE@),
{
    reveal_strlit("allegro-mcp/0.1.0 (+https://github.com/stepek/allegro-mcp)");
    reveal_strlit("pl-PL");
    assert(is_printable(DEFAULT_USER_AGENT@));
    assert(is_printable(DEFAULT_ACCEPT_LANGUAGE@));
    printable_is_header_value(DEFAULT_USER_AGENT@);
    printable_is_header_value(DEFAULT_ACCEPT_LANGUAGE@);
}

/// Every client says the `User-Agent` and the `Accept-Language` that it was built
/// with; only what cannot stand in a header keeps one from being built.
pub proof fn clients_say_what_they_were_built_with(
    r: Result<ClientProfile, HttpError>,
    user_agent: Seq<char>,
    accept_language: Seq<char>,
    timeout: Option<u64>,
)
    requires
        is_client(r, user_agent, accept_language, timeout),
    ensures
        r is Ok <==> is_header_value(user_agent) && is_header_value(accept_language),
        r matches Ok(p) ==> p.user_agent@ == user_agent && p.accept_language@ == accept_language
            && p.timeout_secs == timeout,
{
}

} // verus!
