//! OAuth2 token management: the two token flows, the cached token and the
//! decisions of the token resolution.

pub mod device;
pub mod resolution;
pub mod token_store;

use vstd::prelude::*;

use self::device::{
    lenient_u64, pair_views, push_pair, push_scope, scope_pairs, u64_lenient, FormRequest,
};
use self::token_store::{
    granted, holds, load_view, opt_contents, LoadView, StateView, TokenStore,
};
use crate::config::{auth_base, auth_base_url};
use crate::json::{
    field, is_record, json_of_text, number_as_u64, optional_text, read_optional_text, read_required_text,
    required_text, Json, JsonView,
};
use crate::resilience::{may_be_text, oauth_error_of_text, parse_oauth_error, text_of};
use crate::text::{decimal, decimal_string, opt_view, quote, quoted, views};
use crate::time::{elapsed_since, instant_now, Duration, NANOS_PER_SEC};

verus! {

/// Errors of both token flows.
#[derive(Debug)]
pub enum AuthError {
    /// An environment variable that must be set is not.
    MissingEnvVar(String),
    /// The HTTP exchange failed; the text is the transport's message.
    Http(String),
    /// A token response lacks a required field.
    MalformedResponse(String),
    /// The stored authorization cannot serve tokens: the user has to
    /// authorize the device again.
    ReauthRequired { reason: String },
    /// The token store could not be read, written or understood.
    StoreIo(String),
    /// The token file has another format version.
    StoreVersion { found: u64 },
    /// The token file belongs to the other environment.
    EnvMismatch { stored: String, current: String },
    /// The token endpoint answered with an error.
    TokenEndpoint {
        status: u16,
        error: Option<String>,
        error_description: Option<String>,
        trace_id: Option<String>,
    },
    /// The token endpoint answered 429.
    TokenMintRateLimited { retry_after: Option<Duration>, trace_id: Option<String> },
}

/// `prefix` and the text of `o`, nothing when there is none.
pub open spec fn opt_suffix(prefix: Seq<char>, o: Option<String>) -> Seq<char> {
    match o {
        Some(s) => prefix + s@,
        None => Seq::empty(),
    }
}

/// Appends `prefix` and the text of `o`, nothing when there is none.
pub fn append_opt(out: &mut String, prefix: &str, o: &Option<String>)
    ensures
        final(out)@ == old(out)@ + opt_suffix(prefix@, *o),
{
    match o {
        Some(s) => {
            out.append(prefix);
            out.append(s.as_str());
            assert(out@ =~= old(out)@ + opt_suffix(prefix@, *o));
        },
        None => {
            assert(out@ =~= old(out)@ + opt_suffix(prefix@, *o));
        },
    }
}

/// `; retry after {n}s` for a known delay, nothing otherwise.
pub open spec fn retry_hint(retry_after: Option<Duration>) -> Seq<char> {
    match retry_after {
        Some(d) => "; retry after "@ + decimal(d@ / NANOS_PER_SEC as nat) + "s"@,
        None => Seq::empty(),
    }
}

impl AuthError {
    /// The message shown for the error.
    pub open spec fn text(self) -> Seq<char> {
        match self {
            AuthError::MissingEnvVar(name) => "missing environment variable: "@ + name@,
            AuthError::Http(e) => "HTTP request failed: "@ + e@,
            AuthError::MalformedResponse(field) => "token response missing required field: "@
                + field@,
            AuthError::ReauthRequired { reason } => "re-authorization required: "@ + reason@
                + " — run `allegro-mcp auth device`"@,
            AuthError::StoreIo(e) => "token store error: "@ + e@,
            AuthError::StoreVersion { found } => "token store version "@ + decimal(found as nat)
                + " is not supported (expected 1) — delete the file or upgrade"@,
            AuthError::EnvMismatch { stored, current } => "tokens.json was created for the "@
                + stored@ + " environment but allegro-mcp is running against "@ + current@,
            AuthError::TokenEndpoint { status, error, error_description, trace_id } =>
                "token endpoint error (HTTP "@ + decimal(status as nat) + ")"@ + opt_suffix(
                ": "@,
                error,
            ) + opt_suffix(" — "@, error_description),
            AuthError::TokenMintRateLimited { retry_after, trace_id } =>
                "token churn too high: the token endpoint is rate limiting this client (HTTP 429)"@
                + retry_hint(retry_after) + " — wait before requesting another token"@,
        }
    }

    /// The `Trace-Id` of the response behind the error, where there was one.
    pub open spec fn trace(self) -> Option<Seq<char>> {
        match self {
            AuthError::TokenEndpoint { trace_id, .. } => opt_view(trace_id),
            AuthError::TokenMintRateLimited { trace_id, .. } => opt_view(trace_id),
            _ => None,
        }
    }

    /// The message shown for the error.
    pub fn message(&self) -> (r: String)
        ensures
            r@ == self.text(),
    {
        match self {
            AuthError::MissingEnvVar(name) => "missing environment variable: ".to_owned().concat(
                name.as_str(),
            ),
            AuthError::Http(e) => "HTTP request failed: ".to_owned().concat(e.as_str()),
            AuthError::MalformedResponse(
                field,
            ) => "token response missing required field: ".to_owned().concat(field.as_str()),
            AuthError::ReauthRequired { reason } => "re-authorization required: ".to_owned().concat(
                reason.as_str(),
            ).concat(" — run `allegro-mcp auth device`"),
            AuthError::StoreIo(e) => "token store error: ".to_owned().concat(e.as_str()),
            AuthError::StoreVersion { found } => "token store version ".to_owned().concat(
                decimal_string(*found).as_str(),
            ).concat(" is not supported (expected 1) — delete the file or upgrade"),
            AuthError::EnvMismatch {
                stored,
                current,
            } => "tokens.json was created for the ".to_owned().concat(stored.as_str()).concat(
                " environment but allegro-mcp is running against ",
            ).concat(current.as_str()),
            AuthError::TokenEndpoint { status, error, error_description, .. } => {
                let mut out: String = "token endpoint error (HTTP ".to_owned().concat(
                    decimal_string(*status as u64).as_str(),
                ).concat(")");
                append_opt(&mut out, ": ", error);
                append_opt(&mut out, " — ", error_description);
                out
            },
            AuthError::TokenMintRateLimited { retry_after, .. } => {
                let mut out: String =
                    "token churn too high: the token endpoint is rate limiting this client (HTTP 429)".to_owned();
                let ghost head = out@;
                if let Some(d) = retry_after {
                    let hint: String = "; retry after ".to_owned().concat(
                        decimal_string(d.as_secs()).as_str(),
                    ).concat("s");
                    out.append(hint.as_str());
                }
                assert(out@ =~= head + retry_hint(*retry_after));
                out.concat(" — wait before requesting another token")
            },
        }
    }
}

/// A token response of the token endpoint, whichever grant asked for it.
#[derive(Debug)]
pub struct TokenResponse {
    pub access_token: String,
    /// Lifetime in seconds.
    pub expires_in: u64,
    pub token_type: Option<String>,
    /// Can be used once; every refresh brings a new one.
    pub refresh_token: Option<String>,
    pub scope: Option<String>,
    pub jti: Option<String>,
}

/// What a token response is.
pub struct TokenView {
    pub access_token: Seq<char>,
    pub expires_in: u64,
    pub token_type: Option<Seq<char>>,
    pub refresh_token: Option<Seq<char>>,
    pub scope: Option<Seq<char>>,
    pub jti: Option<Seq<char>>,
}

impl View for TokenResponse {
    type V = TokenView;

    open spec fn view(&self) -> TokenView {
        TokenView {
            access_token: self.access_token@,
            expires_in: self.expires_in,
            token_type: opt_view(self.token_type),
            refresh_token: opt_view(self.refresh_token),
            scope: opt_view(self.scope),
            jti: opt_view(self.jti),
        }
    }
}

/// A copy of an optional text.
pub fn clone_opt(o: &Option<String>) -> (r: Option<String>)
    ensures
        opt_view(r) == opt_view(*o),
{
    match o {
        Some(s) => Some(s.clone()),
        None => None,
    }
}

impl Clone for TokenResponse {
    fn clone(&self) -> (r: TokenResponse)
        ensures
            r@ == self@,
    {
        TokenResponse {
            access_token: self.access_token.clone(),
            expires_in: self.expires_in,
            token_type: clone_opt(&self.token_type),
            refresh_token: clone_opt(&self.refresh_token),
            scope: clone_opt(&self.scope),
            jti: clone_opt(&self.jti),
        }
    }
}

/// The token response that a JSON value denotes, or what is wrong with it.
pub open spec fn token_of_json(j: JsonView) -> Result<TokenView, Seq<char>> {
    let access_token = required_text(field(j, "access_token"@, 0));
    let expires_in = field(j, "expires_in"@, 1);
    let token_type = optional_text(field(j, "token_type"@, 2));
    let refresh_token = optional_text(field(j, "refresh_token"@, 3));
    let scope = optional_text(field(j, "scope"@, 4));
    let jti = optional_text(field(j, "jti"@, 5));
    if !is_record(j, 6, 6) {
        Err("expected a token response"@)
    } else if access_token is None {
        Err("missing or invalid field `access_token`"@)
    } else if expires_in is None {
        Err("missing field `expires_in`"@)
    } else if lenient_u64(expires_in->0) is Err {
        Err(lenient_u64(expires_in->0)->Err_0)
    } else if token_type is None {
        Err("invalid field `token_type`"@)
    } else if refresh_token is None {
        Err("invalid field `refresh_token`"@)
    } else if scope is None {
        Err("invalid field `scope`"@)
    } else if jti is None {
        Err("invalid field `jti`"@)
    } else {
        Ok(
            TokenView {
                access_token: access_token->0,
                expires_in: lenient_u64(expires_in->0)->Ok_0,
                token_type: token_type->0,
                refresh_token: refresh_token->0,
                scope: scope->0,
                jti: jti->0,
            },
        )
    }
}

/// The token response that a text denotes, or what is wrong with it.
pub open spec fn token_of_text(s: Seq<char>) -> Result<TokenView, Seq<char>> {
    match json_of_text(s) {
        Ok(j) => token_of_json(j),
        Err(e) => Err(e),
    }
}

/// What the outcome of reading a token response is.
pub open spec fn token_result(r: Result<TokenResponse, String>) -> Result<TokenView, Seq<char>> {
    match r {
        Ok(t) => Ok(t@),
        Err(e) => Err(e@),
    }
}

/// Reads a token response out of a JSON value. The lifetime may be a number or
/// a numeric text, every other field but the access token may be missing.
pub fn read_token_response(j: &Json) -> (r: Result<TokenResponse, String>)
    ensures
        token_result(r) == token_of_json(j@),
{
    if !j.can_be_record(6, 6) {
        return Err("expected a token response".to_owned());
    }
    let access_token: String = match read_required_text(j.record_field("access_token", 0)) {
        Some(t) => t,
        None => return Err("missing or invalid field `access_token`".to_owned()),
    };
    let expires_in: u64 = match j.record_field("expires_in", 1) {
        Some(v) => match u64_lenient(v) {
            Ok(n) => n,
            Err(e) => return Err(e),
        },
        None => return Err("missing field `expires_in`".to_owned()),
    };
    let token_type: Option<String> = match read_optional_text(j.record_field("token_type", 2)) {
        Some(t) => t,
        None => return Err("invalid field `token_type`".to_owned()),
    };
    let refresh_token: Option<String> = match read_optional_text(
        j.record_field("refresh_token", 3),
    ) {
        Some(t) => t,
        None => return Err("invalid field `refresh_token`".to_owned()),
    };
    let scope: Option<String> = match read_optional_text(j.record_field("scope", 4)) {
        Some(t) => t,
        None => return Err("invalid field `scope`".to_owned()),
    };
    let jti: Option<String> = match read_optional_text(j.record_field("jti", 5)) {
        Some(t) => t,
        None => return Err("invalid field `jti`".to_owned()),
    };
    Ok(TokenResponse { access_token, expires_in, token_type, refresh_token, scope, jti })
}

/// Parses a token response; the error says what is wrong with the text. A
/// member that occurs twice counts by its last occurrence.
pub fn parse_token_response(body: &str) -> (r: Result<TokenResponse, String>)
    ensures
        token_result(r) == token_of_text(body@),
{
    match Json::parse(body) {
        Ok(j) => read_token_response(&j),
        Err(e) => Err(e),
    }
}

// ── Cached token ────────────────────────────────────────────────────────────

/// A cached token counts as valid while it has more than this many seconds
/// left.
pub const VALIDITY_GUARD_SECS: u64 = 60;

/// Whether a token that lives for `lifetime` nanoseconds has more than the
/// guard time left once `elapsed` of them have gone by.
pub open spec fn valid_after(lifetime: nat, elapsed: nat) -> bool {
    lifetime > elapsed + VALIDITY_GUARD_SECS * NANOS_PER_SEC
}

/// A token in memory, when it was put there, and how long it lives.
#[derive(Debug)]
pub struct CachedToken {
    access_token: String,
    taken: std::time::Instant,
    lifetime: Duration,
}

impl CachedToken {
    /// The token.
    pub closed spec fn token(self) -> Seq<char> {
        self.access_token@
    }

    /// How long the token lives, in nanoseconds.
    pub closed spec fn lifetime_nanos(self) -> nat {
        self.lifetime@
    }

    /// When the token was put in memory.
    pub closed spec fn taken_at(self) -> std::time::Instant {
        self.taken
    }

    /// A token that was taken at `taken` and lives for `lifetime`.
    pub fn new(access_token: String, taken: std::time::Instant, lifetime: Duration) -> (r:
        CachedToken)
        ensures
            r.token() == access_token@,
            r.lifetime_nanos() == lifetime@,
            r.taken_at() == taken,
    {
        CachedToken { access_token, taken, lifetime }
    }

    /// Whether more than the guard time is left once `elapsed` has gone by.
    pub fn is_valid_after(&self, elapsed: Duration) -> (r: bool)
        ensures
            r == valid_after(self.lifetime_nanos(), elapsed@),
    {
        let left: Duration = self.lifetime.saturating_minus(elapsed);
        left.as_nanos() > Duration::from_secs(VALIDITY_GUARD_SECS).as_nanos()
    }

    /// The whole seconds that are left once `elapsed` has gone by, `None` past
    /// the end.
    pub fn remaining_secs_after(&self, elapsed: Duration) -> (r: Option<u64>)
        ensures
            match r {
                Some(n) => self.lifetime_nanos() >= elapsed@ && n == (self.lifetime_nanos()
                    - elapsed@) / NANOS_PER_SEC as int,
                None => self.lifetime_nanos() < elapsed@,
            },
    {
        if self.lifetime.at_least(&elapsed) {
            Some(self.lifetime.saturating_minus(elapsed).as_secs())
        } else {
            None
        }
    }

    /// Whether more than the guard time is left now. A token that never lived
    /// longer than that never is valid; of any other it depends on when the
    /// call is made.
    pub fn is_valid(&self) -> (r: bool)
        ensures
            exists|elapsed: nat| r == #[trigger] valid_after(self.lifetime_nanos(), elapsed),
            r ==> self.lifetime_nanos() > VALIDITY_GUARD_SECS * NANOS_PER_SEC,
    {
        let elapsed: Duration = elapsed_since(&self.taken);
        assert(valid_after(self.lifetime_nanos(), elapsed@) ==> self.lifetime_nanos()
            > VALIDITY_GUARD_SECS * NANOS_PER_SEC);
        self.is_valid_after(elapsed)
    }
}

/// A lifetime counts for at least this many seconds.
pub const MIN_LIFETIME_SECS: u64 = 120;

/// The lifetime that a token is given: what the server says, but not so short
/// that the token would be refreshed over and over.
pub open spec fn clamped(expires_in: u64) -> u64 {
    if expires_in < MIN_LIFETIME_SECS {
        MIN_LIFETIME_SECS
    } else {
        expires_in
    }
}

/// The lifetime that a token is given.
pub fn clamp_expires_in(expires_in: u64) -> (r: u64)
    ensures
        r == clamped(expires_in),
{
    if expires_in < MIN_LIFETIME_SECS {
        MIN_LIFETIME_SECS
    } else {
        expires_in
    }
}

/// A token that has just been put into the cache is valid, however short the
/// lifetime that the server gave it.
pub proof fn fresh_token_is_valid(expires_in: u64)
    ensures
        valid_after((clamped(expires_in) * NANOS_PER_SEC) as nat, 0),
{
}

// ── Token endpoint ──────────────────────────────────────────────────────────

/// The form of the `client_credentials` grant.
pub fn client_credentials_request(auth_base_url: &str, scopes: &Vec<String>) -> (r: FormRequest)
    ensures
        r.url@ == auth_base_url@ + "/auth/oauth/token"@,
        pair_views(r.form@) == seq![("grant_type"@, "client_credentials"@)] + scope_pairs(
            views(scopes@),
        ),
{
    let mut form: Vec<(String, String)> = Vec::new();
    push_pair(&mut form, "grant_type", "client_credentials");
    assert(pair_views(form@) =~= seq![("grant_type"@, "client_credentials"@)]);
    push_scope(&mut form, scopes);
    FormRequest { url: auth_base_url.to_owned().concat("/auth/oauth/token"), form }
}

/// The form of the refresh grant. It names no scope.
pub fn refresh_request(auth_base_url: &str, refresh_token: &str) -> (r: FormRequest)
    ensures
        r.url@ == auth_base_url@ + "/auth/oauth/token"@,
        pair_views(r.form@) == seq![
            ("grant_type"@, "refresh_token"@),
            ("refresh_token"@, refresh_token@),
        ],
{
    let mut form: Vec<(String, String)> = Vec::new();
    push_pair(&mut form, "grant_type", "refresh_token");
    push_pair(&mut form, "refresh_token", refresh_token);
    assert(pair_views(form@) =~= seq![
        ("grant_type"@, "refresh_token"@),
        ("refresh_token"@, refresh_token@),
    ]);
    FormRequest { url: auth_base_url.to_owned().concat("/auth/oauth/token"), form }
}

/// Whether `r` is what an answer of the token endpoint means.
pub open spec fn is_reply(
    status: u16,
    body: Seq<char>,
    trace_id: Option<String>,
    retry_after: Option<Duration>,
    r: Result<TokenResponse, AuthError>,
) -> bool {
    &&& status == 429 ==> r == Err::<TokenResponse, AuthError>(
        AuthError::TokenMintRateLimited { retry_after, trace_id },
    )
    &&& 400 <= status < 600 && status != 429 ==> {
        &&& r matches Err(AuthError::TokenEndpoint {
            status: s,
            error,
            error_description,
            trace_id: t,
        })
        &&& s == status
        &&& t == trace_id
        &&& match oauth_error_of_text(body) {
            Some((e, d)) => opt_view(error) == Some(e) && opt_view(error_description) == d,
            None => error is None && error_description is None,
        }
    }
    &&& !(400 <= status < 600) ==> match (r, token_of_text(body)) {
        (Ok(t), Ok(v)) => t@ == v,
        (Err(AuthError::Http(m)), Err(_)) => m@ == "error decoding response body"@,
        _ => false,
    }
}

/// What an answer of the token endpoint means: a 429 is an error of its own,
/// any other error status carries what the OAuth error body says, and every
/// other answer must be a token response.
pub fn token_endpoint_reply(
    status: u16,
    body: &str,
    trace_id: Option<String>,
    retry_after: Option<Duration>,
) -> (r: Result<TokenResponse, AuthError>)
    ensures
        is_reply(status, body@, trace_id, retry_after, r),
{
    if status == 429 {
        return Err(AuthError::TokenMintRateLimited { retry_after, trace_id });
    }
    if 400 <= status && status < 600 {
        return match parse_oauth_error(body) {
            Some(b) => Err(
                AuthError::TokenEndpoint {
                    status,
                    error: Some(b.error),
                    error_description: b.error_description,
                    trace_id,
                },
            ),
            None => Err(
                AuthError::TokenEndpoint {
                    status,
                    error: None,
                    error_description: None,
                    trace_id,
                },
            ),
        };
    }
    match parse_token_response(body) {
        Ok(t) => Ok(t),
        Err(_) => Err(AuthError::Http("error decoding response body".to_owned())),
    }
}

/// Whether an error of the refresh grant means that the refresh token is dead:
/// a 4xx answer other than 429. Anything else may pass.
pub open spec fn definitive_rejection(e: AuthError) -> bool {
    e matches AuthError::TokenEndpoint { status, .. } && 400 <= status < 500 && status != 429
}

/// Whether an error of the refresh grant means that the refresh token is dead.
pub fn is_definitive_rejection(e: &AuthError) -> (r: bool)
    ensures
        r == definitive_rejection(*e),
{
    match e {
        AuthError::TokenEndpoint { status, .. } => 400 <= *status && *status < 500 && *status
            != 429,
        _ => false,
    }
}

// ── The token manager ───────────────────────────────────────────────────────

/// Which way tokens are come by.
#[derive(Debug, Clone, Copy, PartialEq, Eq, Structural)]
pub enum FlowMode {
    ClientCredentials,
    Device,
}

/// A snapshot of the token state. It never holds the token.
#[derive(Debug, Clone)]
pub struct AuthStatus {
    pub auth_flow: &'static str,
    /// The store holds a granted pair.
    pub persisted: bool,
    /// There is a token in memory.
    pub token_cached: bool,
    /// The token in memory has more than the guard time left.
    pub token_valid: bool,
    /// Whole seconds that the token in memory has left.
    pub expires_in_secs: Option<u64>,
}

/// What to do to come by a token.
#[derive(Debug)]
pub enum TokenPlan {
    /// Hand out this token from memory.
    Cached(String),
    /// Post this form to the token endpoint and hand its answer to
    /// `finish_fetch`.
    Fetch(FormRequest),
    /// Read the token file at this path and resolve the device flow; `forced`
    /// means that the stored token was just rejected.
    Device { path: String, forced: bool },
    /// There is no token to be had.
    Failed(AuthError),
}

/// The token manager: credentials, the token in memory and the way to a new
/// one.
pub struct AllegroAuth {
    client_id: String,
    client_secret: String,
    auth_base_url: String,
    scopes: Vec<String>,
    cache: Option<CachedToken>,
    mode: FlowMode,
    store: Option<TokenStore>,
    force_refresh: bool,
}

/// The label of a flow.
pub open spec fn flow_name(mode: FlowMode) -> Seq<char> {
    match mode {
        FlowMode::ClientCredentials => "client_credentials"@,
        FlowMode::Device => "device_code"@,
    }
}

/// Whether `r` is the way to a token: the one in memory while it is valid, the
/// grant of the flow otherwise. The device flow uses up the flag of a rejected
/// token; nothing else changes.
pub open spec fn is_plan(
    before: AllegroAuth,
    after: AllegroAuth,
    valid: bool,
    r: TokenPlan,
) -> bool {
    &&& after.same_setup(before)
    &&& after.cached() == before.cached()
    &&& after.kept_at() == before.kept_at()
    &&& match before.cached() {
        Some((token, _)) if valid => r matches TokenPlan::Cached(t) && t@ == token && after.forced()
            == before.forced(),
        _ => match before.flow() {
            FlowMode::ClientCredentials => {
                &&& r matches TokenPlan::Fetch(request)
                &&& request.url@ == before.base() + "/auth/oauth/token"@
                &&& pair_views(request.form@) == seq![("grant_type"@, "client_credentials"@)]
                    + scope_pairs(before.scope_list())
                &&& after.forced() == before.forced()
            },
            FlowMode::Device => match before.token_file() {
                Some((path, _)) => r matches TokenPlan::Device { path: p, forced } && p@ == path
                    && forced == before.forced() && !after.forced(),
                None => r matches TokenPlan::Failed(AuthError::ReauthRequired { reason }) && reason@
                    == "no token store configured"@ && after.forced() == before.forced(),
            },
        },
    }
}

impl AllegroAuth {
    pub closed spec fn id(self) -> Seq<char> {
        self.client_id@
    }

    pub closed spec fn secret(self) -> Seq<char> {
        self.client_secret@
    }

    pub closed spec fn base(self) -> Seq<char> {
        self.auth_base_url@
    }

    pub closed spec fn scope_list(self) -> Seq<Seq<char>> {
        views(self.scopes@)
    }

    /// The token in memory and its lifetime in nanoseconds.
    pub closed spec fn cached(self) -> Option<(Seq<char>, nat)> {
        match self.cache {
            Some(c) => Some((c.token(), c.lifetime_nanos())),
            None => None,
        }
    }

    /// When the token in memory was put there.
    pub closed spec fn kept_at(self) -> Option<std::time::Instant> {
        match self.cache {
            Some(c) => Some(c.taken_at()),
            None => None,
        }
    }

    pub closed spec fn flow(self) -> FlowMode {
        self.mode
    }

    /// Where the token file is and which environment it belongs to.
    pub closed spec fn token_file(self) -> Option<(Seq<char>, bool)> {
        match self.store {
            Some(s) => Some((s.place(), s.is_sandbox())),
            None => None,
        }
    }

    /// Whether the stored token was just rejected.
    pub closed spec fn forced(self) -> bool {
        self.force_refresh
    }

    /// Whether nothing but the token in memory and the flag differ.
    pub open spec fn same_setup(self, other: AllegroAuth) -> bool {
        &&& self.id() == other.id()
        &&& self.secret() == other.secret()
        &&& self.base() == other.base()
        &&& self.scope_list() == other.scope_list()
        &&& self.flow() == other.flow()
        &&& self.token_file() == other.token_file()
    }

    /// A manager for an environment, with the values of the two environment
    /// variables that hold the credentials.
    pub fn from_env(
        client_id: Option<String>,
        client_secret: Option<String>,
        sandbox: bool,
    ) -> (r: Result<AllegroAuth, AuthError>)
        ensures
            match (client_id, client_secret) {
                (Some(id), Some(secret)) => r matches Ok(a) && a.id() == id@ && a.secret()
                    == secret@ && a.base() == auth_base(sandbox) && a.fresh(),
                (None, _) => r matches Err(AuthError::MissingEnvVar(name)) && name@
                    == "ALLEGRO_CLIENT_ID"@,
                (Some(_), None) => r matches Err(AuthError::MissingEnvVar(name)) && name@
                    == "ALLEGRO_CLIENT_SECRET"@,
            },
    {
        let id: String = match client_id {
            Some(v) => v,
            None => return Err(AuthError::MissingEnvVar("ALLEGRO_CLIENT_ID".to_owned())),
        };
        let secret: String = match client_secret {
            Some(v) => v,
            None => return Err(AuthError::MissingEnvVar("ALLEGRO_CLIENT_SECRET".to_owned())),
        };
        Ok(AllegroAuth::new(id, secret, sandbox))
    }

    /// Whether nothing but the credentials and the host has been set.
    pub open spec fn fresh(self) -> bool {
        &&& self.scope_list() == Seq::<Seq<char>>::empty()
        &&& self.cached() is None
        &&& self.flow() is ClientCredentials
        &&& self.token_file() is None
        &&& !self.forced()
    }

    /// A manager for an environment.
    pub fn new(client_id: String, client_secret: String, sandbox: bool) -> (r: AllegroAuth)
        ensures
            r.id() == client_id@,
            r.secret() == client_secret@,
            r.base() == auth_base(sandbox),
            r.fresh(),
    {
        AllegroAuth::with_base_url(client_id, client_secret, auth_base_url(sandbox).to_owned())
    }

    /// A manager for an authorization server.
    pub fn with_base_url(client_id: String, client_secret: String, auth_base_url: String) -> (r:
        AllegroAuth)
        ensures
            r.id() == client_id@,
            r.secret() == client_secret@,
            r.base() == auth_base_url@,
            r.fresh(),
    {
        let scopes: Vec<String> = Vec::new();
        assert(views(scopes@) =~= Seq::<Seq<char>>::empty());
        AllegroAuth {
            client_id,
            client_secret,
            auth_base_url,
            scopes,
            cache: None,
            mode: FlowMode::ClientCredentials,
            store: None,
            force_refresh: false,
        }
    }

    /// Sets the scopes that are asked for.
    pub fn with_scopes(self, scopes: Vec<String>) -> (r: AllegroAuth)
        ensures
            r.scope_list() == views(scopes@),
            r.id() == self.id(),
            r.secret() == self.secret(),
            r.base() == self.base(),
            r.cached() == self.cached(),
            r.kept_at() == self.kept_at(),
            r.flow() == self.flow(),
            r.token_file() == self.token_file(),
            r.forced() == self.forced(),
    {
        AllegroAuth { scopes, ..self }
    }

    /// Switches to the device flow, with a token file.
    pub fn with_token_store(self, store: TokenStore) -> (r: AllegroAuth)
        ensures
            r.flow() is Device,
            r.token_file() == Some((store.place(), store.is_sandbox())),
            r.id() == self.id(),
            r.secret() == self.secret(),
            r.base() == self.base(),
            r.scope_list() == self.scope_list(),
            r.cached() == self.cached(),
            r.kept_at() == self.kept_at(),
            r.forced() == self.forced(),
    {
        AllegroAuth { mode: FlowMode::Device, store: Some(store), ..self }
    }

    /// The base URL of the authorization server.
    pub fn auth_base_url(&self) -> (r: &str)
        ensures
            r@ == self.base(),
    {
        self.auth_base_url.as_str()
    }

    /// The client id.
    pub fn client_id(&self) -> (r: &str)
        ensures
            r@ == self.id(),
    {
        self.client_id.as_str()
    }

    /// The client secret.
    pub fn client_secret(&self) -> (r: &str)
        ensures
            r@ == self.secret(),
    {
        self.client_secret.as_str()
    }

    /// The token file of the device flow.
    pub fn token_store(&self) -> (r: Option<&TokenStore>)
        ensures
            match r {
                Some(s) => self.token_file() == Some((s.place(), s.is_sandbox())),
                None => self.token_file() is None,
            },
    {
        self.store.as_ref()
    }

    /// The label of the flow in use.
    pub fn flow_label(&self) -> (r: &'static str)
        ensures
            r@ == flow_name(self.flow()),
    {
        match self.mode {
            FlowMode::ClientCredentials => "client_credentials",
            FlowMode::Device => "device_code",
        }
    }

    /// A description for logs: the client id and the host, never the secret.
    pub fn describe(&self) -> (r: String)
        ensures
            r@ == "AllegroAuth { client_id: "@ + quoted(self.id())
                + ", client_secret: \"[REDACTED]\", auth_base_url: "@ + quoted(self.base())
                + ", .. }"@,
    {
        "AllegroAuth { client_id: ".to_owned().concat(quote(self.client_id.as_str()).as_str()).concat(
        ", client_secret: \"[REDACTED]\", auth_base_url: ").concat(
        quote(self.auth_base_url.as_str()).as_str()).concat(", .. }")
    }

    /// What to do to come by a token. `valid` says whether the token in memory
    /// has more than the guard time left. In the device flow the flag of a
    /// rejected token is used up.
    pub fn plan_token(&mut self, valid: bool) -> (r: TokenPlan)
        ensures
            is_plan(*old(self), *final(self), valid, r),
    {
        if let Some(c) = &self.cache {
            if valid {
                return TokenPlan::Cached(c.access_token.clone());
            }
        }
        match self.mode {
            FlowMode::ClientCredentials => TokenPlan::Fetch(
                client_credentials_request(self.auth_base_url.as_str(), &self.scopes),
            ),
            FlowMode::Device => match &self.store {
                Some(store) => {
                    let path: String = store.path().to_owned();
                    let forced: bool = self.force_refresh;
                    self.force_refresh = false;
                    TokenPlan::Device { path, forced }
                },
                None => TokenPlan::Failed(
                    AuthError::ReauthRequired { reason: "no token store configured".to_owned() },
                ),
            },
        }
    }

    /// Whether the token in memory has more than the guard time left once
    /// `elapsed` nanoseconds have gone by since it was put there.
    pub open spec fn cache_valid_after(self, elapsed: nat) -> bool {
        match self.cached() {
            Some((_, lifetime)) => valid_after(lifetime, elapsed),
            None => false,
        }
    }

    /// Whether the token in memory has more than the guard time left once
    /// `elapsed` has gone by since it was put there.
    pub fn cache_is_valid_after(&self, elapsed: Duration) -> (r: bool)
        ensures
            r == self.cache_valid_after(elapsed@),
    {
        match &self.cache {
            Some(c) => c.is_valid_after(elapsed),
            None => false,
        }
    }

    /// The time since the token in memory was put there; none when there is no
    /// token. It depends on when the call is made.
    fn cache_age(&self) -> Duration {
        match &self.cache {
            Some(c) => elapsed_since(&c.taken),
            None => Duration::zero(),
        }
    }

    /// Whether the token in memory has more than the guard time left now. One
    /// that never lived longer than that never is valid; of any other it
    /// depends on when the call is made.
    pub fn cache_is_valid(&self) -> (r: bool)
        ensures
            exists|elapsed: nat| r == #[trigger] self.cache_valid_after(elapsed),
            r ==> match self.cached() {
                Some((_, lifetime)) => lifetime > VALIDITY_GUARD_SECS * NANOS_PER_SEC,
                None => false,
            },
    {
        self.cache_is_valid_after(self.cache_age())
    }

    /// What to do to come by a token once `elapsed` has gone by since the one
    /// in memory was put there.
    pub fn token_after(&mut self, elapsed: Duration) -> (r: TokenPlan)
        ensures
            is_plan(*old(self), *final(self), old(self).cache_valid_after(elapsed@), r),
    {
        let valid: bool = self.cache_is_valid_after(elapsed);
        self.plan_token(valid)
    }

    /// What to do to come by a token now. How much time has gone by since the
    /// one in memory was put there depends on when the call is made.
    pub fn token(&mut self) -> (r: TokenPlan)
        ensures
            exists|elapsed: nat|
                is_plan(
                    *old(self),
                    *final(self),
                    #[trigger] old(self).cache_valid_after(elapsed),
                    r,
                ),
    {
        let elapsed: Duration = self.cache_age();
        self.token_after(elapsed)
    }

    /// Keeps a token in memory, with the lifetime it is given, which counts from
    /// `taken`.
    pub fn remember_at(&mut self, token: &str, expires_in: u64, taken: std::time::Instant)
        ensures
            final(self).same_setup(*old(self)),
            final(self).forced() == old(self).forced(),
            final(self).cached() == Some((token@, (expires_in * NANOS_PER_SEC) as nat)),
            final(self).kept_at() == Some(taken),
    {
        self.cache = Some(
            CachedToken::new(token.to_owned(), taken, Duration::from_secs(expires_in)),
        );
    }

    /// Keeps a token in memory, with the lifetime it is given, which counts from
    /// now.
    pub fn remember(&mut self, token: &str, expires_in: u64)
        ensures
            final(self).same_setup(*old(self)),
            final(self).forced() == old(self).forced(),
            final(self).cached() == Some((token@, (expires_in * NANOS_PER_SEC) as nat)),
            final(self).kept_at() is Some,
    {
        self.remember_at(token, expires_in, instant_now());
    }

    /// Keeps the token of a token response in memory and hands it out.
    pub fn finish_fetch(&mut self, resp: &TokenResponse) -> (r: String)
        ensures
            r@ == resp.access_token@,
            final(self).same_setup(*old(self)),
            final(self).forced() == old(self).forced(),
            final(self).cached() == Some(
                (resp.access_token@, (clamped(resp.expires_in) * NANOS_PER_SEC) as nat),
            ),
            final(self).kept_at() is Some,
    {
        self.remember(resp.access_token.as_str(), clamp_expires_in(resp.expires_in));
        resp.access_token.clone()
    }

    /// Forgets the token in memory. The token file is left alone.
    pub fn invalidate(&mut self)
        ensures
            final(self).same_setup(*old(self)),
            final(self).forced() == old(self).forced(),
            final(self).cached() is None,
    {
        self.cache = None;
    }

    /// Forgets the token in memory and marks the stored one as rejected, so
    /// that the next resolution begins with the refresh grant.
    pub fn refresh_now(&mut self)
        ensures
            final(self).same_setup(*old(self)),
            final(self).forced(),
            final(self).cached() is None,
    {
        self.force_refresh = true;
        self.invalidate();
    }

    /// The contents of the token file for a granted pair at second `now`; only
    /// the device flow has a token file. They are to be written before
    /// `finish_fetch` keeps the token in memory.
    pub fn install_tokens(&self, resp: &TokenResponse, now: u64) -> (r: Result<Vec<u8>, AuthError>)
        ensures
            match self.token_file() {
                Some((_, sandbox)) => r matches Ok(bytes) && holds(
                    bytes@,
                    sandbox,
                    (StateView {
                        tokens: Some(granted(resp@, clamped(resp.expires_in), now)),
                        pending: None,
                    }),
                ),
                None => r matches Err(AuthError::ReauthRequired { reason }) && reason@
                    == "no token store configured — install_tokens requires device mode"@,
            },
    {
        match &self.store {
            Some(store) => Ok(store.save_tokens_at(resp, clamp_expires_in(resp.expires_in), now)),
            None => Err(
                AuthError::ReauthRequired {
                    reason:
                        "no token store configured — install_tokens requires device mode".to_owned(),
                },
            ),
        }
    }

    /// Whether the contents of the token file hold a granted pair, which only
    /// counts in the device flow.
    pub open spec fn is_persisted(self, contents: Option<Seq<u8>>) -> bool {
        self.flow() is Device && match self.token_file() {
            Some((_, sandbox)) => load_view(sandbox, contents) matches LoadView::State(s)
                && s.tokens is Some,
            None => false,
        }
    }

    /// Whether `r` is the status with the contents of the token file, once
    /// `elapsed` nanoseconds have gone by since the token was kept in memory.
    pub open spec fn is_status(
        self,
        contents: Option<Seq<u8>>,
        elapsed: nat,
        r: AuthStatus,
    ) -> bool {
        &&& r.auth_flow@ == flow_name(self.flow())
        &&& r.persisted == self.is_persisted(contents)
        &&& r.token_cached == self.cached() is Some
        &&& r.token_valid == self.cache_valid_after(elapsed)
        &&& match self.cached() {
            Some((_, lifetime)) => match r.expires_in_secs {
                Some(n) => lifetime >= elapsed && n == (lifetime - elapsed) / NANOS_PER_SEC as int,
                None => lifetime < elapsed,
            },
            None => r.expires_in_secs is None,
        }
    }

    /// The status with the contents of the token file, once `elapsed` has gone
    /// by since the token was kept in memory.
    pub fn status_after(&self, contents: Option<&[u8]>, elapsed: Duration) -> (r: AuthStatus)
        ensures
            self.is_status(opt_contents(contents), elapsed@, r),
    {
        let persisted: bool = match (self.mode, &self.store) {
            (FlowMode::Device, Some(store)) => match store.load(contents) {
                Ok(s) => s.tokens.is_some(),
                Err(_) => false,
            },
            _ => false,
        };
        match &self.cache {
            Some(c) => AuthStatus {
                auth_flow: self.flow_label(),
                persisted,
                token_cached: true,
                token_valid: c.is_valid_after(elapsed),
                expires_in_secs: c.remaining_secs_after(elapsed),
            },
            None => AuthStatus {
                auth_flow: self.flow_label(),
                persisted,
                token_cached: false,
                token_valid: false,
                expires_in_secs: None,
            },
        }
    }

    /// The status with the contents of the token file now. How much time has
    /// gone by since the token was kept in memory depends on when the call is
    /// made.
    pub fn status(&self, contents: Option<&[u8]>) -> (r: AuthStatus)
        ensures
            exists|elapsed: nat| #[trigger] self.is_status(opt_contents(contents), elapsed, r),
    {
        self.status_after(contents, self.cache_age())
    }
}

/// A token in memory is handed out for as long as it is valid: no request is
/// made for another one.
pub proof fn valid_token_is_reused(before: AllegroAuth, after: AllegroAuth, r: TokenPlan)
    requires
        is_plan(before, after, true, r),
        before.cached() is Some,
    ensures
        match (r, before.cached()) {
            (TokenPlan::Cached(t), Some((token, _))) => t@ == token,
            _ => false,
        },
        after.cached() == before.cached(),
        after.kept_at() == before.kept_at(),
{
}

/// A token that was rejected is not handed out again from memory, and in the
/// device flow the resolution knows that the stored one was rejected too.
pub proof fn rejected_token_is_replaced(
    before: AllegroAuth,
    after: AllegroAuth,
    valid: bool,
    r: TokenPlan,
)
    requires
        is_plan(before, after, valid, r),
        before.cached() is None,
        before.forced(),
    ensures
        r !is Cached,
        r matches TokenPlan::Device { forced, .. } ==> forced,
{
}

/// The `client_credentials` flow never looks for a token in the token file.
pub proof fn client_credentials_uses_no_file(
    before: AllegroAuth,
    after: AllegroAuth,
    valid: bool,
    r: TokenPlan,
)
    requires
        is_plan(before, after, valid, r),
        before.flow() is ClientCredentials,
    ensures
        r is Cached || r is Fetch,
        after.flow() is ClientCredentials,
{
}

/// The `client_credentials` flow never reports a stored pair.
pub proof fn client_credentials_persists_nothing(a: AllegroAuth, contents: Option<Seq<u8>>)
    requires
        a.flow() is ClientCredentials,
    ensures
        !a.is_persisted(contents),
{
}

/// A token in memory counts as valid while it has more than a minute left, and no
/// longer.
pub proof fn tokens_are_valid_until_a_minute_before_their_end(lifetime: nat, elapsed: nat)
    ensures
        valid_after(lifetime, elapsed) <==> lifetime - elapsed > 60 * 1_000_000_000,
{
}

/// A token is given the lifetime that the server names, two minutes at least.
pub proof fn lifetimes_are_two_minutes_at_least(expires_in: u64)
    ensures
        clamped(expires_in) >= 120,
        expires_in >= 120 ==> clamped(expires_in) == expires_in,
        expires_in < 120 ==> clamped(expires_in) == 120,
{
}

/// Without a valid token in memory one is come by in the way of the flow: the
/// `client_credentials` grant with the scopes that are set, or the token file of
/// the device flow.
pub proof fn missing_token_is_come_by(
    before: AllegroAuth,
    after: AllegroAuth,
    valid: bool,
    r: TokenPlan,
)
    requires
        is_plan(before, after, valid, r),
        !valid || before.cached() is None,
    ensures
        before.flow() is ClientCredentials ==> (r matches TokenPlan::Fetch(request) && request.url@
            == before.base() + "/auth/oauth/token"@ && pair_views(request.form@).len() > 0
            && pair_views(request.form@)[0] == ("grant_type"@, "client_credentials"@)
            && pair_views(request.form@).skip(1) == scope_pairs(before.scope_list())),
        before.flow() is Device ==> match before.token_file() {
            Some((path, _)) => r matches TokenPlan::Device { path: p, forced } && p@ == path
                && forced == before.forced() && !after.forced(),
            None => r matches TokenPlan::Failed(e) && e is ReauthRequired,
        },
{
    if let TokenPlan::Fetch(request) = r {
        assert(pair_views(request.form@).skip(1) =~= scope_pairs(before.scope_list()));
    }
}

/// A token response is read member by member.
pub proof fn token_response_is_read(j: JsonView, access_token: Seq<char>, expires_in: u64)
    requires
        j is Object,
        j.get("access_token"@) == Some(JsonView::Text(access_token)),
        j.get("expires_in"@) == Some(JsonView::Number(decimal(expires_in as nat))),
        may_be_text(j.get("token_type"@)),
        may_be_text(j.get("refresh_token"@)),
        may_be_text(j.get("scope"@)),
        may_be_text(j.get("jti"@)),
    ensures
        token_of_json(j) == Ok::<TokenView, Seq<char>>(
            TokenView {
                access_token,
                expires_in,
                token_type: text_of(j.get("token_type"@)),
                refresh_token: text_of(j.get("refresh_token"@)),
                scope: text_of(j.get("scope"@)),
                jti: text_of(j.get("jti"@)),
            },
        ),
{
    number_as_u64(expires_in);
}

/// Without an access token or a lifetime there is no token response.
pub proof fn incomplete_token_responses_are_refused(j: JsonView)
    requires
        j is Object,
        j.get("access_token"@) is None || j.get("expires_in"@) is None,
    ensures
        token_of_json(j) is Err,
{
}

/// Only an answer outside 400 to 599 can bring a token, and it is the one in its
/// body.
pub proof fn tokens_come_from_good_answers(
    status: u16,
    body: Seq<char>,
    trace_id: Option<String>,
    retry_after: Option<Duration>,
    r: Result<TokenResponse, AuthError>,
)
    requires
        is_reply(status, body, trace_id, retry_after, r),
    ensures
        r matches Ok(t) ==> (status < 400 || status >= 600) && token_of_text(body) == Ok::<
            TokenView,
            Seq<char>,
        >(t@),
        (status < 400 || status >= 600) && token_of_text(body) is Ok ==> r is Ok,
{
}

/// A refresh token is given up after a 4xx answer and kept after any other, a 429
/// among them.
pub proof fn answers_that_end_a_refresh_token(
    status: u16,
    body: Seq<char>,
    trace_id: Option<String>,
    retry_after: Option<Duration>,
    r: Result<TokenResponse, AuthError>,
)
    requires
        is_reply(status, body, trace_id, retry_after, r),
    ensures
        (r matches Err(e) && definitive_rejection(e)) <==> 400 <= status < 500 && status != 429,
{
}

/// What an error answer of the token endpoint says reaches the user: its status,
/// its code and its description, and the `Trace-Id` of the response.
pub proof fn token_errors_are_told(
    status: u16,
    body: Seq<char>,
    trace_id: Option<String>,
    retry_after: Option<Duration>,
    r: Result<TokenResponse, AuthError>,
    code: Seq<char>,
    description: Option<Seq<char>>,
)
    requires
        is_reply(status, body, trace_id, retry_after, r),
        400 <= status < 600,
        status != 429,
        oauth_error_of_text(body) == Some((code, description)),
    ensures
        r matches Err(e) && e.trace() == opt_view(trace_id) && e.text()
            == "token endpoint error (HTTP "@ + decimal(status as nat) + "): "@ + code + (
        match description {
            Some(d) => " — "@ + d,
            None => Seq::empty(),
        }),
{
    reveal_strlit(")");
    reveal_strlit(": ");
    reveal_strlit("): ");
    if let Err(e) = r {
        assert("): "@ =~= ")"@ + ": "@);
        assert(e.text() =~= "token endpoint error (HTTP "@ + decimal(status as nat) + "): "@ + code
            + (match description {
            Some(d) => " — "@ + d,
            None => Seq::empty(),
        }));
    }
}

/// The status tells whether there is a token in memory, whether it has more than a
/// minute left, and the whole seconds that it has left; it never tells the token.
pub proof fn status_tells_of_the_token(
    a: AllegroAuth,
    contents: Option<Seq<u8>>,
    elapsed: nat,
    r: AuthStatus,
)
    requires
        a.is_status(contents, elapsed, r),
    ensures
        a.cached() is None ==> !r.token_cached && !r.token_valid && r.expires_in_secs is None,
        a.cached() matches Some((_, lifetime)) ==> r.token_cached && r.token_valid == (lifetime
            - elapsed > 60_000_000_000) && (lifetime >= elapsed ==> r.expires_in_secs == Some(
            ((lifetime - elapsed) / 1_000_000_000) as u64,
        )),
        a.flow() is Device ==> r.auth_flow@ == "device_code"@,
        a.flow() is ClientCredentials ==> r.auth_flow@ == "client_credentials"@ && !r.persisted,
{
}

/// In the device flow the status says of a token file whether it holds tokens, and of
/// one that is missing that it does not.
pub proof fn status_tells_of_the_file(
    a: AllegroAuth,
    contents: Option<Seq<u8>>,
    elapsed: nat,
    r: AuthStatus,
    path: Seq<char>,
    sandbox: bool,
    s: StateView,
)
    requires
        a.is_status(contents, elapsed, r),
        a.flow() is Device,
        a.token_file() == Some((path, sandbox)),
    ensures
        load_view(sandbox, contents) == LoadView::State(s) ==> r.persisted == s.tokens is Some,
        load_view(sandbox, contents) !is State ==> !r.persisted,
        contents is None ==> !r.persisted,
{
}

} // verus!
