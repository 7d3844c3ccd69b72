//! The rules of the command line: what its flags, the configuration and the
//! environment come to, and what its commands print.

use vstd::prelude::*;

use crate::auth::device::{
    resumed_view, DeviceAuthorizationResponse, DeviceFlowError, FlowErrorView,
};
use crate::auth::token_store::{StateView, StoredState, TokenStore, NO_CONFIG_DIR};
use crate::auth::{AllegroAuth, AuthError};
use crate::config::{
    api_base, auth_base, merged, AuthFlow, CliOverrides, Config, ConfigView, EnvOverrides,
};
use crate::dispatcher::{show_status, status_text};
use crate::http::DEFAULT_USER_AGENT;
use crate::resilience::Resilience;
use crate::schema::cache::{opt_str, path_in};
use crate::schema::parse::OpenApi;
use crate::schema::{SchemaSource, SchemaStats, DEFAULT_SCHEMA_URL};
use crate::server::AllegroServer;
use crate::text::{
    clone_strings, contains_text, decimal, decimal_is_read_back, decimal_string, opt_view,
    parse_unsigned, text_stands_at, unsigned_value, views,
};
use crate::tool_registry::builder::{is_tool_list, operations};
use crate::tool_registry::{tool_views, ToolDef, ToolRegistry, ToolView};

verus! {

broadcast use vstd::string::group_string_axioms;

/// The port that is listened on unless another one is named.
pub const DEFAULT_PORT: u16 = 8080;

/// How much is logged.
#[derive(Debug, Clone, Copy, PartialEq, Eq, Structural)]
pub enum LogLevel {
    Warn,
    Info,
    Debug,
    Trace,
}

/// The level that a number of `-v` flags asks for.
pub fn verbosity_level(verbose: u8) -> (r: LogLevel)
    ensures
        verbose == 0 ==> r is Warn,
        verbose == 1 ==> r is Info,
        verbose == 2 ==> r is Debug,
        verbose >= 3 ==> r is Trace,
{
    match verbose {
        0 => LogLevel::Warn,
        1 => LogLevel::Info,
        2 => LogLevel::Debug,
        _ => LogLevel::Trace,
    }
}

/// Where the document comes from: a file or an address.
pub enum SourceView {
    Url(Seq<char>),
    File(Seq<char>),
}

/// Where a configuration takes the document from: its file, else its address,
/// else the published one.
pub open spec fn source_of(c: ConfigView) -> SourceView {
    match (c.schema_file, c.schema_url) {
        (Some(f), _) => SourceView::File(f),
        (None, Some(u)) => SourceView::Url(u),
        (None, None) => SourceView::Url(DEFAULT_SCHEMA_URL@),
    }
}

/// What a source is.
pub open spec fn source_view(s: SchemaSource) -> SourceView {
    match s {
        SchemaSource::Url(u) => SourceView::Url(u@),
        SchemaSource::File(f) => SourceView::File(f@),
    }
}

/// Where the configuration takes the document from.
pub fn resolve_schema_source(cfg: &Config) -> (r: SchemaSource)
    ensures
        source_view(r) == source_of(cfg@),
{
    if let Some(file) = &cfg.schema_file {
        SchemaSource::File(file.clone())
    } else if let Some(url) = &cfg.schema_url {
        SchemaSource::Url(url.clone())
    } else {
        SchemaSource::default()
    }
}

/// The order of the places that can name the document: a file on the command
/// line, an address on the command line, a file in the environment, an address
/// in the environment, a file in the configuration file, an address in the
/// configuration file, the published one.
pub proof fn schema_source_order(file: ConfigView, env: EnvOverrides, cli: CliOverrides)
    ensures
        source_of(merged(file, env, cli)) == (match (
            opt_view(cli.schema_file),
            opt_view(cli.schema_url),
        ) {
            (Some(f), _) => SourceView::File(f),
            (None, Some(u)) => SourceView::Url(u),
            (None, None) => match (opt_view(env.schema_file), opt_view(env.schema_url)) {
                (Some(f), _) => SourceView::File(f),
                (None, Some(u)) => SourceView::Url(u),
                (None, None) => source_of(file),
            },
        }),
{
}

/// The `User-Agent` of every request: the configured one, else the default.
pub fn resolve_user_agent(cfg: &Config) -> (r: String)
    ensures
        r@ == (match cfg@.user_agent {
            Some(ua) => ua,
            None => DEFAULT_USER_AGENT@,
        }),
{
    match &cfg.user_agent {
        Some(ua) => ua.clone(),
        None => DEFAULT_USER_AGENT.to_owned(),
    }
}

/// The port that `PORT` names; the default one when it is not set or names none.
pub open spec fn env_port(env: Option<Seq<char>>) -> nat {
    match env {
        Some(v) => match unsigned_value(v, u16::MAX as nat) {
            Some(p) => p,
            None => DEFAULT_PORT as nat,
        },
        None => DEFAULT_PORT as nat,
    }
}

/// The port to listen on: that of `--port`, else that of `PORT`, else the
/// default one.
pub fn resolve_port(flag: Option<u16>, env: Option<&str>) -> (r: u16)
    ensures
        r == (match flag {
            Some(p) => p as nat,
            None => env_port(opt_str(env)),
        }),
{
    if let Some(port) = flag {
        return port;
    }
    if let Some(value) = env {
        if let Some(port) = parse_unsigned(value, 65535u64) {
            return port as u16;
        }
    }
    DEFAULT_PORT
}

/// The address that the health check asks.
pub fn healthcheck_url(env: Option<&str>) -> (r: String)
    ensures
        r@ == "http://127.0.0.1:"@ + decimal(env_port(opt_str(env))) + "/health"@,
{
    let port: u16 = resolve_port(None, env);
    "http://127.0.0.1:".to_owned().concat(decimal_string(port as u64).as_str()).concat("/health")
}

/// Whether `r` is what the health check says of a status.
pub open spec fn is_health(r: Result<(), String>, status: u16) -> bool {
    match r {
        Ok(_) => 200 <= status < 300,
        Err(e) => !(200 <= status < 300) && e@ == "healthcheck failed: HTTP "@ + status_text(
            status,
        ),
    }
}

/// What the health check says of the status it got: only a 2xx is healthy.
pub fn healthcheck_result(status: u16) -> (r: Result<(), String>)
    requires
        100 <= status < 1000,
    ensures
        is_health(r, status),
{
    if 200 <= status && status < 300 {
        Ok(())
    } else {
        Err("healthcheck failed: HTTP ".to_owned().concat(show_status(status).as_str()))
    }
}

// ── Tokens ──────────────────────────────────────────────────────────────────

/// Where the token file is: the first of a flag, the configuration and the
/// user's configuration directory that names a place.
pub open spec fn token_place(
    flag: Option<Seq<char>>,
    configured: Option<Seq<char>>,
    config_dir: Option<Seq<char>>,
) -> Option<Seq<char>> {
    match (flag, configured, config_dir) {
        (Some(p), _, _) => Some(p),
        (None, Some(p), _) => Some(p),
        (None, None, Some(d)) => Some(path_in(path_in(d, "allegro-mcp"@), "tokens.json"@)),
        (None, None, None) => None,
    }
}

/// Where the token file is: at `--token-path`, else where the configuration
/// says, else in the user's configuration directory. It is an error when there
/// is none of these.
pub fn resolve_token_path(flag: Option<String>, cfg: &Config, config_dir: Option<&str>) -> (r: Result<
    String,
    AuthError,
>)
    ensures
        match token_place(opt_view(flag), cfg@.token_path, opt_str(config_dir)) {
            Some(p) => r matches Ok(path) && path@ == p,
            None => r matches Err(AuthError::StoreIo(m)) && m@ == NO_CONFIG_DIR@,
        },
{
    match (flag, &cfg.token_path) {
        (Some(p), _) => Ok(p),
        (None, Some(p)) => Ok(p.clone()),
        (None, None) => TokenStore::default_path(config_dir),
    }
}

/// Whether `r` is the token store of a server with this configuration.
pub open spec fn is_device_store(
    r: Result<Option<TokenStore>, AuthError>,
    c: ConfigView,
    config_dir: Option<Seq<char>>,
) -> bool {
    match c.auth_flow {
        AuthFlow::ClientCredentials => r matches Ok(None),
        AuthFlow::DeviceCode => match token_place(None, c.token_path, config_dir) {
            Some(p) => r matches Ok(Some(store)) && store.place() == p && store.is_sandbox()
                == c.sandbox,
            None => r matches Err(AuthError::StoreIo(m)) && m@ == NO_CONFIG_DIR@,
        },
    }
}

/// The token store of the server: one for the device flow, none otherwise.
pub fn device_store(cfg: &Config, config_dir: Option<&str>) -> (r: Result<
    Option<TokenStore>,
    AuthError,
>)
    ensures
        is_device_store(r, cfg@, opt_str(config_dir)),
{
    match cfg.auth_flow {
        AuthFlow::ClientCredentials => Ok(None),
        AuthFlow::DeviceCode => match resolve_token_path(None, cfg, config_dir) {
            Ok(path) => Ok(Some(TokenStore::new(path, cfg.sandbox))),
            Err(e) => Err(e),
        },
    }
}

/// Whether `r` is the token manager of a server with this configuration and these
/// credentials.
pub open spec fn is_auth(
    r: Result<AllegroAuth, AuthError>,
    c: ConfigView,
    client_id: Option<Seq<char>>,
    client_secret: Option<Seq<char>>,
    config_dir: Option<Seq<char>>,
) -> bool {
    match (client_id, client_secret) {
        (None, _) => r matches Err(AuthError::MissingEnvVar(name)) && name@ == "ALLEGRO_CLIENT_ID"@,
        (Some(_), None) => r matches Err(AuthError::MissingEnvVar(name)) && name@
            == "ALLEGRO_CLIENT_SECRET"@,
        (Some(id), Some(secret)) => {
            let place = token_place(None, c.token_path, config_dir);
            if c.auth_flow is DeviceCode && place is None {
                r matches Err(AuthError::StoreIo(m)) && m@ == NO_CONFIG_DIR@
            } else {
                &&& r matches Ok(a)
                &&& a.id() == id
                &&& a.secret() == secret
                &&& a.base() == auth_base(c.sandbox)
                &&& a.scope_list() == c.scopes
                &&& a.cached() is None
                &&& !a.forced()
                &&& match c.auth_flow {
                    AuthFlow::ClientCredentials => a.flow() is ClientCredentials
                        && a.token_file() is None,
                    AuthFlow::DeviceCode => a.flow() is Device && a.token_file() == Some(
                        (place->0, c.sandbox),
                    ),
                }
            }
        },
    }
}

/// The token manager of the server: the credentials of the environment, the
/// host and the scopes of the configuration, and the token store where the
/// device flow is configured.
pub fn build_auth(
    cfg: &Config,
    client_id: Option<String>,
    client_secret: Option<String>,
    config_dir: Option<&str>,
) -> (r: Result<AllegroAuth, AuthError>)
    ensures
        is_auth(r, cfg@, opt_view(client_id), opt_view(client_secret), opt_str(config_dir)),
{
    let auth: AllegroAuth = match AllegroAuth::from_env(client_id, client_secret, cfg.sandbox) {
        Ok(a) => a,
        Err(e) => return Err(e),
    };
    let auth: AllegroAuth = auth.with_scopes(clone_strings(&cfg.scopes));
    match device_store(cfg, config_dir) {
        Err(e) => Err(e),
        Ok(None) => Ok(auth),
        Ok(Some(store)) => Ok(auth.with_token_store(store)),
    }
}

/// The server for a document: its tools, the token manager, the environment and
/// the rate limit of the configuration.
pub fn assemble_server(cfg: &Config, auth: AllegroAuth, api: &OpenApi) -> (r: Result<
    AllegroServer,
    String,
>)
    ensures
        r matches Ok(server) && {
            &&& is_tool_list(api@, operations(api@), server.tools())
            &&& server.token_manager() == auth
            &&& server.is_sandbox() == cfg@.sandbox
            &&& server.base() == api_base(cfg@.sandbox)
            &&& server.guard().wf()
            &&& server.guard().backoff.is_production()
            &&& server.guard().budget is Some <==> cfg@.rate_limit > 0
            &&& server.guard().budget matches Some(b) ==> b.is_fresh(cfg@.rate_limit)
        },
{
    let registry: ToolRegistry = match ToolRegistry::from_openapi(api) {
        Ok(registry) => registry,
        Err(e) => return Err("registry build failed: ".to_owned().concat(e.message().as_str())),
    };
    Ok(
        AllegroServer::new(registry, auth, cfg.sandbox).with_resilience(
            Resilience::production(cfg.rate_limit_rpm()),
        ),
    )
}

/// Whether `r` is the authorization that is taken up again at second `now`.
pub open spec fn is_resumed(
    r: Option<DeviceAuthorizationResponse>,
    stored: StateView,
    now: u64,
) -> bool {
    match stored.pending {
        Some(p) if now < p.expires_at_epoch => r matches Some(g) && g@ == resumed_view(p, now),
        _ => r is None,
    }
}

/// The authorization that is taken up again: the stored one, when it has not
/// expired at second `now`.
pub fn resumable_grant(stored: &StoredState, now: u64) -> (r: Option<DeviceAuthorizationResponse>)
    ensures
        is_resumed(r, stored@, now),
{
    match &stored.pending {
        Some(p) => if now < p.expires_at_epoch {
            Some(p.to_authorization_response_at(now))
        } else {
            None
        },
        None => None,
    }
}

/// An authorization that is taken up again has time left.
pub proof fn resumed_grant_has_time_left(stored: StoredState, now: u64)
    requires
        stored@.pending matches Some(p) && now < p.expires_at_epoch,
    ensures
        resumed_view(stored@.pending->0, now).expires_in > 0,
{
}

/// What `auth device` says when the device flow fails.
pub open spec fn failure_text(e: FlowErrorView) -> Seq<char> {
    match e {
        FlowErrorView::AccessDenied => "authorization denied by user"@,
        FlowErrorView::Expired => "device/user code expired — rerun `allegro-mcp auth device`"@,
        FlowErrorView::Network(reason) => "device flow failed after repeated transient errors: "@
            + reason,
    }
}

/// What `auth device` says when the device flow fails.
pub fn device_failure(e: &DeviceFlowError) -> (r: String)
    ensures
        r@ == failure_text(e@),
{
    match e {
        DeviceFlowError::AccessDenied => "authorization denied by user".to_owned(),
        DeviceFlowError::Expired =>
            "device/user code expired — rerun `allegro-mcp auth device`".to_owned(),
        DeviceFlowError::Network(
            reason,
        ) => "device flow failed after repeated transient errors: ".to_owned().concat(
            reason.as_str(),
        ),
    }
}

/// A number of seconds in hours and minutes, in minutes, or in seconds.
pub open spec fn duration_hm(secs: u64) -> Seq<char> {
    if secs >= 3600 {
        if (secs % 3600) / 60 > 0 {
            decimal((secs / 3600) as nat) + "h "@ + decimal(((secs % 3600) / 60) as nat) + "m"@
        } else {
            decimal((secs / 3600) as nat) + "h"@
        }
    } else if secs >= 60 {
        decimal((secs / 60) as nat) + "m"@
    } else {
        decimal(secs as nat) + "s"@
    }
}

/// A number of seconds for people: `12h 30m`, `45m` or `45s`.
pub fn format_duration_hm(secs: u64) -> (r: String)
    ensures
        r@ == duration_hm(secs),
{
    if secs >= 3600 {
        let hours: u64 = secs / 3600;
        let minutes: u64 = (secs % 3600) / 60;
        if minutes > 0 {
            decimal_string(hours).concat("h ").concat(decimal_string(minutes).as_str()).concat("m")
        } else {
            decimal_string(hours).concat("h")
        }
    } else if secs >= 60 {
        decimal_string(secs / 60).concat("m")
    } else {
        decimal_string(secs).concat("s")
    }
}

/// What `auth device` prints once the tokens are stored.
pub open spec fn login_lines(path: Seq<char>, expires_in: u64, scope: Option<Seq<char>>) -> Seq<
    Seq<char>,
> {
    seq![
        "Tokens saved to "@ + path,
        "Access token expires in "@ + duration_hm(expires_in) + " (expires_in = "@ + decimal(
            expires_in as nat,
        ) + " s)"@,
    ] + match scope {
        Some(s) => seq!["Scope: "@ + s],
        None => Seq::empty(),
    }
}

/// What `auth device` prints once the tokens are stored.
pub fn login_summary(path: &str, expires_in: u64, scope: &Option<String>) -> (r: Vec<String>)
    ensures
        views(r@) == login_lines(path@, expires_in, opt_view(*scope)),
{
    let mut lines: Vec<String> = Vec::new();
    lines.push("Tokens saved to ".to_owned().concat(path));
    lines.push(
        "Access token expires in ".to_owned().concat(
            format_duration_hm(expires_in).as_str(),
        ).concat(" (expires_in = ").concat(decimal_string(expires_in).as_str()).concat(" s)"),
    );
    if let Some(s) = scope {
        lines.push("Scope: ".to_owned().concat(s.as_str()));
    }
    assert(views(lines@) =~= login_lines(path@, expires_in, opt_view(*scope)));
    lines
}

// ── Startup in the device flow ──────────────────────────────────────────────

/// What to do at startup once a token was asked for.
#[derive(Debug)]
pub enum StartupStep {
    /// The stored authorization works.
    Ready,
    /// Read the token file and go on with `after_startup_load`.
    Inspect,
    /// The server does not start.
    Abort(String),
}

/// Whether `r` is what to do at startup once a token was asked for.
pub open spec fn is_startup_step(r: StartupStep, token: Result<(), AuthError>) -> bool {
    match token {
        Ok(_) => r is Ready,
        Err(AuthError::ReauthRequired { .. }) => r is Inspect,
        Err(e) => r matches StartupStep::Abort(m) && m@ == e.text(),
    }
}

/// What to do at startup once a token was asked for: only the lack of an
/// authorization leaves a way out.
pub fn after_startup_token(token: Result<(), AuthError>) -> (r: StartupStep)
    ensures
        is_startup_step(r, token),
{
    match token {
        Ok(_) => StartupStep::Ready,
        Err(e) => match e {
            AuthError::ReauthRequired { .. } => StartupStep::Inspect,
            _ => StartupStep::Abort(e.message()),
        },
    }
}

/// Whether `r` is the authorization to complete while the server starts at second
/// `now`, or why it does not start.
pub open spec fn is_startup_grant(
    r: Result<DeviceAuthorizationResponse, String>,
    load: Result<StoredState, AuthError>,
    now: u64,
) -> bool {
    match load {
        Err(e) => r matches Err(m) && m@ == e.text(),
        Ok(stored) => match stored@.pending {
            Some(p) if now < p.expires_at_epoch => r matches Ok(g) && g@ == resumed_view(p, now),
            _ => r matches Err(m) && m@
                == "no Allegro authorization found — run `allegro-mcp auth device` first"@,
        },
    }
}

/// The authorization to complete in the background while the server starts, or
/// why it does not start.
pub fn after_startup_load(load: Result<StoredState, AuthError>, now: u64) -> (r: Result<
    DeviceAuthorizationResponse,
    String,
>)
    ensures
        is_startup_grant(r, load, now),
{
    match load {
        Err(e) => Err(e.message()),
        Ok(stored) => match resumable_grant(&stored, now) {
            Some(g) => Ok(g),
            None => Err(
                "no Allegro authorization found — run `allegro-mcp auth device` first".to_owned(),
            ),
        },
    }
}

// ── Listings ────────────────────────────────────────────────────────────────

/// What `schema stats` prints.
pub fn stats_summary(stats: &SchemaStats) -> (r: Vec<String>)
    ensures
        views(r@) == seq![
            "Paths:      "@ + decimal(stats.path_count as nat),
            "Operations: "@ + decimal(stats.operation_count as nat),
            "Parameters: "@ + decimal(stats.parameter_count as nat),
            "SHA-256:    "@ + stats.sha256@,
        ],
{
    let mut lines: Vec<String> = Vec::new();
    lines.push("Paths:      ".to_owned().concat(decimal_string(stats.path_count as u64).as_str()));
    lines.push(
        "Operations: ".to_owned().concat(decimal_string(stats.operation_count as u64).as_str()),
    );
    lines.push(
        "Parameters: ".to_owned().concat(decimal_string(stats.parameter_count as u64).as_str()),
    );
    lines.push("SHA-256:    ".to_owned().concat(stats.sha256.as_str()));
    assert(views(lines@) =~= seq![
        "Paths:      "@ + decimal(stats.path_count as nat),
        "Operations: "@ + decimal(stats.operation_count as nat),
        "Parameters: "@ + decimal(stats.parameter_count as nat),
        "SHA-256:    "@ + stats.sha256@,
    ]);
    lines
}

/// How many tools `tools list` names.
pub const LISTED_TOOLS: usize = 5;

/// The line for a tool.
pub open spec fn tool_line(t: ToolView) -> Seq<char> {
    "  - "@ + t.id + " ("@ + t.description + ")"@
}

/// What `tools list` prints: the number of tools, the first few of them, and
/// how many more there are.
pub open spec fn tools_lines(tools: Seq<ToolView>) -> Seq<Seq<char>> {
    let named = if tools.len() < LISTED_TOOLS {
        tools.len() as int
    } else {
        LISTED_TOOLS as int
    };
    seq!["Tools: "@ + decimal(tools.len())] + tools.take(named).map_values(
        |t: ToolView| tool_line(t),
    ) + if tools.len() > LISTED_TOOLS {
        seq!["  ... and "@ + decimal((tools.len() - LISTED_TOOLS) as nat) + " more"@]
    } else {
        Seq::empty()
    }
}

/// What `tools list` prints.
pub fn tools_summary(registry: &ToolRegistry) -> (r: Vec<String>)
    ensures
        views(r@) == tools_lines(registry@),
{
    let tools: &Vec<ToolDef> = registry.list_tools();
    let ghost all = registry@;
    let ghost head = "Tools: "@ + decimal(all.len());
    let n: usize = tools.len();
    let mut lines: Vec<String> = Vec::new();
    lines.push("Tools: ".to_owned().concat(decimal_string(n as u64).as_str()));
    let mut i: usize = 0;
    assert(views(lines@) =~= seq![head] + all.take(0).map_values(|t: ToolView| tool_line(t)));
    while i < n && i < LISTED_TOOLS
        invariant
            n == tools@.len(),
            i <= n,
            i <= LISTED_TOOLS,
            all == tool_views(tools@),
            views(lines@) =~= seq![head] + all.take(i as int).map_values(
                |t: ToolView| tool_line(t),
            ),
        decreases n - i,
    {
        let ghost before = views(lines@);
        lines.push(
            "  - ".to_owned().concat(tools[i].id.as_str()).concat(" (").concat(
                tools[i].description.as_str(),
            ).concat(")"),
        );
        assert(all.take(i + 1) =~= all.take(i as int).push(tools@[i as int]@));
        assert(views(lines@) =~= before.push(tool_line(tools@[i as int]@)));
        i += 1;
    }
    if n > LISTED_TOOLS {
        lines.push(
            "  ... and ".to_owned().concat(
                decimal_string((n - LISTED_TOOLS) as u64).as_str(),
            ).concat(" more"),
        );
    }
    assert(views(lines@) =~= tools_lines(all));
    lines
}

// ── Laws ────────────────────────────────────────────────────────────────────

/// A file that the configuration names is where the document comes from; without
/// one an address is, and without both the published one of Allegro.
pub proof fn where_the_document_comes_from(c: ConfigView)
    ensures
        c.schema_file matches Some(f) ==> source_of(c) == SourceView::File(f),
        c.schema_file is None ==> (c.schema_url matches Some(u) ==> source_of(c)
            == SourceView::Url(u)),
        c.schema_file is None && c.schema_url is None ==> source_of(c) == SourceView::Url(
            "https://developer.allegro.pl/swagger.yaml"@,
        ),
{
}

/// `PORT` is the port to listen on where it is a number up to 65535; otherwise,
/// and where it is not set, the port is 8080.
pub proof fn which_port_is_listened_on(port: u16, other: Seq<char>)
    ensures
        env_port(Some(decimal(port as nat))) == port,
        unsigned_value(other, 65535) is None ==> env_port(Some(other)) == 8080,
        env_port(None) == 8080,
{
    decimal_is_read_back(port as nat, u16::MAX as nat);
}

/// A flag names the place of the token file before the configuration does, and
/// that before the user's configuration directory.
pub proof fn where_the_token_file_is(
    flag: Option<Seq<char>>,
    configured: Option<Seq<char>>,
    dir: Option<Seq<char>>,
)
    ensures
        flag is Some ==> token_place(flag, configured, dir) == flag,
        flag is None && configured is Some ==> token_place(flag, configured, dir) == configured,
        flag is None && configured is None ==> (dir matches Some(d) ==> token_place(
            flag,
            configured,
            dir,
        ) == Some(path_in(path_in(d, "allegro-mcp"@), "tokens.json"@))),
        flag is None && configured is None && dir is None ==> token_place(
            flag,
            configured,
            dir,
        ) is None,
{
}

/// A length of time is shown in whole hours and minutes, from an hour on; in whole
/// minutes, from a minute on; in seconds below that.
pub proof fn lengths_of_time_are_shown(hours: u64, minutes: u64, seconds: u64)
    requires
        hours * 3600 + minutes * 60 + seconds <= u64::MAX,
        minutes < 60,
        seconds < 60,
    ensures
        ({
            let shown = duration_hm((hours * 3600 + minutes * 60 + seconds) as u64);
            &&& hours > 0 && minutes > 0 ==> shown == decimal(hours as nat) + "h "@ + decimal(
                minutes as nat,
            ) + "m"@
            &&& hours > 0 && minutes == 0 ==> shown == decimal(hours as nat) + "h"@
            &&& hours == 0 && minutes > 0 ==> shown == decimal(minutes as nat) + "m"@
            &&& hours == 0 && minutes == 0 ==> shown == decimal(seconds as nat) + "s"@
        }),
{
    let secs = (hours * 3600 + minutes * 60 + seconds) as u64;
    assert(secs / 3600 == hours) by (nonlinear_arith)
        requires
            secs == hours * 3600 + minutes * 60 + seconds,
            minutes < 60,
            seconds < 60,
    ;
    assert(secs % 3600 == minutes * 60 + seconds);
    assert((secs % 3600) / 60 == minutes);
}

/// `tools list` says how many tools there are, names the first five of them, or
/// all where there are fewer, and how many more there are.
pub proof fn tools_are_summed_up(tools: Seq<ToolView>, i: int)
    ensures
        tools_lines(tools)[0] == "Tools: "@ + decimal(tools.len()),
        0 <= i < tools.len() && i < 5 ==> tools_lines(tools)[i + 1] == "  - "@ + tools[i].id + " ("@
            + tools[i].description + ")"@,
        tools.len() <= 5 ==> tools_lines(tools).len() == tools.len() + 1,
        tools.len() > 5 ==> tools_lines(tools).len() == 7 && tools_lines(tools)[6] == "  ... and "@
            + decimal((tools.len() - 5) as nat) + " more"@,
{
}

/// A server is healthy exactly where it answers with a status from 200 to 299.
pub proof fn healthy_answers(r: Result<(), String>, status: u16)
    requires
        is_health(r, status),
    ensures
        r is Ok <==> 200 <= status <= 299,
{
}

/// The token manager has the credentials, the host, the scopes and the token file
/// of the server that it is built for. The device flow has a token file, for the
/// environment that is called, and the other flow has none.
pub proof fn credentials_reach_the_token_manager(
    r: Result<AllegroAuth, AuthError>,
    c: ConfigView,
    id: Seq<char>,
    secret: Seq<char>,
    path: Seq<char>,
    config_dir: Option<Seq<char>>,
)
    requires
        is_auth(r, c, Some(id), Some(secret), config_dir),
    ensures
        c.auth_flow is ClientCredentials || c.token_path == Some(path) ==> {
            &&& r matches Ok(a)
            &&& a.id() == id
            &&& a.secret() == secret
            &&& a.base() == if c.sandbox {
                "https://allegro.pl.allegrosandbox.pl"@
            } else {
                "https://allegro.pl"@
            }
            &&& a.scope_list() == c.scopes
            &&& c.auth_flow is ClientCredentials ==> a.flow() is ClientCredentials
                && a.token_file() is None
            &&& c.auth_flow is DeviceCode ==> a.flow() is Device && a.token_file() == Some(
                (path, c.sandbox),
            )
        },
        c.auth_flow is DeviceCode && c.token_path is None && config_dir is None ==> r is Err,
{
}

/// Without an identifier or without a secret there is no token manager, and the
/// error names the variable that is missing.
pub proof fn missing_credentials_are_named(
    r: Result<AllegroAuth, AuthError>,
    c: ConfigView,
    id: Option<Seq<char>>,
    secret: Option<Seq<char>>,
    config_dir: Option<Seq<char>>,
)
    requires
        is_auth(r, c, id, secret, config_dir),
    ensures
        id is None ==> (r matches Err(AuthError::MissingEnvVar(name)) && name@
            == "ALLEGRO_CLIENT_ID"@),
        id is Some && secret is None ==> (r matches Err(AuthError::MissingEnvVar(name)) && name@
            == "ALLEGRO_CLIENT_SECRET"@),
{
}

/// The server has a token store exactly where the device flow is configured.
pub proof fn only_the_device_flow_has_a_store(
    r: Result<Option<TokenStore>, AuthError>,
    c: ConfigView,
    config_dir: Option<Seq<char>>,
)
    requires
        is_device_store(r, c, config_dir),
    ensures
        c.auth_flow is ClientCredentials <==> r == Ok::<Option<TokenStore>, AuthError>(None),
        r matches Ok(Some(store)) ==> store.is_sandbox() == c.sandbox && (
        c.token_path matches Some(path) ==> store.place() == path),
{
}

/// Stored codes are taken up again until the second at which they expire, as they
/// are and for the time that is left to them.
pub proof fn codes_are_taken_up_until_they_expire(
    r: Option<DeviceAuthorizationResponse>,
    stored: StateView,
    now: u64,
)
    requires
        is_resumed(r, stored, now),
    ensures
        r is Some <==> (stored.pending matches Some(p) && now < p.expires_at_epoch),
        r matches Some(g) ==> {
            &&& g@.device_code == stored.pending->0.device_code
            &&& g@.user_code == stored.pending->0.user_code
            &&& g@.verification_uri == stored.pending->0.verification_uri
            &&& g@.verification_uri_complete == stored.pending->0.verification_uri_complete
            &&& g@.interval == stored.pending->0.interval_secs
            &&& g@.expires_in == stored.pending->0.expires_at_epoch - now
        },
{
}

/// The server starts with a token, or with codes that the user may still approve
/// where nothing but the authorization is missing.
pub proof fn when_the_server_starts(
    token: Result<(), AuthError>,
    step: StartupStep,
    load: Result<StoredState, AuthError>,
    now: u64,
    r: Result<DeviceAuthorizationResponse, String>,
)
    requires
        is_startup_step(step, token),
        is_startup_grant(r, load, now),
    ensures
        step is Ready <==> token is Ok,
        step is Inspect <==> (token matches Err(e) && e is ReauthRequired),
        step matches StartupStep::Abort(m) ==> (token matches Err(e) && m@ == e.text()),
        r is Ok <==> (load matches Ok(stored) && stored@.pending is Some && now
            < stored@.pending->0.expires_at_epoch),
        r matches Ok(g) ==> g@.device_code == load->Ok_0@.pending->0.device_code && g@.expires_in
            == load->Ok_0@.pending->0.expires_at_epoch - now,
{
}

/// What is said after a login: where the tokens are, how long they live and, where it
/// is known, what they are good for.
pub proof fn login_is_summed_up(path: Seq<char>, expires_in: u64, scope: Seq<char>)
    ensures
        login_lines(path, expires_in, None).len() == 2,
        login_lines(path, expires_in, None)[0] == "Tokens saved to "@ + path,
        login_lines(path, expires_in, Some(scope)) == login_lines(path, expires_in, None).push(
            "Scope: "@ + scope,
        ),
        contains_text(login_lines(path, expires_in, None)[1], decimal(expires_in as nat)),
{
    let n = decimal(expires_in as nat);
    let before = "Access token expires in "@ + duration_hm(expires_in) + " (expires_in = "@;
    text_stands_at(login_lines(path, expires_in, None)[1], before, n, " s)"@);
    assert(login_lines(path, expires_in, Some(scope)) =~= login_lines(path, expires_in, None).push(
        "Scope: "@ + scope,
    ));
}

} // verus!
