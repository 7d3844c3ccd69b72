//! The HTTP transport: who is let in, and under which host names.

use vstd::prelude::*;

use crate::auth::{clone_opt, AuthError};
use crate::resilience::{header_text, is_header_name, read_header};
use crate::schema::cache::opt_str;
use crate::text::{
    chars_of, opt_view, split, split_on, str_eq, strip_prefix, trim, trimmed, views,
};

verus! {

broadcast use vstd::string::group_string_axioms;

/// The environment variable that names the token clients must show.
pub const SERVER_TOKEN_ENV: &'static str = "ALLEGRO_MCP_SERVER_TOKEN";

/// The environment variable that lists the accepted host names.
pub const ALLOWED_HOSTS_ENV: &'static str = "ALLEGRO_MCP_ALLOWED_HOSTS";

proof fn xor_or_zero(acc: u8, x: u8, y: u8)
    ensures
        acc | (x ^ y) == 0 <==> acc == 0 && x == y,
{
    assert(acc | (x ^ y) == 0 <==> acc == 0 && x == y) by (bit_vector);
}

/// Whether two byte strings are the same. The time it takes depends on their
/// lengths alone.
pub fn constant_time_eq(a: &[u8], b: &[u8]) -> (r: bool)
    ensures
        r == (a@ == b@),
{
    if a.len() != b.len() {
        return false;
    }
    let mut difference: u8 = 0;
    let mut i: usize = 0;
    assert(a@.take(0) =~= b@.take(0));
    while i < a.len()
        invariant
            i <= a@.len() == b@.len(),
            difference == 0 <==> a@.take(i as int) == b@.take(i as int),
        decreases a@.len() - i,
    {
        proof {
            xor_or_zero(difference, a@[i as int], b@[i as int]);
            let ta = a@.take(i + 1);
            let tb = b@.take(i + 1);
            assert(ta =~= a@.take(i as int).push(a@[i as int]));
            assert(tb =~= b@.take(i as int).push(b@[i as int]));
            if ta == tb {
                assert(ta.drop_last() =~= a@.take(i as int));
                assert(tb.drop_last() =~= b@.take(i as int));
                assert(ta.last() == tb.last());
            }
        }
        difference = difference | (a[i] ^ b[i]);
        i += 1;
    }
    assert(a@.take(i as int) =~= a@);
    assert(b@.take(i as int) =~= b@);
    difference == 0
}

/// What the routes behind the guard share.
#[derive(Debug)]
pub struct AppState {
    server_token: Option<String>,
}

/// The answer of the guard.
#[derive(Debug, Clone, Copy, PartialEq, Eq, Structural)]
pub enum Admission {
    /// The request goes on.
    Granted,
    /// The request is answered with status 401 and the text `unauthorized`.
    Refused,
}

/// Whether a request with this `Authorization` header may go on.
pub open spec fn admitted(server_token: Option<Seq<char>>, header: Option<Seq<char>>) -> bool {
    match server_token {
        None => true,
        Some(token) => header == Some("Bearer "@ + token),
    }
}

impl Clone for AppState {
    fn clone(&self) -> (r: AppState)
        ensures
            r.token() == self.token(),
    {
        AppState { server_token: clone_opt(&self.server_token) }
    }
}

impl AppState {
    /// The token that clients must show.
    pub closed spec fn token(self) -> Option<Seq<char>> {
        opt_view(self.server_token)
    }

    /// The state for the given token; without one every request may go on.
    pub fn new(server_token: Option<String>) -> (r: AppState)
        ensures
            r.token() == opt_view(server_token),
    {
        AppState { server_token }
    }

    /// The guard on `/mcp` and `/auth/status`: lets a request go on when no
    /// token is asked for, or when its `Authorization` header is `Bearer ` and
    /// the token.
    pub fn bearer_auth(&self, headers: &reqwest::header::HeaderMap) -> (r: Admission)
        ensures
            r is Granted <==> admitted(self.token(), header_text(*headers, "authorization"@)),
    {
        let expected: &String = match &self.server_token {
            None => return Admission::Granted,
            Some(token) => token,
        };
        proof {
            reveal_strlit("authorization");
            assert(is_header_name("authorization"@));
        }
        let header: String = match read_header(headers, "authorization") {
            None => return Admission::Refused,
            Some(h) => h,
        };
        match strip_prefix(header.as_str(), "Bearer ") {
            None => {
                proof {
                    let full = "Bearer "@ + expected@;
                    assert(full.take("Bearer "@.len() as int) =~= "Bearer "@);
                }
                Admission::Refused
            },
            Some(provided) => {
                proof {
                    assert(header@ =~= "Bearer "@ + provided@);
                    let full = "Bearer "@ + expected@;
                    if header@ == full {
                        assert(provided@ =~= full.skip("Bearer "@.len() as int));
                        assert(expected@ =~= full.skip("Bearer "@.len() as int));
                    }
                    vstd::utf8::encode_utf8_decode_utf8(provided@);
                    vstd::utf8::encode_utf8_decode_utf8(expected@);
                }
                if constant_time_eq(provided.as_str().as_bytes(), expected.as_str().as_bytes()) {
                    Admission::Granted
                } else {
                    Admission::Refused
                }
            },
        }
    }
}

/// With a token asked for, exactly one `Authorization` header opens the door;
/// a request without one stays outside.
pub proof fn only_the_token_opens(token: Seq<char>, header: Option<Seq<char>>)
    ensures
        admitted(Some(token), header) <==> header == Some("Bearer "@ + token),
        !admitted(Some(token), None),
        admitted(None, header),
{
}

/// The entries of a list that are not blank, each without the white space
/// around it.
pub open spec fn host_entries(parts: Seq<Seq<char>>) -> Seq<Seq<char>>
    decreases parts.len(),
{
    if parts.len() == 0 {
        Seq::empty()
    } else if trimmed(parts.last()).len() == 0 {
        host_entries(parts.drop_last())
    } else {
        host_entries(parts.drop_last()).push(trimmed(parts.last()))
    }
}

/// The host names that are accepted; an empty list accepts all of them.
pub open spec fn allowed_hosts(env: Option<Seq<char>>) -> Seq<Seq<char>> {
    match env {
        None => seq!["localhost"@, "127.0.0.1"@, "::1"@],
        Some(v) => if trimmed(v) == "*"@ {
            Seq::empty()
        } else {
            host_entries(split_on(v, ','))
        },
    }
}

/// The host names that are accepted, given the value of `ALLOWED_HOSTS_ENV`:
/// those of this machine when it is not set, all of them for `*`, else the
/// entries between its commas.
pub fn resolve_allowed_hosts(env: Option<&str>) -> (r: Vec<String>)
    ensures
        views(r@) == allowed_hosts(opt_str(env)),
{
    let value: &str = match env {
        None => {
            let mut hosts: Vec<String> = Vec::new();
            hosts.push("localhost".to_owned());
            hosts.push("127.0.0.1".to_owned());
            hosts.push("::1".to_owned());
            assert(views(hosts@) =~= seq!["localhost"@, "127.0.0.1"@, "::1"@]);
            return hosts;
        },
        Some(v) => v,
    };
    let mut hosts: Vec<String> = Vec::new();
    assert(views(hosts@) =~= Seq::<Seq<char>>::empty());
    if str_eq(trim(value).as_str(), "*") {
        return hosts;
    }
    let parts: Vec<String> = split(value, ',');
    let ghost all = views(parts@);
    let mut i: usize = 0;
    assert(all.take(0) =~= Seq::<Seq<char>>::empty());
    while i < parts.len()
        invariant
            i <= parts@.len(),
            all == views(parts@),
            views(hosts@) == host_entries(all.take(i as int)),
        decreases parts@.len() - i,
    {
        assert(all.take(i + 1).drop_last() =~= all.take(i as int));
        assert(all.take(i + 1).last() == parts@[i as int]@);
        let entry: String = trim(parts[i].as_str());
        let shown: Vec<char> = chars_of(entry.as_str());
        if shown.len() > 0 {
            let ghost before = views(hosts@);
            hosts.push(entry);
            assert(views(hosts@) =~= before.push(entry@));
        }
        i += 1;
    }
    assert(all.take(i as int) =~= all);
    hosts
}

/// What the check of the credentials at startup came to.
#[derive(Debug)]
pub enum StartupCheck {
    /// The server starts; the banner says so.
    Passed { banner: String },
    /// The server does not start, for the reason given.
    Failed { banner: String, reason: String },
}

/// The rule above and below a banner.
pub const BANNER_RULE: &'static str =
    "=================================================================";

/// The rule below the banner of a check that was passed.
pub const SHORT_RULE: &'static str =
    "================================================================";

/// The banner of a check that was passed.
pub open spec fn passed_banner(sandbox: bool) -> Seq<char> {
    BANNER_RULE@ + "\n allegro-mcp: Allegro OAuth2 client_credentials check OK (sandbox="@ + (
    if sandbox {
        "true"@
    } else {
        "false"@
    }) + ")\n "@ + SHORT_RULE@
}

/// The banner of a check that failed.
pub open spec fn failed_banner(e: AuthError) -> Seq<char> {
    BANNER_RULE@ + "\n allegro-mcp: STARTUP AUTH CHECK FAILED: "@ + e.text()
        + "\n Check ALLEGRO_CLIENT_ID / ALLEGRO_CLIENT_SECRET and retry.\n "@ + BANNER_RULE@
}

/// The reason that a check that failed gives for not starting.
pub open spec fn failed_reason(e: AuthError) -> Seq<char> {
    "startup Allegro auth check failed: "@ + e.text()
}

/// What the check of the credentials at startup comes to, given the token that
/// was asked for: wrong credentials are found out before the first call.
pub fn startup_check(token: &Result<(), AuthError>, sandbox: bool) -> (r: StartupCheck)
    ensures
        match token {
            Ok(_) => r matches StartupCheck::Passed { banner } && banner@ == passed_banner(sandbox),
            Err(e) => r matches StartupCheck::Failed { banner, reason } && banner@ == failed_banner(
                *e,
            ) && reason@ == failed_reason(*e),
        },
{
    match token {
        Ok(_) => {
            let flag: &str = if sandbox {
                "true"
            } else {
                "false"
            };
            StartupCheck::Passed {
                banner: BANNER_RULE.to_owned().concat(
                    "\n allegro-mcp: Allegro OAuth2 client_credentials check OK (sandbox=",
                ).concat(flag).concat(")\n ").concat(SHORT_RULE),
            }
        },
        Err(e) => {
            let text: String = e.message();
            StartupCheck::Failed {
                banner: BANNER_RULE.to_owned().concat(
                    "\n allegro-mcp: STARTUP AUTH CHECK FAILED: ",
                ).concat(text.as_str()).concat(
                    "\n Check ALLEGRO_CLIENT_ID / ALLEGRO_CLIENT_SECRET and retry.\n ",
                ).concat(BANNER_RULE),
                reason: "startup Allegro auth check failed: ".to_owned().concat(text.as_str()),
            }
        },
    }
}

/// What to do about the check of the credentials at startup.
#[derive(Debug)]
pub enum StartupDecision {
    /// Serve; the banner says that the credentials work.
    Serve { banner: String },
    /// Serve, although there is no token yet: the device authorization that is
    /// being completed brings one. Until then calls fail for want of a token.
    ServePending { notice: String },
    /// Do not serve, for the reason given.
    Stop { banner: String, reason: String },
}

/// What is logged when the server starts without a token.
pub const PENDING_NOTICE: &'static str =
    "device authorization pending — tool calls return auth errors until it is completed";

/// Whether an error says nothing more than that the user has to authorize the
/// device.
pub open spec fn wants_authorization(e: AuthError) -> bool {
    e is ReauthRequired
}

/// Whether `r` is what to do about the check of the credentials at startup.
pub open spec fn is_startup_decision(
    r: StartupDecision,
    token: Result<(), AuthError>,
    sandbox: bool,
    completing: bool,
) -> bool {
    match token {
        Ok(_) => r matches StartupDecision::Serve { banner } && banner@ == passed_banner(sandbox),
        Err(e) => if completing && wants_authorization(e) {
            r matches StartupDecision::ServePending { notice } && notice@ == PENDING_NOTICE@
        } else {
            r matches StartupDecision::Stop { banner, reason } && banner@ == failed_banner(e)
                && reason@ == failed_reason(e)
        },
    }
}

/// What to do about the check of the credentials at startup. `completing` says
/// that a device authorization is being completed in the background: that the
/// device is not authorized yet is then no reason not to start.
pub fn startup_decision(token: &Result<(), AuthError>, sandbox: bool, completing: bool) -> (r:
    StartupDecision)
    ensures
        is_startup_decision(r, *token, sandbox, completing),
{
    if completing {
        if let Err(AuthError::ReauthRequired { .. }) = token {
            return StartupDecision::ServePending { notice: PENDING_NOTICE.to_owned() };
        }
    }
    match startup_check(token, sandbox) {
        StartupCheck::Passed { banner } => StartupDecision::Serve { banner },
        StartupCheck::Failed { banner, reason } => StartupDecision::Stop { banner, reason },
    }
}

// ── Laws ────────────────────────────────────────────────────────────────────

proof fn host_entries_are(parts: Seq<Seq<char>>, host: Seq<char>)
    ensures
        host_entries(parts).contains(host) <==> host.len() > 0 && exists|i: int|
            0 <= i < parts.len() && trimmed(#[trigger] parts[i]) == host,
    decreases parts.len(),
{
    if parts.len() > 0 {
        let before = parts.drop_last();
        let front = host_entries(before);
        host_entries_are(before, host);
        let last = trimmed(parts.last());
        assert(parts[parts.len() - 1] == parts.last());
        if exists|i: int| 0 <= i < before.len() && trimmed(#[trigger] before[i]) == host {
            let i = choose|i: int| 0 <= i < before.len() && trimmed(#[trigger] before[i]) == host;
            assert(parts[i] == before[i]);
        }
        if exists|i: int| 0 <= i < parts.len() && trimmed(#[trigger] parts[i]) == host {
            let i = choose|i: int| 0 <= i < parts.len() && trimmed(#[trigger] parts[i]) == host;
            if i < before.len() {
                assert(before[i] == parts[i]);
            }
        }
        let all = front.push(last);
        assert(all[front.len() as int] == last);
        if front.contains(host) {
            let k = choose|k: int| 0 <= k < front.len() && front[k] == host;
            assert(all[k] == host);
        }
        if all.contains(host) && host != last {
            let k = choose|k: int| 0 <= k < all.len() && all[k] == host;
            assert(front[k] == host);
        }
    }
}

/// The host names that are accepted are those between the commas, without the
/// white space around them; without a list they are those of this machine, and a
/// star accepts every name.
pub proof fn accepted_hosts_are_those_listed(value: Seq<char>, host: Seq<char>)
    ensures
        trimmed(value) != "*"@ ==> (allowed_hosts(Some(value)).contains(host) <==> host.len() > 0
            && exists|i: int|
            0 <= i < split_on(value, ',').len() && trimmed(#[trigger] split_on(value, ',')[i])
                == host),
        trimmed(value) == "*"@ ==> allowed_hosts(Some(value)).len() == 0,
        allowed_hosts(None).contains(host) <==> host == "localhost"@ || host == "127.0.0.1"@ || host
            == "::1"@,
{
    host_entries_are(split_on(value, ','), host);
    let own = allowed_hosts(None);
    assert(own[0] == "localhost"@ && own[1] == "127.0.0.1"@ && own[2] == "::1"@);
    if own.contains(host) {
        let k = choose|k: int| 0 <= k < own.len() && own[k] == host;
        assert(k == 0 || k == 1 || k == 2);
    }
}

/// Two tokens never open the same door: a header that is accepted for one token is
/// refused for any other.
pub proof fn tokens_do_not_open_for_each_other(a: Seq<char>, b: Seq<char>, header: Option<Seq<char>>)
    requires
        a != b,
        admitted(Some(a), header),
    ensures
        !admitted(Some(b), header),
        header matches Some(h) && h.len() == 7 + a.len() && h.skip(7) == a,
{
    reveal_strlit("Bearer ");
    let p = "Bearer "@;
    assert((p + a).skip(7) =~= a);
    assert((p + b).skip(7) =~= b);
}

/// The server serves with a token; without one it serves only while a device
/// authorization is being completed and nothing but that is missing. Where it does
/// not serve, it says why.
pub proof fn when_requests_are_served(
    r: StartupDecision,
    token: Result<(), AuthError>,
    sandbox: bool,
    completing: bool,
)
    requires
        is_startup_decision(r, token, sandbox, completing),
    ensures
        r is Serve <==> token is Ok,
        r is ServePending <==> completing && (token matches Err(e) && e is ReauthRequired),
        r matches StartupDecision::Stop { reason, .. } ==> (token matches Err(e) && reason@
            == "startup Allegro auth check failed: "@ + e.text()),
{
}

} // verus!
