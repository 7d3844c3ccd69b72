//! Configuration: where each value comes from, and what is accepted.

use vstd::prelude::*;

use crate::auth::clone_opt;
use crate::http::DEFAULT_ACCEPT_LANGUAGE;
use crate::json::{
    array_view, items_view, json_of_value, json_result, members_view, number_as_u64, object_view,
    Json, JsonView,
};
use crate::resilience::{ALLEGRO_HARD_LIMIT_RPM, DEFAULT_RATE_LIMIT_RPM};
use crate::schema::cache::{join_path, opt_str, path_in};
use crate::text::{
    after_prefix, all_digits, byte_prefix_whole, char_is_white_space, chars_of, clone_strings,
    decimal, decimal_is_read_back, decimal_string, find, find_chars, find_from_first,
    has_prefix, index_from, index_from_first, index_of, is_digit, is_white_space, lower_ascii,
    opt_view, parse_unsigned, quote, quoted, split, split_on, splitting_finds_the_last_part,
    str_eq, string_of, strip_prefix, to_lower_ascii, trim, trimmed, truncate_bytes,
    unsigned_value, utf8_len, views,
};

verus! {

broadcast use vstd::string::group_string_axioms;

/// The base URL of the REST API of an environment.
pub open spec fn api_base(sandbox: bool) -> Seq<char> {
    if sandbox {
        "https://api.allegrosandbox.pl"@
    } else {
        "https://api.allegro.pl"@
    }
}

/// The base URL of the authorization server of an environment.
pub open spec fn auth_base(sandbox: bool) -> Seq<char> {
    if sandbox {
        "https://allegro.pl.allegrosandbox.pl"@
    } else {
        "https://allegro.pl"@
    }
}

/// The base URL of the REST API of an environment.
pub fn api_base_url(sandbox: bool) -> (r: &'static str)
    ensures
        r@ == api_base(sandbox),
{
    if sandbox {
        "https://api.allegrosandbox.pl"
    } else {
        "https://api.allegro.pl"
    }
}

/// The base URL of the authorization server of an environment.
pub fn auth_base_url(sandbox: bool) -> (r: &'static str)
    ensures
        r@ == auth_base(sandbox),
{
    if sandbox {
        "https://allegro.pl.allegrosandbox.pl"
    } else {
        "https://allegro.pl"
    }
}

/// The two environments share no host: the flag changes both base URLs.
pub proof fn environments_swap_both_hosts()
    ensures
        api_base(true) != api_base(false),
        auth_base(true) != auth_base(false),
{
    reveal_strlit("https://api.allegrosandbox.pl");
    reveal_strlit("https://api.allegro.pl");
    reveal_strlit("https://allegro.pl.allegrosandbox.pl");
    reveal_strlit("https://allegro.pl");
    assert(api_base(true).len() != api_base(false).len());
    assert(auth_base(true).len() != auth_base(false).len());
}

// ── User-Agent ──────────────────────────────────────────────────────────────

/// Where Allegro documents the format of the `User-Agent`.
pub const USER_AGENT_DOC_URL: &'static str = "https://apps.developer.allegro.pl/user-agent";

/// Whether a character is a visible ASCII character other than the space.
pub open spec fn is_graphic(c: char) -> bool {
    '!' <= c && c <= '~'
}

/// Whether every character of a text is visible.
pub open spec fn all_graphic(s: Seq<char>) -> bool {
    forall|i: int| 0 <= i < s.len() ==> is_graphic(#[trigger] s[i])
}

/// Whether a character can stand in the name of an application.
pub open spec fn is_app_char(c: char) -> bool {
    is_graphic(c) && c != '/' && c != '(' && c != ')' && c != '+'
}

/// Whether every character of a text can stand in the name of an application.
pub open spec fn all_app_chars(s: Seq<char>) -> bool {
    forall|i: int| 0 <= i < s.len() ==> is_app_char(#[trigger] s[i])
}

/// The part of a version before the first hyphen.
pub open spec fn version_core(v: Seq<char>) -> Seq<char> {
    match index_from(v, '-', 0) {
        Some(k) => v.take(k),
        None => v,
    }
}

/// Whether a text is a version: three groups of digits between dots, and after
/// a hyphen, where there is one, anything but nothing.
pub open spec fn is_semver(v: Seq<char>) -> bool {
    let groups = split_on(version_core(v), '.');
    &&& index_from(v, '-', 0) matches Some(k) ==> k + 1 < v.len()
    &&& groups.len() == 3
    &&& all_digits(groups[0])
    &&& all_digits(groups[1])
    &&& all_digits(groups[2])
}

fn is_digits(s: &str) -> (r: bool)
    ensures
        r == all_digits(s@),
{
    let cs: Vec<char> = chars_of(s);
    let mut i: usize = 0;
    while i < cs.len()
        invariant
            cs@ == s@,
            i <= cs@.len(),
            forall|k: int| 0 <= k < i ==> is_digit(#[trigger] s@[k]),
        decreases cs@.len() - i,
    {
        let u: u32 = cs[i] as u32;
        if u < 48 || u > 57 {
            assert(!is_digit(s@[i as int]));
            return false;
        }
        i += 1;
    }
    cs.len() > 0
}

/// Whether a text is a version: `MAJOR.MINOR.PATCH`, with a suffix after a
/// hyphen where there is one.
pub fn is_valid_semver(version: &str) -> (r: bool)
    ensures
        r == is_semver(version@),
{
    let cs: Vec<char> = chars_of(version);
    let core: String = match index_of(&cs, '-', 0) {
        Some(k) => {
            if cs.len() - k <= 1 {
                return false;
            }
            let core: String = string_of(&cs, 0, k);
            assert(core@ =~= version@.take(k as int));
            core
        },
        None => version.to_owned(),
    };
    let groups: Vec<String> = split(core.as_str(), '.');
    assert(views(groups@).len() == groups@.len());
    groups.len() == 3 && is_digits(groups[0].as_str()) && is_digits(groups[1].as_str())
        && is_digits(groups[2].as_str())
}

/// What follows the scheme of an `https` or `http` URL.
pub open spec fn after_scheme(url: Seq<char>) -> Option<Seq<char>> {
    match after_prefix(url, "https://"@) {
        Some(rest) => Some(rest),
        None => after_prefix(url, "http://"@),
    }
}

/// What is wrong with a `User-Agent` that has no white space around it: the
/// first rule of the format that it breaks.
pub open spec fn user_agent_fault(ua: Seq<char>) -> Option<Seq<char>> {
    match find(ua, " (+"@) {
        None => if ua.len() == 0 {
            Some("User-Agent must not be empty"@)
        } else {
            Some(
                "missing ` (+` before the documentation URL — the format is `AppName/Version (+URL)`"@,
            )
        },
        Some(marker) => if ua.last() != ')' {
            Some("must end with `)` closing the documentation URL"@)
        } else {
            match index_from(ua, '/', 0) {
                None => Some("missing `/` between the app name and the version"@),
                Some(slash) => {
                    let name = ua.take(slash);
                    let version = ua.subrange(slash + 1, marker);
                    let url = ua.subrange(marker + 3, ua.len() - 1);
                    if marker < slash {
                        Some(
                            "app name must not contain spaces, parentheses, or `+` (first ` (+` found before the version)"@,
                        )
                    } else if slash == 0 {
                        Some("app name must be 1..=64 characters, got an empty name"@)
                    } else if utf8_len(name) > 64 {
                        Some("app name must be 1..=64 characters"@)
                    } else if !all_app_chars(name) {
                        Some(
                            "app name must be visible ASCII without the structural breakers `/ ( ) +`"@,
                        )
                    } else if !is_semver(version) {
                        Some("version must be semver MAJOR.MINOR.PATCH (e.g. 1.1.0, 0.1.0-rc.1)"@)
                    } else if after_scheme(url) is None {
                        Some("documentation URL must start with `https://` or `http://`"@)
                    } else if after_scheme(url)->0.len() == 0 {
                        Some("documentation URL must not be empty after the scheme"@)
                    } else if !all_graphic(ua.take(marker)) || !all_graphic(ua.skip(marker + 1)) {
                        Some(
                            "must contain only visible ASCII characters — control characters, non-ASCII, and extra spaces are rejected anywhere in the string"@,
                        )
                    } else {
                        None
                    }
                },
            }
        },
    }
}

fn is_graphic_between(cs: &Vec<char>, from: usize, to: usize) -> (r: bool)
    requires
        from <= to <= cs@.len(),
    ensures
        r == all_graphic(cs@.subrange(from as int, to as int)),
{
    let mut i: usize = from;
    while i < to
        invariant
            from <= i <= to <= cs@.len(),
            forall|k: int| from <= k < i ==> is_graphic(#[trigger] cs@[k]),
        decreases to - i,
    {
        if !('!' <= cs[i] && cs[i] <= '~') {
            assert(!is_graphic(cs@.subrange(from as int, to as int)[i - from]));
            return false;
        }
        i += 1;
    }
    true
}

fn is_app_name(cs: &Vec<char>, to: usize) -> (r: bool)
    requires
        to <= cs@.len(),
    ensures
        r == all_app_chars(cs@.take(to as int)),
{
    let mut i: usize = 0;
    while i < to
        invariant
            i <= to <= cs@.len(),
            forall|k: int| 0 <= k < i ==> is_app_char(#[trigger] cs@[k]),
        decreases to - i,
    {
        let c: char = cs[i];
        if !('!' <= c && c <= '~' && c != '/' && c != '(' && c != ')' && c != '+') {
            assert(!is_app_char(cs@.take(to as int)[i as int]));
            return false;
        }
        i += 1;
    }
    true
}

fn find_fault(ua: &str) -> (r: Option<String>)
    ensures
        opt_view(r) == user_agent_fault(ua@),
{
    proof {
        reveal_strlit(" (+");
        find_from_first(ua@, " (+"@, 0);
    }
    let cs: Vec<char> = chars_of(ua);
    let pat: Vec<char> = chars_of(" (+");
    let marker: usize = match find_chars(&cs, &pat, 0) {
        Some(m) => m,
        None => {
            return if cs.len() == 0 {
                Some("User-Agent must not be empty".to_owned())
            } else {
                Some(
                    "missing ` (+` before the documentation URL — the format is `AppName/Version (+URL)`".to_owned(),
                )
            };
        },
    };
    let n: usize = cs.len();
    if cs[n - 1] != ')' {
        return Some("must end with `)` closing the documentation URL".to_owned());
    }
    assert(ua@.subrange(marker as int, marker + 3)[2] == '+');
    assert(ua@[marker + 2] == '+');
    assert(marker + 3 < n);
    let slash: usize = match index_of(&cs, '/', 0) {
        Some(k) => k,
        None => return Some("missing `/` between the app name and the version".to_owned()),
    };
    if marker < slash {
        return Some(
            "app name must not contain spaces, parentheses, or `+` (first ` (+` found before the version)".to_owned(),
        );
    }
    assert(ua@.subrange(marker as int, marker + 3)[0] == ' ');
    assert(ua@[marker as int] == ' ');
    if slash == 0 {
        return Some("app name must be 1..=64 characters, got an empty name".to_owned());
    }
    let name: String = string_of(&cs, 0, slash);
    assert(name@ =~= ua@.take(slash as int));
    let fitting: String = truncate_bytes(name.as_str(), 64);
    if !str_eq(fitting.as_str(), name.as_str()) {
        assert(utf8_len(name@) > 64) by {
            if utf8_len(name@) <= 64 {
                byte_prefix_whole(name@, 64);
            }
        }
        return Some("app name must be 1..=64 characters".to_owned());
    }
    if !is_app_name(&cs, slash) {
        return Some(
            "app name must be visible ASCII without the structural breakers `/ ( ) +`".to_owned(),
        );
    }
    let version: String = string_of(&cs, slash + 1, marker);
    if !is_valid_semver(version.as_str()) {
        return Some(
            "version must be semver MAJOR.MINOR.PATCH (e.g. 1.1.0, 0.1.0-rc.1)".to_owned(),
        );
    }
    let url: String = string_of(&cs, marker + 3, n - 1);
    let stripped: Option<String> = match strip_prefix(url.as_str(), "https://") {
        Some(rest) => Some(rest),
        None => strip_prefix(url.as_str(), "http://"),
    };
    let rest: String = match stripped {
        Some(rest) => rest,
        None => return Some(
            "documentation URL must start with `https://` or `http://`".to_owned(),
        ),
    };
    if rest.as_str().is_empty() {
        return Some("documentation URL must not be empty after the scheme".to_owned());
    }
    assert(ua@.take(marker as int) =~= cs@.subrange(0, marker as int));
    assert(ua@.skip(marker + 1) =~= cs@.subrange(marker + 1, n as int));
    if !is_graphic_between(&cs, 0, marker) || !is_graphic_between(&cs, marker + 1, n) {
        return Some(
            "must contain only visible ASCII characters — control characters, non-ASCII, and extra spaces are rejected anywhere in the string".to_owned(),
        );
    }
    None
}

/// Checks a `User-Agent` against the format `AppName/Version (+URL)`. White
/// space around it does not count.
pub fn validate_user_agent(ua: &str) -> (r: Result<(), ConfigError>)
    ensures
        match user_agent_fault(trimmed(ua@)) {
            None => r is Ok,
            Some(why) => r matches Err(ConfigError::InvalidUserAgent { value, reason }) && value@
                == trimmed(ua@) && reason@ == why,
        },
{
    let value: String = trim(ua);
    match find_fault(value.as_str()) {
        Some(reason) => Err(ConfigError::InvalidUserAgent { value, reason }),
        None => Ok(()),
    }
}

/// Whether a text has the format of a `User-Agent`, part by part.
pub open spec fn is_user_agent(
    ua: Seq<char>,
    name: Seq<char>,
    version: Seq<char>,
    url: Seq<char>,
) -> bool {
    &&& ua == name + "/"@ + version + " (+"@ + url + ")"@
    &&& 1 <= name.len() <= 64
    &&& all_app_chars(name)
    &&& is_semver(version)
    &&& all_graphic(version)
    &&& after_scheme(url) matches Some(rest) && rest.len() > 0
    &&& all_graphic(url)
}

proof fn graphic_width(s: Seq<char>)
    requires
        all_graphic(s),
    ensures
        utf8_len(s) == s.len(),
    decreases s.len(),
{
    if s.len() > 0 {
        graphic_width(s.drop_last());
        assert(is_graphic(s[s.len() - 1]));
    }
}

proof fn format_is_accepted(
    ua: Seq<char>,
    name: Seq<char>,
    version: Seq<char>,
    url: Seq<char>,
)
    requires
        is_user_agent(ua, name, version, url),
    ensures
        user_agent_fault(ua) is None,
{
    reveal_strlit(" (+");
    reveal_strlit("/");
    reveal_strlit(")");
    let slash = name.len() as int;
    let marker = slash + 1 + version.len() as int;
    assert(ua.take(slash) =~= name);
    assert(ua[slash] == '/');
    assert(ua.subrange(slash + 1, marker) =~= version);
    assert(ua.subrange(marker, marker + 3) =~= " (+"@);
    assert(ua.subrange(marker + 3, ua.len() - 1) =~= url);
    assert(ua.last() == ')');
    assert forall|i: int| 0 <= i < marker implies is_graphic(#[trigger] ua[i]) by {
        if i < slash {
            assert(is_app_char(name[i]));
        } else if i > slash {
            assert(is_graphic(version[i - slash - 1]));
        }
    }
    find_from_first(ua, " (+"@, 0);
    assert(find(ua, " (+"@) == Some(marker)) by {
        match find(ua, " (+"@) {
            Some(k) => {
                if k < marker {
                    assert(ua.subrange(k, k + 3)[0] == ' ');
                    assert(is_graphic(ua[k]));
                }
                if k > marker {
                    assert(ua.subrange(marker, marker + 3) != " (+"@);
                }
            },
            None => {
                assert(ua.subrange(marker, marker + 3) != " (+"@);
            },
        }
    }
    index_from_first(ua, '/', 0);
    assert(index_from(ua, '/', 0) == Some(slash)) by {
        if let Some(k) = index_from(ua, '/', 0) {
            if k < slash {
                assert(is_app_char(name[k]));
            }
        }
    }
    assert(all_graphic(name)) by {
        assert forall|i: int| 0 <= i < name.len() implies is_graphic(#[trigger] name[i]) by {
            assert(is_app_char(name[i]));
        }
    }
    graphic_width(name);
    assert(all_graphic(ua.take(marker)));
    assert forall|i: int| 0 <= i < ua.skip(marker + 1).len() implies is_graphic(
        #[trigger] ua.skip(marker + 1)[i],
    ) by {
        let c = ua[marker + 1 + i];
        if i >= 2 && i < url.len() + 2 {
            assert(c == url[i - 2]);
        }
    }
}

/// Exactly the texts `name/version (+url)` are accepted, with a name of 1 to
/// 64 visible characters other than `/ ( ) +`, a version, and an `http` or
/// `https` URL, all of visible ASCII characters.
pub proof fn accepted_user_agents(ua: Seq<char>)
    ensures
        user_agent_fault(ua) is None <==> exists|
            name: Seq<char>,
            version: Seq<char>,
            url: Seq<char>,
        | #[trigger] is_user_agent(ua, name, version, url),
{
    if user_agent_fault(ua) is None {
        reveal_strlit(" (+");
        reveal_strlit("/");
        reveal_strlit(")");
        find_from_first(ua, " (+"@, 0);
        index_from_first(ua, '/', 0);
        let marker = find(ua, " (+"@)->0;
        let slash = index_from(ua, '/', 0)->0;
        let name = ua.take(slash);
        let version = ua.subrange(slash + 1, marker);
        let url = ua.subrange(marker + 3, ua.len() - 1);
        assert(ua.subrange(marker, marker + 3)[0] == ' ');
        assert(ua.subrange(marker, marker + 3)[1] == '(');
        assert(ua.subrange(marker, marker + 3)[2] == '+');
        assert(ua[marker] == ' ' && ua[marker + 1] == '(' && ua[marker + 2] == '+');
        assert(marker + 3 < ua.len());
        assert(ua =~= name + "/"@ + version + " (+"@ + url + ")"@);
        assert(all_graphic(name)) by {
            assert forall|i: int| 0 <= i < name.len() implies is_graphic(#[trigger] name[i]) by {
                assert(is_app_char(name[i]));
            }
        }
        graphic_width(name);
        assert forall|i: int| 0 <= i < version.len() implies is_graphic(#[trigger] version[i]) by {
            assert(ua.take(marker)[slash + 1 + i] == version[i]);
        }
        assert forall|i: int| 0 <= i < url.len() implies is_graphic(#[trigger] url[i]) by {
            assert(ua.skip(marker + 1)[i + 2] == url[i]);
        }
        assert(is_user_agent(ua, name, version, url));
    }
    if exists|name: Seq<char>, version: Seq<char>, url: Seq<char>|
        #[trigger] is_user_agent(ua, name, version, url) {
        let (name, version, url) = choose|name: Seq<char>, version: Seq<char>, url: Seq<char>|
            #[trigger] is_user_agent(ua, name, version, url);
        format_is_accepted(ua, name, version, url);
    }
}

// ── Errors ──────────────────────────────────────────────────────────────────

/// What can be wrong with a configuration.
#[derive(Debug)]
pub enum ConfigError {
    /// The file cannot be read.
    Io(String),
    /// The file is no TOML, or a key has a value of the wrong kind.
    Toml { path: String, message: String },
    /// The file holds a key that does not exist.
    UnknownKey { path: String, key: String },
    /// The `User-Agent` breaks the format.
    InvalidUserAgent { value: String, reason: String },
    /// An environment variable has a value that is not understood.
    InvalidEnv { var: &'static str, value: String },
    /// A scope would corrupt the parameter it is sent in.
    InvalidScopes { value: String, reason: String },
    /// The rate limit is not below Allegro's quota.
    InvalidRateLimit { value: u32 },
}

/// What a value of an environment variable should have been.
pub open spec fn env_hint(var: Seq<char>) -> Seq<char> {
    if var == "ALLEGRO_MCP_RATE_LIMIT"@ {
        "a number of requests per minute"@
    } else if var == "ALLEGRO_MCP_AUTH_FLOW"@ {
        "one of client_credentials or device_code"@
    } else {
        "one of true/1/yes or false/0/no"@
    }
}

impl ConfigError {
    /// The message shown for the error.
    pub open spec fn text(self) -> Seq<char> {
        match self {
            ConfigError::Io(e) => "config file I/O error: "@ + e@,
            ConfigError::Toml { path, message } => "failed to parse config file "@ + path@ + ": "@
                + message@,
            ConfigError::UnknownKey { path, key } => "unknown key `"@ + key@ + "` in config file "@
                + path@ + " — every key must match the schema"@,
            ConfigError::InvalidUserAgent { value, reason } => "invalid User-Agent "@ + quoted(
                value@,
            ) + ": "@ + reason@
                + "\n  expected format: `AppName/Version (+URL)`, e.g. `TestApplication/1.1.0 (+https://firma.com/TestApplication-info)`\n  see "@
                + USER_AGENT_DOC_URL@,
            ConfigError::InvalidEnv { var, value } => "invalid value for environment variable "@
                + var@ + ": "@ + quoted(value@) + " (expected "@ + env_hint(var@) + ")"@,
            ConfigError::InvalidScopes { value, reason } => "invalid scope entry "@ + quoted(value@)
                + ": "@ + reason@,
            ConfigError::InvalidRateLimit { value } => "invalid rate_limit_per_minute "@ + decimal(
                value as nat,
            ) + ": must be below 9000 requests per minute (0 disables the guard)"@,
        }
    }

    /// The message shown for the error.
    pub fn message(&self) -> (r: String)
        ensures
            r@ == self.text(),
    {
        match self {
            ConfigError::Io(e) => "config file I/O error: ".to_owned().concat(e.as_str()),
            ConfigError::Toml { path, message } => "failed to parse config file ".to_owned().concat(
                path.as_str(),
            ).concat(": ").concat(message.as_str()),
            ConfigError::UnknownKey { path, key } => "unknown key `".to_owned().concat(
                key.as_str(),
            ).concat("` in config file ").concat(path.as_str()).concat(
                " — every key must match the schema",
            ),
            ConfigError::InvalidUserAgent {
                value,
                reason,
            } => "invalid User-Agent ".to_owned().concat(quote(value.as_str()).as_str()).concat(
                ": ",
            ).concat(reason.as_str()).concat(
                "\n  expected format: `AppName/Version (+URL)`, e.g. `TestApplication/1.1.0 (+https://firma.com/TestApplication-info)`\n  see ",
            ).concat(USER_AGENT_DOC_URL),
            ConfigError::InvalidEnv { var, value } => {
                let hint: &str = if str_eq(var, "ALLEGRO_MCP_RATE_LIMIT") {
                    "a number of requests per minute"
                } else if str_eq(var, "ALLEGRO_MCP_AUTH_FLOW") {
                    "one of client_credentials or device_code"
                } else {
                    "one of true/1/yes or false/0/no"
                };
                "invalid value for environment variable ".to_owned().concat(var).concat(
                    ": ",
                ).concat(quote(value.as_str()).as_str()).concat(" (expected ").concat(hint).concat(
                    ")",
                )
            },
            ConfigError::InvalidScopes { value, reason } => "invalid scope entry ".to_owned().concat(
                quote(value.as_str()).as_str(),
            ).concat(": ").concat(reason.as_str()),
            ConfigError::InvalidRateLimit {
                value,
            } => "invalid rate_limit_per_minute ".to_owned().concat(
                decimal_string(*value as u64).as_str(),
            ).concat(": must be below 9000 requests per minute (0 disables the guard)"),
        }
    }
}

// ── Types ───────────────────────────────────────────────────────────────────

/// How tokens are come by.
#[derive(Debug, Clone, Copy, PartialEq, Eq, Structural)]
pub enum AuthFlow {
    ClientCredentials,
    DeviceCode,
}

impl Default for AuthFlow {
    fn default() -> (r: AuthFlow)
        ensures
            r is ClientCredentials,
    {
        AuthFlow::ClientCredentials
    }
}

/// Which tools are offered, by the beginnings of their names.
#[derive(Debug, PartialEq, Eq)]
pub struct ToolFilters {
    pub allow: Vec<String>,
    pub deny: Vec<String>,
}

impl Default for ToolFilters {
    fn default() -> (r: ToolFilters)
        ensures
            r.allow@.len() == 0,
            r.deny@.len() == 0,
    {
        ToolFilters { allow: Vec::new(), deny: Vec::new() }
    }
}

impl Clone for ToolFilters {
    fn clone(&self) -> (r: ToolFilters)
        ensures
            views(r.allow@) == views(self.allow@),
            views(r.deny@) == views(self.deny@),
    {
        ToolFilters { allow: clone_strings(&self.allow), deny: clone_strings(&self.deny) }
    }
}

/// The section `[resilience]`.
#[derive(Debug, Clone, Copy, PartialEq, Eq, Structural)]
pub struct ResilienceConfig {
    /// Requests per minute; 0 for no limit.
    pub rate_limit_per_minute: u32,
}

/// The configuration.
#[derive(Debug)]
pub struct Config {
    pub sandbox: bool,
    pub user_agent: Option<String>,
    pub accept_language: String,
    pub schema_url: Option<String>,
    pub schema_file: Option<String>,
    pub auth_flow: AuthFlow,
    pub scopes: Vec<String>,
    pub token_path: Option<String>,
    pub tools: Option<ToolFilters>,
    pub resilience: ResilienceConfig,
}

/// What a configuration is.
pub struct ConfigView {
    pub sandbox: bool,
    pub user_agent: Option<Seq<char>>,
    pub accept_language: Seq<char>,
    pub schema_url: Option<Seq<char>>,
    pub schema_file: Option<Seq<char>>,
    pub auth_flow: AuthFlow,
    pub scopes: Seq<Seq<char>>,
    pub token_path: Option<Seq<char>>,
    pub tools: Option<(Seq<Seq<char>>, Seq<Seq<char>>)>,
    pub rate_limit: u32,
}

impl View for Config {
    type V = ConfigView;

    open spec fn view(&self) -> ConfigView {
        ConfigView {
            sandbox: self.sandbox,
            user_agent: opt_view(self.user_agent),
            accept_language: self.accept_language@,
            schema_url: opt_view(self.schema_url),
            schema_file: opt_view(self.schema_file),
            auth_flow: self.auth_flow,
            scopes: views(self.scopes@),
            token_path: opt_view(self.token_path),
            tools: match self.tools {
                Some(t) => Some((views(t.allow@), views(t.deny@))),
                None => None,
            },
            rate_limit: self.resilience.rate_limit_per_minute,
        }
    }
}

/// The configuration when nothing is configured.
pub open spec fn default_config() -> ConfigView {
    ConfigView {
        sandbox: false,
        user_agent: None,
        accept_language: DEFAULT_ACCEPT_LANGUAGE@,
        schema_url: None,
        schema_file: None,
        auth_flow: AuthFlow::ClientCredentials,
        scopes: Seq::empty(),
        token_path: None,
        tools: None,
        rate_limit: DEFAULT_RATE_LIMIT_RPM,
    }
}

impl Default for Config {
    fn default() -> (r: Config)
        ensures
            r@ == default_config(),
    {
        let scopes: Vec<String> = Vec::new();
        assert(views(scopes@) =~= Seq::<Seq<char>>::empty());
        Config {
            sandbox: false,
            user_agent: None,
            accept_language: DEFAULT_ACCEPT_LANGUAGE.to_owned(),
            schema_url: None,
            schema_file: None,
            auth_flow: AuthFlow::ClientCredentials,
            scopes,
            token_path: None,
            tools: None,
            resilience: ResilienceConfig { rate_limit_per_minute: DEFAULT_RATE_LIMIT_RPM },
        }
    }
}

impl Clone for Config {
    fn clone(&self) -> (r: Config)
        ensures
            r@ == self@,
    {
        Config {
            sandbox: self.sandbox,
            user_agent: clone_opt(&self.user_agent),
            accept_language: self.accept_language.clone(),
            schema_url: clone_opt(&self.schema_url),
            schema_file: clone_opt(&self.schema_file),
            auth_flow: self.auth_flow,
            scopes: clone_strings(&self.scopes),
            token_path: clone_opt(&self.token_path),
            tools: match &self.tools {
                Some(t) => Some(t.clone()),
                None => None,
            },
            resilience: self.resilience,
        }
    }
}

/// The flags of the command line that change the configuration.
#[derive(Debug, Default)]
pub struct CliOverrides {
    pub sandbox: Option<bool>,
    pub user_agent: Option<String>,
    pub schema_url: Option<String>,
    pub schema_file: Option<String>,
    pub config: Option<String>,
}

impl Clone for CliOverrides {
    fn clone(&self) -> (r: CliOverrides)
        ensures
            r.sandbox == self.sandbox,
            opt_view(r.user_agent) == opt_view(self.user_agent),
            opt_view(r.schema_url) == opt_view(self.schema_url),
            opt_view(r.schema_file) == opt_view(self.schema_file),
            opt_view(r.config) == opt_view(self.config),
    {
        CliOverrides {
            sandbox: self.sandbox,
            user_agent: clone_opt(&self.user_agent),
            schema_url: clone_opt(&self.schema_url),
            schema_file: clone_opt(&self.schema_file),
            config: clone_opt(&self.config),
        }
    }
}

/// The values of the environment variables that change the configuration.
#[derive(Debug, Default)]
pub struct EnvOverrides {
    /// `ALLEGRO_MCP_SANDBOX`
    pub sandbox: Option<String>,
    /// `ALLEGRO_MCP_USER_AGENT`
    pub user_agent: Option<String>,
    /// `ALLEGRO_MCP_ACCEPT_LANGUAGE`
    pub accept_language: Option<String>,
    /// `ALLEGRO_MCP_SCHEMA_URL`
    pub schema_url: Option<String>,
    /// `ALLEGRO_MCP_SCHEMA_FILE`
    pub schema_file: Option<String>,
    /// `ALLEGRO_MCP_AUTH_FLOW`
    pub auth_flow: Option<String>,
    /// `ALLEGRO_MCP_TOKEN_PATH`
    pub token_path: Option<String>,
    /// `ALLEGRO_MCP_RATE_LIMIT`
    pub rate_limit: Option<String>,
}

// ── The file ────────────────────────────────────────────────────────────────

/// What the `toml` crate reads from a text: the table as a JSON value whose
/// members keep their order, or the text of the error.
pub uninterp spec fn toml_of_text(s: Seq<char>) -> Result<JsonView, Seq<char>>;

/// Calls `toml::from_str` for a `toml::Table` and, on that,
/// `serde_json::to_value`: the table that the text denotes, as a JSON value
/// whose members keep their order, or the text of the error; a function of the
/// text alone.
#[verifier::external_body]
fn read_toml(s: &str) -> (r: Result<Json, String>)
    ensures
        json_result(r) == toml_of_text(s@),
{
    let table: toml::Table = toml::from_str(s).map_err(|e| e.to_string())?;
    serde_json::to_value(table).map(json_of_value).map_err(|e| e.to_string())
}

/// What is wrong with a configuration file.
pub enum FaultView {
    /// A key that does not exist.
    Unknown(Seq<char>),
    /// Anything else; the text says what.
    Bad(Seq<char>),
}

/// That a key has a value of the wrong kind.
pub open spec fn bad_kind(key: Seq<char>) -> FaultView {
    FaultView::Bad("invalid value for key `"@ + key + "`"@)
}

/// The texts of an array; `None` when the value is no array of texts.
pub open spec fn text_items(items: Seq<JsonView>) -> Option<Seq<Seq<char>>>
    decreases items.len(),
{
    if items.len() == 0 {
        Some(Seq::empty())
    } else {
        match (text_items(items.drop_last()), items.last()) {
            (Some(front), JsonView::Text(s)) => Some(front.push(s)),
            _ => None,
        }
    }
}

/// The texts of an array; `None` when the value is no array of texts.
pub open spec fn text_list(j: JsonView) -> Option<Seq<Seq<char>>> {
    match j {
        JsonView::Array(items) => text_items(items),
        _ => None,
    }
}

/// The lists of the section `[tools]` so far.
pub struct FiltersView {
    pub allow: Option<Seq<Seq<char>>>,
    pub deny: Option<Seq<Seq<char>>>,
}

/// The section `[tools]` once one more key has been read.
pub open spec fn with_filter(f: FiltersView, key: Seq<char>, value: JsonView) -> Result<
    FiltersView,
    FaultView,
> {
    if key == "allow"@ {
        match text_list(value) {
            Some(l) => Ok(FiltersView { allow: Some(l), ..f }),
            None => Err(bad_kind(key)),
        }
    } else if key == "deny"@ {
        match text_list(value) {
            Some(l) => Ok(FiltersView { deny: Some(l), ..f }),
            None => Err(bad_kind(key)),
        }
    } else {
        Err(FaultView::Unknown(key))
    }
}

/// The section `[tools]`, read key by key up to the first fault.
pub open spec fn filters_so_far(ms: Seq<(Seq<char>, JsonView)>) -> Result<FiltersView, FaultView>
    decreases ms.len(),
{
    if ms.len() == 0 {
        Ok(FiltersView { allow: None, deny: None })
    } else {
        match filters_so_far(ms.drop_last()) {
            Ok(f) => with_filter(f, ms.last().0, ms.last().1),
            Err(e) => Err(e),
        }
    }
}

/// The section `[tools]`: both lists must be there. They may stand in an array,
/// one after the other, in place of a table.
pub open spec fn filters_of(j: JsonView) -> Result<(Seq<Seq<char>>, Seq<Seq<char>>), FaultView> {
    match j {
        JsonView::Object(ms) => match filters_so_far(ms) {
            Err(e) => Err(e),
            Ok(f) => match (f.allow, f.deny) {
                (Some(a), Some(d)) => Ok((a, d)),
                (None, _) => Err(FaultView::Bad("missing field `allow`"@)),
                (Some(_), None) => Err(FaultView::Bad("missing field `deny`"@)),
            },
        },
        JsonView::Array(items) => if items.len() < 2 {
            Err(bad_kind("tools"@))
        } else {
            match (text_list(items[0]), text_list(items[1])) {
                (Some(a), Some(d)) => Ok((a, d)),
                _ => Err(bad_kind("tools"@)),
            }
        },
        _ => Err(bad_kind("tools"@)),
    }
}

/// The rate limit of the section `[resilience]`, read key by key up to the
/// first fault.
pub open spec fn rate_limit_so_far(ms: Seq<(Seq<char>, JsonView)>) -> Result<u32, FaultView>
    decreases ms.len(),
{
    if ms.len() == 0 {
        Ok(DEFAULT_RATE_LIMIT_RPM)
    } else {
        match rate_limit_so_far(ms.drop_last()) {
            Err(e) => Err(e),
            Ok(_) => if ms.last().0 == "rate_limit_per_minute"@ {
                match ms.last().1.as_u64() {
                    Some(n) if n <= u32::MAX => Ok(n as u32),
                    _ => Err(bad_kind("rate_limit_per_minute"@)),
                }
            } else {
                Err(FaultView::Unknown(ms.last().0))
            },
        }
    }
}

/// The rate limit of the section `[resilience]`.
pub open spec fn rate_limit_of(j: JsonView) -> Result<u32, FaultView> {
    match j {
        JsonView::Object(ms) => rate_limit_so_far(ms),
        _ => Err(bad_kind("resilience"@)),
    }
}

/// Whether a value is a table or an array without anything in it.
pub open spec fn is_empty_value(j: JsonView) -> bool {
    match j {
        JsonView::Object(ms) => ms.len() == 0,
        JsonView::Array(items) => items.len() == 0,
        _ => false,
    }
}

/// The flow that a value names: a text, or a table with the name as its only
/// key. Nothing may stand under the name of a flow that there is.
pub open spec fn flow_named(j: JsonView) -> Option<Seq<char>> {
    match j {
        JsonView::Text(s) => Some(s),
        JsonView::Object(ms) => if ms.len() == 1 && (ms[0].0 != "client_credentials"@
            || is_empty_value(ms[0].1)) {
            Some(ms[0].0)
        } else {
            None
        },
        _ => None,
    }
}

/// The configuration once one more key of the file has been read.
pub open spec fn with_key(c: ConfigView, key: Seq<char>, value: JsonView) -> Result<
    ConfigView,
    FaultView,
> {
    if key == "sandbox"@ {
        match value {
            JsonView::Bool(b) => Ok(ConfigView { sandbox: b, ..c }),
            _ => Err(bad_kind(key)),
        }
    } else if key == "user_agent"@ {
        match value {
            JsonView::Text(s) => Ok(ConfigView { user_agent: Some(s), ..c }),
            _ => Err(bad_kind(key)),
        }
    } else if key == "accept_language"@ {
        match value {
            JsonView::Text(s) => Ok(ConfigView { accept_language: s, ..c }),
            _ => Err(bad_kind(key)),
        }
    } else if key == "schema_url"@ {
        match value {
            JsonView::Text(s) => Ok(ConfigView { schema_url: Some(s), ..c }),
            _ => Err(bad_kind(key)),
        }
    } else if key == "schema_file"@ {
        match value {
            JsonView::Text(s) => Ok(ConfigView { schema_file: Some(s), ..c }),
            _ => Err(bad_kind(key)),
        }
    } else if key == "auth_flow"@ {
        match flow_named(value) {
            Some(s) => if s == "client_credentials"@ {
                Ok(ConfigView { auth_flow: AuthFlow::ClientCredentials, ..c })
            } else {
                Err(
                    FaultView::Bad(
                        "unknown variant `"@ + s + "`, expected `client_credentials`"@,
                    ),
                )
            },
            None => Err(bad_kind(key)),
        }
    } else if key == "scopes"@ {
        match text_list(value) {
            Some(l) => Ok(ConfigView { scopes: l, ..c }),
            None => Err(bad_kind(key)),
        }
    } else if key == "token_path"@ {
        match value {
            JsonView::Text(s) => Ok(ConfigView { token_path: Some(s), ..c }),
            _ => Err(bad_kind(key)),
        }
    } else if key == "tools"@ {
        match filters_of(value) {
            Ok(f) => Ok(ConfigView { tools: Some(f), ..c }),
            Err(e) => Err(e),
        }
    } else if key == "resilience"@ {
        match rate_limit_of(value) {
            Ok(n) => Ok(ConfigView { rate_limit: n, ..c }),
            Err(e) => Err(e),
        }
    } else {
        Err(FaultView::Unknown(key))
    }
}

/// The configuration that the keys of a file give, read key by key up to the
/// first fault, on top of the defaults.
pub open spec fn config_so_far(ms: Seq<(Seq<char>, JsonView)>) -> Result<ConfigView, FaultView>
    decreases ms.len(),
{
    if ms.len() == 0 {
        Ok(default_config())
    } else {
        match config_so_far(ms.drop_last()) {
            Ok(c) => with_key(c, ms.last().0, ms.last().1),
            Err(e) => Err(e),
        }
    }
}

/// The configuration that a table gives.
pub open spec fn config_of_table(read: Result<JsonView, Seq<char>>) -> Result<
    ConfigView,
    FaultView,
> {
    match read {
        Err(e) => Err(FaultView::Bad(e)),
        Ok(JsonView::Object(ms)) => config_so_far(ms),
        Ok(_) => Err(FaultView::Bad("expected a table"@)),
    }
}

/// Whether `r` is the result for what reading a file came to.
pub open spec fn is_file_result(
    r: Result<Config, ConfigError>,
    path: Seq<char>,
    v: Result<ConfigView, FaultView>,
) -> bool {
    match v {
        Ok(c) => r matches Ok(cfg) && cfg@ == c,
        Err(FaultView::Unknown(k)) => r matches Err(ConfigError::UnknownKey { path: p, key }) && p@
            == path && key@ == k,
        Err(FaultView::Bad(m)) => r matches Err(ConfigError::Toml { path: p, message }) && p@
            == path && message@ == m,
    }
}

enum Fault {
    Unknown(String),
    Bad(String),
}

impl Fault {
    spec fn model(self) -> FaultView {
        match self {
            Fault::Unknown(k) => FaultView::Unknown(k@),
            Fault::Bad(m) => FaultView::Bad(m@),
        }
    }
}

fn bad_kind_of(key: &str) -> (r: Fault)
    ensures
        r.model() == bad_kind(key@),
{
    Fault::Bad("invalid value for key `".to_owned().concat(key).concat("`"))
}

fn read_text(key: &str, value: &Json) -> (r: Result<String, Fault>)
    ensures
        match value@ {
            JsonView::Text(s) => r matches Ok(t) && t@ == s,
            _ => r matches Err(e) && e.model() == bad_kind(key@),
        },
{
    match value {
        Json::Text(s) => Ok(s.clone()),
        _ => Err(bad_kind_of(key)),
    }
}

/// The texts of an array; `None` when the value is no array of texts.
fn read_text_list(value: &Json) -> (r: Option<Vec<String>>)
    ensures
        match r {
            Some(l) => text_list(value@) == Some(views(l@)),
            None => text_list(value@) is None,
        },
{
    broadcast use array_view;

    match value {
        Json::Array(items) => {
            assert(Json::Array(*items)@ == value@);
            let ghost all = items_view(items@);
            let mut out: Vec<String> = Vec::new();
            let mut i: usize = 0;
            assert(all.take(0) =~= Seq::<JsonView>::empty());
            assert(views(out@) =~= Seq::<Seq<char>>::empty());
            while i < items.len()
                invariant
                    i <= items@.len(),
                    all == items_view(items@),
                    text_items(all.take(i as int)) == Some(views(out@)),
                    value@ == JsonView::Array(all),
                decreases items@.len() - i,
            {
                let ghost before = views(out@);
                assert(all.take(i + 1).drop_last() =~= all.take(i as int));
                assert(all.take(i + 1).last() == items@[i as int]@);
                match &items[i] {
                    Json::Text(s) => {
                        out.push(s.clone());
                        assert(views(out@) =~= before.push(s@));
                    },
                    _ => {
                        proof {
                            text_items_stop(all, i + 1);
                        }
                        return None;
                    },
                }
                i += 1;
            }
            assert(all.take(i as int) =~= all);
            Some(out)
        },
        _ => None,
    }
}

/// What is no list of texts up to `i` is none as a whole.
proof fn text_items_stop(items: Seq<JsonView>, i: int)
    requires
        0 <= i <= items.len(),
        text_items(items.take(i)) is None,
    ensures
        text_items(items) is None,
    decreases items.len() - i,
{
    if i == items.len() {
        assert(items.take(i) =~= items);
    } else {
        assert(items.take(i + 1).drop_last() =~= items.take(i));
        text_items_stop(items, i + 1);
    }
}

/// A fault up to `i` is the fault of the whole.
proof fn filters_stop(ms: Seq<(Seq<char>, JsonView)>, i: int)
    requires
        0 <= i <= ms.len(),
        filters_so_far(ms.take(i)) is Err,
    ensures
        filters_so_far(ms) == filters_so_far(ms.take(i)),
    decreases ms.len() - i,
{
    if i == ms.len() {
        assert(ms.take(i) =~= ms);
    } else {
        assert(ms.take(i + 1).drop_last() =~= ms.take(i));
        filters_stop(ms, i + 1);
    }
}

/// A fault up to `i` is the fault of the whole.
proof fn rate_limit_stop(ms: Seq<(Seq<char>, JsonView)>, i: int)
    requires
        0 <= i <= ms.len(),
        rate_limit_so_far(ms.take(i)) is Err,
    ensures
        rate_limit_so_far(ms) == rate_limit_so_far(ms.take(i)),
    decreases ms.len() - i,
{
    if i == ms.len() {
        assert(ms.take(i) =~= ms);
    } else {
        assert(ms.take(i + 1).drop_last() =~= ms.take(i));
        rate_limit_stop(ms, i + 1);
    }
}

/// A fault up to `i` is the fault of the whole.
proof fn config_stop(ms: Seq<(Seq<char>, JsonView)>, i: int)
    requires
        0 <= i <= ms.len(),
        config_so_far(ms.take(i)) is Err,
    ensures
        config_so_far(ms) == config_so_far(ms.take(i)),
    decreases ms.len() - i,
{
    if i == ms.len() {
        assert(ms.take(i) =~= ms);
    } else {
        assert(ms.take(i + 1).drop_last() =~= ms.take(i));
        config_stop(ms, i + 1);
    }
}

spec fn opt_views(l: Option<Vec<String>>) -> Option<Seq<Seq<char>>> {
    match l {
        Some(v) => Some(views(v@)),
        None => None,
    }
}

/// The lists of a section `[tools]` that is a table.
fn read_filter_table(ms: &Vec<(String, Json)>) -> (r: Result<
    (Option<Vec<String>>, Option<Vec<String>>),
    Fault,
>)
    ensures
        match filters_so_far(members_view(ms@)) {
            Ok(f) => r matches Ok(l) && opt_views(l.0) == f.allow && opt_views(l.1) == f.deny,
            Err(e) => r matches Err(fault) && fault.model() == e,
        },
{
    let ghost all = members_view(ms@);
    let mut allow: Option<Vec<String>> = None;
    let mut deny: Option<Vec<String>> = None;
    let mut i: usize = 0;
    assert(all.take(0) =~= Seq::<(Seq<char>, JsonView)>::empty());
    while i < ms.len()
        invariant
            i <= ms@.len(),
            all == members_view(ms@),
            filters_so_far(all.take(i as int)) == Ok::<FiltersView, FaultView>(
                FiltersView { allow: opt_views(allow), deny: opt_views(deny) },
            ),
        decreases ms@.len() - i,
    {
        assert(all.take(i + 1).drop_last() =~= all.take(i as int));
        let key: &String = &ms[i].0;
        let value: &Json = &ms[i].1;
        assert(all.take(i + 1).last() == (key@, value@));
        if str_eq(key.as_str(), "allow") {
            match read_text_list(value) {
                Some(l) => allow = Some(l),
                None => {
                    proof {
                        filters_stop(all, i + 1);
                    }
                    return Err(bad_kind_of(key.as_str()));
                },
            }
        } else if str_eq(key.as_str(), "deny") {
            match read_text_list(value) {
                Some(l) => deny = Some(l),
                None => {
                    proof {
                        filters_stop(all, i + 1);
                    }
                    return Err(bad_kind_of(key.as_str()));
                },
            }
        } else {
            proof {
                filters_stop(all, i + 1);
            }
            return Err(Fault::Unknown(key.clone()));
        }
        i += 1;
    }
    assert(all.take(i as int) =~= all);
    Ok((allow, deny))
}

fn read_filters(value: &Json) -> (r: Result<ToolFilters, Fault>)
    ensures
        match filters_of(value@) {
            Ok(f) => r matches Ok(t) && (views(t.allow@), views(t.deny@)) == f,
            Err(e) => r matches Err(fault) && fault.model() == e,
        },
{
    broadcast use {array_view, object_view};

    match value {
        Json::Object(ms) => {
            assert(Json::Object(*ms)@ == value@);
            match read_filter_table(ms) {
                Err(e) => Err(e),
                Ok((Some(allow), Some(deny))) => Ok(ToolFilters { allow, deny }),
                Ok((None, _)) => Err(Fault::Bad("missing field `allow`".to_owned())),
                Ok((Some(_), None)) => Err(Fault::Bad("missing field `deny`".to_owned())),
            }
        },
        Json::Array(items) => {
            assert(Json::Array(*items)@ == value@);
            if items.len() < 2 {
                return Err(bad_kind_of("tools"));
            }
            match (read_text_list(&items[0]), read_text_list(&items[1])) {
                (Some(allow), Some(deny)) => Ok(ToolFilters { allow, deny }),
                _ => Err(bad_kind_of("tools")),
            }
        },
        _ => Err(bad_kind_of("tools")),
    }
}

fn read_rate_limit(value: &Json) -> (r: Result<u32, Fault>)
    ensures
        match rate_limit_of(value@) {
            Ok(n) => r matches Ok(m) && m == n,
            Err(e) => r matches Err(fault) && fault.model() == e,
        },
{
    broadcast use object_view;

    match value {
        Json::Object(ms) => {
            assert(Json::Object(*ms)@ == value@);
            let ghost all = members_view(ms@);
            let mut limit: u32 = DEFAULT_RATE_LIMIT_RPM;
            let mut i: usize = 0;
            assert(all.take(0) =~= Seq::<(Seq<char>, JsonView)>::empty());
            while i < ms.len()
                invariant
                    i <= ms@.len(),
                    all == members_view(ms@),
                    value@ == JsonView::Object(all),
                    rate_limit_so_far(all.take(i as int)) == Ok::<u32, FaultView>(limit),
                decreases ms@.len() - i,
            {
                assert(all.take(i + 1).drop_last() =~= all.take(i as int));
                let key: &String = &ms[i].0;
                assert(all.take(i + 1).last() == (key@, ms@[i as int].1@));
                if !str_eq(key.as_str(), "rate_limit_per_minute") {
                    proof {
                        rate_limit_stop(all, i + 1);
                    }
                    return Err(Fault::Unknown(key.clone()));
                }
                match ms[i].1.as_u64() {
                    Some(n) if n <= 4294967295u64 => limit = n as u32,
                    _ => {
                        proof {
                            rate_limit_stop(all, i + 1);
                        }
                        return Err(bad_kind_of("rate_limit_per_minute"));
                    },
                }
                i += 1;
            }
            assert(all.take(i as int) =~= all);
            Ok(limit)
        },
        _ => Err(bad_kind_of("resilience")),
    }
}

fn read_flow_name(value: &Json) -> (r: Option<String>)
    ensures
        opt_view(r) == flow_named(value@),
{
    broadcast use {array_view, object_view};

    match value {
        Json::Text(s) => Some(s.clone()),
        Json::Object(ms) => {
            if ms.len() != 1 {
                return None;
            }
            assert(members_view(ms@)[0] == (ms@[0].0@, ms@[0].1@));
            let empty: bool = match &ms[0].1 {
                Json::Object(inner) => inner.len() == 0,
                Json::Array(items) => items.len() == 0,
                _ => false,
            };
            if empty || !str_eq(ms[0].0.as_str(), "client_credentials") {
                Some(ms[0].0.clone())
            } else {
                None
            }
        },
        _ => None,
    }
}

/// Reads one key of the file into the configuration.
fn read_key(c: Config, key: &str, value: &Json) -> (r: Result<Config, Fault>)
    ensures
        match with_key(c@, key@, value@) {
            Ok(v) => r matches Ok(cfg) && cfg@ == v,
            Err(e) => r matches Err(fault) && fault.model() == e,
        },
{
    let mut c = c;
    if str_eq(key, "sandbox") {
        match value {
            Json::Bool(b) => c.sandbox = *b,
            _ => return Err(bad_kind_of(key)),
        }
    } else if str_eq(key, "user_agent") {
        match read_text(key, value) {
            Ok(s) => c.user_agent = Some(s),
            Err(e) => return Err(e),
        }
    } else if str_eq(key, "accept_language") {
        match read_text(key, value) {
            Ok(s) => c.accept_language = s,
            Err(e) => return Err(e),
        }
    } else if str_eq(key, "schema_url") {
        match read_text(key, value) {
            Ok(s) => c.schema_url = Some(s),
            Err(e) => return Err(e),
        }
    } else if str_eq(key, "schema_file") {
        match read_text(key, value) {
            Ok(s) => c.schema_file = Some(s),
            Err(e) => return Err(e),
        }
    } else if str_eq(key, "auth_flow") {
        match read_flow_name(value) {
            Some(s) => if str_eq(s.as_str(), "client_credentials") {
                c.auth_flow = AuthFlow::ClientCredentials;
            } else {
                return Err(
                    Fault::Bad(
                        "unknown variant `".to_owned().concat(s.as_str()).concat(
                            "`, expected `client_credentials`",
                        ),
                    ),
                );
            },
            None => return Err(bad_kind_of(key)),
        }
    } else if str_eq(key, "scopes") {
        match read_text_list(value) {
            Some(l) => c.scopes = l,
            None => return Err(bad_kind_of(key)),
        }
    } else if str_eq(key, "token_path") {
        match read_text(key, value) {
            Ok(s) => c.token_path = Some(s),
            Err(e) => return Err(e),
        }
    } else if str_eq(key, "tools") {
        match read_filters(value) {
            Ok(f) => c.tools = Some(f),
            Err(e) => return Err(e),
        }
    } else if str_eq(key, "resilience") {
        match read_rate_limit(value) {
            Ok(n) => c.resilience = ResilienceConfig { rate_limit_per_minute: n },
            Err(e) => return Err(e),
        }
    } else {
        return Err(Fault::Unknown(key.to_owned()));
    }
    Ok(c)
}

/// Reads the keys of the file, in the order in which they stand.
fn read_table(ms: &Vec<(String, Json)>) -> (r: Result<Config, Fault>)
    ensures
        match config_so_far(members_view(ms@)) {
            Ok(v) => r matches Ok(cfg) && cfg@ == v,
            Err(e) => r matches Err(fault) && fault.model() == e,
        },
{
    let ghost all = members_view(ms@);
    let mut c = Config::default();
    let mut i: usize = 0;
    assert(all.take(0) =~= Seq::<(Seq<char>, JsonView)>::empty());
    while i < ms.len()
        invariant
            i <= ms@.len(),
            all == members_view(ms@),
            config_so_far(all.take(i as int)) == Ok::<ConfigView, FaultView>(c@),
        decreases ms@.len() - i,
    {
        assert(all.take(i + 1).drop_last() =~= all.take(i as int));
        assert(all.take(i + 1).last() == (ms@[i as int].0@, ms@[i as int].1@));
        match read_key(c, ms[i].0.as_str(), &ms[i].1) {
            Ok(next) => c = next,
            Err(e) => {
                proof {
                    config_stop(all, i + 1);
                }
                return Err(e);
            },
        }
        i += 1;
    }
    assert(all.take(i as int) =~= all);
    Ok(c)
}

/// The configuration that a table gives: what follows the reading of the TOML.
pub fn config_from_table(read: Result<Json, String>, path: &str) -> (r: Result<
    Config,
    ConfigError,
>)
    ensures
        is_file_result(r, path@, config_of_table(json_result(read))),
{
    broadcast use object_view;

    let fault: Fault = match &read {
        Err(e) => Fault::Bad(e.clone()),
        Ok(json) => match json {
            Json::Object(ms) => {
                assert(Json::Object(*ms)@ == json@);
                match read_table(ms) {
                    Ok(c) => return Ok(c),
                    Err(e) => e,
                }
            },
            _ => Fault::Bad("expected a table".to_owned()),
        },
    };
    match fault {
        Fault::Unknown(key) => Err(ConfigError::UnknownKey { path: path.to_owned(), key }),
        Fault::Bad(message) => Err(ConfigError::Toml { path: path.to_owned(), message }),
    }
}

impl Config {
    /// Reads a configuration from the text of a file, without the environment
    /// and the command line. Any subset of the keys may stand there; a key
    /// that does not exist is an error.
    pub fn from_toml_str(s: &str) -> (r: Result<Config, ConfigError>)
        ensures
            is_file_result(r, ""@, config_of_table(toml_of_text(s@))),
    {
        Config::from_toml_str_at(s, "")
    }

    /// Like `from_toml_str`, with the path of the file in the errors.
    pub fn from_toml_str_at(s: &str, path: &str) -> (r: Result<Config, ConfigError>)
        ensures
            is_file_result(r, path@, config_of_table(toml_of_text(s@))),
    {
        config_from_table(read_toml(s), path)
    }
}

// ── The environment and the command line ────────────────────────────────────

/// What a truth value of the environment means.
pub open spec fn env_bool(value: Seq<char>) -> Option<bool> {
    let v = lower_ascii(trimmed(value));
    if v == "true"@ || v == "1"@ || v == "yes"@ {
        Some(true)
    } else if v == "false"@ || v == "0"@ || v == "no"@ {
        Some(false)
    } else {
        None
    }
}

/// The authorization flow that a value of the environment names.
pub open spec fn env_flow(value: Seq<char>) -> Option<AuthFlow> {
    let v = trimmed(value);
    if v == "client_credentials"@ {
        Some(AuthFlow::ClientCredentials)
    } else if v == "device_code"@ {
        Some(AuthFlow::DeviceCode)
    } else {
        None
    }
}

/// The number of requests per minute that a value of the environment gives.
pub open spec fn env_rate(value: Seq<char>) -> Option<nat> {
    unsigned_value(trimmed(value), u32::MAX as nat)
}

/// Reads a truth value: `true`, `1`, `yes` or `false`, `0`, `no`, in any case
/// and with white space around it. Anything else is an error.
pub fn parse_env_bool(var: &'static str, value: &str) -> (r: Result<bool, ConfigError>)
    ensures
        match env_bool(value@) {
            Some(b) => r matches Ok(x) && x == b,
            None => r matches Err(ConfigError::InvalidEnv { var: v, value: x }) && v@ == var@ && x@
                == value@,
        },
{
    let trimmed_value: String = trim(value);
    let v: String = to_lower_ascii(trimmed_value.as_str());
    if str_eq(v.as_str(), "true") || str_eq(v.as_str(), "1") || str_eq(v.as_str(), "yes") {
        Ok(true)
    } else if str_eq(v.as_str(), "false") || str_eq(v.as_str(), "0") || str_eq(v.as_str(), "no") {
        Ok(false)
    } else {
        Err(ConfigError::InvalidEnv { var, value: value.to_owned() })
    }
}

fn parse_env_flow(var: &'static str, value: &str) -> (r: Result<AuthFlow, ConfigError>)
    ensures
        match env_flow(value@) {
            Some(f) => r matches Ok(x) && x == f,
            None => r matches Err(ConfigError::InvalidEnv { var: v, value: x }) && v@ == var@ && x@
                == value@,
        },
{
    let v: String = trim(value);
    if str_eq(v.as_str(), "client_credentials") {
        Ok(AuthFlow::ClientCredentials)
    } else if str_eq(v.as_str(), "device_code") {
        Ok(AuthFlow::DeviceCode)
    } else {
        Err(ConfigError::InvalidEnv { var, value: value.to_owned() })
    }
}

fn parse_env_rate(var: &'static str, value: &str) -> (r: Result<u32, ConfigError>)
    ensures
        match env_rate(value@) {
            Some(n) => r matches Ok(x) && x == n,
            None => r matches Err(ConfigError::InvalidEnv { var: v, value: x }) && v@ == var@ && x@
                == value@,
        },
{
    let v: String = trim(value);
    match parse_unsigned(v.as_str(), 4294967295u64) {
        Some(n) => Ok(n as u32),
        None => Err(ConfigError::InvalidEnv { var, value: value.to_owned() }),
    }
}

/// The first variable of the environment that cannot be read, with its value.
pub open spec fn env_fault(env: EnvOverrides) -> Option<(Seq<char>, Seq<char>)> {
    match opt_view(env.sandbox) {
        Some(v) if env_bool(v) is None => Some(("ALLEGRO_MCP_SANDBOX"@, v)),
        _ => match opt_view(env.auth_flow) {
            Some(v) if env_flow(v) is None => Some(("ALLEGRO_MCP_AUTH_FLOW"@, v)),
            _ => match opt_view(env.rate_limit) {
                Some(v) if env_rate(v) is None => Some(("ALLEGRO_MCP_RATE_LIMIT"@, v)),
                _ => None,
            },
        },
    }
}

/// The sources of the schema document once a layer has had its say: an address
/// displaces a file, and a file displaces an address.
pub open spec fn schema_choice(
    below: (Option<Seq<char>>, Option<Seq<char>>),
    url: Option<Seq<char>>,
    file: Option<Seq<char>>,
) -> (Option<Seq<char>>, Option<Seq<char>>) {
    match (url, file) {
        (_, Some(f)) => (None, Some(f)),
        (Some(u), None) => (Some(u), None),
        (None, None) => below,
    }
}

/// The configuration with what the environment says on top of it.
pub open spec fn with_env(c: ConfigView, env: EnvOverrides) -> ConfigView {
    let schema = schema_choice(
        (c.schema_url, c.schema_file),
        opt_view(env.schema_url),
        opt_view(env.schema_file),
    );
    ConfigView {
        sandbox: match opt_view(env.sandbox) {
            Some(v) => env_bool(v)->0,
            None => c.sandbox,
        },
        user_agent: match opt_view(env.user_agent) {
            Some(v) => Some(v),
            None => c.user_agent,
        },
        accept_language: match opt_view(env.accept_language) {
            Some(v) => trimmed(v),
            None => c.accept_language,
        },
        schema_url: schema.0,
        schema_file: schema.1,
        auth_flow: match opt_view(env.auth_flow) {
            Some(v) => env_flow(v)->0,
            None => c.auth_flow,
        },
        scopes: c.scopes,
        token_path: match opt_view(env.token_path) {
            Some(v) => Some(v),
            None => c.token_path,
        },
        tools: c.tools,
        rate_limit: match opt_view(env.rate_limit) {
            Some(v) => env_rate(v)->0 as u32,
            None => c.rate_limit,
        },
    }
}

/// The configuration with what the command line says on top of it.
pub open spec fn with_cli(c: ConfigView, cli: CliOverrides) -> ConfigView {
    let schema = schema_choice(
        (c.schema_url, c.schema_file),
        opt_view(cli.schema_url),
        opt_view(cli.schema_file),
    );
    ConfigView {
        sandbox: match cli.sandbox {
            Some(b) => b,
            None => c.sandbox,
        },
        user_agent: match opt_view(cli.user_agent) {
            Some(v) => Some(v),
            None => c.user_agent,
        },
        schema_url: schema.0,
        schema_file: schema.1,
        ..c
    }
}

/// Whether a scope entry would break the parameter that scopes are joined into.
pub open spec fn scope_fault(scope: Seq<char>) -> Option<Seq<char>> {
    if scope.len() == 0 {
        Some("scope entries must be non-empty"@)
    } else if exists|i: int| 0 <= i < scope.len() && is_white_space(#[trigger] scope[i]) {
        Some(
            "scope entries must not contain whitespace (they are space-joined into one OAuth2 parameter)"@,
        )
    } else {
        None
    }
}

/// The first scope entry with a fault.
pub open spec fn first_bad_scope(scopes: Seq<Seq<char>>, from: int) -> Option<int>
    decreases scopes.len() - from,
{
    if from < 0 || from >= scopes.len() {
        None
    } else if scope_fault(scopes[from]) is Some {
        Some(from)
    } else {
        first_bad_scope(scopes, from + 1)
    }
}

/// Whether `r` is the verdict on a configuration.
pub open spec fn is_verdict(r: Result<(), ConfigError>, c: ConfigView) -> bool {
    if c.user_agent is Some && user_agent_fault(trimmed(c.user_agent->0)) is Some {
        r matches Err(ConfigError::InvalidUserAgent { value, reason }) && value@ == trimmed(
            c.user_agent->0,
        ) && Some(reason@) == user_agent_fault(trimmed(c.user_agent->0))
    } else {
        match first_bad_scope(c.scopes, 0) {
            Some(i) => r matches Err(ConfigError::InvalidScopes { value, reason }) && value@
                == c.scopes[i] && Some(reason@) == scope_fault(c.scopes[i]),
            None => if c.rate_limit >= ALLEGRO_HARD_LIMIT_RPM {
                r matches Err(ConfigError::InvalidRateLimit { value }) && value == c.rate_limit
            } else {
                r is Ok
            },
        }
    }
}

fn check_scope(scope: &str) -> (r: Option<String>)
    ensures
        opt_view(r) == scope_fault(scope@),
{
    let cs: Vec<char> = chars_of(scope);
    if cs.len() == 0 {
        return Some("scope entries must be non-empty".to_owned());
    }
    let mut i: usize = 0;
    while i < cs.len()
        invariant
            i <= cs@.len(),
            cs@ == scope@,
            cs@.len() > 0,
            forall|j: int| 0 <= j < i ==> !is_white_space(#[trigger] cs@[j]),
        decreases cs@.len() - i,
    {
        if char_is_white_space(cs[i]) {
            assert(is_white_space(scope@[i as int]));
            return Some(
                "scope entries must not contain whitespace (they are space-joined into one OAuth2 parameter)".to_owned(),
            );
        }
        i += 1;
    }
    None
}

/// A configuration file: where it is, and its text or why it could not be
/// read.
#[derive(Debug)]
pub struct ConfigFile {
    pub path: String,
    pub contents: Result<String, String>,
}

/// The configuration that the file gives, or the one without a file.
pub open spec fn file_layer(file: Option<ConfigFile>) -> Result<ConfigView, FaultView> {
    match file {
        None => Ok(default_config()),
        Some(f) => match f.contents {
            Ok(text) => config_of_table(toml_of_text(text@)),
            Err(e) => Err(FaultView::Bad(e@)),
        },
    }
}

/// The configuration with the white space around its `User-Agent` removed.
pub open spec fn normalized(c: ConfigView) -> ConfigView {
    ConfigView {
        user_agent: match c.user_agent {
            Some(ua) => Some(trimmed(ua)),
            None => None,
        },
        ..c
    }
}

/// The three layers on top of each other: file, environment, command line.
pub open spec fn merged(file: ConfigView, env: EnvOverrides, cli: CliOverrides) -> ConfigView {
    normalized(with_cli(with_env(file, env), cli))
}

/// Whether `r` is the result of loading the configuration from its layers.
pub open spec fn is_load_result(
    r: Result<Config, ConfigError>,
    file: Option<ConfigFile>,
    env: EnvOverrides,
    cli: CliOverrides,
) -> bool {
    match file_layer(file) {
        Err(fault) => match file->0.contents {
            Err(e) => r matches Err(ConfigError::Io(m)) && m@ == e@,
            Ok(_) => is_file_result(r, file->0.path@, Err(fault)),
        },
        Ok(c) => match env_fault(env) {
            Some((var, value)) => r matches Err(ConfigError::InvalidEnv { var: v, value: x }) && v@
                == var && x@ == value,
            None => match r {
                Ok(cfg) => cfg@ == merged(c, env, cli) && is_verdict(Ok(()), cfg@),
                Err(e) => is_verdict(Err(e), merged(c, env, cli)),
            },
        },
    }
}

/// The path of the configuration file in the platform's configuration
/// directory.
pub open spec fn platform_file(dir: Seq<char>) -> Seq<char> {
    path_in(path_in(dir, "allegro-mcp"@), "allegro-mcp.toml"@)
}

/// Which configuration file is used.
pub open spec fn discovered(
    cli: Option<Seq<char>>,
    env: Option<Seq<char>>,
    cwd_is_file: bool,
    platform: Option<Seq<char>>,
) -> Option<Seq<char>> {
    if cli is Some {
        cli
    } else if env is Some && trimmed(env->0).len() > 0 {
        env
    } else if cwd_is_file {
        Some("allegro-mcp.toml"@)
    } else {
        platform
    }
}

impl Config {
    /// The path of the configuration file in the platform's configuration
    /// directory.
    pub fn platform_path(dir: &str) -> (r: String)
        ensures
            r@ == platform_file(dir@),
    {
        join_path(join_path(dir, "allegro-mcp").as_str(), "allegro-mcp.toml")
    }

    /// Which configuration file is used: the one named on the command line,
    /// else the one that `ALLEGRO_MCP_CONFIG` names, else `allegro-mcp.toml`
    /// in the current directory, else `platform`, the file in the platform's
    /// configuration directory. The first two are taken whether or not they
    /// exist; `platform` is `None` when there is no such file.
    pub fn discover_path(
        cli_config: Option<&str>,
        env: Option<&str>,
        cwd_is_file: bool,
        platform: Option<&str>,
    ) -> (r: Option<String>)
        ensures
            opt_view(r) == discovered(opt_str(cli_config), opt_str(env), cwd_is_file, opt_str(platform)),
    {
        if let Some(path) = cli_config {
            return Some(path.to_owned());
        }
        if let Some(path) = env {
            let shown: Vec<char> = chars_of(trim(path).as_str());
            if shown.len() > 0 {
                return Some(path.to_owned());
            }
        }
        if cwd_is_file {
            return Some("allegro-mcp.toml".to_owned());
        }
        match platform {
            Some(path) => Some(path.to_owned()),
            None => None,
        }
    }

    /// Puts the values of the environment on top of the configuration. Where
    /// one cannot be read, nothing is changed.
    pub fn apply_env(cfg: &mut Config, env: &EnvOverrides) -> (r: Result<(), ConfigError>)
        ensures
            match env_fault(*env) {
                None => r is Ok && final(cfg)@ == with_env(old(cfg)@, *env),
                Some((var, value)) => {
                    &&& r matches Err(ConfigError::InvalidEnv { var: v, value: x }) && v@ == var
                        && x@ == value
                    &&& *final(cfg) == *old(cfg)
                },
            },
    {
        let mut sandbox: bool = cfg.sandbox;
        if let Some(v) = &env.sandbox {
            match parse_env_bool("ALLEGRO_MCP_SANDBOX", v.as_str()) {
                Ok(b) => sandbox = b,
                Err(e) => return Err(e),
            }
        }
        let mut auth_flow: AuthFlow = cfg.auth_flow;
        if let Some(v) = &env.auth_flow {
            match parse_env_flow("ALLEGRO_MCP_AUTH_FLOW", v.as_str()) {
                Ok(f) => auth_flow = f,
                Err(e) => return Err(e),
            }
        }
        let mut rate_limit: u32 = cfg.resilience.rate_limit_per_minute;
        if let Some(v) = &env.rate_limit {
            match parse_env_rate("ALLEGRO_MCP_RATE_LIMIT", v.as_str()) {
                Ok(n) => rate_limit = n,
                Err(e) => return Err(e),
            }
        }
        cfg.sandbox = sandbox;
        cfg.auth_flow = auth_flow;
        cfg.resilience = ResilienceConfig { rate_limit_per_minute: rate_limit };
        if let Some(v) = &env.user_agent {
            cfg.user_agent = Some(v.clone());
        }
        if let Some(v) = &env.accept_language {
            cfg.accept_language = trim(v.as_str());
        }
        if let Some(v) = &env.schema_url {
            cfg.schema_url = Some(v.clone());
            cfg.schema_file = None;
        }
        if let Some(v) = &env.schema_file {
            cfg.schema_file = Some(v.clone());
            cfg.schema_url = None;
        }
        if let Some(v) = &env.token_path {
            cfg.token_path = Some(v.clone());
        }
        Ok(())
    }

    /// Puts the flags of the command line on top of the configuration.
    pub fn apply_cli(cfg: &mut Config, cli: &CliOverrides)
        ensures
            final(cfg)@ == with_cli(old(cfg)@, *cli),
    {
        if let Some(b) = cli.sandbox {
            cfg.sandbox = b;
        }
        if let Some(v) = &cli.user_agent {
            cfg.user_agent = Some(v.clone());
        }
        if let Some(v) = &cli.schema_url {
            cfg.schema_url = Some(v.clone());
            cfg.schema_file = None;
        }
        if let Some(v) = &cli.schema_file {
            cfg.schema_file = Some(v.clone());
            cfg.schema_url = None;
        }
    }

    /// Checks the `User-Agent`, the scope entries and the rate limit.
    pub fn validate(&self) -> (r: Result<(), ConfigError>)
        ensures
            is_verdict(r, self@),
    {
        if let Some(ua) = &self.user_agent {
            match validate_user_agent(ua.as_str()) {
                Ok(_) => {},
                Err(e) => return Err(e),
            }
        }
        let ghost all = views(self.scopes@);
        let mut i: usize = 0;
        while i < self.scopes.len()
            invariant
                i <= self.scopes@.len(),
                all == views(self.scopes@),
                first_bad_scope(all, 0) == first_bad_scope(all, i as int),
                !(self@.user_agent is Some && user_agent_fault(trimmed(self@.user_agent->0)) is Some),
            decreases self.scopes@.len() - i,
        {
            assert(all[i as int] == self.scopes@[i as int]@);
            match check_scope(self.scopes[i].as_str()) {
                Some(reason) => {
                    return Err(
                        ConfigError::InvalidScopes { value: self.scopes[i].clone(), reason },
                    );
                },
                None => {},
            }
            i += 1;
        }
        if self.resilience.rate_limit_per_minute >= ALLEGRO_HARD_LIMIT_RPM {
            return Err(
                ConfigError::InvalidRateLimit { value: self.resilience.rate_limit_per_minute },
            );
        }
        Ok(())
    }

    /// Loads the configuration: the file, if there is one, then the
    /// environment, then the command line; the result is checked before
    /// anything else is done with it.
    pub fn load(cli: &CliOverrides, env: &EnvOverrides, file: &Option<ConfigFile>) -> (r: Result<
        Config,
        ConfigError,
    >)
        ensures
            is_load_result(r, *file, *env, *cli),
    {
        let mut cfg = match file {
            None => Config::default(),
            Some(f) => match &f.contents {
                Err(e) => return Err(ConfigError::Io(e.clone())),
                Ok(text) => match Config::from_toml_str_at(text.as_str(), f.path.as_str()) {
                    Ok(c) => c,
                    Err(e) => return Err(e),
                },
            },
        };
        match Config::apply_env(&mut cfg, env) {
            Ok(_) => {},
            Err(e) => return Err(e),
        }
        Config::apply_cli(&mut cfg, cli);
        let ghost before = cfg@;
        let user_agent: Option<String> = match &cfg.user_agent {
            Some(ua) => Some(trim(ua.as_str())),
            None => None,
        };
        cfg.user_agent = user_agent;
        assert(cfg@ == normalized(before));
        match cfg.validate() {
            Ok(_) => Ok(cfg),
            Err(e) => Err(e),
        }
    }

    /// The number of requests per minute that is kept to; 0 for no limit.
    pub fn rate_limit_rpm(&self) -> (r: u32)
        ensures
            r == self@.rate_limit,
    {
        self.resilience.rate_limit_per_minute
    }
}

/// The command line wins over the environment, the environment over the file.
pub proof fn layers_have_precedence(file: ConfigView, env: EnvOverrides, cli: CliOverrides)
    requires
        env_fault(env) is None,
    ensures
        merged(file, env, cli).sandbox == (match cli.sandbox {
            Some(b) => b,
            None => match opt_view(env.sandbox) {
                Some(v) => env_bool(v)->0,
                None => file.sandbox,
            },
        }),
        merged(file, env, cli).user_agent == (match opt_view(cli.user_agent) {
            Some(v) => Some(trimmed(v)),
            None => match opt_view(env.user_agent) {
                Some(v) => Some(trimmed(v)),
                None => match file.user_agent {
                    Some(v) => Some(trimmed(v)),
                    None => None,
                },
            },
        }),
        merged(file, env, cli).auth_flow == (match opt_view(env.auth_flow) {
            Some(v) => env_flow(v)->0,
            None => file.auth_flow,
        }),
        merged(file, env, cli).token_path == (match opt_view(env.token_path) {
            Some(v) => Some(v),
            None => file.token_path,
        }),
        merged(file, env, cli).rate_limit == (match opt_view(env.rate_limit) {
            Some(v) => env_rate(v)->0 as u32,
            None => file.rate_limit,
        }),
        merged(file, env, cli).scopes == file.scopes,
        merged(file, env, cli).tools == file.tools,
{
}

/// No two layers mix their schema sources: where the environment or the
/// command line names one, exactly one is left, and it is the topmost one.
pub proof fn schema_sources_do_not_mix(file: ConfigView, env: EnvOverrides, cli: CliOverrides)
    requires
        env.schema_url is Some || env.schema_file is Some || cli.schema_url is Some
            || cli.schema_file is Some,
    ensures
        merged(file, env, cli).schema_url is Some <==> merged(file, env, cli).schema_file is None,
{
}

/// A configuration that was loaded has a `User-Agent` in the accepted format,
/// when it has one of its own, only proper scope entries, and a rate limit
/// under the quota.
pub proof fn loaded_is_valid(
    r: Result<Config, ConfigError>,
    file: Option<ConfigFile>,
    env: EnvOverrides,
    cli: CliOverrides,
)
    requires
        is_load_result(r, file, env, cli),
        r is Ok,
    ensures
        r->Ok_0@.user_agent matches Some(ua) ==> user_agent_fault(trimmed(ua)) is None,
        forall|i: int|
            0 <= i < r->Ok_0@.scopes.len() ==> scope_fault(#[trigger] r->Ok_0@.scopes[i]) is None,
        r->Ok_0@.rate_limit < ALLEGRO_HARD_LIMIT_RPM,
{
    let scopes = r->Ok_0@.scopes;
    assert forall|i: int| 0 <= i < scopes.len() implies scope_fault(#[trigger] scopes[i]) is None by {
        no_bad_scope(scopes, 0, i);
    }
}

proof fn no_bad_scope(scopes: Seq<Seq<char>>, from: int, i: int)
    requires
        0 <= from <= i < scopes.len(),
        first_bad_scope(scopes, from) is None,
    ensures
        scope_fault(scopes[i]) is None,
    decreases i - from,
{
    if from < i {
        no_bad_scope(scopes, from + 1, i);
    }
}

// ── What the settings mean ──────────────────────────────────────────────────

/// A truth value of the environment is `true`, `1` or `yes`, or `false`, `0` or
/// `no`, in small or capital letters and with white space around it.
pub proof fn truth_values_of_the_environment(value: Seq<char>, v: Seq<char>)
    requires
        lower_ascii(trimmed(value)) == v,
    ensures
        env_bool(value) == Some(true) <==> v == "true"@ || v == "1"@ || v == "yes"@,
        env_bool(value) == Some(false) <==> v == "false"@ || v == "0"@ || v == "no"@,
{
    reveal_strlit("true");
    reveal_strlit("1");
    reveal_strlit("yes");
    reveal_strlit("false");
    reveal_strlit("0");
    reveal_strlit("no");
    assert("true"@.len() == 4 && "1"@.len() == 1 && "yes"@.len() == 3 && "false"@.len() == 5
        && "0"@.len() == 1 && "no"@.len() == 2);
    assert("1"@[0] == '1' && "0"@[0] == '0');
}

/// The environment names a flow by `client_credentials` or `device_code`, and a
/// rate limit by a number.
pub proof fn flows_and_limits_of_the_environment(value: Seq<char>, n: u32)
    ensures
        env_flow(value) == Some(AuthFlow::ClientCredentials) <==> trimmed(value)
            == "client_credentials"@,
        env_flow(value) == Some(AuthFlow::DeviceCode) <==> trimmed(value) == "device_code"@,
        env_rate(decimal(n as nat)) == Some(n as nat),
{
    reveal_strlit("client_credentials");
    reveal_strlit("device_code");
    assert("client_credentials"@.len() == 18 && "device_code"@.len() == 11);
    decimal_is_read_back(n as nat, u32::MAX as nat);
}

/// A configuration is accepted exactly where its `User-Agent`, if it has one, has the
/// required format, no scope is empty or holds white space, and the rate limit stays
/// below 9000 requests per minute.
pub proof fn what_is_accepted(r: Result<(), ConfigError>, c: ConfigView)
    requires
        is_verdict(r, c),
    ensures
        r is Ok <==> {
            &&& c.user_agent matches Some(ua) ==> user_agent_fault(trimmed(ua)) is None
            &&& forall|i: int|
                0 <= i < c.scopes.len() ==> (#[trigger] c.scopes[i]).len() > 0
                    && !has_white_space(c.scopes[i])
            &&& c.rate_limit < 9000
        },
{
    let scopes = c.scopes;
    match first_bad_scope(scopes, 0) {
        Some(i) => {
            first_bad_scope_is_bad(scopes, 0);
        },
        None => {
            assert forall|i: int| 0 <= i < scopes.len() implies (#[trigger] scopes[i]).len() > 0
                && !has_white_space(scopes[i]) by {
                no_bad_scope(scopes, 0, i);
            }
        },
    }
}

/// Whether a text holds white space.
pub open spec fn has_white_space(s: Seq<char>) -> bool {
    exists|i: int| 0 <= i < s.len() && is_white_space(#[trigger] s[i])
}

proof fn first_bad_scope_is_bad(scopes: Seq<Seq<char>>, from: int)
    requires
        0 <= from,
        first_bad_scope(scopes, from) is Some,
    ensures
        from <= first_bad_scope(scopes, from)->0 < scopes.len(),
        scope_fault(scopes[first_bad_scope(scopes, from)->0]) is Some,
    decreases scopes.len() - from,
{
    if scope_fault(scopes[from]) is None {
        first_bad_scope_is_bad(scopes, from + 1);
    }
}

/// The configuration file is the one that the command line names, else the one that
/// the environment names, else the one in the current directory, else that of the
/// platform.
pub proof fn which_file_is_read(
    cli: Option<Seq<char>>,
    env: Option<Seq<char>>,
    here: bool,
    platform: Option<Seq<char>>,
)
    ensures
        cli is Some ==> discovered(cli, env, here, platform) == cli,
        cli is None ==> (env matches Some(e) ==> (trimmed(e).len() > 0 ==> discovered(
            cli,
            env,
            here,
            platform,
        ) == env)),
        cli is None && (env matches Some(e) ==> trimmed(e).len() == 0) ==> discovered(
            cli,
            env,
            here,
            platform,
        ) == if here {
            Some("allegro-mcp.toml"@)
        } else {
            platform
        },
{
}

/// The name of an application is made of visible ASCII characters other than the
/// slash, the parentheses and the plus sign.
pub proof fn characters_of_application_names(c: char)
    ensures
        is_app_char(c) <==> '!' <= c <= '~' && c != '/' && c != '(' && c != ')' && c != '+',
        is_graphic(c) <==> '!' <= c <= '~',
{
}

/// A version is three groups of digits with dots between them; behind a hyphen
/// anything may follow, but not nothing.
pub proof fn versions_are_three_numbers(
    major: Seq<char>,
    minor: Seq<char>,
    patch: Seq<char>,
    suffix: Seq<char>,
)
    requires
        all_digits(major),
        all_digits(minor),
        all_digits(patch),
    ensures
        is_semver(major + seq!['.'] + minor + seq!['.'] + patch),
        is_semver(major + seq!['.'] + minor + seq!['.'] + patch + seq!['-'] + suffix) <==> suffix.len()
            > 0,
        !is_semver(major + seq!['.'] + minor),
        !is_semver(major),
        !is_semver(major + seq!['.'] + minor + seq!['.'] + patch + seq!['.'] + patch),
{
    let two = major + seq!['.'] + minor;
    let core = two + seq!['.'] + patch;
    digits_hold_no(major, '.');
    digits_hold_no(minor, '.');
    digits_hold_no(patch, '.');
    digits_hold_no(major, '-');
    digits_hold_no(minor, '-');
    digits_hold_no(patch, '-');
    splitting_finds_the_last_part(major, '.', minor);
    splitting_finds_the_last_part(major, '.', major);
    splitting_finds_the_last_part(two, '.', patch);
    assert(split_on(core, '.') =~= seq![major, minor, patch]);
    assert(split_on(two, '.') =~= seq![major, minor]);
    assert forall|i: int| 0 <= i < core.len() implies #[trigger] core[i] != '-' by {
        if i < major.len() {
            assert(core[i] == major[i]);
            assert(major.contains(major[i]));
        } else if major.len() < i < two.len() {
            assert(core[i] == minor[i - major.len() - 1]);
            assert(minor.contains(minor[i - major.len() - 1]));
        } else if i > two.len() {
            assert(core[i] == patch[i - two.len() - 1]);
            assert(patch.contains(patch[i - two.len() - 1]));
        }
    }
    index_from_first(core, '-', 0);
    index_from_first(two, '-', 0);
    index_from_first(major, '-', 0);
    assert(index_from(core, '-', 0) is None) by {
        if let Some(k) = index_from(core, '-', 0) {
            assert(core[k] == '-');
        }
    }
    assert(index_from(two, '-', 0) is None) by {
        if let Some(k) = index_from(two, '-', 0) {
            assert(core[k] == two[k]);
        }
    }
    assert(index_from(major, '-', 0) is None) by {
        if let Some(k) = index_from(major, '-', 0) {
            assert(core[k] == major[k]);
        }
    }
    let four = core + seq!['.'] + patch;
    splitting_finds_the_last_part(core, '.', patch);
    assert(split_on(four, '.').len() == 4);
    index_from_first(four, '-', 0);
    assert(index_from(four, '-', 0) is None) by {
        if let Some(k) = index_from(four, '-', 0) {
            if k < core.len() {
                assert(four[k] == core[k]);
            } else if k > core.len() {
                assert(four[k] == patch[k - core.len() - 1]);
                assert(patch.contains(patch[k - core.len() - 1]));
            }
        }
    }
    let whole = core + seq!['-'] + suffix;
    index_from_first(whole, '-', 0);
    assert(whole[core.len() as int] == '-');
    assert(index_from(whole, '-', 0) == Some(core.len() as int)) by {
        if let Some(k) = index_from(whole, '-', 0) {
            if k < core.len() {
                assert(whole[k] == core[k]);
            }
        }
    }
    assert(whole.take(core.len() as int) =~= core);
}

proof fn digits_hold_no(s: Seq<char>, c: char)
    requires
        all_digits(s),
        c == '.' || c == '-',
    ensures
        !s.contains(c),
{
    if s.contains(c) {
        let k = choose|k: int| 0 <= k < s.len() && s[k] == c;
        assert(is_digit(s[k]));
    }
}

/// Whether a text is a key of the configuration file.
pub open spec fn is_setting(key: Seq<char>) -> bool {
    key == "sandbox"@ || key == "user_agent"@ || key == "accept_language"@ || key == "schema_url"@
        || key == "schema_file"@ || key == "auth_flow"@ || key == "scopes"@ || key == "token_path"@
        || key == "tools"@ || key == "resilience"@
}

/// Whether the setting of that name has the value `value` in a configuration.
pub open spec fn is_set(c: ConfigView, key: Seq<char>, value: JsonView) -> bool {
    &&& key == "sandbox"@ ==> value == JsonView::Bool(c.sandbox)
    &&& key == "user_agent"@ ==> (c.user_agent matches Some(s) && value == JsonView::Text(s))
    &&& key == "accept_language"@ ==> value == JsonView::Text(c.accept_language)
    &&& key == "schema_url"@ ==> (c.schema_url matches Some(s) && value == JsonView::Text(s))
    &&& key == "schema_file"@ ==> (c.schema_file matches Some(s) && value == JsonView::Text(s))
    &&& key == "auth_flow"@ ==> c.auth_flow is ClientCredentials
    &&& key == "scopes"@ ==> text_list(value) == Some(c.scopes)
    &&& key == "token_path"@ ==> (c.token_path matches Some(s) && value == JsonView::Text(s))
    &&& key == "tools"@ ==> (c.tools matches Some(t) && filters_of(value) == Ok::<
        (Seq<Seq<char>>, Seq<Seq<char>>),
        FaultView,
    >(t))
    &&& key == "resilience"@ ==> rate_limit_of(value) == Ok::<u32, FaultView>(c.rate_limit)
}

/// Whether two configurations agree in the setting of that name.
pub open spec fn same_setting(a: ConfigView, b: ConfigView, key: Seq<char>) -> bool {
    &&& key == "sandbox"@ ==> a.sandbox == b.sandbox
    &&& key == "user_agent"@ ==> a.user_agent == b.user_agent
    &&& key == "accept_language"@ ==> a.accept_language == b.accept_language
    &&& key == "schema_url"@ ==> a.schema_url == b.schema_url
    &&& key == "schema_file"@ ==> a.schema_file == b.schema_file
    &&& key == "auth_flow"@ ==> a.auth_flow == b.auth_flow
    &&& key == "scopes"@ ==> a.scopes == b.scopes
    &&& key == "token_path"@ ==> a.token_path == b.token_path
    &&& key == "tools"@ ==> a.tools == b.tools
    &&& key == "resilience"@ ==> a.rate_limit == b.rate_limit
}

proof fn settings_differ()
    ensures
        "sandbox"@.len() == 7,
        "user_agent"@.len() == 10 && "user_agent"@[0] == 'u',
        "accept_language"@.len() == 15,
        "schema_url"@.len() == 10 && "schema_url"@[0] == 's',
        "schema_file"@.len() == 11,
        "auth_flow"@.len() == 9,
        "scopes"@.len() == 6,
        "token_path"@.len() == 10 && "token_path"@[0] == 't',
        "tools"@.len() == 5,
        "resilience"@.len() == 10 && "resilience"@[0] == 'r',
{
    reveal_strlit("sandbox");
    reveal_strlit("user_agent");
    reveal_strlit("accept_language");
    reveal_strlit("schema_url");
    reveal_strlit("schema_file");
    reveal_strlit("auth_flow");
    reveal_strlit("scopes");
    reveal_strlit("token_path");
    reveal_strlit("tools");
    reveal_strlit("resilience");
}

proof fn key_sets_its_own_setting(c: ConfigView, key: Seq<char>, value: JsonView, other: Seq<char>)
    requires
        with_key(c, key, value) is Ok,
    ensures
        is_setting(key),
        is_set(with_key(c, key, value)->Ok_0, key, value),
        key != other ==> same_setting(with_key(c, key, value)->Ok_0, c, other),
{
    settings_differ();
}

/// Every key of the file sets the setting of its name to its value and no other one;
/// a key that does not exist is refused. Where a key stands twice, the last one
/// counts.
pub proof fn keys_set_their_settings(
    ms: Seq<(Seq<char>, JsonView)>,
    c: ConfigView,
    i: int,
)
    requires
        config_so_far(ms) == Ok::<ConfigView, FaultView>(c),
        0 <= i < ms.len(),
    ensures
        is_setting(ms[i].0),
        (forall|k: int| i < k < ms.len() ==> (#[trigger] ms[k]).0 != ms[i].0) ==> is_set(
            c,
            ms[i].0,
            ms[i].1,
        ),
    decreases ms.len(),
{
    let front = ms.drop_last();
    let before = config_so_far(front)->Ok_0;
    let (key, value) = ms.last();
    key_sets_its_own_setting(before, key, value, ms[i].0);
    if i < ms.len() - 1 {
        keys_set_their_settings(front, before, i);
        assert(front[i] == ms[i]);
        if forall|k: int| i < k < ms.len() ==> (#[trigger] ms[k]).0 != ms[i].0 {
            assert(ms[ms.len() - 1].0 != ms[i].0);
            assert forall|k: int| i < k < front.len() implies (#[trigger] front[k]).0
                != front[i].0 by {
                assert(ms[k].0 != ms[i].0);
            }
            assert(is_set(before, ms[i].0, ms[i].1));
            assert(same_setting(c, before, ms[i].0));
        }
    }
}

/// What the file does not set is as by default: production, the flow
/// `client_credentials`, Polish, 8000 requests per minute, and nothing else.
pub proof fn missing_keys_leave_the_defaults(
    ms: Seq<(Seq<char>, JsonView)>,
    c: ConfigView,
    key: Seq<char>,
)
    requires
        config_so_far(ms) == Ok::<ConfigView, FaultView>(c),
        forall|k: int| 0 <= k < ms.len() ==> (#[trigger] ms[k]).0 != key,
    ensures
        same_setting(
            c,
            ConfigView {
                sandbox: false,
                user_agent: None,
                accept_language: "pl-PL"@,
                schema_url: None,
                schema_file: None,
                auth_flow: AuthFlow::ClientCredentials,
                scopes: Seq::empty(),
                token_path: None,
                tools: None,
                rate_limit: 8000,
            },
            key,
        ),
    decreases ms.len(),
{
    if ms.len() > 0 {
        let front = ms.drop_last();
        let before = config_so_far(front)->Ok_0;
        let (last, value) = ms.last();
        assert(ms[ms.len() - 1].0 != key);
        assert forall|k: int| 0 <= k < front.len() implies (#[trigger] front[k]).0 != key by {
            assert(front[k] == ms[k]);
        }
        missing_keys_leave_the_defaults(front, before, key);
        key_sets_its_own_setting(before, last, value, key);
    }
}

/// The texts of an array are read in order.
pub proof fn texts_are_read_in_order(items: Seq<JsonView>, texts: Seq<Seq<char>>)
    requires
        items.len() == texts.len(),
        forall|i: int| 0 <= i < items.len() ==> #[trigger] items[i] == JsonView::Text(texts[i]),
    ensures
        text_list(JsonView::Array(items)) == Some(texts),
    decreases items.len(),
{
    if items.len() > 0 {
        let front = items.drop_last();
        let rest = texts.drop_last();
        assert forall|i: int| 0 <= i < front.len() implies #[trigger] front[i] == JsonView::Text(
            rest[i],
        ) by {
            assert(items[i] == JsonView::Text(texts[i]));
        }
        texts_are_read_in_order(front, rest);
        assert(items[items.len() - 1] == JsonView::Text(texts[texts.len() - 1]));
        assert(rest.push(texts.last()) =~= texts);
    } else {
        assert(texts =~= Seq::<Seq<char>>::empty());
    }
}

/// The rate limit of the file is the number that it names.
pub proof fn rate_limit_is_read(n: u32)
    ensures
        rate_limit_of(
            JsonView::Object(
                seq![("rate_limit_per_minute"@, JsonView::Number(decimal(n as nat)))],
            ),
        ) == Ok::<u32, FaultView>(n),
{
    number_as_u64(n as u64);
    let ms = seq![("rate_limit_per_minute"@, JsonView::Number(decimal(n as nat)))];
    assert(ms.drop_last() =~= Seq::<(Seq<char>, JsonView)>::empty());
    reveal_with_fuel(rate_limit_so_far, 2);
}

/// What is loaded comes from the layers: the file where there is one, the environment
/// over it and the command line over both; it is the defaults where nothing is said.
pub proof fn loading_merges_the_layers(
    r: Result<Config, ConfigError>,
    env: EnvOverrides,
    cli: CliOverrides,
    cfg: Config,
)
    requires
        is_load_result(r, None, env, cli),
        r == Ok::<Config, ConfigError>(cfg),
    ensures
        cli.sandbox matches Some(b) ==> cfg@.sandbox == b,
        cli.sandbox is None && env.sandbox is None ==> !cfg@.sandbox,
        opt_view(cli.schema_file) matches Some(f) ==> cfg@.schema_file == Some(f)
            && cfg@.schema_url is None,
        opt_view(env.token_path) matches Some(p) ==> cfg@.token_path == Some(p),
        opt_view(env.accept_language) matches Some(l) ==> cfg@.accept_language == trimmed(l),
        env.accept_language is None ==> cfg@.accept_language == "pl-PL"@,
        env.rate_limit is None ==> cfg@.rate_limit == 8000,
        env.auth_flow is None ==> cfg@.auth_flow is ClientCredentials,
{
}

/// Each setting comes from the highest layer that names it. Of the two sources of
/// the document a layer that names one displaces both of those below.
pub proof fn highest_layer_wins(below: ConfigView, env: EnvOverrides, cli: CliOverrides)
    ensures
        ({
            let c = merged(below, env, cli);
            let url = opt_view(cli.schema_url);
            let file = opt_view(cli.schema_file);
            let env_url = opt_view(env.schema_url);
            let env_file = opt_view(env.schema_file);
            &&& cli.sandbox matches Some(b) ==> c.sandbox == b
            &&& cli.sandbox is None ==> (opt_view(env.sandbox) matches Some(v) ==> env_bool(v)
                is Some ==> env_bool(v) == Some(c.sandbox))
            &&& cli.sandbox is None && env.sandbox is None ==> c.sandbox == below.sandbox
            &&& opt_view(cli.user_agent) matches Some(ua) ==> c.user_agent == Some(trimmed(ua))
            &&& cli.user_agent is None ==> (opt_view(env.user_agent) matches Some(ua)
                ==> c.user_agent == Some(trimmed(ua)))
            &&& cli.user_agent is None && env.user_agent is None ==> (below.user_agent matches Some(
                ua,
            ) ==> c.user_agent == Some(trimmed(ua)))
            &&& opt_view(env.accept_language) matches Some(l) ==> c.accept_language == trimmed(l)
            &&& env.accept_language is None ==> c.accept_language == below.accept_language
            &&& file is Some ==> c.schema_file == file && c.schema_url is None
            &&& file is None && url is Some ==> c.schema_url == url && c.schema_file is None
            &&& file is None && url is None && env_file is Some ==> c.schema_file == env_file
                && c.schema_url is None
            &&& file is None && url is None && env_file is None && env_url is Some ==> c.schema_url
                == env_url && c.schema_file is None
            &&& file is None && url is None && env_file is None && env_url is None ==> c.schema_url
                == below.schema_url && c.schema_file == below.schema_file
            &&& opt_view(env.auth_flow) matches Some(v) ==> env_flow(v) is Some ==> env_flow(v)
                == Some(c.auth_flow)
            &&& env.auth_flow is None ==> c.auth_flow == below.auth_flow
            &&& opt_view(env.token_path) matches Some(p) ==> c.token_path == Some(p)
            &&& env.token_path is None ==> c.token_path == below.token_path
            &&& opt_view(env.rate_limit) matches Some(v) ==> env_rate(v) is Some && env_rate(v)->0
                <= u32::MAX ==> env_rate(v) == Some(c.rate_limit as nat)
            &&& env.rate_limit is None ==> c.rate_limit == below.rate_limit
            &&& c.scopes == below.scopes
            &&& c.tools == below.tools
        }),
{
}

/// A key with a value of its kind is accepted behind any keys that are, one with a
/// value of another kind is not, and a key that does not exist is named.
pub proof fn which_keys_are_accepted(
    ms: Seq<(Seq<char>, JsonView)>,
    key: Seq<char>,
    value: JsonView,
)
    requires
        config_so_far(ms) is Ok,
    ensures
        ({
            let r = config_so_far(ms.push((key, value)));
            &&& key == "sandbox"@ ==> (r is Ok <==> value is Bool)
            &&& key == "user_agent"@ || key == "accept_language"@ || key == "schema_url"@ || key
                == "schema_file"@ || key == "token_path"@ ==> (r is Ok <==> value is Text)
            &&& key == "scopes"@ ==> (r is Ok <==> text_list(value) is Some)
            &&& key == "tools"@ ==> (r is Ok <==> filters_of(value) is Ok)
            &&& key == "resilience"@ ==> (r is Ok <==> rate_limit_of(value) is Ok)
            &&& key == "auth_flow"@ && value == JsonView::Text("client_credentials"@) ==> r is Ok
            &&& key == "auth_flow"@ ==> (value matches JsonView::Text(s) ==> (s
                != "client_credentials"@ ==> r is Err))
            &&& !is_setting(key) ==> r == Err::<ConfigView, FaultView>(FaultView::Unknown(key))
        }),
{
    settings_differ();
    assert(ms.push((key, value)).drop_last() =~= ms);
}

/// The lists of the section `[tools]` are read as they stand, and both must be there.
pub proof fn tool_filters_are_read(allow: JsonView, deny: JsonView)
    requires
        text_list(allow) is Some,
        text_list(deny) is Some,
    ensures
        filters_of(JsonView::Object(seq![("allow"@, allow), ("deny"@, deny)])) == Ok::<
            (Seq<Seq<char>>, Seq<Seq<char>>),
            FaultView,
        >((text_list(allow)->0, text_list(deny)->0)),
        filters_of(JsonView::Object(seq![("allow"@, allow)])) is Err,
        filters_of(JsonView::Object(seq![("deny"@, deny)])) is Err,
{
    reveal_strlit("allow");
    reveal_strlit("deny");
    assert("allow"@.len() == 5 && "deny"@.len() == 4);
    reveal_with_fuel(filters_so_far, 3);
    let one = seq![("allow"@, allow)];
    let two = seq![("allow"@, allow), ("deny"@, deny)];
    let other = seq![("deny"@, deny)];
    let none = Seq::<(Seq<char>, JsonView)>::empty();
    assert(one.drop_last() =~= none);
    assert(two.drop_last() =~= one);
    assert(other.drop_last() =~= none);
}

/// Where no file is read, every variable can be read and what comes out is valid, it
/// is loaded; a variable that cannot be read is named with its value.
pub proof fn valid_layers_are_loaded(
    r: Result<Config, ConfigError>,
    env: EnvOverrides,
    cli: CliOverrides,
    ua: Seq<char>,
)
    requires
        is_load_result(r, None, env, cli),
    ensures
        opt_view(env.sandbox) matches Some(v) ==> (env_bool(v) is None ==> (r matches Err(
            ConfigError::InvalidEnv { var, value },
        ) && var@ == "ALLEGRO_MCP_SANDBOX"@ && value@ == v)),
        env.sandbox is None ==> (opt_view(env.auth_flow) matches Some(v) ==> (env_flow(v) is None
            ==> (r matches Err(ConfigError::InvalidEnv { var, value }) && var@
            == "ALLEGRO_MCP_AUTH_FLOW"@ && value@ == v))),
        env.sandbox is None && env.auth_flow is None ==> (opt_view(env.rate_limit) matches Some(v)
            ==> (env_rate(v) is None ==> (r matches Err(ConfigError::InvalidEnv { var, value })
            && var@ == "ALLEGRO_MCP_RATE_LIMIT"@ && value@ == v))),
        env.sandbox is None && env.auth_flow is None && env.rate_limit is None
            && env.user_agent is None && cli.user_agent is None ==> r is Ok,
        env.sandbox is None && env.auth_flow is None && env.rate_limit is None && opt_view(
            cli.user_agent,
        ) == Some(ua) ==> (r is Ok <==> user_agent_fault(trimmed(trimmed(ua))) is None),
{
    let c = merged(default_config(), env, cli);
    assert(c.scopes =~= Seq::<Seq<char>>::empty());
    assert(first_bad_scope(c.scopes, 0) is None);
}

/// A documentation address has the scheme `https` or `http` and something behind it.
pub proof fn both_schemes_are_accepted(rest: Seq<char>, url: Seq<char>)
    ensures
        after_scheme("https://"@ + rest) == Some(rest),
        after_scheme("http://"@ + rest) == Some(rest),
        after_scheme(url) matches Some(tail) ==> url == "https://"@ + tail || url == "http://"@
            + tail,
{
    reveal_strlit("https://");
    reveal_strlit("http://");
    let long = "https://"@;
    let short = "http://"@;
    assert((long + rest).take(long.len() as int) =~= long);
    assert((long + rest).skip(long.len() as int) =~= rest);
    assert((short + rest).take(short.len() as int) =~= short);
    assert((short + rest).skip(short.len() as int) =~= rest);
    if (short + rest).len() >= long.len() {
        assert((short + rest).take(long.len() as int)[4] == ':');
        assert(long[4] == 's');
    }
    if has_prefix(url, long) {
        assert(url =~= long + url.skip(long.len() as int));
    }
    if has_prefix(url, short) {
        assert(url =~= short + url.skip(short.len() as int));
    }
}

} // verus!
