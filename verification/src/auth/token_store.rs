//! The versioned token file of the device flow: what it holds, how it is read
//! and what is written to it. The file itself is read and written elsewhere.

use vstd::prelude::*;

use super::device::{DeviceAuthorizationResponse, DeviceAuthorizationView};
use super::{clone_opt, AuthError, TokenResponse, TokenView};
use crate::json::{
    field, is_record, json_of_bytes, lookup_at, members_view, number_as_u64, opt_json, optional_text,
    pretty_json, read_optional_text, read_required_text, required_text, round_trips,
    unreserved_name, Json, JsonView, RESERVED_PREFIX,
};
use crate::schema::cache::{join_path, path_in};
use crate::text::{decimal, has_prefix, opt_view, quote, quoted, str_eq};
use crate::time::epoch_second;

verus! {

broadcast use vstd::string::group_string_axioms;

/// The format version that is written and understood.
pub const STORE_FORMAT_VERSION: u64 = 1;

/// Why there is no place for the token file.
pub const NO_CONFIG_DIR: &'static str =
    "cannot determine the user config directory (dirs::config_dir() returned None)";

/// A granted pair of tokens.
#[derive(Debug, PartialEq, Eq)]
pub struct StoredTokens {
    pub access_token: String,
    /// Can be used once; what is stored is the only copy.
    pub refresh_token: Option<String>,
    /// When the access token expires, in seconds since the Unix epoch.
    pub expires_at_epoch: u64,
    pub scope: Option<String>,
    /// When the pair was stored, in seconds since the Unix epoch.
    pub updated_at_epoch: u64,
}

/// A device authorization that waits for the user.
#[derive(Debug, PartialEq, Eq)]
pub struct PendingDeviceGrant {
    pub device_code: String,
    pub user_code: String,
    pub verification_uri: String,
    pub verification_uri_complete: Option<String>,
    pub interval_secs: u64,
    /// When the codes expire, in seconds since the Unix epoch.
    pub expires_at_epoch: u64,
}

/// What a token file holds.
#[derive(Debug, PartialEq, Eq)]
pub struct StoredState {
    pub tokens: Option<StoredTokens>,
    pub pending: Option<PendingDeviceGrant>,
}

/// What a stored pair is.
pub struct StoredTokensView {
    pub access_token: Seq<char>,
    pub refresh_token: Option<Seq<char>>,
    pub expires_at_epoch: u64,
    pub scope: Option<Seq<char>>,
    pub updated_at_epoch: u64,
}

/// What a pending authorization is.
pub struct PendingView {
    pub device_code: Seq<char>,
    pub user_code: Seq<char>,
    pub verification_uri: Seq<char>,
    pub verification_uri_complete: Option<Seq<char>>,
    pub interval_secs: u64,
    pub expires_at_epoch: u64,
}

/// What a stored state is.
pub struct StateView {
    pub tokens: Option<StoredTokensView>,
    pub pending: Option<PendingView>,
}

impl View for StoredTokens {
    type V = StoredTokensView;

    open spec fn view(&self) -> StoredTokensView {
        StoredTokensView {
            access_token: self.access_token@,
            refresh_token: opt_view(self.refresh_token),
            expires_at_epoch: self.expires_at_epoch,
            scope: opt_view(self.scope),
            updated_at_epoch: self.updated_at_epoch,
        }
    }
}

impl View for PendingDeviceGrant {
    type V = PendingView;

    open spec fn view(&self) -> PendingView {
        PendingView {
            device_code: self.device_code@,
            user_code: self.user_code@,
            verification_uri: self.verification_uri@,
            verification_uri_complete: opt_view(self.verification_uri_complete),
            interval_secs: self.interval_secs,
            expires_at_epoch: self.expires_at_epoch,
        }
    }
}

impl View for StoredState {
    type V = StateView;

    open spec fn view(&self) -> StateView {
        StateView {
            tokens: match self.tokens {
                Some(t) => Some(t@),
                None => None,
            },
            pending: match self.pending {
                Some(p) => Some(p@),
                None => None,
            },
        }
    }
}

impl Default for StoredState {
    fn default() -> (r: StoredState)
        ensures
            r.tokens is None,
            r.pending is None,
    {
        StoredState { tokens: None, pending: None }
    }
}

impl Clone for StoredTokens {
    fn clone(&self) -> (r: StoredTokens)
        ensures
            r@ == self@,
    {
        StoredTokens {
            access_token: self.access_token.clone(),
            refresh_token: clone_opt(&self.refresh_token),
            expires_at_epoch: self.expires_at_epoch,
            scope: clone_opt(&self.scope),
            updated_at_epoch: self.updated_at_epoch,
        }
    }
}

impl Clone for PendingDeviceGrant {
    fn clone(&self) -> (r: PendingDeviceGrant)
        ensures
            r@ == self@,
    {
        PendingDeviceGrant {
            device_code: self.device_code.clone(),
            user_code: self.user_code.clone(),
            verification_uri: self.verification_uri.clone(),
            verification_uri_complete: clone_opt(&self.verification_uri_complete),
            interval_secs: self.interval_secs,
            expires_at_epoch: self.expires_at_epoch,
        }
    }
}

impl Clone for StoredState {
    fn clone(&self) -> (r: StoredState)
        ensures
            r@ == self@,
    {
        StoredState {
            tokens: match &self.tokens {
                Some(t) => Some(t.clone()),
                None => None,
            },
            pending: match &self.pending {
                Some(p) => Some(p.clone()),
                None => None,
            },
        }
    }
}

/// The environment label of a token file.
pub open spec fn label(sandbox: bool) -> Seq<char> {
    if sandbox {
        "sandbox"@
    } else {
        "production"@
    }
}

/// The environment label of a token file.
pub fn env_label(sandbox: bool) -> (r: &'static str)
    ensures
        r@ == label(sandbox),
{
    if sandbox {
        "sandbox"
    } else {
        "production"
    }
}

/// The whole seconds since the Unix epoch, 0 when the clock stands before it.
/// Nothing is claimed of the reading: it depends on when the call is made, and
/// any number is possible.
pub fn epoch_now() -> u64 {
    epoch_second()
}

// ── File format ─────────────────────────────────────────────────────────────

/// A number field that must be there.
pub open spec fn required_u64(f: Option<JsonView>) -> Option<u64> {
    match f {
        Some(j) => match j.as_u64() {
            Some(n) => Some(n as u64),
            None => None,
        },
        None => None,
    }
}

fn read_required_u64(f: Option<&Json>) -> (r: Option<u64>)
    ensures
        r == required_u64(opt_json(f)),
{
    match f {
        Some(j) => j.as_u64(),
        None => None,
    }
}

/// The stored pair that a JSON value denotes.
pub open spec fn tokens_of_json(j: JsonView) -> Option<StoredTokensView> {
    let access_token = required_text(field(j, "access_token"@, 0));
    let refresh_token = optional_text(field(j, "refresh_token"@, 1));
    let expires_at_epoch = required_u64(field(j, "expires_at_epoch"@, 2));
    let scope = optional_text(field(j, "scope"@, 3));
    let updated_at_epoch = required_u64(field(j, "updated_at_epoch"@, 4));
    if is_record(j, 5, 5) && access_token is Some && refresh_token is Some && expires_at_epoch is Some
        && scope is Some && updated_at_epoch is Some {
        Some(
            StoredTokensView {
                access_token: access_token->0,
                refresh_token: refresh_token->0,
                expires_at_epoch: expires_at_epoch->0,
                scope: scope->0,
                updated_at_epoch: updated_at_epoch->0,
            },
        )
    } else {
        None
    }
}

/// The pending authorization that a JSON value denotes.
pub open spec fn pending_of_json(j: JsonView) -> Option<PendingView> {
    let device_code = required_text(field(j, "device_code"@, 0));
    let user_code = required_text(field(j, "user_code"@, 1));
    let uri = required_text(field(j, "verification_uri"@, 2));
    let complete = optional_text(field(j, "verification_uri_complete"@, 3));
    let interval_secs = required_u64(field(j, "interval_secs"@, 4));
    let expires_at_epoch = required_u64(field(j, "expires_at_epoch"@, 5));
    if is_record(j, 6, 6) && device_code is Some && user_code is Some && uri is Some && complete is Some
        && interval_secs is Some && expires_at_epoch is Some {
        Some(
            PendingView {
                device_code: device_code->0,
                user_code: user_code->0,
                verification_uri: uri->0,
                verification_uri_complete: complete->0,
                interval_secs: interval_secs->0,
                expires_at_epoch: expires_at_epoch->0,
            },
        )
    } else {
        None
    }
}

/// What a token file says.
pub struct EnvelopeView {
    pub version: u64,
    pub env: Seq<char>,
    pub tokens: Option<StoredTokensView>,
    pub pending: Option<PendingView>,
}

/// What a token file says, read from its JSON value: every field may be
/// missing, the two parts of the state may be null, and names that are not
/// known do not count.
pub open spec fn envelope_of_json(j: JsonView) -> Option<EnvelopeView> {
    let version = match field(j, "version"@, 0) {
        None => Some(0u64),
        Some(v) => required_u64(Some(v)),
    };
    let env = match field(j, "env"@, 1) {
        None => Some(Seq::empty()),
        Some(v) => required_text(Some(v)),
    };
    let tokens: Option<Option<StoredTokensView>> = match field(j, "tokens"@, 2) {
        None => Some(None),
        Some(JsonView::Null) => Some(None),
        Some(v) => match tokens_of_json(v) {
            Some(t) => Some(Some(t)),
            None => None,
        },
    };
    let pending: Option<Option<PendingView>> = match field(j, "pending_device_grant"@, 3) {
        None => Some(None),
        Some(JsonView::Null) => Some(None),
        Some(v) => match pending_of_json(v) {
            Some(p) => Some(Some(p)),
            None => None,
        },
    };
    if is_record(j, 0, 4) && version is Some && env is Some && tokens is Some && pending is Some {
        Some(
            EnvelopeView {
                version: version->0,
                env: env->0,
                tokens: tokens->0,
                pending: pending->0,
            },
        )
    } else {
        None
    }
}

/// A token file as read.
struct StoreEnvelope {
    version: u64,
    env: String,
    state: StoredState,
}

impl View for StoreEnvelope {
    type V = EnvelopeView;

    closed spec fn view(&self) -> EnvelopeView {
        EnvelopeView {
            version: self.version,
            env: self.env@,
            tokens: self.state@.tokens,
            pending: self.state@.pending,
        }
    }
}

fn read_tokens(j: &Json) -> (r: Option<StoredTokens>)
    ensures
        match r {
            Some(t) => tokens_of_json(j@) == Some(t@),
            None => tokens_of_json(j@) is None,
        },
{
    if !j.can_be_record(5, 5) {
        return None;
    }
    let access_token = read_required_text(j.record_field("access_token", 0));
    let refresh_token = read_optional_text(j.record_field("refresh_token", 1));
    let expires_at_epoch = read_required_u64(j.record_field("expires_at_epoch", 2));
    let scope = read_optional_text(j.record_field("scope", 3));
    let updated_at_epoch = read_required_u64(j.record_field("updated_at_epoch", 4));
    match (access_token, refresh_token, expires_at_epoch, scope, updated_at_epoch) {
        (
            Some(access_token),
            Some(refresh_token),
            Some(expires_at_epoch),
            Some(scope),
            Some(updated_at_epoch),
        ) => Some(
            StoredTokens { access_token, refresh_token, expires_at_epoch, scope, updated_at_epoch },
        ),
        _ => None,
    }
}

fn read_pending(j: &Json) -> (r: Option<PendingDeviceGrant>)
    ensures
        match r {
            Some(p) => pending_of_json(j@) == Some(p@),
            None => pending_of_json(j@) is None,
        },
{
    if !j.can_be_record(6, 6) {
        return None;
    }
    let device_code = read_required_text(j.record_field("device_code", 0));
    let user_code = read_required_text(j.record_field("user_code", 1));
    let uri = read_required_text(j.record_field("verification_uri", 2));
    let complete = read_optional_text(j.record_field("verification_uri_complete", 3));
    let interval_secs = read_required_u64(j.record_field("interval_secs", 4));
    let expires_at_epoch = read_required_u64(j.record_field("expires_at_epoch", 5));
    match (device_code, user_code, uri, complete, interval_secs, expires_at_epoch) {
        (
            Some(device_code),
            Some(user_code),
            Some(verification_uri),
            Some(verification_uri_complete),
            Some(interval_secs),
            Some(expires_at_epoch),
        ) => Some(
            PendingDeviceGrant {
                device_code,
                user_code,
                verification_uri,
                verification_uri_complete,
                interval_secs,
                expires_at_epoch,
            },
        ),
        _ => None,
    }
}

fn read_envelope(j: &Json) -> (r: Option<StoreEnvelope>)
    ensures
        match r {
            Some(e) => envelope_of_json(j@) == Some(e@),
            None => envelope_of_json(j@) is None,
        },
{
    if !j.can_be_record(0, 4) {
        return None;
    }
    let version: u64 = match j.record_field("version", 0) {
        None => 0,
        Some(v) => match v.as_u64() {
            Some(n) => n,
            None => return None,
        },
    };
    let env: String = match j.record_field("env", 1) {
        None => String::new(),
        Some(v) => match v.as_str() {
            Some(s) => s.to_owned(),
            None => return None,
        },
    };
    let tokens: Option<StoredTokens> = match j.record_field("tokens", 2) {
        None => None,
        Some(Json::Null) => None,
        Some(v) => match read_tokens(v) {
            Some(t) => Some(t),
            None => return None,
        },
    };
    let pending: Option<PendingDeviceGrant> = match j.record_field("pending_device_grant", 3) {
        None => None,
        Some(Json::Null) => None,
        Some(v) => match read_pending(v) {
            Some(p) => Some(p),
            None => return None,
        },
    };
    Some(StoreEnvelope { version, env, state: StoredState { tokens, pending } })
}

/// The JSON value of an optional text.
pub open spec fn text_or_null(o: Option<Seq<char>>) -> JsonView {
    match o {
        Some(s) => JsonView::Text(s),
        None => JsonView::Null,
    }
}

/// The JSON value of a number.
pub open spec fn number(n: u64) -> JsonView {
    JsonView::Number(decimal(n as nat))
}

/// The JSON value of a stored pair.
pub open spec fn tokens_json(t: StoredTokensView) -> JsonView {
    JsonView::Object(
        seq![
            ("access_token"@, JsonView::Text(t.access_token)),
            ("refresh_token"@, text_or_null(t.refresh_token)),
            ("expires_at_epoch"@, number(t.expires_at_epoch)),
            ("scope"@, text_or_null(t.scope)),
            ("updated_at_epoch"@, number(t.updated_at_epoch)),
        ],
    )
}

/// The JSON value of a pending authorization.
pub open spec fn pending_json(p: PendingView) -> JsonView {
    JsonView::Object(
        seq![
            ("device_code"@, JsonView::Text(p.device_code)),
            ("user_code"@, JsonView::Text(p.user_code)),
            ("verification_uri"@, JsonView::Text(p.verification_uri)),
            ("verification_uri_complete"@, text_or_null(p.verification_uri_complete)),
            ("interval_secs"@, number(p.interval_secs)),
            ("expires_at_epoch"@, number(p.expires_at_epoch)),
        ],
    )
}

/// The JSON value of a token file.
pub open spec fn envelope_json(sandbox: bool, s: StateView) -> JsonView {
    JsonView::Object(
        seq![
            ("version"@, number(STORE_FORMAT_VERSION)),
            ("env"@, JsonView::Text(label(sandbox))),
            (
                "tokens"@,
                match s.tokens {
                    Some(t) => tokens_json(t),
                    None => JsonView::Null,
                },
            ),
            (
                "pending_device_grant"@,
                match s.pending {
                    Some(p) => pending_json(p),
                    None => JsonView::Null,
                },
            ),
        ],
    )
}

proof fn number_reads_back(n: u64)
    ensures
        required_u64(Some(number(n))) == Some(n),
        round_trips(number(n), 0),
        round_trips(number(n), 98),
        round_trips(number(n), 99),
{
    number_as_u64(n);
    assert(number(n) == JsonView::Number(decimal(n as nat)));
}

proof fn names_are_unreserved(ms: Seq<(Seq<char>, JsonView)>)
    requires
        forall|i: int|
            0 <= i < ms.len() ==> (#[trigger] ms[i]).0.len() > 0 && ms[i].0[0] != '$',
    ensures
        forall|i: int|
            0 <= i < ms.len() ==> !has_prefix((#[trigger] ms[i]).0, RESERVED_PREFIX@),
{
    assert forall|i: int| 0 <= i < ms.len() implies !has_prefix(
        (#[trigger] ms[i]).0,
        RESERVED_PREFIX@,
    ) by {
        unreserved_name(ms[i].0);
    }
}

proof fn tokens_read_back(t: StoredTokensView)
    ensures
        tokens_of_json(tokens_json(t)) == Some(t),
        round_trips(tokens_json(t), 99),
{
    reveal_strlit("access_token");
    reveal_strlit("refresh_token");
    reveal_strlit("expires_at_epoch");
    reveal_strlit("scope");
    reveal_strlit("updated_at_epoch");
    let ms = tokens_json(t)->Object_0;
    assert(ms[0].0.len() == 12);
    assert(ms[1].0.len() == 13);
    assert(ms[2].0.len() == 16 && ms[2].0[0] == 'e');
    assert(ms[3].0.len() == 5);
    assert(ms[4].0.len() == 16 && ms[4].0[0] == 'u');
    lookup_at(ms, "access_token"@, 0);
    lookup_at(ms, "refresh_token"@, 1);
    lookup_at(ms, "expires_at_epoch"@, 2);
    lookup_at(ms, "scope"@, 3);
    lookup_at(ms, "updated_at_epoch"@, 4);
    number_reads_back(t.expires_at_epoch);
    number_reads_back(t.updated_at_epoch);
    names_are_unreserved(ms);
    assert(round_trips(tokens_json(t), 99)) by {
        assert forall|i: int| 0 <= i < ms.len() implies round_trips((#[trigger] ms[i]).1, 98) by {}
    }
}

proof fn pending_reads_back(p: PendingView)
    ensures
        pending_of_json(pending_json(p)) == Some(p),
        round_trips(pending_json(p), 99),
{
    reveal_strlit("device_code");
    reveal_strlit("user_code");
    reveal_strlit("verification_uri");
    reveal_strlit("verification_uri_complete");
    reveal_strlit("interval_secs");
    reveal_strlit("expires_at_epoch");
    let ms = pending_json(p)->Object_0;
    assert(ms[0].0.len() == 11);
    assert(ms[1].0.len() == 9);
    assert(ms[2].0.len() == 16 && ms[2].0[0] == 'v');
    assert(ms[3].0.len() == 25);
    assert(ms[4].0.len() == 13);
    assert(ms[5].0.len() == 16 && ms[5].0[0] == 'e');
    lookup_at(ms, "device_code"@, 0);
    lookup_at(ms, "user_code"@, 1);
    lookup_at(ms, "verification_uri"@, 2);
    lookup_at(ms, "verification_uri_complete"@, 3);
    lookup_at(ms, "interval_secs"@, 4);
    lookup_at(ms, "expires_at_epoch"@, 5);
    number_reads_back(p.interval_secs);
    number_reads_back(p.expires_at_epoch);
    names_are_unreserved(ms);
    assert(round_trips(pending_json(p), 99)) by {
        assert forall|i: int| 0 <= i < ms.len() implies round_trips((#[trigger] ms[i]).1, 98) by {}
    }
}

/// A token file says what was put into it: reading the JSON value of a state
/// gives the version, the environment and the state back.
pub proof fn envelope_reads_back(sandbox: bool, s: StateView)
    ensures
        envelope_of_json(envelope_json(sandbox, s)) == Some(
            EnvelopeView {
                version: STORE_FORMAT_VERSION,
                env: label(sandbox),
                tokens: s.tokens,
                pending: s.pending,
            },
        ),
        round_trips(envelope_json(sandbox, s), 100),
{
    reveal_strlit("version");
    reveal_strlit("env");
    reveal_strlit("tokens");
    reveal_strlit("pending_device_grant");
    let ms = envelope_json(sandbox, s)->Object_0;
    assert(ms[0].0.len() == 7);
    assert(ms[1].0.len() == 3);
    assert(ms[2].0.len() == 6);
    assert(ms[3].0.len() == 20);
    lookup_at(ms, "version"@, 0);
    lookup_at(ms, "env"@, 1);
    lookup_at(ms, "tokens"@, 2);
    lookup_at(ms, "pending_device_grant"@, 3);
    number_reads_back(STORE_FORMAT_VERSION);
    if let Some(t) = s.tokens {
        tokens_read_back(t);
    }
    if let Some(p) = s.pending {
        pending_reads_back(p);
    }
    names_are_unreserved(ms);
    assert(round_trips(envelope_json(sandbox, s), 100)) by {
        assert forall|i: int| 0 <= i < ms.len() implies round_trips((#[trigger] ms[i]).1, 99) by {}
    }
}

// ── The store ───────────────────────────────────────────────────────────────

/// What reading a token file comes to.
pub enum LoadView {
    State(StateView),
    /// The file is not a token file; the text says why.
    Unparsable(Seq<char>),
    /// The file has another format version.
    Version(u64),
    /// The file names an environment that does not exist.
    UnknownEnv(Seq<char>),
    /// The file belongs to the other environment.
    Mismatch,
}

/// A state without tokens and without a pending authorization.
pub open spec fn empty_state() -> StateView {
    StateView { tokens: None, pending: None }
}

/// What reading a token file comes to. A file that is missing is an empty
/// state. The version is looked at first, then the environment.
pub open spec fn load_view(sandbox: bool, contents: Option<Seq<u8>>) -> LoadView {
    match contents {
        None => LoadView::State(empty_state()),
        Some(bytes) => match json_of_bytes(bytes) {
            Err(e) => LoadView::Unparsable(e),
            Ok(j) => match envelope_of_json(j) {
                None => LoadView::Unparsable("unexpected shape"@),
                Some(e) => if e.version != STORE_FORMAT_VERSION {
                    LoadView::Version(e.version)
                } else if e.env != label(true) && e.env != label(false) {
                    LoadView::UnknownEnv(e.env)
                } else if e.env != label(sandbox) {
                    LoadView::Mismatch
                } else {
                    LoadView::State(StateView { tokens: e.tokens, pending: e.pending })
                },
            },
        },
    }
}

/// Whether `e` is the error for what reading the file at `path` came to.
pub open spec fn is_load_error(e: AuthError, path: Seq<char>, sandbox: bool, v: LoadView) -> bool {
    match v {
        LoadView::State(_) => false,
        LoadView::Unparsable(why) => e matches AuthError::StoreIo(m) && m@ == path
            + ": unparsable token store: "@ + why,
        LoadView::Version(n) => e matches AuthError::StoreVersion { found } && found == n,
        LoadView::UnknownEnv(env) => e matches AuthError::StoreIo(m) && m@ == path
            + ": unknown environment label "@ + quoted(env) + " in token store"@,
        LoadView::Mismatch => e matches AuthError::EnvMismatch { stored, current } && stored@
            == label(!sandbox) && current@ == label(sandbox),
    }
}

/// What optional contents are.
pub open spec fn opt_contents(c: Option<&[u8]>) -> Option<Seq<u8>> {
    match c {
        Some(b) => Some(b@),
        None => None,
    }
}

/// Whether `bytes` are the contents of a token file with the state `s`: they
/// are its JSON text, and reading them gives the state back.
pub open spec fn holds(bytes: Seq<u8>, sandbox: bool, s: StateView) -> bool {
    &&& bytes == pretty_json(envelope_json(sandbox, s))
    &&& load_view(sandbox, Some(bytes)) == LoadView::State(s)
}

/// Whether `r` are the contents of the file at `path` with another pending
/// authorization, or the error of reading the old ones.
pub open spec fn is_rewritten(
    r: Result<Vec<u8>, AuthError>,
    path: Seq<char>,
    sandbox: bool,
    contents: Option<Seq<u8>>,
    pending: Option<PendingView>,
) -> bool {
    match (r, load_view(sandbox, contents)) {
        (Ok(bytes), LoadView::State(s)) => holds(
            bytes@,
            sandbox,
            (StateView { tokens: s.tokens, pending }),
        ),
        (Err(e), v) => is_load_error(e, path, sandbox, v),
        (Ok(_), _) => false,
    }
}

/// The sum, no more than the largest number there is.
pub open spec fn saturating_sum(a: u64, b: u64) -> u64 {
    if a + b > u64::MAX {
        u64::MAX
    } else {
        (a + b) as u64
    }
}

/// The pair that is stored for a token response at second `now`.
pub open spec fn granted(t: TokenView, effective_expires_in: u64, now: u64) -> StoredTokensView {
    StoredTokensView {
        access_token: t.access_token,
        refresh_token: t.refresh_token,
        expires_at_epoch: saturating_sum(now, effective_expires_in),
        scope: t.scope,
        updated_at_epoch: now,
    }
}

/// The pending authorization that is stored for an answer at second `now`.
pub open spec fn awaited(a: DeviceAuthorizationView, now: u64) -> PendingView {
    PendingView {
        device_code: a.device_code,
        user_code: a.user_code,
        verification_uri: a.verification_uri,
        verification_uri_complete: a.verification_uri_complete,
        interval_secs: a.interval,
        expires_at_epoch: saturating_sum(now, a.expires_in),
    }
}

/// A token file: where it is and which environment it belongs to.
#[derive(Debug)]
pub struct TokenStore {
    path: String,
    sandbox: bool,
}

impl Clone for TokenStore {
    fn clone(&self) -> (r: TokenStore)
        ensures
            r.place() == self.place(),
            r.is_sandbox() == self.is_sandbox(),
    {
        TokenStore { path: self.path.clone(), sandbox: self.sandbox }
    }
}

fn text_json(o: &Option<String>) -> (r: Json)
    ensures
        r@ == text_or_null(opt_view(*o)),
{
    match o {
        Some(s) => Json::text(s.as_str()),
        None => Json::Null,
    }
}

fn write_tokens(t: &StoredTokens) -> (r: Json)
    ensures
        r@ == tokens_json(t@),
{
    broadcast use crate::json::object_view;

    let mut ms: Vec<(String, Json)> = Vec::new();
    ms.push(("access_token".to_owned(), Json::text(t.access_token.as_str())));
    ms.push(("refresh_token".to_owned(), text_json(&t.refresh_token)));
    ms.push(("expires_at_epoch".to_owned(), Json::number(t.expires_at_epoch)));
    ms.push(("scope".to_owned(), text_json(&t.scope)));
    ms.push(("updated_at_epoch".to_owned(), Json::number(t.updated_at_epoch)));
    assert(members_view(ms@) =~= tokens_json(t@)->Object_0);
    Json::Object(ms)
}

fn write_pending(p: &PendingDeviceGrant) -> (r: Json)
    ensures
        r@ == pending_json(p@),
{
    broadcast use crate::json::object_view;

    let mut ms: Vec<(String, Json)> = Vec::new();
    ms.push(("device_code".to_owned(), Json::text(p.device_code.as_str())));
    ms.push(("user_code".to_owned(), Json::text(p.user_code.as_str())));
    ms.push(("verification_uri".to_owned(), Json::text(p.verification_uri.as_str())));
    ms.push(("verification_uri_complete".to_owned(), text_json(&p.verification_uri_complete)));
    ms.push(("interval_secs".to_owned(), Json::number(p.interval_secs)));
    ms.push(("expires_at_epoch".to_owned(), Json::number(p.expires_at_epoch)));
    assert(members_view(ms@) =~= pending_json(p@)->Object_0);
    Json::Object(ms)
}

/// The contents of a token file of an environment with a state.
pub fn write_state(sandbox: bool, state: &StoredState) -> (r: Vec<u8>)
    ensures
        holds(r@, sandbox, state@),
{
    broadcast use crate::json::object_view;

    let mut ms: Vec<(String, Json)> = Vec::new();
    ms.push(("version".to_owned(), Json::number(STORE_FORMAT_VERSION)));
    ms.push(("env".to_owned(), Json::text(env_label(sandbox))));
    ms.push(
        (
            "tokens".to_owned(),
            match &state.tokens {
                Some(t) => write_tokens(t),
                None => Json::Null,
            },
        ),
    );
    ms.push(
        (
            "pending_device_grant".to_owned(),
            match &state.pending {
                Some(p) => write_pending(p),
                None => Json::Null,
            },
        ),
    );
    assert(members_view(ms@) =~= envelope_json(sandbox, state@)->Object_0);
    let j: Json = Json::Object(ms);
    proof {
        envelope_reads_back(sandbox, state@);
    }
    let bytes: Vec<u8> = j.to_pretty_bytes();
    assert(state@ == StateView { tokens: state@.tokens, pending: state@.pending });
    bytes
}

impl TokenStore {
    /// Where the file is.
    pub closed spec fn place(self) -> Seq<char> {
        self.path@
    }

    /// Which environment the file belongs to.
    pub closed spec fn is_sandbox(self) -> bool {
        self.sandbox
    }

    /// Where the file is unless another place is named: `tokens.json` in the
    /// subdirectory `allegro-mcp` of the user's configuration directory.
    pub fn default_path(config_dir: Option<&str>) -> (r: Result<String, AuthError>)
        ensures
            match config_dir {
                Some(dir) => r matches Ok(p) && p@ == path_in(
                    path_in(dir@, "allegro-mcp"@),
                    "tokens.json"@,
                ),
                None => r matches Err(AuthError::StoreIo(m)) && m@ == NO_CONFIG_DIR@,
            },
    {
        match config_dir {
            Some(dir) => Ok(join_path(join_path(dir, "allegro-mcp").as_str(), "tokens.json")),
            None => Err(AuthError::StoreIo(NO_CONFIG_DIR.to_owned())),
        }
    }

    /// The file at `path`, for the environment that `sandbox` names.
    pub fn new(path: String, sandbox: bool) -> (r: TokenStore)
        ensures
            r.place() == path@,
            r.is_sandbox() == sandbox,
    {
        TokenStore { path, sandbox }
    }

    /// Which environment the file belongs to.
    pub fn sandbox(&self) -> (r: bool)
        ensures
            r == self.is_sandbox(),
    {
        self.sandbox
    }

    /// Where the file is.
    pub fn path(&self) -> (r: &str)
        ensures
            r@ == self.place(),
    {
        self.path.as_str()
    }

    /// The error for a file operation that failed with the message `e`.
    pub fn io_error(&self, e: &str) -> (r: AuthError)
        ensures
            r matches AuthError::StoreIo(m) && m@ == self.place() + ": "@ + e@,
    {
        AuthError::StoreIo(self.path.clone().concat(": ").concat(e))
    }

    /// The state that the contents of the file hold, `None` for a missing
    /// file. Contents of another shape, version or environment are an error.
    pub fn load(&self, contents: Option<&[u8]>) -> (r: Result<StoredState, AuthError>)
        ensures
            match r {
                Ok(s) => load_view(self.is_sandbox(), opt_contents(contents)) == LoadView::State(
                    s@,
                ),
                Err(e) => is_load_error(
                    e,
                    self.place(),
                    self.is_sandbox(),
                    load_view(self.is_sandbox(), opt_contents(contents)),
                ),
            },
    {
        let bytes: &[u8] = match contents {
            Some(bytes) => bytes,
            None => {
                let state: StoredState = StoredState::default();
                assert(state@ == empty_state());
                return Ok(state);
            },
        };
        let j: Json = match Json::parse_bytes(bytes) {
            Ok(j) => j,
            Err(e) => return Err(
                AuthError::StoreIo(
                    self.path.clone().concat(": unparsable token store: ").concat(e.as_str()),
                ),
            ),
        };
        let envelope: StoreEnvelope = match read_envelope(&j) {
            Some(e) => e,
            None => return Err(
                AuthError::StoreIo(
                    self.path.clone().concat(": unparsable token store: ").concat(
                        "unexpected shape",
                    ),
                ),
            ),
        };
        if envelope.version != STORE_FORMAT_VERSION {
            return Err(AuthError::StoreVersion { found: envelope.version });
        }
        let env: &str = envelope.env.as_str();
        if !str_eq(env, "production") && !str_eq(env, "sandbox") {
            return Err(
                AuthError::StoreIo(
                    self.path.clone().concat(": unknown environment label ").concat(
                        quote(env).as_str(),
                    ).concat(" in token store"),
                ),
            );
        }
        if !str_eq(env, env_label(self.sandbox)) {
            return Err(
                AuthError::EnvMismatch {
                    stored: env.to_owned(),
                    current: env_label(self.sandbox).to_owned(),
                },
            );
        }
        Ok(envelope.state)
    }

    /// The contents of the file once a token response has been granted at
    /// second `now`: the granted pair, and no pending authorization.
    pub fn save_tokens_at(&self, pair: &TokenResponse, effective_expires_in: u64, now: u64) -> (r:
        Vec<u8>)
        ensures
            holds(
                r@,
                self.is_sandbox(),
                (StateView {
                    tokens: Some(granted(pair@, effective_expires_in, now)),
                    pending: None,
                }),
            ),
    {
        let state: StoredState = StoredState {
            tokens: Some(
                StoredTokens {
                    access_token: pair.access_token.clone(),
                    refresh_token: clone_opt(&pair.refresh_token),
                    expires_at_epoch: now.saturating_add(effective_expires_in),
                    scope: clone_opt(&pair.scope),
                    updated_at_epoch: now,
                },
            ),
            pending: None,
        };
        assert(state@ == (StateView {
            tokens: Some(granted(pair@, effective_expires_in, now)),
            pending: None,
        }));
        write_state(self.sandbox, &state)
    }

    /// The contents of the file once a token response has been granted now.
    pub fn save_tokens(&self, pair: &TokenResponse, effective_expires_in: u64) -> (r: Vec<u8>)
        ensures
            exists|now: u64|
                holds(
                    r@,
                    self.is_sandbox(),
                    (StateView {
                        tokens: Some(#[trigger] granted(pair@, effective_expires_in, now)),
                        pending: None,
                    }),
                ),
    {
        self.save_tokens_at(pair, effective_expires_in, epoch_now())
    }

    /// The contents of the file once a device authorization has begun at
    /// second `now`: the tokens that the old contents hold stay.
    pub fn save_pending_at(
        &self,
        contents: Option<&[u8]>,
        resp: &DeviceAuthorizationResponse,
        now: u64,
    ) -> (r: Result<Vec<u8>, AuthError>)
        ensures
            is_rewritten(
                r,
                self.place(),
                self.is_sandbox(),
                opt_contents(contents),
                Some(awaited(resp@, now)),
            ),
    {
        let existing: StoredState = match self.load(contents) {
            Ok(s) => s,
            Err(e) => return Err(e),
        };
        let ghost kept = existing@.tokens;
        let state: StoredState = StoredState {
            tokens: existing.tokens,
            pending: Some(
                PendingDeviceGrant {
                    device_code: resp.device_code.clone(),
                    user_code: resp.user_code.clone(),
                    verification_uri: resp.verification_uri.clone(),
                    verification_uri_complete: clone_opt(&resp.verification_uri_complete),
                    interval_secs: resp.interval,
                    expires_at_epoch: now.saturating_add(resp.expires_in),
                },
            ),
        };
        assert(state@ == (StateView { tokens: kept, pending: Some(awaited(resp@, now)) }));
        Ok(write_state(self.sandbox, &state))
    }

    /// The contents of the file once a device authorization has begun now.
    pub fn save_pending(&self, contents: Option<&[u8]>, resp: &DeviceAuthorizationResponse) -> (r:
        Result<Vec<u8>, AuthError>)
        ensures
            match (r, load_view(self.is_sandbox(), opt_contents(contents))) {
                (Ok(bytes), LoadView::State(s)) => exists|now: u64|
                    holds(
                        bytes@,
                        self.is_sandbox(),
                        (StateView {
                            tokens: s.tokens,
                            pending: Some(#[trigger] awaited(resp@, now)),
                        }),
                    ),
                (Err(e), v) => is_load_error(e, self.place(), self.is_sandbox(), v),
                (Ok(_), _) => false,
            },
    {
        self.save_pending_at(contents, resp, epoch_now())
    }

    /// The contents of the file without the pending authorization; the tokens
    /// that the old contents hold stay.
    pub fn clear_pending(&self, contents: Option<&[u8]>) -> (r: Result<Vec<u8>, AuthError>)
        ensures
            is_rewritten(r, self.place(), self.is_sandbox(), opt_contents(contents), None),
    {
        let existing: StoredState = match self.load(contents) {
            Ok(s) => s,
            Err(e) => return Err(e),
        };
        let ghost kept = existing@.tokens;
        let state: StoredState = StoredState { tokens: existing.tokens, pending: None };
        assert(state@ == (StateView { tokens: kept, pending: None }));
        Ok(write_state(self.sandbox, &state))
    }
}

/// Contents written for one environment are never taken for the other: reading
/// them there is a mismatch.
pub proof fn environments_do_not_mix(bytes: Seq<u8>, sandbox: bool, s: StateView)
    requires
        holds(bytes, sandbox, s),
    ensures
        load_view(!sandbox, Some(bytes)) == LoadView::Mismatch,
{
    reveal_strlit("sandbox");
    reveal_strlit("production");
    assert("sandbox"@.len() != "production"@.len());
}

/// A granted pair is stored with its access token, its refresh token and its
/// scope; it expires as many seconds later as it was given, and its age counts
/// from when it was granted.
pub proof fn granted_pair_is_stored_whole(t: TokenView, lifetime: u64, now: u64)
    requires
        now + lifetime <= u64::MAX,
    ensures
        granted(t, lifetime, now).access_token == t.access_token,
        granted(t, lifetime, now).refresh_token == t.refresh_token,
        granted(t, lifetime, now).scope == t.scope,
        granted(t, lifetime, now).expires_at_epoch == now + lifetime,
        granted(t, lifetime, now).updated_at_epoch == now,
{
}

/// Codes are stored as they were given, with the second at which they expire.
pub proof fn awaited_codes_are_stored_whole(a: DeviceAuthorizationView, now: u64)
    requires
        now + a.expires_in <= u64::MAX,
    ensures
        awaited(a, now).device_code == a.device_code,
        awaited(a, now).user_code == a.user_code,
        awaited(a, now).verification_uri == a.verification_uri,
        awaited(a, now).verification_uri_complete == a.verification_uri_complete,
        awaited(a, now).interval_secs == a.interval,
        awaited(a, now).expires_at_epoch == now + a.expires_in,
{
}

/// What was written to a token file is read back from it, and a file that is
/// missing holds nothing.
pub proof fn written_state_is_read_back(bytes: Seq<u8>, sandbox: bool, s: StateView)
    ensures
        holds(bytes, sandbox, s) ==> load_view(sandbox, Some(bytes)) == LoadView::State(s),
        load_view(sandbox, None) == LoadView::State(StateView { tokens: None, pending: None }),
{
}

/// A token file of another format version, or without one, is not read, whatever
/// else it holds.
pub proof fn other_versions_are_refused(
    bytes: Seq<u8>,
    sandbox: bool,
    j: JsonView,
    version: u64,
)
    requires
        json_of_bytes(bytes) == Ok::<JsonView, Seq<char>>(j),
        j is Object,
        j.get("version"@) == Some(JsonView::Number(decimal(version as nat))) || (j.get(
            "version"@,
        ) is None && version == 0),
        version != 1,
    ensures
        load_view(sandbox, Some(bytes)) !is State,
        load_view(sandbox, Some(bytes)) matches LoadView::Version(n) ==> n == version,
{
    number_as_u64(version);
}

/// A token file is read only for the environment that it names: `sandbox` or
/// `production`.
pub proof fn only_the_own_environment_is_read(bytes: Seq<u8>, sandbox: bool, j: JsonView)
    requires
        json_of_bytes(bytes) == Ok::<JsonView, Seq<char>>(j),
        j is Object,
        load_view(sandbox, Some(bytes)) is State,
    ensures
        j.get("env"@) == Some(
            JsonView::Text(
                if sandbox {
                    "sandbox"@
                } else {
                    "production"@
                },
            ),
        ),
        j.get("version"@) matches Some(v) && v.as_u64() == Some(1nat),
{
    reveal_strlit("sandbox");
    reveal_strlit("production");
    assert("sandbox"@.len() == 7 && "production"@.len() == 10);
}

/// A stored pair is read member by member.
pub proof fn stored_pair_is_read(
    j: JsonView,
    access_token: Seq<char>,
    refresh_token: Seq<char>,
    expires: u64,
    updated: u64,
)
    requires
        j is Object,
        j.get("access_token"@) == Some(JsonView::Text(access_token)),
        j.get("refresh_token"@) == Some(JsonView::Text(refresh_token)),
        j.get("expires_at_epoch"@) == Some(JsonView::Number(decimal(expires as nat))),
        j.get("scope"@) is None,
        j.get("updated_at_epoch"@) == Some(JsonView::Number(decimal(updated as nat))),
    ensures
        tokens_of_json(j) == Some(
            StoredTokensView {
                access_token,
                refresh_token: Some(refresh_token),
                expires_at_epoch: expires,
                scope: None,
                updated_at_epoch: updated,
            },
        ),
{
    number_as_u64(expires);
    number_as_u64(updated);
}

/// Storing codes, or removing them, leaves the tokens of the file as they were, and
/// what is read back from the new contents is just that; contents that cannot be
/// read are left alone.
pub proof fn tokens_stay_while_codes_come_and_go(
    r: Result<Vec<u8>, AuthError>,
    path: Seq<char>,
    sandbox: bool,
    contents: Option<Seq<u8>>,
    pending: Option<PendingView>,
)
    requires
        is_rewritten(r, path, sandbox, contents, pending),
    ensures
        r is Ok <==> load_view(sandbox, contents) is State,
        r matches Ok(bytes) ==> (load_view(sandbox, contents) matches LoadView::State(old_state)
            && load_view(sandbox, Some(bytes@)) == LoadView::State(
            StateView { tokens: old_state.tokens, pending },
        )),
{
}

/// The error of a token file of another environment names both, and that of another
/// version names the version.
pub proof fn errors_say_what_was_found(e: AuthError, path: Seq<char>, sandbox: bool, v: LoadView)
    requires
        is_load_error(e, path, sandbox, v),
    ensures
        v is Mismatch ==> (e matches AuthError::EnvMismatch { stored, current } && stored@ == (
        if sandbox {
            "production"@
        } else {
            "sandbox"@
        }) && current@ == (if sandbox {
            "sandbox"@
        } else {
            "production"@
        })),
        v matches LoadView::Version(n) ==> (e matches AuthError::StoreVersion { found } && found
            == n),
        v is Unparsable || v is UnknownEnv ==> (e matches AuthError::StoreIo(m) && m@.len()
            > path.len() && m@.take(path.len() as int) == path),
        v !is State,
{
    match v {
        LoadView::Unparsable(why) => {
            reveal_strlit(": unparsable token store: ");
            let m = path + ": unparsable token store: "@ + why;
            assert(": unparsable token store: "@.len() > 0);
            assert(m.take(path.len() as int) =~= path);
        },
        LoadView::UnknownEnv(env) => {
            reveal_strlit(": unknown environment label ");
            let m = path + ": unknown environment label "@ + quoted(env) + " in token store"@;
            assert(": unknown environment label "@.len() > 0);
            assert(m.take(path.len() as int) =~= path);
        },
        _ => {},
    }
}

} // verus!
