//! The command `auth device`: what it does, step by step. Each function here
//! takes what has happened and says what to do next.

use vstd::pervasive::unreached;
use vstd::prelude::*;

use crate::auth::device::{
    banner, banner_text, resumed_view, DeviceAuthorizationResponse, DeviceAuthorizationView,
    DeviceFlowError,
};
use crate::auth::token_store::{
    awaited, granted, holds, is_load_error, load_view, LoadView, StateView, TokenStore,
};
use crate::auth::{AuthError, TokenResponse};
use crate::cli::{device_failure, failure_text, login_lines, login_summary, resumable_grant};
use crate::text::{opt_view, views};

verus! {

broadcast use vstd::string::group_string_axioms;

/// What the command waits for.
#[derive(Debug)]
pub enum LoginState {
    /// What the token file holds.
    Reading,
    /// New codes.
    Asking,
    /// What the token file holds now that there are new codes.
    Rereading { grant: DeviceAuthorizationResponse },
    /// The new codes on their way into the file.
    SavingGrant { grant: DeviceAuthorizationResponse },
    /// The user's decision.
    Polling,
    /// The tokens on their way into the file.
    SavingTokens { expires_in: u64, scope: Option<String> },
}

/// What to do next.
#[derive(Debug)]
pub enum LoginStep {
    /// Read the token file, then go on with the state.
    Read(LoginState),
    /// Ask for new codes, then go on with the state.
    Ask(LoginState),
    /// Write these contents to the token file, then go on with the state.
    Write(Vec<u8>, LoginState),
    /// Show the banner, poll until the user has decided, then go on with the
    /// state.
    Poll { banner: String, grant: DeviceAuthorizationResponse, next: LoginState },
    /// Print these lines; the command has done its work.
    Done(Vec<String>),
    /// The command has failed.
    Failed(String),
}

/// What has happened since.
#[derive(Debug)]
pub enum LoginEvent {
    /// The contents of the token file, `None` when there is no such file.
    Contents(Result<Option<Vec<u8>>, AuthError>),
    /// The new codes.
    Codes(Result<DeviceAuthorizationResponse, AuthError>),
    /// The file was written.
    Written(Result<(), AuthError>),
    /// The user has decided.
    Polled(Result<TokenResponse, DeviceFlowError>),
}

/// Whether the event is what the state waits for.
pub open spec fn answers(state: LoginState, event: LoginEvent) -> bool {
    match state {
        LoginState::Reading => event is Contents,
        LoginState::Asking => event is Codes,
        LoginState::Rereading { .. } => event is Contents,
        LoginState::SavingGrant { .. } => event is Written,
        LoginState::Polling => event is Polled,
        LoginState::SavingTokens { .. } => event is Written,
    }
}

/// What optional contents are.
pub open spec fn contents_view(c: Option<Vec<u8>>) -> Option<Seq<u8>> {
    match c {
        Some(b) => Some(b@),
        None => None,
    }
}

/// The banner for the codes.
pub open spec fn banner_of(g: DeviceAuthorizationView, sandbox: bool, resumed: bool) -> Seq<char> {
    banner(
        g.user_code,
        g.verification_uri,
        g.verification_uri_complete,
        g.expires_in,
        g.interval,
        sandbox,
        resumed,
    )
}

/// Whether the command fails with the message of a file that cannot be used.
pub open spec fn fails_to_load(r: LoginStep, path: Seq<char>, sandbox: bool, v: LoadView) -> bool {
    r matches LoginStep::Failed(m) && exists|e: AuthError| #[trigger]
        is_load_error(e, path, sandbox, v) && m@ == e.text()
}

/// Whether `r` shows and polls the codes `g`.
pub open spec fn polls(
    r: LoginStep,
    g: DeviceAuthorizationView,
    sandbox: bool,
    resumed: bool,
) -> bool {
    r matches LoginStep::Poll { banner, grant, next } && grant@ == g && banner@ == banner_of(
        g,
        sandbox,
        resumed,
    ) && next is Polling
}

/// Whether `r` is what follows the event, at second `now`.
pub open spec fn follows(
    path: Seq<char>,
    sandbox: bool,
    state: LoginState,
    event: LoginEvent,
    now: u64,
    r: LoginStep,
) -> bool {
    match (state, event) {
        (_, LoginEvent::Contents(Err(e))) => r matches LoginStep::Failed(m) && m@ == e.text(),
        (_, LoginEvent::Codes(Err(e))) => r matches LoginStep::Failed(m) && m@ == e.text(),
        (_, LoginEvent::Written(Err(e))) => r matches LoginStep::Failed(m) && m@ == e.text(),
        (_, LoginEvent::Polled(Err(e))) => r matches LoginStep::Failed(m) && m@ == failure_text(e@),
        (LoginState::Reading, LoginEvent::Contents(Ok(c))) => match load_view(
            sandbox,
            contents_view(c),
        ) {
            LoadView::State(s) => match s.pending {
                Some(p) if now < p.expires_at_epoch => polls(
                    r,
                    resumed_view(p, now),
                    sandbox,
                    true,
                ),
                _ => r matches LoginStep::Ask(LoginState::Asking),
            },
            v => fails_to_load(r, path, sandbox, v),
        },
        (LoginState::Asking, LoginEvent::Codes(Ok(g))) => r matches LoginStep::Read(
            LoginState::Rereading { grant },
        ) && grant@ == g@,
        (LoginState::Rereading { grant }, LoginEvent::Contents(Ok(c))) => match load_view(
            sandbox,
            contents_view(c),
        ) {
            LoadView::State(s) => r matches LoginStep::Write(
                bytes,
                LoginState::SavingGrant { grant: kept },
            ) && kept@ == grant@ && holds(
                bytes@,
                sandbox,
                (StateView { tokens: s.tokens, pending: Some(awaited(grant@, now)) }),
            ),
            v => fails_to_load(r, path, sandbox, v),
        },
        (LoginState::SavingGrant { grant }, LoginEvent::Written(Ok(_))) => polls(
            r,
            grant@,
            sandbox,
            false,
        ),
        (LoginState::Polling, LoginEvent::Polled(Ok(t))) => r matches LoginStep::Write(
            bytes,
            LoginState::SavingTokens { expires_in, scope },
        ) && expires_in == t.expires_in && opt_view(scope) == opt_view(t.scope) && holds(
            bytes@,
            sandbox,
            (StateView { tokens: Some(granted(t@, t.expires_in, now)), pending: None }),
        ),
        (LoginState::SavingTokens { expires_in, scope }, LoginEvent::Written(Ok(_))) => r matches LoginStep::Done(
            lines,
        ) && views(lines@) == login_lines(path, expires_in, opt_view(scope)),
        _ => false,
    }
}

/// The first thing to do.
pub fn begin() -> (r: LoginStep)
    ensures
        r matches LoginStep::Read(LoginState::Reading),
{
    LoginStep::Read(LoginState::Reading)
}

fn as_bytes(c: &Option<Vec<u8>>) -> (r: Option<&[u8]>)
    ensures
        crate::auth::token_store::opt_contents(r) == contents_view(*c),
{
    match c {
        Some(b) => Some(b.as_slice()),
        None => None,
    }
}

fn failed(e: &AuthError) -> (r: LoginStep)
    ensures
        r matches LoginStep::Failed(m) && m@ == e.text(),
{
    LoginStep::Failed(e.message())
}

/// What to do after the event, at second `now`.
pub fn step(store: &TokenStore, state: LoginState, event: LoginEvent, now: u64) -> (r: LoginStep)
    requires
        answers(state, event),
    ensures
        follows(store.place(), store.is_sandbox(), state, event, now, r),
{
    match (state, event) {
        (_, LoginEvent::Contents(Err(e))) => failed(&e),
        (_, LoginEvent::Codes(Err(e))) => failed(&e),
        (_, LoginEvent::Written(Err(e))) => failed(&e),
        (_, LoginEvent::Polled(Err(e))) => LoginStep::Failed(device_failure(&e)),
        (LoginState::Reading, LoginEvent::Contents(Ok(c))) => {
            match store.load(as_bytes(&c)) {
                Err(e) => failed(&e),
                Ok(stored) => match resumable_grant(&stored, now) {
                    Some(grant) => {
                        let banner: String = banner_text(&grant, store.sandbox(), true);
                        LoginStep::Poll { banner, grant, next: LoginState::Polling }
                    },
                    None => LoginStep::Ask(LoginState::Asking),
                },
            }
        },
        (LoginState::Asking, LoginEvent::Codes(Ok(grant))) => LoginStep::Read(
            LoginState::Rereading { grant },
        ),
        (LoginState::Rereading { grant }, LoginEvent::Contents(Ok(c))) => {
            match store.save_pending_at(as_bytes(&c), &grant, now) {
                Err(e) => failed(&e),
                Ok(bytes) => LoginStep::Write(bytes, LoginState::SavingGrant { grant }),
            }
        },
        (LoginState::SavingGrant { grant }, LoginEvent::Written(Ok(_))) => {
            let banner: String = banner_text(&grant, store.sandbox(), false);
            LoginStep::Poll { banner, grant, next: LoginState::Polling }
        },
        (LoginState::Polling, LoginEvent::Polled(Ok(tokens))) => {
            let bytes: Vec<u8> = store.save_tokens_at(&tokens, tokens.expires_in, now);
            LoginStep::Write(
                bytes,
                LoginState::SavingTokens { expires_in: tokens.expires_in, scope: tokens.scope },
            )
        },
        (LoginState::SavingTokens { expires_in, scope }, LoginEvent::Written(Ok(_))) => {
            LoginStep::Done(login_summary(store.path(), expires_in, &scope))
        },
        _ => unreached(),
    }
}

/// Codes are shown only once they are in the token file, so a run that is cut
/// off can be taken up again: either they were read from there, or they have
/// just been written.
pub proof fn codes_are_stored_before_they_are_shown(
    path: Seq<char>,
    sandbox: bool,
    state: LoginState,
    event: LoginEvent,
    now: u64,
    r: LoginStep,
)
    requires
        answers(state, event),
        follows(path, sandbox, state, event, now, r),
        r is Poll,
    ensures
        (state is Reading && event matches LoginEvent::Contents(Ok(_))) || (state is SavingGrant
            && event matches LoginEvent::Written(Ok(_))),
{
}

/// The command says that the tokens are saved only once they are in the file.
pub proof fn tokens_are_stored_before_success(
    path: Seq<char>,
    sandbox: bool,
    state: LoginState,
    event: LoginEvent,
    now: u64,
    r: LoginStep,
)
    requires
        answers(state, event),
        follows(path, sandbox, state, event, now, r),
        r is Done,
    ensures
        state is SavingTokens,
        event matches LoginEvent::Written(Ok(_)),
{
}

/// Tokens that are in the file take the place of the codes that they were
/// granted for: reading the file gives them back and nothing to take up.
pub proof fn granted_tokens_end_the_grant(
    path: Seq<char>,
    sandbox: bool,
    tokens: TokenResponse,
    now: u64,
    r: LoginStep,
)
    requires
        follows(
            path,
            sandbox,
            LoginState::Polling,
            LoginEvent::Polled(Ok(tokens)),
            now,
            r,
        ),
    ensures
        r matches LoginStep::Write(bytes, _) && load_view(sandbox, Some(bytes@))
            == LoadView::State(
            StateView { tokens: Some(granted(tokens@, tokens.expires_in, now)), pending: None },
        ),
{
}

/// How far a state is from the end of the command.
pub open spec fn distance(state: LoginState) -> nat {
    match state {
        LoginState::Reading => 6,
        LoginState::Asking => 5,
        LoginState::Rereading { .. } => 4,
        LoginState::SavingGrant { .. } => 3,
        LoginState::Polling => 2,
        LoginState::SavingTokens { .. } => 1,
    }
}

/// The state that a step goes on with.
pub open spec fn rest(r: LoginStep) -> nat {
    match r {
        LoginStep::Read(s) => distance(s),
        LoginStep::Ask(s) => distance(s),
        LoginStep::Write(_, s) => distance(s),
        LoginStep::Poll { next, .. } => distance(next),
        LoginStep::Done(_) => 0,
        LoginStep::Failed(_) => 0,
    }
}

/// Every step brings the command nearer to its end.
pub proof fn login_ends(
    path: Seq<char>,
    sandbox: bool,
    state: LoginState,
    event: LoginEvent,
    now: u64,
    r: LoginStep,
)
    requires
        answers(state, event),
        follows(path, sandbox, state, event, now, r),
    ensures
        rest(r) < distance(state),
{
}

/// Codes that are stored and not expired are taken up again, with the time that
/// they have left; without such codes new ones are asked for.
pub proof fn stored_codes_are_taken_up_again(
    path: Seq<char>,
    sandbox: bool,
    contents: Option<Vec<u8>>,
    s: StateView,
    now: u64,
    r: LoginStep,
)
    requires
        follows(
            path,
            sandbox,
            LoginState::Reading,
            LoginEvent::Contents(Ok(contents)),
            now,
            r,
        ),
        load_view(sandbox, contents_view(contents)) == LoadView::State(s),
    ensures
        r is Ask <==> (s.pending matches Some(p) ==> p.expires_at_epoch <= now),
        s.pending matches Some(p) ==> (now < p.expires_at_epoch ==> (r matches LoginStep::Poll {
            grant,
            next,
            banner: shown,
        } && shown@ == banner(
            p.user_code,
            p.verification_uri,
            p.verification_uri_complete,
            (p.expires_at_epoch - now) as u64,
            p.interval_secs,
            sandbox,
            true,
        ) && grant.device_code@ == p.device_code && grant.user_code@ == p.user_code
            && grant.expires_in == p.expires_at_epoch - now && grant.interval == p.interval_secs
            && next is Polling)),
{
}

/// New codes go into the token file beside the tokens that it holds, and once they
/// are there they are shown and polled.
pub proof fn new_codes_are_stored_and_polled(
    path: Seq<char>,
    sandbox: bool,
    codes: DeviceAuthorizationResponse,
    contents: Option<Vec<u8>>,
    s: StateView,
    now: u64,
    first: LoginStep,
    second: LoginStep,
    third: LoginStep,
)
    requires
        follows(path, sandbox, LoginState::Asking, LoginEvent::Codes(Ok(codes)), now, first),
        first matches LoginStep::Read(reread) && follows(
            path,
            sandbox,
            reread,
            LoginEvent::Contents(Ok(contents)),
            now,
            second,
        ),
        load_view(sandbox, contents_view(contents)) == LoadView::State(s),
        second matches LoginStep::Write(_, saving) && follows(
            path,
            sandbox,
            saving,
            LoginEvent::Written(Ok(())),
            now,
            third,
        ),
        now + codes.expires_in <= u64::MAX,
    ensures
        second matches LoginStep::Write(bytes, _) && (load_view(sandbox, Some(bytes@))
            matches LoadView::State(kept) && kept.tokens == s.tokens && (kept.pending
            matches Some(p) && p.device_code == codes.device_code@ && p.user_code
            == codes.user_code@ && p.expires_at_epoch == now + codes.expires_in)),
        third matches LoginStep::Poll { grant, next, banner: shown } && grant@ == codes@
            && next is Polling && shown@ == banner(
            codes.user_code@,
            codes.verification_uri@,
            opt_view(codes.verification_uri_complete),
            codes.expires_in,
            codes.interval,
            sandbox,
            false,
        ),
{
}

/// A refusal, dead codes and a network that stays down end the command with a
/// message, and nothing is written.
pub proof fn failed_polling_ends_the_command(
    path: Seq<char>,
    sandbox: bool,
    e: DeviceFlowError,
    now: u64,
    r: LoginStep,
)
    requires
        follows(path, sandbox, LoginState::Polling, LoginEvent::Polled(Err(e)), now, r),
    ensures
        r is Failed,
        e is AccessDenied ==> (r matches LoginStep::Failed(m) && m@
            == "authorization denied by user"@),
{
}

/// The tokens that the user has approved are in the file when the command says so:
/// reading it gives the access token, the refresh token and the second of expiry.
pub proof fn approved_tokens_are_kept(
    path: Seq<char>,
    sandbox: bool,
    tokens: TokenResponse,
    now: u64,
    r: LoginStep,
    q: LoginStep,
)
    requires
        follows(path, sandbox, LoginState::Polling, LoginEvent::Polled(Ok(tokens)), now, r),
        r matches LoginStep::Write(_, saving) && follows(
            path,
            sandbox,
            saving,
            LoginEvent::Written(Ok(())),
            now,
            q,
        ),
        now + tokens.expires_in <= u64::MAX,
    ensures
        r matches LoginStep::Write(bytes, _) && (load_view(sandbox, Some(bytes@))
            matches LoadView::State(kept) && (kept.tokens matches Some(t) && t.access_token
            == tokens.access_token@ && t.refresh_token == opt_view(tokens.refresh_token)
            && t.expires_at_epoch == now + tokens.expires_in && t.updated_at_epoch == now)),
        q is Done,
{
}

} // verus!
