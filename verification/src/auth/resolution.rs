//! How the device flow comes by an access token: the stored one while it is
//! live, the refresh grant after that, a new authorization otherwise. Each
//! function here takes what has happened and says what to do next.

use vstd::pervasive::unreached;
use vstd::prelude::*;

use super::token_store::{granted, StateView, StoredState, StoredTokens, StoredTokensView};
use super::{
    clamp_expires_in, clamped, clone_opt, definitive_rejection, is_definitive_rejection, AuthError,
    TokenResponse, TokenView,
};
use crate::text::{opt_view, str_eq};

verus! {

broadcast use vstd::string::group_string_axioms;

/// A stored refresh token is tried up to this age, in seconds: one day short
/// of ninety days.
pub const REFRESH_TOKEN_MAX_AGE_SECS: u64 = 7_689_600;

/// A token and the lifetime it is given.
#[derive(Debug)]
pub struct ResolvedToken {
    pub access_token: String,
    pub expires_in: u64,
}

/// What a resolution waits for.
#[derive(Debug)]
pub enum ResolveState {
    /// The refresh grant with the stored refresh token `used`. `fallback` is
    /// what to hand out when the grant fails for the moment.
    FirstRefresh { used: String, fallback: Option<ResolvedToken> },
    /// The store, read again after `used` was rejected.
    Reload { used: String },
    /// The refresh grant with the refresh token that the store held then.
    SecondRefresh,
    /// The new pair on its way into the store.
    Persist { token: ResolvedToken },
    /// The removal of the store.
    Clear,
}

/// What to do next.
#[derive(Debug)]
pub enum ResolveStep {
    /// Hand out this token.
    Done(ResolvedToken),
    /// There is no token to hand out.
    Failed(AuthError),
    /// Run the refresh grant, then go on with the state.
    Refresh(String, ResolveState),
    /// Read the store again, then go on with the state.
    Load(ResolveState),
    /// Write the granted pair to the store, with this lifetime, then go on
    /// with the state.
    Save(TokenResponse, u64, ResolveState),
    /// Remove the store, then go on with the state.
    Remove(ResolveState),
}

/// What has happened since.
#[derive(Debug)]
pub enum ResolveEvent {
    Refreshed(Result<TokenResponse, AuthError>),
    Loaded(Result<StoredState, AuthError>),
    Saved(Result<(), AuthError>),
    Removed(Result<(), AuthError>),
}

/// Whether the stored access token has more than a minute left at second
/// `now`.
pub open spec fn stored_is_live(t: StoredTokensView, now: u64) -> bool {
    now + 60 < t.expires_at_epoch
}

/// Whether there is a refresh token that is young enough to be tried.
pub open spec fn refreshable(t: StoredTokensView, now: u64) -> bool {
    t.refresh_token is Some && now - t.updated_at_epoch <= REFRESH_TOKEN_MAX_AGE_SECS
}

/// Whether `r` is the stored access token with what is left of its lifetime.
pub open spec fn is_stored_token(r: ResolvedToken, t: StoredTokensView, now: u64) -> bool {
    r.access_token@ == t.access_token && r.expires_in == clamped((t.expires_at_epoch - now) as u64)
}

/// Whether `e` asks for a new authorization and gives the reason.
pub open spec fn is_reauth(e: AuthError, why: Seq<char>) -> bool {
    e matches AuthError::ReauthRequired { reason } && reason@ == why
}

/// The reason when there is nothing stored.
pub open spec fn nothing_stored(pending: bool) -> Seq<char> {
    if pending {
        "a device authorization is pending — run `allegro-mcp auth device` to complete it"@
    } else {
        "no stored device authorization"@
    }
}

fn reauth(why: &str) -> (r: AuthError)
    ensures
        is_reauth(r, why@),
{
    AuthError::ReauthRequired { reason: why.to_owned() }
}

fn stored_token(t: &StoredTokens, now: u64) -> (r: ResolvedToken)
    requires
        now <= t.expires_at_epoch,
    ensures
        is_stored_token(r, t@, now),
{
    ResolvedToken {
        access_token: t.access_token.clone(),
        expires_in: clamp_expires_in(t.expires_at_epoch - now),
    }
}

/// Whether `r` is the first step of a resolution at second `now`, with what the
/// store holds.
pub open spec fn begins(
    loaded: Result<StoredState, AuthError>,
    forced: bool,
    now: u64,
    r: ResolveStep,
) -> bool {
    match loaded {
        Err(e) => r == ResolveStep::Failed(e),
        Ok(s) => match s@.tokens {
            None => r matches ResolveStep::Failed(e) && is_reauth(
                e,
                nothing_stored(s@.pending is Some),
            ),
            Some(t) => if stored_is_live(t, now) && (!forced || !refreshable(t, now)) {
                r matches ResolveStep::Done(token) && is_stored_token(token, t, now)
            } else if refreshable(t, now) {
                &&& r matches ResolveStep::Refresh(
                    refresh_token,
                    ResolveState::FirstRefresh { used, fallback },
                )
                &&& t.refresh_token == Some(refresh_token@)
                &&& used == refresh_token
                &&& match fallback {
                    Some(token) => forced && stored_is_live(t, now) && is_stored_token(
                        token,
                        t,
                        now,
                    ),
                    None => !(forced && stored_is_live(t, now)),
                }
            } else {
                r matches ResolveStep::Failed(e) && is_reauth(
                    e,
                    "stored device authorization expired and no usable refresh token remains"@,
                )
            },
        },
    }
}

/// The first step of a resolution, at second `now`, with what the store holds.
/// `forced` means that the API has just rejected the token at hand: the stored
/// one is then not handed out before the refresh grant was tried.
pub fn begin(loaded: Result<StoredState, AuthError>, forced: bool, now: u64) -> (r: ResolveStep)
    ensures
        begins(loaded, forced, now, r),
{
    let state: StoredState = match loaded {
        Ok(s) => s,
        Err(e) => return ResolveStep::Failed(e),
    };
    let tokens: StoredTokens = match state.tokens {
        Some(t) => t,
        None => {
            return if state.pending.is_some() {
                ResolveStep::Failed(
                    reauth(
                        "a device authorization is pending — run `allegro-mcp auth device` to complete it",
                    ),
                )
            } else {
                ResolveStep::Failed(reauth("no stored device authorization"))
            };
        },
    };
    let live: bool = now < tokens.expires_at_epoch.saturating_sub(60);
    assert(live == stored_is_live(tokens@, now));
    if !forced && live {
        return ResolveStep::Done(stored_token(&tokens, now));
    }
    let young: bool = now.saturating_sub(tokens.updated_at_epoch) <= REFRESH_TOKEN_MAX_AGE_SECS;
    if let Some(refresh_token) = &tokens.refresh_token {
        if young {
            let fallback: Option<ResolvedToken> = if forced && live {
                Some(stored_token(&tokens, now))
            } else {
                None
            };
            return ResolveStep::Refresh(
                refresh_token.clone(),
                ResolveState::FirstRefresh { used: refresh_token.clone(), fallback },
            );
        }
    }
    if forced && live {
        return ResolveStep::Done(stored_token(&tokens, now));
    }
    ResolveStep::Failed(
        reauth("stored device authorization expired and no usable refresh token remains"),
    )
}

/// Whether `r` asks to store a granted pair before its token is handed out.
pub open spec fn saves(r: ResolveStep, resp: TokenResponse) -> bool {
    &&& r matches ResolveStep::Save(pair, lifetime, ResolveState::Persist { token })
    &&& pair@ == resp@
    &&& lifetime == clamped(resp.expires_in)
    &&& token.access_token@ == resp.access_token@
    &&& token.expires_in == clamped(resp.expires_in)
}

fn save(resp: TokenResponse) -> (r: ResolveStep)
    ensures
        saves(r, resp),
{
    let lifetime: u64 = clamp_expires_in(resp.expires_in);
    let token: ResolvedToken = ResolvedToken {
        access_token: resp.access_token.clone(),
        expires_in: lifetime,
    };
    ResolveStep::Save(resp, lifetime, ResolveState::Persist { token })
}

/// The refresh token that a store holds.
pub open spec fn refresh_token_of(s: StateView) -> Option<Seq<char>> {
    match s.tokens {
        Some(t) => t.refresh_token,
        None => None,
    }
}

/// Whether the event is the one that the state waits for.
pub open spec fn answers(event: ResolveEvent, state: ResolveState) -> bool {
    match state {
        ResolveState::FirstRefresh { .. } => event is Refreshed,
        ResolveState::Reload { .. } => event is Loaded,
        ResolveState::SecondRefresh => event is Refreshed,
        ResolveState::Persist { .. } => event is Saved,
        ResolveState::Clear => event is Removed,
    }
}

/// What follows when the state meets the event it waits for.
pub open spec fn follows(state: ResolveState, event: ResolveEvent, r: ResolveStep) -> bool {
    match (state, event) {
        (ResolveState::FirstRefresh { used, fallback }, ResolveEvent::Refreshed(reply)) => match reply {
            Ok(resp) => saves(r, resp),
            Err(e) => if definitive_rejection(e) {
                r == ResolveStep::Load(ResolveState::Reload { used })
            } else {
                match fallback {
                    Some(token) => r == ResolveStep::Done(token),
                    None => r == ResolveStep::Failed(e),
                }
            },
        },
        (ResolveState::Reload { used }, ResolveEvent::Loaded(loaded)) => match loaded {
            Err(e) => r == ResolveStep::Failed(e),
            Ok(s) => match refresh_token_of(s@) {
                Some(newer) if newer != used@ => r matches ResolveStep::Refresh(t, next) && t@
                    == newer && next is SecondRefresh,
                _ => r == ResolveStep::Remove(ResolveState::Clear),
            },
        },
        (ResolveState::SecondRefresh, ResolveEvent::Refreshed(reply)) => match reply {
            Ok(resp) => saves(r, resp),
            Err(e) => if definitive_rejection(e) {
                r == ResolveStep::Remove(ResolveState::Clear)
            } else {
                r == ResolveStep::Failed(e)
            },
        },
        (ResolveState::Persist { token }, ResolveEvent::Saved(saved)) => match saved {
            Ok(_) => r == ResolveStep::Done(token),
            Err(e) => r == ResolveStep::Failed(e),
        },
        (ResolveState::Clear, ResolveEvent::Removed(removed)) => match removed {
            Ok(_) => r matches ResolveStep::Failed(e) && is_reauth(
                e,
                "refresh token rejected — authorization was revoked or expired"@,
            ),
            Err(e) => r == ResolveStep::Failed(e),
        },
        _ => false,
    }
}

/// The next step of a resolution.
pub fn step(state: ResolveState, event: ResolveEvent) -> (r: ResolveStep)
    requires
        answers(event, state),
    ensures
        follows(state, event, r),
{
    match (state, event) {
        (ResolveState::FirstRefresh { used, fallback }, ResolveEvent::Refreshed(reply)) => match reply {
            Ok(resp) => save(resp),
            Err(e) => if is_definitive_rejection(&e) {
                ResolveStep::Load(ResolveState::Reload { used })
            } else {
                match fallback {
                    Some(token) => ResolveStep::Done(token),
                    None => ResolveStep::Failed(e),
                }
            },
        },
        (ResolveState::Reload { used }, ResolveEvent::Loaded(loaded)) => match loaded {
            Err(e) => ResolveStep::Failed(e),
            Ok(s) => {
                if let Some(t) = s.tokens {
                    if let Some(newer) = t.refresh_token {
                        if !str_eq(newer.as_str(), used.as_str()) {
                            return ResolveStep::Refresh(newer, ResolveState::SecondRefresh);
                        }
                    }
                }
                ResolveStep::Remove(ResolveState::Clear)
            },
        },
        (ResolveState::SecondRefresh, ResolveEvent::Refreshed(reply)) => match reply {
            Ok(resp) => save(resp),
            Err(e) => if is_definitive_rejection(&e) {
                ResolveStep::Remove(ResolveState::Clear)
            } else {
                ResolveStep::Failed(e)
            },
        },
        (ResolveState::Persist { token }, ResolveEvent::Saved(saved)) => match saved {
            Ok(_) => ResolveStep::Done(token),
            Err(e) => ResolveStep::Failed(e),
        },
        (ResolveState::Clear, ResolveEvent::Removed(removed)) => match removed {
            Ok(_) => ResolveStep::Failed(
                reauth("refresh token rejected — authorization was revoked or expired"),
            ),
            Err(e) => ResolveStep::Failed(e),
        },
        (_, _) => unreached(),
    }
}

// ── Laws ────────────────────────────────────────────────────────────────────

/// How many steps a state can still take.
pub open spec fn rank(state: ResolveState) -> nat {
    match state {
        ResolveState::FirstRefresh { .. } => 4,
        ResolveState::Reload { .. } => 3,
        ResolveState::SecondRefresh => 2,
        ResolveState::Persist { .. } => 1,
        ResolveState::Clear => 1,
    }
}

/// The state that a step goes on with.
pub open spec fn next_state(r: ResolveStep) -> Option<ResolveState> {
    match r {
        ResolveStep::Done(_) => None,
        ResolveStep::Failed(_) => None,
        ResolveStep::Refresh(_, s) => Some(s),
        ResolveStep::Load(s) => Some(s),
        ResolveStep::Save(_, _, s) => Some(s),
        ResolveStep::Remove(s) => Some(s),
    }
}

/// Every resolution ends: each step leads to a state with fewer steps to go.
/// With the first step a resolution makes at most two refresh grants.
pub proof fn resolution_ends(state: ResolveState, event: ResolveEvent, r: ResolveStep)
    requires
        answers(event, state),
        follows(state, event, r),
    ensures
        next_state(r) matches Some(s) ==> rank(s) < rank(state),
        r is Refresh ==> state is Reload && next_state(r) == Some(ResolveState::SecondRefresh),
{
}

/// The store is removed only after the authorization server has definitively
/// rejected the refresh token that the store holds. In particular no transient
/// failure and no 429 removes it.
pub proof fn store_is_removed_only_on_rejection(
    state: ResolveState,
    event: ResolveEvent,
    r: ResolveStep,
)
    requires
        answers(event, state),
        follows(state, event, r),
        r is Remove,
    ensures
        match (state, event) {
            (ResolveState::SecondRefresh, ResolveEvent::Refreshed(Err(e))) => definitive_rejection(
                e,
            ),
            (ResolveState::Reload { used }, ResolveEvent::Loaded(Ok(s))) => refresh_token_of(
                s@,
            ) is None || refresh_token_of(s@) == Some(used@),
            _ => false,
        },
{
}

/// The store is read again only after the first refresh token was definitively
/// rejected.
pub proof fn store_is_reloaded_only_on_rejection(
    state: ResolveState,
    event: ResolveEvent,
    r: ResolveStep,
)
    requires
        answers(event, state),
        follows(state, event, r),
        r is Load,
    ensures
        state is FirstRefresh,
        event matches ResolveEvent::Refreshed(Err(e)) && definitive_rejection(e),
{
}

/// A token that a refresh grant has brought is handed out only once the new
/// pair is in the store.
pub proof fn new_pair_is_stored_first(state: ResolveState, event: ResolveEvent, r: ResolveStep)
    requires
        answers(event, state),
        follows(state, event, r),
        r is Done,
    ensures
        match state {
            ResolveState::Persist { token } => event matches ResolveEvent::Saved(Ok(_)) && r
                == ResolveStep::Done(token),
            ResolveState::FirstRefresh { fallback, .. } => fallback is Some && r
                == ResolveStep::Done(fallback->0),
            _ => false,
        },
{
}

/// A stored access token with more than a minute left is handed out as it is,
/// unless it was just rejected: nothing is asked of the authorization server.
pub proof fn live_token_is_handed_out(
    s: StoredState,
    t: StoredTokensView,
    now: u64,
    r: ResolveStep,
)
    requires
        begins(Ok(s), false, now, r),
        s@.tokens == Some(t),
        t.expires_at_epoch > now + 60,
    ensures
        r matches ResolveStep::Done(token) && {
            &&& token.access_token@ == t.access_token
            &&& token.expires_in >= 120
            &&& t.expires_at_epoch - now >= 120 ==> token.expires_in == t.expires_at_epoch - now
            &&& t.expires_at_epoch - now < 120 ==> token.expires_in == 120
        },
{
}

/// Once the stored access token has a minute or less left, the refresh grant is
/// run with the stored refresh token, up to 89 days after the pair was stored:
/// the user is asked for nothing.
pub proof fn expired_token_is_refreshed(
    s: StoredState,
    t: StoredTokensView,
    refresh_token: Seq<char>,
    forced: bool,
    now: u64,
    r: ResolveStep,
)
    requires
        begins(Ok(s), forced, now, r),
        s@.tokens == Some(t),
        t.refresh_token == Some(refresh_token),
        t.expires_at_epoch <= now + 60,
        now <= t.updated_at_epoch + 89 * 24 * 60 * 60,
    ensures
        r matches ResolveStep::Refresh(asked, ResolveState::FirstRefresh { used, fallback })
            && asked@ == refresh_token && used@ == refresh_token && fallback is None,
{
}

/// A token that the API has rejected is replaced by the refresh grant while
/// there is a refresh token of at most 89 days; one that is live stands by for
/// the case that the grant fails for the moment.
pub proof fn rejected_token_is_refreshed(
    s: StoredState,
    t: StoredTokensView,
    refresh_token: Seq<char>,
    now: u64,
    r: ResolveStep,
)
    requires
        begins(Ok(s), true, now, r),
        s@.tokens == Some(t),
        t.refresh_token == Some(refresh_token),
        now <= t.updated_at_epoch + 89 * 24 * 60 * 60,
    ensures
        r matches ResolveStep::Refresh(asked, ResolveState::FirstRefresh { used, fallback }) && {
            &&& asked@ == refresh_token
            &&& used@ == refresh_token
            &&& fallback is Some <==> t.expires_at_epoch > now + 60
            &&& fallback matches Some(token) ==> token.access_token@ == t.access_token
        },
{
}

/// The user is asked for a new authorization only when nothing usable is left:
/// the access token is past its time, and the refresh token is missing or older
/// than 89 days. Then there is no other way.
pub proof fn reauthorization_is_the_last_resort(
    s: StoredState,
    forced: bool,
    now: u64,
    r: ResolveStep,
)
    requires
        begins(Ok(s), forced, now, r),
    ensures
        r is Failed <==> match s@.tokens {
            None => true,
            Some(t) => t.expires_at_epoch <= now + 60 && (t.refresh_token is None || now
                > t.updated_at_epoch + 89 * 24 * 60 * 60),
        },
        r matches ResolveStep::Failed(e) ==> e is ReauthRequired,
        r is Done || r is Failed || r is Refresh,
{
}

/// Whether two first steps say the same: the same kind of step, with the same
/// texts and lifetimes in it.
pub open spec fn same_first_step(a: ResolveStep, b: ResolveStep) -> bool {
    match (a, b) {
        (ResolveStep::Done(x), ResolveStep::Done(y)) => same_token(x, y),
        (ResolveStep::Failed(x), ResolveStep::Failed(y)) => match (x, y) {
            (
                AuthError::ReauthRequired { reason: p },
                AuthError::ReauthRequired { reason: q },
            ) => p@ == q@,
            _ => x == y,
        },
        (
            ResolveStep::Refresh(x, ResolveState::FirstRefresh { used: u, fallback: f }),
            ResolveStep::Refresh(y, ResolveState::FirstRefresh { used: v, fallback: g }),
        ) => x@ == y@ && u@ == v@ && match (f, g) {
            (None, None) => true,
            (Some(p), Some(q)) => same_token(p, q),
            _ => false,
        },
        _ => false,
    }
}

/// Whether two tokens are the same text with the same lifetime.
pub open spec fn same_token(a: ResolvedToken, b: ResolvedToken) -> bool {
    a.access_token@ == b.access_token@ && a.expires_in == b.expires_in
}

/// The first step depends on the ages alone: where the clock, the time of
/// storing and the time of expiry are all `shift` seconds later, it is the same.
pub proof fn only_ages_count(
    s: StoredState,
    later: StoredState,
    t: StoredTokensView,
    u: StoredTokensView,
    forced: bool,
    now: u64,
    shift: u64,
    r: ResolveStep,
    q: ResolveStep,
)
    requires
        now + shift <= u64::MAX,
        s@.tokens == Some(t),
        later@.tokens == Some(u),
        u.access_token == t.access_token,
        u.refresh_token == t.refresh_token,
        u.expires_at_epoch == t.expires_at_epoch + shift,
        u.updated_at_epoch == t.updated_at_epoch + shift,
        begins(Ok(s), forced, now, r),
        begins(Ok(later), forced, (now + shift) as u64, q),
    ensures
        same_first_step(r, q),
{
}

/// A store that cannot be read is reported as it is: it is not taken for an
/// empty one.
pub proof fn unreadable_store_is_reported(
    e: AuthError,
    forced: bool,
    now: u64,
    r: ResolveStep,
)
    requires
        begins(Err(e), forced, now, r),
    ensures
        r == ResolveStep::Failed(e),
{
}

/// What a refresh grant brings goes into the store, and once it is there its
/// access token is handed out, with the lifetime that the server gave it, two
/// minutes at least; a pair that could not be stored is not handed out.
pub proof fn granted_pair_is_stored_and_handed_out(
    state: ResolveState,
    resp: TokenResponse,
    r: ResolveStep,
    written: Result<(), AuthError>,
    q: ResolveStep,
)
    requires
        state is FirstRefresh || state is SecondRefresh,
        follows(state, ResolveEvent::Refreshed(Ok(resp)), r),
        next_state(r) matches Some(next) && follows(next, ResolveEvent::Saved(written), q),
    ensures
        r matches ResolveStep::Save(pair, lifetime, _) && pair@ == resp@ && lifetime == (
        if resp.expires_in < 120 {
            120
        } else {
            resp.expires_in
        }),
        match written {
            Ok(_) => q matches ResolveStep::Done(token) && token.access_token@
                == resp.access_token@ && token.expires_in == (if resp.expires_in < 120 {
                120
            } else {
                resp.expires_in
            }),
            Err(e) => q == ResolveStep::Failed(e),
        },
{
}

/// A failure of the refresh grant that is no 4xx answer, or is a 429, leaves the
/// store alone: the token that stands by is handed out, or the failure is
/// reported.
pub proof fn passing_failure_keeps_the_store(
    state: ResolveState,
    e: AuthError,
    r: ResolveStep,
)
    requires
        state is FirstRefresh || state is SecondRefresh,
        follows(state, ResolveEvent::Refreshed(Err(e)), r),
        e matches AuthError::TokenEndpoint { status, .. } ==> status < 400 || status >= 500
            || status == 429,
    ensures
        match state {
            ResolveState::FirstRefresh { fallback: Some(token), .. } => r == ResolveStep::Done(
                token,
            ),
            _ => r == ResolveStep::Failed(e),
        },
{
}

/// A refresh token that the server has rejected with a 4xx answer other than 429
/// is not tried again: the store is read again, another refresh token in it is
/// tried, and without one the store is removed and the user has to authorize.
pub proof fn rejected_refresh_token_is_given_up(
    used: String,
    fallback: Option<ResolvedToken>,
    e: AuthError,
    s: StoredState,
    r: ResolveStep,
    q: ResolveStep,
)
    requires
        follows(
            ResolveState::FirstRefresh { used, fallback },
            ResolveEvent::Refreshed(Err(e)),
            r,
        ),
        e matches AuthError::TokenEndpoint { status, .. } && 400 <= status < 500 && status != 429,
        next_state(r) matches Some(next) && follows(next, ResolveEvent::Loaded(Ok(s)), q),
    ensures
        r is Load,
        match s@.tokens {
            Some(t) => match t.refresh_token {
                Some(newer) => if newer != used@ {
                    q matches ResolveStep::Refresh(asked, ResolveState::SecondRefresh) && asked@
                        == newer
                } else {
                    q == ResolveStep::Remove(ResolveState::Clear)
                },
                None => q == ResolveStep::Remove(ResolveState::Clear),
            },
            None => q == ResolveStep::Remove(ResolveState::Clear),
        },
{
}

/// After a second rejection the store is removed, and once it is gone the user
/// is asked to authorize again.
pub proof fn second_rejection_ends_the_authorization(
    e: AuthError,
    r: ResolveStep,
    removed: Result<(), AuthError>,
    q: ResolveStep,
)
    requires
        follows(ResolveState::SecondRefresh, ResolveEvent::Refreshed(Err(e)), r),
        e matches AuthError::TokenEndpoint { status, .. } && 400 <= status < 500 && status != 429,
        next_state(r) matches Some(next) && follows(next, ResolveEvent::Removed(removed), q),
    ensures
        r is Remove,
        match removed {
            Ok(_) => q matches ResolveStep::Failed(AuthError::ReauthRequired { .. }),
            Err(why) => q == ResolveStep::Failed(why),
        },
{
}

/// A pair that was stored is handed out again while it is live, with what is left
/// of its lifetime, two minutes at least.
pub proof fn stored_pair_is_handed_out_again(
    s: StoredState,
    granted_pair: TokenView,
    lifetime: u64,
    stored_at: u64,
    now: u64,
    r: ResolveStep,
)
    requires
        stored_at + lifetime <= u64::MAX,
        s@.tokens == Some(granted(granted_pair, lifetime, stored_at)),
        stored_at <= now,
        now + 60 < stored_at + lifetime,
        begins(Ok(s), false, now, r),
    ensures
        r matches ResolveStep::Done(token) && token.access_token@ == granted_pair.access_token
            && token.expires_in == (if lifetime - (now - stored_at) < 120 {
            120
        } else {
            lifetime - (now - stored_at)
        }),
{
}

/// After that its refresh token is used, up to 89 days after it was stored.
pub proof fn stored_pair_is_refreshed_later(
    s: StoredState,
    granted_pair: TokenView,
    refresh_token: Seq<char>,
    lifetime: u64,
    stored_at: u64,
    now: u64,
    r: ResolveStep,
)
    requires
        stored_at + lifetime <= u64::MAX,
        s@.tokens == Some(granted(granted_pair, lifetime, stored_at)),
        granted_pair.refresh_token == Some(refresh_token),
        stored_at + lifetime <= now + 60,
        now <= stored_at + 89 * 86_400,
        begins(Ok(s), false, now, r),
    ensures
        r matches ResolveStep::Refresh(asked, _) && asked@ == refresh_token,
{
}

} // verus!
