//! The device authorization flow: ask for a device code, show it to the user,
//! poll the token endpoint until the user decides or the codes expire.

use std::ops::ControlFlow;

use vstd::prelude::*;

use super::token_store::{awaited, epoch_now, PendingDeviceGrant, PendingView};
use super::{clone_opt, parse_token_response, token_of_text, TokenResponse, TokenView};
use crate::json::{
    compact_json, field, is_record, json_of_text, number_as_u64, optional_text, read_optional_text,
    read_required_text, required_text, Json, JsonView,
};
use crate::text::{
    chars_of, contains_text, decimal, decimal_is_read_back, decimal_string, join, joined, opt_view,
    parse_unsigned, str_eq, string_of, text_stays_contained, trim, trimmed,
    trimming_leaves_the_core, unsigned_value, views,
};
use crate::time::{elapsed_since, instant_now, opt_nanos, Duration, MAX_NANOS, NANOS_PER_SEC};

verus! {

broadcast use vstd::string::group_string_axioms;

/// What Rust's standard library says of a text that is no `u64`; nothing of one
/// that is.
pub uninterp spec fn number_error(s: Seq<char>) -> Seq<char>;

/// Calls `str::parse` for a `u64` and the `Display` impl of its error: the text
/// of the error, nothing when there is none; a function of the text alone.
#[verifier::external_body]
fn show_number_error(s: &str) -> (r: String)
    ensures
        r@ == number_error(s@),
{
    s.parse::<u64>().map_or_else(|e| e.to_string(), |_| String::new())
}

/// The number that a JSON number or a numeric text denotes, or what is wrong
/// with the value. White space around the text does not count.
pub open spec fn lenient_u64(j: JsonView) -> Result<u64, Seq<char>> {
    match j {
        JsonView::Number(t) => match j.as_u64() {
            Some(n) => Ok(n as u64),
            None => Err("expected a non-negative integer, got "@ + t),
        },
        JsonView::Text(s) => match unsigned_value(trimmed(s), u64::MAX as nat) {
            Some(n) => Ok(n as u64),
            None => Err("expected a numeric string: "@ + number_error(trimmed(s))),
        },
        _ => Err("expected a number or numeric string, got "@ + compact_json(j)),
    }
}

/// Reads a `u64` from a JSON number or a numeric text.
pub fn u64_lenient(value: &Json) -> (r: Result<u64, String>)
    ensures
        match r {
            Ok(n) => lenient_u64(value@) == Ok::<u64, Seq<char>>(n),
            Err(e) => lenient_u64(value@) == Err::<u64, Seq<char>>(e@),
        },
{
    match value {
        Json::Number(t) => match value.as_u64() {
            Some(n) => Ok(n),
            None => Err("expected a non-negative integer, got ".to_owned().concat(t.as_str())),
        },
        Json::Text(s) => {
            let digits: String = trim(s.as_str());
            match parse_unsigned(digits.as_str(), u64::MAX) {
                Some(n) => Ok(n),
                None => Err(
                    "expected a numeric string: ".to_owned().concat(
                        show_number_error(digits.as_str()).as_str(),
                    ),
                ),
            }
        },
        other => Err(
            "expected a number or numeric string, got ".to_owned().concat(other.to_text().as_str()),
        ),
    }
}

/// The answer to a request for a device code.
#[derive(Debug)]
pub struct DeviceAuthorizationResponse {
    /// Short code that the user types in.
    pub user_code: String,
    /// Handle for polling; can be used once and is never shown.
    pub device_code: String,
    /// Seconds for which both codes are valid.
    pub expires_in: u64,
    /// Least number of seconds between two polls.
    pub interval: u64,
    /// Page where the user enters the code.
    pub verification_uri: String,
    /// The same page with the code filled in.
    pub verification_uri_complete: Option<String>,
}

/// What an answer to a request for a device code is.
pub struct DeviceAuthorizationView {
    pub user_code: Seq<char>,
    pub device_code: Seq<char>,
    pub expires_in: u64,
    pub interval: u64,
    pub verification_uri: Seq<char>,
    pub verification_uri_complete: Option<Seq<char>>,
}

impl View for DeviceAuthorizationResponse {
    type V = DeviceAuthorizationView;

    open spec fn view(&self) -> DeviceAuthorizationView {
        DeviceAuthorizationView {
            user_code: self.user_code@,
            device_code: self.device_code@,
            expires_in: self.expires_in,
            interval: self.interval,
            verification_uri: self.verification_uri@,
            verification_uri_complete: opt_view(self.verification_uri_complete),
        }
    }
}

impl Clone for DeviceAuthorizationResponse {
    fn clone(&self) -> (r: DeviceAuthorizationResponse)
        ensures
            r@ == self@,
    {
        DeviceAuthorizationResponse {
            user_code: self.user_code.clone(),
            device_code: self.device_code.clone(),
            expires_in: self.expires_in,
            interval: self.interval,
            verification_uri: self.verification_uri.clone(),
            verification_uri_complete: clone_opt(&self.verification_uri_complete),
        }
    }
}

/// The device authorization that a JSON value denotes.
pub open spec fn device_authorization(j: JsonView) -> Option<DeviceAuthorizationView> {
    let user_code = required_text(field(j, "user_code"@, 0));
    let device_code = required_text(field(j, "device_code"@, 1));
    let expires_in = field(j, "expires_in"@, 2);
    let interval = field(j, "interval"@, 3);
    let uri = required_text(field(j, "verification_uri"@, 4));
    let complete = optional_text(field(j, "verification_uri_complete"@, 5));
    if is_record(j, 6, 6) && user_code is Some && device_code is Some && expires_in is Some
        && lenient_u64(expires_in->0) is Ok && interval is Some && lenient_u64(interval->0) is Ok
        && uri is Some && complete is Some {
        Some(
            DeviceAuthorizationView {
                user_code: user_code->0,
                device_code: device_code->0,
                expires_in: lenient_u64(expires_in->0)->Ok_0,
                interval: lenient_u64(interval->0)->Ok_0,
                verification_uri: uri->0,
                verification_uri_complete: complete->0,
            },
        )
    } else {
        None
    }
}

/// The device authorization that a response body denotes.
pub open spec fn device_authorization_of_text(body: Seq<char>) -> Option<DeviceAuthorizationView> {
    match json_of_text(body) {
        Ok(j) => device_authorization(j),
        Err(_) => None,
    }
}

/// Reads a number field that must be there, as a number or a numeric text.
fn read_lenient(f: Option<&Json>) -> (r: Option<u64>)
    ensures
        match r {
            Some(n) => f is Some && lenient_u64(f->0@) == Ok::<u64, Seq<char>>(n),
            None => f is Some ==> lenient_u64(f->0@) is Err,
        },
{
    match f {
        Some(v) => match u64_lenient(v) {
            Ok(n) => Some(n),
            Err(_) => None,
        },
        None => None,
    }
}

/// Parses the answer to a request for a device code; `None` when the body has
/// another shape.
pub fn parse_device_authorization(body: &str) -> (r: Option<DeviceAuthorizationResponse>)
    ensures
        match r {
            Some(a) => device_authorization_of_text(body@) == Some(a@),
            None => device_authorization_of_text(body@) is None,
        },
{
    let j: Json = match Json::parse(body) {
        Ok(j) => j,
        Err(_) => return None,
    };
    if !j.can_be_record(6, 6) {
        return None;
    }
    let user_code = read_required_text(j.record_field("user_code", 0));
    let device_code = read_required_text(j.record_field("device_code", 1));
    let expires_in = read_lenient(j.record_field("expires_in", 2));
    let interval = read_lenient(j.record_field("interval", 3));
    let uri = read_required_text(j.record_field("verification_uri", 4));
    let complete = read_optional_text(j.record_field("verification_uri_complete", 5));
    match (user_code, device_code, expires_in, interval, uri, complete) {
        (
            Some(user_code),
            Some(device_code),
            Some(expires_in),
            Some(interval),
            Some(verification_uri),
            Some(verification_uri_complete),
        ) => Some(
            DeviceAuthorizationResponse {
                user_code,
                device_code,
                expires_in,
                interval,
                verification_uri,
                verification_uri_complete,
            },
        ),
        _ => None,
    }
}

// ── Polling taxonomy ────────────────────────────────────────────────────────

/// Seconds added to the poll interval by every `slow_down`.
pub const SLOW_DOWN_INCREMENT_SECS: u64 = 1;

/// So many transient failures in a row end the polling.
pub const MAX_TRANSIENT_ERRORS: u32 = 5;

/// What one poll of the token endpoint came to.
#[derive(Debug)]
pub enum PollOutcome {
    /// The grant is complete.
    Token(TokenResponse),
    /// The user has not decided yet.
    AuthorizationPending,
    /// Poll less often.
    SlowDown,
    /// The user said no.
    AccessDenied,
    /// The codes are expired, used up or wrong.
    ExpiredOrInvalid,
    /// A failure that may pass; the text says which.
    Transient(String),
}

/// What the outcome of a poll is.
pub enum PollView {
    Token(TokenView),
    AuthorizationPending,
    SlowDown,
    AccessDenied,
    ExpiredOrInvalid,
    Transient(Seq<char>),
}

impl View for PollOutcome {
    type V = PollView;

    open spec fn view(&self) -> PollView {
        match self {
            PollOutcome::Token(t) => PollView::Token(t@),
            PollOutcome::AuthorizationPending => PollView::AuthorizationPending,
            PollOutcome::SlowDown => PollView::SlowDown,
            PollOutcome::AccessDenied => PollView::AccessDenied,
            PollOutcome::ExpiredOrInvalid => PollView::ExpiredOrInvalid,
            PollOutcome::Transient(s) => PollView::Transient(s@),
        }
    }
}

impl Clone for PollOutcome {
    fn clone(&self) -> (r: PollOutcome)
        ensures
            r@ == self@,
    {
        match self {
            PollOutcome::Token(t) => PollOutcome::Token(t.clone()),
            PollOutcome::AuthorizationPending => PollOutcome::AuthorizationPending,
            PollOutcome::SlowDown => PollOutcome::SlowDown,
            PollOutcome::AccessDenied => PollOutcome::AccessDenied,
            PollOutcome::ExpiredOrInvalid => PollOutcome::ExpiredOrInvalid,
            PollOutcome::Transient(s) => PollOutcome::Transient(s.clone()),
        }
    }
}

/// Why the device flow ended without a token.
#[derive(Debug, PartialEq, Eq)]
pub enum DeviceFlowError {
    /// The user said no.
    AccessDenied,
    /// The codes are expired, used up or wrong.
    Expired,
    /// Too many transient failures in a row; the text is the last of them.
    Network(String),
}

/// What a failure of the device flow is.
pub enum FlowErrorView {
    AccessDenied,
    Expired,
    Network(Seq<char>),
}

impl View for DeviceFlowError {
    type V = FlowErrorView;

    open spec fn view(&self) -> FlowErrorView {
        match self {
            DeviceFlowError::AccessDenied => FlowErrorView::AccessDenied,
            DeviceFlowError::Expired => FlowErrorView::Expired,
            DeviceFlowError::Network(s) => FlowErrorView::Network(s@),
        }
    }
}

impl Clone for DeviceFlowError {
    fn clone(&self) -> (r: DeviceFlowError)
        ensures
            r@ == self@,
    {
        match self {
            DeviceFlowError::AccessDenied => DeviceFlowError::AccessDenied,
            DeviceFlowError::Expired => DeviceFlowError::Expired,
            DeviceFlowError::Network(s) => DeviceFlowError::Network(s.clone()),
        }
    }
}

impl DeviceFlowError {
    /// The message shown for the failure.
    pub open spec fn text(self) -> Seq<char> {
        match self {
            DeviceFlowError::AccessDenied => "authorization denied by the user"@,
            DeviceFlowError::Expired => "device/user code expired or invalid — request a new one"@,
            DeviceFlowError::Network(s) => "gave up after 5 consecutive transient failures: "@ + s@,
        }
    }

    /// The message shown for the failure.
    pub fn message(&self) -> (r: String)
        ensures
            r@ == self.text(),
    {
        match self {
            DeviceFlowError::AccessDenied => "authorization denied by the user".to_owned(),
            DeviceFlowError::Expired =>
                "device/user code expired or invalid — request a new one".to_owned(),
            DeviceFlowError::Network(s) =>
                "gave up after 5 consecutive transient failures: ".to_owned().concat(s.as_str()),
        }
    }
}

/// The text of the member `error` of a response body.
pub open spec fn error_code(body: Seq<char>) -> Option<Seq<char>> {
    match json_of_text(body) {
        Ok(j) => match j.get("error"@) {
            Some(e) => e.as_text(),
            None => None,
        },
        Err(_) => None,
    }
}

/// What a 4xx answer means: three codes have a meaning of their own, with
/// every other one, and without one, the codes are dead.
pub open spec fn error_outcome(code: Option<Seq<char>>) -> PollView {
    if code == Some("authorization_pending"@) {
        PollView::AuthorizationPending
    } else if code == Some("slow_down"@) {
        PollView::SlowDown
    } else if code == Some("access_denied"@) {
        PollView::AccessDenied
    } else {
        PollView::ExpiredOrInvalid
    }
}

/// What an answer of the token endpoint to a poll means.
pub open spec fn poll_outcome(status: u16, body: Seq<char>) -> PollView {
    if 400 <= status < 500 {
        error_outcome(error_code(body))
    } else if status >= 500 {
        PollView::Transient("HTTP "@ + decimal(status as nat) + ": "@ + body)
    } else {
        match token_of_text(body) {
            Ok(t) => PollView::Token(t),
            Err(e) => PollView::Transient(
                "unparsable token body (HTTP "@ + decimal(status as nat) + "): "@ + e,
            ),
        }
    }
}

/// Says what an answer of the token endpoint to a poll means.
pub fn classify(status: u16, body: &str) -> (r: PollOutcome)
    ensures
        r@ == poll_outcome(status, body@),
{
    if 400 <= status && status < 500 {
        return classify_error_body(body);
    }
    if status >= 500 {
        return PollOutcome::Transient(
            "HTTP ".to_owned().concat(decimal_string(status as u64).as_str()).concat(": ").concat(
                body,
            ),
        );
    }
    match parse_token_response(body) {
        Ok(tokens) => PollOutcome::Token(tokens),
        Err(e) => PollOutcome::Transient(
            "unparsable token body (HTTP ".to_owned().concat(
                decimal_string(status as u64).as_str(),
            ).concat("): ").concat(e.as_str()),
        ),
    }
}

/// Says what a 4xx answer of the token endpoint to a poll means.
pub fn classify_error_body(body: &str) -> (r: PollOutcome)
    ensures
        r@ == error_outcome(error_code(body@)),
{
    let j: Json = match Json::parse(body) {
        Ok(j) => j,
        Err(_) => return PollOutcome::ExpiredOrInvalid,
    };
    let code: Option<&str> = match j.get("error") {
        Some(e) => e.as_str(),
        None => None,
    };
    match code {
        Some(c) => {
            if str_eq(c, "authorization_pending") {
                PollOutcome::AuthorizationPending
            } else if str_eq(c, "slow_down") {
                PollOutcome::SlowDown
            } else if str_eq(c, "access_denied") {
                PollOutcome::AccessDenied
            } else {
                PollOutcome::ExpiredOrInvalid
            }
        },
        None => PollOutcome::ExpiredOrInvalid,
    }
}

// ── Poll state machine ──────────────────────────────────────────────────────

/// Where the polling stands: the interval, when it began, for how long the
/// codes are valid, and the transient failures in a row.
#[derive(Debug)]
pub struct PollState {
    interval: Duration,
    started: std::time::Instant,
    lifetime: Duration,
    transient_errors: u32,
}

impl Clone for PollState {
    fn clone(&self) -> (r: PollState)
        ensures
            r.interval_nanos() == self.interval_nanos(),
            r.began() == self.began(),
            r.lifetime_nanos() == self.lifetime_nanos(),
            r.failures() == self.failures(),
    {
        PollState {
            interval: self.interval,
            started: self.started,
            lifetime: self.lifetime,
            transient_errors: self.transient_errors,
        }
    }
}

/// What the polling does with an outcome.
pub enum Advance {
    Continue,
    Stop(FlowErrorView),
}

/// What the outcome of one step of the polling is.
pub open spec fn flow_view(c: ControlFlow<DeviceFlowError>) -> Advance {
    match c {
        ControlFlow::Continue(_) => Advance::Continue,
        ControlFlow::Break(e) => Advance::Stop(e@),
    }
}

impl PollState {
    /// The current interval, in nanoseconds.
    pub closed spec fn interval_nanos(self) -> nat {
        self.interval@
    }

    /// The moment from which the lifetime of the codes counts.
    pub closed spec fn began(self) -> std::time::Instant {
        self.started
    }

    /// For how long the codes are valid, in nanoseconds.
    pub closed spec fn lifetime_nanos(self) -> nat {
        self.lifetime@
    }

    /// The transient failures in a row.
    pub closed spec fn failures(self) -> u32 {
        self.transient_errors
    }

    /// Polling that begins now.
    pub fn new(interval_secs: u64, expires_in_secs: u64) -> (r: PollState)
        ensures
            r.interval_nanos() == interval_secs * NANOS_PER_SEC,
            r.lifetime_nanos() == expires_in_secs * NANOS_PER_SEC,
            r.failures() == 0,
    {
        PollState {
            interval: Duration::from_secs(interval_secs),
            started: instant_now(),
            lifetime: Duration::from_secs(expires_in_secs),
            transient_errors: 0,
        }
    }

    /// The current interval.
    pub fn interval(&self) -> (r: Duration)
        ensures
            r@ == self.interval_nanos(),
    {
        self.interval
    }

    /// Whether the codes are past their lifetime once `elapsed` nanoseconds
    /// have gone by.
    pub open spec fn is_over(self, elapsed: nat) -> bool {
        elapsed >= self.lifetime_nanos()
    }

    /// Whether the codes are past their lifetime once `elapsed` has gone by.
    pub fn expired_after(&self, elapsed: Duration) -> (r: bool)
        ensures
            r == self.is_over(elapsed@),
    {
        elapsed.at_least(&self.lifetime)
    }

    /// Whether the codes are past their lifetime by now. Codes without any
    /// lifetime always are; of others it depends on when the call is made.
    pub fn deadline_exceeded(&self) -> (r: bool)
        ensures
            exists|elapsed: nat| r == #[trigger] self.is_over(elapsed),
            self.lifetime_nanos() == 0 ==> r,
    {
        self.expired_after(elapsed_since(&self.started))
    }

    /// What the polling does with an outcome: `slow_down` makes the interval
    /// longer, a refusal and dead codes end it, and so does the last of too
    /// many transient failures in a row.
    pub fn advance(&mut self, outcome: &PollOutcome) -> (r: ControlFlow<DeviceFlowError>)
        requires
            outcome is SlowDown ==> old(self).interval_nanos() + SLOW_DOWN_INCREMENT_SECS
                * NANOS_PER_SEC <= MAX_NANOS,
            outcome is Transient ==> old(self).failures() < u32::MAX,
        ensures
            final(self).began() == old(self).began(),
            final(self).lifetime_nanos() == old(self).lifetime_nanos(),
            final(self).interval_nanos() == old(self).interval_nanos() + if outcome is SlowDown {
                SLOW_DOWN_INCREMENT_SECS * NANOS_PER_SEC
            } else {
                0
            },
            final(self).failures() == if outcome is Transient {
                old(self).failures() + 1
            } else {
                0
            },
            flow_view(r) == match outcome@ {
                PollView::AccessDenied => Advance::Stop(FlowErrorView::AccessDenied),
                PollView::ExpiredOrInvalid => Advance::Stop(FlowErrorView::Expired),
                PollView::Transient(s) => if old(self).failures() + 1 >= MAX_TRANSIENT_ERRORS {
                    Advance::Stop(FlowErrorView::Network(s))
                } else {
                    Advance::Continue
                },
                _ => Advance::Continue,
            },
    {
        match outcome {
            PollOutcome::Transient(reason) => {
                self.transient_errors = self.transient_errors + 1;
                if self.transient_errors >= MAX_TRANSIENT_ERRORS {
                    ControlFlow::Break(DeviceFlowError::Network(reason.clone()))
                } else {
                    ControlFlow::Continue(())
                }
            },
            other => {
                self.transient_errors = 0;
                match other {
                    PollOutcome::SlowDown => {
                        self.interval = self.interval.plus(
                            Duration::from_secs(SLOW_DOWN_INCREMENT_SECS),
                        );
                        ControlFlow::Continue(())
                    },
                    PollOutcome::AccessDenied => ControlFlow::Break(DeviceFlowError::AccessDenied),
                    PollOutcome::ExpiredOrInvalid => ControlFlow::Break(DeviceFlowError::Expired),
                    _ => ControlFlow::Continue(()),
                }
            },
        }
    }
}

// ── Polling policy and driver ───────────────────────────────────────────────

/// A fixed interval that replaces the one the server asks for.
#[derive(Debug, Clone, Copy)]
pub struct PollingPolicy {
    pub interval_override: Option<Duration>,
}

impl PollingPolicy {
    /// Waits as long as the server asks for.
    pub fn production() -> (r: PollingPolicy)
        ensures
            r.interval_override is None,
    {
        PollingPolicy { interval_override: None }
    }

    /// Never waits.
    pub fn test_instant() -> (r: PollingPolicy)
        ensures
            opt_nanos(r.interval_override) == Some(0nat),
    {
        PollingPolicy { interval_override: Some(Duration::zero()) }
    }

    /// The interval to begin with.
    pub fn effective_interval(&self, server_interval_secs: u64) -> (r: Duration)
        ensures
            r@ == match self.interval_override {
                Some(d) => d@,
                None => (server_interval_secs * NANOS_PER_SEC) as nat,
            },
    {
        match self.interval_override {
            Some(d) => d,
            None => Duration::from_secs(server_interval_secs),
        }
    }

    /// The wait before a poll, given the current interval.
    pub fn effective_sleep(&self, state_interval: Duration) -> (r: Duration)
        ensures
            r == match self.interval_override {
                Some(d) => d,
                None => state_interval,
            },
    {
        match self.interval_override {
            Some(d) => d,
            None => state_interval,
        }
    }
}

/// What the polling does next.
#[derive(Debug)]
pub enum PollAction {
    /// Wait, then poll the token endpoint.
    SleepThenPoll(Duration),
    /// The user has approved: this is the token.
    Granted(TokenResponse),
    /// It is over.
    Failed(DeviceFlowError),
}

/// What the next action of the polling is.
pub enum ActionView {
    SleepThenPoll(nat),
    Granted(TokenView),
    Failed(FlowErrorView),
}

impl View for PollAction {
    type V = ActionView;

    open spec fn view(&self) -> ActionView {
        match self {
            PollAction::SleepThenPoll(d) => ActionView::SleepThenPoll(d@),
            PollAction::Granted(t) => ActionView::Granted(t@),
            PollAction::Failed(e) => ActionView::Failed(e@),
        }
    }
}

/// The top of the polling loop: give up when the codes are past their
/// lifetime, wait and poll otherwise.
pub open spec fn poll_again(interval: nat, fixed: Option<Duration>, expired: bool) -> ActionView {
    if expired {
        ActionView::Failed(FlowErrorView::Expired)
    } else {
        match fixed {
            Some(d) => ActionView::SleepThenPoll(d@),
            None => ActionView::SleepThenPoll(interval),
        }
    }
}

/// The first action of the polling, and the one after every poll that goes on.
pub fn next_poll(state: &PollState, policy: &PollingPolicy, expired: bool) -> (r: PollAction)
    ensures
        r@ == poll_again(state.interval_nanos(), policy.interval_override, expired),
{
    if expired {
        PollAction::Failed(DeviceFlowError::Expired)
    } else {
        PollAction::SleepThenPoll(policy.effective_sleep(state.interval()))
    }
}

/// Whether `after` and `action` are what follows a poll that came to `outcome`.
pub open spec fn is_after_poll(
    before: PollState,
    policy: PollingPolicy,
    outcome: PollView,
    expired: bool,
    after: PollState,
    action: ActionView,
) -> bool {
    &&& after.began() == before.began()
    &&& after.lifetime_nanos() == before.lifetime_nanos()
    &&& after.interval_nanos() == before.interval_nanos() + if outcome is SlowDown {
        SLOW_DOWN_INCREMENT_SECS * NANOS_PER_SEC
    } else {
        0
    }
    &&& after.failures() == match outcome {
        PollView::Transient(_) => before.failures() + 1,
        PollView::Token(_) => before.failures() as int,
        _ => 0,
    }
    &&& action == match outcome {
        PollView::Token(t) => ActionView::Granted(t),
        PollView::AccessDenied => ActionView::Failed(FlowErrorView::AccessDenied),
        PollView::ExpiredOrInvalid => ActionView::Failed(FlowErrorView::Expired),
        PollView::Transient(s) if before.failures() + 1 >= MAX_TRANSIENT_ERRORS =>
            ActionView::Failed(FlowErrorView::Network(s)),
        _ => poll_again(after.interval_nanos(), policy.interval_override, expired),
    }
}

/// The action after a poll: a token ends the polling, and so does an outcome
/// that `advance` stops at; otherwise the loop starts over.
pub fn after_poll(
    state: &mut PollState,
    policy: &PollingPolicy,
    outcome: PollOutcome,
    expired: bool,
) -> (r: PollAction)
    requires
        outcome is SlowDown ==> old(state).interval_nanos() + SLOW_DOWN_INCREMENT_SECS
            * NANOS_PER_SEC <= MAX_NANOS,
        outcome is Transient ==> old(state).failures() < u32::MAX,
    ensures
        is_after_poll(*old(state), *policy, outcome@, expired, *final(state), r@),
{
    match outcome {
        PollOutcome::Token(tokens) => PollAction::Granted(tokens),
        other => match state.advance(&other) {
            ControlFlow::Break(e) => PollAction::Failed(e),
            ControlFlow::Continue(_) => next_poll(state, policy, expired),
        },
    }
}

/// A form to post to the authorization server.
#[derive(Debug)]
pub struct FormRequest {
    pub url: String,
    pub form: Vec<(String, String)>,
}

/// What the pairs of a form are.
pub open spec fn pair_views(form: Seq<(String, String)>) -> Seq<(Seq<char>, Seq<char>)> {
    form.map_values(|p: (String, String)| (p.0@, p.1@))
}

/// Appends a pair to a form.
pub fn push_pair(form: &mut Vec<(String, String)>, name: &str, value: &str)
    ensures
        pair_views(final(form)@) == pair_views(old(form)@).push((name@, value@)),
{
    form.push((name.to_owned(), value.to_owned()));
    assert(pair_views(form@) =~= pair_views(old(form)@).push((name@, value@)));
}

/// The `scope` pair of a form: the scopes with a space between them, no pair
/// when that comes to nothing.
pub open spec fn scope_pairs(scopes: Seq<Seq<char>>) -> Seq<(Seq<char>, Seq<char>)> {
    let scope = joined(scopes, " "@);
    if scope.len() == 0 {
        Seq::empty()
    } else {
        seq![("scope"@, scope)]
    }
}

/// Appends the `scope` pair to a form, where there is one.
pub fn push_scope(form: &mut Vec<(String, String)>, scopes: &Vec<String>)
    ensures
        pair_views(final(form)@) == pair_views(old(form)@) + scope_pairs(views(scopes@)),
{
    let scope: String = join(scopes, " ");
    if !scope.as_str().is_empty() {
        push_pair(form, "scope", scope.as_str());
    }
    assert(pair_views(form@) =~= pair_views(old(form)@) + scope_pairs(views(scopes@)));
}

/// The form that asks for a device code.
pub fn device_code_request(auth_base_url: &str, client_id: &str, scopes: &Vec<String>) -> (r:
    FormRequest)
    ensures
        r.url@ == auth_base_url@ + "/auth/oauth/device"@,
        pair_views(r.form@) == seq![("client_id"@, client_id@)] + scope_pairs(views(scopes@)),
{
    let mut form: Vec<(String, String)> = Vec::new();
    push_pair(&mut form, "client_id", client_id);
    assert(pair_views(form@) =~= seq![("client_id"@, client_id@)]);
    push_scope(&mut form, scopes);
    FormRequest { url: auth_base_url.to_owned().concat("/auth/oauth/device"), form }
}

/// The form that polls for the token of a device code.
pub fn token_poll_request(auth_base_url: &str, device_code: &str) -> (r: FormRequest)
    ensures
        r.url@ == auth_base_url@ + "/auth/oauth/token"@,
        pair_views(r.form@) == seq![
            ("grant_type"@, "urn:ietf:params:oauth:grant-type:device_code"@),
            ("device_code"@, device_code@),
        ],
{
    let mut form: Vec<(String, String)> = Vec::new();
    push_pair(&mut form, "grant_type", "urn:ietf:params:oauth:grant-type:device_code");
    push_pair(&mut form, "device_code", device_code);
    assert(pair_views(form@) =~= seq![
        ("grant_type"@, "urn:ietf:params:oauth:grant-type:device_code"@),
        ("device_code"@, device_code@),
    ]);
    FormRequest { url: auth_base_url.to_owned().concat("/auth/oauth/token"), form }
}

// ── Banner ──────────────────────────────────────────────────────────────────

/// A text in groups of three characters, with a space between the groups.
pub open spec fn grouped(s: Seq<char>) -> Seq<char>
    decreases s.len(),
{
    if s.len() <= 3 {
        s
    } else {
        s.take(3).push(' ') + grouped(s.skip(3))
    }
}

/// Groups a user code in threes, with a space between the groups.
pub fn format_user_code(code: &str) -> (r: String)
    ensures
        r@ == grouped(code@),
{
    let cs: Vec<char> = chars_of(code);
    let mut out: String = String::new();
    let mut i: usize = 0;
    assert(code@.skip(0) =~= code@);
    assert(out@ + grouped(code@) =~= grouped(code@));
    while cs.len() - i > 3
        invariant
            cs@ == code@,
            i <= cs@.len(),
            grouped(code@) == out@ + grouped(code@.skip(i as int)),
        decreases cs@.len() - i,
    {
        let ghost before = out@;
        out.push(cs[i]);
        out.push(cs[i + 1]);
        out.push(cs[i + 2]);
        out.push(' ');
        proof {
            let rest = code@.skip(i as int);
            assert(rest.skip(3) =~= code@.skip(i as int + 3));
            assert(out@ =~= before + rest.take(3).push(' '));
            assert(before + grouped(rest) =~= out@ + grouped(rest.skip(3)));
        }
        i += 3;
    }
    let tail: String = string_of(&cs, i, cs.len());
    assert(tail@ =~= code@.skip(i as int));
    out.concat(tail.as_str())
}

/// Grouping keeps every character in order and only adds separators: the
/// character at `i` moves behind the `i / 3` separators before it.
pub proof fn grouped_keeps_characters(s: Seq<char>, i: int)
    requires
        0 <= i < s.len(),
    ensures
        grouped(s).len() == s.len() + (s.len() - 1) / 3,
        i + i / 3 < grouped(s).len(),
        grouped(s)[i + i / 3] == s[i],
    decreases s.len(),
{
    if s.len() > 3 {
        let rest = s.skip(3);
        if i >= 3 {
            grouped_keeps_characters(rest, i - 3);
            assert((i - 3) / 3 == i / 3 - 1);
        } else {
            grouped_keeps_characters(rest, 0);
        }
        assert((rest.len() - 1) / 3 == (s.len() - 1) / 3 - 1);
    }
}

/// The banner that asks the user to approve a device authorization.
pub open spec fn banner(
    user_code: Seq<char>,
    verification_uri: Seq<char>,
    complete: Option<Seq<char>>,
    expires_in: u64,
    interval: u64,
    sandbox: bool,
    resumed: bool,
) -> Seq<char> {
    let rule = "================================================================="@;
    rule + "\n allegro-mcp: Allegro device authorization"@ + (if sandbox {
        " (sandbox)"@
    } else {
        Seq::empty()
    }) + (if resumed {
        " — resuming your earlier device authorization"@
    } else {
        Seq::empty()
    }) + "\n"@ + (match complete {
        Some(link) => " Open this link in a browser and approve the request:\n   "@ + link
            + "\n (or open "@ + verification_uri + " and enter the code: "@ + grouped(user_code)
            + ")\n"@,
        None => " Open this URL in a browser, then enter the code:\n   "@ + verification_uri
            + "\n   code: "@ + grouped(user_code) + "\n"@,
    }) + " The code expires in "@ + decimal(expires_in as nat) + " s — polling every "@ + decimal(
        interval as nat,
    ) + " s until you approve or deny.\n"@ + rule
}

/// The banner that asks the user to approve a device authorization: the link
/// with the code filled in where there is one, the page and the code, the
/// expiry and how often is polled. `resumed` marks an earlier authorization.
pub fn banner_text(resp: &DeviceAuthorizationResponse, sandbox: bool, resumed: bool) -> (r: String)
    ensures
        r@ == banner(
            resp.user_code@,
            resp.verification_uri@,
            opt_view(resp.verification_uri_complete),
            resp.expires_in,
            resp.interval,
            sandbox,
            resumed,
        ),
{
    let rule: &str = "=================================================================";
    let mut out: String = rule.to_owned().concat("\n allegro-mcp: Allegro device authorization");
    let ghost h0 = out@;
    if sandbox {
        out.append(" (sandbox)");
    }
    assert(out@ =~= h0 + if sandbox {
        " (sandbox)"@
    } else {
        Seq::empty()
    });
    let ghost h1 = out@;
    if resumed {
        out.append(" — resuming your earlier device authorization");
    }
    assert(out@ =~= h1 + if resumed {
        " — resuming your earlier device authorization"@
    } else {
        Seq::empty()
    });
    out.append("\n");
    let code: String = format_user_code(resp.user_code.as_str());
    let how: String = match &resp.verification_uri_complete {
        Some(link) =>
            " Open this link in a browser and approve the request:\n   ".to_owned().concat(
            link.as_str()).concat("\n (or open ").concat(resp.verification_uri.as_str()).concat(
            " and enter the code: ",
        ).concat(code.as_str()).concat(")\n"),
        None => " Open this URL in a browser, then enter the code:\n   ".to_owned().concat(
            resp.verification_uri.as_str(),
        ).concat("\n   code: ").concat(code.as_str()).concat("\n"),
    };
    out.append(how.as_str());
    out.append(" The code expires in ");
    out.append(decimal_string(resp.expires_in).as_str());
    out.append(" s — polling every ");
    out.append(decimal_string(resp.interval).as_str());
    out.append(" s until you approve or deny.\n");
    out.append(rule);
    out
}

/// The banner tells nothing of the device code: two authorizations that differ
/// in nothing else have the same banner.
pub proof fn banner_hides_device_code(
    a: DeviceAuthorizationResponse,
    b: DeviceAuthorizationResponse,
    sandbox: bool,
    resumed: bool,
)
    requires
        b@ == (DeviceAuthorizationView { device_code: b@.device_code, ..a@ }),
    ensures
        banner(
            a@.user_code,
            a@.verification_uri,
            a@.verification_uri_complete,
            a@.expires_in,
            a@.interval,
            sandbox,
            resumed,
        ) == banner(
            b@.user_code,
            b@.verification_uri,
            b@.verification_uri_complete,
            b@.expires_in,
            b@.interval,
            sandbox,
            resumed,
        ),
{
}

// ── Resuming ────────────────────────────────────────────────────────────────

/// The answer that a stored authorization stands for at second `now`: its
/// lifetime is what is left of it.
pub open spec fn resumed_view(p: PendingView, now: u64) -> DeviceAuthorizationView {
    DeviceAuthorizationView {
        user_code: p.user_code,
        device_code: p.device_code,
        expires_in: if p.expires_at_epoch >= now {
            (p.expires_at_epoch - now) as u64
        } else {
            0
        },
        interval: p.interval_secs,
        verification_uri: p.verification_uri,
        verification_uri_complete: p.verification_uri_complete,
    }
}

impl PendingDeviceGrant {
    /// The answer that the stored authorization stands for at second `now`.
    pub fn to_authorization_response_at(&self, now: u64) -> (r: DeviceAuthorizationResponse)
        ensures
            r@ == resumed_view(self@, now),
    {
        DeviceAuthorizationResponse {
            user_code: self.user_code.clone(),
            device_code: self.device_code.clone(),
            expires_in: self.expires_at_epoch.saturating_sub(now),
            interval: self.interval_secs,
            verification_uri: self.verification_uri.clone(),
            verification_uri_complete: clone_opt(&self.verification_uri_complete),
        }
    }

    /// The answer that the stored authorization stands for now.
    pub fn to_authorization_response(&self) -> (r: DeviceAuthorizationResponse)
        ensures
            exists|now: u64| r@ == #[trigger] resumed_view(self@, now),
    {
        self.to_authorization_response_at(epoch_now())
    }
}

/// An authorization that is stored and resumed later is the same but for its
/// lifetime, which is shorter by the time that has passed.
pub proof fn resumed_after_stored(a: DeviceAuthorizationView, stored_at: u64, now: u64)
    requires
        stored_at <= now,
        stored_at + a.expires_in <= u64::MAX,
    ensures
        resumed_view(awaited(a, stored_at), now) == (DeviceAuthorizationView {
            expires_in: if a.expires_in >= now - stored_at {
                (a.expires_in - (now - stored_at)) as u64
            } else {
                0
            },
            ..a
        }),
{
}

// ── Laws ────────────────────────────────────────────────────────────────────

/// A number is read whether it stands there as a number or as a text, also with
/// white space around it.
pub proof fn numbers_are_read_leniently(n: u64, front: Seq<char>, back: Seq<char>)
    requires
        forall|i: int| 0 <= i < front.len() ==> front[i] == ' ',
        forall|i: int| 0 <= i < back.len() ==> back[i] == ' ',
    ensures
        lenient_u64(JsonView::Number(decimal(n as nat))) == Ok::<u64, Seq<char>>(n),
        lenient_u64(JsonView::Text(front + decimal(n as nat) + back)) == Ok::<u64, Seq<char>>(n),
{
    number_as_u64(n);
    decimal_is_read_back(n as nat, u64::MAX as nat);
    let d = decimal(n as nat);
    crate::text::decimal_value(n as nat);
    assert(crate::text::is_digit(d[0]));
    assert(crate::text::is_digit(d[d.len() - 1]));
    trimming_leaves_the_core(front, d, back);
}

/// What is neither a number nor a numeric text is refused.
pub proof fn other_values_are_no_numbers(j: JsonView)
    requires
        j is Null || j is Bool || j is Array || j is Object,
    ensures
        lenient_u64(j) is Err,
{
}

/// The answer to a request for a device code is read member by member.
pub proof fn device_authorization_is_read(
    j: JsonView,
    user_code: Seq<char>,
    device_code: Seq<char>,
    uri: Seq<char>,
    expires_in: u64,
    interval: u64,
)
    requires
        j is Object,
        j.get("user_code"@) == Some(JsonView::Text(user_code)),
        j.get("device_code"@) == Some(JsonView::Text(device_code)),
        j.get("verification_uri"@) == Some(JsonView::Text(uri)),
        j.get("expires_in"@) == Some(JsonView::Number(decimal(expires_in as nat))),
        j.get("interval"@) == Some(JsonView::Number(decimal(interval as nat))),
    ensures
        j.get("verification_uri_complete"@) is None ==> device_authorization(j) == Some(
            DeviceAuthorizationView {
                user_code,
                device_code,
                expires_in,
                interval,
                verification_uri: uri,
                verification_uri_complete: None,
            },
        ),
        j.get("verification_uri_complete"@) matches Some(JsonView::Text(link))
            ==> device_authorization(j) == Some(
            DeviceAuthorizationView {
                user_code,
                device_code,
                expires_in,
                interval,
                verification_uri: uri,
                verification_uri_complete: Some(link),
            },
        ),
{
    number_as_u64(expires_in);
    number_as_u64(interval);
}

/// What a 4xx answer to a poll means is in its member `error`: the user has not
/// decided, polls come too often, the user said no; with any other code, and
/// without one, the codes are dead.
pub proof fn poll_errors_are_told_apart(status: u16, body: Seq<char>, j: JsonView)
    requires
        400 <= status < 500,
        json_of_text(body) == Ok::<JsonView, Seq<char>>(j),
    ensures
        j.get("error"@) == Some(JsonView::Text("authorization_pending"@)) <==> poll_outcome(
            status,
            body,
        ) is AuthorizationPending,
        j.get("error"@) == Some(JsonView::Text("slow_down"@)) <==> poll_outcome(
            status,
            body,
        ) is SlowDown,
        j.get("error"@) == Some(JsonView::Text("access_denied"@)) <==> poll_outcome(
            status,
            body,
        ) is AccessDenied,
        poll_outcome(status, body) !is Token && poll_outcome(status, body) !is Transient,
{
    reveal_strlit("authorization_pending");
    reveal_strlit("slow_down");
    reveal_strlit("access_denied");
    assert("authorization_pending"@.len() == 21 && "slow_down"@.len() == 9
        && "access_denied"@.len() == 13);
}

/// A 4xx answer that is no JSON means that the codes are dead, one from 500 on is
/// a failure that may pass, and below 400 stands the token, or a failure that may
/// pass where there is none.
pub proof fn other_poll_answers(status: u16, body: Seq<char>)
    ensures
        400 <= status < 500 && json_of_text(body) is Err ==> poll_outcome(
            status,
            body,
        ) is ExpiredOrInvalid,
        status >= 500 ==> poll_outcome(status, body) is Transient,
        status < 400 ==> match token_of_text(body) {
            Ok(t) => poll_outcome(status, body) == PollView::Token(t),
            Err(_) => poll_outcome(status, body) is Transient,
        },
{
}

/// Polling ends with the token as soon as the user has approved, with a refusal as
/// soon as they have said no, and when the codes are dead or past their time.
pub proof fn when_polling_ends(
    before: PollState,
    policy: PollingPolicy,
    outcome: PollView,
    expired: bool,
    after: PollState,
    action: ActionView,
)
    requires
        is_after_poll(before, policy, outcome, expired, after, action),
    ensures
        outcome matches PollView::Token(t) ==> action == ActionView::Granted(t),
        action is Granted ==> outcome is Token,
        outcome is AccessDenied <==> action == ActionView::Failed(FlowErrorView::AccessDenied),
        outcome is ExpiredOrInvalid ==> action == ActionView::Failed(FlowErrorView::Expired),
        action == ActionView::Failed(FlowErrorView::Expired) ==> outcome is ExpiredOrInvalid
            || expired,
        outcome matches PollView::Transient(s) ==> (before.failures() >= 4 ==> action
            == ActionView::Failed(FlowErrorView::Network(s))),
        action matches ActionView::Failed(FlowErrorView::Network(_)) ==> outcome is Transient
            && before.failures() >= 4,
{
}

/// While the user has not decided, polling goes on at the interval of the server,
/// one second longer after every `slow_down`; a failure that may pass is counted,
/// and any answer but a token starts the count anew.
pub proof fn when_polling_goes_on(
    before: PollState,
    policy: PollingPolicy,
    outcome: PollView,
    after: PollState,
    action: ActionView,
)
    requires
        is_after_poll(before, policy, outcome, false, after, action),
        policy.interval_override is None,
    ensures
        outcome is AuthorizationPending ==> action == ActionView::SleepThenPoll(
            before.interval_nanos(),
        ) && after.interval_nanos() == before.interval_nanos() && after.failures() == 0,
        outcome is SlowDown ==> action == ActionView::SleepThenPoll(
            before.interval_nanos() + 1_000_000_000,
        ) && after.interval_nanos() == before.interval_nanos() + 1_000_000_000 && after.failures()
            == 0,
        outcome is Transient && before.failures() < 4 ==> action == ActionView::SleepThenPoll(
            before.interval_nanos(),
        ) && after.interval_nanos() == before.interval_nanos() && after.failures()
            == before.failures() + 1,
        after.lifetime_nanos() == before.lifetime_nanos(),
        after.began() == before.began(),
{
}

/// The separators of a grouped text stand behind every third character.
pub proof fn groups_are_separated(s: Seq<char>, k: int)
    requires
        0 <= k,
        4 * k + 3 < grouped(s).len(),
    ensures
        grouped(s)[4 * k + 3] == ' ',
    decreases s.len(),
{
    if s.len() > 3 {
        if k > 0 {
            assert(grouped(s)[4 * k + 3] == grouped(s.skip(3))[4 * (k - 1) + 3]);
            groups_are_separated(s.skip(3), k - 1);
        }
    }
}

proof fn banner_keeps(
    a: DeviceAuthorizationView,
    sandbox: bool,
    resumed: bool,
    how: Seq<char>,
    part: Seq<char>,
)
    requires
        contains_text(how, part),
        how == match a.verification_uri_complete {
            Some(link) => " Open this link in a browser and approve the request:\n   "@ + link
                + "\n (or open "@ + a.verification_uri + " and enter the code: "@ + grouped(
                a.user_code,
            ) + ")\n"@,
            None => " Open this URL in a browser, then enter the code:\n   "@ + a.verification_uri
                + "\n   code: "@ + grouped(a.user_code) + "\n"@,
        },
    ensures
        contains_text(
            banner(
                a.user_code,
                a.verification_uri,
                a.verification_uri_complete,
                a.expires_in,
                a.interval,
                sandbox,
                resumed,
            ),
            part,
        ),
{
    let rule = "================================================================="@;
    let head = rule + "\n allegro-mcp: Allegro device authorization"@ + (if sandbox {
        " (sandbox)"@
    } else {
        Seq::empty()
    }) + (if resumed {
        " — resuming your earlier device authorization"@
    } else {
        Seq::empty()
    }) + "\n"@;
    let t0 = head + how;
    text_stays_contained(head, how, part);
    text_stays_contained(t0, " The code expires in "@, part);
    let t1 = t0 + " The code expires in "@;
    text_stays_contained(t1, decimal(a.expires_in as nat), part);
    let t2 = t1 + decimal(a.expires_in as nat);
    text_stays_contained(t2, " s — polling every "@, part);
    let t3 = t2 + " s — polling every "@;
    text_stays_contained(t3, decimal(a.interval as nat), part);
    let t4 = t3 + decimal(a.interval as nat);
    text_stays_contained(t4, " s until you approve or deny.\n"@, part);
    let t5 = t4 + " s until you approve or deny.\n"@;
    text_stays_contained(t5, rule, part);
}

/// The banner shows the user where to go and what to type: the page, the code in
/// groups, and the link with the code filled in where there is one.
pub proof fn banner_shows_the_way(a: DeviceAuthorizationView, sandbox: bool, resumed: bool)
    ensures
        ({
            let shown = banner(
                a.user_code,
                a.verification_uri,
                a.verification_uri_complete,
                a.expires_in,
                a.interval,
                sandbox,
                resumed,
            );
            &&& contains_text(shown, a.verification_uri)
            &&& contains_text(shown, grouped(a.user_code))
            &&& a.verification_uri_complete matches Some(link) ==> contains_text(shown, link)
        }),
{
    let uri = a.verification_uri;
    let code = grouped(a.user_code);
    match a.verification_uri_complete {
        Some(link) => {
            let m0 = " Open this link in a browser and approve the request:\n   "@;
            let m1 = m0 + link;
            let m2 = m1 + "\n (or open "@;
            let m3 = m2 + uri;
            let m4 = m3 + " and enter the code: "@;
            let m5 = m4 + code;
            let how = m5 + ")\n"@;
            text_stays_contained(m0, link, link);
            text_stays_contained(m1, "\n (or open "@, link);
            text_stays_contained(m2, uri, link);
            text_stays_contained(m3, " and enter the code: "@, link);
            text_stays_contained(m4, code, link);
            text_stays_contained(m5, ")\n"@, link);
            banner_keeps(a, sandbox, resumed, how, link);
            text_stays_contained(m2, uri, uri);
            text_stays_contained(m3, " and enter the code: "@, uri);
            text_stays_contained(m4, code, uri);
            text_stays_contained(m5, ")\n"@, uri);
            banner_keeps(a, sandbox, resumed, how, uri);
            text_stays_contained(m4, code, code);
            text_stays_contained(m5, ")\n"@, code);
            banner_keeps(a, sandbox, resumed, how, code);
        },
        None => {
            let m0 = " Open this URL in a browser, then enter the code:\n   "@;
            let m1 = m0 + uri;
            let m2 = m1 + "\n   code: "@;
            let m3 = m2 + code;
            let how = m3 + "\n"@;
            text_stays_contained(m0, uri, uri);
            text_stays_contained(m1, "\n   code: "@, uri);
            text_stays_contained(m2, code, uri);
            text_stays_contained(m3, "\n"@, uri);
            banner_keeps(a, sandbox, resumed, how, uri);
            text_stays_contained(m2, code, code);
            text_stays_contained(m3, "\n"@, code);
            banner_keeps(a, sandbox, resumed, how, code);
        },
    }
}

/// A form names the scopes that were asked for, with blanks between them, and no
/// scope where none was.
pub proof fn scopes_are_named(scopes: Seq<Seq<char>>, scope: Seq<char>)
    ensures
        scope_pairs(Seq::empty()) == Seq::<(Seq<char>, Seq<char>)>::empty(),
        scope.len() > 0 ==> scope_pairs(seq![scope]) == seq![("scope"@, scope)],
        scopes.len() > 0 ==> scope_pairs(scopes.push(scope)) == seq![
            ("scope"@, joined(scopes, " "@) + " "@ + scope),
        ],
{
    reveal_strlit(" ");
    crate::text::joining_appends(scopes, scope, " "@);
    assert(" "@.len() == 1);
}

/// Codes are dead from the end of their lifetime on, and alive until then.
pub proof fn codes_die_at_the_end_of_their_lifetime(state: PollState, elapsed: nat)
    ensures
        state.is_over(state.lifetime_nanos()),
        elapsed < state.lifetime_nanos() ==> !state.is_over(elapsed),
        state.lifetime_nanos() <= elapsed ==> state.is_over(elapsed),
{
}

/// The banner says for how long the codes live and how often they are polled, and it
/// tells codes that are taken up again, and those of the sandbox, from others.
pub proof fn banners_differ(
    a: DeviceAuthorizationView,
    sandbox: bool,
    resumed: bool,
)
    ensures
        ({
            let shown = banner(
                a.user_code,
                a.verification_uri,
                a.verification_uri_complete,
                a.expires_in,
                a.interval,
                sandbox,
                resumed,
            );
            &&& contains_text(shown, decimal(a.expires_in as nat))
            &&& contains_text(shown, decimal(a.interval as nat))
            &&& resumed ==> contains_text(
                shown,
                " — resuming your earlier device authorization"@,
            )
            &&& sandbox ==> contains_text(shown, " (sandbox)"@)
            &&& !resumed && !sandbox ==> shown.len() < banner(
                a.user_code,
                a.verification_uri,
                a.verification_uri_complete,
                a.expires_in,
                a.interval,
                sandbox,
                true,
            ).len()
        }),
{
    let rule = "================================================================="@;
    let place = if sandbox {
        " (sandbox)"@
    } else {
        Seq::<char>::empty()
    };
    let again = if resumed {
        " — resuming your earlier device authorization"@
    } else {
        Seq::<char>::empty()
    };
    let how = match a.verification_uri_complete {
        Some(link) => " Open this link in a browser and approve the request:\n   "@ + link
            + "\n (or open "@ + a.verification_uri + " and enter the code: "@ + grouped(a.user_code)
            + ")\n"@,
        None => " Open this URL in a browser, then enter the code:\n   "@ + a.verification_uri
            + "\n   code: "@ + grouped(a.user_code) + "\n"@,
    };
    let life = decimal(a.expires_in as nat);
    let pace = decimal(a.interval as nat);
    let t0 = rule + "\n allegro-mcp: Allegro device authorization"@;
    let t1 = t0 + place;
    let t2 = t1 + again;
    let t3 = t2 + "\n"@;
    let t4 = t3 + how;
    let t5 = t4 + " The code expires in "@;
    let t6 = t5 + life;
    let t7 = t6 + " s — polling every "@;
    let t8 = t7 + pace;
    let t9 = t8 + " s until you approve or deny.\n"@;
    let t10 = t9 + rule;
    assert(t10 == banner(
        a.user_code,
        a.verification_uri,
        a.verification_uri_complete,
        a.expires_in,
        a.interval,
        sandbox,
        resumed,
    ));
    text_stays_contained(t7, pace, pace);
    text_stays_contained(t8, " s until you approve or deny.\n"@, pace);
    text_stays_contained(t9, rule, pace);
    text_stays_contained(t5, life, life);
    text_stays_contained(t6, " s — polling every "@, life);
    text_stays_contained(t7, pace, life);
    text_stays_contained(t8, " s until you approve or deny.\n"@, life);
    text_stays_contained(t9, rule, life);
    text_stays_contained(t1, again, again);
    text_stays_contained(t2, "\n"@, again);
    text_stays_contained(t3, how, again);
    text_stays_contained(t4, " The code expires in "@, again);
    text_stays_contained(t5, life, again);
    text_stays_contained(t6, " s — polling every "@, again);
    text_stays_contained(t7, pace, again);
    text_stays_contained(t8, " s until you approve or deny.\n"@, again);
    text_stays_contained(t9, rule, again);
    text_stays_contained(t0, place, place);
    text_stays_contained(t1, again, place);
    text_stays_contained(t2, "\n"@, place);
    text_stays_contained(t3, how, place);
    text_stays_contained(t4, " The code expires in "@, place);
    text_stays_contained(t5, life, place);
    text_stays_contained(t6, " s — polling every "@, place);
    text_stays_contained(t7, pace, place);
    text_stays_contained(t8, " s until you approve or deny.\n"@, place);
    text_stays_contained(t9, rule, place);
    reveal_strlit(" — resuming your earlier device authorization");
    assert(" — resuming your earlier device authorization"@.len() > 0);
}

} // verus!
