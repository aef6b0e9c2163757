//! The decisions of an upstream call: which provider candidate to try,
//! which key to try it with, and what to do with each answer.
//!
//! Candidates are tried in order; for each, keys are rotated up to the
//! number the provider has. Key-level refusals (401, 402, 403, 429, and a
//! 400 that reports exhausted quota) rotate the key; with failover, network
//! errors, header timeouts, 5xx answers and running out of keys move on to
//! the next candidate and put the provider in cooldown. The side that
//! performs the calls feeds each outcome back as an event and carries out
//! the action it is given.
//!
//! Streaming clients learn of a final error through an error event; other
//! clients through a response with a status.

use vstd::prelude::*;
use crate::config::{decimal, decimal_string};
use crate::non_stream::{error_type_for_status, error_type_spec};
use crate::stream::{error_message_spec, extract_error_message, is_key_quota_error, key_quota_spec};
use crate::text::{truncate_chars, truncate_spec};
use crate::ir::{IrRequest, RequestV};
use crate::json::{fields_view, json_string, object_of, push_field, str_eq, Json, JsonV};

verus! {

/// A key that was picked: its id, name and masked form.
pub struct KeyRef {
    pub id: String,
    pub name: String,
    pub masked: String,
}

pub struct KeyV {
    pub id: Seq<char>,
    pub name: Seq<char>,
    pub masked: Seq<char>,
}

impl View for KeyRef {
    type V = KeyV;

    open spec fn view(&self) -> KeyV {
        KeyV { id: self.id@, name: self.name@, masked: self.masked@ }
    }
}

impl KeyRef {
    pub fn copy(&self) -> (r: KeyRef)
        ensures
            r@ == self@,
    {
        KeyRef { id: self.id.clone(), name: self.name.clone(), masked: self.masked.clone() }
    }
}

pub open spec fn opt_key_view(k: Option<KeyRef>) -> Option<KeyV> {
    match k {
        Some(x) => Some(x@),
        None => None,
    }
}

fn copy_opt_key(k: &Option<KeyRef>) -> (r: Option<KeyRef>)
    ensures
        opt_key_view(r) == opt_key_view(*k),
{
    match k {
        Some(x) => Some(x.copy()),
        None => None,
    }
}

/// Why a provider was left for the next one (streaming clients): reported
/// when no later provider succeeds.
pub enum Failure {
    Network { candidate: usize, key: Option<KeyRef>, message: String },
    HeaderTimeout { candidate: usize, key: Option<KeyRef> },
    Upstream5xx { candidate: usize, key: Option<KeyRef>, body: String },
    StreamError { candidate: usize, key: Option<KeyRef>, status: u16, message: String },
}

pub enum FailureV {
    Network { candidate: int, key: Option<KeyV>, message: Seq<char> },
    HeaderTimeout { candidate: int, key: Option<KeyV> },
    Upstream5xx { candidate: int, key: Option<KeyV>, body: Seq<char> },
    StreamError { candidate: int, key: Option<KeyV>, status: u16, message: Seq<char> },
}

impl View for Failure {
    type V = FailureV;

    open spec fn view(&self) -> FailureV {
        match *self {
            Failure::Network { candidate, key, message } => FailureV::Network {
                candidate: candidate as int,
                key: opt_key_view(key),
                message: message@,
            },
            Failure::HeaderTimeout { candidate, key } => FailureV::HeaderTimeout {
                candidate: candidate as int,
                key: opt_key_view(key),
            },
            Failure::Upstream5xx { candidate, key, body } => FailureV::Upstream5xx {
                candidate: candidate as int,
                key: opt_key_view(key),
                body: body@,
            },
            Failure::StreamError { candidate, key, status, message } => FailureV::StreamError {
                candidate: candidate as int,
                key: opt_key_view(key),
                status,
                message: message@,
            },
        }
    }
}

/// What is awaited.
#[derive(Debug, Clone, Copy, PartialEq, Eq, Structural)]
pub enum Phase {
    /// Whether the candidate is cooling and how many keys it has.
    Inspect,
    /// A key for the candidate.
    Pick,
    /// The answer to the request sent with the key.
    Send,
    /// The outcome of passing on (or collecting) a successful answer.
    Forward,
    /// Nothing: the call is over.
    Finished,
}

/// The usage-log entry of a failed call: the candidate and key it concerns
/// and the error text.
pub struct ErrorLog {
    pub candidate: usize,
    pub key: Option<KeyRef>,
    pub detail: String,
}

pub struct ErrorLogV {
    pub candidate: int,
    pub key: Option<KeyV>,
    pub detail: Seq<char>,
}

/// How the call ends.
pub enum DispatchEnd {
    /// An upstream answer was passed on (or collected and answered).
    Served,
    /// An error for the client: with a status for a non-streaming client
    /// (none for a streaming one, who gets an error event), its type and
    /// message, and what to log.
    Error { status: Option<u16>, error_type: String, message: String, log: Option<ErrorLog> },
}

pub enum DispatchEndV {
    Served,
    Error { status: Option<u16>, error_type: Seq<char>, message: Seq<char>, log: Option<ErrorLogV> },
}

/// What to do next.
pub enum DispatchAction {
    Inspect(usize),
    PickKey(usize),
    /// Send the request to the candidate with the key last picked.
    Send(usize),
    /// Pass on (or collect) the candidate's successful answer.
    Forward(usize),
    Finish(DispatchEnd),
}

pub enum ActionV {
    Inspect(int),
    PickKey(int),
    Send(int),
    Forward(int),
    Finish(DispatchEndV),
}

/// One step: the bookkeeping to do (in this order: the key's health with
/// the status, then the provider's cooldown or its recovery), then the
/// action.
pub struct DispatchStep {
    pub key_health: Option<u16>,
    pub mark_failed: Option<usize>,
    pub mark_ok: Option<usize>,
    pub action: DispatchAction,
}

pub struct StepV {
    pub key_health: Option<u16>,
    pub mark_failed: Option<int>,
    pub mark_ok: Option<int>,
    pub action: ActionV,
}

/// What happened, in answer to the last action.
pub enum DispatchEvent {
    Inspected { cooling: bool, max_attempts: u32 },
    Picked(Option<KeyRef>),
    NetworkError(String),
    HeaderTimeout,
    /// An HTTP answer, with its body where it is not a success.
    Answered { status: u16, body: String },
    /// A key-level error inside a successful answer, before anything reached
    /// the client.
    KeyError { status: u16, message: String },
    /// The answer was passed on, or its error passed on as it came.
    Delivered,
    /// An error inside the answer that changing keys does not cure.
    Failed { status: u16, message: String },
}

pub enum EventV {
    Inspected { cooling: bool, max_attempts: int },
    Picked(Option<KeyV>),
    NetworkError(Seq<char>),
    HeaderTimeout,
    Answered { status: u16, body: Seq<char> },
    KeyError { status: u16, message: Seq<char> },
    Delivered,
    Failed { status: u16, message: Seq<char> },
}

impl View for DispatchEvent {
    type V = EventV;

    open spec fn view(&self) -> EventV {
        match *self {
            DispatchEvent::Inspected { cooling, max_attempts } => EventV::Inspected {
                cooling,
                max_attempts: max_attempts as int,
            },
            DispatchEvent::Picked(k) => EventV::Picked(opt_key_view(k)),
            DispatchEvent::NetworkError(m) => EventV::NetworkError(m@),
            DispatchEvent::HeaderTimeout => EventV::HeaderTimeout,
            DispatchEvent::Answered { status, body } => EventV::Answered { status, body: body@ },
            DispatchEvent::KeyError { status, message } => EventV::KeyError { status, message: message@ },
            DispatchEvent::Delivered => EventV::Delivered,
            DispatchEvent::Failed { status, message } => EventV::Failed { status, message: message@ },
        }
    }
}

/// The state of a call.
pub struct Dispatch {
    /// The number of candidates.
    pub n: usize,
    pub failover: bool,
    /// Whether the alias is a combo: a plain 400 then ends a streaming call.
    pub is_combo: bool,
    /// Whether the client streams.
    pub streaming: bool,
    pub header_timeout_secs: u64,
    /// The candidate being tried.
    pub ci: usize,
    /// The keys tried for it so far, and how many it may take.
    pub attempts: u32,
    pub max_attempts: u32,
    /// The last candidate not skipped, and the last key picked.
    pub last_candidate: usize,
    pub last_key: Option<KeyRef>,
    /// Streaming: the last refusal (status and body), the body of the last
    /// 400, and why a provider was last left.
    pub last_resp: Option<(u16, String)>,
    pub last_resp_body: Option<String>,
    pub failure: Option<Failure>,
    /// Not streaming: the status and message of the last failure.
    pub last_error: Option<(u16, String)>,
    pub phase: Phase,
}

pub struct DispatchV {
    pub n: int,
    pub failover: bool,
    pub is_combo: bool,
    pub streaming: bool,
    pub header_timeout_secs: u64,
    pub ci: int,
    pub attempts: int,
    pub max_attempts: int,
    pub last_candidate: int,
    pub last_key: Option<KeyV>,
    pub last_resp: Option<(u16, Seq<char>)>,
    pub last_resp_body: Option<Seq<char>>,
    pub failure: Option<FailureV>,
    pub last_error: Option<(u16, Seq<char>)>,
    pub phase: Phase,
}

pub open spec fn pair_view(p: Option<(u16, String)>) -> Option<(u16, Seq<char>)> {
    match p {
        Some((a, b)) => Some((a, b@)),
        None => None,
    }
}

impl View for Dispatch {
    type V = DispatchV;

    open spec fn view(&self) -> DispatchV {
        DispatchV {
            n: self.n as int,
            failover: self.failover,
            is_combo: self.is_combo,
            streaming: self.streaming,
            header_timeout_secs: self.header_timeout_secs,
            ci: self.ci as int,
            attempts: self.attempts as int,
            max_attempts: self.max_attempts as int,
            last_candidate: self.last_candidate as int,
            last_key: opt_key_view(self.last_key),
            last_resp: pair_view(self.last_resp),
            last_resp_body: crate::json::opt_str_view(self.last_resp_body),
            failure: match self.failure {
                Some(f) => Some(f@),
                None => None,
            },
            last_error: pair_view(self.last_error),
            phase: self.phase,
        }
    }
}

impl View for ErrorLog {
    type V = ErrorLogV;

    open spec fn view(&self) -> ErrorLogV {
        ErrorLogV { candidate: self.candidate as int, key: opt_key_view(self.key), detail: self.detail@ }
    }
}

impl View for DispatchEnd {
    type V = DispatchEndV;

    open spec fn view(&self) -> DispatchEndV {
        match *self {
            DispatchEnd::Served => DispatchEndV::Served,
            DispatchEnd::Error { status, error_type, message, log } => DispatchEndV::Error {
                status,
                error_type: error_type@,
                message: message@,
                log: match log {
                    Some(l) => Some(l@),
                    None => None,
                },
            },
        }
    }
}

impl View for DispatchAction {
    type V = ActionV;

    open spec fn view(&self) -> ActionV {
        match *self {
            DispatchAction::Inspect(i) => ActionV::Inspect(i as int),
            DispatchAction::PickKey(i) => ActionV::PickKey(i as int),
            DispatchAction::Send(i) => ActionV::Send(i as int),
            DispatchAction::Forward(i) => ActionV::Forward(i as int),
            DispatchAction::Finish(e) => ActionV::Finish(e@),
        }
    }
}

impl View for DispatchStep {
    type V = StepV;

    open spec fn view(&self) -> StepV {
        StepV {
            key_health: self.key_health,
            mark_failed: match self.mark_failed {
                Some(c) => Some(c as int),
                None => None,
            },
            mark_ok: match self.mark_ok {
                Some(c) => Some(c as int),
                None => None,
            },
            action: self.action@,
        }
    }
}

// ---- the rules ----

/// The state is sound: a live call is at a real candidate and has not used
/// more keys than allowed.
pub open spec fn dispatch_wf(s: DispatchV) -> bool {
    &&& 0 <= s.ci <= s.n
    &&& s.n <= usize::MAX
    &&& (s.phase != Phase::Finished ==> s.ci < s.n)
    &&& 0 <= s.attempts <= s.max_attempts <= u32::MAX
    &&& 0 <= s.last_candidate < s.n
}

/// Whether the event answers what the state awaits.
pub open spec fn event_fits(p: Phase, ev: EventV) -> bool {
    match p {
        Phase::Inspect => ev matches EventV::Inspected { max_attempts, .. } && 0 <= max_attempts
            <= u32::MAX,
        Phase::Pick => ev is Picked,
        Phase::Send => ev is NetworkError || ev is HeaderTimeout || ev is Answered,
        Phase::Forward => ev is KeyError || ev is Delivered || ev is Failed,
        Phase::Finished => false,
    }
}

/// A later candidate can take over.
pub open spec fn more_after(s: DispatchV) -> bool {
    s.failover && s.ci + 1 < s.n
}

pub open spec fn plain(a: ActionV) -> StepV {
    StepV { key_health: None, mark_failed: None, mark_ok: None, action: a }
}

pub open spec fn timeout_message(secs: u64) -> Seq<char> {
    "upstream timed out after "@ + decimal(secs as nat) + "s waiting for response headers"@
}

pub open spec fn no_keys_message() -> Seq<char> {
    "No available upstream keys"@
}

pub open spec fn api_error(message: Seq<char>, log: Option<ErrorLogV>) -> DispatchEndV {
    DispatchEndV::Error { status: None, error_type: "api_error"@, message, log }
}

/// How a call that ran out of candidates ends.
pub open spec fn exhausted_end(s: DispatchV) -> DispatchEndV {
    if s.streaming {
        match s.failure {
            Some(FailureV::Network { candidate, key, message }) => api_error(
                message,
                Some(ErrorLogV { candidate, key, detail: message }),
            ),
            Some(FailureV::HeaderTimeout { candidate, key }) => api_error(
                timeout_message(s.header_timeout_secs),
                Some(ErrorLogV { candidate, key, detail: timeout_message(s.header_timeout_secs) }),
            ),
            Some(FailureV::Upstream5xx { candidate, key, body }) => api_error(
                error_message_spec(body),
                Some(
                    ErrorLogV {
                        candidate,
                        key,
                        detail: "upstream 5xx: "@ + error_message_spec(body) + " | body: "@
                            + truncate_spec(body, 200),
                    },
                ),
            ),
            Some(FailureV::StreamError { candidate, key, status, message }) => api_error(
                "upstream "@ + decimal(status as nat) + ": "@ + message,
                Some(
                    ErrorLogV {
                        candidate,
                        key,
                        detail: "upstream stream error "@ + decimal(status as nat) + ": "@ + message,
                    },
                ),
            ),
            None => match s.last_resp {
                Some((st, body)) => api_error(
                    error_message_spec(body),
                    Some(
                        ErrorLogV {
                            candidate: s.last_candidate,
                            key: s.last_key,
                            detail: "upstream status "@ + decimal(st as nat) + ": "@ + truncate_spec(
                                body,
                                200,
                            ),
                        },
                    ),
                ),
                None => match s.last_resp_body {
                    Some(body) => api_error(
                        error_message_spec(body),
                        Some(
                            ErrorLogV {
                                candidate: s.last_candidate,
                                key: s.last_key,
                                detail: "upstream status 400: "@ + truncate_spec(body, 200),
                            },
                        ),
                    ),
                    None => api_error(no_keys_message(), None),
                },
            },
        }
    } else {
        let (st, msg) = match s.last_error {
            Some(e) => e,
            None => (503u16, no_keys_message()),
        };
        DispatchEndV::Error {
            status: Some(st),
            error_type: error_type_spec(st),
            message: msg,
            log: Some(ErrorLogV { candidate: s.last_candidate, key: s.last_key, detail: msg }),
        }
    }
}

pub open spec fn finish_with(s: DispatchV, end: DispatchEndV) -> (DispatchV, ActionV) {
    (DispatchV { phase: Phase::Finished, ..s }, ActionV::Finish(end))
}

/// Moves to candidate `i`, or ends where there is none.
pub open spec fn goto_candidate(s: DispatchV, i: int) -> (DispatchV, ActionV) {
    if i < s.n {
        (DispatchV { ci: i, phase: Phase::Inspect, ..s }, ActionV::Inspect(i))
    } else {
        finish_with(DispatchV { ci: i, ..s }, exhausted_end(s))
    }
}

/// Leaves the candidate for the next: in cooldown where a later one can
/// take over.
pub open spec fn leave_candidate(s: DispatchV, key_health: Option<u16>) -> (DispatchV, StepV) {
    let (s2, a) = goto_candidate(s, s.ci + 1);
    (
        s2,
        StepV {
            key_health,
            mark_failed: if more_after(s) {
                Some(s.ci)
            } else {
                None
            },
            mark_ok: None,
            action: a,
        },
    )
}

/// Tries another key of the candidate, or leaves it when all were tried.
pub open spec fn next_key(s: DispatchV, key_health: Option<u16>) -> (DispatchV, StepV) {
    if s.attempts >= s.max_attempts {
        leave_candidate(s, key_health)
    } else {
        (
            DispatchV { attempts: s.attempts + 1, phase: Phase::Pick, ..s },
            StepV { key_health, mark_failed: None, mark_ok: None, action: ActionV::PickKey(s.ci) },
        )
    }
}

/// Gives up on the candidate: with failover and a later one, the failure
/// is noted (for streaming clients) and the provider put in cooldown;
/// otherwise the call ends at once (`immediate`).
pub open spec fn give_up(
    s: DispatchV,
    noted: DispatchV,
    immediate: DispatchEndV,
    key_health: Option<u16>,
) -> (DispatchV, StepV) {
    if more_after(s) {
        leave_candidate(noted, key_health)
    } else {
        let (s2, a) = finish_with(noted, immediate);
        (s2, StepV { key_health, mark_failed: None, mark_ok: None, action: a })
    }
}

/// What an event does.
pub open spec fn dispatch_step(s: DispatchV, ev: EventV) -> (DispatchV, StepV) {
    match ev {
        EventV::Inspected { cooling, max_attempts } => if s.failover && cooling {
            let (s2, a) = goto_candidate(s, s.ci + 1);
            (s2, plain(a))
        } else {
            next_key(
                DispatchV { last_candidate: s.ci, max_attempts, attempts: 0, ..s },
                None,
            )
        },
        EventV::Picked(None) => leave_candidate(s, None),
        EventV::Picked(Some(k)) => (
            DispatchV { last_key: Some(k), phase: Phase::Send, ..s },
            plain(ActionV::Send(s.ci)),
        ),
        EventV::NetworkError(msg) => if s.streaming {
            give_up(
                s,
                DispatchV {
                    failure: Some(FailureV::Network { candidate: s.ci, key: s.last_key, message: msg }),
                    ..s
                },
                api_error(msg, Some(ErrorLogV { candidate: s.ci, key: s.last_key, detail: msg })),
                None,
            )
        } else {
            let s1 = DispatchV { last_error: Some((502u16, msg)), ..s };
            give_up(s, s1, exhausted_end(s1), None)
        },
        EventV::HeaderTimeout => {
            let m = timeout_message(s.header_timeout_secs);
            if s.streaming {
                give_up(
                    s,
                    DispatchV {
                        failure: Some(FailureV::HeaderTimeout { candidate: s.ci, key: s.last_key }),
                        ..s
                    },
                    api_error(m, Some(ErrorLogV { candidate: s.ci, key: s.last_key, detail: m })),
                    None,
                )
            } else {
                let s1 = DispatchV { last_error: Some((504u16, m)), ..s };
                give_up(s, s1, exhausted_end(s1), None)
            }
        },
        EventV::Answered { status, body } => if status == 400 {
            if key_quota_spec(body) {
                next_key(
                    if s.streaming {
                        DispatchV { last_resp_body: Some(body), last_resp: None, ..s }
                    } else {
                        DispatchV { last_error: Some((402u16, error_message_spec(body))), ..s }
                    },
                    Some(402u16),
                )
            } else if s.streaming {
                let s1 = DispatchV { last_resp: None, last_resp_body: Some(body), ..s };
                if s.is_combo {
                    let (s2, a) = finish_with(s1, exhausted_end(s1));
                    (s2, StepV { key_health: Some(400u16), mark_failed: None, mark_ok: None, action: a })
                } else {
                    let (s2, a) = goto_candidate(s1, s.ci + 1);
                    (s2, StepV { key_health: Some(400u16), mark_failed: None, mark_ok: None, action: a })
                }
            } else {
                let (s2, a) = finish_with(
                    s,
                    DispatchEndV::Error {
                        status: Some(400u16),
                        error_type: "invalid_request_error"@,
                        message: error_message_spec(body),
                        log: Some(
                            ErrorLogV {
                                candidate: s.ci,
                                key: s.last_key,
                                detail: "upstream status 400: "@ + truncate_spec(body, 200),
                            },
                        ),
                    },
                );
                (s2, StepV { key_health: Some(400u16), mark_failed: None, mark_ok: None, action: a })
            }
        } else if status == 401 || status == 402 || status == 403 || status == 429 {
            next_key(
                if s.streaming {
                    DispatchV { last_resp: Some((status, body)), ..s }
                } else {
                    DispatchV { last_error: Some((status, error_message_spec(body))), ..s }
                },
                Some(status),
            )
        } else if 500 <= status <= 599 {
            if s.streaming {
                if more_after(s) {
                    leave_candidate(
                        DispatchV {
                            failure: Some(FailureV::Upstream5xx { candidate: s.ci, key: s.last_key, body }),
                            ..s
                        },
                        Some(status),
                    )
                } else {
                    leave_candidate(DispatchV { last_resp: Some((status, body)), ..s }, Some(status))
                }
            } else {
                let s1 = DispatchV { last_error: Some((status, error_message_spec(body))), ..s };
                give_up(s, s1, exhausted_end(s1), Some(status))
            }
        } else {
            (
                DispatchV { phase: Phase::Forward, ..s },
                StepV {
                    key_health: Some(status),
                    mark_failed: None,
                    mark_ok: Some(s.ci),
                    action: ActionV::Forward(s.ci),
                },
            )
        },
        EventV::KeyError { status, message } => next_key(
            if s.streaming {
                DispatchV {
                    failure: Some(
                        FailureV::StreamError { candidate: s.ci, key: s.last_key, status, message },
                    ),
                    last_resp: None,
                    last_resp_body: None,
                    ..s
                }
            } else {
                DispatchV { last_error: Some((status, message)), ..s }
            },
            Some(status),
        ),
        EventV::Delivered => {
            let (s2, a) = finish_with(s, DispatchEndV::Served);
            (s2, plain(a))
        },
        EventV::Failed { status, message } => {
            let (s2, a) = finish_with(
                s,
                DispatchEndV::Error {
                    status: Some(status),
                    error_type: error_type_spec(status),
                    message,
                    log: Some(
                        ErrorLogV {
                            candidate: s.ci,
                            key: s.last_key,
                            detail: "upstream stream error "@ + decimal(status as nat) + ": "@ + message,
                        },
                    ),
                },
            );
            (s2, plain(a))
        },
    }
}


pub open spec fn initial_dispatch(n: int, failover: bool, is_combo: bool, streaming: bool, secs: u64) -> DispatchV {
    DispatchV {
        n,
        failover,
        is_combo,
        streaming,
        header_timeout_secs: secs,
        ci: 0,
        attempts: 0,
        max_attempts: 0,
        last_candidate: 0,
        last_key: None,
        last_resp: None,
        last_resp_body: None,
        failure: None,
        last_error: None,
        phase: Phase::Inspect,
    }
}

// ---- the executable machine ----

fn timeout_message_exec(secs: u64) -> (r: String)
    ensures
        r@ == timeout_message(secs),
{
    let mut m = String::from_str("upstream timed out after ");
    let d = decimal_string(secs);
    m.append(d.as_str());
    m.append("s waiting for response headers");
    m
}

fn concat3(a: &str, b: &str, c: &str) -> (r: String)
    ensures
        r@ == a@ + b@ + c@,
{
    let mut m = String::from_str(a);
    m.append(b);
    m.append(c);
    m
}

fn api_error_exec(message: String, log: Option<ErrorLog>) -> (r: DispatchEnd)
    ensures
        r@ == api_error(
            message@,
            match log {
                Some(l) => Some(l@),
                None => None,
            },
        ),
{
    DispatchEnd::Error { status: None, error_type: String::from_str("api_error"), message, log }
}

impl Dispatch {
    /// A call over `n` candidates; the first action inspects the first one.
    pub fn new(n: usize, failover: bool, is_combo: bool, streaming: bool, header_timeout_secs: u64) -> (r: (
        Dispatch,
        DispatchAction,
    ))
        requires
            n >= 1,
        ensures
            r.0@ == initial_dispatch(n as int, failover, is_combo, streaming, header_timeout_secs),
            dispatch_wf(r.0@),
            r.1@ == ActionV::Inspect(0),
    {
        (
            Dispatch {
                n,
                failover,
                is_combo,
                streaming,
                header_timeout_secs,
                ci: 0,
                attempts: 0,
                max_attempts: 0,
                last_candidate: 0,
                last_key: None,
                last_resp: None,
                last_resp_body: None,
                failure: None,
                last_error: None,
                phase: Phase::Inspect,
            },
            DispatchAction::Inspect(0),
        )
    }

    /// Whether the event answers what the call awaits.
    pub fn fits(&self, ev: &DispatchEvent) -> (r: bool)
        ensures
            r == event_fits(self.phase, ev@),
    {
        match self.phase {
            Phase::Inspect => matches!(ev, DispatchEvent::Inspected { .. }),
            Phase::Pick => matches!(ev, DispatchEvent::Picked(_)),
            Phase::Send => match ev {
                DispatchEvent::NetworkError(_) => true,
                DispatchEvent::HeaderTimeout => true,
                DispatchEvent::Answered { .. } => true,
                _ => false,
            },
            Phase::Forward => match ev {
                DispatchEvent::KeyError { .. } => true,
                DispatchEvent::Delivered => true,
                DispatchEvent::Failed { .. } => true,
                _ => false,
            },
            Phase::Finished => false,
        }
    }

    fn exhausted_end_exec(&self) -> (r: DispatchEnd)
        ensures
            r@ == exhausted_end(self@),
    {
        if self.streaming {
            match &self.failure {
                Some(Failure::Network { candidate, key, message }) => api_error_exec(
                    message.clone(),
                    Some(ErrorLog { candidate: *candidate, key: copy_opt_key(key), detail: message.clone() }),
                ),
                Some(Failure::HeaderTimeout { candidate, key }) => api_error_exec(
                    timeout_message_exec(self.header_timeout_secs),
                    Some(
                        ErrorLog {
                            candidate: *candidate,
                            key: copy_opt_key(key),
                            detail: timeout_message_exec(self.header_timeout_secs),
                        },
                    ),
                ),
                Some(Failure::Upstream5xx { candidate, key, body }) => {
                    let m = extract_error_message(body.as_str());
                    let t = truncate_chars(body.as_str(), 200);
                    let mut d = concat3("upstream 5xx: ", m.as_str(), " | body: ");
                    d.append(t.as_str());
                    api_error_exec(m, Some(ErrorLog { candidate: *candidate, key: copy_opt_key(key), detail: d }))
                },
                Some(Failure::StreamError { candidate, key, status, message }) => {
                    let ds = decimal_string(*status as u64);
                    let mut m = concat3("upstream ", ds.as_str(), ": ");
                    m.append(message.as_str());
                    let mut d = concat3("upstream stream error ", ds.as_str(), ": ");
                    d.append(message.as_str());
                    api_error_exec(m, Some(ErrorLog { candidate: *candidate, key: copy_opt_key(key), detail: d }))
                },
                None => match &self.last_resp {
                    Some((st, body)) => {
                        let ds = decimal_string(*st as u64);
                        let mut d = concat3("upstream status ", ds.as_str(), ": ");
                        let t = truncate_chars(body.as_str(), 200);
                        d.append(t.as_str());
                        api_error_exec(
                            extract_error_message(body.as_str()),
                            Some(
                                ErrorLog {
                                    candidate: self.last_candidate,
                                    key: copy_opt_key(&self.last_key),
                                    detail: d,
                                },
                            ),
                        )
                    },
                    None => match &self.last_resp_body {
                        Some(body) => {
                            let mut d = String::from_str("upstream status 400: ");
                            let t = truncate_chars(body.as_str(), 200);
                            d.append(t.as_str());
                            api_error_exec(
                                extract_error_message(body.as_str()),
                                Some(
                                    ErrorLog {
                                        candidate: self.last_candidate,
                                        key: copy_opt_key(&self.last_key),
                                        detail: d,
                                    },
                                ),
                            )
                        },
                        None => api_error_exec(String::from_str("No available upstream keys"), None),
                    },
                },
            }
        } else {
            let (st, msg): (u16, String) = match &self.last_error {
                Some((a, b)) => (*a, b.clone()),
                None => (503, String::from_str("No available upstream keys")),
            };
            DispatchEnd::Error {
                status: Some(st),
                error_type: String::from_str(error_type_for_status(st)),
                message: msg.clone(),
                log: Some(ErrorLog { candidate: self.last_candidate, key: copy_opt_key(&self.last_key), detail: msg }),
            }
        }
    }

    fn finish(&mut self, end: DispatchEnd) -> (r: DispatchAction)
        ensures
            (final(self)@, r@) == finish_with(old(self)@, end@),
    {
        self.phase = Phase::Finished;
        DispatchAction::Finish(end)
    }

    /// Moves to the next candidate, or ends.
    fn goto_next(&mut self) -> (r: DispatchAction)
        requires
            dispatch_wf(old(self)@),
            old(self).ci < old(self).n,
        ensures
            (final(self)@, r@) == goto_candidate(old(self)@, old(self)@.ci + 1),
    {
        if self.ci + 1 < self.n {
            self.ci = self.ci + 1;
            self.phase = Phase::Inspect;
            DispatchAction::Inspect(self.ci)
        } else {
            let end = self.exhausted_end_exec();
            self.ci = self.ci + 1;
            self.finish(end)
        }
    }

    fn leave(&mut self, key_health: Option<u16>) -> (r: DispatchStep)
        requires
            dispatch_wf(old(self)@),
            old(self).ci < old(self).n,
        ensures
            (final(self)@, r@) == leave_candidate(old(self)@, key_health),
    {
        let c = self.ci;
        let mark = self.failover && self.ci + 1 < self.n;
        let a = self.goto_next();
        DispatchStep {
            key_health,
            mark_failed: if mark {
                Some(c)
            } else {
                None
            },
            mark_ok: None,
            action: a,
        }
    }

    fn next_key_exec(&mut self, key_health: Option<u16>) -> (r: DispatchStep)
        requires
            dispatch_wf(old(self)@),
            old(self).ci < old(self).n,
        ensures
            (final(self)@, r@) == next_key(old(self)@, key_health),
    {
        if self.attempts >= self.max_attempts {
            self.leave(key_health)
        } else {
            self.attempts = self.attempts + 1;
            self.phase = Phase::Pick;
            DispatchStep { key_health, mark_failed: None, mark_ok: None, action: DispatchAction::PickKey(self.ci) }
        }
    }

    /// Takes the event that answers the last action, and says what to do.
    #[verifier::rlimit(60)]
    pub fn step(&mut self, ev: DispatchEvent) -> (r: DispatchStep)
        requires
            dispatch_wf(old(self)@),
            event_fits(old(self).phase, ev@),
        ensures
            dispatch_wf(final(self)@),
            (final(self)@, r@) == dispatch_step(old(self)@, ev@),
    {
        let ghost s0 = self@;
        let more = self.failover && self.ci + 1 < self.n;
        match ev {
            DispatchEvent::Inspected { cooling, max_attempts } => {
                if self.failover && cooling {
                    let a = self.goto_next();
                    DispatchStep { key_health: None, mark_failed: None, mark_ok: None, action: a }
                } else {
                    self.last_candidate = self.ci;
                    self.max_attempts = max_attempts;
                    self.attempts = 0;
                    self.next_key_exec(None)
                }
            },
            DispatchEvent::Picked(None) => self.leave(None),
            DispatchEvent::Picked(Some(k)) => {
                self.last_key = Some(k);
                self.phase = Phase::Send;
                DispatchStep {
                    key_health: None,
                    mark_failed: None,
                    mark_ok: None,
                    action: DispatchAction::Send(self.ci),
                }
            },
            DispatchEvent::NetworkError(msg) => {
                if self.streaming {
                    if more {
                        self.failure = Some(
                            Failure::Network { candidate: self.ci, key: copy_opt_key(&self.last_key), message: msg },
                        );
                        self.leave(None)
                    } else {
                        let end = api_error_exec(
                            msg.clone(),
                            Some(ErrorLog { candidate: self.ci, key: copy_opt_key(&self.last_key), detail: msg.clone() }),
                        );
                        self.failure = Some(
                            Failure::Network { candidate: self.ci, key: copy_opt_key(&self.last_key), message: msg },
                        );
                        let a = self.finish(end);
                        DispatchStep { key_health: None, mark_failed: None, mark_ok: None, action: a }
                    }
                } else {
                    self.last_error = Some((502, msg));
                    if more {
                        self.leave(None)
                    } else {
                        let end = self.exhausted_end_exec();
                        let a = self.finish(end);
                        DispatchStep { key_health: None, mark_failed: None, mark_ok: None, action: a }
                    }
                }
            },
            DispatchEvent::HeaderTimeout => {
                let m = timeout_message_exec(self.header_timeout_secs);
                if self.streaming {
                    if more {
                        self.failure = Some(
                            Failure::HeaderTimeout { candidate: self.ci, key: copy_opt_key(&self.last_key) },
                        );
                        self.leave(None)
                    } else {
                        let end = api_error_exec(
                            m.clone(),
                            Some(ErrorLog { candidate: self.ci, key: copy_opt_key(&self.last_key), detail: m }),
                        );
                        self.failure = Some(
                            Failure::HeaderTimeout { candidate: self.ci, key: copy_opt_key(&self.last_key) },
                        );
                        let a = self.finish(end);
                        DispatchStep { key_health: None, mark_failed: None, mark_ok: None, action: a }
                    }
                } else {
                    self.last_error = Some((504, m));
                    if more {
                        self.leave(None)
                    } else {
                        let end = self.exhausted_end_exec();
                        let a = self.finish(end);
                        DispatchStep { key_health: None, mark_failed: None, mark_ok: None, action: a }
                    }
                }
            },
            DispatchEvent::Answered { status, body } => {
                if status == 400 {
                    if is_key_quota_error(body.as_str()) {
                        if self.streaming {
                            self.last_resp_body = Some(body);
                            self.last_resp = None;
                        } else {
                            self.last_error = Some((402, extract_error_message(body.as_str())));
                        }
                        self.next_key_exec(Some(402))
                    } else if self.streaming {
                        self.last_resp = None;
                        self.last_resp_body = Some(body);
                        if self.is_combo {
                            let end = self.exhausted_end_exec();
                            let a = self.finish(end);
                            DispatchStep { key_health: Some(400), mark_failed: None, mark_ok: None, action: a }
                        } else {
                            let a = self.goto_next();
                            DispatchStep { key_health: Some(400), mark_failed: None, mark_ok: None, action: a }
                        }
                    } else {
                        let mut d = String::from_str("upstream status 400: ");
                        let t = truncate_chars(body.as_str(), 200);
                        d.append(t.as_str());
                        let end = DispatchEnd::Error {
                            status: Some(400),
                            error_type: String::from_str("invalid_request_error"),
                            message: extract_error_message(body.as_str()),
                            log: Some(ErrorLog { candidate: self.ci, key: copy_opt_key(&self.last_key), detail: d }),
                        };
                        let a = self.finish(end);
                        DispatchStep { key_health: Some(400), mark_failed: None, mark_ok: None, action: a }
                    }
                } else if status == 401 || status == 402 || status == 403 || status == 429 {
                    if self.streaming {
                        self.last_resp = Some((status, body));
                    } else {
                        self.last_error = Some((status, extract_error_message(body.as_str())));
                    }
                    self.next_key_exec(Some(status))
                } else if 500 <= status && status <= 599 {
                    if self.streaming {
                        if more {
                            self.failure = Some(
                                Failure::Upstream5xx { candidate: self.ci, key: copy_opt_key(&self.last_key), body },
                            );
                        } else {
                            self.last_resp = Some((status, body));
                        }
                        self.leave(Some(status))
                    } else {
                        self.last_error = Some((status, extract_error_message(body.as_str())));
                        if more {
                            self.leave(Some(status))
                        } else {
                            let end = self.exhausted_end_exec();
                            let a = self.finish(end);
                            DispatchStep { key_health: Some(status), mark_failed: None, mark_ok: None, action: a }
                        }
                    }
                } else {
                    self.phase = Phase::Forward;
                    DispatchStep {
                        key_health: Some(status),
                        mark_failed: None,
                        mark_ok: Some(self.ci),
                        action: DispatchAction::Forward(self.ci),
                    }
                }
            },
            DispatchEvent::KeyError { status, message } => {
                if self.streaming {
                    self.failure = Some(
                        Failure::StreamError {
                            candidate: self.ci,
                            key: copy_opt_key(&self.last_key),
                            status,
                            message,
                        },
                    );
                    self.last_resp = None;
                    self.last_resp_body = None;
                } else {
                    self.last_error = Some((status, message));
                }
                self.next_key_exec(Some(status))
            },
            DispatchEvent::Delivered => {
                let a = self.finish(DispatchEnd::Served);
                DispatchStep { key_health: None, mark_failed: None, mark_ok: None, action: a }
            },
            DispatchEvent::Failed { status, message } => {
                let ds = decimal_string(status as u64);
                let mut d = concat3("upstream stream error ", ds.as_str(), ": ");
                d.append(message.as_str());
                let end = DispatchEnd::Error {
                    status: Some(status),
                    error_type: String::from_str(error_type_for_status(status)),
                    message,
                    log: Some(ErrorLog { candidate: self.ci, key: copy_opt_key(&self.last_key), detail: d }),
                };
                let a = self.finish(end);
                DispatchStep { key_health: None, mark_failed: None, mark_ok: None, action: a }
            },
        }
    }
}


// ---- laws ----

/// How far a call is from its end: candidates left first, then whether the
/// candidate is still to be inspected, then keys left, then the steps of the
/// attempt under way.
pub open spec fn dispatch_measure(s: DispatchV) -> int {
    let k: int = 0x4_0000_0000int + 1;
    if s.phase == Phase::Finished {
        0
    } else {
        let inner: int = match s.phase {
            Phase::Inspect => 0x4_0000_0000int,
            Phase::Pick => (s.max_attempts - s.attempts) * 4 + 2,
            Phase::Send => (s.max_attempts - s.attempts) * 4 + 1,
            _ => (s.max_attempts - s.attempts) * 4,
        };
        (s.n - s.ci) * k + inner
    }
}

proof fn lemma_goto_measure(s: DispatchV)
    requires
        dispatch_wf(s),
        s.phase != Phase::Finished,
    ensures
        dispatch_measure(goto_candidate(s, s.ci + 1).0) < dispatch_measure(s),
        goto_candidate(s, s.ci + 1).0.ci == s.ci + 1,
{
    let k: int = 0x4_0000_0000int + 1;
    assert(dispatch_measure(s) >= (s.n - s.ci) * k) by (nonlinear_arith)
        requires
            s.n - s.ci >= 1,
            k == 0x4_0000_0000int + 1,
            dispatch_measure(s) == (s.n - s.ci) * k + match s.phase {
                Phase::Inspect => 0x4_0000_0000int,
                Phase::Pick => (s.max_attempts - s.attempts) * 4 + 2,
                Phase::Send => (s.max_attempts - s.attempts) * 4 + 1,
                _ => (s.max_attempts - s.attempts) * 4,
            },
            0 <= s.attempts <= s.max_attempts,
    ;
    if s.ci + 1 < s.n {
        assert((s.n - (s.ci + 1)) * k + 0x4_0000_0000int < (s.n - s.ci) * k) by (nonlinear_arith)
            requires
                k == 0x4_0000_0000int + 1,
        ;
    }
}

/// Every call ends: each event a live call takes brings it strictly closer
/// to its end, and a finished call awaits none.
pub proof fn law_dispatch_progress(s: DispatchV, ev: EventV)
    requires
        dispatch_wf(s),
        event_fits(s.phase, ev),
    ensures
        dispatch_wf(dispatch_step(s, ev).0),
        0 <= dispatch_measure(dispatch_step(s, ev).0) < dispatch_measure(s),
{
    let k: int = 0x4_0000_0000int + 1;
    lemma_goto_measure(s);
    let (s2, st) = dispatch_step(s, ev);
    assert(dispatch_measure(s) > 0) by (nonlinear_arith)
        requires
            s.n - s.ci >= 1,
            k == 0x4_0000_0000int + 1,
            dispatch_measure(s) >= (s.n - s.ci) * k,
    ;
    match ev {
        EventV::Inspected { cooling, max_attempts } => {
            if !(s.failover && cooling) {
                let t = DispatchV { last_candidate: s.ci, max_attempts, attempts: 0, ..s };
                if max_attempts > 0 {
                    assert(dispatch_measure(s2) == (s.n - s.ci) * k + (max_attempts - 1) * 4 + 2);
                    assert((max_attempts - 1) * 4 + 2 < 0x4_0000_0000int);
                } else {
                    lemma_goto_measure(t);
                }
            }
        },
        EventV::Picked(Some(_)) => {},
        EventV::Answered { status, body } => {
            if !(status == 400 || status == 401 || status == 402 || status == 403 || status == 429
                || (500 <= status <= 599)) {
            } else if s.attempts < s.max_attempts {
            } else {
            }
        },
        _ => {},
    }
    assert(0 <= dispatch_measure(s2)) by (nonlinear_arith)
        requires
            s2.phase != Phase::Finished ==> s2.n - s2.ci >= 1,
            0 <= s2.attempts <= s2.max_attempts,
            k == 0x4_0000_0000int + 1,
            dispatch_measure(s2) == if s2.phase == Phase::Finished {
                0
            } else {
                (s2.n - s2.ci) * k + match s2.phase {
                    Phase::Inspect => 0x4_0000_0000int,
                    Phase::Pick => (s2.max_attempts - s2.attempts) * 4 + 2,
                    Phase::Send => (s2.max_attempts - s2.attempts) * 4 + 1,
                    _ => (s2.max_attempts - s2.attempts) * 4,
                }
            },
    ;
}

/// Candidates are tried in order: the candidate index never goes back, and
/// a provider is put in cooldown only while it is the one being tried, with
/// failover on and a later candidate left to take over.
pub proof fn law_dispatch_order_and_cooldown(s: DispatchV, ev: EventV)
    requires
        dispatch_wf(s),
        event_fits(s.phase, ev),
    ensures
        dispatch_step(s, ev).0.ci >= s.ci,
        dispatch_step(s, ev).1.mark_failed is Some ==> dispatch_step(s, ev).1.mark_failed == Some(s.ci)
            && s.failover && s.ci + 1 < s.n,
        dispatch_step(s, ev).1.mark_ok is Some ==> dispatch_step(s, ev).1.mark_ok == Some(s.ci)
            && ev is Answered,
{
}

/// Without failover a cooling provider is still used: with keys to try,
/// its first key is picked.
pub proof fn law_cooling_ignored_without_failover(s: DispatchV, max_attempts: int)
    requires
        dispatch_wf(s),
        s.phase == Phase::Inspect,
        !s.failover,
        0 < max_attempts <= u32::MAX,
    ensures
        dispatch_step(s, EventV::Inspected { cooling: true, max_attempts }).1.action
            == ActionV::PickKey(s.ci),
{
}

/// A combo alias gives up at a plain 400 for a streaming client: the request
/// itself is wrong, so no other member is tried.
pub proof fn law_combo_bad_request_ends(s: DispatchV, body: Seq<char>)
    requires
        dispatch_wf(s),
        s.phase == Phase::Send,
        s.streaming,
        s.is_combo,
        !key_quota_spec(body),
    ensures
        dispatch_step(s, EventV::Answered { status: 400, body }).1.action is Finish,
        dispatch_step(s, EventV::Answered { status: 400, body }).0.phase == Phase::Finished,
{
}

/// A refused key is replaced by another key of the same provider while the
/// provider has keys left to try.
pub proof fn law_refused_key_rotates(s: DispatchV, status: u16, body: Seq<char>)
    requires
        dispatch_wf(s),
        s.phase == Phase::Send,
        status == 401 || status == 402 || status == 403 || status == 429,
        s.attempts < s.max_attempts,
    ensures
        dispatch_step(s, EventV::Answered { status, body }).1.action == ActionV::PickKey(s.ci),
        dispatch_step(s, EventV::Answered { status, body }).1.key_health == Some(status),
{
}

/// A success is passed on from the provider that gave it, which recovers
/// from any cooldown.
pub proof fn law_success_forwards(s: DispatchV, status: u16, body: Seq<char>)
    requires
        dispatch_wf(s),
        s.phase == Phase::Send,
        200 <= status <= 299,
    ensures
        dispatch_step(s, EventV::Answered { status, body }).1.action == ActionV::Forward(s.ci),
        dispatch_step(s, EventV::Answered { status, body }).1.mark_ok == Some(s.ci),
{
}


// ---- the request of an attempt ----

/// The entries with every entry of `key` given `v`, or `key: v` appended
/// where there is none (as a map insertion does).
pub open spec fn fields_set(fs: Seq<(Seq<char>, JsonV)>, key: Seq<char>, v: JsonV) -> Seq<
    (Seq<char>, JsonV),
> {
    if exists|i: int| 0 <= i < fs.len() && #[trigger] fs[i].0 == key {
        fs.map_values(
            |e: (Seq<char>, JsonV)|
                if e.0 == key {
                    (key, v)
                } else {
                    e
                },
        )
    } else {
        fs.push((key, v))
    }
}

/// Sets `key` to `value` in the entries of an object under construction.
pub fn set_field(fields: &mut Vec<(String, Json)>, key: &str, value: Json)
    ensures
        fields_view(final(fields)@) == fields_set(fields_view(old(fields)@), key@, value@),
{
    let ghost f0 = fields_view(fields@);
    proof {
        crate::json::lemma_fields_view_len(fields@);
    }
    let mut found = false;
    let mut i: usize = 0;
    while i < fields.len()
        invariant
            i <= fields@.len(),
            f0.len() == fields@.len(),
            fields_view(fields@).len() == fields@.len(),
            forall|j: int| i <= j < fields@.len() ==> #[trigger] fields_view(fields@)[j] == f0[j],
            forall|j: int|
                0 <= j < i ==> #[trigger] fields_view(fields@)[j] == (if f0[j].0 == key@ {
                    (key@, value@)
                } else {
                    f0[j]
                }),
            found <==> exists|j: int| 0 <= j < i && #[trigger] f0[j].0 == key@,
        decreases fields@.len() - i,
    {
        proof {
            crate::json::lemma_fields_view_index(fields@, i as int);
            assert(f0[i as int].0 == fields@[i as int].0@);
        }
        if str_eq(fields[i].0.as_str(), key) {
            let ghost before = fields@;
            let k = fields[i].0.clone();
            fields.set(i, (k, value.copy()));
            proof {
                crate::json::lemma_fields_view_len(fields@);
                assert forall|j: int| 0 <= j < fields@.len() && j != i implies #[trigger] fields_view(
                    fields@,
                )[j] == fields_view(before)[j] by {
                    crate::json::lemma_fields_view_index(fields@, j);
                    crate::json::lemma_fields_view_index(before, j);
                }
                crate::json::lemma_fields_view_index(fields@, i as int);
                assert(f0[i as int].0 == key@);
            }
            found = true;
        } else {
            proof {
                assert(f0[i as int].0 != key@);
                assert(forall|j: int| 0 <= j < i + 1 && #[trigger] f0[j].0 == key@ ==> 0 <= j < i);
            }
        }
        i = i + 1;
    }
    if !found {
        proof {
            assert(!exists|j: int| 0 <= j < f0.len() && #[trigger] f0[j].0 == key@);
            assert(fields_view(fields@) =~= f0);
        }
        push_field(fields, key, value);
    } else {
        proof {
            assert(fields_view(fields@) =~= f0.map_values(
                |e: (Seq<char>, JsonV)|
                    if e.0 == key@ {
                        (key@, value@)
                    } else {
                        e
                    },
            ));
        }
    }
}

proof fn lemma_lookup_found(fs: Seq<(Seq<char>, JsonV)>, k: Seq<char>, i: int)
    requires
        0 <= i < fs.len(),
        fs[i].0 == k,
    ensures
        crate::json::field_lookup(fs, k) is Some,
    decreases fs.len(),
{
    if fs.last().0 != k {
        assert(fs.drop_last()[i] == fs[i]);
        lemma_lookup_found(fs.drop_last(), k, i);
    }
}

proof fn lemma_lookup_replaced(fs: Seq<(Seq<char>, JsonV)>, k: Seq<char>, v: JsonV, k2: Seq<char>)
    ensures
        crate::json::field_lookup(
            fs.map_values(
                |e: (Seq<char>, JsonV)|
                    if e.0 == k {
                        (k, v)
                    } else {
                        e
                    },
            ),
            k2,
        ) == if k2 == k {
            if crate::json::field_lookup(fs, k) is Some {
                Some(v)
            } else {
                None
            }
        } else {
            crate::json::field_lookup(fs, k2)
        },
    decreases fs.len(),
{
    let m = fs.map_values(
        |e: (Seq<char>, JsonV)|
            if e.0 == k {
                (k, v)
            } else {
                e
            },
    );
    if fs.len() > 0 {
        lemma_lookup_replaced(fs.drop_last(), k, v, k2);
        assert(m.drop_last() =~= fs.drop_last().map_values(
            |e: (Seq<char>, JsonV)|
                if e.0 == k {
                    (k, v)
                } else {
                    e
                },
        ));
        assert(m.last() == (if fs.last().0 == k {
            (k, v)
        } else {
            fs.last()
        }));
    }
}

/// Setting a key gives it the value, and leaves every other key as it was.
pub proof fn lemma_fields_set_lookup(fs: Seq<(Seq<char>, JsonV)>, k: Seq<char>, v: JsonV, k2: Seq<char>)
    ensures
        crate::json::field_lookup(fields_set(fs, k, v), k2) == if k2 == k {
            Some(v)
        } else {
            crate::json::field_lookup(fs, k2)
        },
{
    if exists|i: int| 0 <= i < fs.len() && #[trigger] fs[i].0 == k {
        let i = choose|i: int| 0 <= i < fs.len() && #[trigger] fs[i].0 == k;
        lemma_lookup_found(fs, k, i);
        lemma_lookup_replaced(fs, k, v, k2);
        assert(fields_set(fs, k, v) == fs.map_values(
            |e: (Seq<char>, JsonV)|
                if e.0 == k {
                    (k, v)
                } else {
                    e
                },
        ));
    } else {
        let p = fs.push((k, v));
        assert(p.drop_last() =~= fs);
        assert(p.last() == (k, v));
        assert(fields_set(fs, k, v) == p);
        assert(crate::json::field_lookup(p, k2) == if p.last().0 == k2 {
            Some(p.last().1)
        } else {
            crate::json::field_lookup(p.drop_last(), k2)
        });
    }
}

/// Whatever model the request names, the body of an attempt for a Messages
/// or Chat Completions upstream names the candidate's real model and asks
/// for a stream; a Chat Completions body also asks for usage in the stream.
pub proof fn law_upstream_body_model(r: RequestV, kind: Seq<char>, real_model_id: Seq<char>)
    requires
        kind != "responses"@,
    ensures
        upstream_body_spec(r, kind, real_model_id) matches Some(JsonV::Object(f)) && crate::json::field_lookup(
            f,
            "model"@,
        ) == Some(JsonV::Str(real_model_id)) && crate::json::field_lookup(f, "stream"@) == Some(
            JsonV::Bool(true),
        ),
        kind != "messages"@ ==> (upstream_body_spec(r, kind, real_model_id) matches Some(JsonV::Object(f))
            && crate::json::field_lookup(f, "stream_options"@) == Some(
            crate::json::jobj(seq![("include_usage"@, JsonV::Bool(true))]),
        )),
{
    reveal_strlit("model");
    reveal_strlit("stream");
    reveal_strlit("stream_options");
    assert("model"@.len() == 5 && "stream"@.len() == 6 && "stream_options"@.len() == 14);
    let base = if kind == "messages"@ {
        crate::to_messages::messages_request_json(r)
    } else {
        crate::to_chat_completions::chat_request_json(r)
    };
    let f0 = fields_set(base->Object_0, "model"@, JsonV::Str(real_model_id));
    let f1 = fields_set(f0, "stream"@, JsonV::Bool(true));
    let so = crate::json::jobj(seq![("include_usage"@, JsonV::Bool(true))]);
    lemma_fields_set_lookup(base->Object_0, "model"@, JsonV::Str(real_model_id), "model"@);
    lemma_fields_set_lookup(f0, "stream"@, JsonV::Bool(true), "model"@);
    lemma_fields_set_lookup(f0, "stream"@, JsonV::Bool(true), "stream"@);
    lemma_fields_set_lookup(f1, "stream_options"@, so, "model"@);
    lemma_fields_set_lookup(f1, "stream_options"@, so, "stream"@);
    lemma_fields_set_lookup(f1, "stream_options"@, so, "stream_options"@);
}

/// The body of an attempt: the request in the upstream's protocol, for the
/// upstream's model, always streamed, and asking OpenAI-style upstreams for
/// usage in the stream. `None` for a Responses upstream, for which this
/// library has no request writer.
pub open spec fn upstream_body_spec(r: RequestV, kind: Seq<char>, model: Seq<char>) -> Option<JsonV> {
    if kind == "responses"@ {
        None
    } else {
        let base = if kind == "messages"@ {
            crate::to_messages::messages_request_json(r)
        } else {
            crate::to_chat_completions::chat_request_json(r)
        };
        let f1 = fields_set(fields_set(base->Object_0, "model"@, JsonV::Str(model)), "stream"@, JsonV::Bool(true));
        Some(
            JsonV::Object(
                if kind == "messages"@ {
                    f1
                } else {
                    fields_set(
                        f1,
                        "stream_options"@,
                        crate::json::jobj(seq![("include_usage"@, JsonV::Bool(true))]),
                    )
                },
            ),
        )
    }
}

/// Writes the body of an attempt for an upstream of the given protocol: an
/// Anthropic Messages body for `messages`, else a Chat Completions body. A
/// `responses` upstream gets no body (`None`): this library has no writer of
/// Responses requests, and such an attempt is refused.
pub fn upstream_body(req: &IrRequest, kind: &str, real_model_id: &str) -> (r: Option<Json>)
    ensures
        crate::json::opt_json_view(r) == upstream_body_spec(req@, kind@, real_model_id@),
{
    if str_eq(kind, "responses") {
        return None;
    }
    let base = if str_eq(kind, "messages") {
        crate::to_messages::ir_req_to_messages(req)
    } else {
        crate::to_chat_completions::ir_req_to_chat_completions(req)
    };
    let mut fields = match base {
        Json::Object(f) => f,
        _ => Vec::new(),
    };
    set_field(&mut fields, "model", json_string(real_model_id));
    set_field(&mut fields, "stream", Json::Bool(true));
    if !str_eq(kind, "messages") {
        let mut so: Vec<(String, Json)> = Vec::new();
        push_field(&mut so, "include_usage", Json::Bool(true));
        proof {
            assert(fields_view(so@) =~= seq![("include_usage"@, JsonV::Bool(true))]);
        }
        set_field(&mut fields, "stream_options", object_of(so));
    }
    Some(object_of(fields))
}

/// The headers of an attempt: Anthropic upstreams take the key as
/// `x-api-key` with an API version, others as a bearer token; the body is
/// JSON.
pub open spec fn upstream_headers_spec(kind: Seq<char>, key: Seq<char>) -> Seq<(Seq<char>, Seq<char>)> {
    if kind == "messages"@ {
        seq![
            ("x-api-key"@, key),
            ("anthropic-version"@, "2023-06-01"@),
            ("Content-Type"@, "application/json"@),
        ]
    } else {
        seq![("Authorization"@, "Bearer "@ + key), ("Content-Type"@, "application/json"@)]
    }
}

pub fn upstream_headers(kind: &str, key: &str) -> (r: Vec<(String, String)>)
    ensures
        r@.map_values(|h: (String, String)| (h.0@, h.1@)) == upstream_headers_spec(kind@, key@),
{
    let mut out: Vec<(String, String)> = Vec::new();
    if str_eq(kind, "messages") {
        out.push((String::from_str("x-api-key"), key.to_owned()));
        out.push((String::from_str("anthropic-version"), String::from_str("2023-06-01")));
    } else {
        let mut b = String::from_str("Bearer ");
        b.append(key);
        out.push((String::from_str("Authorization"), b));
    }
    out.push((String::from_str("Content-Type"), String::from_str("application/json")));
    proof {
        assert(out@.map_values(|h: (String, String)| (h.0@, h.1@)) =~= upstream_headers_spec(kind@, key@));
    }
    out
}

} // verus!
