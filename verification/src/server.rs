//! The gateway's per-request orchestration, as a state machine.  The
//! surrounding application owns the I/O: it holds the shared context behind
//! its lock, performs each action this module demands — the identity lookup,
//! the clock read, the audit append, the outbound notification — and feeds
//! the result back as the next event.  Which action follows which outcome,
//! and what the request finally answers, is decided and verified here.

use vstd::prelude::*;

verus! {

use crate::history::HistoryEntry;
use crate::identity::{AccessResponse, Outcome};

/// Settings of the HTTP server around the gateway.
pub struct ServerSettings {
    pub mount_point: String,
    pub port: u16,
}

/// The shared context of the gateway: the active identity store paired with
/// the audit log.  The surrounding application keeps one value of this
/// behind a mutual-exclusion lock, shared by all concurrent requests.
pub struct Context<I, H> {
    pub identity_store: I,
    pub history: H,
}

/// How an access-check request can fail, by stage.
#[derive(Clone, Copy, PartialEq, Eq, Structural, Debug)]
pub enum GatewayError {
    /// The identity backend could not answer: the check is refused and
    /// nothing is recorded.
    Forbidden,
    /// The clock could not be read: nothing is recorded.
    InternalError,
    /// The audit entry could not be written durably: the check's outcome is
    /// lost and no notification fires.
    ServiceUnavailable,
    /// The notification collaborator failed; the audit entry stays recorded.
    BadGateway,
}

impl GatewayError {
    /// The HTTP status the surrounding server answers with.
    pub fn status_code(&self) -> (c: u16)
        ensures
            c == match self {
                GatewayError::Forbidden => 403u16,
                GatewayError::InternalError => 500u16,
                GatewayError::ServiceUnavailable => 503u16,
                GatewayError::BadGateway => 502u16,
            },
    {
        match self {
            GatewayError::Forbidden => 403,
            GatewayError::InternalError => 500,
            GatewayError::ServiceUnavailable => 503,
            GatewayError::BadGateway => 502,
        }
    }
}

/// Where one access-check request stands.
pub enum AccessState {
    /// Waiting for the identity backend's answer.
    Verifying { token: String },
    /// Waiting for the clock, to stamp the audit entry.
    Recording { token: String, response: AccessResponse },
    /// Waiting for the audit append to be confirmed durable.
    Appending { response: AccessResponse },
    /// The entry is durable; waiting for the notification collaborator.
    Notifying { name: Option<String> },
    /// The request is answered.
    Done { result: Result<Option<String>, GatewayError> },
}

/// What the surrounding application reports back after performing an action.
/// `None` and `false` stand for the performed step having failed.
pub enum AccessEvent {
    Verified(Option<AccessResponse>),
    TimeRead(Option<u64>),
    Appended(bool),
    Notified(bool),
}

/// What the surrounding application must do next.
pub enum AccessAction {
    /// Call the identity backend with the request's token, under the shared
    /// lock.
    Verify,
    /// Read the system clock.
    ReadClock,
    /// Append this entry to the audit log and flush it, still under the
    /// shared lock.
    Append(HistoryEntry),
    /// Release the shared lock, then notify the external collaborator.
    Notify,
    /// Answer the request.
    Respond(Result<Option<String>, GatewayError>),
}

/// Which events can answer which state.
pub open spec fn event_fits(s: AccessState, e: AccessEvent) -> bool {
    match (s, e) {
        (AccessState::Verifying { .. }, AccessEvent::Verified(_)) => true,
        (AccessState::Recording { .. }, AccessEvent::TimeRead(_)) => true,
        (AccessState::Appending { .. }, AccessEvent::Appended(_)) => true,
        (AccessState::Notifying { .. }, AccessEvent::Notified(_)) => true,
        _ => false,
    }
}

/// The transition relation of one access-check request.  The last arm is
/// never reached: `step` demands an event that fits the state.
pub open spec fn spec_step(s: AccessState, e: AccessEvent) -> (AccessState, AccessAction) {
    match (s, e) {
        (AccessState::Verifying { token }, AccessEvent::Verified(Some(response))) => (
            AccessState::Recording { token, response },
            AccessAction::ReadClock,
        ),
        (AccessState::Verifying { .. }, AccessEvent::Verified(None)) => (
            AccessState::Done { result: Err(GatewayError::Forbidden) },
            AccessAction::Respond(Err(GatewayError::Forbidden)),
        ),
        (AccessState::Recording { token, response }, AccessEvent::TimeRead(Some(time))) => (
            AccessState::Appending { response },
            AccessAction::Append(HistoryEntry { time, token, response }),
        ),
        (AccessState::Recording { .. }, AccessEvent::TimeRead(None)) => (
            AccessState::Done { result: Err(GatewayError::InternalError) },
            AccessAction::Respond(Err(GatewayError::InternalError)),
        ),
        (AccessState::Appending { response }, AccessEvent::Appended(true)) => {
            if response.outcome == Outcome::Success {
                (AccessState::Notifying { name: response.name }, AccessAction::Notify)
            } else {
                (
                    AccessState::Done { result: Ok(response.name) },
                    AccessAction::Respond(Ok(response.name)),
                )
            }
        },
        (AccessState::Appending { .. }, AccessEvent::Appended(false)) => (
            AccessState::Done { result: Err(GatewayError::ServiceUnavailable) },
            AccessAction::Respond(Err(GatewayError::ServiceUnavailable)),
        ),
        (AccessState::Notifying { name }, AccessEvent::Notified(true)) => (
            AccessState::Done { result: Ok(name) },
            AccessAction::Respond(Ok(name)),
        ),
        (AccessState::Notifying { .. }, AccessEvent::Notified(false)) => (
            AccessState::Done { result: Err(GatewayError::BadGateway) },
            AccessAction::Respond(Err(GatewayError::BadGateway)),
        ),
        _ => (s, AccessAction::Respond(Err(GatewayError::InternalError))),
    }
}

fn dup_name(n: &Option<String>) -> (o: Option<String>)
    ensures
        o == *n,
{
    match n {
        Some(s) => Some(s.clone()),
        None => None,
    }
}

fn dup_response(r: &AccessResponse) -> (o: AccessResponse)
    ensures
        o == *r,
{
    let o = AccessResponse { outcome: r.outcome, name: dup_name(&r.name) };
    o
}

/// Begin one access-check request for `token`.
pub fn start(token: String) -> (r: (AccessState, AccessAction))
    ensures
        r.0 == (AccessState::Verifying { token }),
        r.1 == AccessAction::Verify,
{
    (AccessState::Verifying { token }, AccessAction::Verify)
}

/// Advance one request by one performed action's result.
pub fn step(state: AccessState, event: AccessEvent) -> (r: (AccessState, AccessAction))
    requires
        event_fits(state, event),
    ensures
        r == spec_step(state, event),
{
    match (state, event) {
        (AccessState::Verifying { token }, AccessEvent::Verified(Some(response))) => (
            AccessState::Recording { token, response },
            AccessAction::ReadClock,
        ),
        (AccessState::Verifying { token: _ }, AccessEvent::Verified(None)) => (
            AccessState::Done { result: Err(GatewayError::Forbidden) },
            AccessAction::Respond(Err(GatewayError::Forbidden)),
        ),
        (AccessState::Recording { token, response }, AccessEvent::TimeRead(Some(time))) => {
            let kept = dup_response(&response);
            (
                AccessState::Appending { response: kept },
                AccessAction::Append(HistoryEntry { time, token, response }),
            )
        },
        (AccessState::Recording { .. }, AccessEvent::TimeRead(None)) => (
            AccessState::Done { result: Err(GatewayError::InternalError) },
            AccessAction::Respond(Err(GatewayError::InternalError)),
        ),
        (AccessState::Appending { response }, AccessEvent::Appended(true)) => {
            if response.outcome == Outcome::Success {
                (AccessState::Notifying { name: response.name }, AccessAction::Notify)
            } else {
                let kept = dup_name(&response.name);
                (
                    AccessState::Done { result: Ok(kept) },
                    AccessAction::Respond(Ok(response.name)),
                )
            }
        },
        (AccessState::Appending { .. }, AccessEvent::Appended(false)) => (
            AccessState::Done { result: Err(GatewayError::ServiceUnavailable) },
            AccessAction::Respond(Err(GatewayError::ServiceUnavailable)),
        ),
        (AccessState::Notifying { name }, AccessEvent::Notified(true)) => {
            let kept = dup_name(&name);
            (AccessState::Done { result: Ok(kept) }, AccessAction::Respond(Ok(name)))
        },
        (AccessState::Notifying { .. }, AccessEvent::Notified(false)) => (
            AccessState::Done { result: Err(GatewayError::BadGateway) },
            AccessAction::Respond(Err(GatewayError::BadGateway)),
        ),
        _ => {
            assert(false);
            (
                AccessState::Done { result: Err(GatewayError::InternalError) },
                AccessAction::Respond(Err(GatewayError::InternalError)),
            )
        },
    }
}

/// One access check whose lookup, clock read and append all succeed demands
/// exactly one `Append`, of an entry stamped with the clock's time, carrying
/// the request's token and the backend's response unchanged — and demands
/// `Notify` if and only if the outcome is `Success`.  The request then
/// answers the response's name.
pub proof fn lemma_access_flow(token: String, response: AccessResponse, time: u64)
    ensures
        ({
            let s0 = AccessState::Verifying { token };
            let (s1, a1) = spec_step(s0, AccessEvent::Verified(Some(response)));
            let (s2, a2) = spec_step(s1, AccessEvent::TimeRead(Some(time)));
            let (s3, a3) = spec_step(s2, AccessEvent::Appended(true));
            &&& a1 == AccessAction::ReadClock
            &&& a2 == AccessAction::Append(HistoryEntry { time, token, response })
            &&& (response.outcome == Outcome::Success ==> a3 == AccessAction::Notify
                && spec_step(s3, AccessEvent::Notified(true)).1 == AccessAction::Respond(
                Ok(response.name),
            ))
            &&& (response.outcome != Outcome::Success ==> a3 == AccessAction::Respond(
                Ok(response.name),
            ))
        }),
{
}

} // verus!
