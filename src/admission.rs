//! The per-connection admission state machine. A connection moves strictly
//! forward through the rate check, TLS authentication and the upgrade-request
//! check, or ends rejected; the caller performs each action it is handed and
//! reports the outcome back as an event.
use vstd::prelude::*;

verus! {

/// Why TLS authentication failed.
#[derive(Clone, Copy, Debug, PartialEq, Eq, Structural)]
pub enum AuthError {
    NoCertificate,
    UntrustedOrInvalidCertificate,
    HandshakeFailure,
}

/// Why the upgrade-request check failed.
#[derive(Clone, Copy, Debug, PartialEq, Eq, Structural)]
pub enum HandshakeError {
    Timeout,
    Malformed,
}

/// Why a connection was turned away.
#[derive(Clone, Copy, Debug, PartialEq, Eq, Structural)]
pub enum RejectReason {
    RateLimited,
    Auth(AuthError),
    Handshake(HandshakeError),
    Io,
}

/// Where a connection stands in the admission pipeline.
#[derive(Clone, Copy, Debug, PartialEq, Eq, Structural)]
pub enum ConnectionState {
    Accepted,
    RateChecked,
    Authenticated,
    HandshakeValidated,
    Admitted,
    Rejected(RejectReason),
}

/// The outcome of the last action, as the caller observed it.
#[derive(Clone, Copy, Debug, PartialEq, Eq, Structural)]
pub enum Event {
    /// The rate limiter's decision for the peer address.
    RateDecision(bool),
    /// The TLS handshake completed; whether the peer presented a certificate.
    TlsAccepted(bool),
    /// The TLS handshake failed.
    TlsFailed(AuthError),
    /// The upgrade-request check finished.
    HandshakeChecked(Option<HandshakeError>),
    /// The stream was handed to the upgrade handler.
    HandedOff,
    /// The transport failed.
    IoFailed,
}

/// What the caller is to do next.
#[derive(Clone, Copy, Debug, PartialEq, Eq, Structural)]
pub enum Action {
    CheckRate,
    StartTls,
    ReadHandshake,
    HandOff,
    Close,
    Nothing,
}

/// A state together with the action that leads out of it.
#[derive(Clone, Copy, Debug, PartialEq, Eq, Structural)]
pub struct Step {
    pub state: ConnectionState,
    pub action: Action,
}

/// Whether the state is final: admitted or rejected.
pub open spec fn is_terminal(s: ConnectionState) -> bool {
    s is Admitted || s is Rejected
}

/// The transition table. An event that the state does not expect rejects the
/// connection as a transport failure; a final state ignores every event.
pub open spec fn transition(s: ConnectionState, e: Event) -> Step {
    let reject = |r: RejectReason| Step { state: ConnectionState::Rejected(r), action: Action::Close };
    match (s, e) {
        (ConnectionState::Admitted, _) => Step { state: s, action: Action::Nothing },
        (ConnectionState::Rejected(_), _) => Step { state: s, action: Action::Nothing },
        (_, Event::IoFailed) => reject(RejectReason::Io),
        (ConnectionState::Accepted, Event::RateDecision(true)) => Step {
            state: ConnectionState::RateChecked,
            action: Action::StartTls,
        },
        (ConnectionState::Accepted, Event::RateDecision(false)) => reject(RejectReason::RateLimited),
        (ConnectionState::RateChecked, Event::TlsAccepted(true)) => Step {
            state: ConnectionState::Authenticated,
            action: Action::ReadHandshake,
        },
        (ConnectionState::RateChecked, Event::TlsAccepted(false)) => reject(
            RejectReason::Auth(AuthError::NoCertificate),
        ),
        (ConnectionState::RateChecked, Event::TlsFailed(a)) => reject(RejectReason::Auth(a)),
        (ConnectionState::Authenticated, Event::HandshakeChecked(None)) => Step {
            state: ConnectionState::HandshakeValidated,
            action: Action::HandOff,
        },
        (ConnectionState::Authenticated, Event::HandshakeChecked(Some(h))) => reject(
            RejectReason::Handshake(h),
        ),
        (ConnectionState::HandshakeValidated, Event::HandedOff) => Step {
            state: ConnectionState::Admitted,
            action: Action::Nothing,
        },
        _ => reject(RejectReason::Io),
    }
}

/// The state reached from `s` after the events, in order.
pub open spec fn run(s: ConnectionState, events: Seq<Event>) -> ConnectionState
    decreases events.len(),
{
    if events.len() == 0 {
        s
    } else {
        transition(run(s, events.drop_last()), events.last()).state
    }
}

/// Whether the state lies past TLS authentication, short of rejection.
pub open spec fn is_authenticated(s: ConnectionState) -> bool {
    s is Authenticated || s is HandshakeValidated || s is Admitted
}

/// The position of a state along the pipeline; final states come last.
pub open spec fn rank(s: ConnectionState) -> nat {
    match s {
        ConnectionState::Accepted => 0,
        ConnectionState::RateChecked => 1,
        ConnectionState::Authenticated => 2,
        ConnectionState::HandshakeValidated => 3,
        ConnectionState::Admitted => 4,
        ConnectionState::Rejected(_) => 4,
    }
}

/// Every step out of a non-final state moves strictly forward, so no state
/// is ever revisited.
pub proof fn lemma_strictly_forward(s: ConnectionState, e: Event)
    ensures
        !is_terminal(s) ==> rank(transition(s, e).state) > rank(s),
        is_terminal(s) ==> transition(s, e) == (Step { state: s, action: Action::Nothing }),
{
}

/// A rejected connection stays rejected, for the same reason, whatever
/// events follow.
pub proof fn lemma_rejection_final(r: RejectReason, events: Seq<Event>)
    ensures
        run(ConnectionState::Rejected(r), events) == ConnectionState::Rejected(r),
    decreases events.len(),
{
    if events.len() > 0 {
        lemma_rejection_final(r, events.drop_last());
    }
}

/// A TLS session without a client certificate is rejected at once and the
/// transport closed; the upgrade-request check and the handler are never
/// asked for.
pub proof fn lemma_no_certificate_rejected()
    ensures
        transition(ConnectionState::RateChecked, Event::TlsAccepted(false)) == (Step {
            state: ConnectionState::Rejected(RejectReason::Auth(AuthError::NoCertificate)),
            action: Action::Close,
        }),
{
}

/// The outcome of the TLS handshake alone decides authentication: a session
/// in which the peer presented a certificate that chains to the trust set
/// moves on to the upgrade-request check, and a failed one is rejected for
/// its reason with the transport closed.
pub proof fn lemma_tls_outcome_decides(a: AuthError)
    ensures
        transition(ConnectionState::RateChecked, Event::TlsAccepted(true)) == (Step {
            state: ConnectionState::Authenticated,
            action: Action::ReadHandshake,
        }),
        transition(ConnectionState::RateChecked, Event::TlsFailed(a)) == (Step {
            state: ConnectionState::Rejected(RejectReason::Auth(a)),
            action: Action::Close,
        }),
{
}

/// The upgrade-request check and the hand-off are only ever asked for on
/// entering a state past authentication, and every run from a fresh
/// connection that is past authentication went through a TLS session in which
/// the peer presented a certificate.
pub proof fn lemma_authentication_precedes(s: ConnectionState, e: Event, events: Seq<Event>)
    ensures
        (transition(s, e).action is ReadHandshake || transition(s, e).action is HandOff)
            ==> is_authenticated(transition(s, e).state),
        is_authenticated(run(ConnectionState::Accepted, events)) ==> exists|j: int|
            0 <= j < events.len() && #[trigger] events[j] == Event::TlsAccepted(true),
    decreases events.len(),
{
    if events.len() > 0 {
        let prefix = events.drop_last();
        lemma_authentication_precedes(s, e, prefix);
        let before = run(ConnectionState::Accepted, prefix);
        if is_authenticated(run(ConnectionState::Accepted, events)) {
            if is_authenticated(before) {
                let j = choose|j: int| 0 <= j < prefix.len() && #[trigger] prefix[j] == Event::TlsAccepted(true);
                assert(events[j] == prefix[j]);
            } else {
                assert(events[events.len() - 1] == Event::TlsAccepted(true));
            }
        }
    }
}

/// An authenticated client whose upgrade request does not arrive in time is
/// rejected and its transport closed.
pub proof fn lemma_silence_rejected()
    ensures
        transition(ConnectionState::Authenticated, Event::HandshakeChecked(Some(HandshakeError::Timeout)))
            == (Step {
            state: ConnectionState::Rejected(RejectReason::Handshake(HandshakeError::Timeout)),
            action: Action::Close,
        }),
{
}

/// Every rejection closes the transport.
pub proof fn lemma_rejection_closes(s: ConnectionState, e: Event)
    ensures
        !is_terminal(s) && transition(s, e).state is Rejected ==> transition(s, e).action is Close,
{
}

/// The first step of every accepted connection: check its rate.
pub fn start() -> (r: Step)
    ensures
        r == (Step { state: ConnectionState::Accepted, action: Action::CheckRate }),
{
    Step { state: ConnectionState::Accepted, action: Action::CheckRate }
}

/// Advances a connection by one observed event.
pub fn next_step(s: ConnectionState, e: Event) -> (r: Step)
    ensures
        r == transition(s, e),
{
    let reject = Step { state: ConnectionState::Rejected(RejectReason::Io), action: Action::Close };
    match s {
        ConnectionState::Admitted => Step { state: s, action: Action::Nothing },
        ConnectionState::Rejected(_) => Step { state: s, action: Action::Nothing },
        _ => match e {
            Event::IoFailed => reject,
            Event::RateDecision(ok) => {
                if !matches!(s, ConnectionState::Accepted) {
                    reject
                } else if ok {
                    Step { state: ConnectionState::RateChecked, action: Action::StartTls }
                } else {
                    Step {
                        state: ConnectionState::Rejected(RejectReason::RateLimited),
                        action: Action::Close,
                    }
                }
            },
            Event::TlsAccepted(has_cert) => {
                if !matches!(s, ConnectionState::RateChecked) {
                    reject
                } else if has_cert {
                    Step { state: ConnectionState::Authenticated, action: Action::ReadHandshake }
                } else {
                    Step {
                        state: ConnectionState::Rejected(
                            RejectReason::Auth(AuthError::NoCertificate),
                        ),
                        action: Action::Close,
                    }
                }
            },
            Event::TlsFailed(a) => {
                if !matches!(s, ConnectionState::RateChecked) {
                    reject
                } else {
                    Step {
                        state: ConnectionState::Rejected(RejectReason::Auth(a)),
                        action: Action::Close,
                    }
                }
            },
            Event::HandshakeChecked(res) => {
                if !matches!(s, ConnectionState::Authenticated) {
                    reject
                } else {
                    match res {
                        None => Step {
                            state: ConnectionState::HandshakeValidated,
                            action: Action::HandOff,
                        },
                        Some(h) => Step {
                            state: ConnectionState::Rejected(RejectReason::Handshake(h)),
                            action: Action::Close,
                        },
                    }
                }
            },
            Event::HandedOff => {
                if !matches!(s, ConnectionState::HandshakeValidated) {
                    reject
                } else {
                    Step { state: ConnectionState::Admitted, action: Action::Nothing }
                }
            },
        },
    }
}

/// Whether the connection has reached a final state.
pub fn is_finished(s: ConnectionState) -> (r: bool)
    ensures
        r == is_terminal(s),
{
    match s {
        ConnectionState::Admitted => true,
        ConnectionState::Rejected(_) => true,
        _ => false,
    }
}

} // verus!
