use ws_server::admission::{
    is_finished, next_step, start, Action, AuthError, ConnectionState, Event, HandshakeError,
    RejectReason, Step,
};

fn drive(events: &[Event]) -> Vec<Step> {
    let mut s = start();
    let mut out = vec![s];
    for e in events {
        s = next_step(s.state, *e);
        out.push(s);
    }
    out
}

#[test]
fn full_success_reaches_admitted() {
    let steps = drive(&[
        Event::RateDecision(true),
        Event::TlsAccepted(true),
        Event::HandshakeChecked(None),
        Event::HandedOff,
    ]);
    let actions: Vec<Action> = steps.iter().map(|s| s.action).collect();
    assert_eq!(
        actions,
        vec![
            Action::CheckRate,
            Action::StartTls,
            Action::ReadHandshake,
            Action::HandOff,
            Action::Nothing
        ]
    );
    assert_eq!(steps[4].state, ConnectionState::Admitted);
    assert!(is_finished(steps[4].state));
    assert!(!is_finished(steps[3].state));
}

#[test]
fn rate_limited_connection_is_closed() {
    let steps = drive(&[Event::RateDecision(false)]);
    assert_eq!(
        steps[1],
        Step { state: ConnectionState::Rejected(RejectReason::RateLimited), action: Action::Close }
    );
}

#[test]
fn missing_certificate_rejected_before_handshake_check() {
    let steps = drive(&[
        Event::RateDecision(true),
        Event::TlsAccepted(false),
        Event::HandshakeChecked(None),
        Event::HandedOff,
    ]);
    let rejected = ConnectionState::Rejected(RejectReason::Auth(AuthError::NoCertificate));
    assert_eq!(steps[2], Step { state: rejected, action: Action::Close });
    assert_eq!(steps[3], Step { state: rejected, action: Action::Nothing });
    assert_eq!(steps[4], Step { state: rejected, action: Action::Nothing });
    assert!(steps.iter().all(|s| s.action != Action::ReadHandshake && s.action != Action::HandOff));
}

#[test]
fn untrusted_certificate_rejected() {
    let steps = drive(&[
        Event::RateDecision(true),
        Event::TlsFailed(AuthError::UntrustedOrInvalidCertificate),
    ]);
    assert_eq!(
        steps[2],
        Step {
            state: ConnectionState::Rejected(RejectReason::Auth(
                AuthError::UntrustedOrInvalidCertificate
            )),
            action: Action::Close,
        }
    );
}

#[test]
fn silent_client_rejected_on_timeout() {
    let steps = drive(&[
        Event::RateDecision(true),
        Event::TlsAccepted(true),
        Event::HandshakeChecked(Some(HandshakeError::Timeout)),
    ]);
    assert_eq!(
        steps[3],
        Step {
            state: ConnectionState::Rejected(RejectReason::Handshake(HandshakeError::Timeout)),
            action: Action::Close,
        }
    );
}

#[test]
fn malformed_request_rejected() {
    let s = next_step(ConnectionState::Authenticated, Event::HandshakeChecked(Some(HandshakeError::Malformed)));
    assert_eq!(s.state, ConnectionState::Rejected(RejectReason::Handshake(HandshakeError::Malformed)));
    assert_eq!(s.action, Action::Close);
}

#[test]
fn io_failure_at_any_open_stage_rejects() {
    for st in [
        ConnectionState::Accepted,
        ConnectionState::RateChecked,
        ConnectionState::Authenticated,
        ConnectionState::HandshakeValidated,
    ] {
        assert_eq!(
            next_step(st, Event::IoFailed),
            Step { state: ConnectionState::Rejected(RejectReason::Io), action: Action::Close }
        );
    }
}

#[test]
fn unexpected_event_rejects() {
    let s = next_step(ConnectionState::Accepted, Event::TlsAccepted(true));
    assert_eq!(s, Step { state: ConnectionState::Rejected(RejectReason::Io), action: Action::Close });
}

#[test]
fn admitted_ignores_later_events() {
    let s = next_step(ConnectionState::Admitted, Event::IoFailed);
    assert_eq!(s, Step { state: ConnectionState::Admitted, action: Action::Nothing });
}
