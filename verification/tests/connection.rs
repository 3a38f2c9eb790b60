use taurus_bridge::connection::{
    check_endpoint, judge, AuthPolicy, AuthVerdict, ConnectError, Handshake, HandshakeAction,
    HandshakeEvent, HandshakePhase,
};

#[test]
fn handshake_without_secret_is_skipped() {
    let mut h = Handshake::new(None, AuthPolicy::Lenient);
    assert_eq!(h.advance(HandshakeEvent::Opened), HandshakeAction::Succeed(AuthVerdict::Skipped));
    assert_eq!(h.phase, HandshakePhase::Done);
}

#[test]
fn handshake_sends_secret_then_probe_then_waits() {
    let mut h = Handshake::new(Some("hunter2".to_string()), AuthPolicy::Lenient);
    assert_eq!(h.phase, HandshakePhase::Start);
    assert_eq!(h.advance(HandshakeEvent::Opened), HandshakeAction::Send("hunter2".to_string()));
    assert_eq!(h.phase, HandshakePhase::SecretSent);
    assert_eq!(h.advance(HandshakeEvent::Sent), HandshakeAction::Send("PING".to_string()));
    assert_eq!(h.phase, HandshakePhase::ProbeSent);
    assert_eq!(h.advance(HandshakeEvent::Sent), HandshakeAction::Receive);
    assert_eq!(h.phase, HandshakePhase::AwaitingReply);
    assert_eq!(
        h.advance(HandshakeEvent::Reply("PONG".to_string())),
        HandshakeAction::Succeed(AuthVerdict::Confirmed)
    );
    assert_eq!(h.phase, HandshakePhase::Done);
    assert_eq!(h.secret, Some("hunter2".to_string()));
}

#[test]
fn handshake_fails_when_the_transport_does_not_open() {
    let mut h = Handshake::new(Some("s".to_string()), AuthPolicy::Strict);
    assert_eq!(
        h.advance(HandshakeEvent::OpenFailed),
        HandshakeAction::Fail(ConnectError::TransportFailed)
    );
    assert_eq!(h.phase, HandshakePhase::Done);
}

#[test]
fn handshake_fails_without_reply() {
    let mut h = Handshake::new(Some("s".to_string()), AuthPolicy::Lenient);
    h.advance(HandshakeEvent::Opened);
    h.advance(HandshakeEvent::Sent);
    h.advance(HandshakeEvent::Sent);
    assert_eq!(
        h.advance(HandshakeEvent::NoReply),
        HandshakeAction::Fail(ConnectError::NoHandshakeReply)
    );
    assert_eq!(h.phase, HandshakePhase::Done);
}

#[test]
fn handshake_fails_when_a_send_fails() {
    let mut h = Handshake::new(Some("s".to_string()), AuthPolicy::Lenient);
    h.advance(HandshakeEvent::Opened);
    assert_eq!(h.advance(HandshakeEvent::SendFailed), HandshakeAction::Fail(ConnectError::SendFailed));
    let mut h = Handshake::new(Some("s".to_string()), AuthPolicy::Lenient);
    h.advance(HandshakeEvent::Opened);
    h.advance(HandshakeEvent::Sent);
    assert_eq!(h.advance(HandshakeEvent::SendFailed), HandshakeAction::Fail(ConnectError::SendFailed));
}

#[test]
fn handshake_refuses_events_out_of_order() {
    let mut h = Handshake::new(Some("s".to_string()), AuthPolicy::Lenient);
    assert_eq!(h.advance(HandshakeEvent::Sent), HandshakeAction::Fail(ConnectError::OutOfOrder));
    assert_eq!(h.phase, HandshakePhase::Done);
    assert_eq!(h.advance(HandshakeEvent::Opened), HandshakeAction::Fail(ConnectError::OutOfOrder));
}

#[test]
fn lenient_policy_accepts_a_wrong_reply() {
    assert_eq!(
        judge(AuthPolicy::Lenient, "NOPE"),
        HandshakeAction::Succeed(AuthVerdict::Unconfirmed)
    );
    assert_eq!(judge(AuthPolicy::Lenient, ""), HandshakeAction::Succeed(AuthVerdict::Unconfirmed));
    assert_eq!(
        judge(AuthPolicy::Lenient, " PONG"),
        HandshakeAction::Succeed(AuthVerdict::Unconfirmed)
    );
}

#[test]
fn strict_policy_rejects_a_wrong_reply() {
    assert_eq!(judge(AuthPolicy::Strict, "NOPE"), HandshakeAction::Fail(ConnectError::Rejected));
    assert_eq!(judge(AuthPolicy::Strict, "PONGO"), HandshakeAction::Fail(ConnectError::Rejected));
    assert_eq!(judge(AuthPolicy::Strict, "pong"), HandshakeAction::Fail(ConnectError::Rejected));
}

#[test]
fn first_token_decides() {
    for policy in [AuthPolicy::Lenient, AuthPolicy::Strict] {
        assert_eq!(judge(policy, "PONG"), HandshakeAction::Succeed(AuthVerdict::Confirmed));
        assert_eq!(judge(policy, "PONG 12 ms"), HandshakeAction::Succeed(AuthVerdict::Confirmed));
    }
}

#[test]
fn endpoint_has_to_be_a_uri() {
    assert_eq!(check_endpoint("ws://localhost:8080/ws"), Ok(()));
    assert_eq!(check_endpoint("wss://taurus.example.org"), Ok(()));
    assert_eq!(check_endpoint(""), Err(ConnectError::InvalidEndpoint));
    assert_eq!(check_endpoint("ws://exa mple"), Err(ConnectError::InvalidEndpoint));
    assert_eq!(check_endpoint("http://[::1"), Err(ConnectError::InvalidEndpoint));
}
