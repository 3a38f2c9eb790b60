//! One connect attempt: the endpoint, and the handshake step by step.

use crate::text::{find, find_char, range_eq, to_chars};
use vstd::prelude::*;
use vstd::string::StringExecFns;

verus! {

/// Why a connect attempt gave no connection.
#[derive(Debug, Clone, Copy, PartialEq, Eq, Structural)]
pub enum ConnectError {
    /// The endpoint is no URI.
    InvalidEndpoint,
    /// The transport could not be opened.
    TransportFailed,
    /// The secret or the probe could not be sent.
    SendFailed,
    /// No frame came back after the probe.
    NoHandshakeReply,
    /// The reply was not the expected one, and the policy is strict.
    Rejected,
    /// An event came that the handshake did not wait for.
    OutOfOrder,
}

/// What to make of a handshake reply that is not the expected one.
#[derive(Debug, Clone, Copy, PartialEq, Eq, Structural)]
pub enum AuthPolicy {
    /// Warn, and go on as if the service had confirmed.
    Lenient,
    /// Give the connection up.
    Strict,
}

/// How a handshake that gave a connection went.
#[derive(Debug, Clone, Copy, PartialEq, Eq, Structural)]
pub enum AuthVerdict {
    /// There is no secret: nothing was sent.
    Skipped,
    /// The service answered the probe as expected.
    Confirmed,
    /// The service answered something else; the connection is used all the same.
    Unconfirmed,
}

/// Where a handshake stands.
#[derive(Debug, Clone, Copy, PartialEq, Eq, Structural)]
pub enum HandshakePhase {
    Start,
    SecretSent,
    ProbeSent,
    AwaitingReply,
    Done,
}

/// What happened on the transport since the handshake's last action.
#[derive(Debug, Clone, PartialEq, Eq)]
pub enum HandshakeEvent {
    /// The transport is open.
    Opened,
    /// The transport could not be opened.
    OpenFailed,
    /// The frame went out.
    Sent,
    /// The frame did not go out.
    SendFailed,
    /// A frame came back, with this text (empty for a frame that is no text).
    Reply(String),
    /// The stream ended or failed before a frame came back.
    NoReply,
}

/// What the handshake asks for next.
#[derive(Debug, Clone, PartialEq, Eq)]
pub enum HandshakeAction {
    /// Send this frame, and report `Sent` or `SendFailed`.
    Send(String),
    /// Wait for one frame, and report `Reply` or `NoReply`.
    Receive,
    /// The connection stands.
    Succeed(AuthVerdict),
    /// The connection is given up.
    Fail(ConnectError),
}

/// What a [`HandshakeEvent`] holds.
pub enum HandshakeEventText {
    Opened,
    OpenFailed,
    Sent,
    SendFailed,
    Reply(Seq<char>),
    NoReply,
}

/// What a [`HandshakeAction`] holds.
pub enum HandshakeActionText {
    Send(Seq<char>),
    Receive,
    Succeed(AuthVerdict),
    Fail(ConnectError),
}

impl View for HandshakeEvent {
    type V = HandshakeEventText;

    open spec fn view(&self) -> HandshakeEventText {
        match self {
            HandshakeEvent::Opened => HandshakeEventText::Opened,
            HandshakeEvent::OpenFailed => HandshakeEventText::OpenFailed,
            HandshakeEvent::Sent => HandshakeEventText::Sent,
            HandshakeEvent::SendFailed => HandshakeEventText::SendFailed,
            HandshakeEvent::Reply(t) => HandshakeEventText::Reply(t@),
            HandshakeEvent::NoReply => HandshakeEventText::NoReply,
        }
    }
}

impl View for HandshakeAction {
    type V = HandshakeActionText;

    open spec fn view(&self) -> HandshakeActionText {
        match self {
            HandshakeAction::Send(t) => HandshakeActionText::Send(t@),
            HandshakeAction::Receive => HandshakeActionText::Receive,
            HandshakeAction::Succeed(v) => HandshakeActionText::Succeed(*v),
            HandshakeAction::Fail(e) => HandshakeActionText::Fail(*e),
        }
    }
}

/// The liveness probe that follows the secret.
pub open spec fn probe() -> Seq<char> {
    seq!['P', 'I', 'N', 'G']
}

/// The token that answers the probe.
pub open spec fn probe_answer() -> Seq<char> {
    seq!['P', 'O', 'N', 'G']
}

/// The text of `reply` before its first space, all of it where it holds none.
pub open spec fn first_token(reply: Seq<char>) -> Seq<char> {
    reply.subrange(0, find(reply, ' ', 0))
}

/// What a reply to the probe means: the expected token confirms; anything else is a warning
/// under the lenient policy and a failure under the strict one.
pub open spec fn judge_reply(policy: AuthPolicy, reply: Seq<char>) -> HandshakeActionText {
    if first_token(reply) == probe_answer() {
        HandshakeActionText::Succeed(AuthVerdict::Confirmed)
    } else if policy == AuthPolicy::Lenient {
        HandshakeActionText::Succeed(AuthVerdict::Unconfirmed)
    } else {
        HandshakeActionText::Fail(ConnectError::Rejected)
    }
}

/// The handshake, step by step. A transport that does not open ends the attempt. Without a
/// secret there is nothing to do once the transport is open. With one: send the secret as the first frame, then the probe, then wait for exactly
/// one frame and judge it. A failed send ends the attempt, and so does a missing reply; an
/// event that the phase does not wait for ends it as out of order.
pub open spec fn handshake_next(
    phase: HandshakePhase,
    event: HandshakeEventText,
    secret: Option<Seq<char>>,
    policy: AuthPolicy,
) -> (HandshakePhase, HandshakeActionText) {
    match (phase, event) {
        (HandshakePhase::Start, HandshakeEventText::Opened) => match secret {
            None => (HandshakePhase::Done, HandshakeActionText::Succeed(AuthVerdict::Skipped)),
            Some(s) => (HandshakePhase::SecretSent, HandshakeActionText::Send(s)),
        },
        (HandshakePhase::Start, HandshakeEventText::OpenFailed) => (
            HandshakePhase::Done,
            HandshakeActionText::Fail(ConnectError::TransportFailed),
        ),
        (HandshakePhase::SecretSent, HandshakeEventText::Sent) => (
            HandshakePhase::ProbeSent,
            HandshakeActionText::Send(probe()),
        ),
        (HandshakePhase::ProbeSent, HandshakeEventText::Sent) => (
            HandshakePhase::AwaitingReply,
            HandshakeActionText::Receive,
        ),
        (HandshakePhase::SecretSent, HandshakeEventText::SendFailed) => (
            HandshakePhase::Done,
            HandshakeActionText::Fail(ConnectError::SendFailed),
        ),
        (HandshakePhase::ProbeSent, HandshakeEventText::SendFailed) => (
            HandshakePhase::Done,
            HandshakeActionText::Fail(ConnectError::SendFailed),
        ),
        (HandshakePhase::AwaitingReply, HandshakeEventText::Reply(reply)) => (
            HandshakePhase::Done,
            judge_reply(policy, reply),
        ),
        (HandshakePhase::AwaitingReply, HandshakeEventText::NoReply) => (
            HandshakePhase::Done,
            HandshakeActionText::Fail(ConnectError::NoHandshakeReply),
        ),
        _ => (HandshakePhase::Done, HandshakeActionText::Fail(ConnectError::OutOfOrder)),
    }
}

/// One connect attempt's handshake.
#[derive(Debug)]
pub struct Handshake {
    pub phase: HandshakePhase,
    pub secret: Option<String>,
    pub policy: AuthPolicy,
}

/// The text of an optional string.
pub open spec fn text_of(s: Option<String>) -> Option<Seq<char>> {
    match s {
        Some(t) => Some(t@),
        None => None,
    }
}

impl Handshake {
    /// A handshake that has not begun.
    pub fn new(secret: Option<String>, policy: AuthPolicy) -> (r: Self)
        ensures
            r.phase == HandshakePhase::Start,
            r.secret == secret,
            r.policy == policy,
    {
        Handshake { phase: HandshakePhase::Start, secret, policy }
    }

    /// Takes in one event and names the next action; see [`handshake_next`].
    pub fn advance(&mut self, event: HandshakeEvent) -> (r: HandshakeAction)
        ensures
            final(self).secret == old(self).secret,
            final(self).policy == old(self).policy,
            (final(self).phase, r@) == handshake_next(
                old(self).phase,
                event@,
                text_of(old(self).secret),
                old(self).policy,
            ),
    {
        let phase = self.phase;
        self.phase = HandshakePhase::Done;
        match (phase, event) {
            (HandshakePhase::Start, HandshakeEvent::Opened) => match &self.secret {
                None => HandshakeAction::Succeed(AuthVerdict::Skipped),
                Some(s) => {
                    self.phase = HandshakePhase::SecretSent;
                    HandshakeAction::Send(s.clone())
                },
            },
            (HandshakePhase::Start, HandshakeEvent::OpenFailed) => HandshakeAction::Fail(
                ConnectError::TransportFailed,
            ),
            (HandshakePhase::SecretSent, HandshakeEvent::Sent) => {
                self.phase = HandshakePhase::ProbeSent;
                let p = String::from_str("PING");
                proof {
                    reveal_strlit("PING");
                    assert(p@ =~= probe());
                }
                HandshakeAction::Send(p)
            },
            (HandshakePhase::ProbeSent, HandshakeEvent::Sent) => {
                self.phase = HandshakePhase::AwaitingReply;
                HandshakeAction::Receive
            },
            (HandshakePhase::SecretSent, HandshakeEvent::SendFailed) => HandshakeAction::Fail(
                ConnectError::SendFailed,
            ),
            (HandshakePhase::ProbeSent, HandshakeEvent::SendFailed) => HandshakeAction::Fail(
                ConnectError::SendFailed,
            ),
            (HandshakePhase::AwaitingReply, HandshakeEvent::Reply(reply)) => judge(
                self.policy,
                reply.as_str(),
            ),
            (HandshakePhase::AwaitingReply, HandshakeEvent::NoReply) => HandshakeAction::Fail(
                ConnectError::NoHandshakeReply,
            ),
            _ => HandshakeAction::Fail(ConnectError::OutOfOrder),
        }
    }
}

/// Judges the reply to the probe; see [`judge_reply`].
pub fn judge(policy: AuthPolicy, reply: &str) -> (r: HandshakeAction)
    ensures
        r@ == judge_reply(policy, reply@),
{
    let v = to_chars(reply);
    let end = find_char(&v, ' ', 0);
    proof {
        reveal_strlit("PONG");
        assert("PONG"@ =~= probe_answer());
    }
    if range_eq(&v, 0, end, &to_chars("PONG")) {
        HandshakeAction::Succeed(AuthVerdict::Confirmed)
    } else {
        match policy {
            AuthPolicy::Lenient => HandshakeAction::Succeed(AuthVerdict::Unconfirmed),
            AuthPolicy::Strict => HandshakeAction::Fail(ConnectError::Rejected),
        }
    }
}

/// With a secret, the handshake sends the secret first, then the probe, then waits for one
/// frame, whatever the policy is; only the reply is judged by it.
pub proof fn lemma_handshake_order(secret: Seq<char>, policy: AuthPolicy, reply: Seq<char>)
    ensures
        handshake_next(HandshakePhase::Start, HandshakeEventText::Opened, Some(secret), policy) == (
            HandshakePhase::SecretSent,
            HandshakeActionText::Send(secret),
        ),
        handshake_next(
            HandshakePhase::SecretSent,
            HandshakeEventText::Sent,
            Some(secret),
            policy,
        ) == (HandshakePhase::ProbeSent, HandshakeActionText::Send(probe())),
        handshake_next(HandshakePhase::ProbeSent, HandshakeEventText::Sent, Some(secret), policy)
            == (HandshakePhase::AwaitingReply, HandshakeActionText::Receive),
        handshake_next(
            HandshakePhase::AwaitingReply,
            HandshakeEventText::Reply(reply),
            Some(secret),
            policy,
        ) == (HandshakePhase::Done, judge_reply(policy, reply)),
        handshake_next(
            HandshakePhase::AwaitingReply,
            HandshakeEventText::NoReply,
            Some(secret),
            policy,
        ) == (HandshakePhase::Done, HandshakeActionText::Fail(ConnectError::NoHandshakeReply)),
{
}

/// Under the lenient policy every reply gives a connection; under the strict one only a
/// reply whose first token is the expected answer does.
pub proof fn lemma_policy(reply: Seq<char>)
    ensures
        judge_reply(AuthPolicy::Lenient, reply) is Succeed,
        judge_reply(AuthPolicy::Strict, reply) is Succeed <==> first_token(reply) == probe_answer(),
{
}

/// Whether the `http` crate reads `s` as a URI.
pub uninterp spec fn uri_parses(s: Seq<char>) -> bool;

/// `http::Uri`'s parser, asked only whether it accepts `endpoint`. It reads nothing but the
/// text it is given, and refuses the empty text.
#[verifier::external_body]
fn parses_as_uri(endpoint: &str) -> (r: bool)
    ensures
        r == uri_parses(endpoint@),
        endpoint@.len() == 0 ==> !r,
{
    <http::Uri as std::str::FromStr>::from_str(endpoint).is_ok()
}

/// Checks the endpoint before a connect attempt opens the transport: an endpoint that is no
/// URI fails the attempt at once.
pub fn check_endpoint(endpoint: &str) -> (r: Result<(), ConnectError>)
    ensures
        r == if uri_parses(endpoint@) {
            Ok::<(), ConnectError>(())
        } else {
            Err::<(), ConnectError>(ConnectError::InvalidEndpoint)
        },
        endpoint@.len() == 0 ==> r is Err,
{
    if parses_as_uri(endpoint) {
        Ok(())
    } else {
        Err(ConnectError::InvalidEndpoint)
    }
}

} // verus!
