//! The bridge's one connection: what becomes of each outbound line, and of each inbound
//! event.

use crate::cache::ResponseCache;
use crate::dispatch::{dispatch, invocation_of, Invocation, InvocationText};
use crate::protocol::{classify, classify_line, split_verb, InboundLine, InboundText, LineError};
use crate::text::{texts, trim, trimmed_is};
use vstd::prelude::*;

verus! {

/// The bridge's one connection to the control service: none, or a live socket.
#[derive(Debug)]
pub enum ConnectionState<S> {
    Disconnected,
    Active(S),
}

impl<S> ConnectionState<S> {
    /// The state that a connect attempt leaves: active with the socket it opened, or
    /// disconnected where it opened none.
    pub fn from_attempt(attempt: Option<S>) -> (r: Self)
        ensures
            r == match attempt {
                Some(socket) => ConnectionState::Active(socket),
                None => ConnectionState::Disconnected,
            },
    {
        match attempt {
            Some(socket) => ConnectionState::Active(socket),
            None => ConnectionState::Disconnected,
        }
    }

    /// Whether a socket is there.
    pub fn is_active(&self) -> (r: bool)
        ensures
            r == (self is Active),
    {
        match self {
            ConnectionState::Active(_) => true,
            ConnectionState::Disconnected => false,
        }
    }
}

/// The outbound line that is never sent: it asks the bridge to connect anew.
pub open spec fn sentinel() -> Seq<char> {
    "__RECONNECT__"@
}

/// Whether an outbound line is the reconnect sentinel, white space around it aside.
pub open spec fn is_sentinel(msg: Seq<char>) -> bool {
    trim(msg) == sentinel()
}

/// What the bridge does with one outbound line.
#[derive(Debug, Clone, Copy, PartialEq, Eq, Structural)]
pub enum OutboundPlan {
    /// Connect anew, whatever the connection is, and send nothing.
    Reconnect,
    /// There is no connection: connect, and send the line if that worked.
    ConnectThenForward,
    /// Send the line over the connection that is there.
    Forward,
}

/// What becomes of the outbound line once its plan's connect attempt, if any, is over.
#[derive(Debug, Clone, Copy, PartialEq, Eq, Structural)]
pub enum Delivery {
    /// Send it over the active connection.
    Forward,
    /// There is no connection: the line is lost, and not kept for later.
    Dropped,
    /// The line was the sentinel: nothing goes on the wire.
    Nothing,
}

/// The plan for the outbound line `msg`: the sentinel always reconnects; any other line is
/// sent, after a connect attempt where there is no connection.
pub open spec fn outbound_plan(active: bool, msg: Seq<char>) -> OutboundPlan {
    if is_sentinel(msg) {
        OutboundPlan::Reconnect
    } else if active {
        OutboundPlan::Forward
    } else {
        OutboundPlan::ConnectThenForward
    }
}

/// The number of connect attempts that a plan makes.
pub open spec fn connect_attempts(plan: OutboundPlan) -> nat {
    match plan {
        OutboundPlan::Forward => 0,
        _ => 1,
    }
}

/// Whether the bridge is connected once a plan's connect attempt is over: a plan that
/// connects ends with what the attempt gave, a plan that does not leaves things as they are.
pub open spec fn active_after(plan: OutboundPlan, was_active: bool, connected: bool) -> bool {
    match plan {
        OutboundPlan::Forward => was_active,
        _ => connected,
    }
}

/// What becomes of the line: the sentinel is never sent; any other line is sent if the
/// bridge is connected by now, and lost if not.
pub open spec fn delivery_of(plan: OutboundPlan, was_active: bool, connected: bool) -> Delivery {
    if plan == OutboundPlan::Reconnect {
        Delivery::Nothing
    } else if active_after(plan, was_active, connected) {
        Delivery::Forward
    } else {
        Delivery::Dropped
    }
}

/// One inbound event on the active connection.
#[derive(Debug, Clone, PartialEq, Eq)]
pub enum Frame {
    /// A text frame.
    Text(String),
    /// A frame of another kind: binary data, or a control frame.
    NotText,
    /// The read failed.
    Failed,
    /// The stream ended.
    Ended,
}

/// What the bridge does for one inbound event.
#[derive(Debug, Clone, PartialEq, Eq)]
pub enum Inbound {
    /// Bridged chat: run `command` if there is one, then post `relay` to the chat platform.
    Chat { relay: String, command: Option<Invocation> },
    /// The answer to a command: it is in the cache now.
    Stored,
    /// The line has no shape: it was passed over, for this reason.
    Skipped(LineError),
    /// The connection is gone; the bridge waits for the next outbound line to connect anew.
    Lost,
}

/// The bridge: its connection and the prefixes that mark a command in chat.
pub struct Bridge<S> {
    pub state: ConnectionState<S>,
    pub prefixes: Vec<String>,
}

impl<S> Bridge<S> {
    /// The bridge as it starts: with what one connect attempt gave.
    pub fn start(prefixes: Vec<String>, attempt: Option<S>) -> (r: Self)
        ensures
            r.prefixes == prefixes,
            r.state == match attempt {
                Some(socket) => ConnectionState::Active(socket),
                None => ConnectionState::<S>::Disconnected,
            },
    {
        Bridge { state: ConnectionState::from_attempt(attempt), prefixes }
    }

    /// Whether the bridge is connected.
    pub open spec fn active(&self) -> bool {
        self.state is Active
    }

    /// The plan for one outbound line; see [`outbound_plan`].
    pub fn plan(&self, msg: &str) -> (r: OutboundPlan)
        ensures
            r == outbound_plan(self.active(), msg@),
    {
        if trimmed_is(msg, "__RECONNECT__") {
            OutboundPlan::Reconnect
        } else if self.state.is_active() {
            OutboundPlan::Forward
        } else {
            OutboundPlan::ConnectThenForward
        }
    }

    /// Takes in what the plan's connect attempt gave, and says what becomes of the line. A
    /// plan that connects replaces the connection, dropping the old one; a plan that does not
    /// connect ignores `attempt`.
    pub fn settle(&mut self, plan: OutboundPlan, attempt: Option<S>) -> (r: Delivery)
        ensures
            final(self).prefixes == old(self).prefixes,
            final(self).state == match plan {
                OutboundPlan::Forward => old(self).state,
                _ => match attempt {
                    Some(socket) => ConnectionState::Active(socket),
                    None => ConnectionState::<S>::Disconnected,
                },
            },
            final(self).active() == active_after(plan, old(self).active(), attempt is Some),
            r == delivery_of(plan, old(self).active(), attempt is Some),
    {
        match plan {
            OutboundPlan::Forward => {},
            _ => {
                self.state = ConnectionState::from_attempt(attempt);
            },
        }
        match plan {
            OutboundPlan::Reconnect => Delivery::Nothing,
            _ => if self.state.is_active() {
                Delivery::Forward
            } else {
                Delivery::Dropped
            },
        }
    }

    /// A send failed: the connection is given up, and the line is not sent again.
    pub fn send_failed(&mut self)
        ensures
            final(self).prefixes == old(self).prefixes,
            final(self).state == ConnectionState::<S>::Disconnected,
    {
        self.state = ConnectionState::Disconnected;
    }
}

/// What an [`Inbound`] holds.
pub enum InboundEffect {
    Chat { relay: Seq<char>, command: Option<InvocationText> },
    Stored,
    Skipped(LineError),
    Lost,
}

impl View for Inbound {
    type V = InboundEffect;

    open spec fn view(&self) -> InboundEffect {
        match self {
            Inbound::Chat { relay, command } => InboundEffect::Chat {
                relay: relay@,
                command: match command {
                    Some(c) => Some(c@),
                    None => None,
                },
            },
            Inbound::Stored => InboundEffect::Stored,
            Inbound::Skipped(e) => InboundEffect::Skipped(*e),
            Inbound::Lost => InboundEffect::Lost,
        }
    }
}

/// What the bridge does for the inbound line `line`. Chat is posted as it came, all of the
/// line after the verb, and searched for a command; any other line with a verb is the answer
/// to a command and goes into the cache whole; a line without shape is passed over.
pub open spec fn inbound_effect(prefixes: Seq<Seq<char>>, line: Seq<char>) -> InboundEffect {
    match classify_line(line) {
        Err(e) => InboundEffect::Skipped(e),
        Ok(InboundText::BridgeChat(chat)) => InboundEffect::Chat {
            relay: split_verb(line).unwrap().1,
            command: invocation_of(prefixes, chat),
        },
        Ok(InboundText::CommandResponse { tag, payload }) => InboundEffect::Stored,
    }
}

impl<S> Bridge<S> {
    /// Takes in one inbound event. A failed read and the end of the stream give the
    /// connection up; a text frame leaves it as it is and has the effect that
    /// [`inbound_effect`] names; a frame that is no text is passed over. The cache changes
    /// only by the answer that is stored.
    pub fn receive(&mut self, cache: &mut ResponseCache, frame: Frame) -> (r: Inbound)
        ensures
            final(self).prefixes == old(self).prefixes,
            match frame {
                Frame::Text(line) => {
                    &&& final(self).state == old(self).state
                    &&& r@ == inbound_effect(texts(old(self).prefixes@), line@)
                    &&& final(cache)@ == if r is Stored {
                        old(cache)@.push(line@)
                    } else {
                        old(cache)@
                    }
                },
                Frame::NotText => {
                    &&& final(self).state == old(self).state
                    &&& r == Inbound::Skipped(LineError::NotText)
                    &&& final(cache)@ == old(cache)@
                },
                _ => {
                    &&& final(self).state == ConnectionState::<S>::Disconnected
                    &&& r == Inbound::Lost
                    &&& final(cache)@ == old(cache)@
                },
            },
    {
        match frame {
            Frame::Text(line) => {
                match classify(line.as_str()) {
                    Err(e) => Inbound::Skipped(e),
                    Ok(InboundLine::CommandResponse { tag, payload }) => {
                        cache.push(payload);
                        Inbound::Stored
                    },
                    Ok(InboundLine::BridgeChat(chat)) => {
                        let command = dispatch(
                            &self.prefixes,
                            chat.server.as_str(),
                            chat.username.as_str(),
                            chat.message.as_str(),
                        );
                        let v = crate::text::to_chars(line.as_str());
                        let at = crate::text::find_char(&v, ' ', 0);
                        let relay = crate::text::to_text(&v, at + 1, v.len());
                        Inbound::Chat { relay, command }
                    },
                }
            },
            Frame::NotText => Inbound::Skipped(LineError::NotText),
            _ => {
                self.state = ConnectionState::Disconnected;
                Inbound::Lost
            },
        }
    }
}

/// Reconnecting is unconditional: the sentinel makes exactly one connect attempt whether or
/// not the bridge is connected, the bridge is then connected if and only if that attempt
/// worked, and the sentinel itself never goes on the wire.
pub proof fn lemma_sentinel_reconnects_once(was_active: bool, msg: Seq<char>, connected: bool)
    requires
        is_sentinel(msg),
    ensures
        outbound_plan(was_active, msg) == OutboundPlan::Reconnect,
        connect_attempts(outbound_plan(was_active, msg)) == 1,
        active_after(outbound_plan(was_active, msg), was_active, connected) == connected,
        delivery_of(outbound_plan(was_active, msg), was_active, connected) == Delivery::Nothing,
{
}

/// A line that is not the sentinel is sent if and only if the bridge is connected after at
/// most one connect attempt, made only where there was no connection; a line that cannot be
/// sent is lost.
pub proof fn lemma_line_is_sent_or_lost(was_active: bool, msg: Seq<char>, connected: bool)
    requires
        !is_sentinel(msg),
    ensures
        connect_attempts(outbound_plan(was_active, msg)) == if was_active {
            0nat
        } else {
            1nat
        },
        delivery_of(outbound_plan(was_active, msg), was_active, connected) == if was_active
            || connected {
            Delivery::Forward
        } else {
            Delivery::Dropped
        },
{
}

} // verus!
