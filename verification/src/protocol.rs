//! The inbound lines of the protocol, by their shape.

use crate::text::{
    find, find_char, is_space, lemma_find, lemma_find_is, lemma_skip_spaces, lemma_skip_spaces_is,
    skip_spaces, skip_spaces_in, to_chars, trim_start,
};
use vstd::prelude::*;
use vstd::string::StringExecFns;
use vstd::string::StrSliceExecFns;

verus! {

/// One line of bridged chat: who said what, and on which server.
pub struct ChatLine {
    pub server: Seq<char>,
    pub username: Seq<char>,
    pub message: Seq<char>,
}

/// Where the parts of a chat line `[server] <username> message` lie in `s`: the index of the
/// closing `]`, of `<`, of `>`, and of the first character of the message.
pub struct ChatMarks {
    pub close: int,
    pub lt: int,
    pub gt: int,
    pub body: int,
}

/// The marks of `s` as a chat line, or `None` where `s` is none: it has to start with `[`,
/// hold a `]` later, then optional white space, `<`, and a `>` later. White space after `>`
/// belongs to no part.
pub open spec fn chat_marks(s: Seq<char>) -> Option<ChatMarks> {
    if s.len() == 0 || s[0] != '[' {
        None
    } else {
        let close = find(s, ']', 1);
        let lt = skip_spaces(s, close + 1);
        let gt = find(s, '>', lt + 1);
        if close >= s.len() || lt >= s.len() || s[lt] != '<' || gt >= s.len() {
            None
        } else {
            Some(ChatMarks { close, lt, gt, body: skip_spaces(s, gt + 1) })
        }
    }
}

/// What `s` says as a chat line `[server] <username> message`.
pub open spec fn parse_chat(s: Seq<char>) -> Option<ChatLine> {
    match chat_marks(s) {
        None => None,
        Some(m) => Some(
            ChatLine {
                server: s.subrange(1, m.close),
                username: s.subrange(m.lt + 1, m.gt),
                message: s.subrange(m.body, s.len() as int),
            },
        ),
    }
}

/// The line that carries chat in its plainest form: `[server] <username> message`.
pub open spec fn chat_text(server: Seq<char>, username: Seq<char>, message: Seq<char>) -> Seq<
    char,
> {
    seq!['['] + server + seq![']', ' ', '<'] + username + seq!['>', ' '] + message
}

/// Parses `[server] <username> message` into its three parts. The server name ends at the
/// first `]`, the user name at the first `>` after `<`; white space before `<` and before the
/// message is dropped. Anything else is no chat line.
pub fn parse_server(msg: &str) -> (r: Option<(&str, &str, &str)>)
    ensures
        match parse_chat(msg@) {
            None => r is None,
            Some(c) => r matches Some((server, username, message)) && server@ == c.server
                && username@ == c.username && message@ == c.message,
        },
{
    let v = to_chars(msg);
    let n = v.len();
    if n == 0 || v[0] != '[' {
        return None;
    }
    let close = find_char(&v, ']', 1);
    if close >= n {
        return None;
    }
    let lt = skip_spaces_in(&v, close + 1);
    if lt >= n || v[lt] != '<' {
        return None;
    }
    let gt = find_char(&v, '>', lt + 1);
    if gt >= n {
        return None;
    }
    let body = skip_spaces_in(&v, gt + 1);
    assert(n == msg@.len());
    Some((msg.substring_char(1, close), msg.substring_char(lt + 1, gt), msg.substring_char(body, n)))
}

/// A chat line written as `[server] <username> message` parses into exactly those parts, the
/// message without the white space at its start, whenever the server name holds no `]` and
/// the user name no `>`.
pub proof fn lemma_parse_chat_text(server: Seq<char>, username: Seq<char>, message: Seq<char>)
    requires
        !server.contains(']'),
        !username.contains('>'),
    ensures
        parse_chat(chat_text(server, username, message)) == Some(
            ChatLine { server, username, message: trim_start(message) },
        ),
{
    let s = chat_text(server, username, message);
    let close = 1 + server.len() as int;
    let lt = close + 2;
    let gt = lt + 1 + username.len() as int;
    let lead = skip_spaces(message, 0);
    let body = gt + 2 + lead;
    lemma_skip_spaces(message, 0);
    assert(s.len() == gt + 2 + message.len());
    assert(s[0] == '[');
    assert forall|i: int| 1 <= i < close implies s[i] != ']' by {
        assert(s[i] == server[i - 1]);
    }
    assert(s[close] == ']');
    lemma_find_is(s, ']', 1, close);
    assert(s[close + 1] == ' ');
    assert(s[lt] == '<');
    lemma_skip_spaces_is(s, close + 1, lt);
    assert forall|i: int| lt + 1 <= i < gt implies s[i] != '>' by {
        assert(s[i] == username[i - lt - 1]);
    }
    assert(s[gt] == '>');
    lemma_find_is(s, '>', lt + 1, gt);
    assert(s[gt + 1] == ' ');
    assert forall|i: int| gt + 1 <= i < body implies is_space(s[i]) by {
        if i > gt + 1 {
            assert(s[i] == message[i - gt - 2]);
        }
    }
    if body < s.len() {
        assert(s[body] == message[lead]);
    }
    lemma_skip_spaces_is(s, gt + 1, body);
    assert(s.subrange(1, close) =~= server);
    assert(s.subrange(lt + 1, gt) =~= username);
    assert(s.subrange(body, s.len() as int) =~= trim_start(message));
}

/// A line that lacks a `]`, or a `>`, is no chat line: parsing fails, and yields no part.
pub proof fn lemma_parse_chat_needs_closers(s: Seq<char>)
    requires
        !s.contains(']') || !s.contains('>'),
    ensures
        parse_chat(s) is None,
{
    if s.len() > 0 {
        lemma_find(s, ']', 1);
        let close = find(s, ']', 1);
        if close < s.len() {
            lemma_skip_spaces(s, close + 1);
            let lt = skip_spaces(s, close + 1);
            if lt < s.len() {
                lemma_find(s, '>', lt + 1);
            }
        }
    }
}

/// A line of bridged chat, as it came over the wire.
#[derive(Debug, Clone, PartialEq, Eq)]
pub struct BridgeChat {
    pub server: String,
    pub username: String,
    pub message: String,
}

impl View for BridgeChat {
    type V = ChatLine;

    open spec fn view(&self) -> ChatLine {
        ChatLine { server: self.server@, username: self.username@, message: self.message@ }
    }
}

/// An inbound line, by its shape.
#[derive(Debug, Clone, PartialEq, Eq)]
pub enum InboundLine {
    /// `MSG [server] <username> message`.
    BridgeChat(BridgeChat),
    /// Any other line: the answer to a command, found again by its leading verb.
    CommandResponse { tag: String, payload: String },
}

/// What an [`InboundLine`] holds.
pub enum InboundText {
    BridgeChat(ChatLine),
    CommandResponse { tag: Seq<char>, payload: Seq<char> },
}

impl View for InboundLine {
    type V = InboundText;

    open spec fn view(&self) -> InboundText {
        match self {
            InboundLine::BridgeChat(c) => InboundText::BridgeChat(c@),
            InboundLine::CommandResponse { tag, payload } => InboundText::CommandResponse {
                tag: tag@,
                payload: payload@,
            },
        }
    }
}

/// Why an inbound line has no shape.
#[derive(Debug, Clone, Copy, PartialEq, Eq, Structural)]
pub enum LineError {
    /// The line holds no space, so it has no verb and rest.
    NoVerb,
    /// The verb is `MSG`, but the rest is not `[server] <username> message`.
    MalformedChat,
    /// The frame holds no text, so there is no line.
    NotText,
}

/// The verb that marks bridged chat.
pub open spec fn chat_verb() -> Seq<char> {
    seq!['M', 'S', 'G']
}

/// `s` split at its first space into verb and rest; `None` where it holds no space.
pub open spec fn split_verb(s: Seq<char>) -> Option<(Seq<char>, Seq<char>)> {
    let i = find(s, ' ', 0);
    if i >= s.len() {
        None
    } else {
        Some((s.subrange(0, i), s.subrange(i + 1, s.len() as int)))
    }
}

/// The shape of the line `s`.
pub open spec fn classify_line(s: Seq<char>) -> Result<InboundText, LineError> {
    match split_verb(s) {
        None => Err(LineError::NoVerb),
        Some((verb, rest)) => if verb == chat_verb() {
            match parse_chat(rest) {
                None => Err(LineError::MalformedChat),
                Some(c) => Ok(InboundText::BridgeChat(c)),
            }
        } else {
            Ok(InboundText::CommandResponse { tag: verb, payload: s })
        },
    }
}

/// Whether `s` is bridged chat by its verb.
pub open spec fn is_chat(s: Seq<char>) -> bool {
    match split_verb(s) {
        None => false,
        Some((verb, rest)) => verb == chat_verb(),
    }
}

/// Splits a line at its first space into verb and rest.
pub fn split_incoming_msg(msg: &str) -> (r: Option<(&str, &str)>)
    ensures
        match split_verb(msg@) {
            None => r is None,
            Some((verb, rest)) => r matches Some((v, t)) && v@ == verb && t@ == rest,
        },
{
    let v = to_chars(msg);
    let i = find_char(&v, ' ', 0);
    if i >= v.len() {
        None
    } else {
        Some((msg.substring_char(0, i), msg.substring_char(i + 1, v.len())))
    }
}

/// Whether `verb` is `MSG`.
fn is_chat_verb(verb: &str) -> (r: bool)
    ensures
        r == (verb@ == chat_verb()),
{
    let v = to_chars(verb);
    let b = v.len() == 3 && v[0] == 'M' && v[1] == 'S' && v[2] == 'G';
    assert(b == (v@ =~= chat_verb()));
    b
}

/// Whether a line is bridged chat: it has a verb, and the verb is `MSG`.
pub fn is_bridge(msg: &str) -> (r: bool)
    ensures
        r == is_chat(msg@),
{
    match split_incoming_msg(msg) {
        Some((verb, _)) => is_chat_verb(verb),
        None => false,
    }
}

/// Sorts an inbound line by its shape. A line without a space, and chat that is not
/// `[server] <username> message`, are errors for the caller to log and pass over.
pub fn classify(line: &str) -> (r: Result<InboundLine, LineError>)
    ensures
        match r {
            Ok(l) => classify_line(line@) == Ok::<InboundText, LineError>(l@),
            Err(e) => classify_line(line@) == Err::<InboundText, LineError>(e),
        },
{
    match split_incoming_msg(line) {
        None => Err(LineError::NoVerb),
        Some((verb, rest)) => {
            if is_chat_verb(verb) {
                match parse_server(rest) {
                    None => Err(LineError::MalformedChat),
                    Some((server, username, message)) => Ok(
                        InboundLine::BridgeChat(
                            BridgeChat {
                                server: String::from_str(server),
                                username: String::from_str(username),
                                message: String::from_str(message),
                            },
                        ),
                    ),
                }
            } else {
                Ok(
                    InboundLine::CommandResponse {
                        tag: String::from_str(verb),
                        payload: String::from_str(line),
                    },
                )
            }
        },
    }
}

/// What a chat line says after the user name: the text from the second character after the
/// first `>` of the rest on. `None` where the line is no chat by its verb, holds no `>`, or
/// ends at the `>`.
pub open spec fn chat_body(s: Seq<char>) -> Option<Seq<char>> {
    match split_verb(s) {
        None => None,
        Some((verb, rest)) => {
            let gt = find(rest, '>', 0);
            if verb != chat_verb() || gt + 2 > rest.len() {
                None
            } else {
                Some(rest.subrange(gt + 2, rest.len() as int))
            }
        },
    }
}

/// The text of a chat line after `<username> `.
pub fn get_body(msg: &str) -> (r: Option<&str>)
    ensures
        match chat_body(msg@) {
            None => r is None,
            Some(b) => r matches Some(t) && t@ == b,
        },
{
    match split_incoming_msg(msg) {
        None => None,
        Some((verb, rest)) => {
            if !is_chat_verb(verb) {
                return None;
            }
            let v = to_chars(rest);
            let gt = find_char(&v, '>', 0);
            if gt >= v.len() || v.len() - gt < 2 {
                None
            } else {
                Some(rest.substring_char(gt + 2, v.len()))
            }
        },
    }
}

} // verus!
