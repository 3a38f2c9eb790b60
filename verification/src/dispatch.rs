//! Commands that players type into the game's chat.

use crate::protocol::{parse_chat, parse_server, split_incoming_msg, split_verb, ChatLine};
use crate::text::{has_prefix_at, join, join_from, split_words_from, texts, to_chars, words_from};
use vstd::prelude::*;
use vstd::string::StringExecFns;

verus! {

/// A command that a player typed into the game's chat.
#[derive(Debug, Clone, PartialEq, Eq)]
pub struct Invocation {
    pub server: String,
    pub username: String,
    pub command: String,
    pub args: Vec<String>,
}

/// What an [`Invocation`] holds.
pub struct InvocationText {
    pub server: Seq<char>,
    pub username: Seq<char>,
    pub command: Seq<char>,
    pub args: Seq<Seq<char>>,
}

impl View for Invocation {
    type V = InvocationText;

    open spec fn view(&self) -> InvocationText {
        InvocationText {
            server: self.server@,
            username: self.username@,
            command: self.command@,
            args: texts(self.args@),
        }
    }
}

/// The name of the command that `=` stands for.
pub open spec fn eval_command() -> Seq<char> {
    seq!['e', 'v', 'a', 'l']
}

/// The name of the command that shows a scoreboard.
pub open spec fn score_command() -> Seq<char> {
    seq!['s', 'c', 'o', 'r', 'e']
}

/// The least index at or after `from` of a prefix that `message` starts with, or
/// `prefixes.len()` if there is none.
pub open spec fn first_prefix(prefixes: Seq<Seq<char>>, message: Seq<char>, from: int) -> int
    decreases prefixes.len() - from,
{
    if from < 0 || from >= prefixes.len() {
        prefixes.len() as int
    } else if prefixes[from].is_prefix_of(message) {
        from
    } else {
        first_prefix(prefixes, message, from + 1)
    }
}

/// `first_prefix` names the first prefix that matches: none before it does.
pub proof fn lemma_first_prefix(prefixes: Seq<Seq<char>>, message: Seq<char>, from: int)
    requires
        0 <= from <= prefixes.len(),
    ensures
        from <= first_prefix(prefixes, message, from) <= prefixes.len(),
        first_prefix(prefixes, message, from) < prefixes.len() ==> prefixes[first_prefix(
            prefixes,
            message,
            from,
        )].is_prefix_of(message),
        forall|i: int|
            from <= i < first_prefix(prefixes, message, from) ==> !(#[trigger] prefixes[i]).is_prefix_of(
                message,
            ),
    decreases prefixes.len() - from,
{
    if from < prefixes.len() && !prefixes[from].is_prefix_of(message) {
        lemma_first_prefix(prefixes, message, from + 1);
    }
}

/// The command that a chat line carries, if any. A message that starts with `=` is `eval`,
/// whatever the prefixes are, with the words after the `=` as arguments. Otherwise the first
/// prefix that the message starts with decides: the first word after it is the command, the
/// other words are its arguments, and where no word follows there is no command. A message
/// that starts with no prefix is no command.
pub open spec fn invocation_of(prefixes: Seq<Seq<char>>, chat: ChatLine) -> Option<InvocationText> {
    if chat.message.len() > 0 && chat.message[0] == '=' {
        Some(
            InvocationText {
                server: chat.server,
                username: chat.username,
                command: eval_command(),
                args: words_from(chat.message, 1),
            },
        )
    } else {
        let p = first_prefix(prefixes, chat.message, 0);
        if p >= prefixes.len() {
            None
        } else {
            let w = words_from(chat.message, prefixes[p].len() as int);
            if w.len() == 0 {
                None
            } else {
                Some(
                    InvocationText {
                        server: chat.server,
                        username: chat.username,
                        command: w[0],
                        args: w.subrange(1, w.len() as int),
                    },
                )
            }
        }
    }
}

/// Finds the command in the parts of a chat line; see [`invocation_of`].
pub fn dispatch(prefixes: &Vec<String>, server: &str, username: &str, message: &str) -> (r: Option<
    Invocation,
>)
    ensures
        match invocation_of(
            texts(prefixes@),
            ChatLine { server: server@, username: username@, message: message@ },
        ) {
            None => r is None,
            Some(i) => r matches Some(found) && found@ == i,
        },
{
    let m = to_chars(message);
    if m.len() > 0 && m[0] == '=' {
        let args = split_words_from(&m, 1);
        let command = String::from_str("eval");
        proof {
            reveal_strlit("eval");
            assert(command@ =~= eval_command());
        }
        return Some(
            Invocation {
                server: String::from_str(server),
                username: String::from_str(username),
                command,
                args,
            },
        );
    }
    let mut i: usize = 0;
    while i < prefixes.len()
        invariant
            i <= prefixes.len(),
            m@ == message@,
            !(m@.len() > 0 && m@[0] == '='),
            first_prefix(texts(prefixes@), message@, 0) == first_prefix(
                texts(prefixes@),
                message@,
                i as int,
            ),
        decreases prefixes.len() - i,
    {
        let p = to_chars(prefixes[i].as_str());
        assert(m@.subrange(0, m.len() as int) =~= m@);
        assert(texts(prefixes@)[i as int] == p@);
        if has_prefix_at(&m, 0, &p) {
            assert(first_prefix(texts(prefixes@), message@, i as int) == i);
            let mut w = split_words_from(&m, p.len());
            if w.len() == 0 {
                return None;
            }
            let command = w.remove(0);
            proof {
                let all = words_from(message@, p.len() as int);
                assert(texts(w@) =~= all.subrange(1, all.len() as int));
            }
            return Some(
                Invocation {
                    server: String::from_str(server),
                    username: String::from_str(username),
                    command,
                    args: w,
                },
            );
        }
        i += 1;
    }
    None
}

/// The command that an inbound line carries: the line is split at its first space, the rest
/// read as chat, and the chat searched for a command.
pub open spec fn command_in_line(prefixes: Seq<Seq<char>>, line: Seq<char>) -> Option<
    InvocationText,
> {
    match split_verb(line) {
        None => None,
        Some((verb, rest)) => match parse_chat(rest) {
            None => None,
            Some(chat) => invocation_of(prefixes, chat),
        },
    }
}

/// Finds the command in an inbound line; see [`command_in_line`].
pub fn ingame_command(prefixes: &Vec<String>, msg: &str) -> (r: Option<Invocation>)
    ensures
        match command_in_line(texts(prefixes@), msg@) {
            None => r is None,
            Some(i) => r matches Some(found) && found@ == i,
        },
{
    match split_incoming_msg(msg) {
        None => None,
        Some((_, rest)) => match parse_server(rest) {
            None => None,
            Some((server, username, message)) => dispatch(prefixes, server, username, message),
        },
    }
}

/// A message that starts with `=` is `eval` whatever the prefixes are.
pub proof fn lemma_equals_sign_is_eval(prefixes: Seq<Seq<char>>, chat: ChatLine)
    requires
        chat.message.len() > 0,
        chat.message[0] == '=',
    ensures
        invocation_of(prefixes, chat) == Some(
            InvocationText {
                server: chat.server,
                username: chat.username,
                command: eval_command(),
                args: words_from(chat.message, 1),
            },
        ),
{
}

/// A message that starts with no prefix, and not with `=`, is no command.
pub proof fn lemma_no_prefix_no_command(prefixes: Seq<Seq<char>>, chat: ChatLine)
    requires
        chat.message.len() == 0 || chat.message[0] != '=',
        forall|i: int| 0 <= i < prefixes.len() ==> !(#[trigger] prefixes[i]).is_prefix_of(chat.message),
    ensures
        invocation_of(prefixes, chat) is None,
{
    lemma_first_prefix(prefixes, chat.message, 0);
}

/// What the bridge does for a command from the game.
#[derive(Debug, Clone, PartialEq, Eq)]
pub enum IngameAction {
    /// The command is unknown, or lacks what it needs.
    Nothing,
    /// Show the scoreboard `board` on `server`.
    Score { server: String, board: String },
    /// Hand `line` to the calculator of `username`.
    Eval { username: String, line: String },
}

/// What an [`IngameAction`] holds.
pub enum IngameActionText {
    Nothing,
    Score { server: Seq<char>, board: Seq<char> },
    Eval { username: Seq<char>, line: Seq<char> },
}

impl View for IngameAction {
    type V = IngameActionText;

    open spec fn view(&self) -> IngameActionText {
        match self {
            IngameAction::Nothing => IngameActionText::Nothing,
            IngameAction::Score { server, board } => IngameActionText::Score {
                server: server@,
                board: board@,
            },
            IngameAction::Eval { username, line } => IngameActionText::Eval {
                username: username@,
                line: line@,
            },
        }
    }
}

/// The action for a command: `score` shows the board that its first argument names, and does
/// nothing without one; `eval` hands its arguments, joined by single spaces, to the caller's
/// calculator; any other command does nothing.
pub open spec fn action_of(inv: InvocationText) -> IngameActionText {
    if inv.command == score_command() {
        if inv.args.len() == 0 {
            IngameActionText::Nothing
        } else {
            IngameActionText::Score { server: inv.server, board: inv.args[0] }
        }
    } else if inv.command == eval_command() {
        IngameActionText::Eval { username: inv.username, line: join(inv.args, seq![' ']) }
    } else {
        IngameActionText::Nothing
    }
}

/// Routes a command from the game to its handler; see [`action_of`].
pub fn execute_ingame_command(server: &str, username: &str, command: &str, args: &Vec<String>) -> (r:
    IngameAction)
    ensures
        r@ == action_of(
            InvocationText {
                server: server@,
                username: username@,
                command: command@,
                args: texts(args@),
            },
        ),
{
    let c = to_chars(command);
    proof {
        reveal_strlit("score");
        reveal_strlit("eval");
        reveal_strlit(" ");
        assert("score"@ =~= score_command());
        assert("eval"@ =~= eval_command());
        assert(" "@ =~= seq![' ']);
        assert(c@.subrange(0, c.len() as int) =~= c@);
        assert(texts(args@).subrange(0, args.len() as int) =~= texts(args@));
    }
    if crate::text::range_eq(&c, 0, c.len(), &to_chars("score")) {
        if args.len() == 0 {
            IngameAction::Nothing
        } else {
            IngameAction::Score { server: String::from_str(server), board: args[0].clone() }
        }
    } else if crate::text::range_eq(&c, 0, c.len(), &to_chars("eval")) {
        IngameAction::Eval { username: String::from_str(username), line: join_from(args, 0, " ") }
    } else {
        IngameAction::Nothing
    }
}

} // verus!
