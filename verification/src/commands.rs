//! The lines that commands put on the wire, and the texts that answer them.

use crate::text::{is_blank, to_chars, to_text, trim_bounds, find, find_char};
use vstd::prelude::*;
use vstd::string::StringExecFns;

verus! {

/// The line that asks the control service for `verb` with `args`. The answer comes back
/// under the tag `verb`.
pub open spec fn request_text(verb: Seq<char>, args: Seq<char>) -> Seq<char> {
    verb + seq![' '] + args
}

/// Writes the line that asks the control service for `verb` with `args`.
pub fn request_line(verb: &str, args: &str) -> (r: String)
    ensures
        r@ == request_text(verb@, args@),
{
    let mut out = String::from_str(verb);
    out.push(' ');
    out.append(args);
    out
}

/// What a member may ask about backups.
#[derive(Debug, Clone, PartialEq, Eq)]
pub enum BackupCommand {
    /// List the backups.
    List,
    /// Remove the backup of this name.
    Remove(String),
    /// Make a backup under this name.
    Create(String),
}

/// The verb that a backup command puts on the wire.
pub open spec fn backup_verb(c: BackupCommand) -> Seq<char> {
    match c {
        BackupCommand::List => "LIST_BACKUPS"@,
        BackupCommand::Remove(_) => "RM_BACKUP"@,
        BackupCommand::Create(_) => "BACKUP"@,
    }
}

/// The name that a backup command speaks of; none for the list.
pub open spec fn backup_args(c: BackupCommand) -> Seq<char> {
    match c {
        BackupCommand::List => Seq::empty(),
        BackupCommand::Remove(name) => name@,
        BackupCommand::Create(name) => name@,
    }
}

/// The title over the answer to a backup command.
pub open spec fn backup_title(c: BackupCommand) -> Seq<char> {
    match c {
        BackupCommand::List => "Backup List"@,
        BackupCommand::Remove(_) => "Remove Backup"@,
        BackupCommand::Create(_) => "Create Backup"@,
    }
}

impl BackupCommand {
    /// The verb of the command, which is also the tag of its answer.
    pub fn verb(&self) -> (r: &'static str)
        ensures
            r@ == backup_verb(*self),
    {
        match self {
            BackupCommand::List => "LIST_BACKUPS",
            BackupCommand::Remove(_) => "RM_BACKUP",
            BackupCommand::Create(_) => "BACKUP",
        }
    }

    /// The title over the answer.
    pub fn title(&self) -> (r: &'static str)
        ensures
            r@ == backup_title(*self),
    {
        match self {
            BackupCommand::List => "Backup List",
            BackupCommand::Remove(_) => "Remove Backup",
            BackupCommand::Create(_) => "Create Backup",
        }
    }

    /// The line that goes on the wire: the verb, a space, and the name if there is one.
    pub fn line(&self) -> (r: String)
        ensures
            r@ == request_text(backup_verb(*self), backup_args(*self)),
    {
        proof {
            reveal_strlit("");
            assert(""@ =~= Seq::<char>::empty());
        }
        match self {
            BackupCommand::List => request_line(self.verb(), ""),
            BackupCommand::Remove(name) => request_line(self.verb(), name.as_str()),
            BackupCommand::Create(name) => request_line(self.verb(), name.as_str()),
        }
    }
}

/// The line that carries a reply into the game's chat; none for a reply that is blank.
pub open spec fn reply_text(message: Seq<char>) -> Option<Seq<char>> {
    if is_blank(message) {
        None
    } else {
        Some("MSG "@ + message)
    }
}

/// Writes the line that carries a reply into the game's chat; see [`reply_text`].
pub fn reply_line(message: &str) -> (r: Option<String>)
    ensures
        match r {
            Some(line) => reply_text(message@) == Some(line@),
            None => reply_text(message@) is None,
        },
{
    let v = to_chars(message);
    let (a, b) = trim_bounds(&v);
    if a == b {
        None
    } else {
        let mut out = String::from_str("MSG ");
        out.append(message);
        Some(out)
    }
}

/// The line that asks the bridge to connect anew.
pub fn reconnect_request() -> (r: String)
    ensures
        r@ == crate::bridge::sentinel(),
        crate::bridge::is_sentinel(r@),
{
    let r = String::from_str("__RECONNECT__");
    proof {
        reveal_strlit("__RECONNECT__");
        let s = "__RECONNECT__"@;
        assert(!crate::text::is_space(s[0]));
        assert(!crate::text::is_space(s[12]));
        assert(crate::text::skip_spaces(s, 0) == 0);
        assert(crate::text::skip_spaces_back(s, 13) == 13);
        assert(s.subrange(0, 13) =~= s);
    }
    r
}

/// `s` from index `i` on, with a space put behind each colon.
pub open spec fn colons_spread(s: Seq<char>, i: int) -> Seq<char>
    decreases s.len() - i,
{
    if i < 0 || i >= s.len() {
        Seq::empty()
    } else if s[i] == ':' {
        seq![':', ' '] + colons_spread(s, i + 1)
    } else {
        seq![s[i]] + colons_spread(s, i + 1)
    }
}

/// How many characters the tag and the space behind it take ahead of the list of players.
pub const LIST_HEAD: usize = 5;

/// The text that shows who is online, from the answer to `LIST`: what follows the tag and
/// its space, with a space behind each colon, in a code block; or that nobody is, where no
/// more than one byte follows.
pub open spec fn players_text(response: Seq<char>) -> Seq<char> {
    let from = if response.len() < LIST_HEAD {
        response.len() as int
    } else {
        LIST_HEAD as int
    };
    let players = colons_spread(response, from);
    if vstd::utf8::encode_utf8(players).len() > 1 {
        "```"@ + players + "```"@
    } else {
        "```No players are currently online.```"@
    }
}

/// Writes the text that shows who is online; see [`players_text`].
pub fn list_reply(response: &str) -> (r: String)
    ensures
        r@ == players_text(response@),
{
    let v = to_chars(response);
    let from: usize = if v.len() < LIST_HEAD {
        v.len()
    } else {
        LIST_HEAD
    };
    let mut players = String::new();
    let mut i: usize = from;
    while i < v.len()
        invariant
            from <= i <= v.len(),
            players@ + colons_spread(v@, i as int) == colons_spread(v@, from as int),
        decreases v.len() - i,
    {
        let ghost before = players@;
        players.push(v[i]);
        if v[i] == ':' {
            players.push(' ');
        }
        assert(players@ + colons_spread(v@, i + 1) =~= before + colons_spread(v@, i as int));
        i += 1;
    }
    assert(players@ + Seq::<char>::empty() =~= players@);
    if players.as_str().as_bytes().len() > 1 {
        let mut out = String::from_str("```");
        out.append(players.as_str());
        out.append("```");
        out
    } else {
        String::from_str("```No players are currently online.```")
    }
}

/// How many characters the tag and the space behind it take ahead of the list of sessions.
pub const SESSIONS_HEAD: usize = 14;

/// What follows the tag and its space in the answer to `LIST_SESSIONS`: the sessions, as
/// JSON. Empty where the answer is shorter.
pub fn sessions_json(response: &str) -> (r: String)
    ensures
        r@ == if response@.len() < SESSIONS_HEAD {
            Seq::<char>::empty()
        } else {
            response@.subrange(SESSIONS_HEAD as int, response@.len() as int)
        },
{
    let v = to_chars(response);
    if v.len() < SESSIONS_HEAD {
        String::new()
    } else {
        to_text(&v, SESSIONS_HEAD, v.len())
    }
}

/// The size in what `du -sh` prints: the text ahead of the first tab, all of it where there
/// is none.
pub fn size_field(output: &str) -> (r: String)
    ensures
        r@ == output@.subrange(0, find(output@, '\t', 0)),
{
    let v = to_chars(output);
    let end = find_char(&v, '\t', 0);
    to_text(&v, 0, end)
}

} // verus!
