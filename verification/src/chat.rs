//! Chat from the platform, as the lines that carry it into the game.

use crate::text::{decimal, push_decimal};
use vstd::prelude::*;
use vstd::string::StringExecFns;

verus! {

/// The character that starts a formatting code in the game's chat.
pub open spec fn code_mark() -> char {
    '\u{a7}'
}

/// The formatting codes for `colors`: each preceded by the mark.
pub open spec fn color_codes(colors: Seq<char>) -> Seq<char>
    decreases colors.len(),
{
    if colors.len() == 0 {
        Seq::empty()
    } else {
        color_codes(colors.drop_last()) + seq![code_mark(), colors.last()]
    }
}

/// `msg` in the game's formatting: the codes, the text, and the code that resets.
pub open spec fn formatted(msg: Seq<char>, colors: Seq<char>) -> Seq<char> {
    color_codes(colors) + msg + seq![code_mark(), 'r']
}

/// Appends `msg` in the game's formatting to `out`.
fn push_formatted(out: &mut String, msg: &str, color: &[char])
    ensures
        final(out)@ == old(out)@ + formatted(msg@, color@),
{
    let mut i: usize = 0;
    while i < color.len()
        invariant
            i <= color.len(),
            out@ == old(out)@ + color_codes(color@.subrange(0, i as int)),
        decreases color.len() - i,
    {
        proof {
            let next = color@.subrange(0, i + 1);
            assert(next.drop_last() =~= color@.subrange(0, i as int));
        }
        out.push('\u{a7}');
        out.push(color[i]);
        i += 1;
    }
    assert(color@.subrange(0, color.len() as int) =~= color@);
    out.append(msg);
    out.push('\u{a7}');
    out.push('r');
    assert(out@ =~= old(out)@ + formatted(msg@, color@));
}

/// Wraps `msg` in the game's formatting codes for `color`, and resets the formatting after
/// it.
pub fn mc_format(msg: &str, color: &[char]) -> (r: String)
    ensures
        r@ == formatted(msg@, color@),
{
    let mut out = String::new();
    push_formatted(&mut out, msg, color);
    out
}

/// A file that hangs on a chat message.
#[derive(Debug, Clone, PartialEq, Eq)]
pub struct Attachment {
    pub url: String,
    pub filename: String,
}

/// The message that a chat message answers.
#[derive(Debug, Clone, PartialEq, Eq)]
pub struct Quote {
    pub author: String,
    pub content: String,
}

/// A message from the chat platform, as far as the bridge reads it.
#[derive(Debug, Clone, PartialEq, Eq)]
pub struct ChatMessage {
    pub author: String,
    pub content: String,
    pub reply: Option<Quote>,
    pub attachments: Vec<Attachment>,
}

/// The line that names the message answered, ahead of the message itself.
pub open spec fn quote_text(author: Seq<char>, content: Seq<char>) -> Seq<char> {
    "reply -> "@ + formatted(author, seq!['d']) + " "@ + formatted(content, seq!['o']) + "\n"@
}

/// The author in brackets, as every line of a message starts after its verb.
pub open spec fn byline(author: Seq<char>) -> Seq<char> {
    "["@ + formatted(author, seq!['5']) + "] "@
}

/// The line that carries the message's text.
pub open spec fn content_line(msg: ChatMessage) -> Seq<char> {
    "MSG "@ + match msg.reply {
        Some(q) => quote_text(q.author@, q.content@),
        None => Seq::empty(),
    } + byline(msg.author@) + msg.content@
}

/// The line that says how many files hang on the message.
pub open spec fn attachment_note(author: Seq<char>, count: nat) -> Seq<char> {
    "MSG "@ + byline(author) + if count == 1 {
        "Attachment"@
    } else {
        "Attachments ("@ + decimal(count) + ")"@
    }
}

/// The line that carries one file: its address and its name.
pub open spec fn attachment_line(a: Attachment) -> Seq<char> {
    "URL "@ + a.url@ + " "@ + formatted(a.filename@, seq!['9', 'n'])
}

/// The lines that a chat message puts on the wire, in order: its text; then, where files
/// hang on it, their number and one line for each.
pub open spec fn message_text(msg: ChatMessage) -> Seq<Seq<char>> {
    if msg.attachments.len() == 0 {
        seq![content_line(msg)]
    } else {
        seq![content_line(msg), attachment_note(msg.author@, msg.attachments.len() as nat)]
            + Seq::new(msg.attachments.len() as nat, |i: int| attachment_line(msg.attachments[i]))
    }
}

/// Whether the bridge passes a chat message on: it comes from no bot, and from the channel
/// that is bridged.
pub fn should_forward(from_bot: bool, channel: u64, bridged_channel: u64) -> (r: bool)
    ensures
        r == (!from_bot && channel == bridged_channel),
{
    !from_bot && channel == bridged_channel
}

/// Appends the author in brackets to `out`.
fn push_byline(out: &mut String, author: &str)
    ensures
        final(out)@ == old(out)@ + byline(author@),
{
    let color: [char; 1] = ['5'];
    out.append("[");
    push_formatted(out, author, color.as_slice());
    out.append("] ");
    assert(color@ =~= seq!['5']);
    assert(out@ =~= old(out)@ + byline(author@));
}

/// The lines that a chat message puts on the wire; see [`message_text`].
pub fn message_lines(msg: &ChatMessage) -> (r: Vec<String>)
    ensures
        crate::text::texts(r@) == message_text(*msg),
{
    let mut lines: Vec<String> = Vec::new();
    let mut first = String::from_str("MSG ");
    match &msg.reply {
        Some(q) => {
            let d: [char; 1] = ['d'];
            let o: [char; 1] = ['o'];
            first.append("reply -> ");
            push_formatted(&mut first, q.author.as_str(), d.as_slice());
            first.append(" ");
            push_formatted(&mut first, q.content.as_str(), o.as_slice());
            first.append("\n");
            assert(d@ =~= seq!['d']);
            assert(o@ =~= seq!['o']);
            assert(first@ =~= "MSG "@ + quote_text(q.author@, q.content@));
        },
        None => {
            assert(first@ =~= "MSG "@ + Seq::<char>::empty());
        },
    }
    push_byline(&mut first, msg.author.as_str());
    first.append(msg.content.as_str());
    assert(first@ =~= content_line(*msg));
    lines.push(first);
    let n = msg.attachments.len();
    if n == 0 {
        assert(crate::text::texts(lines@) =~= message_text(*msg));
        return lines;
    }
    let mut note = String::from_str("MSG ");
    push_byline(&mut note, msg.author.as_str());
    if n == 1 {
        note.append("Attachment");
    } else {
        note.append("Attachments (");
        push_decimal(&mut note, n as u64);
        note.append(")");
    }
    assert(note@ =~= attachment_note(msg.author@, n as nat));
    lines.push(note);
    let mut i: usize = 0;
    while i < n
        invariant
            i <= n,
            n == msg.attachments.len(),
            lines.len() == 2 + i,
            lines@[0]@ == content_line(*msg),
            lines@[1]@ == attachment_note(msg.author@, n as nat),
            forall|k: int| 0 <= k < i ==> lines@[2 + k]@ == attachment_line(msg.attachments[k]),
        decreases n - i,
    {
        let a = &msg.attachments[i];
        let c: [char; 2] = ['9', 'n'];
        let mut line = String::from_str("URL ");
        line.append(a.url.as_str());
        line.append(" ");
        push_formatted(&mut line, a.filename.as_str(), c.as_slice());
        assert(c@ =~= seq!['9', 'n']);
        assert(line@ =~= attachment_line(*a));
        lines.push(line);
        i += 1;
    }
    assert(crate::text::texts(lines@) =~= message_text(*msg));
    lines
}

} // verus!
