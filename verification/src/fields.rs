//! Titled entries for the messages that show sessions, machines and the info board.

use crate::text::{decimal, find, find_char, push_decimal, texts, to_chars, to_text, trim, trim_bounds};
use vstd::prelude::*;
use vstd::string::StringExecFns;

verus! {

/// One titled entry of a message to the chat platform.
#[derive(Debug, Clone, PartialEq, Eq)]
pub struct Field {
    pub name: String,
    pub value: String,
    pub inline: bool,
}

/// What a [`Field`] holds.
pub struct FieldText {
    pub name: Seq<char>,
    pub value: Seq<char>,
    pub inline: bool,
}

impl View for Field {
    type V = FieldText;

    open spec fn view(&self) -> FieldText {
        FieldText { name: self.name@, value: self.value@, inline: self.inline }
    }
}

/// What each field in a vector holds.
pub open spec fn fields_of(v: Seq<Field>) -> Seq<FieldText> {
    Seq::new(v.len(), |i: int| v[i]@)
}

/// Makes a field of two texts.
fn field(name: &str, value: &str, inline: bool) -> (r: Field)
    ensures
        r@ == (FieldText { name: name@, value: value@, inline }),
{
    Field { name: String::from_str(name), value: String::from_str(value), inline }
}

/// How a session runs its game.
#[derive(Debug, Clone, PartialEq, Eq)]
pub struct Game {
    pub chat_bridge: Option<bool>,
    pub backup_interval: Option<u64>,
    pub backup_keep: Option<u64>,
}

/// A session of the control service.
#[derive(Debug, Clone, PartialEq, Eq)]
pub struct Session {
    pub name: String,
    pub description: Option<String>,
    pub host: String,
    pub game: Option<Game>,
    /// Whether the session has a remote console.
    pub rcon: bool,
}

/// A span of `n` seconds, in words.
pub open spec fn seconds_text(n: nat) -> Seq<char> {
    decimal(n) + " seconds"@
}

/// The fields for how a session runs its game: whether chat is bridged, where that is said,
/// and each backup time that is said and not zero.
pub open spec fn game_fields(game: Game) -> Seq<FieldText> {
    (match game.chat_bridge {
        Some(on) => seq![
            FieldText {
                name: "Chat Bridge"@,
                value: if on {
                    "true"@
                } else {
                    "false"@
                },
                inline: true,
            },
        ],
        None => Seq::empty(),
    }) + (match game.backup_interval {
        Some(n) => if n > 0 {
            seq![
                FieldText {
                    name: "Backup Interval"@,
                    value: seconds_text(n as nat),
                    inline: true,
                },
            ]
        } else {
            Seq::empty()
        },
        None => Seq::empty(),
    }) + (match game.backup_keep {
        Some(n) => if n > 0 {
            seq![
                FieldText {
                    name: "Backup Keep Time"@,
                    value: seconds_text(n as nat),
                    inline: true,
                },
            ]
        } else {
            Seq::empty()
        },
        None => Seq::empty(),
    })
}

/// The fields that show one session: its name, its description if it has one, its host,
/// whether it has a remote console, and how it runs its game.
pub open spec fn session_fields_text(s: Session) -> Seq<FieldText> {
    seq![FieldText { name: "Name: "@ + s.name@, value: ""@, inline: false }] + (
    match s.description {
        Some(d) => seq![FieldText { name: "Description"@, value: d@, inline: false }],
        None => Seq::empty(),
    }) + seq![
        FieldText { name: "Host"@, value: s.host@, inline: true },
        FieldText {
            name: "RCON"@,
            value: if s.rcon {
                "Enabled"@
            } else {
                "Disabled"@
            },
            inline: true,
        },
    ] + (match s.game {
        Some(g) => game_fields(g),
        None => Seq::empty(),
    })
}

/// Makes the field for a span of seconds.
fn seconds_field(name: &str, n: u64) -> (r: Field)
    ensures
        r@ == (FieldText { name: name@, value: seconds_text(n as nat), inline: true }),
{
    let mut value = String::new();
    push_decimal(&mut value, n);
    value.append(" seconds");
    Field { name: String::from_str(name), value, inline: true }
}

/// Appends the fields that show one session to `out`; see [`session_fields_text`].
pub fn push_session_fields(out: &mut Vec<Field>, s: &Session)
    ensures
        fields_of(final(out)@) == fields_of(old(out)@) + session_fields_text(*s),
{
    let ghost start = fields_of(out@);
    let mut title = String::from_str("Name: ");
    title.append(s.name.as_str());
    out.push(Field { name: title, value: String::from_str(""), inline: false });
    let ghost mut want = seq![
        FieldText { name: "Name: "@ + s.name@, value: ""@, inline: false },
    ];
    assert(fields_of(out@) =~= start + want);
    match &s.description {
        Some(d) => {
            out.push(field("Description", d.as_str(), false));
            proof {
                want = want + seq![FieldText { name: "Description"@, value: d@, inline: false }];
            }
        },
        None => {
            proof {
                want = want + Seq::<FieldText>::empty();
            }
        },
    }
    assert(fields_of(out@) =~= start + want);
    out.push(field("Host", s.host.as_str(), true));
    out.push(
        field(
            "RCON",
            if s.rcon {
                "Enabled"
            } else {
                "Disabled"
            },
            true,
        ),
    );
    proof {
        want = want + seq![
            FieldText { name: "Host"@, value: s.host@, inline: true },
            FieldText {
                name: "RCON"@,
                value: if s.rcon {
                    "Enabled"@
                } else {
                    "Disabled"@
                },
                inline: true,
            },
        ];
    }
    assert(fields_of(out@) =~= start + want);
    match &s.game {
        None => {
            assert(fields_of(out@) =~= start + (want + Seq::<FieldText>::empty()));
        },
        Some(g) => {
            let ghost mut extra: Seq<FieldText> = Seq::empty();
            match g.chat_bridge {
                Some(on) => {
                    out.push(
                        field(
                            "Chat Bridge",
                            if on {
                                "true"
                            } else {
                                "false"
                            },
                            true,
                        ),
                    );
                    proof {
                        extra = extra + seq![
                            FieldText {
                                name: "Chat Bridge"@,
                                value: if on {
                                    "true"@
                                } else {
                                    "false"@
                                },
                                inline: true,
                            },
                        ];
                    }
                },
                None => {
                    proof {
                        extra = extra + Seq::<FieldText>::empty();
                    }
                },
            }
            assert(fields_of(out@) =~= start + want + extra);
            match g.backup_interval {
                Some(n) => {
                    if n > 0 {
                        out.push(seconds_field("Backup Interval", n));
                        proof {
                            extra = extra + seq![
                                FieldText {
                                    name: "Backup Interval"@,
                                    value: seconds_text(n as nat),
                                    inline: true,
                                },
                            ];
                        }
                    } else {
                        proof {
                            extra = extra + Seq::<FieldText>::empty();
                        }
                    }
                },
                None => {
                    proof {
                        extra = extra + Seq::<FieldText>::empty();
                    }
                },
            }
            assert(fields_of(out@) =~= start + want + extra);
            match g.backup_keep {
                Some(n) => {
                    if n > 0 {
                        out.push(seconds_field("Backup Keep Time", n));
                        proof {
                            extra = extra + seq![
                                FieldText {
                                    name: "Backup Keep Time"@,
                                    value: seconds_text(n as nat),
                                    inline: true,
                                },
                            ];
                        }
                    } else {
                        proof {
                            extra = extra + Seq::<FieldText>::empty();
                        }
                    }
                },
                None => {
                    proof {
                        extra = extra + Seq::<FieldText>::empty();
                    }
                },
            }
            assert(extra == game_fields(*g));
            assert(fields_of(out@) =~= start + (want + extra));
        },
    }
}

/// The fields that show one session; see [`session_fields_text`].
pub fn session_fields(s: &Session) -> (r: Vec<Field>)
    ensures
        fields_of(r@) == session_fields_text(*s),
{
    let mut out: Vec<Field> = Vec::new();
    push_session_fields(&mut out, s);
    assert(fields_of(out@) =~= session_fields_text(*s));
    out
}

/// One machine of the server.
#[derive(Debug, Clone, PartialEq, Eq)]
pub struct Server {
    pub name: String,
    pub cpu: String,
    pub ram: String,
    pub drives: String,
    pub gpu: String,
}

/// The fields that show one machine: its name as a heading, then its parts side by side.
pub open spec fn server_fields_text(s: Server) -> Seq<FieldText> {
    seq![
        FieldText { name: s.name@, value: ""@, inline: false },
        FieldText { name: "CPU"@, value: s.cpu@, inline: true },
        FieldText { name: "RAM"@, value: s.ram@, inline: true },
        FieldText { name: "Drives"@, value: s.drives@, inline: true },
        FieldText { name: "GPU"@, value: s.gpu@, inline: true },
    ]
}

/// The fields that show one machine; see [`server_fields_text`].
pub fn server_fields(s: &Server) -> (r: Vec<Field>)
    ensures
        fields_of(r@) == server_fields_text(*s),
{
    let mut out: Vec<Field> = Vec::new();
    out.push(field(s.name.as_str(), "", false));
    out.push(field("CPU", s.cpu.as_str(), true));
    out.push(field("RAM", s.ram.as_str(), true));
    out.push(field("Drives", s.drives.as_str(), true));
    out.push(field("GPU", s.gpu.as_str(), true));
    assert(fields_of(out@) =~= server_fields_text(*s));
    out
}

/// The field for one line of the info board: what stands ahead of the first `|` is the title,
/// what follows it the content, each without the white space around it. A line without `|`
/// is all title.
pub open spec fn board_field_text(line: Seq<char>) -> FieldText {
    let bar = find(line, '|', 0);
    FieldText {
        name: trim(line.subrange(0, bar)),
        value: if bar < line.len() {
            trim(line.subrange(bar + 1, line.len() as int))
        } else {
            Seq::empty()
        },
        inline: false,
    }
}

/// The field for one line of the info board; see [`board_field_text`].
pub fn board_field(line: &str) -> (r: Field)
    ensures
        r@ == board_field_text(line@),
{
    let v = to_chars(line);
    let bar = find_char(&v, '|', 0);
    let head = to_chars(to_text(&v, 0, bar).as_str());
    let (a, b) = trim_bounds(&head);
    let name = to_text(&head, a, b);
    let value = if bar < v.len() {
        let tail = to_chars(to_text(&v, bar + 1, v.len()).as_str());
        let (c, d) = trim_bounds(&tail);
        to_text(&tail, c, d)
    } else {
        String::new()
    };
    Field { name, value, inline: false }
}

} // verus!
