//! Scores and scoreboard names as text for the game.

use crate::text::{decimal, push_decimal, to_chars};
use vstd::prelude::*;
use vstd::string::StringExecFns;

verus! {

/// The absolute value of `n`.
pub open spec fn magnitude(n: int) -> nat {
    if n < 0 {
        (-n) as nat
    } else {
        n as nat
    }
}

/// The first `k` digits of `digits`, with a space behind each digit that has a multiple of
/// three digits, and at least three, to its right.
pub open spec fn grouped_prefix(digits: Seq<char>, k: int) -> Seq<char>
    decreases k,
{
    if k <= 0 || k > digits.len() {
        Seq::empty()
    } else {
        let behind = digits.len() - k;
        grouped_prefix(digits, k - 1).push(digits[k - 1]) + if behind % 3 == 0 && behind != 0 {
            seq![' ']
        } else {
            Seq::empty()
        }
    }
}

/// `n` in decimal with its digits in groups of three, counted from the right and set apart
/// by spaces, and a minus sign ahead where `n` is negative.
pub open spec fn spaced(n: int) -> Seq<char> {
    let digits = decimal(magnitude(n));
    let body = grouped_prefix(digits, digits.len() as int);
    if n < 0 {
        seq!['-'] + body
    } else {
        body
    }
}

/// Appends `n` in decimal, with a minus sign ahead where it is negative.
pub fn push_signed(out: &mut String, n: i64)
    ensures
        final(out)@ == old(out)@ + signed_decimal(n as int),
{
    if n < 0 {
        out.push('-');
    }
    push_decimal(out, abs_of(n));
    assert(out@ =~= old(out)@ + signed_decimal(n as int));
}

/// `n` in decimal, with a minus sign ahead where it is negative.
pub open spec fn signed_decimal(n: int) -> Seq<char> {
    if n < 0 {
        seq!['-'] + decimal(magnitude(n))
    } else {
        decimal(magnitude(n))
    }
}

/// The absolute value of `n`.
pub fn abs_of(n: i64) -> (r: u64)
    ensures
        r == magnitude(n as int),
{
    if n >= 0 {
        n as u64
    } else if n == i64::MIN {
        0x8000_0000_0000_0000u64
    } else {
        (-n) as u64
    }
}

/// Writes `n` with its digits in groups of three; see [`spaced`].
pub fn format_with_spaces(n: i64) -> (r: String)
    ensures
        r@ == spaced(n as int),
{
    let digits = to_chars(crate::text::decimal_string(abs_of(n)).as_str());
    let len = digits.len();
    let mut out = String::new();
    if n < 0 {
        out.push('-');
    }
    let ghost sign = out@;
    let mut i: usize = 0;
    while i < len
        invariant
            i <= len,
            len == digits.len(),
            out@ == sign + grouped_prefix(digits@, i as int),
        decreases len - i,
    {
        out.push(digits[i]);
        let behind = len - i - 1;
        if behind % 3 == 0 && behind != 0 {
            out.push(' ');
        }
        i += 1;
        assert(out@ =~= sign + grouped_prefix(digits@, i as int));
    }
    assert(out@ =~= spaced(n as int));
    out
}

/// A scoreboard's name: as the game shows it, and as commands take it.
#[derive(Debug, Clone, PartialEq, Eq)]
pub struct ScoreboardName {
    pub display: String,
    pub real: String,
}

/// What a [`ScoreboardName`] holds.
pub struct NameText {
    pub display: Seq<char>,
    pub real: Seq<char>,
}

impl View for ScoreboardName {
    type V = NameText;

    open spec fn view(&self) -> NameText {
        NameText { display: self.display@, real: self.real@ }
    }
}

/// What each name in a vector holds.
pub open spec fn names_of(v: Seq<ScoreboardName>) -> Seq<NameText> {
    Seq::new(v.len(), |i: int| v[i]@)
}

/// Whether `a` comes before `b` in the order of strings, from index `i` on: at the first
/// place where they differ `a` has the lower character, or `a` ends there and `b` goes on.
pub open spec fn less_from(a: Seq<char>, b: Seq<char>, i: int) -> bool
    decreases a.len() - i,
{
    if i < 0 || i >= b.len() {
        false
    } else if i >= a.len() {
        true
    } else if a[i] != b[i] {
        (a[i] as u32) < (b[i] as u32)
    } else {
        less_from(a, b, i + 1)
    }
}

/// Whether `a` comes before `b` in the order of strings.
pub open spec fn less(a: Seq<char>, b: Seq<char>) -> bool {
    less_from(a, b, 0)
}

/// Whether `a` comes before `b` in the order of strings; see [`less`].
pub fn text_less(a: &str, b: &str) -> (r: bool)
    ensures
        r == less(a@, b@),
{
    let x = to_chars(a);
    let y = to_chars(b);
    let mut i: usize = 0;
    loop
        invariant
            i <= x.len(),
            i <= y.len(),
            x@ == a@,
            y@ == b@,
            less(x@, y@) == less_from(x@, y@, i as int),
        decreases x.len() - i,
    {
        if i >= y.len() {
            return false;
        }
        if i >= x.len() {
            return true;
        }
        if x[i] != y[i] {
            return (x[i] as u32) < (y[i] as u32);
        }
        i += 1;
    }
}

/// Where the name `key` goes into `sorted`: ahead of the first name at or after index `from`
/// that comes after it, and so behind every name that is equal.
pub open spec fn place_by_name(sorted: Seq<NameText>, key: Seq<char>, from: int) -> int
    decreases sorted.len() - from,
{
    if from < 0 || from >= sorted.len() {
        sorted.len() as int
    } else if less(key, sorted[from].real) {
        from
    } else {
        place_by_name(sorted, key, from + 1)
    }
}

/// The names in the order of their real names; names that are equal keep the order they had.
pub open spec fn by_real_name(names: Seq<NameText>) -> Seq<NameText>
    decreases names.len(),
{
    if names.len() == 0 {
        Seq::empty()
    } else {
        let rest = by_real_name(names.drop_last());
        rest.insert(place_by_name(rest, names.last().real, 0), names.last())
    }
}

/// Sorting by name loses and adds nothing.
pub proof fn lemma_by_real_name(names: Seq<NameText>)
    ensures
        by_real_name(names).len() == names.len(),
        by_real_name(names).to_multiset() == names.to_multiset(),
    decreases names.len(),
{
    if names.len() == 0 {
        assert(by_real_name(names) =~= names);
    } else {
        let x = names.last();
        let rest = by_real_name(names.drop_last());
        lemma_by_real_name(names.drop_last());
        lemma_place_by_name(rest, x.real, 0);
        assert(names.drop_last().push(x) =~= names);
        vstd::seq_lib::to_multiset_build(names.drop_last(), x);
        vstd::seq_lib::to_multiset_insert(rest, place_by_name(rest, x.real, 0), x);
    }
}

/// The place for a name lies within the list.
pub proof fn lemma_place_by_name(sorted: Seq<NameText>, key: Seq<char>, from: int)
    requires
        0 <= from <= sorted.len(),
    ensures
        from <= place_by_name(sorted, key, from) <= sorted.len(),
    decreases sorted.len() - from,
{
    if from < sorted.len() && !less(key, sorted[from].real) {
        lemma_place_by_name(sorted, key, from + 1);
    }
}

/// Sorts the names by their real names; see [`by_real_name`].
pub fn sort_by_real_name(names: Vec<ScoreboardName>) -> (r: Vec<ScoreboardName>)
    ensures
        names_of(r@) == by_real_name(names_of(names@)),
{
    let mut out: Vec<ScoreboardName> = Vec::new();
    let mut i: usize = 0;
    let ghost all = names_of(names@);
    assert(names_of(out@) =~= by_real_name(all.subrange(0, 0)));
    while i < names.len()
        invariant
            i <= names.len(),
            all == names_of(names@),
            names_of(out@) == by_real_name(all.subrange(0, i as int)),
        decreases names.len() - i,
    {
        proof {
            let next = all.subrange(0, i + 1);
            assert(next.drop_last() =~= all.subrange(0, i as int));
            assert(next.last() == all[i as int]);
        }
        let mut p: usize = 0;
        while p < out.len() && !text_less(names[i].real.as_str(), out[p].real.as_str())
            invariant
                p <= out.len(),
                i < names.len(),
                place_by_name(names_of(out@), names@[i as int].real@, 0) == place_by_name(
                    names_of(out@),
                    names@[i as int].real@,
                    p as int,
                ),
            decreases out.len() - p,
        {
            assert(names_of(out@)[p as int].real == out@[p as int].real@);
            p += 1;
        }
        proof {
            if p < out.len() {
                assert(names_of(out@)[p as int].real == out@[p as int].real@);
            }
        }
        let ghost before = out@;
        let item = ScoreboardName {
            display: names[i].display.clone(),
            real: names[i].real.clone(),
        };
        out.insert(p, item);
        assert(names_of(out@) =~= names_of(before).insert(p as int, all[i as int]));
        i += 1;
    }
    assert(all.subrange(0, names.len() as int) =~= all);
    out
}

/// The heading of a list of search results, as the game's `tellraw` takes it.
pub open spec fn results_heading() -> Seq<char> {
    "{\"text\":\"Search results:\\n\", \"bold\": true, \"color\":\"dark_blue\"}"@
}

/// One search result, as the game's `tellraw` takes it: the name as shown, with a line break
/// behind it unless it is the last, and the command that a click on it suggests.
pub open spec fn result_entry(name: NameText, last: bool) -> Seq<char> {
    "{\"text\":\"  "@ + name.display + if last {
        Seq::empty()
    } else {
        seq!['\n']
    }
        + "\",\"color\":\"blue\",\"clickEvent\":{\"action\":\"suggest_command\",\"value\":\"/scoreboardPublic objectives setdisplay sidebar "@
        + name.real + "\"},\"hoverEvent\":{\"action\":\"show_text\",\"value\":[{\"text\":\""@
        + name.real + "\"}]}}"@
}

/// The first `k` search results, each with a comma ahead. A result is the last where it is
/// the last of `entries` or the `max`-th.
pub open spec fn result_entries(entries: Seq<NameText>, max: int, k: int) -> Seq<char>
    decreases k,
{
    if k <= 0 || k > entries.len() {
        Seq::empty()
    } else {
        result_entries(entries, max, k - 1) + seq![','] + result_entry(
            entries[k - 1],
            k == entries.len() || k == max,
        )
    }
}

/// The search results as one `tellraw` text: the heading and at most `max` of `entries`.
pub open spec fn search_results(entries: Seq<NameText>, max: int) -> Seq<char> {
    let shown = if entries.len() <= max {
        entries.len() as int
    } else {
        max
    };
    seq!['['] + results_heading() + result_entries(entries, max, shown) + seq![']']
}

/// Writes the search results as one `tellraw` text; see [`search_results`].
pub fn build_search_results(entries: Vec<ScoreboardName>, max: usize) -> (r: String)
    ensures
        r@ == search_results(names_of(entries@), max as int),
{
    let mut out = String::new();
    out.push('[');
    out.append("{\"text\":\"Search results:\\n\", \"bold\": true, \"color\":\"dark_blue\"}");
    let shown = if entries.len() <= max {
        entries.len()
    } else {
        max
    };
    let ghost head = out@;
    let ghost all = names_of(entries@);
    let mut i: usize = 0;
    while i < shown
        invariant
            i <= shown <= entries.len(),
            all == names_of(entries@),
            out@ == head + result_entries(all, max as int, i as int),
        decreases shown - i,
    {
        let last = i + 1 == entries.len() || i + 1 == max;
        let ghost before = out@;
        out.push(',');
        out.append("{\"text\":\"  ");
        out.append(entries[i].display.as_str());
        if !last {
            out.push('\n');
        }
        out.append(
            "\",\"color\":\"blue\",\"clickEvent\":{\"action\":\"suggest_command\",\"value\":\"/scoreboardPublic objectives setdisplay sidebar ",
        );
        out.append(entries[i].real.as_str());
        out.append("\"},\"hoverEvent\":{\"action\":\"show_text\",\"value\":[{\"text\":\"");
        out.append(entries[i].real.as_str());
        out.append("\"}]}}");
        assert(out@ =~= before + seq![','] + result_entry(all[i as int], last));
        i += 1;
    }
    out.push(']');
    assert(out@ =~= search_results(all, max as int));
    out
}

/// `s` from index `i` on, with each `\_` replaced by `_`, read from the left.
pub open spec fn unescaped_from(s: Seq<char>, i: int) -> Seq<char>
    decreases s.len() - i,
{
    if i < 0 || i >= s.len() {
        Seq::empty()
    } else if i + 1 < s.len() && s[i] == '\\' && s[i + 1] == '_' {
        seq!['_'] + unescaped_from(s, i + 2)
    } else {
        seq![s[i]] + unescaped_from(s, i + 1)
    }
}

/// A scoreboard's name as typed in chat, where `_` may be written `\_`, made plain.
pub fn unescape_board(board: &str) -> (r: String)
    ensures
        r@ == unescaped_from(board@, 0),
{
    let v = to_chars(board);
    let mut out = String::new();
    let mut i: usize = 0;
    while i < v.len()
        invariant
            i <= v.len(),
            out@ + unescaped_from(v@, i as int) == unescaped_from(v@, 0),
        decreases v.len() - i,
    {
        let ghost before = out@;
        if i + 1 < v.len() && v[i] == '\\' && v[i + 1] == '_' {
            out.push('_');
            assert(out@ + unescaped_from(v@, i + 2) =~= before + unescaped_from(v@, i as int));
            i += 2;
        } else {
            out.push(v[i]);
            assert(out@ + unescaped_from(v@, i + 1) =~= before + unescaped_from(v@, i as int));
            i += 1;
        }
    }
    assert(out@ + Seq::<char>::empty() =~= out@);
    out
}

/// What was found for the scoreboard that a player asked for.
#[derive(Debug, Clone, PartialEq, Eq)]
pub enum BoardLookup {
    /// The scoreboard is there.
    Found,
    /// It is not; these are the scoreboards whose names are like the one asked for.
    Missing(Vec<ScoreboardName>),
}

/// How many search results the game is shown.
pub const SHOWN_RESULTS: usize = 5;

/// The text that says that the search found nothing.
pub open spec fn no_results() -> Seq<char> {
    "{{\"text\":\"No search results\", \"bold\": true, \"color\":\"dark_blue\"}}"@
}

/// The line that answers `score BOARD` from the game: the command that shows the scoreboard
/// on the server's sidebar where it is there; else the search results, sorted by name and
/// told to all players, or that there are none.
pub open spec fn score_reply_text(
    server: Seq<char>,
    board: Seq<char>,
    found: bool,
    near: Seq<NameText>,
) -> Seq<char> {
    if found {
        "RCON "@ + server + " scoreboard objectives setdisplay sidebar "@ + board
    } else if near.len() == 0 {
        "RCON "@ + server + " tellraw @a "@ + no_results()
    } else {
        "RCON "@ + server + " tellraw @a "@ + search_results(
            by_real_name(near),
            SHOWN_RESULTS as int,
        )
    }
}

/// Writes the line that answers `score BOARD` from the game; see [`score_reply_text`].
pub fn score_reply(server: &str, board: &str, lookup: BoardLookup) -> (r: String)
    ensures
        r@ == match lookup {
            BoardLookup::Found => score_reply_text(server@, board@, true, Seq::empty()),
            BoardLookup::Missing(near) => score_reply_text(
                server@,
                board@,
                false,
                names_of(near@),
            ),
        },
{
    let mut out = String::from_str("RCON ");
    out.append(server);
    match lookup {
        BoardLookup::Found => {
            out.append(" scoreboard objectives setdisplay sidebar ");
            out.append(board);
        },
        BoardLookup::Missing(near) => {
            out.append(" tellraw @a ");
            if near.len() == 0 {
                out.append(
                    "{{\"text\":\"No search results\", \"bold\": true, \"color\":\"dark_blue\"}}",
                );
            } else {
                let sorted = sort_by_real_name(near);
                proof {
                    lemma_by_real_name(names_of(near@));
                }
                let text = build_search_results(sorted, SHOWN_RESULTS);
                out.append(text.as_str());
            }
        },
    }
    out
}

} // verus!
