//! A scoreboard page by page, and the buttons that turn the pages.

use crate::score::{format_with_spaces, spaced};
use crate::scoreboard::contains_text;
use crate::scorefile::{scores_of, Score};
use crate::text::{decimal, has_prefix_at, push_decimal, range_eq, texts, to_chars};
use vstd::prelude::*;
use vstd::string::StringExecFns;

verus! {

/// How many players one page shows.
pub const PAGE_SIZE: usize = 10;

/// What a press on a button under the pages asks for.
#[derive(Debug, Clone, Copy, PartialEq, Eq, Structural)]
pub enum Press {
    Next,
    Previous,
    /// A button of this message that turns no page.
    Other,
}

/// The page shown after a press: the next one, the first after the last; the one before, the
/// last before the first; the same for any other button.
pub open spec fn page_after(current: int, pages: int, press: Press) -> int {
    match press {
        Press::Next => if current + 1 >= pages {
            0
        } else {
            current + 1
        },
        Press::Previous => if current == 0 {
            pages - 1
        } else {
            current - 1
        },
        Press::Other => current,
    }
}

/// Turns the page; see [`page_after`].
pub fn turn_page(current: usize, pages: usize, press: Press) -> (r: usize)
    requires
        current < pages,
    ensures
        r == page_after(current as int, pages as int, press),
        r < pages,
{
    match press {
        Press::Next => if current + 1 >= pages {
            0
        } else {
            current + 1
        },
        Press::Previous => if current == 0 {
            pages - 1
        } else {
            current - 1
        },
        Press::Other => current,
    }
}

/// What the button named `id` asks for under the message `message`: a button belongs to the
/// message where its name starts with the message's number, and turns a page where `next` or
/// `prev` is all that follows.
pub open spec fn press_of(id: Seq<char>, message: nat) -> Option<Press> {
    let own = decimal(message);
    if !own.is_prefix_of(id) {
        None
    } else if id == own + "next"@ {
        Some(Press::Next)
    } else if id == own + "prev"@ {
        Some(Press::Previous)
    } else {
        Some(Press::Other)
    }
}

/// Reads a button's name; see [`press_of`].
pub fn read_press(id: &str, message: u64) -> (r: Option<Press>)
    ensures
        r == press_of(id@, message as nat),
{
    let v = to_chars(id);
    let mut own = String::new();
    push_decimal(&mut own, message);
    let mut next = own.clone();
    next.append("next");
    let mut prev = own.clone();
    prev.append("prev");
    assert(v@.subrange(0, v.len() as int) =~= v@);
    assert(own@ =~= decimal(message as nat));
    if !has_prefix_at(&v, 0, &to_chars(own.as_str())) {
        None
    } else if range_eq(&v, 0, v.len(), &to_chars(next.as_str())) {
        Some(Press::Next)
    } else if range_eq(&v, 0, v.len(), &to_chars(prev.as_str())) {
        Some(Press::Previous)
    } else {
        Some(Press::Other)
    }
}

/// The name of the button that turns to the next page under the message `message`, or to the
/// one before.
pub fn button_id(message: u64, forward: bool) -> (r: String)
    ensures
        r@ == decimal(message as nat) + if forward {
            "next"@
        } else {
            "prev"@
        },
{
    let mut id = String::new();
    push_decimal(&mut id, message);
    if forward {
        id.append("next");
    } else {
        id.append("prev");
    }
    id
}

/// The button that a message makes for a direction is read back as that direction.
pub proof fn lemma_press_of_button(message: nat)
    ensures
        press_of(decimal(message) + "next"@, message) == Some(Press::Next),
        press_of(decimal(message) + "prev"@, message) == Some(Press::Previous),
{
    let own = decimal(message);
    reveal_strlit("next");
    reveal_strlit("prev");
    assert((own + "next"@).subrange(0, own.len() as int) =~= own);
    assert((own + "prev"@).subrange(0, own.len() as int) =~= own);
    assert((own + "next"@)[own.len() as int] == 'n');
    assert((own + "prev"@)[own.len() as int] == 'p');
}

/// One page of a scoreboard: a column of players and a column of scores, line by line.
#[derive(Debug, Clone, PartialEq, Eq)]
pub struct Page {
    pub players: String,
    pub scores: String,
}

/// What a [`Page`] holds.
pub struct PageText {
    pub players: Seq<char>,
    pub scores: Seq<char>,
}

impl View for Page {
    type V = PageText;

    open spec fn view(&self) -> PageText {
        PageText { players: self.players@, scores: self.scores@ }
    }
}

/// What each page in a vector holds.
pub open spec fn pages_of(v: Seq<Page>) -> Seq<PageText> {
    Seq::new(v.len(), |i: int| v[i]@)
}

/// The scores that are shown: all of them, or those of the players on the whitelist.
pub open spec fn shown(scores: Seq<Score>, listed: Seq<Seq<char>>, everyone: bool) -> Seq<Score>
    decreases scores.len(),
{
    if scores.len() == 0 {
        Seq::empty()
    } else {
        shown(scores.drop_last(), listed, everyone) + if everyone || listed.contains(
            scores.last().player,
        ) {
            seq![scores.last()]
        } else {
            Seq::empty()
        }
    }
}

/// The lines of the players' column for the ranks `from + 1` to `to`: rank and name.
pub open spec fn player_lines(scores: Seq<Score>, from: int, to: int) -> Seq<char>
    decreases to - from,
{
    if to <= from || to > scores.len() {
        Seq::empty()
    } else {
        player_lines(scores, from, to - 1) + decimal(to as nat) + seq![' '] + scores[to
            - 1].player + seq!['\n']
    }
}

/// The lines of the scores' column for the ranks `from + 1` to `to`.
pub open spec fn score_lines(scores: Seq<Score>, from: int, to: int) -> Seq<char>
    decreases to - from,
{
    if to <= from || to > scores.len() {
        Seq::empty()
    } else {
        score_lines(scores, from, to - 1) + spaced(scores[to - 1].points) + seq!['\n']
    }
}

/// The first line of the players' column.
pub open spec fn players_head() -> Seq<char> {
    "```0 Total\n"@
}

/// The first line of the scores' column: the sum, spaced, and in millions as `millions`
/// writes it.
pub open spec fn scores_head(total: int, millions: Seq<char>) -> Seq<char> {
    "```"@ + spaced(total) + " ("@ + millions + "M)\n"@
}

/// The page for the ranks `from + 1` to `to`.
pub open spec fn page_text(
    scores: Seq<Score>,
    total: int,
    millions: Seq<char>,
    from: int,
    to: int,
) -> PageText {
    PageText {
        players: players_head() + player_lines(scores, from, to) + "```"@,
        scores: scores_head(total, millions) + score_lines(scores, from, to) + "```"@,
    }
}

/// The pages of a scoreboard: one for each full ten of the scores shown. Scores beyond the
/// last full ten are on no page.
pub open spec fn score_pages_text(scores: Seq<Score>, total: int, millions: Seq<char>) -> Seq<
    PageText,
> {
    Seq::new(scores.len() / (PAGE_SIZE as nat), |p: int| nth_page(scores, total, millions, p))
}

/// The page with index `p`: it holds the ranks `10 p + 1` to `10 p + 10`.
pub open spec fn nth_page(scores: Seq<Score>, total: int, millions: Seq<char>, p: int) -> PageText {
    page_text(scores, total, millions, p * PAGE_SIZE, p * PAGE_SIZE + PAGE_SIZE)
}

/// The lines of some ranks do not depend on the players behind them.
proof fn lemma_lines_of_prefix(scores: Seq<Score>, x: Score, from: int, to: int)
    requires
        0 <= from,
        to <= scores.len(),
    ensures
        player_lines(scores.push(x), from, to) == player_lines(scores, from, to),
        score_lines(scores.push(x), from, to) == score_lines(scores, from, to),
    decreases to - from,
{
    if to > from {
        lemma_lines_of_prefix(scores, x, from, to - 1);
        assert(scores.push(x)[to - 1] == scores[to - 1]);
    }
}

/// Writes the pages of a scoreboard; see [`score_pages_text`] and [`shown`]. `millions` is
/// the sum in millions, as the caller writes it.
pub fn score_pages(
    scores: &Vec<(String, i32)>,
    total: i64,
    millions: &str,
    whitelist: &Vec<String>,
    everyone: bool,
) -> (r: Vec<Page>)
    ensures
        pages_of(r@) == score_pages_text(
            shown(scores_of(scores@), texts(whitelist@), everyone),
            total as int,
            millions@,
        ),
{
    let mut base_scores = String::from_str("```");
    base_scores.append(format_with_spaces(total).as_str());
    base_scores.append(" (");
    base_scores.append(millions);
    base_scores.append("M)\n");
    let mut players = String::from_str("```0 Total\n");
    let mut points = base_scores.clone();
    let mut pages: Vec<Page> = Vec::new();
    let mut count: usize = 0;
    let mut i: usize = 0;
    let ghost all = scores_of(scores@);
    let ghost listed = texts(whitelist@);
    let ghost vis: Seq<Score> = Seq::empty();
    assert(vis =~= shown(all.subrange(0, 0), listed, everyone));
    assert(pages_of(pages@) =~= score_pages_text(vis, total as int, millions@));
    while i < scores.len()
        invariant
            i <= scores.len(),
            all == scores_of(scores@),
            listed == texts(whitelist@),
            base_scores@ == scores_head(total as int, millions@),
            vis == shown(all.subrange(0, i as int), listed, everyone),
            count == vis.len(),
            count <= i,
            pages_of(pages@) == score_pages_text(vis, total as int, millions@),
            players@ == players_head() + player_lines(
                vis,
                (count / PAGE_SIZE) * PAGE_SIZE,
                count as int,
            ),
            points@ == base_scores@ + score_lines(
                vis,
                (count / PAGE_SIZE) * PAGE_SIZE,
                count as int,
            ),
        decreases scores.len() - i,
    {
        proof {
            let next = all.subrange(0, i + 1);
            assert(next.drop_last() =~= all.subrange(0, i as int));
            assert(next.last() == all[i as int]);
        }
        if everyone || contains_text(whitelist, scores[i].0.as_str()) {
            let ghost x = all[i as int];
            let ghost old_vis = vis;
            let ghost start = (count / PAGE_SIZE) * PAGE_SIZE;
            proof {
                vis = vis.push(x);
                lemma_lines_of_prefix(old_vis, x, start as int, count as int);
                assert forall|p: int| 0 <= p < count / PAGE_SIZE implies #[trigger] nth_page(
                    vis,
                    total as int,
                    millions@,
                    p,
                ) == nth_page(old_vis, total as int, millions@, p) by {
                    lemma_lines_of_prefix(old_vis, x, p * PAGE_SIZE, p * PAGE_SIZE + PAGE_SIZE);
                }
            }
            count += 1;
            push_decimal(&mut players, count as u64);
            players.push(' ');
            players.append(scores[i].0.as_str());
            players.push('\n');
            points.append(format_with_spaces(scores[i].1 as i64).as_str());
            points.push('\n');
            assert(players@ =~= players_head() + player_lines(vis, start as int, count as int));
            assert(points@ =~= base_scores@ + score_lines(vis, start as int, count as int));
            if count % PAGE_SIZE == 0 {
                players.append("```");
                points.append("```");
                let ghost before = pages@;
                let page = Page { players, scores: points };
                pages.push(page);
                players = String::from_str("```0 Total\n");
                points = base_scores.clone();
                proof {
                    let q = before.len() as int;
                    assert(pages_of(before).len() == score_pages_text(
                        old_vis,
                        total as int,
                        millions@,
                    ).len());
                    assert(old_vis.len() == count - 1);
                    assert(q == (count - 1) / (PAGE_SIZE as int));
                    assert(start == q * PAGE_SIZE);
                    assert(count == q * PAGE_SIZE + PAGE_SIZE);
                    assert(vis.len() / (PAGE_SIZE as nat) == q + 1);
                    assert(page@ == nth_page(vis, total as int, millions@, q));
                    assert forall|p: int| 0 <= p < q + 1 implies #[trigger] pages_of(pages@)[p]
                        == nth_page(vis, total as int, millions@, p) by {
                        if p < q {
                            assert(pages_of(pages@)[p] == pages_of(before)[p]);
                            assert(pages_of(before)[p] == nth_page(
                                old_vis,
                                total as int,
                                millions@,
                                p,
                            ));
                        }
                    }
                    assert(pages_of(pages@) =~= score_pages_text(vis, total as int, millions@));
                }
            } else {
                assert(pages_of(pages@) =~= score_pages_text(vis, total as int, millions@));
            }
        }
        i += 1;
    }
    assert(all.subrange(0, scores.len() as int) =~= all);
    pages
}

} // verus!
