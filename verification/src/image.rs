//! A scoreboard as the text of a picture.

use crate::pages::shown;
use crate::score::{format_with_spaces, push_signed, signed_decimal, spaced};
use crate::scoreboard::contains_text;
use crate::scorefile::{scores_of, Score};
use crate::text::{decimal, push_decimal_wide, texts};
use vstd::prelude::*;
use vstd::string::StringExecFns;

verus! {

/// The height of one line of the picture, glyph and padding, in pixels.
pub const LINE_HEIGHT: u64 = 66;

/// The padding above and below all lines, in pixels.
pub const MARGIN: u64 = 12;

/// The width of the picture, in pixels.
pub const WIDTH: u64 = 900;

/// The picture's opening tag, up to its width and height.
pub open spec fn svg_open() -> Seq<char> {
    "<svg viewBox=\"0 0 "@
}

/// The picture's style sheet and background, up to the text of its title.
pub open spec fn svg_style() -> Seq<char> {
    "\" xmlns=\"http://www.w3.org/2000/svg\">\n                <defs>\n                    <style>\n                        @font-face {\n                            font-family: minecraft;\n                            src: url('data/minecraft_font.ttf');\n                        }\n                    </style>\n            </defs>\n                <style>\n                    text {\n                        font-family: Minecraft, minecraft, sans-serif;\n                    }\n                    .title {\n                        text-anchor: middle;\n                        font-size: 60px;\n                        fill: #FFFFFF;\n                    }\n                    .score {\n                        text-anchor: end;\n                        font-size: 60px;\n                        fill: #FF5555;\n                    }\n                    .ign {\n                        text-anchor: start;\n                        font-size: 60px;\n                        fill: #BFBFBF;\n                    }\n                    .total {\n                        text-anchor: start;\n                        font-size: 60px;\n                        fill: #FFFFFF;\n                    }\n                </style>\n                <rect height=\"100%\" width=\"100%\" fill='#36393F'></rect>\n                <text class=\"title\" x=\"50%\" y=\"60\">"@
}

/// The end of the title.
pub open spec fn svg_title_end() -> Seq<char> {
    "</text>"@
}

/// The line that shows the sum, spaced, at the height of the second line.
pub open spec fn total_row(total: int) -> Seq<char> {
    "<text class=\"total\" x=\"5px\" y=\""@ + decimal(2 * LINE_HEIGHT as nat) + "\">Total</text>\n         <text class=\"score\" x=\"895px\" y=\""@ + decimal(
        2 * LINE_HEIGHT as nat,
    ) + "\">"@ + spaced(total) + "</text>"@
}

/// The line that shows the player at rank `rank`, counted from one, and the player's score.
pub open spec fn player_row(score: Score, rank: int) -> Seq<char> {
    let y = decimal(((rank + 2) * LINE_HEIGHT) as nat);
    "<text class=\"ign\" x=\"5px\" y=\""@ + y + "\">"@ + score.player + "</text>\n             <text class=\"score\" x=\"895px\" y=\""@ + y + "\">"@ + signed_decimal(score.points)
        + "</text>"@
}

/// The lines of the first `k` players.
pub open spec fn player_rows(scores: Seq<Score>, k: int) -> Seq<char>
    decreases k,
{
    if k <= 0 || k > scores.len() {
        Seq::empty()
    } else {
        player_rows(scores, k - 1) + player_row(scores[k - 1], k)
    }
}

/// The scoreboard `board` as the text of a picture: title, sum, and one line for each of
/// `scores`, with room for them all.
pub open spec fn score_svg_text(board: Seq<char>, scores: Seq<Score>, total: int) -> Seq<char> {
    svg_open() + seq![' '] + decimal(WIDTH as nat) + seq![' '] + decimal(
        ((scores.len() + 2) * LINE_HEIGHT + MARGIN) as nat,
    ) + seq![' '] + svg_style() + seq![' '] + board + seq![' '] + svg_title_end() + seq![' ']
        + total_row(total) + player_rows(scores, scores.len() as int) + "</svg>"@
}

/// The lines of the first players do not depend on the players behind them.
proof fn lemma_rows_of_prefix(scores: Seq<Score>, x: Score, k: int)
    requires
        0 <= k <= scores.len(),
    ensures
        player_rows(scores.push(x), k) == player_rows(scores, k),
    decreases k,
{
    if k > 0 {
        lemma_rows_of_prefix(scores, x, k - 1);
        assert(scores.push(x)[k - 1] == scores[k - 1]);
    }
}

/// Appends the line of one player; see [`player_row`].
fn push_player_row(out: &mut String, player: &str, points: i32, rank: usize)
    ensures
        final(out)@ == old(out)@ + player_row(
            Score { player: player@, points: points as int },
            rank as int,
        ),
{
    let line = LINE_HEIGHT as u128;
    assert((rank + 2) * line == (rank + 2) * 66) by (nonlinear_arith)
        requires
            line == 66,
    ;
    let y: u128 = (rank as u128 + 2) * line;
    out.append("<text class=\"ign\" x=\"5px\" y=\"");
    push_decimal_wide(out, y);
    out.append("\">");
    out.append(player);
    out.append("</text>\n             <text class=\"score\" x=\"895px\" y=\"");
    push_decimal_wide(out, y);
    out.append("\">");
    push_signed(out, points as i64);
    out.append("</text>");
    assert(out@ =~= old(out)@ + player_row(
        Score { player: player@, points: points as int },
        rank as int,
    ));
}

/// Writes the scoreboard as the text of a picture; see [`score_svg_text`]. The players shown
/// are all of them, or those on the whitelist; see [`shown`].
pub fn score_svg(
    board: &str,
    scores: &Vec<(String, i32)>,
    total: i64,
    whitelist: &Vec<String>,
    everyone: bool,
) -> (r: String)
    ensures
        r@ == score_svg_text(
            board@,
            shown(scores_of(scores@), texts(whitelist@), everyone),
            total as int,
        ),
{
    let mut rows = String::from_str("<text class=\"total\" x=\"5px\" y=\"");
    push_decimal_wide(&mut rows, 2 * (LINE_HEIGHT as u128));
    rows.append("\">Total</text>\n         <text class=\"score\" x=\"895px\" y=\"");
    push_decimal_wide(&mut rows, 2 * (LINE_HEIGHT as u128));
    rows.append("\">");
    rows.append(format_with_spaces(total).as_str());
    rows.append("</text>");
    let mut count: usize = 0;
    let mut i: usize = 0;
    let ghost all = scores_of(scores@);
    let ghost listed = texts(whitelist@);
    let ghost vis: Seq<Score> = Seq::empty();
    assert(vis =~= shown(all.subrange(0, 0), listed, everyone));
    while i < scores.len()
        invariant
            i <= scores.len(),
            all == scores_of(scores@),
            listed == texts(whitelist@),
            vis == shown(all.subrange(0, i as int), listed, everyone),
            count == vis.len(),
            count <= i,
            rows@ == total_row(total as int) + player_rows(vis, count as int),
        decreases scores.len() - i,
    {
        proof {
            let next = all.subrange(0, i + 1);
            assert(next.drop_last() =~= all.subrange(0, i as int));
            assert(next.last() == all[i as int]);
        }
        if everyone || contains_text(whitelist, scores[i].0.as_str()) {
            proof {
                lemma_rows_of_prefix(vis, all[i as int], count as int);
                vis = vis.push(all[i as int]);
            }
            count += 1;
            let ghost before = rows@;
            push_player_row(&mut rows, scores[i].0.as_str(), scores[i].1, count);
            assert(rows@ =~= before + player_row(vis[count - 1], count as int));
        }
        i += 1;
    }
    assert(all.subrange(0, scores.len() as int) =~= all);
    let line = LINE_HEIGHT as u128;
    assert((count + 2) * line == (count + 2) * 66) by (nonlinear_arith)
        requires
            line == 66,
    ;
    let height: u128 = (count as u128 + 2) * line + MARGIN as u128;
    let mut out = String::from_str("<svg viewBox=\"0 0 ");
    out.push(' ');
    push_decimal_wide(&mut out, WIDTH as u128);
    out.push(' ');
    push_decimal_wide(&mut out, height);
    out.push(' ');
    out.append("\" xmlns=\"http://www.w3.org/2000/svg\">\n                <defs>\n                    <style>\n                        @font-face {\n                            font-family: minecraft;\n                            src: url('data/minecraft_font.ttf');\n                        }\n                    </style>\n            </defs>\n                <style>\n                    text {\n                        font-family: Minecraft, minecraft, sans-serif;\n                    }\n                    .title {\n                        text-anchor: middle;\n                        font-size: 60px;\n                        fill: #FFFFFF;\n                    }\n                    .score {\n                        text-anchor: end;\n                        font-size: 60px;\n                        fill: #FF5555;\n                    }\n                    .ign {\n                        text-anchor: start;\n                        font-size: 60px;\n                        fill: #BFBFBF;\n                    }\n                    .total {\n                        text-anchor: start;\n                        font-size: 60px;\n                        fill: #FFFFFF;\n                    }\n                </style>\n                <rect height=\"100%\" width=\"100%\" fill='#36393F'></rect>\n                <text class=\"title\" x=\"50%\" y=\"60\">");
    out.push(' ');
    out.append(board);
    out.push(' ');
    out.append("</text>");
    out.push(' ');
    out.append(rows.as_str());
    out.append("</svg>");
    assert(out@ =~= score_svg_text(board@, vis, total as int));
    out
}

} // verus!
