//! What a scoreboard file holds: the names of the objectives, and the scores of each.

use crate::nbt::Nbt;
use crate::text::{same_text, texts};
use vstd::prelude::*;
use vstd::string::StringExecFns;

verus! {

/// One player's score.
pub struct Score {
    pub player: Seq<char>,
    pub points: int,
}

/// The scores that a vector of pairs holds.
pub open spec fn scores_of(v: Seq<(String, i32)>) -> Seq<Score> {
    Seq::new(v.len(), |i: int| Score { player: v[i].0@, points: v[i].1 as int })
}

/// The text of the field `key` of `item`, where `item` is a compound that holds one.
pub open spec fn text_field(item: Nbt, key: Seq<char>) -> Option<Seq<char>> {
    match item.field(key) {
        Some(Nbt::Text(s)) => Some(s@),
        _ => None,
    }
}

/// The number in the field `key` of `item`, where `item` is a compound that holds one.
pub open spec fn int_field(item: Nbt, key: Seq<char>) -> Option<int> {
    match item.field(key) {
        Some(Nbt::Int(n)) => Some(n as int),
        _ => None,
    }
}

/// The score that `item` records for `objective`: `item` has to name that objective, and a
/// player other than `Total`, and hold a whole number as the score.
pub open spec fn score_of(item: Nbt, objective: Seq<char>) -> Option<Score> {
    let player = text_field(item, "Name"@);
    let points = int_field(item, "Score"@);
    if text_field(item, "Objective"@) == Some(objective) && player is Some && player->0
        != "Total"@ && points is Some {
        Some(Score { player: player->0, points: points->0 })
    } else {
        None
    }
}

/// The scores that `items` record for `objective`, in the order of `items`.
pub open spec fn scores_in(items: Seq<Nbt>, objective: Seq<char>) -> Seq<Score>
    decreases items.len(),
{
    if items.len() == 0 {
        Seq::empty()
    } else {
        scores_in(items.drop_last(), objective) + match score_of(items.last(), objective) {
            Some(s) => seq![s],
            None => Seq::empty(),
        }
    }
}

/// The sum of the points.
pub open spec fn sum_of(scores: Seq<Score>) -> int
    decreases scores.len(),
{
    if scores.len() == 0 {
        0
    } else {
        sum_of(scores.drop_last()) + scores.last().points
    }
}

/// Where a score of `points` goes into `sorted`: ahead of the first score that is lower, at or
/// after index `from`, and so behind every score that is as high.
pub open spec fn place_for(sorted: Seq<Score>, points: int, from: int) -> int
    decreases sorted.len() - from,
{
    if from < 0 || from >= sorted.len() {
        sorted.len() as int
    } else if sorted[from].points < points {
        from
    } else {
        place_for(sorted, points, from + 1)
    }
}

/// The scores from the highest down; scores that are equal keep the order they had.
pub open spec fn ranked(scores: Seq<Score>) -> Seq<Score>
    decreases scores.len(),
{
    if scores.len() == 0 {
        Seq::empty()
    } else {
        let rest = ranked(scores.drop_last());
        rest.insert(place_for(rest, scores.last().points, 0), scores.last())
    }
}

/// Whether no score is followed by a higher one.
pub open spec fn descending(scores: Seq<Score>) -> bool {
    forall|i: int, j: int| 0 <= i < j < scores.len() ==> scores[i].points >= scores[j].points
}

/// The place for a score lies behind all scores that are as high and ahead of the first that
/// is lower.
pub proof fn lemma_place_for(sorted: Seq<Score>, points: int, from: int)
    requires
        0 <= from <= sorted.len(),
    ensures
        from <= place_for(sorted, points, from) <= sorted.len(),
        place_for(sorted, points, from) < sorted.len() ==> sorted[place_for(
            sorted,
            points,
            from,
        )].points < points,
        forall|i: int|
            from <= i < place_for(sorted, points, from) ==> (#[trigger] sorted[i]).points >= points,
    decreases sorted.len() - from,
{
    if from < sorted.len() && sorted[from].points >= points {
        lemma_place_for(sorted, points, from + 1);
    }
}

/// Ranking loses and adds nothing, and leaves no score ahead of a higher one.
pub proof fn lemma_ranked(scores: Seq<Score>)
    ensures
        ranked(scores).len() == scores.len(),
        ranked(scores).to_multiset() == scores.to_multiset(),
        descending(ranked(scores)),
        sum_of(ranked(scores)) == sum_of(scores),
    decreases scores.len(),
{
    if scores.len() == 0 {
        assert(ranked(scores) =~= scores);
    } else {
        let x = scores.last();
        let rest = ranked(scores.drop_last());
        lemma_ranked(scores.drop_last());
        lemma_place_for(rest, x.points, 0);
        let p = place_for(rest, x.points, 0);
        let out = rest.insert(p, x);
        assert(scores.drop_last().push(x) =~= scores);
        vstd::seq_lib::to_multiset_build(scores.drop_last(), x);
        vstd::seq_lib::to_multiset_insert(rest, p, x);
        assert forall|i: int, j: int| 0 <= i < j < out.len() implies out[i].points
            >= out[j].points by {
            if j == p {
                assert(out[i] == rest[i]);
            } else if i == p {
                assert(out[j] == rest[j - 1]);
                assert(rest[p].points >= rest[j - 1].points || j - 1 == p);
            } else {
                let a = if i < p { i } else { i - 1 };
                let b = if j < p { j } else { j - 1 };
                assert(out[i] == rest[a] && out[j] == rest[b]);
            }
        }
        lemma_sum_insert(rest, p, x);
    }
}

/// A score put into a list adds its points to the sum, wherever it goes.
pub proof fn lemma_sum_insert(scores: Seq<Score>, at: int, x: Score)
    requires
        0 <= at <= scores.len(),
    ensures
        sum_of(scores.insert(at, x)) == sum_of(scores) + x.points,
    decreases scores.len(),
{
    let out = scores.insert(at, x);
    if at == scores.len() {
        assert(out.drop_last() =~= scores);
    } else {
        assert(out.drop_last() =~= scores.drop_last().insert(at, x));
        lemma_sum_insert(scores.drop_last(), at, x);
    }
}

/// Why a scoreboard file gave nothing.
#[derive(Debug, Clone, Copy, PartialEq, Eq, Structural)]
pub enum ScoreboardError {
    /// The file has no compound `data`.
    NoData,
    /// `data` has no list `Objectives`.
    NoObjectives,
    /// `data` has no list `PlayerScores`.
    NoPlayerScores,
    /// No score is recorded for the objective asked for.
    NoScores,
    /// The sum of the scores is more than 64 bits hold.
    TotalOutOfRange,
    /// The scoreboard asked for is not loaded.
    NotFound,
}

/// What an error says, of the scoreboard `name` where it speaks of one.
pub open spec fn error_text(e: ScoreboardError, name: Seq<char>) -> Seq<char> {
    match e {
        ScoreboardError::NoData => "No data found in scoreboard"@,
        ScoreboardError::NoObjectives => "No objectives found in scoreboard"@,
        ScoreboardError::NoPlayerScores => "No player scores found in scoreboard"@,
        ScoreboardError::NoScores => "No scores found for objective '"@ + name + "'"@,
        ScoreboardError::TotalOutOfRange => "Scores out of range for objective '"@ + name + "'"@,
        ScoreboardError::NotFound => "Scoreboard '"@ + name + "' not found"@,
    }
}

impl ScoreboardError {
    /// The error in words; see [`error_text`].
    pub fn message(&self, name: &str) -> (r: String)
        ensures
            r@ == error_text(*self, name@),
    {
        match self {
            ScoreboardError::NoData => String::from_str("No data found in scoreboard"),
            ScoreboardError::NoObjectives => String::from_str("No objectives found in scoreboard"),
            ScoreboardError::NoPlayerScores => String::from_str(
                "No player scores found in scoreboard",
            ),
            ScoreboardError::NoScores => {
                let mut out = String::from_str("No scores found for objective '");
                out.append(name);
                out.append("'");
                out
            },
            ScoreboardError::TotalOutOfRange => {
                let mut out = String::from_str("Scores out of range for objective '");
                out.append(name);
                out.append("'");
                out
            },
            ScoreboardError::NotFound => {
                let mut out = String::from_str("Scoreboard '");
                out.append(name);
                out.append("' not found");
                out
            },
        }
    }
}

/// The score that `item` records for `objective`; see [`score_of`].
pub fn record_score(item: &Nbt, objective: &str) -> (r: Option<(String, i32)>)
    ensures
        match r {
            Some(pair) => score_of(*item, objective@) == Some(
                Score { player: pair.0@, points: pair.1 as int },
            ),
            None => score_of(*item, objective@) is None,
        },
{
    let named = match item.get("Objective") {
        Some(Nbt::Text(s)) => same_text(s.as_str(), objective),
        _ => false,
    };
    if !named {
        return None;
    }
    match item.get("Name") {
        Some(Nbt::Text(player)) => {
            if same_text(player.as_str(), "Total") {
                return None;
            }
            match item.get("Score") {
                Some(Nbt::Int(points)) => Some((player.clone(), *points)),
                _ => None,
            }
        },
        _ => None,
    }
}

/// The scores that `items` record for `objective`, in the order of `items`.
pub fn collect_scores(items: &Vec<Nbt>, objective: &str) -> (r: Vec<(String, i32)>)
    ensures
        scores_of(r@) == scores_in(items@, objective@),
{
    let mut out: Vec<(String, i32)> = Vec::new();
    let mut i: usize = 0;
    assert(scores_of(out@) =~= scores_in(items@.subrange(0, 0), objective@));
    while i < items.len()
        invariant
            i <= items.len(),
            scores_of(out@) == scores_in(items@.subrange(0, i as int), objective@),
        decreases items.len() - i,
    {
        proof {
            let next = items@.subrange(0, i + 1);
            assert(next.drop_last() =~= items@.subrange(0, i as int));
            assert(next.last() == items@[i as int]);
        }
        let ghost before = out@;
        match record_score(&items[i], objective) {
            Some(pair) => {
                out.push(pair);
                assert(scores_of(out@) =~= scores_of(before) + seq![
                    Score { player: pair.0@, points: pair.1 as int },
                ]);
            },
            None => {
                assert(scores_of(out@) =~= scores_of(before) + Seq::<Score>::empty());
            },
        }
        i += 1;
    }
    assert(items@.subrange(0, items.len() as int) =~= items@);
    out
}

/// The scores from the highest down; see [`ranked`].
pub fn rank(scores: Vec<(String, i32)>) -> (r: Vec<(String, i32)>)
    ensures
        scores_of(r@) == ranked(scores_of(scores@)),
{
    let mut out: Vec<(String, i32)> = Vec::new();
    let mut i: usize = 0;
    let ghost all = scores_of(scores@);
    assert(scores_of(out@) =~= ranked(all.subrange(0, 0)));
    while i < scores.len()
        invariant
            i <= scores.len(),
            all == scores_of(scores@),
            scores_of(out@) == ranked(all.subrange(0, i as int)),
        decreases scores.len() - i,
    {
        proof {
            let next = all.subrange(0, i + 1);
            assert(next.drop_last() =~= all.subrange(0, i as int));
            assert(next.last() == all[i as int]);
        }
        let points = scores[i].1;
        let mut p: usize = 0;
        while p < out.len() && out[p].1 >= points
            invariant
                p <= out.len(),
                place_for(scores_of(out@), points as int, 0) == place_for(
                    scores_of(out@),
                    points as int,
                    p as int,
                ),
            decreases out.len() - p,
        {
            assert(scores_of(out@)[p as int].points == out@[p as int].1);
            p += 1;
        }
        proof {
            if p < out.len() {
                assert(scores_of(out@)[p as int].points == out@[p as int].1);
            }
        }
        let ghost before = out@;
        let pair = (scores[i].0.clone(), points);
        out.insert(p, pair);
        assert(scores_of(out@) =~= scores_of(before).insert(p as int, all[i as int]));
        i += 1;
    }
    assert(all.subrange(0, scores.len() as int) =~= all);
    out
}

/// The sum of the points, where 64 bits hold it.
pub fn total_of(scores: &Vec<(String, i32)>) -> (r: Option<i64>)
    ensures
        match r {
            Some(t) => t == sum_of(scores_of(scores@)),
            None => !(i64::MIN <= sum_of(scores_of(scores@)) <= i64::MAX),
        },
{
    let mut sum: i128 = 0;
    let mut i: usize = 0;
    let ghost all = scores_of(scores@);
    assert(all.subrange(0, 0) =~= Seq::<Score>::empty());
    while i < scores.len()
        invariant
            i <= scores.len(),
            all == scores_of(scores@),
            sum == sum_of(all.subrange(0, i as int)),
            -(i as int) * 0x8000_0000 <= sum <= (i as int) * 0x8000_0000,
        decreases scores.len() - i,
    {
        proof {
            let next = all.subrange(0, i + 1);
            assert(next.drop_last() =~= all.subrange(0, i as int));
            assert(next.last().points == scores@[i as int].1);
            assert((i as int) * 0x8000_0000 <= 0x1_0000_0000_0000_0000 * 0x8000_0000)
                by (nonlinear_arith)
                requires
                    i <= 0x1_0000_0000_0000_0000,
            ;
            assert((i + 1) * 0x8000_0000 == (i as int) * 0x8000_0000 + 0x8000_0000)
                by (nonlinear_arith);
        }
        sum = sum + scores[i].1 as i128;
        i += 1;
    }
    assert(all.subrange(0, scores.len() as int) =~= all);
    if sum < i64::MIN as i128 || sum > i64::MAX as i128 {
        None
    } else {
        Some(sum as i64)
    }
}

/// The names of the objectives in a scoreboard file: the text `Name` of each compound in
/// the list `Objectives`, in order; items without one are passed over.
pub open spec fn names_in(items: Seq<Nbt>) -> Seq<Seq<char>>
    decreases items.len(),
{
    if items.len() == 0 {
        Seq::empty()
    } else {
        names_in(items.drop_last()) + match text_field(items.last(), "Name"@) {
            Some(name) => seq![name],
            None => Seq::empty(),
        }
    }
}

/// The list `key` in the compound `data` of a scoreboard file, or why there is none.
pub open spec fn data_list(root: Nbt, key: Seq<char>, missing: ScoreboardError) -> Result<
    Seq<Nbt>,
    ScoreboardError,
> {
    match root.field("data"@) {
        Some(Nbt::Compound(entries)) => match Nbt::Compound(entries).field(key) {
            Some(Nbt::List(items)) => Ok(items@),
            _ => Err(missing),
        },
        _ => Err(ScoreboardError::NoData),
    }
}

/// The names of the objectives in the scoreboard file `root`, or why there are none.
pub open spec fn objective_names_of(root: Nbt) -> Result<Seq<Seq<char>>, ScoreboardError> {
    match data_list(root, "Objectives"@, ScoreboardError::NoObjectives) {
        Ok(items) => Ok(names_in(items)),
        Err(e) => Err(e),
    }
}

/// The scores and their sum that the scoreboard file `root` holds for `objective`, highest
/// first, or why there are none.
pub open spec fn tally_of(root: Nbt, objective: Seq<char>) -> Result<
    (Seq<Score>, int),
    ScoreboardError,
> {
    match data_list(root, "PlayerScores"@, ScoreboardError::NoPlayerScores) {
        Err(e) => Err(e),
        Ok(items) => {
            let scores = scores_in(items, objective);
            if scores.len() == 0 {
                Err(ScoreboardError::NoScores)
            } else if !(i64::MIN <= sum_of(scores) <= i64::MAX) {
                Err(ScoreboardError::TotalOutOfRange)
            } else {
                Ok((ranked(scores), sum_of(scores)))
            }
        },
    }
}

/// The list `key` in the compound `data` of a scoreboard file.
fn find_list<'a>(root: &'a Nbt, key: &str, missing: ScoreboardError) -> (r: Result<
    &'a Vec<Nbt>,
    ScoreboardError,
>)
    ensures
        match r {
            Ok(items) => data_list(*root, key@, missing) == Ok::<Seq<Nbt>, ScoreboardError>(
                items@,
            ),
            Err(e) => data_list(*root, key@, missing) == Err::<Seq<Nbt>, ScoreboardError>(e),
        },
{
    match root.get("data") {
        Some(Nbt::Compound(entries)) => {
            let data = root.get("data").unwrap();
            match data.get(key) {
                Some(Nbt::List(items)) => Ok(items),
                _ => Err(missing),
            }
        },
        _ => Err(ScoreboardError::NoData),
    }
}

/// The names of the objectives in the scoreboard file `root`; see [`objective_names_of`].
pub fn objective_names(root: &Nbt) -> (r: Result<Vec<String>, ScoreboardError>)
    ensures
        match r {
            Ok(names) => objective_names_of(*root) == Ok::<Seq<Seq<char>>, ScoreboardError>(
                texts(names@),
            ),
            Err(e) => objective_names_of(*root) == Err::<Seq<Seq<char>>, ScoreboardError>(e),
        },
{
    let items = match find_list(root, "Objectives", ScoreboardError::NoObjectives) {
        Ok(items) => items,
        Err(e) => {
            return Err(e);
        },
    };
    let mut names: Vec<String> = Vec::new();
    let mut i: usize = 0;
    assert(texts(names@) =~= names_in(items@.subrange(0, 0)));
    while i < items.len()
        invariant
            i <= items.len(),
            texts(names@) == names_in(items@.subrange(0, i as int)),
        decreases items.len() - i,
    {
        proof {
            let next = items@.subrange(0, i + 1);
            assert(next.drop_last() =~= items@.subrange(0, i as int));
            assert(next.last() == items@[i as int]);
        }
        let ghost before = names@;
        match items[i].get("Name") {
            Some(Nbt::Text(name)) => {
                names.push(name.clone());
                assert(texts(names@) =~= texts(before) + seq![name@]);
            },
            _ => {
                assert(texts(names@) =~= texts(before) + Seq::<Seq<char>>::empty());
            },
        }
        i += 1;
    }
    assert(items@.subrange(0, items.len() as int) =~= items@);
    Ok(names)
}

/// The scores and their sum that the scoreboard file `root` holds for `objective`; see
/// [`tally_of`].
pub fn tally(root: &Nbt, objective: &str) -> (r: Result<(Vec<(String, i32)>, i64), ScoreboardError>)
    ensures
        match r {
            Ok(t) => tally_of(*root, objective@) == Ok::<(Seq<Score>, int), ScoreboardError>(
                (scores_of(t.0@), t.1 as int),
            ),
            Err(e) => tally_of(*root, objective@) == Err::<(Seq<Score>, int), ScoreboardError>(e),
        },
{
    let items = match find_list(root, "PlayerScores", ScoreboardError::NoPlayerScores) {
        Ok(items) => items,
        Err(e) => {
            return Err(e);
        },
    };
    let scores = collect_scores(items, objective);
    if scores.len() == 0 {
        return Err(ScoreboardError::NoScores);
    }
    match total_of(&scores) {
        None => Err(ScoreboardError::TotalOutOfRange),
        Some(total) => Ok((rank(scores), total)),
    }
}

} // verus!
