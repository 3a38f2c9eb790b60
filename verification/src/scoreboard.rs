//! The scoreboards of a world, as far as they were loaded.

use crate::nbt::Nbt;
use crate::scorefile::{
    objective_names, objective_names_of, scores_of, tally, tally_of, Score, ScoreboardError,
};
use crate::text::{same_text, texts};
use std::path::PathBuf;
use std::time::Instant;
use vstd::prelude::*;
use vstd::string::StringExecFns;

verus! {

/// `std::time::Instant`: a reading of the monotonic clock, carried through as it is.
#[verifier::external_type_specification]
#[verifier::external_body]
pub struct ExInstant(Instant);

/// `Instant` is `Copy`: its clone is the same reading.
pub assume_specification[ <Instant as Clone>::clone ](t: &Instant) -> (r: Instant)
    ensures
        r == *t,
;

/// `Instant::now`: the clock's reading at the call. Nothing is known of it.
#[verifier::external_body]
fn now() -> Instant {
    Instant::now()
}

/// `Instant::elapsed`, in whole seconds: how long ago `since` was read. It depends on the
/// clock, so nothing is known of it.
#[verifier::external_body]
fn seconds_since(since: &Instant) -> u64 {
    since.elapsed().as_secs()
}

/// For how many seconds cached data counts as fresh.
pub const FRESH_SECONDS: u64 = 60;

/// Whether data that was loaded `elapsed_seconds` ago is stale: it is once more than a minute
/// has passed.
pub fn is_stale(elapsed_seconds: u64) -> (r: bool)
    ensures
        r == (elapsed_seconds > FRESH_SECONDS),
{
    elapsed_seconds > FRESH_SECONDS
}

/// The names of the scoreboards, with the time they were loaded.
pub struct ScoreboardNames {
    pub names: Vec<String>,
    last_update: Instant,
}

impl View for ScoreboardNames {
    type V = Seq<Seq<char>>;

    closed spec fn view(&self) -> Seq<Seq<char>> {
        texts(self.names@)
    }
}

impl ScoreboardNames {
    /// No names, loaded now.
    pub fn new() -> (r: Self)
        ensures
            r@ == Seq::<Seq<char>>::empty(),
    {
        let r = Self { names: Vec::new(), last_update: now() };
        assert(r@ =~= Seq::<Seq<char>>::empty());
        r
    }

    /// Replaces the names, and notes that they were loaded now.
    pub fn update(&mut self, names: Vec<String>)
        ensures
            final(self)@ == texts(names@),
    {
        self.names = names;
        self.last_update = now();
    }

    /// Whether the names are stale by the clock; see [`is_stale`].
    pub fn should_update(&self) -> bool {
        is_stale(seconds_since(&self.last_update))
    }
}

/// One scoreboard: the players' scores, highest first, and their sum.
#[derive(Debug, Clone)]
pub struct Scoreboard {
    pub name: String,
    pub scores: Vec<(String, i32)>,
    pub total: i64,
    last_update: Instant,
}

/// What a [`Scoreboard`] holds.
pub struct ScoreboardData {
    pub name: Seq<char>,
    pub scores: Seq<Score>,
    pub total: int,
}

impl View for Scoreboard {
    type V = ScoreboardData;

    closed spec fn view(&self) -> ScoreboardData {
        ScoreboardData {
            name: self.name@,
            scores: scores_of(self.scores@),
            total: self.total as int,
        }
    }
}

impl Scoreboard {
    /// The scoreboard `name` without scores, loaded now.
    pub fn new(name: String) -> (r: Self)
        ensures
            r@ == (ScoreboardData { name: name@, scores: Seq::empty(), total: 0 }),
    {
        let r = Self { name, scores: Vec::new(), total: 0, last_update: now() };
        assert(r@.scores =~= Seq::<Score>::empty());
        r
    }

    /// Replaces the scores and their sum, and notes that they were loaded now.
    pub fn update(&mut self, scores: Vec<(String, i32)>, total: i64)
        ensures
            final(self)@ == (ScoreboardData {
                name: old(self)@.name,
                scores: scores_of(scores@),
                total: total as int,
            }),
    {
        self.scores = scores;
        self.total = total;
        self.last_update = now();
    }

    /// Whether the scores are stale by the clock; see [`is_stale`].
    pub fn should_update(&self) -> bool {
        is_stale(seconds_since(&self.last_update))
    }
}

/// `std::path::PathBuf`: a path in the file system, carried through as it is.
#[verifier::external_type_specification]
#[verifier::external_body]
pub struct ExPathBuf(PathBuf);

/// `Path::join`: `base` with `tail` behind it. Nothing is stated of the result.
#[verifier::external_body]
fn path_join(base: &PathBuf, tail: &str) -> PathBuf {
    base.join(tail)
}

/// `PathBuf::clone`: a path that is equal to `path`.
pub assume_specification[ <PathBuf as Clone>::clone ](path: &PathBuf) -> (r: PathBuf)
    ensures
        r == *path,
;

/// `PathBuf::pop`: takes the last part off `path`, where it has one. Nothing is stated of
/// what is left.
#[verifier::external_body]
fn path_pop(path: &mut PathBuf) {
    path.pop();
}

/// `PathBuf::push`: puts `tail` behind `path`. Nothing is stated of what comes of it.
#[verifier::external_body]
fn path_push(path: &mut PathBuf, tail: &str) {
    path.push(tail);
}

/// The index of the first scoreboard at or after `from` that is named `name`, or
/// `boards.len()`.
pub open spec fn board_index(boards: Seq<ScoreboardData>, name: Seq<char>, from: int) -> int
    decreases boards.len() - from,
{
    if from < 0 || from >= boards.len() {
        boards.len() as int
    } else if boards[from].name == name {
        from
    } else {
        board_index(boards, name, from + 1)
    }
}

/// The scoreboard named `name` among `boards`: the first of that name.
pub open spec fn board_named(boards: Seq<ScoreboardData>, name: Seq<char>) -> Option<
    ScoreboardData,
> {
    let i = board_index(boards, name, 0);
    if i < boards.len() {
        Some(boards[i])
    } else {
        None
    }
}

/// `board_index` names the first scoreboard of that name: none before it has it.
pub proof fn lemma_board_index(boards: Seq<ScoreboardData>, name: Seq<char>, from: int)
    requires
        0 <= from <= boards.len(),
    ensures
        from <= board_index(boards, name, from) <= boards.len(),
        board_index(boards, name, from) < boards.len() ==> boards[board_index(
            boards,
            name,
            from,
        )].name == name,
        forall|i: int|
            from <= i < board_index(boards, name, from) ==> (#[trigger] boards[i]).name != name,
    decreases boards.len() - from,
{
    if from < boards.len() && boards[from].name != name {
        lemma_board_index(boards, name, from + 1);
    }
}

/// The scoreboards of one world, as far as they were loaded: the names of all objectives, the
/// scoreboards asked for so far, and the players on the whitelist.
pub struct CachedScoreboard {
    pub scoreboard_names: ScoreboardNames,
    scoreboards: Vec<Scoreboard>,
    whitelist: Vec<String>,
    path: PathBuf,
}

/// What each scoreboard in a vector holds.
pub open spec fn boards_of(v: Seq<Scoreboard>) -> Seq<ScoreboardData> {
    Seq::new(v.len(), |i: int| v[i]@)
}

impl CachedScoreboard {
    /// The names of all objectives, as last loaded.
    pub closed spec fn names(&self) -> Seq<Seq<char>> {
        self.scoreboard_names@
    }

    /// The scoreboards loaded so far, in the order they were first asked for.
    pub closed spec fn boards(&self) -> Seq<ScoreboardData> {
        boards_of(self.scoreboards@)
    }

    /// The players on the whitelist, as last loaded.
    pub closed spec fn listed(&self) -> Seq<Seq<char>> {
        texts(self.whitelist@)
    }

    /// The cache is well formed: no two scoreboards have one name, and no player stands
    /// twice on the whitelist. Every cache that this module hands out is.
    pub closed spec fn wf(&self) -> bool {
        &&& distinct_boards(self.boards())
        &&& self.listed().no_duplicates()
    }

    /// A name finds at most one scoreboard, and the whitelist names each player once.
    pub proof fn lemma_no_repeats(&self)
        requires
            self.wf(),
        ensures
            distinct_boards(self.boards()),
            self.listed().no_duplicates(),
    {
    }

    /// The directory of the world whose scoreboards these are: the path that the cache was
    /// made with. The files that the cache names lie under it and beside it.
    pub closed spec fn world(&self) -> PathBuf {
        self.path
    }

    /// A cache for the world at `path` with nothing loaded yet. The caller loads the names
    /// next.
    pub fn new(path: PathBuf) -> (r: Self)
        ensures
            r.wf(),
            r.world() == path,
            r.names() == Seq::<Seq<char>>::empty(),
            r.boards() == Seq::<ScoreboardData>::empty(),
            r.listed() == Seq::<Seq<char>>::empty(),
    {
        let r = Self {
            scoreboard_names: ScoreboardNames::new(),
            scoreboards: Vec::new(),
            whitelist: Vec::new(),
            path,
        };
        assert(r.boards() =~= Seq::<ScoreboardData>::empty());
        assert(r.listed() =~= Seq::<Seq<char>>::empty());
        r
    }

    /// Where the world keeps its scoreboards.
    pub fn path(&self) -> PathBuf {
        path_join(&self.path, "data/scoreboard.dat")
    }

    /// Where the server keeps its whitelist: beside the world's directory.
    pub fn whitelist_path(&self) -> PathBuf {
        let mut path = self.path.clone();
        path_pop(&mut path);
        path_push(&mut path, "whitelist.json");
        path
    }

    /// Takes in the names of the objectives in the scoreboard file `root`, and the whitelist,
    /// each player once however often the list names them. Where the file holds no names,
    /// nothing changes.
    pub fn load_names(&mut self, root: &Nbt, whitelist: Vec<String>) -> (r: Result<
        (),
        ScoreboardError,
    >)
        requires
            old(self).wf(),
        ensures
            final(self).wf(),
            final(self).world() == old(self).world(),
            final(self).boards() == old(self).boards(),
            match objective_names_of(*root) {
                Ok(names) => r is Ok && final(self).names() == names && final(self).listed()
                    == without_repeats(texts(whitelist@)),
                Err(e) => r == Err::<(), ScoreboardError>(e) && final(self).names() == old(
                    self,
                ).names() && final(self).listed() == old(self).listed(),
            },
    {
        match objective_names(root) {
            Err(e) => Err(e),
            Ok(names) => {
                proof {
                    lemma_without_repeats(texts(whitelist@));
                }
                self.whitelist = drop_repeats(whitelist);
                self.scoreboard_names.update(names);
                Ok(())
            },
        }
    }

    /// The place of the first scoreboard named `name`, or the number of scoreboards.
    fn position(&self, name: &str) -> (i: usize)
        ensures
            i == board_index(self.boards(), name@, 0),
            i <= self.scoreboards.len(),
    {
        let mut i: usize = 0;
        while i < self.scoreboards.len()
            invariant
                i <= self.scoreboards.len(),
                board_index(self.boards(), name@, 0) == board_index(
                    self.boards(),
                    name@,
                    i as int,
                ),
            decreases self.scoreboards.len() - i,
        {
            assert(self.boards()[i as int].name == self.scoreboards@[i as int].name@);
            if same_text(self.scoreboards[i].name.as_str(), name) {
                return i;
            }
            i += 1;
        }
        i
    }

    /// Whether the scoreboard `name` is loaded.
    pub fn is_loaded(&self, name: &str) -> (r: bool)
        ensures
            r == board_named(self.boards(), name@) is Some,
    {
        self.position(name) < self.scoreboards.len()
    }

    /// Whether the scoreboard `name` has to be read from the file before it is shown: it is
    /// not loaded, or it is stale by the clock.
    pub fn needs_refresh(&self, name: &str) -> (r: bool)
        ensures
            board_named(self.boards(), name@) is None ==> r,
    {
        let i = self.position(name);
        if i < self.scoreboards.len() {
            self.scoreboards[i].should_update()
        } else {
            true
        }
    }

    /// Takes in the scores that the scoreboard file `root` holds for `name`: they replace
    /// those of the scoreboard of that name, which is made where it was not loaded. Where the
    /// file holds none, nothing changes.
    pub fn load_scoreboard(&mut self, root: &Nbt, name: &str) -> (r: Result<(), ScoreboardError>)
        requires
            old(self).wf(),
        ensures
            final(self).wf(),
            final(self).world() == old(self).world(),
            final(self).names() == old(self).names(),
            final(self).listed() == old(self).listed(),
            match tally_of(*root, name@) {
                Ok(t) => {
                    &&& r is Ok
                    &&& board_named(final(self).boards(), name@) == Some(
                        ScoreboardData { name: name@, scores: t.0, total: t.1 },
                    )
                    &&& forall|other: Seq<char>|
                        other != name@ ==> board_named(final(self).boards(), other)
                            == board_named(old(self).boards(), other)
                },
                Err(e) => r == Err::<(), ScoreboardError>(e) && final(self).boards() == old(
                    self,
                ).boards(),
            },
    {
        let (scores, total) = match tally(root, name) {
            Ok(t) => t,
            Err(e) => {
                return Err(e);
            },
        };
        let i = self.position(name);
        let ghost before = self.boards();
        proof {
            lemma_board_index(before, name@, 0);
        }
        if i < self.scoreboards.len() {
            let mut board = self.scoreboards.remove(i);
            board.update(scores, total);
            self.scoreboards.insert(i, board);
            proof {
                let after = self.boards();
                assert(after =~= before.update(i as int, board@));
                lemma_board_replaced(before, i as int, board@);
                assert(distinct_boards(after)) by {
                    assert forall|a: int, b: int| 0 <= a < b < after.len() implies after[a].name
                        != after[b].name by {
                        assert(after[a].name == before[a].name);
                        assert(after[b].name == before[b].name);
                    }
                }
            }
        } else {
            let mut board = Scoreboard::new(String::from_str(name));
            board.update(scores, total);
            self.scoreboards.push(board);
            proof {
                let after = self.boards();
                assert(after =~= before.push(board@));
                lemma_board_added(before, board@);
                assert(distinct_boards(after)) by {
                    assert forall|a: int, b: int| 0 <= a < b < after.len() implies after[a].name
                        != after[b].name by {
                        if b < before.len() {
                            assert(after[a] == before[a] && after[b] == before[b]);
                        } else {
                            assert(after[a] == before[a]);
                        }
                    }
                }
            }
        }
        Ok(())
    }

    /// The scoreboard `name`, where it is loaded.
    pub fn get_scoreboard(&self, name: &str) -> (r: Result<&Scoreboard, ScoreboardError>)
        ensures
            match r {
                Ok(board) => board_named(self.boards(), name@) == Some(board@),
                Err(e) => e == ScoreboardError::NotFound && board_named(self.boards(), name@)
                    is None,
            },
    {
        let i = self.position(name);
        if i < self.scoreboards.len() {
            Ok(&self.scoreboards[i])
        } else {
            Err(ScoreboardError::NotFound)
        }
    }

    /// The players on the whitelist.
    pub fn get_whitelist(&self) -> (r: &Vec<String>)
        ensures
            texts(r@) == self.listed(),
    {
        &self.whitelist
    }

    /// Whether `player` is on the whitelist.
    pub fn is_whitelisted(&self, player: &str) -> (r: bool)
        ensures
            r == self.listed().contains(player@),
    {
        contains_text(&self.whitelist, player)
    }
}

/// Whether no two of the scoreboards have one name.
pub open spec fn distinct_boards(boards: Seq<ScoreboardData>) -> bool {
    forall|i: int, j: int| 0 <= i < j < boards.len() ==> boards[i].name != boards[j].name
}

/// `list` with each text kept where it first stands, and left out where it stands again.
pub open spec fn without_repeats(list: Seq<Seq<char>>) -> Seq<Seq<char>>
    decreases list.len(),
{
    if list.len() == 0 {
        Seq::empty()
    } else {
        let rest = without_repeats(list.drop_last());
        if rest.contains(list.last()) {
            rest
        } else {
            rest.push(list.last())
        }
    }
}

/// A list without its repeats names nothing twice, and names what the list names.
pub proof fn lemma_without_repeats(list: Seq<Seq<char>>)
    ensures
        without_repeats(list).no_duplicates(),
        forall|item: Seq<char>| without_repeats(list).contains(item) <==> list.contains(item),
    decreases list.len(),
{
    if list.len() > 0 {
        let rest = without_repeats(list.drop_last());
        let out = without_repeats(list);
        lemma_without_repeats(list.drop_last());
        assert forall|item: Seq<char>| out.contains(item) <==> list.contains(item) by {
            if list.contains(item) {
                let i = choose|i: int| 0 <= i < list.len() && list[i] == item;
                if i < list.len() - 1 {
                    assert(list.drop_last()[i] == item);
                    assert(list.drop_last().contains(item));
                    assert(rest.contains(item));
                    let k = choose|k: int| 0 <= k < rest.len() && rest[k] == item;
                    assert(out[k] == item);
                } else if !rest.contains(item) {
                    assert(out[out.len() - 1] == item);
                }
            }
            if out.contains(item) {
                let k = choose|k: int| 0 <= k < out.len() && out[k] == item;
                if k < rest.len() {
                    assert(rest[k] == item);
                    assert(rest.contains(item));
                    assert(list.drop_last().contains(item));
                    let i = choose|i: int|
                        0 <= i < list.drop_last().len() && list.drop_last()[i] == item;
                    assert(list[i] == item);
                } else {
                    assert(list[list.len() - 1] == item);
                }
            }
        }
        assert forall|a: int, b: int| 0 <= a < out.len() && 0 <= b < out.len() && a != b implies out[a]
            != out[b] by {
            if a < rest.len() && b < rest.len() {
                assert(rest[a] != rest[b]);
            } else if a < rest.len() {
                assert(rest.contains(rest[a]));
            } else {
                assert(rest.contains(rest[b]));
            }
        }
    }
}

/// Leaves each text where it first stands, and takes it out where it stands again; see
/// [`without_repeats`].
pub fn drop_repeats(list: Vec<String>) -> (r: Vec<String>)
    ensures
        texts(r@) == without_repeats(texts(list@)),
{
    let mut out: Vec<String> = Vec::new();
    let mut i: usize = 0;
    let ghost all = texts(list@);
    assert(texts(out@) =~= without_repeats(all.subrange(0, 0)));
    while i < list.len()
        invariant
            i <= list.len(),
            all == texts(list@),
            texts(out@) == without_repeats(all.subrange(0, i as int)),
        decreases list.len() - i,
    {
        proof {
            let next = all.subrange(0, i + 1);
            assert(next.drop_last() =~= all.subrange(0, i as int));
            assert(next.last() == list@[i as int]@);
        }
        let ghost before = out@;
        if !contains_text(&out, list[i].as_str()) {
            out.push(list[i].clone());
            assert(texts(out@) =~= texts(before).push(list@[i as int]@));
        }
        i += 1;
    }
    assert(all.subrange(0, list.len() as int) =~= all);
    out
}

/// Whether `list` holds `item`.
pub fn contains_text(list: &Vec<String>, item: &str) -> (r: bool)
    ensures
        r == texts(list@).contains(item@),
{
    let mut i: usize = 0;
    while i < list.len()
        invariant
            i <= list.len(),
            forall|k: int| 0 <= k < i ==> texts(list@)[k] != item@,
        decreases list.len() - i,
    {
        assert(texts(list@)[i as int] == list@[i as int]@);
        if same_text(list[i].as_str(), item) {
            return true;
        }
        i += 1;
    }
    false
}

/// Replacing the first scoreboard of a name by one of the same name changes what that name
/// finds, and nothing else.
proof fn lemma_board_replaced(boards: Seq<ScoreboardData>, i: int, board: ScoreboardData)
    requires
        0 <= i < boards.len(),
        i == board_index(boards, board.name, 0),
    ensures
        board_named(boards.update(i, board), board.name) == Some(board),
        forall|other: Seq<char>|
            other != board.name ==> board_named(boards.update(i, board), other) == board_named(
                boards,
                other,
            ),
{
    let after = boards.update(i, board);
    lemma_board_index(boards, board.name, 0);
    assert forall|name: Seq<char>| true implies board_index(after, name, 0) == board_index(
        boards,
        name,
        0,
    ) by {
        lemma_board_index_same_names(boards, after, name, 0);
    }
    assert forall|other: Seq<char>| other != board.name implies board_named(after, other)
        == board_named(boards, other) by {
        lemma_board_index(boards, other, 0);
    }
}

/// What a name finds depends on the names alone.
proof fn lemma_board_index_same_names(
    a: Seq<ScoreboardData>,
    b: Seq<ScoreboardData>,
    name: Seq<char>,
    from: int,
)
    requires
        a.len() == b.len(),
        forall|i: int| 0 <= i < a.len() ==> a[i].name == b[i].name,
        0 <= from,
    ensures
        board_index(a, name, from) == board_index(b, name, from),
    decreases a.len() - from,
{
    if from < a.len() && a[from].name != name {
        lemma_board_index_same_names(a, b, name, from + 1);
    }
}

/// A scoreboard put behind all others, none of which has its name, is found by its name, and
/// changes nothing else.
proof fn lemma_board_added(boards: Seq<ScoreboardData>, board: ScoreboardData)
    requires
        board_index(boards, board.name, 0) == boards.len(),
    ensures
        board_named(boards.push(board), board.name) == Some(board),
        forall|other: Seq<char>|
            other != board.name ==> board_named(boards.push(board), other) == board_named(
                boards,
                other,
            ),
{
    let after = boards.push(board);
    assert forall|name: Seq<char>| true implies board_index(after, name, 0) == if name
        == board.name || board_index(boards, name, 0) < boards.len() {
        board_index(boards, name, 0)
    } else {
        after.len() as int
    } by {
        lemma_board_index_pushed(boards, board, name, 0);
    }
    assert forall|other: Seq<char>| other != board.name implies board_named(after, other)
        == board_named(boards, other) by {
        lemma_board_index(boards, other, 0);
    }
}

/// What a name finds among the scoreboards once one more stands behind them.
proof fn lemma_board_index_pushed(
    boards: Seq<ScoreboardData>,
    board: ScoreboardData,
    name: Seq<char>,
    from: int,
)
    requires
        0 <= from <= boards.len(),
    ensures
        board_index(boards.push(board), name, from) == if name == board.name || board_index(
            boards,
            name,
            from,
        ) < boards.len() {
            board_index(boards, name, from)
        } else {
            boards.len() as int + 1
        },
    decreases boards.len() - from,
{
    let after = boards.push(board);
    if from < boards.len() {
        assert(after[from] == boards[from]);
        if boards[from].name != name {
            lemma_board_index_pushed(boards, board, name, from + 1);
        }
    } else {
        assert(after[from] == board);
        assert(board_index(after, name, from + 1) == after.len());
    }
}

} // verus!
