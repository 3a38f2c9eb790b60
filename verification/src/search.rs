//! Scoreboard names that are like what a user typed.

use crate::score::{names_of, NameText, ScoreboardName};
use crate::text::{has_prefix_at, texts, to_chars};
use vstd::prelude::*;

verus! {

/// `s` in lower case, as `str::to_lowercase` gives it.
pub uninterp spec fn lowered(s: Seq<char>) -> Seq<char>;

/// `str::to_lowercase`: `s` with each character replaced by its lower case form by
/// Unicode's tables; it depends on the text alone.
#[verifier::external_body]
fn to_lower(s: &str) -> (r: String)
    ensures
        r@ == lowered(s@),
{
    s.to_lowercase()
}

/// How many characters of `term` occur in `name`, less how many do not.
pub open spec fn hits(name: Seq<char>, term: Seq<char>) -> int
    decreases term.len(),
{
    if term.len() == 0 {
        0
    } else {
        hits(name, term.drop_last()) + if name.contains(term.last()) {
            1int
        } else {
            -1int
        }
    }
}

/// Whether `name` is like `term`: it starts with it, or the characters of `term` that it
/// holds outnumber those that it lacks by at least half of its own length in bytes.
pub open spec fn is_like(name: Seq<char>, term: Seq<char>) -> bool {
    let len = vstd::utf8::encode_utf8(name).len();
    term.is_prefix_of(name) || (len > 0 && 2 * hits(name, term) >= len)
}

/// Whether `v` holds `c`.
fn holds_char(v: &Vec<char>, c: char) -> (r: bool)
    ensures
        r == v@.contains(c),
{
    let mut i: usize = 0;
    while i < v.len()
        invariant
            i <= v.len(),
            forall|k: int| 0 <= k < i ==> v@[k] != c,
        decreases v.len() - i,
    {
        if v[i] == c {
            return true;
        }
        i += 1;
    }
    false
}

/// Whether `name` is like `term`; see [`is_like`].
pub fn fuzzy_match(name: &str, term: &str) -> (r: bool)
    ensures
        r == is_like(name@, term@),
{
    let n = to_chars(name);
    let t = to_chars(term);
    assert(n@.subrange(0, n.len() as int) =~= n@);
    if has_prefix_at(&n, 0, &t) {
        return true;
    }
    let mut found: u128 = 0;
    let mut missed: u128 = 0;
    let mut i: usize = 0;
    assert(t@.subrange(0, 0) =~= Seq::<char>::empty());
    while i < t.len()
        invariant
            i <= t.len(),
            found + missed == i,
            found - missed == hits(n@, t@.subrange(0, i as int)),
        decreases t.len() - i,
    {
        proof {
            let next = t@.subrange(0, i + 1);
            assert(next.drop_last() =~= t@.subrange(0, i as int));
            assert(next.last() == t@[i as int]);
        }
        if holds_char(&n, t[i]) {
            found = found + 1;
        } else {
            missed = missed + 1;
        }
        i += 1;
    }
    assert(t@.subrange(0, t.len() as int) =~= t@);
    let len = name.as_bytes().len() as u128;
    len > 0 && 2 * found >= len + 2 * missed
}

/// The names that are like `partial`, case aside, in the order of `names`.
pub open spec fn suggestions(names: Seq<Seq<char>>, partial: Seq<char>) -> Seq<Seq<char>>
    decreases names.len(),
{
    if names.len() == 0 {
        Seq::empty()
    } else {
        suggestions(names.drop_last(), partial) + if is_like(
            lowered(names.last()),
            lowered(partial),
        ) {
            seq![names.last()]
        } else {
            Seq::empty()
        }
    }
}

/// The scoreboard names to offer for what was typed so far; see [`suggestions`].
pub fn score_autocomplete_board(names: &Vec<String>, partial: &str) -> (r: Vec<String>)
    ensures
        texts(r@) == suggestions(texts(names@), partial@),
{
    let term = to_lower(partial);
    let mut out: Vec<String> = Vec::new();
    let mut i: usize = 0;
    let ghost all = texts(names@);
    assert(texts(out@) =~= suggestions(all.subrange(0, 0), partial@));
    while i < names.len()
        invariant
            i <= names.len(),
            all == texts(names@),
            term@ == lowered(partial@),
            texts(out@) == suggestions(all.subrange(0, i as int), partial@),
        decreases names.len() - i,
    {
        proof {
            let next = all.subrange(0, i + 1);
            assert(next.drop_last() =~= all.subrange(0, i as int));
            assert(next.last() == names@[i as int]@);
        }
        let ghost before = out@;
        let lower = to_lower(names[i].as_str());
        if fuzzy_match(lower.as_str(), term.as_str()) {
            out.push(names[i].clone());
            assert(texts(out@) =~= texts(before) + seq![names@[i as int]@]);
        } else {
            assert(texts(out@) =~= texts(before) + Seq::<Seq<char>>::empty());
        }
        i += 1;
    }
    assert(all.subrange(0, names.len() as int) =~= all);
    out
}

/// Whether `needle` occurs in `hay`, at or after index `from`.
pub open spec fn occurs_from(hay: Seq<char>, needle: Seq<char>, from: int) -> bool
    decreases hay.len() + 1 - from,
{
    if from < 0 || from > hay.len() {
        false
    } else if needle.is_prefix_of(hay.subrange(from, hay.len() as int)) {
        true
    } else {
        occurs_from(hay, needle, from + 1)
    }
}

/// Whether `needle` occurs in `hay`.
pub open spec fn occurs(hay: Seq<char>, needle: Seq<char>) -> bool {
    occurs_from(hay, needle, 0)
}

/// `occurs_from` says that there is a place, at or after `from`, where `hay` goes on with
/// `needle`.
pub proof fn lemma_occurs_from(hay: Seq<char>, needle: Seq<char>, from: int)
    requires
        0 <= from <= hay.len(),
    ensures
        occurs_from(hay, needle, from) <==> exists|i: int|
            from <= i <= hay.len() && #[trigger] needle.is_prefix_of(
                hay.subrange(i, hay.len() as int),
            ),
    decreases hay.len() - from,
{
    let len = hay.len() as int;
    if needle.is_prefix_of(hay.subrange(from, len)) {
    } else if from < len {
        lemma_occurs_from(hay, needle, from + 1);
        if occurs_from(hay, needle, from) {
            let i = choose|i: int|
                from + 1 <= i <= len && #[trigger] needle.is_prefix_of(hay.subrange(i, len));
            assert(from <= i <= len && needle.is_prefix_of(hay.subrange(i, len)));
        }
        if exists|i: int| from <= i <= len && #[trigger] needle.is_prefix_of(hay.subrange(i, len)) {
            let i = choose|i: int|
                from <= i <= len && #[trigger] needle.is_prefix_of(hay.subrange(i, len));
            assert(from + 1 <= i <= len && needle.is_prefix_of(hay.subrange(i, len)));
        }
    } else {
        assert(!occurs_from(hay, needle, from + 1));
        assert forall|i: int| from <= i <= len implies !#[trigger] needle.is_prefix_of(
            hay.subrange(i, len),
        ) by {
            assert(i == from);
        }
    }
}

/// Whether `needle` occurs in `hay`; see [`occurs`].
pub fn contains(hay: &str, needle: &str) -> (r: bool)
    ensures
        r == occurs(hay@, needle@),
{
    let h = to_chars(hay);
    let n = to_chars(needle);
    let mut i: usize = 0;
    while i < h.len()
        invariant
            i <= h.len(),
            h@ == hay@,
            n@ == needle@,
            occurs(h@, n@) == occurs_from(h@, n@, i as int),
        decreases h.len() - i,
    {
        if has_prefix_at(&h, i, &n) {
            return true;
        }
        i += 1;
    }
    assert(!occurs_from(h@, n@, i + 1));
    has_prefix_at(&h, i, &n)
}

/// The names that hold `term`, case aside, in the order of `names`: each as the name shown
/// and the name that commands take.
pub open spec fn names_holding(names: Seq<Seq<char>>, term: Seq<char>) -> Seq<NameText>
    decreases names.len(),
{
    if names.len() == 0 {
        Seq::empty()
    } else {
        names_holding(names.drop_last(), term) + if occurs(lowered(names.last()), lowered(term)) {
            seq![NameText { display: names.last(), real: names.last() }]
        } else {
            Seq::empty()
        }
    }
}

/// The scoreboards whose names hold `term`, case aside; see [`names_holding`].
pub fn search_scoreboards(names: &Vec<String>, term: &str) -> (r: Vec<ScoreboardName>)
    ensures
        names_of(r@) == names_holding(texts(names@), term@),
{
    let wanted = to_lower(term);
    let mut out: Vec<ScoreboardName> = Vec::new();
    let mut i: usize = 0;
    let ghost all = texts(names@);
    assert(names_of(out@) =~= names_holding(all.subrange(0, 0), term@));
    while i < names.len()
        invariant
            i <= names.len(),
            all == texts(names@),
            wanted@ == lowered(term@),
            names_of(out@) == names_holding(all.subrange(0, i as int), term@),
        decreases names.len() - i,
    {
        proof {
            let next = all.subrange(0, i + 1);
            assert(next.drop_last() =~= all.subrange(0, i as int));
            assert(next.last() == names@[i as int]@);
        }
        let ghost before = out@;
        let lower = to_lower(names[i].as_str());
        if contains(lower.as_str(), wanted.as_str()) {
            out.push(ScoreboardName { display: names[i].clone(), real: names[i].clone() });
            assert(names_of(out@) =~= names_of(before) + seq![
                NameText { display: names@[i as int]@, real: names@[i as int]@ },
            ]);
        } else {
            assert(names_of(out@) =~= names_of(before) + Seq::<NameText>::empty());
        }
        i += 1;
    }
    assert(all.subrange(0, names.len() as int) =~= all);
    out
}

} // verus!
