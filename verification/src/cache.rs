//! The answers to commands that wait for their callers, and the wait for one of them.

use crate::text::{has_prefix_at, texts, to_chars};
use vstd::prelude::*;

verus! {

/// How often a poll looks at the cache, at most.
pub const MAX_ATTEMPTS: u32 = 5;

/// How long a poll waits after a look in vain, in milliseconds.
pub const RETRY_INTERVAL_MS: u64 = 500;

/// The answers to commands that no caller has taken yet, oldest first.
#[derive(Debug)]
pub struct ResponseCache {
    entries: Vec<String>,
}

impl View for ResponseCache {
    type V = Seq<Seq<char>>;

    closed spec fn view(&self) -> Seq<Seq<char>> {
        texts(self.entries@)
    }
}

/// Whether a caller that waits for `tag` may take the cache's newest line: there is one, and
/// it starts with `tag`.
pub open spec fn tail_matches(cache: Seq<Seq<char>>, tag: Seq<char>) -> bool {
    cache.len() > 0 && tag.is_prefix_of(cache.last())
}

impl ResponseCache {
    /// A cache that holds nothing.
    pub fn new() -> (r: Self)
        ensures
            r@ == Seq::<Seq<char>>::empty(),
    {
        let r = ResponseCache { entries: Vec::new() };
        assert(r@ =~= Seq::<Seq<char>>::empty());
        r
    }

    /// The number of lines that wait.
    pub fn len(&self) -> (n: usize)
        ensures
            n == self@.len(),
    {
        self.entries.len()
    }

    /// Whether no line waits.
    pub fn is_empty(&self) -> (r: bool)
        ensures
            r == (self@.len() == 0),
    {
        self.entries.len() == 0
    }

    /// The line at place `i`, counted from the oldest.
    pub fn get(&self, i: usize) -> (r: Option<&str>)
        ensures
            match r {
                Some(line) => i < self@.len() && line@ == self@[i as int],
                None => i >= self@.len(),
            },
    {
        if i < self.entries.len() {
            Some(self.entries[i].as_str())
        } else {
            None
        }
    }

    /// Puts `line` behind all lines that wait.
    pub fn push(&mut self, line: String)
        ensures
            final(self)@ == old(self)@.push(line@),
    {
        self.entries.push(line);
        assert(self@ =~= old(self)@.push(line@));
    }

    /// Takes the newest line if it starts with `tag`. Only the newest line is looked at: an
    /// older line that starts with `tag` stays where it is.
    pub fn take_latest(&mut self, tag: &str) -> (r: Option<String>)
        ensures
            match r {
                Some(line) => tail_matches(old(self)@, tag@) && line@ == old(self)@.last()
                    && final(self)@ == old(self)@.drop_last(),
                None => !tail_matches(old(self)@, tag@) && final(self)@ == old(self)@,
            },
    {
        let n = self.entries.len();
        if n == 0 {
            return None;
        }
        let last = to_chars(self.entries[n - 1].as_str());
        let t = to_chars(tag);
        assert(last@.subrange(0, last.len() as int) =~= last@);
        if has_prefix_at(&last, 0, &t) {
            let line = self.entries.pop();
            assert(self@ =~= old(self)@.drop_last());
            line
        } else {
            None
        }
    }
}

/// A caller's wait for the answer to one command: how often it has looked in vain.
#[derive(Debug, Clone, Copy, PartialEq, Eq, Structural)]
pub struct Poll {
    tries: u32,
}

/// What a poll does after one look at the cache.
#[derive(Debug, Clone, PartialEq, Eq)]
pub enum PollStep {
    /// The answer, taken out of the cache.
    Found(String),
    /// Nothing yet: wait this many milliseconds, with the cache unlocked, and come back.
    Wait(u64),
    /// The poll has looked as often as it may: give up. The cache was not looked at.
    TimedOut,
}

/// What a [`PollStep`] holds.
pub enum PollStepText {
    Found(Seq<char>),
    Wait(u64),
    TimedOut,
}

impl View for PollStep {
    type V = PollStepText;

    open spec fn view(&self) -> PollStepText {
        match self {
            PollStep::Found(line) => PollStepText::Found(line@),
            PollStep::Wait(ms) => PollStepText::Wait(*ms),
            PollStep::TimedOut => PollStepText::TimedOut,
        }
    }
}

/// What a poll does when `tries` looks were in vain before: after `MAX_ATTEMPTS` looks it
/// gives up, whatever the cache holds by then; else it looks, takes the newest line if that
/// starts with `tag`, and waits if not.
pub open spec fn look(cache: Seq<Seq<char>>, tag: Seq<char>, tries: nat) -> PollStepText {
    if tries >= MAX_ATTEMPTS {
        PollStepText::TimedOut
    } else if tail_matches(cache, tag) {
        PollStepText::Found(cache.last())
    } else {
        PollStepText::Wait(RETRY_INTERVAL_MS)
    }
}

/// The milliseconds that a poll waits in all, from `tries` vain looks on, if no look finds
/// anything.
pub open spec fn wait_until_timeout(tries: nat) -> nat
    decreases MAX_ATTEMPTS - tries,
{
    if tries >= MAX_ATTEMPTS {
        0
    } else {
        RETRY_INTERVAL_MS as nat + wait_until_timeout(tries + 1)
    }
}

impl Poll {
    /// A poll that has not looked yet.
    pub fn new() -> (r: Self)
        ensures
            r.tries() == 0,
    {
        Poll { tries: 0 }
    }

    /// The number of looks made so far, each of which found nothing and was followed by a
    /// wait.
    pub closed spec fn tries(&self) -> nat {
        self.tries as nat
    }

    /// Executable form of [`Poll::tries`].
    pub fn attempts(&self) -> (n: u32)
        ensures
            n == self.tries(),
    {
        self.tries
    }

    /// Makes the poll's next step, under the caller's lock on the cache; see [`look`]. The
    /// cache changes only by the line that is found, and is not read once the poll has looked
    /// `MAX_ATTEMPTS` times. The count of looks in vain grows by one with each wait.
    pub fn attempt(&mut self, cache: &mut ResponseCache, tag: &str) -> (r: PollStep)
        ensures
            r@ == look(old(cache)@, tag@, old(self).tries()),
            final(cache)@ == if r is Found {
                old(cache)@.drop_last()
            } else {
                old(cache)@
            },
            final(self).tries() == if r is Wait {
                old(self).tries() + 1
            } else {
                old(self).tries()
            },
    {
        if self.tries >= MAX_ATTEMPTS {
            return PollStep::TimedOut;
        }
        match cache.take_latest(tag) {
            Some(line) => PollStep::Found(line),
            None => {
                self.tries = self.tries + 1;
                PollStep::Wait(RETRY_INTERVAL_MS)
            },
        }
    }
}

/// A line that is not the newest is never taken, whichever tag it starts with: while the
/// newest line does not start with `tag`, a look finds nothing and leaves the cache as it is.
pub proof fn lemma_only_the_tail_is_taken(cache: Seq<Seq<char>>, tag: Seq<char>, i: int)
    requires
        0 <= i < cache.len() - 1,
        tag.is_prefix_of(cache[i]),
        !tag.is_prefix_of(cache.last()),
    ensures
        !tail_matches(cache, tag),
        forall|tries: nat| !(#[trigger] look(cache, tag, tries) is Found),
{
}

/// A line pushed onto any cache is the newest, and is taken by the tag it starts with at any
/// of the poll's looks; the cache is then what it was before the push.
pub proof fn lemma_pushed_line_is_taken(cache: Seq<Seq<char>>, line: Seq<char>, tag: Seq<char>)
    requires
        tag.is_prefix_of(line),
    ensures
        tail_matches(cache.push(line), tag),
        forall|tries: nat|
            tries < MAX_ATTEMPTS ==> #[trigger] look(cache.push(line), tag, tries)
                == PollStepText::Found(line),
        cache.push(line).drop_last() == cache,
{
    assert(cache.push(line).drop_last() =~= cache);
}

/// A poll looks at most five times: each look in vain is followed by a wait of half a
/// second, and after the fifth the poll gives up, two and a half seconds in all. It makes no
/// sixth look: an answer that comes later than that is not taken.
pub proof fn lemma_timeout_after_five_looks(
    cache: Seq<Seq<char>>,
    late: Seq<Seq<char>>,
    tag: Seq<char>,
)
    requires
        !tail_matches(cache, tag),
    ensures
        forall|tries: nat| tries < 5 ==> look(cache, tag, tries) == PollStepText::Wait(500),
        forall|tries: nat| tries >= 5 ==> look(late, tag, tries) == PollStepText::TimedOut,
        wait_until_timeout(0) == 2500,
{
    reveal_with_fuel(wait_until_timeout, 6);
}

} // verus!
