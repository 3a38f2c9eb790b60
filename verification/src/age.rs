//! The age of the server, in words.

use vstd::prelude::*;

verus! {

/// The time between two moments in words, as the `timeago` crate writes it in English with
/// at most `items` units and `ago` behind them. The first moment is given in milliseconds
/// since 1970, the second in seconds and nanoseconds. `None` where `chrono` takes one of
/// them for no moment.
pub uninterp spec fn span_words(
    from_ms: int,
    to_secs: int,
    to_nanos: int,
    items: int,
    ago: Seq<char>,
) -> Option<Seq<char>>;

/// `timeago::Formatter::convert_chrono` on two moments made by
/// `chrono::DateTime::from_timestamp_millis` and `from_timestamp`, with the formatter's
/// number of items and its closing word set. The formatter refuses zero items.
#[verifier::external_body]
fn span_in_words(from_ms: i64, to_secs: i64, to_nanos: u32, items: usize, ago: &'static str) -> (r:
    Option<String>)
    requires
        items > 0,
    ensures
        match r {
            Some(text) => span_words(
                from_ms as int,
                to_secs as int,
                to_nanos as int,
                items as int,
                ago@,
            ) == Some(text@),
            None => span_words(from_ms as int, to_secs as int, to_nanos as int, items as int, ago@)
                is None,
        },
{
    let from = chrono::DateTime::from_timestamp_millis(from_ms)?;
    let to = chrono::DateTime::from_timestamp(to_secs, to_nanos)?;
    let mut f = timeago::Formatter::new();
    f.num_items(items).ago(ago);
    Some(f.convert_chrono(from, to))
}

/// When the server first started, in milliseconds since 1970.
pub const SERVER_START_MS: i64 = 1569559890000;

/// How many units of time the server's age is told in, at most.
pub const AGE_ITEMS: usize = 99;

/// The age of the server at the moment `now_secs` seconds and `now_nanos` nanoseconds after
/// 1970, in words: every unit from years down that is not zero, and no word behind them.
pub fn server_age(now_secs: i64, now_nanos: u32) -> (r: Option<String>)
    ensures
        match r {
            Some(text) => span_words(
                SERVER_START_MS as int,
                now_secs as int,
                now_nanos as int,
                AGE_ITEMS as int,
                Seq::empty(),
            ) == Some(text@),
            None => span_words(
                SERVER_START_MS as int,
                now_secs as int,
                now_nanos as int,
                AGE_ITEMS as int,
                Seq::empty(),
            ) is None,
        },
{
    proof {
        reveal_strlit("");
        assert(""@ =~= Seq::<char>::empty());
    }
    span_in_words(SERVER_START_MS, now_secs, now_nanos, AGE_ITEMS, "")
}

} // verus!
