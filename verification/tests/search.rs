use taurus_bridge::score::ScoreboardName;
use taurus_bridge::search::{contains, fuzzy_match, score_autocomplete_board, search_scoreboards};

fn score_of(name: &str, term: &str) -> f64 {
    if name.starts_with(term) {
        return 1.0;
    }
    let mut matches = 0;
    for c in term.chars() {
        if name.contains(c) {
            matches += 1;
        } else {
            matches -= 1;
        }
    }
    matches as f64 / name.len() as f64
}

#[test]
fn a_name_is_like_what_it_starts_with() {
    assert!(fuzzy_match("kills", "kil"));
    assert!(fuzzy_match("kills", ""));
    assert!(fuzzy_match("", ""));
    assert!(fuzzy_match("kills", "kills"));
}

#[test]
fn a_name_is_like_a_term_that_shares_enough_characters() {
    assert!(fuzzy_match("kills", "sli"));
    assert!(fuzzy_match("kills", "slik"));
    assert!(!fuzzy_match("kills", "sl"));
    assert!(!fuzzy_match("kills", "xyz"));
    assert!(!fuzzy_match("", "a"));
    assert!(!fuzzy_match("deaths", "killsx"));
}

#[test]
fn likeness_is_what_the_ratio_says() {
    let words = ["", "a", "ab", "abc", "kills", "deaths", "ll", "slik", "d\u{e9}j\u{e0}", "\u{e9}", "aaaa", "xkx"];
    for name in words {
        for term in words {
            assert_eq!(fuzzy_match(name, term), score_of(name, term) >= 0.5, "{:?} {:?}", name, term);
        }
    }
}

#[test]
fn suggestions_keep_the_order_and_case_of_the_names() {
    let names: Vec<String> =
        ["Kills", "deaths", "KILLSTREAK", "Mined", "skill"].iter().map(|s| s.to_string()).collect();
    assert_eq!(
        score_autocomplete_board(&names, "kIl"),
        vec!["Kills".to_string(), "KILLSTREAK".to_string(), "skill".to_string()]
    );
    assert_eq!(score_autocomplete_board(&names, ""), names);
    assert_eq!(score_autocomplete_board(&names, "zzz"), Vec::<String>::new());
    assert_eq!(score_autocomplete_board(&vec![], "k"), Vec::<String>::new());
}

#[test]
fn text_holds_what_occurs_in_it() {
    let words = ["", "a", "ab", "ba", "kills", "ill", "ls", "lsx", "killss", "\u{e9}", "d\u{e9}j\u{e0}", "j\u{e0}"];
    for hay in words {
        for needle in words {
            assert_eq!(contains(hay, needle), hay.contains(needle), "{:?} {:?}", hay, needle);
        }
    }
}

#[test]
fn search_finds_the_names_that_hold_the_term() {
    let names: Vec<String> =
        ["Kills", "deaths", "KILLSTREAK", "Mined", "skill"].iter().map(|s| s.to_string()).collect();
    let found = |list: &[&str]| -> Vec<ScoreboardName> {
        list.iter().map(|n| ScoreboardName { display: n.to_string(), real: n.to_string() }).collect()
    };
    assert_eq!(search_scoreboards(&names, "KiLL"), found(&["Kills", "KILLSTREAK", "skill"]));
    assert_eq!(search_scoreboards(&names, "e"), found(&["deaths", "KILLSTREAK", "Mined"]));
    assert_eq!(search_scoreboards(&names, ""), found(&["Kills", "deaths", "KILLSTREAK", "Mined", "skill"]));
    assert_eq!(search_scoreboards(&names, "zz"), found(&[]));
}
