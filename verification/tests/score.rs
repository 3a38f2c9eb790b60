use taurus_bridge::score::{
    abs_of, build_search_results, format_with_spaces, push_signed, score_reply, sort_by_real_name,
    text_less, unescape_board, BoardLookup, ScoreboardName,
};

fn name(display: &str, real: &str) -> ScoreboardName {
    ScoreboardName { display: display.to_string(), real: real.to_string() }
}

fn entry(display: &str, real: &str) -> String {
    format!(
        "{{\"text\":\"  {display}\",\"color\":\"blue\",\"clickEvent\":{{\"action\":\"suggest_command\",\"value\":\"/scoreboardPublic objectives setdisplay sidebar {real}\"}},\"hoverEvent\":{{\"action\":\"show_text\",\"value\":[{{\"text\":\"{real}\"}}]}}}}"
    )
}

const HEADING: &str = "{\"text\":\"Search results:\\n\", \"bold\": true, \"color\":\"dark_blue\"}";

#[test]
fn digits_are_grouped_in_threes() {
    assert_eq!(format_with_spaces(0), "0");
    assert_eq!(format_with_spaces(7), "7");
    assert_eq!(format_with_spaces(999), "999");
    assert_eq!(format_with_spaces(1000), "1 000");
    assert_eq!(format_with_spaces(12345), "12 345");
    assert_eq!(format_with_spaces(123456), "123 456");
    assert_eq!(format_with_spaces(1230000), "1 230 000");
    assert_eq!(format_with_spaces(-1), "-1");
    assert_eq!(format_with_spaces(-1234567), "-1 234 567");
    assert_eq!(format_with_spaces(i64::MAX), "9 223 372 036 854 775 807");
    assert_eq!(format_with_spaces(i64::MIN), "-9 223 372 036 854 775 808");
}

#[test]
fn signed_numbers_are_written_with_their_sign() {
    assert_eq!(abs_of(0), 0);
    assert_eq!(abs_of(-5), 5);
    assert_eq!(abs_of(i64::MIN), 1u64 << 63);
    for n in [0i64, 1, -1, 42, -1000, i64::MAX, i64::MIN] {
        let mut s = String::new();
        push_signed(&mut s, n);
        assert_eq!(s, n.to_string());
    }
}

#[test]
fn strings_are_ordered_as_std_orders_them() {
    let words = ["", "a", "A", "ab", "b", "aa", "\u{e9}", "z", "\u{1f600}", "a\u{e9}", "Kills"];
    for a in words {
        for b in words {
            assert_eq!(text_less(a, b), a < b, "{:?} {:?}", a, b);
        }
    }
}

#[test]
fn names_are_sorted_by_their_real_names() {
    let names = vec![name("Z", "zeta"), name("A2", "alpha"), name("M", "mu"), name("A1", "alpha")];
    let mut want = names.clone();
    want.sort_by(|a, b| a.real.cmp(&b.real));
    assert_eq!(sort_by_real_name(names), want);
    assert_eq!(want[0], name("A2", "alpha"));
    assert_eq!(want[1], name("A1", "alpha"));
}

#[test]
fn search_results_list_at_most_max_entries() {
    assert_eq!(build_search_results(vec![], 5), format!("[{HEADING}]"));
    assert_eq!(
        build_search_results(vec![name("Kills", "kills")], 5),
        format!("[{HEADING},{}]", entry("Kills", "kills"))
    );
    assert_eq!(
        build_search_results(vec![name("A", "a"), name("B", "b"), name("C", "c")], 2),
        format!("[{HEADING},{},{}]", entry("A\n", "a"), entry("B", "b"))
    );
    assert_eq!(
        build_search_results(vec![name("A", "a"), name("B", "b")], 5),
        format!("[{HEADING},{},{}]", entry("A\n", "a"), entry("B", "b"))
    );
    assert_eq!(build_search_results(vec![name("A", "a")], 0), format!("[{HEADING}]"));
}

#[test]
fn escaped_underscores_are_made_plain() {
    assert_eq!(unescape_board("k\\_d"), "k_d");
    assert_eq!(unescape_board("a\\_b\\_c"), "a_b_c");
    assert_eq!(unescape_board("a_b"), "a_b");
    assert_eq!(unescape_board("a\\\\_b"), "a\\_b");
    assert_eq!(unescape_board("a\\"), "a\\");
    assert_eq!(unescape_board("\\_"), "_");
    assert_eq!(unescape_board(""), "");
    for s in ["x\\_\\_y", "\\\\\\_", "_\\", "\\_\\"] {
        assert_eq!(unescape_board(s), s.replace("\\_", "_"), "{:?}", s);
    }
}

#[test]
fn found_board_is_shown_on_the_sidebar() {
    assert_eq!(
        score_reply("smp", "kills", BoardLookup::Found),
        "RCON smp scoreboard objectives setdisplay sidebar kills"
    );
}

#[test]
fn missing_board_without_results_says_so() {
    assert_eq!(
        score_reply("smp", "kills", BoardLookup::Missing(vec![])),
        "RCON smp tellraw @a {{\"text\":\"No search results\", \"bold\": true, \"color\":\"dark_blue\"}}"
    );
}

#[test]
fn missing_board_lists_five_results_by_name() {
    let near = vec![
        name("F", "f"),
        name("B", "b"),
        name("E", "e"),
        name("A", "a"),
        name("D", "d"),
        name("C", "c"),
    ];
    let want = format!(
        "RCON cmp tellraw @a [{HEADING},{},{},{},{},{}]",
        entry("A\n", "a"),
        entry("B\n", "b"),
        entry("C\n", "c"),
        entry("D\n", "d"),
        entry("E", "e")
    );
    assert_eq!(score_reply("cmp", "x", BoardLookup::Missing(near)), want);
}
