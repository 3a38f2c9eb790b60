use taurus_bridge::text::{
    decimal_string, find_char, has_prefix_at, is_space_char, join_from, push_decimal, range_eq,
    same_text, skip_spaces_back_in, skip_spaces_in, split_words, to_chars, to_text, trim_bounds,
    trimmed_is, word_end_in,
};

#[test]
fn chars_and_text_convert_back_and_forth() {
    let v = to_chars("h\u{e9}llo");
    assert_eq!(v, vec!['h', '\u{e9}', 'l', 'l', 'o']);
    assert_eq!(to_text(&v, 0, 5), "h\u{e9}llo");
    assert_eq!(to_text(&v, 1, 3), "\u{e9}l");
    assert_eq!(to_text(&v, 2, 2), "");
    assert_eq!(to_chars(""), Vec::<char>::new());
}

#[test]
fn white_space_is_what_std_calls_white_space() {
    for n in 0..=0x11_0000u32 {
        if let Some(c) = char::from_u32(n) {
            assert_eq!(is_space_char(c), c.is_whitespace(), "U+{:04X}", n);
        }
    }
}

#[test]
fn find_gives_the_first_occurrence() {
    let v = to_chars("a>b>c");
    assert_eq!(find_char(&v, '>', 0), 1);
    assert_eq!(find_char(&v, '>', 1), 1);
    assert_eq!(find_char(&v, '>', 2), 3);
    assert_eq!(find_char(&v, '>', 4), 5);
    assert_eq!(find_char(&v, 'x', 0), 5);
    assert_eq!(find_char(&v, 'a', 5), 5);
}

#[test]
fn spaces_are_skipped_from_both_ends() {
    let v = to_chars("  ab \t cd \n");
    assert_eq!(skip_spaces_in(&v, 0), 2);
    assert_eq!(skip_spaces_in(&v, 4), 7);
    assert_eq!(skip_spaces_in(&v, 9), 11);
    assert_eq!(word_end_in(&v, 2), 4);
    assert_eq!(word_end_in(&v, 7), 9);
    assert_eq!(word_end_in(&v, 4), 4);
    assert_eq!(skip_spaces_back_in(&v, 11), 9);
    assert_eq!(skip_spaces_back_in(&v, 2), 0);
    assert_eq!(trim_bounds(&v), (2, 9));
    assert_eq!(trim_bounds(&to_chars(" \t ")), (3, 3));
    assert_eq!(trim_bounds(&to_chars("")), (0, 0));
    assert_eq!(trim_bounds(&to_chars("x")), (0, 1));
}

#[test]
fn words_are_split_as_std_splits_them() {
    for s in ["", "  ", "a", " a  b\tc\n", "let x = 1+2", "\u{3000}wide\u{a0}gap ", "x\u{85}y"] {
        let want: Vec<String> = s.split_whitespace().map(|w| w.to_string()).collect();
        assert_eq!(split_words(s), want, "{:?}", s);
    }
}

#[test]
fn join_puts_the_separator_between() {
    let parts = vec!["a".to_string(), "b".to_string(), "".to_string(), "c".to_string()];
    assert_eq!(join_from(&parts, 0, " "), "a b  c");
    assert_eq!(join_from(&parts, 1, ", "), "b, , c");
    assert_eq!(join_from(&parts, 3, " "), "c");
    assert_eq!(join_from(&parts, 4, " "), "");
}

#[test]
fn ranges_and_prefixes_compare_by_characters() {
    let v = to_chars("LIST_SESSIONS abc");
    assert!(range_eq(&v, 0, 4, &to_chars("LIST")));
    assert!(!range_eq(&v, 0, 5, &to_chars("LIST")));
    assert!(!range_eq(&v, 1, 5, &to_chars("LIST")));
    assert!(range_eq(&v, 3, 3, &to_chars("")));
    assert!(has_prefix_at(&v, 0, &to_chars("LIST_")));
    assert!(has_prefix_at(&v, 5, &to_chars("SESS")));
    assert!(has_prefix_at(&v, 17, &to_chars("")));
    assert!(!has_prefix_at(&v, 14, &to_chars("abcd")));
    assert!(same_text("abc", "abc"));
    assert!(!same_text("abc", "abd"));
    assert!(!same_text("abc", "ab"));
    assert!(trimmed_is("  __RECONNECT__ \n", "__RECONNECT__"));
    assert!(!trimmed_is("__RECONNECT__ x", "__RECONNECT__"));
    assert!(trimmed_is("   ", ""));
}

#[test]
fn numbers_are_written_in_decimal() {
    assert_eq!(decimal_string(0), "0");
    assert_eq!(decimal_string(7), "7");
    assert_eq!(decimal_string(10), "10");
    assert_eq!(decimal_string(1234567890), "1234567890");
    assert_eq!(decimal_string(u64::MAX), "18446744073709551615");
    let mut s = "n=".to_string();
    push_decimal(&mut s, 42);
    assert_eq!(s, "n=42");
}
