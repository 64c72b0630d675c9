use lucky_wol_agent::text::{
    before_char, blank, chars_of, contains, find, first_chars, join, number_text, same, skip_chars,
    starts_with, to_lower, trim, trim_end_char, truth_text, white_space,
};

#[test]
fn white_space_is_that_of_unicode() {
    let mut n: u32 = 0;
    while n <= 0x10ffff {
        if let Some(c) = char::from_u32(n) {
            assert_eq!(white_space(c), c.is_whitespace());
        }
        n += 1;
    }
}

#[test]
fn trimming_takes_white_space_off_both_ends() {
    for text in ["", " ", "a", "  a b\t", "\u{a0}x\u{2003}", "\u{200b}x", "日 本\u{3000}", "\u{feff} "] {
        assert_eq!(trim(text), text.trim());
        assert_eq!(trim(trim(text)), text.trim());
        assert_eq!(blank(text), text.trim().is_empty());
    }
}

#[test]
fn characters_come_one_by_one() {
    assert_eq!(chars_of("a日\u{10348}"), vec!['a', '日', '\u{10348}']);
    assert_eq!(chars_of(""), Vec::<char>::new());
}

#[test]
fn parts_of_a_text() {
    assert!(same("日本", "日本"));
    assert!(!same("日本", "日"));
    assert!(starts_with("日本語", "日本"));
    assert!(!starts_with("日", "日本"));
    assert!(starts_with("x", ""));
    assert_eq!(skip_chars("日本語", 1), "本語");
    assert_eq!(first_chars("日本語", 2), "日本");
    assert_eq!(first_chars("日本語", 9), "日本語");
    assert_eq!(before_char("host/path/x", '/'), "host");
    assert_eq!(before_char("host", '/'), "host");
    assert_eq!(before_char("/x", '/'), "");
    assert_eq!(trim_end_char("ws://", '/'), "ws:");
    assert_eq!(trim_end_char("///", '/'), "");
    assert_eq!(trim_end_char("a/b", '/'), "a/b");
    assert_eq!(join("日", "本"), "日本");
}

#[test]
fn patterns_are_found_where_they_first_stand() {
    assert_eq!(find("a://b://c", "://"), Some(1));
    assert_eq!(find("日日本", "日本"), Some(1));
    assert_eq!(find("aab", "ab"), Some(1));
    assert_eq!(find("ab", "abc"), None);
    assert_eq!(find("abc", "x"), None);
    assert_eq!(find("abc", ""), Some(0));
    assert!(contains("systemctl suspend", "suspend"));
    assert!(!contains("systemctl", "suspend"));
}

#[test]
fn only_ascii_capitals_are_lowered() {
    assert_eq!(to_lower("SetSuspendState [Z@] ÄÉ"), "setsuspendstate [z@] ÄÉ");
}

#[test]
fn numbers_are_written_in_decimal() {
    for n in [0i128, 9, 10, 101, -1, -10, i64::MAX as i128, i64::MIN as i128, i128::MAX, i128::MIN + 1] {
        assert_eq!(number_text(n), n.to_string());
    }
    assert_eq!(truth_text(true), "true");
    assert_eq!(truth_text(false), "false");
}
