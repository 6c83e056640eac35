use neardesk::number;
use neardesk::search;
use neardesk::text;

#[test]
fn white_space_is_what_the_standard_library_trims() {
    for u in 0..=0x10ffffu32 {
        if let Some(c) = char::from_u32(u) {
            assert_eq!(text::white_space(c), c.is_whitespace(), "{u:x}");
        }
    }
}

#[test]
fn trim_takes_white_space_off_both_ends() {
    assert_eq!(text::trim("  \t a b \r\n"), "a b");
    assert_eq!(text::trim("\u{3000}\u{e9}\u{a0}"), "\u{e9}");
    assert_eq!(text::trim(" \n "), "");
    assert_eq!(text::trim(""), "");
}

#[test]
fn lines_end_at_line_feeds() {
    for s in [
        "", "\n", "a", "a\n", "a\nb", "a\r\nb\r\n", "\r\n\r\n", "a\r", "\n\na", "a\r\r\nb",
    ] {
        let expected: Vec<&str> = s.lines().collect();
        assert_eq!(text::lines(s), expected, "{s:?}");
    }
}

#[test]
fn words_are_separated_by_white_space() {
    for s in ["", "  ", "a", " a  b\tc ", "one\u{a0}two", "\u{e9} \u{e8}"] {
        let expected: Vec<&str> = s.split_whitespace().collect();
        assert_eq!(text::words(s), expected, "{s:?}");
    }
}

#[test]
fn split_once_splits_at_the_first() {
    assert_eq!(text::split_once("a=b=c", '='), Some(("a", "b=c")));
    assert_eq!(text::split_once("=", '='), Some(("", "")));
    assert_eq!(text::split_once("abc", '='), None);
}

#[test]
fn invalid_utf8_is_replaced() {
    assert_eq!(text::decode(b"plain \xc3\xa9"), "plain \u{e9}");
    assert_eq!(text::decode(b"a\xffb"), "a\u{fffd}b");
    assert_eq!(text::decode(b""), "");
}

#[test]
fn lower_case_is_unicode_lower_case() {
    assert_eq!(search::lower("ALREADY a Member"), "already a member");
    assert_eq!(search::lower("\u{c4}RGER"), "\u{e4}rger");
}

#[test]
fn ignoring_case_is_for_ascii_only() {
    assert!(search::equal_ignoring_case("NearDesk", "neardesk"));
    assert!(!search::equal_ignoring_case("neardesk1", "neardesk"));
    assert!(!search::equal_ignoring_case("\u{c4}", "\u{e4}"));
    assert!(!search::equal_ignoring_case("[", "{"));
    assert!(!search::equal_ignoring_case("@", "`"));
}

#[test]
fn prefixes_and_suffixes_come_off() {
    assert_eq!(search::strip_prefix("user.pc", "user."), Some("pc"));
    assert_eq!(search::strip_prefix("user", "user."), None);
    assert_eq!(search::trim_end_matches("a.local.local", ".local"), "a");
    assert_eq!(search::trim_end_matches("a", ".local"), "a");
    assert_eq!(search::trim_end_char("a...", '.'), "a");
    assert_eq!(search::trim_matches("\"\"a\"b\"", '"'), "a\"b");
    assert_eq!(search::trim_matches("\"\"", '"'), "");
}

#[test]
fn texts_are_found_and_replaced() {
    assert!(search::contains("is already a member of", "already a member"));
    assert!(search::contains("x", ""));
    assert!(!search::contains("", "x"));
    assert_eq!(search::replace_first("aXbX", "X", "yy"), "ayybX");
    assert_eq!(search::replace_first("ab", "X", "y"), "ab");
    assert_eq!(search::replace_char("1.2.3", '.', "_"), "1_2_3");
    assert_eq!(search::join_from(&vec!["a", "b", "c"], 1, " "), "b c");
    assert_eq!(search::join_from(&vec!["a"], 1, " "), "");
}

#[test]
fn decimal_reads_back() {
    for n in [0u32, 1, 9, 10, 255, 3389, 22631, u32::MAX - 1, u32::MAX] {
        let s = number::to_decimal(n as u64);
        assert_eq!(s, n.to_string());
        assert_eq!(number::parse(&s, 10), Some(n));
    }
    assert_eq!(number::to_decimal(u64::MAX), u64::MAX.to_string());
}

#[test]
fn numbers_are_read_as_the_standard_library_reads_them() {
    for s in [
        "", "+", "-", "-1", "-0", "+7", "007", "12a", "4294967295", "4294967296", "ff", "FF", "+ff",
        "0x1", " 1", "\u{661}",
    ] {
        assert_eq!(number::parse(s, 10), s.parse::<u32>().ok(), "{s:?}");
        assert_eq!(number::parse(s, 16), u32::from_str_radix(s, 16).ok(), "{s:?}");
    }
}
