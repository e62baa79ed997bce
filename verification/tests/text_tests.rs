use twitch_reader::text::{
    i64_to_string, is_blank, parse_usize, remove_white, replace_str, split_once_comma, str_equal,
    trim, u64_to_string,
};

#[test]
fn trim_removes_white_space_at_both_ends() {
    assert_eq!(trim("  a b \t\n"), "a b");
    assert_eq!(trim("\u{3000}全角\u{3000}"), "全角");
    assert_eq!(trim("   "), "");
    assert_eq!(trim(""), "");
}

#[test]
fn trim_twice_is_once() {
    let once = trim(" \t x y \n");
    assert_eq!(trim(&once), once);
}

#[test]
fn blank_is_only_white_space() {
    assert!(is_blank(""));
    assert!(is_blank(" \t\r\n\u{3000}"));
    assert!(!is_blank(" a "));
}

#[test]
fn remove_white_drops_every_white_space() {
    assert_eq!(remove_white(" a b\tc\nd\u{3000}e "), "abcde");
}

#[test]
fn decimal_rendering() {
    assert_eq!(u64_to_string(0), "0");
    assert_eq!(u64_to_string(2578), "2578");
    assert_eq!(u64_to_string(u64::MAX), "18446744073709551615");
    assert_eq!(i64_to_string(-42), "-42");
    assert_eq!(i64_to_string(i64::MIN), "-9223372036854775808");
    assert_eq!(i64_to_string(7), "7");
}

#[test]
fn parse_usize_accepts_digits() {
    assert_eq!(parse_usize("100"), Some(100));
    assert_eq!(parse_usize("+7"), Some(7));
    assert_eq!(parse_usize("007"), Some(7));
}

#[test]
fn parse_usize_rejects_other_text() {
    assert_eq!(parse_usize(""), None);
    assert_eq!(parse_usize("+"), None);
    assert_eq!(parse_usize("-1"), None);
    assert_eq!(parse_usize(" 1"), None);
    assert_eq!(parse_usize("1a"), None);
    assert_eq!(parse_usize("99999999999999999999999"), None);
}

#[test]
fn parse_usize_agrees_with_std() {
    for s in ["0", "12", "+3", "x", "", "18446744073709551615", "18446744073709551616"] {
        assert_eq!(parse_usize(s), s.parse::<usize>().ok(), "{}", s);
    }
}

#[test]
fn replace_str_replaces_every_occurrence() {
    assert_eq!(replace_str("a__X__b__X__", "__X__", "!"), "a!b!");
    assert_eq!(replace_str("aaa", "aa", "b"), "ba");
    assert_eq!(replace_str("none", "zz", "y"), "none");
}

#[test]
fn split_once_comma_splits_at_first_comma() {
    assert_eq!(split_once_comma("a,b,c"), Some(("a".to_string(), "b,c".to_string())));
    assert_eq!(split_once_comma(",x"), Some(("".to_string(), "x".to_string())));
    assert_eq!(split_once_comma("abc"), None);
}

#[test]
fn str_equal_compares_contents() {
    assert!(str_equal("quit", "quit"));
    assert!(!str_equal("quit", "q"));
}

#[test]
fn trim_and_blank_agree_with_std() {
    let samples = [
        " a ", "\u{85}x\u{A0}", "\u{1680}\u{2000}\u{200A}y\u{2028}\u{2029}\u{202F}\u{205F}",
        "\u{200B}z\u{200B}", "\u{FEFF}w", "\t\n\u{B}\u{C}\r", "全角\u{3000}",
    ];
    for s in samples {
        assert_eq!(trim(s), s.trim(), "{:?}", s);
        assert_eq!(is_blank(s), s.trim().is_empty(), "{:?}", s);
        assert_eq!(remove_white(s), s.split_whitespace().collect::<String>(), "{:?}", s);
    }
}
