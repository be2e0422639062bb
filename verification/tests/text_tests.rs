use rianixia_thermalcore::text::{
    chars_of, contains, is_whitespace, lines, parse_i32, parse_i64, parse_u32, parse_u64,
    same_text, split_whitespace, starts_with, trim,
};

#[test]
fn trim_removes_ascii_and_unicode_whitespace() {
    assert_eq!(trim("  42\n"), "42");
    assert_eq!(trim("\u{3000}x y\u{a0}\t"), "x y");
    assert_eq!(trim(" \r\n "), "");
    assert_eq!(trim(""), "");
    for s in ["\u{85}a\u{2028}", "ab", " \u{200b}b ", "\u{1680}\u{205f}"] {
        assert_eq!(trim(s), s.trim());
    }
}

#[test]
fn whitespace_class_matches_std() {
    for c in ['\t', '\n', '\u{b}', '\u{c}', '\r', ' ', '\u{85}', '\u{a0}', '\u{1680}', '\u{2000}',
        '\u{200a}', '\u{2028}', '\u{2029}', '\u{202f}', '\u{205f}', '\u{3000}', 'a', '\u{200b}',
        '\u{180e}', '0', '\u{feff}']
    {
        assert_eq!(is_whitespace(c), c.is_whitespace(), "char {:?}", c);
    }
}

#[test]
fn lines_follow_std() {
    assert_eq!(lines("a\r\nb\n\nc"), vec!["a", "b", "", "c"]);
    assert_eq!(lines("a\n"), vec!["a"]);
    assert_eq!(lines("x\r"), vec!["x\r"]);
    assert_eq!(lines(""), Vec::<&str>::new());
    for s in ["\n\n", "one\r\r\ntwo", "\r\n", "cpu 1 2\nintr 5\n"] {
        assert_eq!(lines(s), s.lines().collect::<Vec<_>>());
    }
}

#[test]
fn words_follow_std() {
    assert_eq!(split_whitespace(" cpu  1 2\t3 "), vec!["cpu", "1", "2", "3"]);
    assert_eq!(split_whitespace("   "), Vec::<&str>::new());
    let s = "a\u{3000}b\u{85}\u{85}c";
    assert_eq!(split_whitespace(s), s.split_whitespace().collect::<Vec<_>>());
}

#[test]
fn unsigned_parsing_matches_std() {
    assert_eq!(parse_u64("+7"), Some(7));
    assert_eq!(parse_u64("18446744073709551615"), Some(u64::MAX));
    assert_eq!(parse_u64("18446744073709551616"), None);
    for s in ["", "+", "-", "-0", "007", "1 2", "12a", "99999999999999999999999", "٣"] {
        assert_eq!(parse_u64(s), s.parse::<u64>().ok(), "text {:?}", s);
        assert_eq!(parse_u32(s), s.parse::<u32>().ok(), "text {:?}", s);
    }
    assert_eq!(parse_u32("4294967295"), Some(u32::MAX));
    assert_eq!(parse_u32("4294967296"), None);
}

#[test]
fn signed_parsing_matches_std() {
    assert_eq!(parse_i32("-2147483648"), Some(i32::MIN));
    assert_eq!(parse_i32("2147483648"), None);
    assert_eq!(parse_i32("-"), None);
    assert_eq!(parse_i32("+15"), Some(15));
    assert_eq!(parse_i64("-9223372036854775808"), Some(i64::MIN));
    assert_eq!(parse_i64("9223372036854775808"), None);
    for s in ["", "-0", "+-1", "--1", " 1", "-2147483649", "2147483647", "-12x"] {
        assert_eq!(parse_i32(s), s.parse::<i32>().ok(), "text {:?}", s);
        assert_eq!(parse_i64(s), s.parse::<i64>().ok(), "text {:?}", s);
    }
}

#[test]
fn searching_and_comparing() {
    assert!(contains("thermal-cpufreq-0", "cpufreq"));
    assert!(!contains("gpu", "gpus"));
    assert!(contains("abc", ""));
    assert!(starts_with("cpu0 1 2", "cpu"));
    assert!(!starts_with("cp", "cpu"));
    assert!(same_text("true", "true"));
    assert!(!same_text("true", "True"));
    assert_eq!(chars_of("añb"), vec!['a', 'ñ', 'b']);
}
