use scrobcord::text::{
    chars_of, parse_i64, parse_u32, parse_u64, replace_chars, str_eq, starts_with, trim_chars,
    u64_to_string,
};

const NUMBERS: &[&str] = &[
    "", "0", "7", "+7", "-7", "+", "-", "007", "42a", " 1", "1 ", "4294967295", "4294967296",
    "18446744073709551615", "18446744073709551616", "9223372036854775807",
    "9223372036854775808", "-9223372036854775808", "-9223372036854775809", "-0", "+-1",
    "１", "99999999999999999999999x", "1742600400",
];

#[test]
fn parse_u32_matches_std() {
    for s in NUMBERS {
        assert_eq!(parse_u32(s), s.parse::<u32>().ok(), "{:?}", s);
    }
}

#[test]
fn parse_u64_matches_std() {
    for s in NUMBERS {
        assert_eq!(parse_u64(s), s.parse::<u64>().ok(), "{:?}", s);
    }
}

#[test]
fn parse_i64_matches_std() {
    for s in NUMBERS {
        assert_eq!(parse_i64(s), s.parse::<i64>().ok(), "{:?}", s);
    }
}

#[test]
fn decimal_text_matches_std() {
    for n in [0u64, 1, 9, 10, 99, 100, 65536, 4294967295, u64::MAX] {
        assert_eq!(u64_to_string(n), n.to_string());
    }
}

#[test]
fn trim_matches_std() {
    for s in [
        "", "  ", "a", " a ", "\t\nab c\r\n", "\u{3000}全角\u{3000}", "\u{a0}x\u{2028}",
        "\u{200b}zero width\u{200b}", "\u{85}y\u{205f}",
    ] {
        let v = chars_of(s);
        let t: String = trim_chars(&v).into_iter().collect();
        assert_eq!(t, s.trim(), "{:?}", s);
    }
}

#[test]
fn replace_matches_std() {
    let cases = [
        ("{track} - {track}", "{track}", "X"),
        ("{{track}}", "{track}", "{track}"),
        ("aaa", "aa", "b"),
        ("", "{album}", "A"),
        ("no placeholder", "{artist}", "B"),
    ];
    for (s, p, r) in cases {
        let out: String = replace_chars(&chars_of(s), &chars_of(p), &chars_of(r))
            .into_iter()
            .collect();
        assert_eq!(out, s.replace(p, r), "{:?}", s);
    }
}

#[test]
fn prefix_and_equality() {
    assert!(starts_with("https://github.com/x", "https://github.com/"));
    assert!(!starts_with("https://github.co", "https://github.com/"));
    assert!(starts_with("abc", ""));
    assert!(str_eq("日本", "日本"));
    assert!(!str_eq("日本", "日本語"));
}
