use dns_zonefile::number::{decimal, parse_u16, parse_u32, parse_u8};
use dns_zonefile::text::{
    append_chars, chars_eq, copy_chars, from_chars, is_blank, is_whitespace, join_from, lines,
    matches_at, push_str, replace, replace_first, split_whitespace, to_chars,
};

fn cs(text: &str) -> Vec<char> {
    text.chars().collect()
}

fn st(chars: &[char]) -> String {
    chars.iter().collect()
}

fn strings(parts: &[Vec<char>]) -> Vec<String> {
    parts.iter().map(|p| st(p)).collect()
}

const SAMPLES: [&str; 14] = [
    "",
    "\n",
    "a",
    "a\n",
    "a\nb",
    "a\r\nb\r\n",
    "a\r",
    "a\r\r\n",
    "\r\n",
    "\n\n",
    "  a \t b\u{a0}c\u{3000}d  ",
    "foo\r\nbar\n\nbaz\r",
    "one two\tthree\nfour",
    "\u{2028}x\u{85}y",
];

#[test]
fn whitespace_is_what_std_calls_whitespace() {
    let mut n: u32 = 0;
    while n <= 0x10FFFF {
        if let Some(c) = char::from_u32(n) {
            assert_eq!(is_whitespace(c), c.is_whitespace(), "code point {:#x}", n);
        }
        n += 1;
    }
}

#[test]
fn chars_and_strings_convert_both_ways() {
    for sample in SAMPLES {
        assert_eq!(to_chars(sample), cs(sample));
        assert_eq!(from_chars(&cs(sample)), sample);
    }
    assert_eq!(to_chars("h\u{e9}llo"), vec!['h', '\u{e9}', 'l', 'l', 'o']);
}

#[test]
fn appending_and_copying() {
    let mut out = cs("ab");
    append_chars(&mut out, &cs("cd"));
    assert_eq!(st(&out), "abcd");
    push_str(&mut out, "ef");
    assert_eq!(st(&out), "abcdef");
    assert_eq!(copy_chars(&cs("xyz")), cs("xyz"));
    assert!(chars_eq(&cs("abc"), &cs("abc")));
    assert!(!chars_eq(&cs("abc"), &cs("abd")));
    assert!(!chars_eq(&cs("abc"), &cs("ab")));
    assert!(chars_eq(&[], &[]));
}

#[test]
fn lines_are_what_std_calls_lines() {
    for sample in SAMPLES {
        let expected: Vec<String> = sample.lines().map(|l| l.to_string()).collect();
        assert_eq!(strings(&lines(&cs(sample))), expected, "text {:?}", sample);
    }
}

#[test]
fn lines_keep_a_last_carriage_return() {
    assert_eq!(strings(&lines(&cs("foo\r\nbar\n\nbaz\r"))), vec!["foo", "bar", "", "baz\r"]);
    assert_eq!(lines(&cs("")).len(), 0);
    assert_eq!(strings(&lines(&cs("\n"))), vec![""]);
}

#[test]
fn words_are_what_std_splits_at_whitespace() {
    for sample in SAMPLES {
        let expected: Vec<String> = sample.split_whitespace().map(|l| l.to_string()).collect();
        assert_eq!(strings(&split_whitespace(&cs(sample))), expected, "text {:?}", sample);
    }
    assert_eq!(strings(&split_whitespace(&cs(" \"a b\"  c "))), vec!["\"a", "b\"", "c"]);
}

#[test]
fn blank_means_all_whitespace() {
    assert!(is_blank(&cs("")));
    assert!(is_blank(&cs(" \t\r\n\u{a0}")));
    assert!(!is_blank(&cs("  x ")));
}

#[test]
fn matching_at_a_position() {
    let text = cs("hello world");
    assert!(matches_at(&text, 0, &cs("hello")));
    assert!(matches_at(&text, 6, &cs("world")));
    assert!(!matches_at(&text, 7, &cs("world")));
    assert!(!matches_at(&text, 1, &cs("hello")));
    assert!(matches_at(&text, 11, &cs("")));
    assert!(matches_at(&text, 3, &cs("")));
}

#[test]
fn replace_is_what_std_replaces() {
    let cases = [
        ("", "", "x"),
        ("ab", "", "-"),
        ("", "a", "x"),
        ("aaa", "aa", "b"),
        ("{ns}\n{ns}", "{ns}", "line\n"),
        ("abcabc", "bc", ""),
        ("abc", "abcd", "x"),
        ("a{a}{aa}", "{a}", "{aa}"),
        ("xxabxx", "ab", "abab"),
    ];
    for (text, from, to) in cases {
        assert_eq!(
            st(&replace(&cs(text), &cs(from), &cs(to))),
            text.replace(from, to),
            "{:?} {:?} {:?}",
            text,
            from,
            to
        );
    }
    assert_eq!(st(&replace(&cs("aaa"), &cs("aa"), &cs("b"))), "ba");
    assert_eq!(st(&replace(&cs("ab"), &cs(""), &cs("-"))), "-a-b-");
}

#[test]
fn replace_first_is_what_std_replaces_once() {
    let cases = [
        ("", "", "x"),
        ("ab", "", "-"),
        ("", "a", "x"),
        ("aaa", "aa", "b"),
        ("abcabc", "bc", "X"),
        ("abc", "abcd", "x"),
        ("xxabxxab", "ab", ""),
    ];
    for (text, from, to) in cases {
        assert_eq!(
            st(&replace_first(&cs(text), &cs(from), &cs(to))),
            text.replacen(from, to, 1),
            "{:?} {:?} {:?}",
            text,
            from,
            to
        );
    }
    assert_eq!(st(&replace_first(&cs("abcabc"), &cs("bc"), &cs("X"))), "aXabc");
}

#[test]
fn joining_from_an_index() {
    let parts = vec![cs("a"), cs("b c"), cs(""), cs("d")];
    assert_eq!(st(&join_from(&parts, 0, &cs(" "))), "a b c  d");
    assert_eq!(st(&join_from(&parts, 1, &cs(", "))), "b c, , d");
    assert_eq!(st(&join_from(&parts, 3, &cs(" "))), "d");
    assert_eq!(st(&join_from(&parts, 4, &cs(" "))), "");
}

#[test]
fn numbers_parse_as_std_parses_them() {
    let cases = [
        "", "+", "-", "0", "+0", "-0", "7", "+5", "-1", "00012", "1a", " 1", "1 ", "4294967295",
        "4294967296", "+4294967295", "99999999999999999999999", "65535", "65536", "255", "256",
        "++1", "1+", "\u{661}", "3600",
    ];
    for case in cases {
        assert_eq!(parse_u32(&cs(case)), case.parse::<u32>().ok(), "token {:?}", case);
        assert_eq!(parse_u16(&cs(case)), case.parse::<u16>().ok(), "token {:?}", case);
        assert_eq!(parse_u8(&cs(case)), case.parse::<u8>().ok(), "token {:?}", case);
    }
    assert_eq!(parse_u32(&cs("4294967295")), Some(4294967295));
    assert_eq!(parse_u32(&cs("4294967296")), None);
    assert_eq!(parse_u16(&cs("65535")), Some(65535));
    assert_eq!(parse_u16(&cs("65536")), None);
    assert_eq!(parse_u8(&cs("255")), Some(255));
    assert_eq!(parse_u8(&cs("256")), None);
    assert_eq!(parse_u32(&cs("+5")), Some(5));
}

#[test]
fn numerals_are_what_std_writes() {
    for n in [0u64, 1, 9, 10, 11, 99, 100, 3600, 65535, 4294967295, u64::MAX] {
        assert_eq!(st(&decimal(n)), n.to_string());
    }
}

#[test]
fn a_numeral_denotes_its_number() {
    for n in [0u32, 7, 10, 300, 86400, 1406291485, u32::MAX] {
        assert_eq!(parse_u32(&decimal(n as u64)), Some(n));
    }
}
