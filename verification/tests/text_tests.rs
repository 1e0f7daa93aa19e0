use niri_monitor::number::{number_literal, read_i32, read_u32};
use niri_monitor::text::{
    chars_of, contains, find, is_text, next_line, split_once, starts_with, string_of,
    take_between, take_first_piece, take_second_piece, trim, whitespace,
};

fn chars(s: &str) -> Vec<char> {
    s.chars().collect()
}

fn text(c: &[char]) -> String {
    c.iter().collect()
}

const SAMPLES: [&str; 16] = [
    "",
    " ",
    "abc",
    "  abc  ",
    "\t a b \r\n",
    "a: b: c",
    "aaa",
    "abababab",
    "x",
    "1920x1080 @ 60 Hz",
    "\u{a0}\u{3000}wide\u{2003}\u{85}",
    "é ü ß ″",
    ": ",
    "::  ::",
    "(a(b)c)",
    "\"q\" \"r\"",
];

const PATTERNS: [&str; 12] = ["a", "ab", "aa", ": ", " @ ", "x", "(", ")", "\"", " ", "ß", "abc"];

#[test]
fn chars_and_strings_go_both_ways() {
    for sample in SAMPLES {
        assert_eq!(chars_of(sample), chars(sample));
        assert_eq!(string_of(&chars(sample)), sample);
    }
}

#[test]
fn whitespace_is_what_the_standard_library_calls_whitespace() {
    for code in 0..=0x10FFFFu32 {
        if let Some(c) = char::from_u32(code) {
            assert_eq!(whitespace(c), c.is_whitespace(), "U+{:04X}", code);
        }
    }
}

#[test]
fn trim_is_the_trim_of_the_standard_library() {
    for sample in SAMPLES {
        assert_eq!(text(trim(&chars(sample))), sample.trim());
    }
}

#[test]
fn find_gives_the_leftmost_occurrence() {
    for sample in SAMPLES {
        for pattern in PATTERNS {
            let expected = sample.find(pattern).map(|bytes| sample[..bytes].chars().count());
            assert_eq!(find(&chars(sample), pattern), expected, "{:?} in {:?}", pattern, sample);
            assert_eq!(contains(&chars(sample), pattern), sample.contains(pattern));
            assert_eq!(starts_with(&chars(sample), pattern), sample.starts_with(pattern));
            assert_eq!(is_text(&chars(sample), pattern), sample == pattern);
        }
    }
    assert_eq!(find(&chars("abcabc"), "bc"), Some(1));
    assert_eq!(find(&chars("abc"), ""), Some(0));
    assert_eq!(find(&chars(""), ""), Some(0));
    assert_eq!(find(&chars("ab"), "abc"), None);
}

#[test]
fn pieces_are_those_of_split() {
    for sample in SAMPLES {
        for pattern in PATTERNS {
            let c = chars(sample);
            let once = split_once(&c, pattern).map(|(a, b)| (text(a), text(b)));
            let expected = sample.split_once(pattern).map(|(a, b)| (a.to_string(), b.to_string()));
            assert_eq!(once, expected);
            assert_eq!(text(take_first_piece(&c, pattern)), sample.split(pattern).next().unwrap());
            assert_eq!(
                take_second_piece(&c, pattern).map(text),
                sample.split(pattern).nth(1).map(|s| s.to_string())
            );
        }
    }
}

#[test]
fn between_takes_the_first_opening_and_the_closing_that_follows() {
    assert_eq!(take_between(&chars("a (b) c (d)"), "(", ")").map(text), Some("b".to_string()));
    assert_eq!(take_between(&chars("(a(b)c)"), "(", ")").map(text), Some("a(b".to_string()));
    assert_eq!(take_between(&chars(") ("), "(", ")").map(text), None);
    assert_eq!(take_between(&chars("(open"), "(", ")").map(text), None);
    assert_eq!(take_between(&chars("none"), "(", ")").map(text), None);
    assert_eq!(take_between(&chars("\"q\" \"r\""), "\"", "\"").map(text), Some("q".to_string()));
    assert_eq!(take_between(&chars("\"q"), "\"", "\"").map(text), None);
    assert_eq!(take_between(&chars("()"), "(", ")").map(text), Some(String::new()));
}

fn lines_by_next_line(s: &str) -> Vec<String> {
    let all = chars(s);
    let mut rest: &[char] = &all;
    let mut lines = Vec::new();
    while let Some((line, tail)) = next_line(rest) {
        assert!(tail.len() < rest.len());
        lines.push(text(line));
        rest = tail;
    }
    assert!(rest.is_empty());
    lines
}

#[test]
fn lines_are_the_lines_of_the_standard_library() {
    let samples = [
        "", "\n", "\n\n", "a", "a\n", "a\nb", "a\n\nb\n", "a\r\nb\r\n", "a\rb\n", "a\r", "\r\n",
        "\r", "a\r\r\nb", "one\ntwo\nthree", "\n\r\n\n",
    ];
    for sample in samples {
        let expected: Vec<String> = sample.lines().map(|l| l.to_string()).collect();
        assert_eq!(lines_by_next_line(sample), expected, "{:?}", sample);
    }
}

#[test]
fn whole_numbers() {
    assert_eq!(read_u32(&chars("0")), Some(0));
    assert_eq!(read_u32(&chars("4294967295")), Some(u32::MAX));
    assert_eq!(read_u32(&chars("4294967296")), None);
    assert_eq!(read_u32(&chars("-1")), None);
    assert_eq!(read_u32(&chars("+12")), Some(12));
    assert_eq!(read_i32(&chars("-2147483648")), Some(i32::MIN));
    assert_eq!(read_i32(&chars("2147483647")), Some(i32::MAX));
    assert_eq!(read_i32(&chars("2147483648")), None);
    assert_eq!(read_i32(&chars("-100")), Some(-100));
    assert_eq!(read_i32(&chars("-")), None);
}

#[test]
fn number_literals() {
    assert!(number_literal(&chars("144.001")));
    assert!(number_literal(&chars("1")));
    assert!(number_literal(&chars("-1.5e-3")));
    assert!(number_literal(&chars("NaN")));
    assert!(number_literal(&chars("+Infinity")));
    assert!(!number_literal(&chars("")));
    assert!(!number_literal(&chars(".")));
    assert!(!number_literal(&chars("1 Hz")));
    assert!(!number_literal(&chars("e3")));
}
