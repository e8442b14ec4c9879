//! Text primitives, held against those of the standard library.
use vibe_kanban::text::{
    chars_of, compact, contains, is_after, is_blank, is_whitespace, join, parse_i64, parse_u64,
    push_decimal, push_signed, same_ignoring_case, same_text, split_lines, split_pieces,
    split_words, starts_with, take_chars, to_lower, to_upper, trim, trim_char, trim_end_text,
};

const SAMPLES: [&str; 12] = [
    "",
    " ",
    "plain",
    "  two words\t",
    "\u{a0}\u{3000}wide\u{2003}space\u{85}",
    "line one\nline two\r\nline three",
    "trailing newline\n",
    "\r\n",
    "bare\rreturn",
    "Grüße, WELT",
    "/owner/repo/",
    "İstanbul ß ﬁ",
];

#[test]
fn whitespace_is_that_of_the_standard_library() {
    for code in 0..=0x10ffffu32 {
        if let Some(c) = char::from_u32(code) {
            assert_eq!(is_whitespace(c), c.is_whitespace(), "code point {code:x}");
        }
    }
}

#[test]
fn texts_are_trimmed_and_split_as_in_the_standard_library() {
    for text in SAMPLES {
        assert_eq!(trim(text), text.trim());
        assert_eq!(is_blank(text), text.trim().is_empty());
        assert_eq!(trim_char(text, '/'), text.trim_matches('/'));
        assert_eq!(split_words(text), text.split_whitespace().collect::<Vec<_>>());
        assert_eq!(split_lines(text), text.lines().collect::<Vec<_>>());
        assert_eq!(split_pieces(text, '/'), text.split('/').collect::<Vec<_>>());
        assert_eq!(compact(text), text.split_whitespace().collect::<Vec<_>>().join(" "));
        assert_eq!(chars_of(text), text.chars().collect::<Vec<_>>());
        assert_eq!(take_chars(text, 4), text.chars().take(4).collect::<String>());
    }
    assert_eq!(trim_end_text("a.git.git", ".git"), "a");
    assert_eq!(trim_end_text("git", ".git"), "git");
    assert_eq!(trim_end_text("a", ""), "a");
}

#[test]
fn case_and_order_are_those_of_the_standard_library() {
    for a in SAMPLES {
        assert_eq!(to_lower(a), a.to_ascii_lowercase());
        assert_eq!(to_upper(a), a.to_ascii_uppercase());
        for b in SAMPLES {
            assert_eq!(is_after(a, b), a > b);
            assert_eq!(same_text(a, b), a == b);
            assert_eq!(same_ignoring_case(a, b), a.eq_ignore_ascii_case(b));
            assert_eq!(contains(a, b), a.contains(b));
            assert_eq!(starts_with(a, b), a.starts_with(b));
        }
    }
    assert!(contains("needle in hay", "in"));
    assert!(starts_with("needle", "need"));
    assert!(is_after("b", "abc"));
}

#[test]
fn numbers_are_read_and_written_as_in_the_standard_library() {
    let texts = [
        "",
        "0",
        "7",
        "+7",
        "-7",
        "-",
        "+",
        "007",
        "18446744073709551615",
        "18446744073709551616",
        "9223372036854775807",
        "9223372036854775808",
        "-9223372036854775808",
        "-9223372036854775809",
        "12a",
        " 1",
        "٣",
    ];
    for text in texts {
        assert_eq!(parse_i64(text), text.parse::<i64>().ok(), "{text}");
        if !text.starts_with('+') {
            assert_eq!(parse_u64(text), text.parse::<u64>().ok(), "{text}");
        }
    }
    for n in [0u64, 9, 10, 12345, u64::MAX] {
        let mut text = String::from("#");
        push_decimal(&mut text, n);
        assert_eq!(text, format!("#{n}"));
    }
    for n in [0i64, -1, 42, i64::MIN, i64::MAX] {
        let mut text = String::from("#");
        push_signed(&mut text, n);
        assert_eq!(text, format!("#{n}"));
    }
}

#[test]
fn parts_are_joined_with_a_separator_between() {
    assert_eq!(join(&vec![], ", "), "");
    assert_eq!(join(&vec!["a".to_string()], ", "), "a");
    assert_eq!(join(&vec!["a".to_string(), "".to_string(), "c".to_string()], ", "), "a, , c");
}
