use wings_rs::text::{
    chars_of, is_whitespace_char, push_char, replace_all, str_is_blank, string_of, trim,
    trim_end_matches_char, trim_start_matches,
};
use wings_rs::{is_valid_utf8_slice, likely, unlikely};

#[test]
fn utf8_slice_whole_text_is_valid() {
    assert!(is_valid_utf8_slice(b"hello world"));
}

#[test]
fn utf8_slice_empty_is_not_valid() {
    assert!(!is_valid_utf8_slice(b""));
}

#[test]
fn utf8_slice_cut_inside_character_is_valid() {
    let text = "a\u{20ac}".as_bytes();
    assert_eq!(text.len(), 4);
    assert!(is_valid_utf8_slice(&text[..3]));
    assert!(is_valid_utf8_slice(&text[..2]));
}

#[test]
fn utf8_slice_lone_lead_byte_is_not_valid() {
    assert!(!is_valid_utf8_slice(&[0xC3]));
}

#[test]
fn utf8_slice_bad_byte_early_is_not_valid() {
    assert!(!is_valid_utf8_slice(&[0xFF, b'a', b'b', b'c', b'd']));
}

#[test]
fn utf8_slice_only_last_four_bytes_are_dropped() {
    let mut bytes = b"abc".to_vec();
    bytes.extend_from_slice(&[0xFF, 0xFF, 0xFF, 0xFF]);
    assert!(!is_valid_utf8_slice(&bytes));
    bytes.pop();
    assert!(is_valid_utf8_slice(&bytes));
}

#[test]
fn likely_and_unlikely_return_their_argument() {
    assert!(likely(true));
    assert!(!likely(false));
    assert!(unlikely(true));
    assert!(!unlikely(false));
}

#[test]
fn whitespace_matches_std() {
    for c in ['\t', '\n', ' ', '\u{85}', '\u{a0}', '\u{2003}', '\u{3000}', 'a', '0', '\u{200b}', '\u{feff}'] {
        assert_eq!(is_whitespace_char(c), c.is_whitespace(), "{:?}", c);
    }
}

#[test]
fn chars_round_trip() {
    let v = chars_of("h\u{e9}llo");
    assert_eq!(v, vec!['h', '\u{e9}', 'l', 'l', 'o']);
    assert_eq!(string_of(&v), "h\u{e9}llo");
    let mut s = String::from("ab");
    push_char(&mut s, '\u{20ac}');
    assert_eq!(s, "ab\u{20ac}");
}

#[test]
fn blank_lines() {
    assert!(str_is_blank(""));
    assert!(str_is_blank(" \t\r\n"));
    assert!(!str_is_blank("  x \n"));
}

#[test]
fn trim_matches_std() {
    for s in ["  hello \n", "hello", "", "   ", "\u{3000}a b\u{a0}"] {
        assert_eq!(trim(s), s.trim());
    }
}

#[test]
fn trim_start_matches_repeats() {
    assert_eq!(trim_start_matches("https://https://panel", "https://"), "panel");
    assert_eq!(trim_start_matches("panel.example", "https://"), "panel.example");
    assert_eq!(trim_start_matches("abc", ""), "abc");
    assert_eq!(
        trim_start_matches("http://x", "http://"),
        "http://x".trim_start_matches("http://")
    );
}

#[test]
fn trim_end_matches_slashes() {
    assert_eq!(trim_end_matches_char("https://panel//", '/'), "https://panel");
    assert_eq!(trim_end_matches_char("///", '/'), "");
    assert_eq!(trim_end_matches_char("a/b", '/'), "a/b");
}

#[test]
fn replace_all_matches_std() {
    let cases = [
        ("one two one", "one", "1"),
        ("aaa", "aa", "b"),
        ("ab", "", "x"),
        ("", "", "x"),
        ("abc", "zz", "y"),
        ("panel.example.com:8080 panel.example.com", "panel.example.com", "{redacted}"),
    ];
    for (s, from, to) in cases {
        assert_eq!(replace_all(s, from, to), s.replace(from, to), "{:?}", (s, from, to));
    }
}

#[test]
fn trimming_twice_is_trimming_once() {
    for s in ["  a b  ", "", "\t\n", "x"] {
        let once = trim(s);
        assert_eq!(trim(&once), once);
    }
}

#[test]
fn replacing_absent_pattern_changes_nothing() {
    assert_eq!(replace_all("panel log line", "10.0.0.1", "{redacted}"), "panel log line");
}
