use transecho::text::{chars_of, decimal_string, is_white_space_char, join, trim};

#[test]
fn trim_removes_ascii_white_space_at_both_ends() {
    assert_eq!(trim("  hello world \n\t"), "hello world");
}

#[test]
fn trim_removes_unicode_white_space() {
    assert_eq!(trim("\u{3000}\u{A0}字幕\u{2003}\u{85}"), "字幕");
}

#[test]
fn trim_of_blank_is_empty() {
    assert_eq!(trim(" \r\n\u{2028} "), "");
    assert_eq!(trim(""), "");
}

#[test]
fn trim_keeps_inner_white_space() {
    assert_eq!(trim("a  b"), "a  b");
}

#[test]
fn trim_twice_is_trim_once() {
    let once = trim("  x y  ");
    assert_eq!(trim(once), once);
}

#[test]
fn white_space_classification() {
    for c in ['\t', '\n', '\u{0B}', '\u{0C}', '\r', ' ', '\u{85}', '\u{A0}', '\u{1680}', '\u{2000}', '\u{200A}', '\u{2028}', '\u{2029}', '\u{202F}', '\u{205F}', '\u{3000}'] {
        assert!(is_white_space_char(c), "{:?}", c);
        assert_eq!(is_white_space_char(c), c.is_whitespace());
    }
    for c in ['a', '0', '\u{200B}', '\u{FEFF}', '\u{1F600}', '-'] {
        assert!(!is_white_space_char(c), "{:?}", c);
        assert_eq!(is_white_space_char(c), c.is_whitespace());
    }
}

#[test]
fn decimal_of_zero_and_small_numbers() {
    assert_eq!(decimal_string(0), "0");
    assert_eq!(decimal_string(7), "7");
    assert_eq!(decimal_string(10), "10");
    assert_eq!(decimal_string(1700000000), "1700000000");
}

#[test]
fn decimal_of_largest_u64() {
    assert_eq!(decimal_string(u64::MAX), "18446744073709551615");
    assert_eq!(decimal_string(u64::MAX), u64::MAX.to_string());
}

#[test]
fn join_concatenates() {
    assert_eq!(join("api_failed:", "quota"), "api_failed:quota");
    assert_eq!(join("", ""), "");
}

#[test]
fn chars_of_gives_every_character() {
    assert_eq!(chars_of("aé字"), vec!['a', 'é', '字']);
    assert!(chars_of("").is_empty());
}
