use camjongun::runtime::{is_blank_str, is_white_space_char};
use camjongun::text::{
    decimal_string, escape, lines_of, parse_decimal, split_chars, unescape,
};

fn chars(s: &str) -> Vec<char> {
    s.chars().collect()
}

fn texts(rows: Vec<Vec<char>>) -> Vec<String> {
    rows.into_iter().map(|r| r.into_iter().collect()).collect()
}

#[test]
fn escape_writes_separators_as_sequences() {
    assert_eq!(escape("a\tb\nc\\d"), "a\\tb\\nc\\\\d");
    assert_eq!(escape("plain"), "plain");
    assert_eq!(escape(""), "");
}

#[test]
fn unescape_reads_escape_back() {
    for s in ["Cam\tOne", "line\nbreak", "back\\slash", "\\t literal", "", "é\t\n\\"] {
        assert_eq!(unescape(&escape(s)), s);
    }
}

#[test]
fn unescape_keeps_unknown_and_trailing_backslashes() {
    assert_eq!(unescape("a\\qb"), "a\\qb");
    assert_eq!(unescape("end\\"), "end\\");
    assert_eq!(unescape("\\\\t"), "\\t");
}

#[test]
fn split_gives_one_more_piece_than_separators() {
    assert_eq!(texts(split_chars(&chars("a\tb\t\tc"), '\t')), vec!["a", "b", "", "c"]);
    assert_eq!(texts(split_chars(&chars(""), '\t')), vec![""]);
    assert_eq!(texts(split_chars(&chars("\t"), '\t')), vec!["", ""]);
}

#[test]
fn lines_read_like_str_lines() {
    for text in ["a\nb\n", "a\r\nb", "a\n\nb\r", "", "\n", "x\r\n\r\n", "only"] {
        let expected: Vec<String> = text.lines().map(|l| l.to_string()).collect();
        assert_eq!(texts(lines_of(&chars(text))), expected, "text {:?}", text);
    }
}

#[test]
fn decimal_numbers_read_like_str_parse() {
    let max = u32::MAX as u64;
    for text in ["0", "7", "+7", "007", "4294967295", "4294967296", "", "+", "-1", "1 ", "12a", "99999999999999999999"] {
        let expected = text.parse::<u32>().ok().map(|v| v as u64);
        assert_eq!(parse_decimal(&chars(text), max), expected, "text {:?}", text);
    }
    assert_eq!(parse_decimal(&chars("18446744073709551615"), u64::MAX), Some(u64::MAX));
    assert_eq!(parse_decimal(&chars("18446744073709551616"), u64::MAX), None);
}

#[test]
fn decimal_text_has_no_leading_zeros() {
    assert_eq!(decimal_string(0), "0");
    assert_eq!(decimal_string(1280), "1280");
    assert_eq!(decimal_string(u64::MAX), u64::MAX.to_string());
}

#[test]
fn white_space_matches_char_is_whitespace() {
    for code in 0u32..0x11000 {
        if let Some(c) = char::from_u32(code) {
            assert_eq!(is_white_space_char(c), c.is_whitespace(), "char {:?}", c);
        }
    }
    for s in ["", " ", " \t\n", "\u{3000}x", "Cam", "\u{a0}"] {
        assert_eq!(is_blank_str(s), s.trim().is_empty(), "text {:?}", s);
    }
}
