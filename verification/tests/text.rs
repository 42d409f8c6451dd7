use open_sesame::number::{parse_decimal, push_decimal};
use open_sesame::text::{blank, same, text_of, trimmed};

#[test]
fn white_space_is_that_of_unicode() {
    for code in 0..=0x10ffffu32 {
        if let Some(c) = char::from_u32(code) {
            assert_eq!(blank(c), c.is_whitespace(), "{code:x}");
        }
    }
}

#[test]
fn trimming_matches_str_trim() {
    for s in ["", " ", "a", " a ", "\t a b \n", "\u{3000}x\u{a0}", "\u{200b}x", "  \u{2003} "] {
        assert_eq!(trimmed(s), s.trim());
    }
}

#[test]
fn only_utf8_is_text() {
    assert_eq!(text_of(b"caf\xc3\xa9"), Some("caf\u{e9}"));
    assert_eq!(text_of(b""), Some(""));
    assert_eq!(text_of(b"\xff"), None);
    assert_eq!(text_of(b"caf\xc3"), None);
}

#[test]
fn equal_texts_are_the_same() {
    assert!(same("", ""));
    assert!(same("open", "open"));
    assert!(!same("open", "opened"));
    assert!(!same("open", "Open"));
}

#[test]
fn decimals_are_written() {
    for n in [0, 7, -7, 10, 99, 100, -1050, i32::MAX, i32::MIN] {
        let mut s = String::from("x");
        push_decimal(&mut s, n);
        assert_eq!(s, format!("x{n}"));
        assert_eq!(parse_decimal(&s[1..]), Some(n));
    }
}

#[test]
fn decimals_are_read_like_std() {
    for s in [
        "", "+", "-", "0", "-0", "+0", "007", "+42", "-42", "4 2", " 42", "42 ", "4_2", "0x10",
        "--1", "+-1", "2147483647", "2147483648", "-2147483648", "-2147483649",
        "99999999999999999999999999", "99999999999999999999999999x", "\u{664}", "1.0", "000000000000000000001",
    ] {
        assert_eq!(parse_decimal(s), s.parse::<i32>().ok(), "{s:?}");
    }
}
