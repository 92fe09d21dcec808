use solar_front::lexer::char_class::{
    ch2u8, is_decimal_digit_byte, is_hex_digit_byte, is_id_continue, is_id_continue_byte,
    is_id_start, is_id_start_byte, is_ident, is_ident_bytes, is_whitespace, is_whitespace_byte,
};

#[test]
fn whitespace_is_space_tab_and_line_breaks() {
    for b in 0..=255u8 {
        assert_eq!(is_whitespace_byte(b), matches!(b, b' ' | b'\t' | b'\n' | b'\r'), "{b}");
    }
    assert!(is_whitespace(' '));
    assert!(is_whitespace('\n'));
    assert!(!is_whitespace('a'));
    assert!(!is_whitespace('\x0c'));
}

#[test]
fn identifier_start_is_letter_underscore_dollar() {
    for b in 0..=255u8 {
        let expected = b.is_ascii_alphabetic() || b == b'_' || b == b'$';
        assert_eq!(is_id_start_byte(b), expected, "{b}");
    }
    assert!(is_id_start('a'));
    assert!(is_id_start('Z'));
    assert!(is_id_start('$'));
    assert!(!is_id_start('0'));
}

#[test]
fn identifier_continue_is_start_or_digit() {
    for b in 0..=255u8 {
        assert_eq!(is_id_continue_byte(b), is_id_start_byte(b) || (0x30..=0x39).contains(&b), "{b}");
    }
    assert!(is_id_continue('9'));
    assert!(!is_id_continue('-'));
}

#[test]
fn digits() {
    for b in 0..=255u8 {
        assert_eq!(is_decimal_digit_byte(b), b.is_ascii_digit(), "{b}");
        assert_eq!(is_hex_digit_byte(b), b.is_ascii_hexdigit(), "{b}");
    }
}

#[test]
fn a_char_is_classified_by_its_low_byte() {
    assert_eq!(ch2u8('a'), b'a');
    assert_eq!(ch2u8('\u{7f}'), 0x7f);
    assert_eq!(ch2u8('\u{120}'), 0x20);
    assert_eq!(ch2u8('\u{10ff41}'), 0x41);
    assert!(is_whitespace('\u{120}'));
}

#[test]
fn identifiers() {
    assert!(is_ident("a"));
    assert!(is_ident("_"));
    assert!(is_ident("$"));
    assert!(is_ident("a1_$Z"));
    assert!(!is_ident(""));
    assert!(!is_ident("1a"));
    assert!(!is_ident("a-b"));
    assert!(!is_ident("a "));
    assert!(!is_ident("é"));
    assert!(!is_ident("aé"));
    assert!(is_ident_bytes(b"uint256"));
    assert!(!is_ident_bytes(b""));
    assert!(!is_ident_bytes(b"9"));
    assert!(!is_ident_bytes(b"a\xff"));
}
