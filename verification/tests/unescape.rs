use alloy_primitives::hex;
use solar_front::lexer::unescape::errors::EscapeError;
use solar_front::lexer::unescape::errors::EscapeError::{
    BareCarriageReturn, CannotSkipMultipleLines, HexBadUnderscore, HexEscapeTooShort,
    HexNotHexDigit, HexOddDigits, HexPrefix, InvalidEscape, InvalidHexEscape,
    InvalidUnicodeEscape, LoneSlash, StrNewline, StrNonAsciiChar, UnicodeEscapeTooShort,
};
use solar_front::lexer::unescape::{
    parse_string_literal, try_parse_string_literal, unescape_literal, Mode,
};
use std::ops::Range;

type ExErr = (Range<usize>, EscapeError);

fn check(mode: Mode, src: &str, expected_str: &str, expected_errs: &[ExErr]) {
    let panic_str = format!("{mode:?}: {src:?}");

    let mut ok = String::with_capacity(src.len());
    let mut errs = Vec::with_capacity(expected_errs.len());
    for (range, c) in unescape_literal(src, mode) {
        match c {
            Ok(c) => ok.push(char::try_from(c).unwrap()),
            Err(e) => errs.push((range, e)),
        }
    }
    assert_eq!(errs, expected_errs, "{panic_str}");
    assert_eq!(ok, expected_str, "{panic_str}");

    let (out, errs2) = try_parse_string_literal(src, mode);
    assert_eq!(errs2, errs, "{panic_str}");
    assert!(out.len() <= src.len(), "{panic_str}");
    assert_eq!(parse_string_literal(src, mode), out, "{panic_str}");
    if mode == Mode::HexStr {
        assert_eq!(hex::encode(out), expected_str, "{panic_str}");
    } else {
        assert_eq!(hex::encode(out), hex::encode(expected_str), "{panic_str}");
    }
}

#[test]
fn unescape_str() {
    let cases: &[(&str, &str, &[ExErr])] = &[
        ("", "", &[]),
        (" ", " ", &[]),
        ("\t", "\t", &[]),
        (" \t ", " \t ", &[]),
        ("foo", "foo", &[]),
        ("hello world", "hello world", &[]),
        (r"\", "", &[(0..1, LoneSlash)]),
        (r"\\", "\\", &[]),
        (r"\\\", "\\", &[(2..3, LoneSlash)]),
        (r"\\\\", "\\\\", &[]),
        (r"\\ ", "\\ ", &[]),
        (r"\\ \", "\\ ", &[(3..4, LoneSlash)]),
        (r"\\ \\", "\\ \\", &[]),
        (r"\x", "", &[(0..2, HexEscapeTooShort)]),
        (r"\x1", "", &[(0..3, HexEscapeTooShort)]),
        (r"\xz", "", &[(0..3, InvalidHexEscape)]),
        (r"\xzf", "f", &[(0..3, InvalidHexEscape)]),
        (r"\xzz", "z", &[(0..3, InvalidHexEscape)]),
        (r"\x69", "\x69", &[]),
        (r"\xE8", "è", &[]),
        (r"\u", "", &[(0..2, UnicodeEscapeTooShort)]),
        (r"\u1", "", &[(0..3, UnicodeEscapeTooShort)]),
        (r"\uz", "", &[(0..3, InvalidUnicodeEscape)]),
        (r"\uzf", "f", &[(0..3, InvalidUnicodeEscape)]),
        (r"\u12", "", &[(0..4, UnicodeEscapeTooShort)]),
        (r"\u123", "", &[(0..5, UnicodeEscapeTooShort)]),
        (r"\u1234", "\u{1234}", &[]),
        (r"\u00e8", "è", &[]),
        (r"\r", "\r", &[]),
        (r"\t", "\t", &[]),
        (r"\n", "\n", &[]),
        (r"\n\n", "\n\n", &[]),
        (r"\ ", "", &[(0..2, InvalidEscape)]),
        (r"\?", "", &[(0..2, InvalidEscape)]),
        ("\r\n", "", &[(1..2, StrNewline)]),
        ("\n", "", &[(0..1, StrNewline)]),
        ("\\\n", "", &[]),
        ("\\\na", "a", &[]),
        ("\\\n  a", "a", &[]),
        ("a \\\n  b", "a b", &[]),
        ("a\\n\\\n  b", "a\nb", &[]),
        ("a\\t\\\n  b", "a\tb", &[]),
        ("a\\n \\\n  b", "a\n b", &[]),
        ("a\\n \\\n \tb", "a\n b", &[]),
        ("a\\t \\\n  b", "a\t b", &[]),
        ("\\\n \t a", "a", &[]),
        (" \\\n \t a", " a", &[]),
        ("\\\n \t a\n", "a", &[(6..7, StrNewline)]),
        ("\\\n   \t   ", "", &[]),
        (" \\\n   \t   ", " ", &[]),
        (" he\\\n \\\nllo \\\n wor\\\nld", " hello world", &[]),
        ("\\\n\na\\\nb", "ab", &[(2..3, CannotSkipMultipleLines)]),
        ("\\\n \na\\\nb", "ab", &[(3..4, CannotSkipMultipleLines)]),
        (
            "\\\n \n\na\\\nb",
            "ab",
            &[(3..4, CannotSkipMultipleLines), (4..5, CannotSkipMultipleLines)],
        ),
        (
            "a\\\n \n \t \nb\\\nc",
            "abc",
            &[(4..5, CannotSkipMultipleLines), (8..9, CannotSkipMultipleLines)],
        ),
    ];
    for &(src, expected_str, expected_errs) in cases {
        check(Mode::Str, src, expected_str, expected_errs);
        check(Mode::UnicodeStr, src, expected_str, expected_errs);
    }
}

#[test]
fn unescape_unicode_str() {
    let cases: &[(&str, &str, &[ExErr], &[ExErr])] = &[
        ("è", "è", &[], &[(0..2, StrNonAsciiChar)]),
        ("😀", "😀", &[], &[(0..4, StrNonAsciiChar)]),
    ];
    for &(src, expected_str, e1, e2) in cases {
        check(Mode::UnicodeStr, src, expected_str, e1);
        check(Mode::Str, src, "", e2);
    }
}

#[test]
fn unescape_hex_str() {
    let cases: &[(&str, &str, &[ExErr])] = &[
        ("", "", &[]),
        ("z", "", &[(0..1, HexNotHexDigit)]),
        ("\n", "", &[(0..1, HexNotHexDigit)]),
        ("  11", "11", &[(0..1, HexNotHexDigit), (1..2, HexNotHexDigit)]),
        ("0x", "", &[(0..2, HexPrefix)]),
        ("0X", "", &[(0..2, HexPrefix)]),
        ("0x11", "11", &[(0..2, HexPrefix)]),
        ("0X11", "11", &[(0..2, HexPrefix)]),
        ("1", "", &[(0..1, HexOddDigits)]),
        ("12", "12", &[]),
        ("123", "", &[(0..3, HexOddDigits)]),
        ("1234", "1234", &[]),
        ("_", "", &[(0..1, HexBadUnderscore)]),
        ("_11", "11", &[(0..1, HexBadUnderscore)]),
        ("_11_", "11", &[(0..1, HexBadUnderscore)]),
        ("11_", "11", &[(2..3, HexBadUnderscore)]),
        ("11_22", "1122", &[]),
        ("11__", "11", &[(3..4, HexBadUnderscore)]),
        ("11__22", "1122", &[(3..4, HexBadUnderscore)]),
        ("1_2", "12", &[(1..2, HexBadUnderscore)]),
    ];
    for &(src, expected_str, expected_errs) in cases {
        check(Mode::HexStr, src, expected_str, expected_errs);
    }
}

#[test]
fn hex_string_decodes_to_bytes() {
    let (bytes, errs) = try_parse_string_literal("DEAD_beef", Mode::HexStr);
    assert_eq!(bytes, vec![0xDE, 0xAD, 0xBE, 0xEF]);
    assert_eq!(errs, vec![]);
    // Without anything to unescape the digits are decoded all the same.
    assert_eq!(parse_string_literal("00ff10", Mode::HexStr), vec![0x00, 0xff, 0x10]);
    assert_eq!(parse_string_literal("", Mode::HexStr), Vec::<u8>::new());
}

#[test]
fn escaped_line_feed_is_one_byte() {
    let (bytes, errs) = try_parse_string_literal("a\\nb", Mode::Str);
    assert_eq!(bytes, b"a\nb".to_vec());
    assert_eq!(errs, vec![]);
}

#[test]
fn short_hex_escape_gives_nothing() {
    let (bytes, errs) = try_parse_string_literal("\\x", Mode::Str);
    assert_eq!(bytes, Vec::<u8>::new());
    assert_eq!(errs, vec![(0..2, HexEscapeTooShort)]);
}

#[test]
fn non_ascii_is_an_error_in_a_plain_string_only() {
    let (bytes, errs) = try_parse_string_literal("è", Mode::Str);
    assert_eq!(bytes, Vec::<u8>::new());
    assert_eq!(errs, vec![(0..2, StrNonAsciiChar)]);
    let (bytes, errs) = try_parse_string_literal("è", Mode::UnicodeStr);
    assert_eq!(bytes, "è".as_bytes().to_vec());
    assert_eq!(errs, vec![]);
}

#[test]
fn escapes_that_are_no_scalar_values_never_fail() {
    // A lone surrogate is encoded by its size, like its neighbours.
    let (bytes, errs) = try_parse_string_literal("\\ud800", Mode::Str);
    assert_eq!(bytes, vec![0xed, 0xa0, 0x80]);
    assert_eq!(errs, vec![]);
    let pieces = unescape_literal("\\ud800", Mode::Str);
    assert_eq!(pieces, vec![(0..6, Ok(0xd800))]);
    // A byte above ASCII written as an escape takes two bytes.
    assert_eq!(parse_string_literal("\\xff", Mode::Str), vec![0xc3, 0xbf]);
    assert_eq!(parse_string_literal("\\x7f", Mode::Str), vec![0x7f]);
    assert_eq!(parse_string_literal("\\uffff", Mode::UnicodeStr), vec![0xef, 0xbf, 0xbf]);
    assert_eq!(parse_string_literal("\\u0800", Mode::UnicodeStr), vec![0xe0, 0xa0, 0x80]);
    assert_eq!(parse_string_literal("\\u07ff", Mode::UnicodeStr), vec![0xdf, 0xbf]);
}

#[test]
fn an_escape_takes_in_the_whole_character_behind_the_backslash() {
    assert_eq!(unescape_literal("\\è!", Mode::UnicodeStr), vec![
        (0..3, Err(InvalidEscape)),
        (3..4, Ok('!' as u32))
    ]);
    assert_eq!(unescape_literal("\\x1😀", Mode::UnicodeStr), vec![(0..7, Err(InvalidHexEscape))]);
    assert_eq!(unescape_literal("\\u12è4", Mode::Str), vec![
        (0..6, Err(InvalidUnicodeEscape)),
        (6..7, Ok('4' as u32))
    ]);
}

#[test]
fn carriage_returns() {
    assert_eq!(unescape_literal("a\rb", Mode::Str), vec![
        (0..1, Ok('a' as u32)),
        (1..2, Err(BareCarriageReturn)),
        (2..3, Ok('b' as u32))
    ]);
    assert_eq!(unescape_literal("\r", Mode::Str), vec![(0..1, Err(BareCarriageReturn))]);
    // A line continuation: `\` before CR LF, then a second line break.
    assert_eq!(unescape_literal("\\\r\n \r\nx", Mode::Str), vec![
        (4..6, Err(CannotSkipMultipleLines)),
        (6..7, Ok('x' as u32))
    ]);
    assert_eq!(unescape_literal("\\\n\rx", Mode::Str), vec![
        (2..3, Err(BareCarriageReturn)),
        (3..4, Ok('x' as u32))
    ]);
    // A backslash before a lone carriage return starts no continuation.
    assert_eq!(unescape_literal("\\\rx", Mode::Str), vec![
        (0..2, Err(InvalidEscape)),
        (2..3, Ok('x' as u32))
    ]);
}

#[test]
fn pieces_come_in_source_order_and_inside_the_source() {
    let sources = ["a\\nb\\x4\\u12345\n\\\n  \n c\\", "x\\zy\rw", "è\\è\\x😀"];
    for src in sources {
        for mode in [Mode::Str, Mode::UnicodeStr] {
            let mut at = 0;
            for (range, _) in unescape_literal(src, mode) {
                assert!(at <= range.start, "{src:?}");
                assert!(range.start < range.end, "{src:?}");
                assert!(range.end <= src.len(), "{src:?}");
                at = range.end;
            }
        }
    }
}

#[test]
fn hex_literal_with_other_characters() {
    assert_eq!(unescape_literal("1è2", Mode::HexStr), vec![
        (0..1, Ok('1' as u32)),
        (1..3, Err(HexNotHexDigit)),
        (3..4, Ok('2' as u32))
    ]);
    assert_eq!(parse_string_literal("1è2", Mode::HexStr), vec![0x12]);
    // The prefix is an error of its own, before the odd number of digits.
    assert_eq!(unescape_literal("0x1", Mode::HexStr), vec![
        (0..2, Err(HexPrefix)),
        (0..3, Err(HexOddDigits))
    ]);
    assert_eq!(unescape_literal("aB", Mode::HexStr), vec![
        (0..1, Ok('a' as u32)),
        (1..2, Ok('B' as u32))
    ]);
}

#[test]
fn value_is_never_longer_than_the_source() {
    let sources = [
        "", "a", "\\n", "\\x41", "\\u0041", "\\uffff", "\\xff", "è", "😀", "\\\n  x", "0x1234",
        "12_34", "\\", "\\q", "a\nb", "ab\\u12", "__",
    ];
    for src in sources {
        for mode in [Mode::Str, Mode::UnicodeStr, Mode::HexStr] {
            assert!(parse_string_literal(src, mode).len() <= src.len(), "{mode:?}: {src:?}");
        }
    }
}
