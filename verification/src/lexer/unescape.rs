//! Utilities for validating string literals and turning them into the values
//! they represent.

pub mod errors;
pub mod model;
pub mod laws;

use core::ops::Range;
use vstd::prelude::*;
use vstd::slice::{slice_subrange, slice_to_vec};
use vstd::string::StringSliceAdditionalSpecFns;
use vstd::utf8::{encode_utf8_valid_utf8, is_ascii_chars_encode_utf8};
use crate::hex::{check_raw, decode, decoded, hex_value};
use crate::lexer::ascii::{
    BACKSLASH, CR, DIGIT_0, DOUBLE_QUOTE, LF, LOWER_A, LOWER_N, LOWER_R, LOWER_T, LOWER_U, LOWER_X,
    SINGLE_QUOTE, SPACE, TAB, UNDERSCORE, UPPER_A, UPPER_X,
};
use crate::lexer::bounds::lemma_run_end;
use crate::lexer::char_class::{hex_digit, is_decimal_digit_byte, is_hex_digit_byte};
use crate::lexer::grammar::{in_class, run_end, ByteClass};
use crate::lexer::unescape::errors::EscapeError;
use crate::lexer::unescape::laws::{
    law_plain_literal_is_its_source, law_value_no_longer_than_source, lemma_count_all_hex,
    lemma_hex_literal_digits, plain,
};
use crate::lexer::unescape::model::{
    count_hex_digits, escape, has_hex_prefix, hex_literal_pieces, hex_pieces, lemma_escape,
    lemma_numeric_escape, literal_bytes, numeric_escape, piece, pieces, pieces_bytes,
    pieces_errors, pow16, str_pieces, Piece,
};
use crate::search::memchr3;
use crate::lexer::utf8::{
    encode_utf8_raw, first_code_point, lemma_ascii_bytes_are_ascii_chars,
    lemma_first_code_point_ascii, lemma_first_code_point_len, REPLACEMENT,
};

verus! {

/// What kind of literal do we parse.
#[derive(Clone, Copy, Debug, PartialEq, Eq, Structural)]
pub enum Mode {
    /// Normal string literal (e.g. `"a"`).
    Str,
    /// Unicode string literal (e.g. `unicode"😀"`).
    UnicodeStr,
    /// Hex string literal (e.g. `hex"1234"`).
    HexStr,
}

/// A piece of a literal as the functions of this module hand it out: its
/// range in the source, and its code point or its error.
pub type Unescaped = (Range<usize>, Result<u32, EscapeError>);

/// The piece that a handed-out piece is.
pub open spec fn as_piece(e: Unescaped) -> Piece {
    (e.0.start as int, e.0.end as int, e.1)
}

/// The pieces that handed-out pieces are.
pub open spec fn as_pieces(v: Seq<Unescaped>) -> Seq<Piece> {
    v.map_values(|e: Unescaped| as_piece(e))
}

/// An error in a literal as the functions of this module hand it out: its
/// range in the source, and what is wrong there.
pub type EscapeErrorAt = (Range<usize>, EscapeError);

/// The errors that handed-out errors are.
pub open spec fn as_errors(v: Seq<EscapeErrorAt>) -> Seq<(int, int, EscapeError)> {
    v.map_values(|e: EscapeErrorAt| (e.0.start as int, e.0.end as int, e.1))
}

/// Parses a string literal (without quotes) into a byte array: its value.
///
/// Errors are passed over: what is wrong adds nothing to the value.
pub fn parse_string_literal(src: &str, mode: Mode) -> (bytes: Vec<u8>)
    ensures
        bytes@ == literal_bytes(src.spec_bytes(), mode),
        bytes@.len() <= src.spec_bytes().len(),
{
    try_parse_string_literal(src, mode).0
}

/// Parses a string literal (without quotes) into a byte array, and hands out
/// each escape error with its range in `src`, in source order.
///
/// The value is never longer than the source.
pub fn try_parse_string_literal(src: &str, mode: Mode) -> (r: (Vec<u8>, Vec<EscapeErrorAt>))
    ensures
        r.0@ == literal_bytes(src.spec_bytes(), mode),
        as_errors(r.1@) == pieces_errors(pieces(src.spec_bytes(), mode)),
        r.0@.len() <= src.spec_bytes().len(),
{
    let ghost s = src.spec_bytes();
    proof {
        encode_utf8_valid_utf8(src@);
        law_value_no_longer_than_source(s, mode);
    }
    let (mut bytes, errors) = if needs_unescape(src, mode) {
        parse_literal_unescape(src, mode)
    } else {
        proof {
            law_plain_literal_is_its_source(s, mode);
            assert(as_errors(Seq::<EscapeErrorAt>::empty()) =~= pieces_errors(pieces(s, mode)));
        }
        (slice_to_vec(src.as_bytes()), Vec::new())
    };
    match mode {
        Mode::HexStr => {
            proof {
                lemma_hex_literal_digits(s);
            }
            // Decoding cannot fail here: what is left are hexadecimal digits,
            // an even number of them.
            match decode(bytes.as_slice()) {
                Ok(decoded) => {
                    bytes = decoded;
                },
                Err(_) => {},
            }
        },
        _ => {},
    }
    (bytes, errors)
}

/// Unescapes a literal that has something to unescape: its value before any
/// decoding of hexadecimal digits, and its errors.
fn parse_literal_unescape(src: &str, mode: Mode) -> (r: (Vec<u8>, Vec<EscapeErrorAt>))
    ensures
        r.0@ == pieces_bytes(pieces(src.spec_bytes(), mode)),
        as_errors(r.1@) == pieces_errors(pieces(src.spec_bytes(), mode)),
{
    let mut bytes: Vec<u8> = Vec::with_capacity(src.len());
    let errors = parse_literal_unescape_into(src, mode, &mut bytes);
    assert(bytes@ =~= pieces_bytes(pieces(src.spec_bytes(), mode)));
    (bytes, errors)
}

/// Unescapes a literal into `dst_buf`: appends the bytes of its pieces, and
/// returns its errors.
fn parse_literal_unescape_into(src: &str, mode: Mode, dst_buf: &mut Vec<u8>) -> (errors: Vec<
    EscapeErrorAt,
>)
    ensures
        final(dst_buf)@ == old(dst_buf)@ + pieces_bytes(pieces(src.spec_bytes(), mode)),
        as_errors(errors@) == pieces_errors(pieces(src.spec_bytes(), mode)),
{
    let unescaped = unescape_literal_unchecked(src, mode);
    let mut errors: Vec<EscapeErrorAt> = Vec::new();
    let ghost all = as_pieces(unescaped@);
    let mut k: usize = 0;
    assert(all.take(0) =~= Seq::<Piece>::empty());
    assert(as_errors(errors@) =~= pieces_errors(all.take(0)));
    assert(dst_buf@ =~= old(dst_buf)@ + pieces_bytes(all.take(0)));
    while k < unescaped.len()
        invariant
            k <= unescaped@.len(),
            all == as_pieces(unescaped@),
            dst_buf@ == old(dst_buf)@ + pieces_bytes(all.take(k as int)),
            as_errors(errors@) == pieces_errors(all.take(k as int)),
        decreases unescaped@.len() - k,
    {
        proof {
            assert(all.take(k + 1).drop_last() =~= all.take(k as int));
            assert(all.take(k + 1).last() == as_piece(unescaped@[k as int]));
        }
        match unescaped[k].1 {
            Ok(code) => {
                // The code point may be no Unicode scalar value, so this is
                // not the encoding of a `char`.
                encode_utf8_raw(code, dst_buf);
                assert(dst_buf@ =~= old(dst_buf)@ + pieces_bytes(all.take(k + 1)));
                assert(as_errors(errors@) =~= pieces_errors(all.take(k + 1)));
            },
            Err(e) => {
                errors.push((unescaped[k].0.start..unescaped[k].0.end, e));
                assert(dst_buf@ =~= old(dst_buf)@ + pieces_bytes(all.take(k + 1)));
                assert(as_errors(errors@) =~= pieces_errors(all.take(k + 1)));
            },
        }
        k += 1;
    }
    assert(all.take(k as int) =~= all);
    errors
}

/// Unescapes the contents of a string literal (without quotes).
///
/// Hands out the pieces of the literal in source order: for each piece its
/// range in `src` and either a code point or an error. A code point need not
/// be a Unicode scalar value.
pub fn unescape_literal(src: &str, mode: Mode) -> (out: Vec<Unescaped>)
    ensures
        as_pieces(out@) == pieces(src.spec_bytes(), mode),
{
    if needs_unescape(src, mode) {
        unescape_literal_unchecked(src, mode)
    } else {
        unescape_plain(src, mode)
    }
}

/// Hands out the pieces of a literal that has nothing to unescape: one for
/// each code point, with its value.
fn unescape_plain(src: &str, mode: Mode) -> (out: Vec<Unescaped>)
    requires
        plain(src.spec_bytes(), mode),
    ensures
        as_pieces(out@) == pieces(src.spec_bytes(), mode),
{
    let bytes = src.as_bytes();
    let len = bytes.len();
    let ghost s = bytes@;
    let mut out: Vec<Unescaped> = Vec::new();
    let mut i: usize = 0;
    let ghost mut allow = false;
    let ghost mut even = true;
    let ghost unicode = mode == Mode::UnicodeStr;
    proof {
        assert(as_pieces(out@) =~= Seq::<Piece>::empty());
        assert(Seq::<Piece>::empty() + hex_pieces(s, 0, true, false, true) =~= hex_pieces(
            s,
            0,
            true,
            false,
            true,
        ));
        assert(Seq::<Piece>::empty() + str_pieces(s, 0, unicode, false) =~= str_pieces(
            s,
            0,
            unicode,
            false,
        ));
        if mode == Mode::HexStr {
            if s.len() >= 2 {
                assert(crate::lexer::char_class::hex_digit(s[1]));
            }
            lemma_count_all_hex(s, 0);
        }
    }
    while i < len
        invariant
            s == bytes@,
            len == s.len(),
            i <= len,
            plain(s, mode),
            unicode == (mode == Mode::UnicodeStr),
            mode == Mode::HexStr ==> as_pieces(out@) + hex_pieces(s, i as int, true, allow, even)
                == pieces(s, mode),
            mode != Mode::HexStr ==> as_pieces(out@) + str_pieces(s, i as int, unicode, false)
                == pieces(s, mode),
        decreases len - i,
    {
        let ghost before = as_pieces(out@);
        let (ch_len, code) = decode_utf8_with_len(slice_subrange(bytes, i, len));
        proof {
            assert(bytes@.subrange(i as int, len as int) =~= s.skip(i as int));
            let b = s[i as int];
            if b < 0x80 {
                lemma_first_code_point_ascii(s.skip(i as int));
            }
            if mode == Mode::HexStr {
                assert(crate::lexer::char_class::hex_digit(b));
            }
        }
        emit(&mut out, i, i + ch_len, Ok(code));
        proof {
            if mode == Mode::HexStr {
                assert(as_pieces(out@) + hex_pieces(s, i + 1, true, true, !even) =~= before + (
                piece(i as int, i + 1, Ok(code)) + hex_pieces(s, i + 1, true, true, !even)));
                allow = true;
                even = !even;
            } else {
                assert(as_pieces(out@) + str_pieces(s, i + ch_len, unicode, false) =~= before + (
                piece(i as int, i + ch_len, Ok(code)) + str_pieces(
                    s,
                    i + ch_len,
                    unicode,
                    false,
                )));
            }
        }
        i += ch_len;
    }
    proof {
        if mode == Mode::HexStr {
            if s.len() > 1 {
                assert(crate::lexer::char_class::hex_digit(s[s.len() - 1]));
            }
        }
        assert(as_pieces(out@) + Seq::<Piece>::empty() =~= as_pieces(out@));
    }
    out
}

/// Fast-path check for whether a string literal needs to be unescaped or
/// errors need to be reported: it does unless it is plain. A string is
/// plain without backslash and line break, and a string that is not `unicode`
/// only if it is ASCII besides; a `hex` string is plain if it holds an even
/// number of hexadecimal digits and nothing else.
fn needs_unescape(src: &str, mode: Mode) -> (r: bool)
    ensures
        r == !plain(src.spec_bytes(), mode),
{
    let bytes = src.as_bytes();
    match mode {
        Mode::Str => {
            proof {
                if vstd::string::is_ascii(src) {
                    is_ascii_chars_encode_utf8(src@);
                } else if plain(bytes@, mode) {
                    lemma_ascii_bytes_are_ascii_chars(src@);
                }
            }
            needs_unescape_chars(bytes) || !src.is_ascii()
        },
        Mode::UnicodeStr => needs_unescape_chars(bytes),
        Mode::HexStr => bytes.len() % 2 != 0 || !check_raw(bytes),
    }
}

/// Whether the bytes hold a backslash or a line break.
fn needs_unescape_chars(bytes: &[u8]) -> (r: bool)
    ensures
        r == exists|i: int|
            0 <= i < bytes@.len() && {
                let b = #[trigger] bytes@[i];
                b == BACKSLASH || b == LF || b == CR
            },
{
    let found = memchr3(BACKSLASH, LF, CR, bytes);
    proof {
        if let Some(at) = found {
            assert(crate::search::is_needle(bytes@[at as int], BACKSLASH, LF, CR));
        }
    }
    found.is_some()
}

/// Adds a piece to those handed out.
fn emit(out: &mut Vec<Unescaped>, start: usize, end: usize, value: Result<u32, EscapeError>)
    ensures
        as_pieces(final(out)@) == as_pieces(old(out)@) + piece(start as int, end as int, value),
{
    out.push((start..end, value));
    assert(as_pieces(out@) =~= as_pieces(old(out)@) + piece(start as int, end as int, value));
}

/// The value of a hexadecimal digit.
fn hex_digit_value(b: u8) -> (v: u32)
    requires
        hex_digit(b),
    ensures
        v == hex_value(b),
        v < 16,
{
    if is_decimal_digit_byte(b) {
        (b - DIGIT_0) as u32
    } else if b >= LOWER_A {
        (b - LOWER_A + 10) as u32
    } else {
        (b - UPPER_A + 10) as u32
    }
}

/// Reads the digits of a numeric escape: `digits` hexadecimal digits from
/// `at` on. Returns where the escape ends and its value.
fn scan_digits(
    bytes: &[u8],
    at: usize,
    digits: u8,
    short: EscapeError,
    invalid: EscapeError,
) -> (r: (usize, Result<u32, EscapeError>))
    requires
        at <= bytes@.len(),
        digits <= 4,
    ensures
        r.0 == numeric_escape(bytes@, at as int, digits as nat, 0, short, invalid).0,
        r.1 == numeric_escape(bytes@, at as int, digits as nat, 0, short, invalid).1,
        at <= r.0 <= bytes@.len(),
{
    let mut value: u32 = 0;
    let mut k = at;
    let mut left = digits;
    proof {
        lemma_numeric_escape(bytes@, at as int, digits as nat, 0, short, invalid, 0);
    }
    while left > 0
        invariant
            at <= k <= bytes@.len(),
            left <= digits <= 4,
            value < pow16((digits - left) as nat),
            numeric_escape(bytes@, k as int, left as nat, value as int, short, invalid)
                == numeric_escape(bytes@, at as int, digits as nat, 0, short, invalid),
            at <= numeric_escape(bytes@, at as int, digits as nat, 0, short, invalid).0
                <= bytes@.len(),
        decreases left,
    {
        if k >= bytes.len() {
            return (k, Err(short));
        }
        let d = bytes[k];
        if !is_hex_digit_byte(d) {
            let (len, _) = decode_utf8_with_len(slice_subrange(bytes, k, bytes.len()));
            assert(bytes@.subrange(k as int, bytes@.len() as int) =~= bytes@.skip(k as int));
            return (k + len, Err(invalid));
        }
        value = value * 16 + hex_digit_value(d);
        k += 1;
        left -= 1;
    }
    (k, Ok(value))
}

/// Reads the escape whose backslash ends at `at`. Returns where the escape
/// ends and its value.
fn scan_escape(bytes: &[u8], at: usize) -> (r: (usize, Result<u32, EscapeError>))
    requires
        at < bytes@.len(),
    ensures
        r.0 == escape(bytes@, at as int).0,
        r.1 == escape(bytes@, at as int).1,
        at < r.0 <= bytes@.len(),
{
    proof {
        lemma_escape(bytes@, at as int);
    }
    // Hex and unicode escape codes are not validated: a string literal may
    // hold invalid UTF-8.
    let c = bytes[at];
    if c == SINGLE_QUOTE {
        // Both quotes are always valid escapes.
        (at + 1, Ok(0x27))
    } else if c == DOUBLE_QUOTE {
        (at + 1, Ok(0x22))
    } else if c == BACKSLASH {
        (at + 1, Ok(0x5c))
    } else if c == LOWER_N {
        (at + 1, Ok(0x0a))
    } else if c == LOWER_R {
        (at + 1, Ok(0x0d))
    } else if c == LOWER_T {
        (at + 1, Ok(0x09))
    } else if c == LOWER_X {
        // Parse hexadecimal character code.
        scan_digits(
            bytes,
            at + 1,
            2,
            EscapeError::HexEscapeTooShort,
            EscapeError::InvalidHexEscape,
        )
    } else if c == LOWER_U {
        // Parse hexadecimal unicode character code.
        scan_digits(
            bytes,
            at + 1,
            4,
            EscapeError::UnicodeEscapeTooShort,
            EscapeError::InvalidUnicodeEscape,
        )
    } else {
        let (len, _) = decode_utf8_with_len(slice_subrange(bytes, at, bytes.len()));
        assert(bytes@.subrange(at as int, bytes@.len() as int) =~= bytes@.skip(at as int));
        (at + len, Err(EscapeError::InvalidEscape))
    }
}

/// Unescape characters in a string literal.
///
/// See [`unescape_literal`] for more details.
fn unescape_str(src: &str, is_unicode: bool) -> (out: Vec<Unescaped>)
    ensures
        as_pieces(out@) == str_pieces(src.spec_bytes(), 0, is_unicode, false),
{
    let bytes = src.as_bytes();
    let len = bytes.len();
    let mut i: usize = 0;
    let mut out: Vec<Unescaped> = Vec::new();
    let ghost s = bytes@;
    let ghost all = str_pieces(s, 0, is_unicode, false);
    assert(as_pieces(out@) + all =~= all);

    while i < len
        invariant_except_break
            s == bytes@,
            len == s.len(),
            i <= len,
            as_pieces(out@) + str_pieces(s, i as int, is_unicode, false) == all,
        ensures
            as_pieces(out@) == all,
        decreases len - i,
    {
        let start = i;
        let ghost before = as_pieces(out@);
        let b = bytes[i];
        if b == BACKSLASH {
            if i + 1 >= len {
                emit(&mut out, start, start + 1, Err(EscapeError::LoneSlash));
                break ;
            }
            let next = bytes[i + 1];
            if next == CR && i + 2 < len && bytes[i + 2] == LF {
                // Line continuation: \r\n
                i = skip_ascii_whitespace_bytes_fast(bytes, i + 3, &mut out, Ghost(is_unicode));
                continue ;
            } else if next == LF {
                // Line continuation: \n
                i = skip_ascii_whitespace_bytes_fast(bytes, i + 2, &mut out, Ghost(is_unicode));
                continue ;
            } else {
                // Normal escape sequences
                let (end, res) = scan_escape(bytes, i + 1);
                emit(&mut out, start, end, res);
                assert(as_pieces(out@) + str_pieces(s, end as int, is_unicode, false) =~= before
                    + (piece(start as int, end as int, res) + str_pieces(
                    s,
                    end as int,
                    is_unicode,
                    false,
                )));
                i = end;
            }
        } else if b == LF {
            emit(&mut out, start, start + 1, Err(EscapeError::StrNewline));
            assert(as_pieces(out@) + str_pieces(s, start + 1, is_unicode, false) =~= before + (
            piece(start as int, start + 1, Err(EscapeError::StrNewline)) + str_pieces(
                s,
                start + 1,
                is_unicode,
                false,
            )));
            i += 1;
        } else if b == CR {
            // Check for \r\n sequence
            if i + 1 < len && bytes[i + 1] == LF {
                // Skip \r, will process \n next
                i += 1;
                continue ;
            }
            emit(&mut out, start, start + 1, Err(EscapeError::BareCarriageReturn));
            assert(as_pieces(out@) + str_pieces(s, start + 1, is_unicode, false) =~= before + (
            piece(start as int, start + 1, Err(EscapeError::BareCarriageReturn)) + str_pieces(
                s,
                start + 1,
                is_unicode,
                false,
            )));
            i += 1;
        } else if b < 0x80 {
            // Fast path for ASCII (0-127) - most common case:
            // process a whole run of plain ASCII at once.
            let ascii_end = find_next_non_ascii_or_special(bytes, i, len);
            proof {
                lemma_run_end(s, i as int, ByteClass::PlainAscii);
            }
            let mut j = i;
            while j < ascii_end
                invariant
                    s == bytes@,
                    i <= j <= ascii_end <= s.len(),
                    forall|k: int| i <= k < ascii_end ==> in_class(ByteClass::PlainAscii, #[trigger] s[k]),
                    as_pieces(out@) + str_pieces(s, j as int, is_unicode, false) == all,
                decreases ascii_end - j,
            {
                let ghost seen = as_pieces(out@);
                let byte = bytes[j];
                assert(in_class(ByteClass::PlainAscii, s[j as int]));
                emit(&mut out, j, j + 1, Ok(byte as u32));
                assert(as_pieces(out@) + str_pieces(s, j + 1, is_unicode, false) =~= seen + (piece(
                    j as int,
                    j + 1,
                    Ok(byte as u32),
                ) + str_pieces(s, j + 1, is_unicode, false)));
                j += 1;
            }
            i = ascii_end;
        } else {
            // Non-ASCII UTF-8 sequences
            let (ch_len, codepoint) = decode_utf8_with_len(slice_subrange(bytes, i, len));
            assert(bytes@.subrange(i as int, len as int) =~= s.skip(i as int));
            let actual_len = if ch_len <= len - i {
                ch_len
            } else {
                len - i
            };
            let value = if !is_unicode {
                Err(EscapeError::StrNonAsciiChar)
            } else {
                Ok(codepoint)
            };
            emit(&mut out, start, start + actual_len, value);
            assert(as_pieces(out@) + str_pieces(s, start + actual_len, is_unicode, false) =~= before
                + (piece(start as int, start + actual_len, value) + str_pieces(
                s,
                start + actual_len,
                is_unicode,
                false,
            )));
            i += actual_len;
        }
    }
    proof {
        if i >= len {
            assert(as_pieces(out@) + Seq::<Piece>::empty() =~= as_pieces(out@));
        }
    }
    out
}

/// Finds the end of a run of ASCII bytes that stand for themselves.
fn find_next_non_ascii_or_special(bytes: &[u8], start: usize, len: usize) -> (end: usize)
    requires
        start <= len == bytes@.len(),
    ensures
        end == run_end(bytes@, start as int, ByteClass::PlainAscii),
        start <= end <= len,
{
    let mut i = start;
    proof {
        lemma_run_end(bytes@, start as int, ByteClass::PlainAscii);
    }
    while i < len
        invariant_except_break
            start <= i <= len == bytes@.len(),
            run_end(bytes@, i as int, ByteClass::PlainAscii) == run_end(
                bytes@,
                start as int,
                ByteClass::PlainAscii,
            ),
        ensures
            i == run_end(bytes@, start as int, ByteClass::PlainAscii),
        decreases len - i,
    {
        let b = bytes[i];
        if b == BACKSLASH || b == LF || b == CR {
            // Stop at special characters that need processing
            break ;
        } else if b >= 128 {
            // Stop at non-ASCII
            break ;
        } else {
            // Continue for regular ASCII
            i += 1;
        }
    }
    i
}

/// Decodes the first code point of `bytes`: its length in bytes and its
/// value. What cannot be decoded is one byte long and gives U+FFFD.
fn decode_utf8_with_len(bytes: &[u8]) -> (r: (usize, u32))
    ensures
        r.0 == first_code_point(bytes@).0,
        r.1 == first_code_point(bytes@).1,
        bytes@.len() > 0 ==> 1 <= r.0 <= bytes@.len(),
{
    if bytes.len() == 0 {
        return (0, REPLACEMENT);
    }
    let first = bytes[0];
    let b1 = first as u32;
    proof {
        lemma_first_code_point_len(bytes@);
    }
    if first <= 0x7f {
        // ASCII - fast path
        assert((first & 0x7f) as u32 == first as u32) by (bit_vector)
            requires
                first <= 0x7f,
        ;
        (1, b1)
    } else if 0xc0 <= first && first <= 0xdf {
        // 2-byte sequence
        if bytes.len() >= 2 {
            let x2 = bytes[1];
            let b2 = x2 as u32;
            // Basic validation
            assert(((x2 as u32) & 0xc0 == 0x80) <==> (0x80 <= x2 <= 0xbf)) by (bit_vector);
            if (b2 & 0xc0) == 0x80 {
                assert((((first as u32) & 0x1f) << 6) | ((x2 as u32) & 0x3f) == (((first
                    & 0x1f) as u32) << 6) | ((x2 & 0x3f) as u32)) by (bit_vector);
                (2, ((b1 & 0x1f) << 6) | (b2 & 0x3f))
            } else {
                (1, REPLACEMENT)
            }
        } else {
            (1, REPLACEMENT)
        }
    } else if 0xe0 <= first && first <= 0xef {
        // 3-byte sequence
        if bytes.len() >= 3 {
            let x2 = bytes[1];
            let x3 = bytes[2];
            let b2 = x2 as u32;
            let b3 = x3 as u32;
            // Basic validation
            assert(((x2 as u32) & 0xc0 == 0x80) <==> (0x80 <= x2 <= 0xbf)) by (bit_vector);
            assert(((x3 as u32) & 0xc0 == 0x80) <==> (0x80 <= x3 <= 0xbf)) by (bit_vector);
            if (b2 & 0xc0) == 0x80 && (b3 & 0xc0) == 0x80 {
                assert((((first as u32) & 0x0f) << 12) | (((x2 as u32) & 0x3f) << 6) | ((x3 as u32)
                    & 0x3f) == (((first & 0x0f) as u32) << 12) | (((x2 & 0x3f) as u32) << 6) | ((x3
                    & 0x3f) as u32)) by (bit_vector);
                (3, ((b1 & 0x0f) << 12) | ((b2 & 0x3f) << 6) | (b3 & 0x3f))
            } else {
                (1, REPLACEMENT)
            }
        } else {
            (1, REPLACEMENT)
        }
    } else if 0xf0 <= first && first <= 0xf7 {
        // 4-byte sequence
        if bytes.len() >= 4 {
            let x2 = bytes[1];
            let x3 = bytes[2];
            let x4 = bytes[3];
            let b2 = x2 as u32;
            let b3 = x3 as u32;
            let b4 = x4 as u32;
            // Basic validation
            assert(((x2 as u32) & 0xc0 == 0x80) <==> (0x80 <= x2 <= 0xbf)) by (bit_vector);
            assert(((x3 as u32) & 0xc0 == 0x80) <==> (0x80 <= x3 <= 0xbf)) by (bit_vector);
            assert(((x4 as u32) & 0xc0 == 0x80) <==> (0x80 <= x4 <= 0xbf)) by (bit_vector);
            if (b2 & 0xc0) == 0x80 && (b3 & 0xc0) == 0x80 && (b4 & 0xc0) == 0x80 {
                assert((((first as u32) & 0x07) << 18) | (((x2 as u32) & 0x3f) << 12) | (((
                x3 as u32) & 0x3f) << 6) | ((x4 as u32) & 0x3f) == (((first & 0x07) as u32) << 18)
                    | (((x2 & 0x3f) as u32) << 12) | (((x3 & 0x3f) as u32) << 6) | ((x4
                    & 0x3f) as u32)) by (bit_vector);
                (4, ((b1 & 0x07) << 18) | ((b2 & 0x3f) << 12) | ((b3 & 0x3f) << 6) | (b4 & 0x3f))
            } else {
                (1, REPLACEMENT)
            }
        } else {
            (1, REPLACEMENT)
        }
    } else {
        // Invalid UTF-8 start byte
        (1, REPLACEMENT)
    }
}

/// Skips the whitespace behind a line continuation, from `i` on, and hands
/// out an error for every further line break. Returns where the skip ends.
fn skip_ascii_whitespace_bytes_fast(
    bytes: &[u8],
    from: usize,
    out: &mut Vec<Unescaped>,
    Ghost(unicode): Ghost<bool>,
) -> (end: usize)
    requires
        from <= bytes@.len(),
    ensures
        from <= end <= bytes@.len(),
        as_pieces(final(out)@) + str_pieces(bytes@, end as int, unicode, false) == as_pieces(
            old(out)@,
        ) + str_pieces(bytes@, from as int, unicode, true),
{
    let len = bytes.len();
    let mut i = from;
    let ghost s = bytes@;
    let ghost all = as_pieces(out@) + str_pieces(s, i as int, unicode, true);

    while i < len
        invariant_except_break
            s == bytes@,
            len == s.len(),
            from <= i <= len,
            as_pieces(out@) + str_pieces(s, i as int, unicode, true) == all,
        ensures
            from <= i <= len,
            as_pieces(out@) + str_pieces(s, i as int, unicode, false) == all,
        decreases len - i,
    {
        let ghost before = as_pieces(out@);
        let b = bytes[i];
        if b == SPACE || b == TAB {
            // Skip consecutive spaces/tabs in one go
            let ghost entry = i;
            while i < len
                invariant_except_break
                    s == bytes@,
                    len == s.len(),
                    entry <= i <= len,
                    entry < len,
                    i == entry ==> s[i as int] == SPACE || s[i as int] == TAB,
                    as_pieces(out@) + str_pieces(s, i as int, unicode, true) == all,
                ensures
                    entry < i <= len,
                    as_pieces(out@) + str_pieces(s, i as int, unicode, true) == all,
                decreases len - i,
            {
                let c = bytes[i];
                if c == SPACE || c == TAB {
                    i += 1;
                } else {
                    break ;
                }
            }
        } else if b == LF {
            emit(out, i, i + 1, Err(EscapeError::CannotSkipMultipleLines));
            assert(as_pieces(out@) + str_pieces(s, i + 1, unicode, true) =~= before + (piece(
                i as int,
                i + 1,
                Err(EscapeError::CannotSkipMultipleLines),
            ) + str_pieces(s, i + 1, unicode, true)));
            i += 1;
        } else if b == CR {
            // Check for \r\n
            if i + 1 < len && bytes[i + 1] == LF {
                emit(out, i, i + 2, Err(EscapeError::CannotSkipMultipleLines));
                assert(as_pieces(out@) + str_pieces(s, i + 2, unicode, true) =~= before + (piece(
                    i as int,
                    i + 2,
                    Err(EscapeError::CannotSkipMultipleLines),
                ) + str_pieces(s, i + 2, unicode, true)));
                i += 2;
            } else {
                emit(out, i, i + 1, Err(EscapeError::BareCarriageReturn));
                assert(as_pieces(out@) + str_pieces(s, i + 1, unicode, true) =~= before + (piece(
                    i as int,
                    i + 1,
                    Err(EscapeError::BareCarriageReturn),
                ) + str_pieces(s, i + 1, unicode, true)));
                i += 1;
            }
        } else {
            break ;
        }
    }
    i
}

/// Unescape characters in a hex string literal.
///
/// See [`unescape_literal`] for more details.
fn unescape_hex_str(src: &str) -> (out: Vec<Unescaped>)
    ensures
        as_pieces(out@) == hex_literal_pieces(src.spec_bytes()),
{
    let bytes = src.as_bytes();
    let len = bytes.len();
    let ghost s = bytes@;
    let mut out: Vec<Unescaped> = Vec::new();
    let mut start: usize = 0;
    if len >= 2 && bytes[0] == DIGIT_0 && (bytes[1] == LOWER_X || bytes[1] == UPPER_X) {
        start = 2;
        emit(&mut out, 0, 2, Err(EscapeError::HexPrefix));
    }
    let ghost prefix = as_pieces(out@);
    assert(prefix =~= if has_hex_prefix(s) {
        piece(0, 2, Err(EscapeError::HexPrefix))
    } else {
        Seq::empty()
    });

    let mut count: usize = 0;
    let mut k = start;
    while k < len
        invariant
            s == bytes@,
            len == s.len(),
            start <= k <= len,
            count <= k,
            count + count_hex_digits(s, k as int) == count_hex_digits(s, start as int),
        decreases len - k,
    {
        if is_hex_digit_byte(bytes[k]) {
            count += 1;
        }
        k += 1;
    }
    if count % 2 != 0 {
        emit(&mut out, 0, len, Err(EscapeError::HexOddDigits));
        return out;
    }
    let mut emit_underscore_errors = true;
    let mut allow_underscore = false;
    let mut even = true;
    let mut i = start;
    let ghost all = hex_literal_pieces(s);
    while i < len
        invariant
            s == bytes@,
            len == s.len(),
            i <= len,
            as_pieces(out@) + hex_pieces(
                s,
                i as int,
                emit_underscore_errors,
                allow_underscore,
                even,
            ) == all,
        decreases len - i,
    {
        let ghost before = as_pieces(out@);
        let c = bytes[i];
        if c == UNDERSCORE {
            if emit_underscore_errors && (!allow_underscore || !even) {
                // Don't spam errors for multiple underscores.
                emit_underscore_errors = false;
                emit(&mut out, i, i + 1, Err(EscapeError::HexBadUnderscore));
                assert(as_pieces(out@) + hex_pieces(s, i + 1, false, allow_underscore, even)
                    =~= before + (piece(i as int, i + 1, Err(EscapeError::HexBadUnderscore))
                    + hex_pieces(s, i + 1, false, allow_underscore, even)));
            } else {
                allow_underscore = false;
            }
            i += 1;
        } else if !is_hex_digit_byte(c) {
            let (ch_len, _) = decode_utf8_with_len(slice_subrange(bytes, i, len));
            assert(bytes@.subrange(i as int, len as int) =~= s.skip(i as int));
            let end = i + ch_len;
            emit(&mut out, i, end, Err(EscapeError::HexNotHexDigit));
            assert(as_pieces(out@) + hex_pieces(
                s,
                end as int,
                emit_underscore_errors,
                allow_underscore,
                even,
            ) =~= before + (piece(i as int, end as int, Err(EscapeError::HexNotHexDigit))
                + hex_pieces(s, end as int, emit_underscore_errors, allow_underscore, even)));
            i = end;
        } else {
            emit(&mut out, i, i + 1, Ok(c as u32));
            assert(as_pieces(out@) + hex_pieces(s, i + 1, emit_underscore_errors, true, !even)
                =~= before + (piece(i as int, i + 1, Ok(c as u32)) + hex_pieces(
                s,
                i + 1,
                emit_underscore_errors,
                true,
                !even,
            )));
            even = !even;
            allow_underscore = true;
            i += 1;
        }
    }
    let ghost before = as_pieces(out@);
    if emit_underscore_errors && len > 1 && bytes[len - 1] == UNDERSCORE {
        emit(&mut out, len - 1, len, Err(EscapeError::HexBadUnderscore));
    } else {
        assert(before + Seq::<Piece>::empty() =~= before);
    }
    out
}

/// Unescapes the contents of a string literal (without quotes).
///
/// See [`unescape_literal`] for more details.
fn unescape_literal_unchecked(src: &str, mode: Mode) -> (out: Vec<Unescaped>)
    ensures
        as_pieces(out@) == pieces(src.spec_bytes(), mode),
{
    match mode {
        Mode::Str => unescape_str(src, false),
        Mode::UnicodeStr => unescape_str(src, true),
        Mode::HexStr => unescape_hex_str(src),
    }
}

} // verus!
