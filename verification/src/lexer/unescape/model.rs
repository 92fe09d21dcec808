//! The contents of a string literal as a sequence of pieces: each piece is a
//! range of the source and either the code point that the range stands for or
//! what is wrong with it.

use vstd::prelude::*;
use crate::hex::{decoded, hex_value};
use crate::lexer::ascii::{
    BACKSLASH, CR, DIGIT_0, DOUBLE_QUOTE, LF, LOWER_N, LOWER_R, LOWER_T, LOWER_U, LOWER_X,
    SINGLE_QUOTE, SPACE, TAB, UNDERSCORE, UPPER_X,
};
use crate::lexer::char_class::hex_digit;
use crate::lexer::unescape::errors::EscapeError;
use crate::lexer::unescape::Mode;
use crate::lexer::utf8::{first_code_point, lemma_first_code_point_len, raw_utf8};

verus! {

/// A piece of a literal: where it starts and ends in the source, and its
/// code point or its error.
pub type Piece = (int, int, Result<u32, EscapeError>);

/// The sequence of one piece.
pub open spec fn piece(start: int, end: int, value: Result<u32, EscapeError>) -> Seq<Piece> {
    seq![(start, end, value)]
}

/// Where the code point that starts at `at` ends.
pub open spec fn code_point_end(s: Seq<u8>, at: int) -> int {
    at + first_code_point(s.skip(at)).0
}

/// The code point that a one-letter escape stands for: `\'`, `\"`, `\\`,
/// `\n`, `\r`, `\t`.
pub open spec fn simple_escape(c: u8) -> Option<u32> {
    if c == SINGLE_QUOTE {
        Some(0x27u32)
    } else if c == DOUBLE_QUOTE {
        Some(0x22u32)
    } else if c == BACKSLASH {
        Some(0x5cu32)
    } else if c == LOWER_N {
        Some(0x0au32)
    } else if c == LOWER_R {
        Some(0x0du32)
    } else if c == LOWER_T {
        Some(0x09u32)
    } else {
        None
    }
}

/// The rest of a numeric escape: `digits` hexadecimal digits are still owed
/// at `at`, and `value` is what the digits before them gave. Gives where the
/// escape ends and its value: `short` where the input ends too early, and
/// `invalid` for a code point that is no hexadecimal digit, which is then part
/// of the escape.
pub open spec fn numeric_escape(
    s: Seq<u8>,
    at: int,
    digits: nat,
    value: int,
    short: EscapeError,
    invalid: EscapeError,
) -> (int, Result<u32, EscapeError>)
    decreases digits,
{
    if digits == 0 {
        (at, Ok(value as u32))
    } else if at < 0 || at >= s.len() {
        (at, Err(short))
    } else if !hex_digit(s[at]) {
        (code_point_end(s, at), Err(invalid))
    } else {
        numeric_escape(s, at + 1, (digits - 1) as nat, value * 16 + hex_value(s[at]), short, invalid)
    }
}

/// The escape whose backslash ends at `at`: where it ends and its value.
/// `\x` takes two hexadecimal digits, `\u` four; a code point that starts no
/// escape is an error and part of it.
pub open spec fn escape(s: Seq<u8>, at: int) -> (int, Result<u32, EscapeError>)
    recommends
        0 <= at < s.len(),
{
    let c = s[at];
    if simple_escape(c) is Some {
        (at + 1, Ok(simple_escape(c)->0))
    } else if c == LOWER_X {
        numeric_escape(
            s,
            at + 1,
            2,
            0,
            EscapeError::HexEscapeTooShort,
            EscapeError::InvalidHexEscape,
        )
    } else if c == LOWER_U {
        numeric_escape(
            s,
            at + 1,
            4,
            0,
            EscapeError::UnicodeEscapeTooShort,
            EscapeError::InvalidUnicodeEscape,
        )
    } else {
        (code_point_end(s, at), Err(EscapeError::InvalidEscape))
    }
}

/// Sixteen to the power of `n`, for the few digits an escape can have.
pub open spec fn pow16(n: nat) -> int {
    if n == 0 {
        1
    } else if n == 1 {
        16
    } else if n == 2 {
        256
    } else if n == 3 {
        4096
    } else {
        65536
    }
}

/// A numeric escape ends inside the input. Where it has a value, it is as
/// long as its digits, and the value has no more hexadecimal digits than were
/// read: `seen` before `at`, and `digits` from there.
pub proof fn lemma_numeric_escape(
    s: Seq<u8>,
    at: int,
    digits: nat,
    value: int,
    short: EscapeError,
    invalid: EscapeError,
    seen: nat,
)
    requires
        0 <= at <= s.len(),
        seen + digits <= 4,
        0 <= value < pow16(seen),
    ensures
        at <= numeric_escape(s, at, digits, value, short, invalid).0 <= s.len(),
        numeric_escape(s, at, digits, value, short, invalid).1 matches Ok(v) ==> {
            &&& numeric_escape(s, at, digits, value, short, invalid).0 == at + digits
            &&& v < pow16(seen + digits)
        },
    decreases digits,
{
    if digits > 0 && at < s.len() {
        if hex_digit(s[at]) {
            lemma_numeric_escape(
                s,
                at + 1,
                (digits - 1) as nat,
                value * 16 + hex_value(s[at]),
                short,
                invalid,
                seen + 1,
            );
        } else {
            lemma_first_code_point_len(s.skip(at));
        }
    }
}

/// An escape holds at least the byte after its backslash and ends inside the
/// input.
pub proof fn lemma_escape(s: Seq<u8>, at: int)
    requires
        0 <= at < s.len(),
    ensures
        at < escape(s, at).0 <= s.len(),
{
    lemma_first_code_point_len(s.skip(at));
    lemma_numeric_escape(
        s,
        at + 1,
        2,
        0,
        EscapeError::HexEscapeTooShort,
        EscapeError::InvalidHexEscape,
        0,
    );
    lemma_numeric_escape(
        s,
        at + 1,
        4,
        0,
        EscapeError::UnicodeEscapeTooShort,
        EscapeError::InvalidUnicodeEscape,
        0,
    );
}

/// The pieces of a string literal, `unicode"..."` or plain, from `at` on.
///
/// While `skipping`, the scan is behind a line continuation (a backslash
/// before a line break): spaces and tabs are passed over in silence, every
/// further line break is an error, and the first other byte ends the skip.
///
/// Else a backslash starts an escape, and is alone an error at the end of the
/// input; a bare line feed or carriage return is an error, and a carriage
/// return before a line feed is passed over; an ASCII byte stands for itself,
/// and a code point outside ASCII for itself in a `unicode` literal, and is an
/// error in a plain one.
pub open spec fn str_pieces(s: Seq<u8>, at: int, unicode: bool, skipping: bool) -> Seq<Piece>
    decreases s.len() - at, if skipping { 1int } else { 0int },
{
    if at < 0 || at >= s.len() {
        Seq::empty()
    } else if skipping {
        let b = s[at];
        if b == SPACE || b == TAB {
            str_pieces(s, at + 1, unicode, true)
        } else if b == LF {
            piece(at, at + 1, Err(EscapeError::CannotSkipMultipleLines)) + str_pieces(
                s,
                at + 1,
                unicode,
                true,
            )
        } else if b == CR {
            if at + 1 < s.len() && s[at + 1] == LF {
                piece(at, at + 2, Err(EscapeError::CannotSkipMultipleLines)) + str_pieces(
                    s,
                    at + 2,
                    unicode,
                    true,
                )
            } else {
                piece(at, at + 1, Err(EscapeError::BareCarriageReturn)) + str_pieces(
                    s,
                    at + 1,
                    unicode,
                    true,
                )
            }
        } else {
            str_pieces(s, at, unicode, false)
        }
    } else {
        let b = s[at];
        if b == BACKSLASH {
            if at + 1 >= s.len() {
                piece(at, at + 1, Err(EscapeError::LoneSlash))
            } else if s[at + 1] == CR && at + 2 < s.len() && s[at + 2] == LF {
                str_pieces(s, at + 3, unicode, true)
            } else if s[at + 1] == LF {
                str_pieces(s, at + 2, unicode, true)
            } else {
                let (end, value) = escape(s, at + 1);
                proof {
                    lemma_escape(s, at + 1);
                }
                piece(at, end, value) + str_pieces(s, end, unicode, false)
            }
        } else if b == LF {
            piece(at, at + 1, Err(EscapeError::StrNewline)) + str_pieces(s, at + 1, unicode, false)
        } else if b == CR {
            if at + 1 < s.len() && s[at + 1] == LF {
                str_pieces(s, at + 1, unicode, false)
            } else {
                piece(at, at + 1, Err(EscapeError::BareCarriageReturn)) + str_pieces(
                    s,
                    at + 1,
                    unicode,
                    false,
                )
            }
        } else if b < 0x80 {
            piece(at, at + 1, Ok(b as u32)) + str_pieces(s, at + 1, unicode, false)
        } else {
            let (len, code) = first_code_point(s.skip(at));
            proof {
                lemma_first_code_point_len(s.skip(at));
            }
            piece(
                at,
                at + len,
                if unicode {
                    Ok(code)
                } else {
                    Err(EscapeError::StrNonAsciiChar)
                },
            ) + str_pieces(s, at + len, unicode, false)
        }
    }
}

/// The literal starts with `0x` or `0X`.
pub open spec fn has_hex_prefix(s: Seq<u8>) -> bool {
    s.len() >= 2 && s[0] == DIGIT_0 && (s[1] == LOWER_X || s[1] == UPPER_X)
}

/// How many bytes from `at` on are hexadecimal digits.
pub open spec fn count_hex_digits(s: Seq<u8>, at: int) -> nat
    decreases s.len() - at,
{
    if at < 0 || at >= s.len() {
        0
    } else if hex_digit(s[at]) {
        1 + count_hex_digits(s, at + 1)
    } else {
        count_hex_digits(s, at + 1)
    }
}

/// The pieces of the digits of a `hex"..."` literal from `at` on.
///
/// A hexadecimal digit stands for itself; any other code point but `_` is an
/// error. `_` may stand between two pairs of digits only: `allow` says that
/// the byte before was a digit, `even` that an even number of digits came
/// before. The first `_` that stands elsewhere is an error, and while `report`
/// holds none was reported yet; later ones are passed over. A `_` at the very
/// end is such an error too.
pub open spec fn hex_pieces(s: Seq<u8>, at: int, report: bool, allow: bool, even: bool) -> Seq<
    Piece,
>
    decreases s.len() - at,
{
    if at < 0 || at >= s.len() {
        if report && s.len() > 1 && s.last() == UNDERSCORE {
            piece(s.len() - 1, s.len() as int, Err(EscapeError::HexBadUnderscore))
        } else {
            Seq::empty()
        }
    } else if s[at] == UNDERSCORE {
        if report && (!allow || !even) {
            piece(at, at + 1, Err(EscapeError::HexBadUnderscore)) + hex_pieces(
                s,
                at + 1,
                false,
                allow,
                even,
            )
        } else {
            hex_pieces(s, at + 1, report, false, even)
        }
    } else if !hex_digit(s[at]) {
        let end = code_point_end(s, at);
        proof {
            lemma_first_code_point_len(s.skip(at));
        }
        piece(at, end, Err(EscapeError::HexNotHexDigit)) + hex_pieces(s, end, report, allow, even)
    } else {
        piece(at, at + 1, Ok(s[at] as u32)) + hex_pieces(s, at + 1, report, true, !even)
    }
}

/// The pieces of a `hex"..."` literal: an error for a `0x` prefix, which is
/// then passed over; then a single error for the whole literal where the
/// number of digits is odd, else the pieces of the digits.
pub open spec fn hex_literal_pieces(s: Seq<u8>) -> Seq<Piece> {
    let start = if has_hex_prefix(s) {
        2int
    } else {
        0int
    };
    let prefix = if has_hex_prefix(s) {
        piece(0, 2, Err(EscapeError::HexPrefix))
    } else {
        Seq::empty()
    };
    if count_hex_digits(s, start) % 2 != 0 {
        prefix + piece(0, s.len() as int, Err(EscapeError::HexOddDigits))
    } else {
        prefix + hex_pieces(s, start, true, false, true)
    }
}

/// The pieces of the contents of a literal, quotes stripped.
pub open spec fn pieces(s: Seq<u8>, mode: Mode) -> Seq<Piece> {
    match mode {
        Mode::Str => str_pieces(s, 0, false, false),
        Mode::UnicodeStr => str_pieces(s, 0, true, false),
        Mode::HexStr => hex_literal_pieces(s),
    }
}

/// The bytes that a piece adds to the value of a literal: the UTF-8 form of
/// its code point; nothing for an error.
pub open spec fn piece_bytes(p: Piece) -> Seq<u8> {
    match p.2 {
        Ok(code) => raw_utf8(code),
        Err(_) => Seq::empty(),
    }
}

/// The bytes of all pieces, in order.
pub open spec fn pieces_bytes(pieces: Seq<Piece>) -> Seq<u8>
    decreases pieces.len(),
{
    if pieces.len() == 0 {
        Seq::empty()
    } else {
        pieces_bytes(pieces.drop_last()) + piece_bytes(pieces.last())
    }
}

/// The errors among the pieces, in order, each with its range.
pub open spec fn pieces_errors(pieces: Seq<Piece>) -> Seq<(int, int, EscapeError)>
    decreases pieces.len(),
{
    if pieces.len() == 0 {
        Seq::empty()
    } else {
        let last = pieces.last();
        pieces_errors(pieces.drop_last()) + match last.2 {
            Ok(_) => Seq::empty(),
            Err(e) => seq![(last.0, last.1, e)],
        }
    }
}

/// The value of a literal: for a string, plain or `unicode`, the bytes of its
/// pieces; for a `hex` string, the bytes that its digits stand for in pairs.
pub open spec fn literal_bytes(s: Seq<u8>, mode: Mode) -> Seq<u8> {
    match mode {
        Mode::HexStr => decoded(pieces_bytes(pieces(s, mode))),
        _ => pieces_bytes(pieces(s, mode)),
    }
}

} // verus!
