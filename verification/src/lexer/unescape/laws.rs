//! Laws of unescaping: the value of a literal is never longer than its
//! source, and a literal that holds nothing to unescape is its own value.

use vstd::prelude::*;
use vstd::utf8::valid_utf8;
use crate::hex::{all_hex_digits, decodable, strip_prefix};
use crate::lexer::ascii::{BACKSLASH, CR, LF, LOWER_X, SPACE, TAB, UNDERSCORE};
use crate::lexer::char_class::hex_digit;
use crate::lexer::unescape::errors::EscapeError;
use crate::lexer::unescape::model::{
    code_point_end, count_hex_digits, escape, has_hex_prefix, hex_literal_pieces, hex_pieces,
    lemma_escape, lemma_numeric_escape, literal_bytes, numeric_escape, piece, piece_bytes, pieces,
    pieces_bytes, pieces_errors, simple_escape, str_pieces, Piece,
};
use crate::lexer::unescape::Mode;
use crate::lexer::utf8::{
    first_code_point, lemma_first_code_point_ascii, lemma_first_code_point_fits,
    lemma_first_code_point_len, lemma_first_code_point_valid, lemma_raw_utf8_ascii,
    lemma_raw_utf8_of_first, raw_utf8,
};

verus! {

/// The bytes of two runs of pieces, one after the other.
pub proof fn lemma_pieces_bytes_concat(a: Seq<Piece>, b: Seq<Piece>)
    ensures
        pieces_bytes(a + b) == pieces_bytes(a) + pieces_bytes(b),
    decreases b.len(),
{
    if b.len() == 0 {
        assert(a + b =~= a);
        assert(pieces_bytes(a) + pieces_bytes(b) =~= pieces_bytes(a));
    } else {
        assert((a + b).drop_last() =~= a + b.drop_last());
        assert((a + b).last() == b.last());
        lemma_pieces_bytes_concat(a, b.drop_last());
        assert(pieces_bytes(a + b) =~= pieces_bytes(a) + pieces_bytes(b));
    }
}

/// The errors of two runs of pieces, one after the other.
pub proof fn lemma_pieces_errors_concat(a: Seq<Piece>, b: Seq<Piece>)
    ensures
        pieces_errors(a + b) == pieces_errors(a) + pieces_errors(b),
    decreases b.len(),
{
    if b.len() == 0 {
        assert(a + b =~= a);
        assert(pieces_errors(a) + pieces_errors(b) =~= pieces_errors(a));
    } else {
        assert((a + b).drop_last() =~= a + b.drop_last());
        assert((a + b).last() == b.last());
        lemma_pieces_errors_concat(a, b.drop_last());
        assert(pieces_errors(a + b) =~= pieces_errors(a) + pieces_errors(b));
    }
}

/// The bytes and the errors of a single piece.
pub proof fn lemma_piece_alone(start: int, end: int, value: Result<u32, EscapeError>)
    ensures
        pieces_bytes(piece(start, end, value)) == piece_bytes((start, end, value)),
        pieces_errors(piece(start, end, value)) == match value {
            Ok(_) => Seq::<(int, int, EscapeError)>::empty(),
            Err(e) => seq![(start, end, e)],
        },
{
    let one = piece(start, end, value);
    assert(one.drop_last() =~= Seq::<Piece>::empty());
    assert(pieces_bytes(one.drop_last()) =~= Seq::<u8>::empty());
    assert(pieces_errors(one.drop_last()) =~= Seq::<(int, int, EscapeError)>::empty());
    assert(pieces_bytes(one) =~= piece_bytes((start, end, value)));
    assert(pieces_errors(one) =~= match value {
        Ok(_) => Seq::<(int, int, EscapeError)>::empty(),
        Err(e) => seq![(start, end, e)],
    });
}

/// A piece in front of others: its bytes and errors come first.
pub proof fn lemma_piece_then(start: int, end: int, value: Result<u32, EscapeError>, rest: Seq<Piece>)
    ensures
        pieces_bytes(piece(start, end, value) + rest) == piece_bytes((start, end, value))
            + pieces_bytes(rest),
        pieces_errors(piece(start, end, value) + rest) == pieces_errors(piece(start, end, value))
            + pieces_errors(rest),
        pieces_errors(piece(start, end, value)) == match value {
            Ok(_) => Seq::<(int, int, EscapeError)>::empty(),
            Err(e) => seq![(start, end, e)],
        },
{
    lemma_piece_alone(start, end, value);
    lemma_pieces_bytes_concat(piece(start, end, value), rest);
    lemma_pieces_errors_concat(piece(start, end, value), rest);
}

/// Behind an ASCII byte of valid UTF-8 stands valid UTF-8.
pub proof fn lemma_step_ascii(s: Seq<u8>, at: int)
    requires
        0 <= at < s.len(),
        s[at] < 0x80,
        valid_utf8(s.skip(at)),
    ensures
        valid_utf8(s.skip(at + 1)),
{
    let t = s.skip(at);
    lemma_first_code_point_valid(t);
    lemma_first_code_point_ascii(t);
    assert(t.skip(1) =~= s.skip(at + 1));
}

/// Behind a code point of valid UTF-8 stands valid UTF-8.
pub proof fn lemma_step_code_point(s: Seq<u8>, at: int)
    requires
        0 <= at < s.len(),
        valid_utf8(s.skip(at)),
    ensures
        at < code_point_end(s, at) <= s.len(),
        valid_utf8(s.skip(code_point_end(s, at))),
{
    let t = s.skip(at);
    lemma_first_code_point_valid(t);
    lemma_first_code_point_len(t);
    assert(t.skip(first_code_point(t).0) =~= s.skip(code_point_end(s, at)));
}

/// Behind the digits of a numeric escape in valid UTF-8 stands valid UTF-8.
pub proof fn lemma_numeric_escape_valid(
    s: Seq<u8>,
    at: int,
    digits: nat,
    value: int,
    short: EscapeError,
    invalid: EscapeError,
)
    requires
        0 <= at <= s.len(),
        valid_utf8(s.skip(at)),
    ensures
        valid_utf8(s.skip(numeric_escape(s, at, digits, value, short, invalid).0)),
    decreases digits,
{
    if digits > 0 && at < s.len() {
        if hex_digit(s[at]) {
            lemma_step_ascii(s, at);
            lemma_numeric_escape_valid(
                s,
                at + 1,
                (digits - 1) as nat,
                value * 16 + crate::hex::hex_value(s[at]),
                short,
                invalid,
            );
        } else {
            lemma_step_code_point(s, at);
        }
    }
}

/// Behind an escape in valid UTF-8 stands valid UTF-8, and the value of the
/// escape takes fewer bytes than the escape with its backslash.
pub proof fn lemma_escape_valid(s: Seq<u8>, at: int)
    requires
        0 <= at < s.len(),
        valid_utf8(s.skip(at)),
    ensures
        at < escape(s, at).0 <= s.len(),
        valid_utf8(s.skip(escape(s, at).0)),
        escape(s, at).1 matches Ok(v) ==> raw_utf8(v).len() < escape(s, at).0 - at + 1,
{
    lemma_escape(s, at);
    let c = s[at];
    if simple_escape(c) is Some {
        lemma_step_ascii(s, at);
    } else if c == LOWER_X {
        lemma_step_ascii(s, at);
        lemma_numeric_escape(
            s,
            at + 1,
            2,
            0,
            EscapeError::HexEscapeTooShort,
            EscapeError::InvalidHexEscape,
            0,
        );
        lemma_numeric_escape_valid(
            s,
            at + 1,
            2,
            0,
            EscapeError::HexEscapeTooShort,
            EscapeError::InvalidHexEscape,
        );
    } else if c == crate::lexer::ascii::LOWER_U {
        lemma_step_ascii(s, at);
        lemma_numeric_escape(
            s,
            at + 1,
            4,
            0,
            EscapeError::UnicodeEscapeTooShort,
            EscapeError::InvalidUnicodeEscape,
            0,
        );
        lemma_numeric_escape_valid(
            s,
            at + 1,
            4,
            0,
            EscapeError::UnicodeEscapeTooShort,
            EscapeError::InvalidUnicodeEscape,
        );
    } else {
        lemma_step_code_point(s, at);
    }
}

/// From any code point boundary of valid UTF-8 on, the pieces of a string
/// literal give no more bytes than the source has left.
pub proof fn lemma_str_bytes_len(s: Seq<u8>, at: int, unicode: bool, skipping: bool)
    requires
        0 <= at <= s.len(),
        valid_utf8(s.skip(at)),
    ensures
        pieces_bytes(str_pieces(s, at, unicode, skipping)).len() <= s.len() - at,
    decreases s.len() - at, if skipping { 1int } else { 0int },
{
    if at >= s.len() {
    } else if skipping {
        let b = s[at];
        if b == SPACE || b == TAB {
            lemma_step_ascii(s, at);
            lemma_str_bytes_len(s, at + 1, unicode, true);
        } else if b == LF {
            lemma_step_ascii(s, at);
            lemma_str_bytes_len(s, at + 1, unicode, true);
            lemma_piece_then(
                at,
                at + 1,
                Err(EscapeError::CannotSkipMultipleLines),
                str_pieces(s, at + 1, unicode, true),
            );
        } else if b == CR {
            lemma_step_ascii(s, at);
            if at + 1 < s.len() && s[at + 1] == LF {
                lemma_step_ascii(s, at + 1);
                lemma_str_bytes_len(s, at + 2, unicode, true);
                lemma_piece_then(
                    at,
                    at + 2,
                    Err(EscapeError::CannotSkipMultipleLines),
                    str_pieces(s, at + 2, unicode, true),
                );
            } else {
                lemma_str_bytes_len(s, at + 1, unicode, true);
                lemma_piece_then(
                    at,
                    at + 1,
                    Err(EscapeError::BareCarriageReturn),
                    str_pieces(s, at + 1, unicode, true),
                );
            }
        } else {
            lemma_str_bytes_len(s, at, unicode, false);
        }
    } else {
        let b = s[at];
        if b == BACKSLASH {
            lemma_step_ascii(s, at);
            if at + 1 >= s.len() {
                lemma_piece_alone(at, at + 1, Err(EscapeError::LoneSlash));
            } else if s[at + 1] == CR && at + 2 < s.len() && s[at + 2] == LF {
                lemma_step_ascii(s, at + 1);
                lemma_step_ascii(s, at + 2);
                lemma_str_bytes_len(s, at + 3, unicode, true);
            } else if s[at + 1] == LF {
                lemma_step_ascii(s, at + 1);
                lemma_str_bytes_len(s, at + 2, unicode, true);
            } else {
                lemma_escape_valid(s, at + 1);
                let (end, value) = escape(s, at + 1);
                lemma_str_bytes_len(s, end, unicode, false);
                lemma_piece_then(at, end, value, str_pieces(s, end, unicode, false));
            }
        } else if b == LF {
            lemma_step_ascii(s, at);
            lemma_str_bytes_len(s, at + 1, unicode, false);
            lemma_piece_then(
                at,
                at + 1,
                Err(EscapeError::StrNewline),
                str_pieces(s, at + 1, unicode, false),
            );
        } else if b == CR {
            lemma_step_ascii(s, at);
            lemma_str_bytes_len(s, at + 1, unicode, false);
            lemma_piece_then(
                at,
                at + 1,
                Err(EscapeError::BareCarriageReturn),
                str_pieces(s, at + 1, unicode, false),
            );
        } else if b < 0x80 {
            lemma_step_ascii(s, at);
            lemma_str_bytes_len(s, at + 1, unicode, false);
            lemma_raw_utf8_ascii(b);
            lemma_piece_then(at, at + 1, Ok(b as u32), str_pieces(s, at + 1, unicode, false));
        } else {
            lemma_step_code_point(s, at);
            let (len, code) = first_code_point(s.skip(at));
            lemma_first_code_point_valid(s.skip(at));
            lemma_first_code_point_fits(s.skip(at));
            lemma_str_bytes_len(s, at + len, unicode, false);
            let value: Result<u32, EscapeError> = if unicode {
                Ok(code)
            } else {
                Err(EscapeError::StrNonAsciiChar)
            };
            lemma_piece_then(at, at + len, value, str_pieces(s, at + len, unicode, false));
        }
    }
}

/// The bytes of the pieces of the digits of a `hex` literal are hexadecimal
/// digits, as many as the source holds from `at` on.
pub proof fn lemma_hex_pieces_digits(s: Seq<u8>, at: int, report: bool, allow: bool, even: bool)
    requires
        0 <= at <= s.len(),
    ensures
        all_hex_digits(pieces_bytes(hex_pieces(s, at, report, allow, even))),
        pieces_bytes(hex_pieces(s, at, report, allow, even)).len() == count_hex_digits(s, at),
        count_hex_digits(s, at) <= s.len() - at,
    decreases s.len() - at,
{
    if at >= s.len() {
        if report && s.len() > 1 && s.last() == UNDERSCORE {
            lemma_piece_alone(s.len() - 1, s.len() as int, Err(EscapeError::HexBadUnderscore));
        }
    } else if s[at] == UNDERSCORE {
        if report && (!allow || !even) {
            lemma_hex_pieces_digits(s, at + 1, false, allow, even);
            lemma_piece_then(
                at,
                at + 1,
                Err(EscapeError::HexBadUnderscore),
                hex_pieces(s, at + 1, false, allow, even),
            );
        } else {
            lemma_hex_pieces_digits(s, at + 1, report, false, even);
        }
    } else if !hex_digit(s[at]) {
        let end = code_point_end(s, at);
        lemma_first_code_point_len(s.skip(at));
        lemma_hex_pieces_digits(s, end, report, allow, even);
        lemma_piece_then(
            at,
            end,
            Err(EscapeError::HexNotHexDigit),
            hex_pieces(s, end, report, allow, even),
        );
        lemma_count_skips(s, at, end);
    } else {
        lemma_hex_pieces_digits(s, at + 1, report, true, !even);
        lemma_raw_utf8_ascii(s[at]);
        lemma_piece_then(at, at + 1, Ok(s[at] as u32), hex_pieces(s, at + 1, report, true, !even));
        let rest = pieces_bytes(hex_pieces(s, at + 1, report, true, !even));
        let got = pieces_bytes(hex_pieces(s, at, report, allow, even));
        assert(got =~= seq![s[at]] + rest);
        assert forall|i: int| 0 <= i < got.len() implies hex_digit(#[trigger] got[i]) by {
            if i > 0 {
                assert(got[i] == rest[i - 1]);
            }
        }
    }
}

/// The bytes of a code point that is no hexadecimal digit hold none: a tail
/// byte of UTF-8 is no ASCII.
pub proof fn lemma_count_skips(s: Seq<u8>, at: int, end: int)
    requires
        0 <= at < s.len(),
        !hex_digit(s[at]),
        end == code_point_end(s, at),
    ensures
        count_hex_digits(s, at) == count_hex_digits(s, end),
{
    let t = s.skip(at);
    lemma_first_code_point_len(t);
    assert(forall|k: int| 0 <= k < t.len() ==> t[k] == s[at + k]);
    if end > at + 1 {
        assert(!hex_digit(s[at + 1]));
        if end > at + 2 {
            assert(!hex_digit(s[at + 2]));
            if end > at + 3 {
                assert(!hex_digit(s[at + 3]));
            }
        }
    }
    reveal_with_fuel(count_hex_digits, 5);
}

/// The digits that a `hex` literal hands out can be decoded: they are
/// hexadecimal digits, an even number of them, no more than the source has
/// bytes, and no prefix stands before them.
pub proof fn lemma_hex_literal_digits(s: Seq<u8>)
    ensures
        all_hex_digits(pieces_bytes(hex_literal_pieces(s))),
        pieces_bytes(hex_literal_pieces(s)).len() % 2 == 0,
        pieces_bytes(hex_literal_pieces(s)).len() <= s.len(),
        strip_prefix(pieces_bytes(hex_literal_pieces(s))) == pieces_bytes(hex_literal_pieces(s)),
        decodable(pieces_bytes(hex_literal_pieces(s))),
{
    let start = if has_hex_prefix(s) {
        2int
    } else {
        0int
    };
    let prefix = if has_hex_prefix(s) {
        piece(0, 2, Err(EscapeError::HexPrefix))
    } else {
        Seq::<Piece>::empty()
    };
    lemma_piece_alone(0, 2, Err(EscapeError::HexPrefix));
    assert(pieces_bytes(prefix) =~= Seq::<u8>::empty());
    let digits = pieces_bytes(hex_literal_pieces(s));
    if count_hex_digits(s, start) % 2 != 0 {
        lemma_piece_then(0, s.len() as int, Err(EscapeError::HexOddDigits), Seq::empty());
        lemma_pieces_bytes_concat(
            prefix,
            piece(0, s.len() as int, Err(EscapeError::HexOddDigits)),
        );
        lemma_piece_alone(0, s.len() as int, Err(EscapeError::HexOddDigits));
        assert(digits =~= Seq::<u8>::empty());
    } else {
        lemma_hex_pieces_digits(s, start, true, false, true);
        lemma_pieces_bytes_concat(prefix, hex_pieces(s, start, true, false, true));
        assert(digits =~= pieces_bytes(hex_pieces(s, start, true, false, true)));
    }
    if digits.len() >= 2 {
        assert(hex_digit(digits[1]));
    }
}

/// The value of a literal is no longer than its source: an escape is longer
/// than the character it stands for, and two hexadecimal digits make one
/// byte.
pub proof fn law_value_no_longer_than_source(s: Seq<u8>, mode: Mode)
    requires
        valid_utf8(s),
    ensures
        literal_bytes(s, mode).len() <= s.len(),
        pieces_bytes(pieces(s, mode)).len() <= s.len(),
{
    assert(s.skip(0) =~= s);
    match mode {
        Mode::Str => lemma_str_bytes_len(s, 0, false, false),
        Mode::UnicodeStr => lemma_str_bytes_len(s, 0, true, false),
        Mode::HexStr => lemma_hex_literal_digits(s),
    }
}

/// The source holds nothing to unescape: in a string, plain or `unicode`, no
/// backslash and no line break, and in a plain one ASCII only; in a `hex`
/// string an even number of hexadecimal digits and nothing else.
pub open spec fn plain(s: Seq<u8>, mode: Mode) -> bool {
    match mode {
        Mode::Str => forall|i: int|
            0 <= i < s.len() ==> {
                let b = #[trigger] s[i];
                b < 0x80 && b != BACKSLASH && b != LF && b != CR
            },
        Mode::UnicodeStr => forall|i: int|
            0 <= i < s.len() ==> {
                let b = #[trigger] s[i];
                b != BACKSLASH && b != LF && b != CR
            },
        Mode::HexStr => s.len() % 2 == 0 && all_hex_digits(s),
    }
}

/// From any code point boundary on, a string with nothing to unescape has
/// no errors, and its pieces give the bytes of the source.
pub proof fn lemma_plain_str(s: Seq<u8>, at: int, unicode: bool)
    requires
        0 <= at <= s.len(),
        valid_utf8(s.skip(at)),
        plain(
            s,
            if unicode {
                Mode::UnicodeStr
            } else {
                Mode::Str
            },
        ),
    ensures
        pieces_bytes(str_pieces(s, at, unicode, false)) == s.skip(at),
        pieces_errors(str_pieces(s, at, unicode, false)).len() == 0,
    decreases s.len() - at,
{
    if at >= s.len() {
        assert(s.skip(at) =~= Seq::<u8>::empty());
    } else {
        let b = s[at];
        if b < 0x80 {
            lemma_step_ascii(s, at);
            lemma_plain_str(s, at + 1, unicode);
            lemma_raw_utf8_ascii(b);
            lemma_piece_then(at, at + 1, Ok(b as u32), str_pieces(s, at + 1, unicode, false));
            assert(s.skip(at) =~= seq![b] + s.skip(at + 1));
        } else {
            lemma_step_code_point(s, at);
            let (len, code) = first_code_point(s.skip(at));
            lemma_raw_utf8_of_first(s.skip(at));
            lemma_plain_str(s, at + len, unicode);
            lemma_piece_then(at, at + len, Ok(code), str_pieces(s, at + len, unicode, false));
            assert(s.skip(at) =~= s.skip(at).take(len) + s.skip(at + len));
        }
    }
}

/// Every byte from `at` on is a hexadecimal digit: the count is what is left.
pub proof fn lemma_count_all_hex(s: Seq<u8>, at: int)
    requires
        0 <= at <= s.len(),
        all_hex_digits(s),
    ensures
        count_hex_digits(s, at) == s.len() - at,
    decreases s.len() - at,
{
    if at < s.len() {
        lemma_count_all_hex(s, at + 1);
    }
}

/// From anywhere on, hexadecimal digits and nothing else have no errors,
/// and their pieces give the bytes of the source.
pub proof fn lemma_plain_hex(s: Seq<u8>, at: int, allow: bool, even: bool)
    requires
        0 <= at <= s.len(),
        all_hex_digits(s),
    ensures
        pieces_bytes(hex_pieces(s, at, true, allow, even)) == s.skip(at),
        pieces_errors(hex_pieces(s, at, true, allow, even)).len() == 0,
    decreases s.len() - at,
{
    if at >= s.len() {
        assert(s.skip(at) =~= Seq::<u8>::empty());
        if s.len() > 1 {
            assert(hex_digit(s[s.len() - 1]));
        }
    } else {
        assert(hex_digit(s[at]));
        lemma_plain_hex(s, at + 1, true, !even);
        lemma_raw_utf8_ascii(s[at]);
        lemma_piece_then(at, at + 1, Ok(s[at] as u32), hex_pieces(s, at + 1, true, true, !even));
        assert(s.skip(at) =~= seq![s[at]] + s.skip(at + 1));
    }
}

/// A literal with nothing to unescape has no errors, and its pieces give the
/// bytes of the source, one piece for each code point.
pub proof fn law_plain_literal_is_its_source(s: Seq<u8>, mode: Mode)
    requires
        valid_utf8(s),
        plain(s, mode),
    ensures
        pieces_bytes(pieces(s, mode)) == s,
        pieces_errors(pieces(s, mode)).len() == 0,
{
    assert(s.skip(0) =~= s);
    match mode {
        Mode::Str => lemma_plain_str(s, 0, false),
        Mode::UnicodeStr => lemma_plain_str(s, 0, true),
        Mode::HexStr => {
            if s.len() >= 2 {
                assert(hex_digit(s[1]));
            }
            lemma_count_all_hex(s, 0);
            lemma_plain_hex(s, 0, false, true);
            assert(Seq::<Piece>::empty() + hex_pieces(s, 0, true, false, true) =~= hex_pieces(
                s,
                0,
                true,
                false,
                true,
            ));
        },
    }
}

/// The pieces lie between `from` and `to`, none is empty, and none starts
/// before the one before it ends.
pub open spec fn in_order(pieces: Seq<Piece>, from: int, to: int) -> bool {
    &&& forall|k: int|
        0 <= k < pieces.len() ==> from <= (#[trigger] pieces[k]).0 < pieces[k].1 <= to
    &&& forall|k: int, m: int|
        0 <= k < m < pieces.len() ==> (#[trigger] pieces[k]).1 <= (#[trigger] pieces[m]).0
}

/// A piece in front of pieces in order that start where it ends or later.
pub proof fn lemma_in_order_then(
    start: int,
    end: int,
    value: Result<u32, EscapeError>,
    rest: Seq<Piece>,
    from: int,
    to: int,
)
    requires
        start < end <= from <= to,
        in_order(rest, from, to),
    ensures
        in_order(piece(start, end, value) + rest, start, to),
{
    let all = piece(start, end, value) + rest;
    assert forall|k: int| 0 <= k < all.len() implies start <= (#[trigger] all[k]).0 < all[k].1
        <= to by {
        if k > 0 {
            assert(all[k] == rest[k - 1]);
        }
    }
    assert forall|k: int, m: int| 0 <= k < m < all.len() implies (#[trigger] all[k]).1 <= (
    #[trigger] all[m]).0 by {
        assert(all[m] == rest[m - 1]);
        if k > 0 {
            assert(all[k] == rest[k - 1]);
        }
    }
}

/// Pieces in order stay in order between wider bounds.
pub proof fn lemma_in_order_wider(pieces: Seq<Piece>, from: int, wider: int, to: int)
    requires
        wider <= from,
        in_order(pieces, from, to),
    ensures
        in_order(pieces, wider, to),
{
}

/// From any position on, the pieces of a string literal come in the order
/// of the source, each inside the source, none empty and no two overlapping.
pub proof fn lemma_str_pieces_in_order(s: Seq<u8>, at: int, unicode: bool, skipping: bool)
    requires
        0 <= at <= s.len(),
    ensures
        in_order(str_pieces(s, at, unicode, skipping), at, s.len() as int),
    decreases s.len() - at, if skipping { 1int } else { 0int },
{
    let to = s.len() as int;
    if at >= s.len() {
    } else if skipping {
        let b = s[at];
        if b == SPACE || b == TAB {
            lemma_str_pieces_in_order(s, at + 1, unicode, true);
            lemma_in_order_wider(str_pieces(s, at + 1, unicode, true), at + 1, at, to);
        } else if b == LF {
            lemma_str_pieces_in_order(s, at + 1, unicode, true);
            lemma_in_order_then(
                at,
                at + 1,
                Err(EscapeError::CannotSkipMultipleLines),
                str_pieces(s, at + 1, unicode, true),
                at + 1,
                to,
            );
        } else if b == CR {
            if at + 1 < s.len() && s[at + 1] == LF {
                lemma_str_pieces_in_order(s, at + 2, unicode, true);
                lemma_in_order_then(
                    at,
                    at + 2,
                    Err(EscapeError::CannotSkipMultipleLines),
                    str_pieces(s, at + 2, unicode, true),
                    at + 2,
                    to,
                );
            } else {
                lemma_str_pieces_in_order(s, at + 1, unicode, true);
                lemma_in_order_then(
                    at,
                    at + 1,
                    Err(EscapeError::BareCarriageReturn),
                    str_pieces(s, at + 1, unicode, true),
                    at + 1,
                    to,
                );
            }
        } else {
            lemma_str_pieces_in_order(s, at, unicode, false);
        }
    } else {
        let b = s[at];
        if b == BACKSLASH {
            if at + 1 >= s.len() {
            } else if s[at + 1] == CR && at + 2 < s.len() && s[at + 2] == LF {
                lemma_str_pieces_in_order(s, at + 3, unicode, true);
                lemma_in_order_wider(str_pieces(s, at + 3, unicode, true), at + 3, at, to);
            } else if s[at + 1] == LF {
                lemma_str_pieces_in_order(s, at + 2, unicode, true);
                lemma_in_order_wider(str_pieces(s, at + 2, unicode, true), at + 2, at, to);
            } else {
                lemma_escape(s, at + 1);
                let (end, value) = escape(s, at + 1);
                lemma_str_pieces_in_order(s, end, unicode, false);
                lemma_in_order_then(at, end, value, str_pieces(s, end, unicode, false), end, to);
            }
        } else if b == LF {
            lemma_str_pieces_in_order(s, at + 1, unicode, false);
            lemma_in_order_then(
                at,
                at + 1,
                Err(EscapeError::StrNewline),
                str_pieces(s, at + 1, unicode, false),
                at + 1,
                to,
            );
        } else if b == CR {
            lemma_str_pieces_in_order(s, at + 1, unicode, false);
            if at + 1 < s.len() && s[at + 1] == LF {
                lemma_in_order_wider(str_pieces(s, at + 1, unicode, false), at + 1, at, to);
            } else {
                lemma_in_order_then(
                    at,
                    at + 1,
                    Err(EscapeError::BareCarriageReturn),
                    str_pieces(s, at + 1, unicode, false),
                    at + 1,
                    to,
                );
            }
        } else if b < 0x80 {
            lemma_str_pieces_in_order(s, at + 1, unicode, false);
            lemma_in_order_then(
                at,
                at + 1,
                Ok(b as u32),
                str_pieces(s, at + 1, unicode, false),
                at + 1,
                to,
            );
        } else {
            lemma_first_code_point_len(s.skip(at));
            let (len, code) = first_code_point(s.skip(at));
            let value: Result<u32, EscapeError> = if unicode {
                Ok(code)
            } else {
                Err(EscapeError::StrNonAsciiChar)
            };
            lemma_str_pieces_in_order(s, at + len, unicode, false);
            lemma_in_order_then(
                at,
                at + len,
                value,
                str_pieces(s, at + len, unicode, false),
                at + len,
                to,
            );
        }
    }
}

/// The pieces of a string literal, plain or `unicode`, come in the order of
/// the source: each lies inside the source and is not empty, and none starts
/// before the one before it ends. (Of a `hex` literal with a prefix and an
/// odd number of digits the two errors overlap: both start at the start.)
pub proof fn law_pieces_come_in_source_order(s: Seq<u8>, mode: Mode)
    requires
        mode != Mode::HexStr,
    ensures
        in_order(pieces(s, mode), 0, s.len() as int),
{
    match mode {
        Mode::Str => lemma_str_pieces_in_order(s, 0, false, false),
        _ => lemma_str_pieces_in_order(s, 0, true, false),
    }
}

} // verus!
