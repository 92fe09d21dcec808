//! The token grammar, as functions on a byte sequence and a position.
//!
//! [`token_at`] says which token starts at a position and where it ends. The
//! cursor is proved to hand out exactly these tokens.

use vstd::prelude::*;
use crate::lexer::ascii::{
    AMPERSAND, BACKSLASH, BANG, CARET, CLOSE_BRACE, CLOSE_BRACKET, CLOSE_PAREN, COLON, COMMA, CR,
    DIGIT_0, DOT, DOUBLE_QUOTE, EQUALS, GREATER, LESS, LF, LOWER_B, LOWER_C, LOWER_D, LOWER_E,
    LOWER_H, LOWER_I, LOWER_N, LOWER_O, LOWER_U, LOWER_X, MINUS, NUL, OPEN_BRACE, OPEN_BRACKET,
    OPEN_PAREN, PERCENT, PIPE, PLUS, QUESTION, SEMICOLON, SINGLE_QUOTE, SLASH, STAR, TILDE,
    UNDERSCORE, UPPER_E,
};
use crate::lexer::char_class::{
    decimal_digit, hex_digit, id_continue_byte, id_start_byte, whitespace_byte,
};
use crate::lexer::token::{Base, RawLiteralKind, RawToken, RawTokenKind, StrKind};

verus! {

/// The byte at `i`, or NUL where `i` is outside the input: what a look-ahead
/// past the end sees.
pub open spec fn peek(s: Seq<u8>, i: int) -> u8 {
    if 0 <= i < s.len() {
        s[i]
    } else {
        NUL
    }
}

/// The sets of bytes that the lexer eats in runs.
pub enum ByteClass {
    /// Space, tab, line feed, carriage return.
    Whitespace,
    /// Letters, decimal digits, `_`, `$`.
    IdContinue,
    /// Anything but a line feed or a carriage return.
    LineBody,
    /// Decimal digits and `_`.
    DecimalDigits,
    /// Hexadecimal digits and `_`.
    HexDigits,
    /// ASCII but for backslash, line feed and carriage return: what stands
    /// for itself in a string literal.
    PlainAscii,
}

/// Membership of a byte in a class.
pub open spec fn in_class(class: ByteClass, b: u8) -> bool {
    match class {
        ByteClass::Whitespace => whitespace_byte(b),
        ByteClass::IdContinue => id_continue_byte(b),
        ByteClass::LineBody => b != LF && b != CR,
        ByteClass::DecimalDigits => b == UNDERSCORE || decimal_digit(b),
        ByteClass::HexDigits => b == UNDERSCORE || hex_digit(b),
        ByteClass::PlainAscii => b < 0x80 && b != BACKSLASH && b != LF && b != CR,
    }
}

/// The end of the longest run of bytes of `class` that starts at `from`.
pub open spec fn run_end(s: Seq<u8>, from: int, class: ByteClass) -> int
    decreases s.len() - from,
{
    if 0 <= from < s.len() && in_class(class, s[from]) {
        run_end(s, from + 1, class)
    } else {
        from
    }
}

/// The class of bytes a digit run is made of.
pub open spec fn digit_class(hex: bool) -> ByteClass {
    if hex {
        ByteClass::HexDigits
    } else {
        ByteClass::DecimalDigits
    }
}

/// A digit proper: `_` may stand in a digit run but is none.
pub open spec fn proper_digit(b: u8, hex: bool) -> bool {
    if hex {
        hex_digit(b)
    } else {
        decimal_digit(b)
    }
}

/// Some byte of `s[from..to)` is a digit.
pub open spec fn has_digit(s: Seq<u8>, from: int, to: int, hex: bool) -> bool {
    exists|i: int| from <= i < to && 0 <= i < s.len() && proper_digit(#[trigger] s[i], hex)
}

/// Where the string literal whose body starts at `from` ends, and whether the
/// closing `quote` was found. A backslash hides a following backslash or quote.
pub open spec fn string_end(s: Seq<u8>, from: int, quote: u8) -> (int, bool)
    decreases s.len() - from,
{
    if from < 0 || from >= s.len() {
        (from, false)
    } else if s[from] == quote {
        (from + 1, true)
    } else if s[from] == BACKSLASH && from + 1 < s.len() && (s[from + 1] == BACKSLASH || s[from
        + 1] == quote) {
        string_end(s, from + 2, quote)
    } else {
        string_end(s, from + 1, quote)
    }
}

/// The index of the first `*/` at or after `from`, or the length of `s` where
/// there is none.
pub open spec fn comment_close(s: Seq<u8>, from: int) -> int
    decreases s.len() - from,
{
    if from < 0 || from + 1 >= s.len() {
        s.len() as int
    } else if s[from] == STAR && s[from + 1] == SLASH {
        from
    } else {
        comment_close(s, from + 1)
    }
}

/// A line comment whose `//` ends at `body`.
pub open spec fn line_comment(s: Seq<u8>, body: int) -> (RawTokenKind, int) {
    let is_doc = peek(s, body) == SLASH && peek(s, body + 1) != SLASH;
    (RawTokenKind::LineComment { is_doc }, run_end(s, body, ByteClass::LineBody))
}

/// A block comment whose `/*` ends at `body`.
pub open spec fn block_comment(s: Seq<u8>, body: int) -> (RawTokenKind, int) {
    let is_doc = peek(s, body) == STAR && peek(s, body + 1) != STAR && peek(s, body + 1) != SLASH;
    let close = comment_close(s, body);
    let terminated = close < s.len();
    (
        RawTokenKind::BlockComment { is_doc, terminated },
        if terminated {
            close + 2
        } else {
            s.len() as int
        },
    )
}

/// The bytes of the prefix `hex`.
pub open spec fn hex_word() -> Seq<u8> {
    seq![LOWER_H, LOWER_E, LOWER_X]
}

/// The bytes of the prefix `unicode`.
pub open spec fn unicode_word() -> Seq<u8> {
    seq![LOWER_U, LOWER_N, LOWER_I, LOWER_C, LOWER_O, LOWER_D, LOWER_E]
}

/// An identifier that starts at `start`, or the string literal it is the
/// prefix of: `hex` or `unicode` directly followed by a quote.
pub open spec fn ident_or_prefixed_literal(s: Seq<u8>, start: int) -> (RawTokenKind, int) {
    let end = run_end(s, start + 1, ByteClass::IdContinue);
    let word = s.subrange(start, end);
    let quote = peek(s, end);
    if (word == hex_word() || word == unicode_word()) && (quote == SINGLE_QUOTE || quote
        == DOUBLE_QUOTE) {
        let (close, terminated) = string_end(s, end + 1, quote);
        let kind = if word == hex_word() {
            StrKind::Hex
        } else {
            StrKind::Unicode
        };
        (RawTokenKind::Literal { kind: RawLiteralKind::Str { kind, terminated } }, close)
    } else {
        (RawTokenKind::Ident, end)
    }
}

/// An exponent whose `e` ends at `from`: an optional `-`, then decimal digits.
/// Gives where it ends and whether it has a digit.
pub open spec fn exponent(s: Seq<u8>, from: int) -> (int, bool) {
    let digits = if peek(s, from) == MINUS {
        from + 1
    } else {
        from
    };
    let end = run_end(s, digits, ByteClass::DecimalDigits);
    (end, has_digit(s, digits, end, false))
}

/// `b` is `e` or `E`.
pub open spec fn exponent_mark(b: u8) -> bool {
    b == LOWER_E || b == UPPER_E
}

/// The fraction of a number whose `.` ends at `from`, and its exponent if any.
pub open spec fn rational_after_dot(s: Seq<u8>, from: int, base: Base) -> (RawLiteralKind, int) {
    let end = run_end(s, from, ByteClass::DecimalDigits);
    if exponent_mark(peek(s, end)) {
        let (close, digits) = exponent(s, end + 1);
        (RawLiteralKind::Rational { base, empty_exponent: !digits }, close)
    } else {
        (RawLiteralKind::Rational { base, empty_exponent: false }, end)
    }
}

/// What follows the integer part that ends at `from`: a fraction, unless the
/// `.` is followed by the start of an identifier other than `_`; an exponent;
/// or nothing.
pub open spec fn number_tail(s: Seq<u8>, from: int, base: Base) -> (RawLiteralKind, int) {
    let c = peek(s, from);
    let after = peek(s, from + 1);
    if c == DOT && (!id_start_byte(after) || after == UNDERSCORE) {
        rational_after_dot(s, from + 1, base)
    } else if exponent_mark(c) {
        let (close, digits) = exponent(s, from + 1);
        (RawLiteralKind::Rational { base, empty_exponent: !digits }, close)
    } else {
        (RawLiteralKind::Int { base, empty_int: false }, from)
    }
}

/// A number with a base prefix whose digits start at `digits`.
pub open spec fn prefixed_number(s: Seq<u8>, digits: int, base: Base) -> (RawLiteralKind, int) {
    let hex = base == Base::Hexadecimal;
    let end = run_end(s, digits, digit_class(hex));
    if has_digit(s, digits, end, hex) {
        number_tail(s, end, base)
    } else {
        (RawLiteralKind::Int { base, empty_int: true }, end)
    }
}

/// The numeric literal whose first digit stands at `start`.
pub open spec fn number(s: Seq<u8>, start: int) -> (RawLiteralKind, int) {
    let next = start + 1;
    let c = peek(s, next);
    if s[start] != DIGIT_0 {
        number_tail(s, run_end(s, next, ByteClass::DecimalDigits), Base::Decimal)
    } else if c == LOWER_B {
        prefixed_number(s, next + 1, Base::Binary)
    } else if c == LOWER_O {
        prefixed_number(s, next + 1, Base::Octal)
    } else if c == LOWER_X {
        prefixed_number(s, next + 1, Base::Hexadecimal)
    } else if decimal_digit(c) || c == UNDERSCORE || c == DOT || exponent_mark(c) {
        number_tail(s, run_end(s, next, ByteClass::DecimalDigits), Base::Decimal)
    } else {
        (RawLiteralKind::Int { base: Base::Decimal, empty_int: false }, next)
    }
}

/// The token that a punctuator byte is by itself. `/` is none here: it may
/// start a comment.
pub open spec fn punctuator(b: u8) -> Option<RawTokenKind> {
    if b == SEMICOLON {
        Some(RawTokenKind::Semi)
    } else if b == COMMA {
        Some(RawTokenKind::Comma)
    } else if b == DOT {
        Some(RawTokenKind::Dot)
    } else if b == OPEN_PAREN {
        Some(RawTokenKind::OpenParen)
    } else if b == CLOSE_PAREN {
        Some(RawTokenKind::CloseParen)
    } else if b == OPEN_BRACE {
        Some(RawTokenKind::OpenBrace)
    } else if b == CLOSE_BRACE {
        Some(RawTokenKind::CloseBrace)
    } else if b == OPEN_BRACKET {
        Some(RawTokenKind::OpenBracket)
    } else if b == CLOSE_BRACKET {
        Some(RawTokenKind::CloseBracket)
    } else if b == TILDE {
        Some(RawTokenKind::Tilde)
    } else if b == QUESTION {
        Some(RawTokenKind::Question)
    } else if b == COLON {
        Some(RawTokenKind::Colon)
    } else if b == EQUALS {
        Some(RawTokenKind::Eq)
    } else if b == BANG {
        Some(RawTokenKind::Bang)
    } else if b == LESS {
        Some(RawTokenKind::Lt)
    } else if b == GREATER {
        Some(RawTokenKind::Gt)
    } else if b == MINUS {
        Some(RawTokenKind::Minus)
    } else if b == AMPERSAND {
        Some(RawTokenKind::And)
    } else if b == PIPE {
        Some(RawTokenKind::Or)
    } else if b == PLUS {
        Some(RawTokenKind::Plus)
    } else if b == STAR {
        Some(RawTokenKind::Star)
    } else if b == CARET {
        Some(RawTokenKind::Caret)
    } else if b == PERCENT {
        Some(RawTokenKind::Percent)
    } else {
        None
    }
}

/// How many bytes follow the leading byte `b` in its UTF-8 sequence.
pub open spec fn utf8_tail_len(b: u8) -> int {
    if b < 0x80 {
        0
    } else if b < 0xe0 {
        1
    } else if b < 0xf0 {
        2
    } else {
        3
    }
}

/// The kind of the token that starts at `pos`, and where it ends.
pub open spec fn token_at(s: Seq<u8>, pos: int) -> (RawTokenKind, int)
    recommends
        0 <= pos < s.len(),
{
    let c = s[pos];
    let next = pos + 1;
    if c == SLASH {
        if peek(s, next) == SLASH {
            line_comment(s, next + 1)
        } else if peek(s, next) == STAR {
            block_comment(s, next + 1)
        } else {
            (RawTokenKind::Slash, next)
        }
    } else if whitespace_byte(c) {
        (RawTokenKind::Whitespace, run_end(s, next, ByteClass::Whitespace))
    } else if id_start_byte(c) {
        ident_or_prefixed_literal(s, pos)
    } else if decimal_digit(c) {
        let (kind, end) = number(s, pos);
        (RawTokenKind::Literal { kind }, end)
    } else if c == DOT && decimal_digit(peek(s, next)) {
        let (kind, end) = rational_after_dot(s, next, Base::Decimal);
        (RawTokenKind::Literal { kind }, end)
    } else if punctuator(c) is Some {
        (punctuator(c)->0, next)
    } else if c == SINGLE_QUOTE || c == DOUBLE_QUOTE {
        let (end, terminated) = string_end(s, next, c);
        (
            RawTokenKind::Literal {
                kind: RawLiteralKind::Str { kind: StrKind::Str, terminated },
            },
            end,
        )
    } else {
        let end = next + utf8_tail_len(c);
        (
            RawTokenKind::Unknown,
            if end <= s.len() {
                end
            } else {
                s.len() as int
            },
        )
    }
}

/// Where the token that starts at `pos` ends.
pub open spec fn token_end(s: Seq<u8>, pos: int) -> int {
    token_at(s, pos).1
}

/// The token that a cursor at `pos` hands out next: `Eof` of length zero at
/// the end of the input, else the token that starts there.
pub open spec fn next_token(s: Seq<u8>, pos: int) -> RawToken {
    if 0 <= pos < s.len() {
        RawToken { kind: token_at(s, pos).0, len: (token_end(s, pos) - pos) as u32 }
    } else {
        RawToken { kind: RawTokenKind::Eof, len: 0 }
    }
}

/// The tokens from `pos` to the end of the input, in source order, without
/// the closing `Eof`.
pub open spec fn tokens_from(s: Seq<u8>, pos: int) -> Seq<RawToken>
    decreases s.len() - pos,
{
    if 0 <= pos < token_end(s, pos) <= s.len() {
        seq![next_token(s, pos)] + tokens_from(s, token_end(s, pos))
    } else {
        Seq::empty()
    }
}

/// The sum of the lengths of the tokens.
pub open spec fn total_len(tokens: Seq<RawToken>) -> int
    decreases tokens.len(),
{
    if tokens.len() == 0 {
        0
    } else {
        tokens[0].len + total_len(tokens.drop_first())
    }
}

} // verus!
