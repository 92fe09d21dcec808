//! Tokens and characters: in a text that is valid UTF-8, every token ends
//! where a character ends.

use vstd::prelude::*;
use vstd::utf8::{
    is_char_boundary, is_char_boundary_iff_not_is_continuation_byte,
    is_char_boundary_start_end_of_seq, valid_first_scalar, valid_utf8, valid_utf8_split,
};
use crate::lexer::ascii::{BACKSLASH, DOT, SLASH, STAR};
use crate::lexer::bounds::{
    lemma_comment_close, lemma_exponent, lemma_number_tail, lemma_prefixed_number,
    lemma_rational_after_dot, lemma_run_end,
};
use crate::lexer::char_class::{decimal_digit, id_start_byte, whitespace_byte};
use crate::lexer::grammar::{
    digit_class, exponent, in_class, number, number_tail, peek, prefixed_number, punctuator,
    rational_after_dot, run_end, string_end, token_at, token_end, utf8_tail_len, ByteClass,
};
use crate::lexer::token::{Base, RawTokenKind};

verus! {

/// Behind the character that starts at `at` stands the end of the text or
/// the start of a character.
pub proof fn lemma_next_boundary(s: Seq<u8>, at: int)
    requires
        valid_utf8(s),
        0 <= at < s.len(),
        is_char_boundary(s, at),
    ensures
        at + 1 + utf8_tail_len(s[at]) <= s.len(),
        is_char_boundary(s, at + 1 + utf8_tail_len(s[at])),
        s[at] < 0x80 || 0xc0 <= s[at] <= 0xf7,
{
    reveal_with_fuel(valid_utf8, 2);
    valid_utf8_split(s, at);
    let t = s.subrange(at, s.len() as int);
    assert(t[0] == s[at]);
    assert(valid_first_scalar(t));
    let next = at + 1 + utf8_tail_len(s[at]);
    let rest = vstd::utf8::pop_first_scalar(t);
    assert(rest =~= s.subrange(next, s.len() as int));
    if next < s.len() {
        assert(rest[0] == s[next]);
        assert(valid_utf8(rest));
        assert(valid_first_scalar(rest));
        is_char_boundary_iff_not_is_continuation_byte(s, next);
    } else {
        is_char_boundary_start_end_of_seq(s);
    }
}

/// Behind an ASCII byte stands the end of the text or the start of a
/// character.
pub proof fn lemma_boundary_behind_ascii(s: Seq<u8>, end: int)
    requires
        valid_utf8(s),
        0 < end <= s.len(),
        s[end - 1] < 0x80,
    ensures
        is_char_boundary(s, end),
{
    is_char_boundary_iff_not_is_continuation_byte(s, end - 1);
    lemma_next_boundary(s, end - 1);
}

/// The scan from `from` to `end` took nothing, or its last byte is ASCII.
pub open spec fn ends_behind_ascii(s: Seq<u8>, from: int, end: int) -> bool {
    end == from || (from < end <= s.len() && s[end - 1] < 0x80)
}

/// A run of a class of ASCII bytes takes nothing or ends behind one.
pub proof fn lemma_run_ends_behind_ascii(s: Seq<u8>, from: int, class: ByteClass)
    requires
        0 <= from <= s.len(),
        class != ByteClass::LineBody,
    ensures
        ends_behind_ascii(s, from, run_end(s, from, class)),
{
    lemma_run_end(s, from, class);
    let end = run_end(s, from, class);
    if end > from {
        assert(in_class(class, s[end - 1]));
    }
}

/// A string literal ends behind its closing quote or at the end of the text.
pub proof fn lemma_string_ends_behind_quote(s: Seq<u8>, from: int, quote: u8)
    requires
        0 <= from <= s.len(),
    ensures
        ({
            let (end, terminated) = string_end(s, from, quote);
            if terminated {
                from < end <= s.len() && s[end - 1] == quote
            } else {
                end == s.len()
            }
        }),
    decreases s.len() - from,
{
    if from < s.len() && s[from] != quote {
        if s[from] == BACKSLASH && from + 1 < s.len() && (s[from + 1] == BACKSLASH || s[from + 1]
            == quote) {
            lemma_string_ends_behind_quote(s, from + 2, quote);
        } else {
            lemma_string_ends_behind_quote(s, from + 1, quote);
        }
    }
}

/// An exponent takes nothing or ends behind an ASCII byte.
pub proof fn lemma_exponent_ends_behind_ascii(s: Seq<u8>, from: int)
    requires
        0 <= from <= s.len(),
    ensures
        ends_behind_ascii(s, from, exponent(s, from).0),
{
    lemma_exponent(s, from);
    if from < s.len() {
        lemma_run_ends_behind_ascii(s, from + 1, ByteClass::DecimalDigits);
    }
    lemma_run_ends_behind_ascii(s, from, ByteClass::DecimalDigits);
}

/// A fraction takes nothing or ends behind an ASCII byte.
pub proof fn lemma_rational_ends_behind_ascii(s: Seq<u8>, from: int, base: Base)
    requires
        0 <= from <= s.len(),
    ensures
        ends_behind_ascii(s, from, rational_after_dot(s, from, base).1),
{
    lemma_rational_after_dot(s, from, base);
    lemma_run_ends_behind_ascii(s, from, ByteClass::DecimalDigits);
    lemma_run_end(s, from, ByteClass::DecimalDigits);
    let end = run_end(s, from, ByteClass::DecimalDigits);
    if end < s.len() {
        lemma_exponent_ends_behind_ascii(s, end + 1);
        lemma_exponent(s, end + 1);
    }
}

/// The tail of a number takes nothing or ends behind an ASCII byte.
pub proof fn lemma_number_tail_ends_behind_ascii(s: Seq<u8>, from: int, base: Base)
    requires
        0 <= from <= s.len(),
    ensures
        ends_behind_ascii(s, from, number_tail(s, from, base).1),
{
    lemma_number_tail(s, from, base);
    if from < s.len() {
        lemma_rational_ends_behind_ascii(s, from + 1, base);
        lemma_rational_after_dot(s, from + 1, base);
        lemma_exponent_ends_behind_ascii(s, from + 1);
        lemma_exponent(s, from + 1);
    }
}

/// A number with a base prefix takes nothing behind the prefix or ends
/// behind an ASCII byte.
pub proof fn lemma_prefixed_number_ends_behind_ascii(s: Seq<u8>, digits: int, base: Base)
    requires
        0 <= digits <= s.len(),
    ensures
        ends_behind_ascii(s, digits, prefixed_number(s, digits, base).1),
{
    let hex = base == Base::Hexadecimal;
    lemma_prefixed_number(s, digits, base);
    lemma_run_end(s, digits, digit_class(hex));
    lemma_run_ends_behind_ascii(s, digits, digit_class(hex));
    let end = run_end(s, digits, digit_class(hex));
    lemma_number_tail_ends_behind_ascii(s, end, base);
    lemma_number_tail(s, end, base);
}

/// A number ends behind an ASCII byte.
pub proof fn lemma_number_ends_behind_ascii(s: Seq<u8>, start: int)
    requires
        0 <= start < s.len(),
        decimal_digit(s[start]),
    ensures
        start < number(s, start).1 <= s.len(),
        s[number(s, start).1 - 1] < 0x80,
{
    let next = start + 1;
    lemma_run_end(s, next, ByteClass::DecimalDigits);
    lemma_run_ends_behind_ascii(s, next, ByteClass::DecimalDigits);
    let run = run_end(s, next, ByteClass::DecimalDigits);
    lemma_number_tail(s, run, Base::Decimal);
    lemma_number_tail_ends_behind_ascii(s, run, Base::Decimal);
    if next < s.len() {
        lemma_prefixed_number(s, next + 1, Base::Binary);
        lemma_prefixed_number(s, next + 1, Base::Octal);
        lemma_prefixed_number(s, next + 1, Base::Hexadecimal);
        lemma_prefixed_number_ends_behind_ascii(s, next + 1, Base::Binary);
        lemma_prefixed_number_ends_behind_ascii(s, next + 1, Base::Octal);
        lemma_prefixed_number_ends_behind_ascii(s, next + 1, Base::Hexadecimal);
    }
}

/// In a text that is valid UTF-8, a token that starts where a character
/// starts ends where a character ends: no token cuts a character in two. A
/// token for a character outside ASCII is that one character, whole.
pub proof fn law_tokens_keep_characters_whole(s: Seq<u8>, pos: int)
    requires
        valid_utf8(s),
        0 <= pos < s.len(),
        is_char_boundary(s, pos),
    ensures
        pos < token_end(s, pos) <= s.len(),
        is_char_boundary(s, token_end(s, pos)),
        s[pos] >= 0x80 ==> token_at(s, pos).0 == RawTokenKind::Unknown && token_end(s, pos) == pos
            + 1 + utf8_tail_len(s[pos]),
{
    crate::lexer::bounds::lemma_token_bounds(s, pos);
    let c = s[pos];
    let next = pos + 1;
    let end = token_end(s, pos);
    lemma_next_boundary(s, pos);
    is_char_boundary_start_end_of_seq(s);
    if c == SLASH {
        if peek(s, next) == SLASH {
            lemma_run_end(s, next + 1, ByteClass::LineBody);
            if end < s.len() {
                is_char_boundary_iff_not_is_continuation_byte(s, end);
            }
        } else if peek(s, next) == STAR {
            lemma_comment_close(s, next + 1);
            if end < s.len() {
                lemma_boundary_behind_ascii(s, end);
            }
        }
    } else if whitespace_byte(c) {
        lemma_run_ends_behind_ascii(s, next, ByteClass::Whitespace);
        lemma_boundary_behind_ascii(s, end);
    } else if id_start_byte(c) {
        lemma_run_end(s, next, ByteClass::IdContinue);
        lemma_run_ends_behind_ascii(s, next, ByteClass::IdContinue);
        let run = run_end(s, next, ByteClass::IdContinue);
        if run < s.len() {
            lemma_string_ends_behind_quote(s, run + 1, s[run]);
        }
        if end < s.len() {
            lemma_boundary_behind_ascii(s, end);
        }
    } else if decimal_digit(c) {
        lemma_number_ends_behind_ascii(s, pos);
        lemma_boundary_behind_ascii(s, end);
    } else if c == DOT && decimal_digit(peek(s, next)) {
        lemma_rational_after_dot(s, next, Base::Decimal);
        lemma_rational_ends_behind_ascii(s, next, Base::Decimal);
        lemma_boundary_behind_ascii(s, end);
    } else if punctuator(c) is Some {
    } else if c == crate::lexer::ascii::SINGLE_QUOTE || c == crate::lexer::ascii::DOUBLE_QUOTE {
        lemma_string_ends_behind_quote(s, next, c);
        if end < s.len() {
            lemma_boundary_behind_ascii(s, end);
        }
    } else {
    }
}

} // verus!
