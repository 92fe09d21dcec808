//! Laws of the token grammar: the tokens of an input cover it byte for byte,
//! and the tokens of a prefix of an input are tokens of the input.

use vstd::prelude::*;
use crate::lexer::ascii::{BACKSLASH, DIGIT_0, DOT, LOWER_B, LOWER_O, LOWER_X, SLASH, STAR};
use crate::lexer::bounds::{
    lemma_comment_close, lemma_comment_close_is, lemma_exponent, lemma_number_tail,
    lemma_rational_after_dot, lemma_run_end, lemma_run_end_is, lemma_string_end,
    lemma_token_bounds,
};
use crate::lexer::grammar::{
    block_comment, comment_close, digit_class, exponent, exponent_mark, has_digit,
    ident_or_prefixed_literal, in_class, line_comment, next_token, number, number_tail, peek,
    prefixed_number, proper_digit, rational_after_dot, run_end, string_end, token_at, token_end,
    tokens_from, total_len, ByteClass,
};
use crate::lexer::token::Base;

verus! {

/// From any position on, the lengths of the tokens add up to the bytes that
/// are left.
pub proof fn lemma_total_len_from(s: Seq<u8>, pos: int)
    requires
        0 <= pos <= s.len() <= u32::MAX,
    ensures
        total_len(tokens_from(s, pos)) == s.len() - pos,
    decreases s.len() - pos,
{
    if pos < s.len() {
        lemma_token_bounds(s, pos);
        let end = token_end(s, pos);
        let tokens = tokens_from(s, pos);
        lemma_total_len_from(s, end);
        assert(tokens.drop_first() =~= tokens_from(s, end));
        assert(tokens[0] == next_token(s, pos));
    }
}

/// The lengths of the tokens of an input add up to the length of the input:
/// no byte is skipped and none is counted twice.
pub proof fn law_token_lengths_cover_input(s: Seq<u8>)
    requires
        s.len() <= u32::MAX,
    ensures
        total_len(tokens_from(s, 0)) == s.len(),
{
    lemma_total_len_from(s, 0);
}

/// No token is empty, and `Eof` is no token of the input: it is what the
/// cursor hands out behind the last token.
pub proof fn law_tokens_are_never_empty(s: Seq<u8>, pos: int, k: int)
    requires
        0 <= pos <= s.len() <= u32::MAX,
        0 <= k < tokens_from(s, pos).len(),
    ensures
        tokens_from(s, pos)[k].len >= 1,
        tokens_from(s, pos)[k].kind != crate::lexer::token::RawTokenKind::Eof,
    decreases s.len() - pos,
{
    if pos < s.len() {
        lemma_token_bounds(s, pos);
        let end = token_end(s, pos);
        if k > 0 {
            law_tokens_are_never_empty(s, end, k - 1);
            assert(tokens_from(s, pos)[k] == tokens_from(s, end)[k - 1]);
        }
    }
}

/// A run that ends before the end of a prefix ends there in the whole input.
pub proof fn lemma_run_end_prefix(s: Seq<u8>, n: int, from: int, class: ByteClass)
    requires
        0 <= from <= n <= s.len(),
        run_end(s.take(n), from, class) < n,
    ensures
        run_end(s, from, class) == run_end(s.take(n), from, class),
{
    let p = s.take(n);
    lemma_run_end(p, from, class);
    let end = run_end(p, from, class);
    assert forall|i: int| from <= i < end implies in_class(class, #[trigger] s[i]) by {
        assert(p[i] == s[i]);
    }
    assert(p[end] == s[end]);
    lemma_run_end_is(s, from, class, end);
}

/// Whether a range inside a prefix holds a digit is the same in the whole
/// input.
pub proof fn lemma_has_digit_prefix(s: Seq<u8>, n: int, from: int, to: int, hex: bool)
    requires
        0 <= from,
        to <= n <= s.len(),
    ensures
        has_digit(s, from, to, hex) == has_digit(s.take(n), from, to, hex),
{
    let p = s.take(n);
    if has_digit(s, from, to, hex) {
        let i = choose|i: int|
            from <= i < to && 0 <= i < s.len() && proper_digit(#[trigger] s[i], hex);
        assert(p[i] == s[i]);
    }
    if has_digit(p, from, to, hex) {
        let i = choose|i: int|
            from <= i < to && 0 <= i < p.len() && proper_digit(#[trigger] p[i], hex);
        assert(p[i] == s[i]);
    }
}

/// A string literal that ends before the end of a prefix is the same in the
/// whole input.
pub proof fn lemma_string_end_prefix(s: Seq<u8>, n: int, from: int, quote: u8)
    requires
        0 <= from <= n <= s.len(),
        string_end(s.take(n), from, quote).0 < n,
    ensures
        string_end(s, from, quote) == string_end(s.take(n), from, quote),
    decreases n - from,
{
    let p = s.take(n);
    if from < n {
        assert(p[from] == s[from]);
        if p[from] == quote {
        } else if p[from] == BACKSLASH && from + 1 < n && (p[from + 1] == BACKSLASH || p[from + 1]
            == quote) {
            assert(p[from + 1] == s[from + 1]);
            lemma_string_end_prefix(s, n, from + 2, quote);
        } else if p[from] == BACKSLASH && from + 1 >= n {
            lemma_string_end(p, from + 1, quote);
        } else {
            if from + 1 < n {
                assert(p[from + 1] == s[from + 1]);
            }
            lemma_string_end_prefix(s, n, from + 1, quote);
        }
    }
}

/// A block comment that is closed inside a prefix is closed at the same place
/// in the whole input.
pub proof fn lemma_comment_close_prefix(s: Seq<u8>, n: int, from: int)
    requires
        0 <= from <= n <= s.len(),
        comment_close(s.take(n), from) < n,
    ensures
        comment_close(s, from) == comment_close(s.take(n), from),
{
    let p = s.take(n);
    lemma_comment_close(p, from);
    let at = comment_close(p, from);
    assert(p[at] == s[at]);
    assert(p[at + 1] == s[at + 1]);
    assert forall|i: int| from <= i < at implies !(s[i] == STAR && #[trigger] s[i + 1] == SLASH) by {
        assert(p[i] == s[i]);
        assert(p[i + 1] == s[i + 1]);
    }
    lemma_comment_close_is(s, from, at);
}

/// A line comment that ends before the end of a prefix is the same in the
/// whole input.
pub proof fn lemma_line_comment_prefix(s: Seq<u8>, n: int, body: int)
    requires
        0 <= body <= n <= s.len(),
        line_comment(s.take(n), body).1 < n,
    ensures
        line_comment(s, body) == line_comment(s.take(n), body),
{
    let p = s.take(n);
    lemma_run_end_prefix(s, n, body, ByteClass::LineBody);
    lemma_run_end(p, body, ByteClass::LineBody);
    assert(p[body] == s[body]);
    if body + 1 < n {
        assert(p[body + 1] == s[body + 1]);
    }
}

/// A block comment that ends before the end of a prefix is the same in the
/// whole input.
pub proof fn lemma_block_comment_prefix(s: Seq<u8>, n: int, body: int)
    requires
        0 <= body <= n <= s.len(),
        block_comment(s.take(n), body).1 < n,
    ensures
        block_comment(s, body) == block_comment(s.take(n), body),
{
    let p = s.take(n);
    lemma_comment_close(p, body);
    lemma_comment_close_prefix(s, n, body);
    assert(p[body] == s[body]);
    assert(p[body + 1] == s[body + 1]);
}

/// An exponent that ends before the end of a prefix is the same in the whole
/// input.
pub proof fn lemma_exponent_prefix(s: Seq<u8>, n: int, from: int)
    requires
        0 <= from <= n <= s.len(),
        exponent(s.take(n), from).0 < n,
    ensures
        exponent(s, from) == exponent(s.take(n), from),
{
    let p = s.take(n);
    if from < n {
        assert(p[from] == s[from]);
        let digits = if peek(p, from) == crate::lexer::ascii::MINUS {
            from + 1
        } else {
            from
        };
        lemma_run_end(p, digits, ByteClass::DecimalDigits);
        lemma_run_end_prefix(s, n, digits, ByteClass::DecimalDigits);
        lemma_has_digit_prefix(s, n, digits, run_end(p, digits, ByteClass::DecimalDigits), false);
    }
}

/// A fraction that ends before the end of a prefix is the same in the whole
/// input.
pub proof fn lemma_rational_after_dot_prefix(s: Seq<u8>, n: int, from: int, base: Base)
    requires
        0 <= from <= n <= s.len(),
        rational_after_dot(s.take(n), from, base).1 < n,
    ensures
        rational_after_dot(s, from, base) == rational_after_dot(s.take(n), from, base),
{
    let p = s.take(n);
    lemma_run_end(p, from, ByteClass::DecimalDigits);
    let end = run_end(p, from, ByteClass::DecimalDigits);
    if end < n {
        lemma_exponent(p, end + 1);
        lemma_run_end_prefix(s, n, from, ByteClass::DecimalDigits);
        assert(p[end] == s[end]);
        if exponent_mark(p[end]) {
            lemma_exponent_prefix(s, n, end + 1);
        }
    }
}

/// The tail of a number that ends before the end of a prefix is the same in
/// the whole input.
pub proof fn lemma_number_tail_prefix(s: Seq<u8>, n: int, from: int, base: Base)
    requires
        0 <= from <= n <= s.len(),
        number_tail(s.take(n), from, base).1 < n,
    ensures
        number_tail(s, from, base) == number_tail(s.take(n), from, base),
{
    let p = s.take(n);
    if from < n {
        assert(p[from] == s[from]);
        lemma_rational_after_dot(p, from + 1, base);
        lemma_exponent(p, from + 1);
        if from + 1 < n {
            assert(p[from + 1] == s[from + 1]);
        }
        if p[from] == DOT {
            if !crate::lexer::char_class::id_start_byte(peek(p, from + 1)) || peek(p, from + 1)
                == crate::lexer::ascii::UNDERSCORE {
                lemma_rational_after_dot_prefix(s, n, from + 1, base);
            }
        } else if exponent_mark(p[from]) {
            lemma_exponent_prefix(s, n, from + 1);
        }
    }
}

/// A number with a base prefix that ends before the end of a prefix of the
/// input is the same in the whole input.
pub proof fn lemma_prefixed_number_prefix(s: Seq<u8>, n: int, digits: int, base: Base)
    requires
        0 <= digits <= n <= s.len(),
        prefixed_number(s.take(n), digits, base).1 < n,
    ensures
        prefixed_number(s, digits, base) == prefixed_number(s.take(n), digits, base),
{
    let p = s.take(n);
    let hex = base == Base::Hexadecimal;
    lemma_run_end(p, digits, digit_class(hex));
    let end = run_end(p, digits, digit_class(hex));
    lemma_number_tail(p, end, base);
    lemma_run_end_prefix(s, n, digits, digit_class(hex));
    lemma_has_digit_prefix(s, n, digits, end, hex);
    if has_digit(p, digits, end, hex) {
        lemma_number_tail_prefix(s, n, end, base);
    }
}

/// A number that ends before the end of a prefix is the same in the whole
/// input.
pub proof fn lemma_number_prefix(s: Seq<u8>, n: int, start: int)
    requires
        0 <= start < n <= s.len(),
        number(s.take(n), start).1 < n,
    ensures
        number(s, start) == number(s.take(n), start),
{
    let p = s.take(n);
    let next = start + 1;
    assert(p[start] == s[start]);
    lemma_run_end(p, next, ByteClass::DecimalDigits);
    let run = run_end(p, next, ByteClass::DecimalDigits);
    lemma_number_tail(p, run, Base::Decimal);
    if next < n {
        assert(p[next] == s[next]);
        let c = p[next];
        if p[start] == DIGIT_0 && (c == LOWER_B || c == LOWER_O || c == LOWER_X) {
            let base = if c == LOWER_B {
                Base::Binary
            } else if c == LOWER_O {
                Base::Octal
            } else {
                Base::Hexadecimal
            };
            lemma_prefixed_number_prefix(s, n, next + 1, base);
        } else if run < n {
            lemma_run_end_prefix(s, n, next, ByteClass::DecimalDigits);
            lemma_number_tail_prefix(s, n, run, Base::Decimal);
        }
    }
}

/// An identifier, or the literal it is the prefix of, that ends before the
/// end of a prefix of the input is the same in the whole input.
pub proof fn lemma_ident_prefix(s: Seq<u8>, n: int, start: int)
    requires
        0 <= start < n <= s.len(),
        ident_or_prefixed_literal(s.take(n), start).1 < n,
    ensures
        ident_or_prefixed_literal(s, start) == ident_or_prefixed_literal(s.take(n), start),
{
    let p = s.take(n);
    lemma_run_end(p, start + 1, ByteClass::IdContinue);
    let end = run_end(p, start + 1, ByteClass::IdContinue);
    if end < n {
        lemma_string_end(p, end + 1, p[end]);
        lemma_run_end_prefix(s, n, start + 1, ByteClass::IdContinue);
        assert(p.subrange(start, end) =~= s.subrange(start, end));
        assert(p[end] == s[end]);
        if string_end(p, end + 1, p[end]).0 < n {
            lemma_string_end_prefix(s, n, end + 1, p[end]);
        }
    } else {
        lemma_string_end(p, end + 1, peek(p, end));
    }
}

/// A token that ends before the end of a prefix of the input is, kind and
/// length, the token that the whole input has at that position.
pub proof fn lemma_token_prefix(s: Seq<u8>, n: int, pos: int)
    requires
        0 <= pos < n <= s.len(),
        token_end(s.take(n), pos) < n,
    ensures
        token_at(s, pos) == token_at(s.take(n), pos),
{
    let p = s.take(n);
    let next = pos + 1;
    let c = p[pos];
    assert(p[pos] == s[pos]);
    if next < n {
        assert(p[next] == s[next]);
    }
    if c == SLASH {
        if next < n {
            if p[next] == SLASH {
                lemma_line_comment_prefix(s, n, next + 1);
            } else if p[next] == STAR {
                lemma_block_comment_prefix(s, n, next + 1);
            }
        }
    } else if crate::lexer::char_class::whitespace_byte(c) {
        lemma_run_end_prefix(s, n, next, ByteClass::Whitespace);
    } else if crate::lexer::char_class::id_start_byte(c) {
        lemma_ident_prefix(s, n, pos);
    } else if crate::lexer::char_class::decimal_digit(c) {
        lemma_number_prefix(s, n, pos);
    } else if c == DOT && crate::lexer::char_class::decimal_digit(peek(p, next)) {
        lemma_rational_after_dot_prefix(s, n, next, Base::Decimal);
    } else if crate::lexer::grammar::punctuator(c) is Some {
    } else if c == crate::lexer::ascii::SINGLE_QUOTE || c == crate::lexer::ascii::DOUBLE_QUOTE {
        lemma_string_end_prefix(s, n, next, c);
    } else {
    }
}

/// From any position on, the tokens of a prefix of the input, but for the
/// last, are the first tokens of the input, and the input has no fewer.
pub proof fn lemma_tokens_prefix_from(s: Seq<u8>, n: int, pos: int)
    requires
        0 <= pos <= n <= s.len(),
    ensures
        tokens_from(s.take(n), pos).len() <= tokens_from(s, pos).len(),
        forall|k: int|
            0 <= k < tokens_from(s.take(n), pos).len() - 1 ==> tokens_from(s, pos)[k]
                == #[trigger] tokens_from(s.take(n), pos)[k],
    decreases n - pos,
{
    let p = s.take(n);
    if pos < n {
        lemma_token_bounds(p, pos);
        lemma_token_bounds(s, pos);
        let end = token_end(p, pos);
        let rest = tokens_from(p, end);
        assert(tokens_from(p, pos) =~= seq![next_token(p, pos)] + rest);
        assert(tokens_from(s, pos) =~= seq![next_token(s, pos)] + tokens_from(
            s,
            token_end(s, pos),
        ));
        if end < n {
            lemma_token_prefix(s, n, pos);
            lemma_tokens_prefix_from(s, n, end);
        }
    }
}

/// Lexing does not depend on what follows: the tokens of a prefix of the
/// input, but for the last, are the first tokens of the whole input, each with
/// the same kind and length, and the whole input has no fewer tokens. The
/// last token of the prefix may have been cut short by the end of the prefix,
/// or have read it as the end of a number, so nothing is said of it.
pub proof fn law_tokens_of_prefix(s: Seq<u8>, n: int)
    requires
        0 <= n <= s.len(),
    ensures
        tokens_from(s.take(n), 0).len() <= tokens_from(s, 0).len(),
        forall|k: int|
            0 <= k < tokens_from(s.take(n), 0).len() - 1 ==> tokens_from(s, 0)[k]
                == #[trigger] tokens_from(s.take(n), 0)[k],
{
    lemma_tokens_prefix_from(s, n, 0);
}

} // verus!
