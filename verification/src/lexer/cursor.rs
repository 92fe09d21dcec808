//! The cursor: a scanner over the bytes of one source text that hands out one
//! raw token per call.

use vstd::prelude::*;
use vstd::slice::slice_subrange;
use vstd::string::StringSliceAdditionalSpecFns;
use crate::lexer::ascii::{
    AMPERSAND, BACKSLASH, BANG, CARET, CLOSE_BRACE, CLOSE_BRACKET, CLOSE_PAREN, COLON, COMMA, CR,
    DIGIT_0, DOT, DOUBLE_QUOTE, EQUALS, GREATER, LESS, LF, LOWER_B, LOWER_C, LOWER_D, LOWER_E,
    LOWER_H, LOWER_I, LOWER_N, LOWER_O, LOWER_U, LOWER_X, MINUS, NUL, OPEN_BRACE, OPEN_BRACKET,
    OPEN_PAREN, PERCENT, PIPE, PLUS, QUESTION, SEMICOLON, SINGLE_QUOTE, SLASH, STAR, TILDE,
    UNDERSCORE, UPPER_E,
};
use crate::lexer::bounds::{
    lemma_close_occurs, lemma_comment_close_is, lemma_comment_close_none, lemma_run_end,
    lemma_run_end_is, lemma_token_bounds,
};
use crate::lexer::char_class::{
    is_decimal_digit_byte, is_hex_digit_byte, is_id_continue_byte, is_id_start_byte,
    is_whitespace_byte,
};
use crate::lexer::grammar::{
    block_comment, digit_class, exponent, has_digit, hex_word, ident_or_prefixed_literal, in_class,
    line_comment, next_token, number, number_tail, peek, rational_after_dot, run_end, string_end,
    token_at, proper_digit, token_end, tokens_from, unicode_word, utf8_tail_len, ByteClass,
};
use crate::lexer::token::{Base, RawLiteralKind, RawToken, RawTokenKind, StrKind};
use crate::search::{find, memchr2, occurs_at};

verus! {

/// Peekable scanner over the bytes of a source text.
///
/// The next bytes can be peeked with `first` and `second`, and the position
/// moves forward with `bump`.
#[derive(Debug)]
pub struct Cursor<'a> {
    bytes: &'a [u8],
    pos: usize,
}

/// Whether `range` of `bytes` spells `word`.
fn range_is(bytes: &[u8], from: usize, to: usize, word: &[u8]) -> (r: bool)
    requires
        from <= to <= bytes@.len(),
    ensures
        r == (bytes@.subrange(from as int, to as int) == word@),
{
    if to - from != word.len() {
        return false;
    }
    let mut i: usize = 0;
    while i < word.len()
        invariant
            from <= to <= bytes@.len(),
            to - from == word@.len(),
            i <= word@.len(),
            forall|j: int| 0 <= j < i ==> bytes@[from + j] == #[trigger] word@[j],
        decreases word@.len() - i,
    {
        if bytes[from + i] != word[i] {
            assert(bytes@.subrange(from as int, to as int)[i as int] != word@[i as int]);
            return false;
        }
        i += 1;
    }
    assert(bytes@.subrange(from as int, to as int) =~= word@);
    true
}

impl<'a> Clone for Cursor<'a> {
    fn clone(&self) -> (copy: Self)
        ensures
            copy == *self,
    {
        proof {
            use_type_invariant(self);
        }
        Cursor { bytes: self.bytes, pos: self.pos }
    }
}

impl<'a> Cursor<'a> {
    #[verifier::type_invariant]
    spec fn well_formed(self) -> bool {
        self.pos <= self.bytes@.len() <= u32::MAX
    }

    /// The bytes of the whole source text.
    pub closed spec fn source(&self) -> Seq<u8> {
        self.bytes@
    }

    /// How many bytes of the source text have been consumed.
    pub closed spec fn offset(&self) -> int {
        self.pos as int
    }

    /// Creates a new cursor over the given input string slice.
    ///
    /// Token lengths are 32-bit, so the input must be shorter than 4 GiB.
    pub fn new(input: &'a str) -> (cursor: Self)
        requires
            input.spec_bytes().len() <= u32::MAX,
        ensures
            cursor.source() == input.spec_bytes(),
            cursor.offset() == 0,
    {
        Self { bytes: input.as_bytes(), pos: 0 }
    }

    /// Parses a token from the input string.
    ///
    /// Hands out `Eof` of length zero at the end of the input, and does so
    /// again on every later call.
    pub fn advance_token(&mut self) -> (tok: RawToken)
        ensures
            final(self).source() == old(self).source(),
            tok == next_token(old(self).source(), old(self).offset()),
            final(self).offset() == old(self).offset() + tok.len,
            final(self).offset() <= final(self).source().len(),
    {
        proof {
            use_type_invariant(&*self);
        }
        let start_pos = self.pos;
        let first_char = match self.bump_ret() {
            Some(c) => c,
            None => {
                return RawToken::eof();
            },
        };
        proof {
            lemma_token_bounds(self.bytes@, start_pos as int);
        }
        let token_kind = self.advance_token_kind(first_char);
        let len = (self.pos - start_pos) as u32;
        RawToken::new(token_kind, len)
    }

    /// The next token, or `None` at the end of the input.
    pub fn next(&mut self) -> (item: Option<RawToken>)
        ensures
            final(self).source() == old(self).source(),
            final(self).offset() <= final(self).source().len(),
            match item {
                Some(tok) => {
                    &&& old(self).offset() < old(self).source().len()
                    &&& tok == next_token(old(self).source(), old(self).offset())
                    &&& final(self).offset() == old(self).offset() + tok.len
                },
                None => {
                    &&& old(self).offset() == old(self).source().len()
                    &&& final(self).offset() == old(self).offset()
                },
            },
    {
        proof {
            use_type_invariant(&*self);
            if self.pos < self.bytes@.len() {
                lemma_token_bounds(self.bytes@, self.pos as int);
            }
        }
        let token = self.advance_token();
        match token.kind {
            RawTokenKind::Eof => None,
            _ => Some(token),
        }
    }

    /// Hands out the tokens that are left, in source order, and stops at the
    /// end of the input. The closing `Eof` is not among them.
    pub fn collect_tokens(&mut self) -> (tokens: Vec<RawToken>)
        ensures
            final(self).source() == old(self).source(),
            final(self).offset() == old(self).source().len(),
            tokens@ == tokens_from(old(self).source(), old(self).offset()),
    {
        proof {
            use_type_invariant(&*self);
        }
        let mut tokens: Vec<RawToken> = Vec::new();
        loop
            invariant_except_break
                self.bytes == old(self).bytes,
                self.pos <= self.bytes@.len() <= u32::MAX,
                tokens@ + tokens_from(self.bytes@, self.pos as int) == tokens_from(
                    old(self).bytes@,
                    old(self).pos as int,
                ),
            ensures
                self.bytes == old(self).bytes,
                self.pos == self.bytes@.len(),
                tokens@ == tokens_from(old(self).bytes@, old(self).pos as int),
            decreases self.bytes@.len() - self.pos,
        {
            let ghost before = self.pos as int;
            let ghost seen = tokens@;
            proof {
                if before < self.bytes@.len() {
                    lemma_token_bounds(self.bytes@, before);
                }
            }
            match self.next() {
                Some(token) => {
                    tokens.push(token);
                    proof {
                        use_type_invariant(&*self);
                        assert(tokens@ + tokens_from(self.bytes@, self.pos as int) =~= seen + (
                        seq![token] + tokens_from(self.bytes@, self.pos as int)));
                    }
                },
                None => {
                    proof {
                        use_type_invariant(&*self);
                        assert(tokens@ + Seq::<RawToken>::empty() =~= tokens@);
                    }
                    break ;
                },
            }
        }
        tokens
    }

    fn advance_token_kind(&mut self, first_char: u8) -> (kind: RawTokenKind)
        requires
            old(self).pos >= 1,
            old(self).bytes@[old(self).pos - 1] == first_char,
        ensures
            final(self).bytes == old(self).bytes,
            kind == token_at(old(self).bytes@, old(self).pos - 1).0,
            final(self).pos == token_end(old(self).bytes@, old(self).pos - 1),
    {
        proof {
            use_type_invariant(&*self);
        }
        if first_char == SLASH {
            // Slash, comment or block comment.
            let next = self.first();
            if next == SLASH {
                self.line_comment()
            } else if next == STAR {
                self.block_comment()
            } else {
                RawTokenKind::Slash
            }
        } else if is_whitespace_byte(first_char) {
            // Whitespace sequence.
            self.whitespace()
        } else if is_id_start_byte(first_char) {
            // Identifier (checked after the other variants that can start as one).
            self.ident_or_prefixed_literal(first_char)
        } else if is_decimal_digit_byte(first_char) {
            // Numeric literal.
            let kind = self.number(first_char);
            RawTokenKind::Literal { kind }
        } else if first_char == DOT && is_decimal_digit_byte(self.first()) {
            let kind = self.rational_number_after_dot(Base::Decimal);
            RawTokenKind::Literal { kind }
        } else if first_char == SEMICOLON {
            RawTokenKind::Semi
        } else if first_char == COMMA {
            RawTokenKind::Comma
        } else if first_char == DOT {
            RawTokenKind::Dot
        } else if first_char == OPEN_PAREN {
            RawTokenKind::OpenParen
        } else if first_char == CLOSE_PAREN {
            RawTokenKind::CloseParen
        } else if first_char == OPEN_BRACE {
            RawTokenKind::OpenBrace
        } else if first_char == CLOSE_BRACE {
            RawTokenKind::CloseBrace
        } else if first_char == OPEN_BRACKET {
            RawTokenKind::OpenBracket
        } else if first_char == CLOSE_BRACKET {
            RawTokenKind::CloseBracket
        } else if first_char == TILDE {
            RawTokenKind::Tilde
        } else if first_char == QUESTION {
            RawTokenKind::Question
        } else if first_char == COLON {
            RawTokenKind::Colon
        } else if first_char == EQUALS {
            RawTokenKind::Eq
        } else if first_char == BANG {
            RawTokenKind::Bang
        } else if first_char == LESS {
            RawTokenKind::Lt
        } else if first_char == GREATER {
            RawTokenKind::Gt
        } else if first_char == MINUS {
            RawTokenKind::Minus
        } else if first_char == AMPERSAND {
            RawTokenKind::And
        } else if first_char == PIPE {
            RawTokenKind::Or
        } else if first_char == PLUS {
            RawTokenKind::Plus
        } else if first_char == STAR {
            RawTokenKind::Star
        } else if first_char == CARET {
            RawTokenKind::Caret
        } else if first_char == PERCENT {
            RawTokenKind::Percent
        } else if first_char == SINGLE_QUOTE || first_char == DOUBLE_QUOTE {
            // String literal.
            let terminated = self.eat_string(first_char);
            let kind = RawLiteralKind::Str { kind: StrKind::Str, terminated };
            RawTokenKind::Literal { kind }
        } else {
            if first_char >= 0x80 {
                self.bump_utf8_with(first_char);
            }
            RawTokenKind::Unknown
        }
    }

    fn line_comment(&mut self) -> (kind: RawTokenKind)
        requires
            old(self).pos < old(self).bytes@.len(),
            old(self).bytes@[old(self).pos as int] == SLASH,
        ensures
            final(self).bytes == old(self).bytes,
            kind == line_comment(old(self).bytes@, old(self).pos + 1).0,
            final(self).pos == line_comment(old(self).bytes@, old(self).pos + 1).1,
    {
        self.bump();
        proof {
            use_type_invariant(&*self);
        }
        // `////` (more than 3 slashes) is not considered a doc comment.
        let is_doc = self.first() == SLASH && self.second() != SLASH;

        let remaining = slice_subrange(self.bytes, self.pos, self.bytes.len());
        let found = memchr2(LF, CR, remaining);
        let ghost from = self.pos as int;
        let end = match found {
            Some(at) => self.pos + at,
            None => self.bytes.len(),
        };
        proof {
            assert forall|i: int| from <= i < end implies in_class(
                ByteClass::LineBody,
                #[trigger] self.bytes@[i],
            ) by {
                assert(self.bytes@[i] == remaining@[i - from]);
            }
            if end < self.bytes@.len() {
                assert(self.bytes@[end as int] == remaining@[end - from]);
            }
            lemma_run_end_is(self.bytes@, from, ByteClass::LineBody, end as int);
        }
        self.pos = end;
        RawTokenKind::LineComment { is_doc }
    }

    fn block_comment(&mut self) -> (kind: RawTokenKind)
        requires
            old(self).pos < old(self).bytes@.len(),
            old(self).bytes@[old(self).pos as int] == STAR,
        ensures
            final(self).bytes == old(self).bytes,
            kind == block_comment(old(self).bytes@, old(self).pos + 1).0,
            final(self).pos == block_comment(old(self).bytes@, old(self).pos + 1).1,
    {
        self.bump();
        proof {
            use_type_invariant(&*self);
        }
        // `/***` (more than 2 stars) is not considered a doc comment.
        // `/**/` is not considered a doc comment.
        let is_doc = self.first() == STAR && self.second() != STAR && self.second() != SLASH;

        let remaining = slice_subrange(self.bytes, self.pos, self.bytes.len());
        let needle: [u8; 2] = [STAR, SLASH];
        let found = find(remaining, needle.as_slice());
        let ghost from = self.pos as int;
        let ghost s = self.bytes@;
        proof {
            assert(needle@ =~= seq![STAR, SLASH]);
            assert forall|j: int| #![auto] occurs_at(remaining@, seq![STAR, SLASH], j) <==> (0 <= j
                && from + j + 2 <= s.len() && s[from + j] == STAR && s[from + j + 1] == SLASH) by {
                lemma_close_occurs(remaining@, j);
            }
        }
        match found {
            Some(at) => {
                proof {
                    assert forall|i: int| from <= i < from + at implies !(s[i] == STAR
                        && #[trigger] s[i + 1] == SLASH) by {
                        assert(!occurs_at(remaining@, seq![STAR, SLASH], i - from));
                    }
                    assert(occurs_at(remaining@, seq![STAR, SLASH], at as int));
                    lemma_comment_close_is(s, from, from + at);
                }
                self.pos = self.pos + at + 2;
                RawTokenKind::BlockComment { is_doc, terminated: true }
            },
            None => {
                proof {
                    assert forall|i: int| from <= i && i + 2 <= s.len() implies !(s[i] == STAR
                        && #[trigger] s[i + 1] == SLASH) by {
                        assert(!occurs_at(remaining@, seq![STAR, SLASH], i - from));
                    }
                    lemma_comment_close_none(s, from);
                }
                self.pos = self.bytes.len();
                RawTokenKind::BlockComment { is_doc, terminated: false }
            },
        }
    }

    fn whitespace(&mut self) -> (kind: RawTokenKind)
        ensures
            final(self).bytes == old(self).bytes,
            kind == RawTokenKind::Whitespace,
            final(self).pos == run_end(old(self).bytes@, old(self).pos as int, ByteClass::Whitespace),
    {
        self.eat_while(is_whitespace_byte, Ghost(ByteClass::Whitespace));
        RawTokenKind::Whitespace
    }

    fn ident_or_prefixed_literal(&mut self, first: u8) -> (kind: RawTokenKind)
        requires
            old(self).pos >= 1,
            old(self).bytes@[old(self).pos - 1] == first,
        ensures
            final(self).bytes == old(self).bytes,
            kind == ident_or_prefixed_literal(old(self).bytes@, old(self).pos - 1).0,
            final(self).pos == ident_or_prefixed_literal(old(self).bytes@, old(self).pos - 1).1,
    {
        proof {
            use_type_invariant(&*self);
            lemma_run_end(self.bytes@, self.pos as int, ByteClass::IdContinue);
        }
        // Account for the first byte, which is consumed already.
        let start_pos = self.pos - 1;
        self.eat_while(is_id_continue_byte, Ghost(ByteClass::IdContinue));
        proof {
            use_type_invariant(&*self);
        }
        let ghost word = self.bytes@.subrange(start_pos as int, self.pos as int);
        proof {
            if word == hex_word() {
                assert(word[0] == LOWER_H);
            }
            if word == unicode_word() {
                assert(word[0] == LOWER_U);
            }
        }

        // Check if the identifier is a string literal prefix.
        if first == LOWER_H || first == LOWER_U {
            let hex: [u8; 3] = [LOWER_H, LOWER_E, LOWER_X];
            let unicode: [u8; 7] = [LOWER_U, LOWER_N, LOWER_I, LOWER_C, LOWER_O, LOWER_D, LOWER_E];
            proof {
                assert(hex@ =~= hex_word());
                assert(unicode@ =~= unicode_word());
            }
            let is_hex = range_is(self.bytes, start_pos, self.pos, hex.as_slice());
            if is_hex || range_is(self.bytes, start_pos, self.pos, unicode.as_slice()) {
                let quote = self.first();
                if quote == SINGLE_QUOTE || quote == DOUBLE_QUOTE {
                    self.bump();
                    let terminated = self.eat_string(quote);
                    let kind = if is_hex {
                        StrKind::Hex
                    } else {
                        StrKind::Unicode
                    };
                    return RawTokenKind::Literal {
                        kind: RawLiteralKind::Str { kind, terminated },
                    };
                }
            }
        }
        RawTokenKind::Ident
    }

    fn number(&mut self, first_digit: u8) -> (kind: RawLiteralKind)
        requires
            old(self).pos >= 1,
            old(self).bytes@[old(self).pos - 1] == first_digit,
        ensures
            final(self).bytes == old(self).bytes,
            kind == number(old(self).bytes@, old(self).pos - 1).0,
            final(self).pos == number(old(self).bytes@, old(self).pos - 1).1,
    {
        let mut base = Base::Decimal;
        if first_digit == DIGIT_0 {
            // Attempt to parse encoding base.
            let c = self.first();
            let has_digits = if c == LOWER_B {
                base = Base::Binary;
                self.bump();
                self.eat_decimal_digits()
            } else if c == LOWER_O {
                base = Base::Octal;
                self.bump();
                self.eat_decimal_digits()
            } else if c == LOWER_X {
                base = Base::Hexadecimal;
                self.bump();
                self.eat_hexadecimal_digits()
            } else if is_decimal_digit_byte(c) || c == UNDERSCORE || c == DOT || c == LOWER_E || c
                == UPPER_E {
                // Not a base prefix.
                self.eat_decimal_digits();
                true
            } else {
                // Just a 0.
                return RawLiteralKind::Int { base, empty_int: false };
            };
            // Base prefix was provided, but there were no digits after it, e.g. "0x".
            if !has_digits {
                return RawLiteralKind::Int { base, empty_int: true };
            }
        } else {
            // No base prefix, parse number in the usual way.
            self.eat_decimal_digits();
        }
        self.number_tail(base)
    }

    fn number_tail(&mut self, base: Base) -> (kind: RawLiteralKind)
        ensures
            final(self).bytes == old(self).bytes,
            kind == number_tail(old(self).bytes@, old(self).pos as int, base).0,
            final(self).pos == number_tail(old(self).bytes@, old(self).pos as int, base).1,
    {
        let c = self.first();
        // Don't be greedy if this is actually an integer literal followed by
        // field/method access (`12.foo()`).
        if c == DOT && (!is_id_start_byte(self.second()) || self.second() == UNDERSCORE) {
            self.bump();
            self.rational_number_after_dot(base)
        } else if c == LOWER_E || c == UPPER_E {
            self.bump();
            let empty_exponent = !self.eat_exponent();
            RawLiteralKind::Rational { base, empty_exponent }
        } else {
            RawLiteralKind::Int { base, empty_int: false }
        }
    }

    fn rational_number_after_dot(&mut self, base: Base) -> (kind: RawLiteralKind)
        ensures
            final(self).bytes == old(self).bytes,
            kind == rational_after_dot(old(self).bytes@, old(self).pos as int, base).0,
            final(self).pos == rational_after_dot(old(self).bytes@, old(self).pos as int, base).1,
    {
        self.eat_decimal_digits();
        let c = self.first();
        let empty_exponent = if c == LOWER_E || c == UPPER_E {
            self.bump();
            !self.eat_exponent()
        } else {
            false
        };
        RawLiteralKind::Rational { base, empty_exponent }
    }

    /// Eats a string until the given quote character. Returns `true` if the string was terminated.
    fn eat_string(&mut self, quote: u8) -> (terminated: bool)
        ensures
            final(self).bytes == old(self).bytes,
            final(self).pos == string_end(old(self).bytes@, old(self).pos as int, quote).0,
            terminated == string_end(old(self).bytes@, old(self).pos as int, quote).1,
    {
        proof {
            use_type_invariant(&*self);
        }
        while self.pos < self.bytes.len()
            invariant
                self.bytes == old(self).bytes,
                self.pos <= self.bytes@.len() <= u32::MAX,
                string_end(self.bytes@, self.pos as int, quote) == string_end(
                    old(self).bytes@,
                    old(self).pos as int,
                    quote,
                ),
            decreases self.bytes@.len() - self.pos,
        {
            let c = self.bytes[self.pos];
            self.pos += 1;
            if c == quote {
                return true;
            }
            if c == BACKSLASH && self.pos < self.bytes.len() {
                let next = self.bytes[self.pos];
                if next == BACKSLASH || next == quote {
                    // Skip escaped character
                    self.pos += 1;
                }
            }
        }
        // End of file reached
        false
    }

    /// Eats characters for a decimal number. Returns `true` if any digits were encountered.
    fn eat_decimal_digits(&mut self) -> (has_digits: bool)
        ensures
            final(self).bytes == old(self).bytes,
            final(self).pos == run_end(
                old(self).bytes@,
                old(self).pos as int,
                ByteClass::DecimalDigits,
            ),
            has_digits == has_digit(
                old(self).bytes@,
                old(self).pos as int,
                final(self).pos as int,
                false,
            ),
    {
        self.eat_digits(is_decimal_digit_byte, Ghost(false))
    }

    /// Eats characters for a hexadecimal number. Returns `true` if any digits were encountered.
    fn eat_hexadecimal_digits(&mut self) -> (has_digits: bool)
        ensures
            final(self).bytes == old(self).bytes,
            final(self).pos == run_end(old(self).bytes@, old(self).pos as int, ByteClass::HexDigits),
            has_digits == has_digit(
                old(self).bytes@,
                old(self).pos as int,
                final(self).pos as int,
                true,
            ),
    {
        self.eat_digits(is_hex_digit_byte, Ghost(true))
    }

    fn eat_digits<F: Fn(u8) -> bool>(&mut self, is_digit: F, Ghost(hex): Ghost<bool>) -> (has_digits:
        bool)
        requires
            forall|b: u8| #[trigger] call_requires(is_digit, (b,)),
            forall|b: u8, r: bool| #[trigger] call_ensures(is_digit, (b,), r) ==> r == proper_digit(b, hex),
        ensures
            final(self).bytes == old(self).bytes,
            final(self).pos == run_end(old(self).bytes@, old(self).pos as int, digit_class(hex)),
            has_digits == has_digit(
                old(self).bytes@,
                old(self).pos as int,
                final(self).pos as int,
                hex,
            ),
    {
        proof {
            use_type_invariant(&*self);
        }
        let mut has_digits = false;
        while self.pos < self.bytes.len()
            invariant_except_break
                self.bytes == old(self).bytes,
                old(self).pos <= self.pos <= self.bytes@.len() <= u32::MAX,
                forall|b: u8| #[trigger] call_requires(is_digit, (b,)),
                forall|b: u8, r: bool| #[trigger]
                    call_ensures(is_digit, (b,), r) ==> r == proper_digit(b, hex),
                run_end(self.bytes@, self.pos as int, digit_class(hex)) == run_end(
                    old(self).bytes@,
                    old(self).pos as int,
                    digit_class(hex),
                ),
                has_digits == has_digit(self.bytes@, old(self).pos as int, self.pos as int, hex),
            ensures
                self.bytes == old(self).bytes,
                self.pos <= self.bytes@.len() <= u32::MAX,
                self.pos == run_end(old(self).bytes@, old(self).pos as int, digit_class(hex)),
                has_digits == has_digit(self.bytes@, old(self).pos as int, self.pos as int, hex),
            decreases self.bytes@.len() - self.pos,
        {
            let c = self.bytes[self.pos];
            if c == UNDERSCORE {
                proof {
                    let ghost at = self.pos as int;
                    let ghost start = old(self).pos as int;
                    assert(has_digit(self.bytes@, start, at + 1, hex) == has_digit(
                        self.bytes@,
                        start,
                        at,
                        hex,
                    )) by {
                        if has_digit(self.bytes@, start, at + 1, hex) {
                            let i = choose|i: int|
                                start <= i < at + 1 && 0 <= i < self.bytes@.len() && proper_digit(
                                    #[trigger] self.bytes@[i],
                                    hex,
                                );
                            assert(i != at);
                        }
                    }
                }
                self.pos += 1;
            } else if is_digit(c) {
                has_digits = true;
                self.pos += 1;
            } else {
                break ;
            }
        }
        has_digits
    }

    /// Eats the exponent. Returns `true` if any digits were encountered.
    fn eat_exponent(&mut self) -> (has_digits: bool)
        ensures
            final(self).bytes == old(self).bytes,
            final(self).pos == exponent(old(self).bytes@, old(self).pos as int).0,
            has_digits == exponent(old(self).bytes@, old(self).pos as int).1,
    {
        if self.first() == MINUS {
            self.bump();
        }
        self.eat_decimal_digits()
    }

    /// Returns the remaining input as a byte slice.
    pub fn as_bytes(&self) -> (rest: &'a [u8])
        ensures
            self.offset() <= self.source().len(),
            rest@ == self.source().subrange(self.offset(), self.source().len() as int),
    {
        proof {
            use_type_invariant(self);
        }
        slice_subrange(self.bytes, self.pos, self.bytes.len())
    }

    /// Peeks the next byte from the input stream without consuming it.
    fn first(&self) -> (b: u8)
        ensures
            b == peek(self.bytes@, self.pos as int),
    {
        if self.pos < self.bytes.len() {
            self.bytes[self.pos]
        } else {
            NUL
        }
    }

    /// Peeks the second byte from the input stream without consuming it.
    fn second(&self) -> (b: u8)
        ensures
            b == peek(self.bytes@, self.pos + 1),
    {
        proof {
            use_type_invariant(self);
        }
        if self.bytes.len() - self.pos > 1 {
            self.bytes[self.pos + 1]
        } else {
            NUL
        }
    }

    /// Moves to the next character.
    fn bump(&mut self)
        requires
            old(self).pos < old(self).bytes@.len(),
        ensures
            final(self).bytes == old(self).bytes,
            final(self).pos == old(self).pos + 1,
    {
        proof {
            use_type_invariant(&*self);
        }
        self.pos += 1;
    }

    /// Skips to the end of the current UTF-8 character sequence, or to the
    /// end of the input where the sequence is cut short.
    fn bump_utf8_with(&mut self, x: u8)
        ensures
            final(self).bytes == old(self).bytes,
            final(self).pos == if old(self).pos + utf8_tail_len(x) <= old(self).bytes@.len() {
                old(self).pos + utf8_tail_len(x)
            } else {
                old(self).bytes@.len() as int
            },
    {
        proof {
            use_type_invariant(&*self);
        }
        let skip: usize = if x < 0x80 {
            0
        } else if x < 0xe0 {
            1
        } else if x < 0xf0 {
            2
        } else {
            3
        };
        if skip <= self.bytes.len() - self.pos {
            self.pos += skip;
        } else {
            self.pos = self.bytes.len();
        }
    }

    /// Moves to the next character, returning the current one.
    fn bump_ret(&mut self) -> (b: Option<u8>)
        ensures
            final(self).bytes == old(self).bytes,
            match b {
                Some(c) => old(self).pos < old(self).bytes@.len() && c == old(self).bytes@[old(
                    self,
                ).pos as int] && final(self).pos == old(self).pos + 1,
                None => old(self).pos == old(self).bytes@.len() && final(self).pos == old(self).pos,
            },
    {
        proof {
            use_type_invariant(&*self);
        }
        if self.pos < self.bytes.len() {
            let c = self.bytes[self.pos];
            self.pos += 1;
            Some(c)
        } else {
            None
        }
    }

    /// Eats symbols while predicate returns true or until the end of file is reached.
    fn eat_while<F: Fn(u8) -> bool>(&mut self, predicate: F, Ghost(class): Ghost<ByteClass>)
        requires
            forall|b: u8| #[trigger] call_requires(predicate, (b,)),
            forall|b: u8, r: bool| #[trigger]
                call_ensures(predicate, (b,), r) ==> r == in_class(class, b),
        ensures
            final(self).bytes == old(self).bytes,
            final(self).pos == run_end(old(self).bytes@, old(self).pos as int, class),
    {
        proof {
            use_type_invariant(&*self);
        }
        while self.pos < self.bytes.len()
            invariant_except_break
                self.bytes == old(self).bytes,
                self.pos <= self.bytes@.len() <= u32::MAX,
                forall|b: u8| #[trigger] call_requires(predicate, (b,)),
                forall|b: u8, r: bool| #[trigger]
                    call_ensures(predicate, (b,), r) ==> r == in_class(class, b),
                run_end(self.bytes@, self.pos as int, class) == run_end(
                    old(self).bytes@,
                    old(self).pos as int,
                    class,
                ),
            ensures
                self.bytes == old(self).bytes,
                self.pos <= self.bytes@.len() <= u32::MAX,
                self.pos == run_end(old(self).bytes@, old(self).pos as int, class),
            decreases self.bytes@.len() - self.pos,
        {
            if !predicate(self.bytes[self.pos]) {
                break ;
            }
            self.pos += 1;
        }
    }
}

} // verus!
