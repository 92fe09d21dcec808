//! Where the scans of the grammar end: each stays inside the input, and a
//! token is never empty.

use vstd::prelude::*;
use crate::lexer::ascii::{SLASH, STAR};
use crate::lexer::grammar::{
    block_comment, comment_close, exponent, ident_or_prefixed_literal, in_class, line_comment,
    number, number_tail, prefixed_number, rational_after_dot, run_end, string_end, token_end,
    ByteClass,
};
use crate::lexer::token::Base;
use crate::search::occurs_at;

verus! {

/// A run ends inside the input, holds bytes of its class only, and stops at
/// the end of the input or before a byte that is not of the class.
pub proof fn lemma_run_end(s: Seq<u8>, from: int, class: ByteClass)
    requires
        0 <= from <= s.len(),
    ensures
        from <= run_end(s, from, class) <= s.len(),
        forall|i: int| from <= i < run_end(s, from, class) ==> in_class(class, #[trigger] s[i]),
        run_end(s, from, class) < s.len() ==> !in_class(class, s[run_end(s, from, class)]),
    decreases s.len() - from,
{
    if from < s.len() && in_class(class, s[from]) {
        lemma_run_end(s, from + 1, class);
    }
}

/// The run that starts at `from` ends at `end` if all of `s[from..end)` is of
/// the class and `end` is the end of the input or a byte outside the class.
pub proof fn lemma_run_end_is(s: Seq<u8>, from: int, class: ByteClass, end: int)
    requires
        0 <= from <= end <= s.len(),
        forall|i: int| from <= i < end ==> in_class(class, #[trigger] s[i]),
        end < s.len() ==> !in_class(class, s[end]),
    ensures
        run_end(s, from, class) == end,
    decreases end - from,
{
    if from < end {
        lemma_run_end_is(s, from + 1, class, end);
    }
}

/// A run that is entered in its middle ends where the whole run ends.
pub proof fn lemma_run_end_resume(s: Seq<u8>, from: int, mid: int, class: ByteClass)
    requires
        0 <= from <= mid <= s.len(),
        forall|i: int| from <= i < mid ==> in_class(class, #[trigger] s[i]),
    ensures
        run_end(s, from, class) == run_end(s, mid, class),
    decreases mid - from,
{
    if from < mid {
        lemma_run_end_resume(s, from + 1, mid, class);
    }
}

/// A string literal ends inside the input.
pub proof fn lemma_string_end(s: Seq<u8>, from: int, quote: u8)
    requires
        0 <= from <= s.len(),
    ensures
        from <= string_end(s, from, quote).0 <= s.len(),
    decreases s.len() - from,
{
    if from < s.len() && s[from] != quote {
        if s[from] == crate::lexer::ascii::BACKSLASH && from + 1 < s.len() && (s[from + 1]
            == crate::lexer::ascii::BACKSLASH || s[from + 1] == quote) {
            lemma_string_end(s, from + 2, quote);
        } else {
            lemma_string_end(s, from + 1, quote);
        }
    }
}

/// The closing `*/` of a block comment, where there is one, lies inside the
/// input, and none stands between `from` and it.
pub proof fn lemma_comment_close(s: Seq<u8>, from: int)
    requires
        0 <= from <= s.len(),
    ensures
        from <= comment_close(s, from) <= s.len(),
        comment_close(s, from) < s.len() ==> {
            &&& comment_close(s, from) + 2 <= s.len()
            &&& s[comment_close(s, from)] == STAR
            &&& s[comment_close(s, from) + 1] == SLASH
        },
        forall|i: int|
            from <= i < comment_close(s, from) && i + 1 < s.len() ==> !(s[i] == STAR && #[trigger] s[i
                + 1] == SLASH),
    decreases s.len() - from,
{
    if from + 1 < s.len() && !(s[from] == STAR && s[from + 1] == SLASH) {
        lemma_comment_close(s, from + 1);
    }
}

/// The first `*/` at or after `from` is at `at`, if one is there and none
/// before it.
pub proof fn lemma_comment_close_is(s: Seq<u8>, from: int, at: int)
    requires
        0 <= from <= at,
        at + 2 <= s.len(),
        s[at] == STAR,
        s[at + 1] == SLASH,
        forall|i: int| from <= i < at ==> !(s[i] == STAR && #[trigger] s[i + 1] == SLASH),
    ensures
        comment_close(s, from) == at,
    decreases at - from,
{
    if from < at {
        assert(!(s[from] == STAR && s[from + 1] == SLASH));
        lemma_comment_close_is(s, from + 1, at);
    }
}

/// No `*/` at or after `from`: the comment is not closed.
pub proof fn lemma_comment_close_none(s: Seq<u8>, from: int)
    requires
        0 <= from <= s.len(),
        forall|i: int| from <= i && i + 2 <= s.len() ==> !(s[i] == STAR && #[trigger] s[i + 1] == SLASH),
    ensures
        comment_close(s, from) == s.len(),
    decreases s.len() - from,
{
    if from + 1 < s.len() {
        assert(!(s[from] == STAR && s[from + 1] == SLASH));
        lemma_comment_close_none(s, from + 1);
    }
}

/// `*/` occurs at `i` exactly if the two bytes stand there.
pub proof fn lemma_close_occurs(s: Seq<u8>, i: int)
    ensures
        occurs_at(s, seq![STAR, SLASH], i) <==> (0 <= i && i + 2 <= s.len() && s[i] == STAR && s[i
            + 1] == SLASH),
{
    let needle = seq![STAR, SLASH];
    if 0 <= i && i + 2 <= s.len() {
        let sub = s.subrange(i, i + 2);
        assert(sub[0] == s[i]);
        assert(sub[1] == s[i + 1]);
        if s[i] == STAR && s[i + 1] == SLASH {
            assert(sub =~= needle);
        } else {
            assert(needle[0] == STAR && needle[1] == SLASH);
        }
    }
}

/// An exponent ends inside the input.
pub proof fn lemma_exponent(s: Seq<u8>, from: int)
    requires
        0 <= from <= s.len(),
    ensures
        from <= exponent(s, from).0 <= s.len(),
{
    if from < s.len() {
        lemma_run_end(s, from + 1, ByteClass::DecimalDigits);
    }
    lemma_run_end(s, from, ByteClass::DecimalDigits);
}

/// A fraction ends inside the input.
pub proof fn lemma_rational_after_dot(s: Seq<u8>, from: int, base: Base)
    requires
        0 <= from <= s.len(),
    ensures
        from <= rational_after_dot(s, from, base).1 <= s.len(),
{
    lemma_run_end(s, from, ByteClass::DecimalDigits);
    let end = run_end(s, from, ByteClass::DecimalDigits);
    if end < s.len() {
        lemma_exponent(s, end + 1);
    }
}

/// The tail of a number ends inside the input.
pub proof fn lemma_number_tail(s: Seq<u8>, from: int, base: Base)
    requires
        0 <= from <= s.len(),
    ensures
        from <= number_tail(s, from, base).1 <= s.len(),
{
    if from < s.len() {
        lemma_rational_after_dot(s, from + 1, base);
        lemma_exponent(s, from + 1);
    }
}

/// A number with a base prefix ends inside the input.
pub proof fn lemma_prefixed_number(s: Seq<u8>, digits: int, base: Base)
    requires
        0 <= digits <= s.len(),
    ensures
        digits <= prefixed_number(s, digits, base).1 <= s.len(),
{
    let hex = base == Base::Hexadecimal;
    lemma_run_end(s, digits, crate::lexer::grammar::digit_class(hex));
    lemma_number_tail(s, run_end(s, digits, crate::lexer::grammar::digit_class(hex)), base);
}

/// A number is not empty and ends inside the input.
pub proof fn lemma_number(s: Seq<u8>, start: int)
    requires
        0 <= start < s.len(),
    ensures
        start < number(s, start).1 <= s.len(),
{
    let next = start + 1;
    lemma_run_end(s, next, ByteClass::DecimalDigits);
    lemma_number_tail(s, run_end(s, next, ByteClass::DecimalDigits), Base::Decimal);
    if next < s.len() {
        lemma_prefixed_number(s, next + 1, Base::Binary);
        lemma_prefixed_number(s, next + 1, Base::Octal);
        lemma_prefixed_number(s, next + 1, Base::Hexadecimal);
    }
}

/// An identifier, or the literal it is the prefix of, is not empty and ends
/// inside the input.
pub proof fn lemma_ident_or_prefixed_literal(s: Seq<u8>, start: int)
    requires
        0 <= start < s.len(),
    ensures
        start < ident_or_prefixed_literal(s, start).1 <= s.len(),
{
    lemma_run_end(s, start + 1, ByteClass::IdContinue);
    let end = run_end(s, start + 1, ByteClass::IdContinue);
    if end < s.len() {
        lemma_string_end(s, end + 1, s[end]);
    }
}

/// A line comment ends inside the input.
pub proof fn lemma_line_comment(s: Seq<u8>, body: int)
    requires
        0 <= body <= s.len(),
    ensures
        body <= line_comment(s, body).1 <= s.len(),
{
    lemma_run_end(s, body, ByteClass::LineBody);
}

/// A block comment ends inside the input.
pub proof fn lemma_block_comment(s: Seq<u8>, body: int)
    requires
        0 <= body <= s.len(),
    ensures
        body <= block_comment(s, body).1 <= s.len(),
{
    lemma_comment_close(s, body);
}

/// Every token holds at least one byte and ends inside the input.
pub proof fn lemma_token_bounds(s: Seq<u8>, pos: int)
    requires
        0 <= pos < s.len(),
    ensures
        pos < token_end(s, pos) <= s.len(),
{
    let next = pos + 1;
    if next < s.len() {
        lemma_line_comment(s, next + 1);
        lemma_block_comment(s, next + 1);
    }
    lemma_run_end(s, next, ByteClass::Whitespace);
    lemma_ident_or_prefixed_literal(s, pos);
    lemma_number(s, pos);
    lemma_rational_after_dot(s, next, Base::Decimal);
    lemma_string_end(s, next, s[pos]);
}

} // verus!
