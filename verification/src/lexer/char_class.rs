//! Character classes of the Solidity lexer.
//!
//! Every predicate looks at a single byte. A `char` is classified by its low
//! eight bits, so the `char` forms agree with the byte forms on ASCII only.

use vstd::prelude::*;
use vstd::string::StringSliceAdditionalSpecFns;
use crate::lexer::ascii::{
    CR, DIGIT_0, DIGIT_9, DOLLAR, LF, LOWER_A, LOWER_F, LOWER_Z, SPACE, TAB, UNDERSCORE, UPPER_A,
    UPPER_F, UPPER_Z,
};

verus! {

/// Whitespace: space, tab, line feed, carriage return.
pub open spec fn whitespace_byte(b: u8) -> bool {
    b == SPACE || b == TAB || b == LF || b == CR
}

/// ASCII decimal digit.
pub open spec fn decimal_digit(b: u8) -> bool {
    DIGIT_0 <= b <= DIGIT_9
}

/// ASCII hexadecimal digit, either case.
pub open spec fn hex_digit(b: u8) -> bool {
    decimal_digit(b) || (UPPER_A <= b <= UPPER_F) || (LOWER_A <= b <= LOWER_F)
}

/// First byte of an identifier: an ASCII letter, `_` or `$`.
pub open spec fn id_start_byte(b: u8) -> bool {
    (LOWER_A <= b <= LOWER_Z) || (UPPER_A <= b <= UPPER_Z) || b == UNDERSCORE || b == DOLLAR
}

/// Later byte of an identifier: an ASCII letter, a decimal digit, `_` or `$`.
pub open spec fn id_continue_byte(b: u8) -> bool {
    (LOWER_A <= b <= LOWER_Z) || (UPPER_A <= b <= UPPER_Z) || (DIGIT_0 <= b <= DIGIT_9)
        || b == UNDERSCORE || b == DOLLAR
}

/// A non-empty byte string that starts with an identifier-start byte and goes
/// on with identifier-continue bytes only.
pub open spec fn ident_bytes(s: Seq<u8>) -> bool {
    &&& s.len() > 0
    &&& id_start_byte(s[0])
    &&& forall|i: int| 1 <= i < s.len() ==> id_continue_byte(#[trigger] s[i])
}

/// The byte a `char` is classified by: its code point modulo 256.
pub open spec fn low_byte(c: char) -> u8 {
    ((c as u32) % 256) as u8
}

/// Converts a `char` to the byte it is classified by.
pub fn ch2u8(c: char) -> (b: u8)
    ensures
        b == low_byte(c),
{
    let v: u32 = c as u32;
    (v % 256) as u8
}

/// Returns `true` if the given character is considered a whitespace.
pub fn is_whitespace(c: char) -> (r: bool)
    ensures
        r == whitespace_byte(low_byte(c)),
{
    is_whitespace_byte(ch2u8(c))
}

/// Returns `true` if the given byte is considered a whitespace.
pub fn is_whitespace_byte(c: u8) -> (r: bool)
    ensures
        r == whitespace_byte(c),
{
    c == SPACE || c == TAB || c == LF || c == CR
}

/// Returns `true` if the given character is valid at the start of a Solidity identifier.
pub fn is_id_start(c: char) -> (r: bool)
    ensures
        r == id_start_byte(low_byte(c)),
{
    is_id_start_byte(ch2u8(c))
}

/// Returns `true` if the given byte is valid at the start of a Solidity identifier.
pub fn is_id_start_byte(c: u8) -> (r: bool)
    ensures
        r == id_start_byte(c),
{
    (LOWER_A <= c && c <= LOWER_Z) || (UPPER_A <= c && c <= UPPER_Z) || c == UNDERSCORE || c == DOLLAR
}

/// Returns `true` if the given character is valid in a Solidity identifier.
pub fn is_id_continue(c: char) -> (r: bool)
    ensures
        r == id_continue_byte(low_byte(c)),
{
    is_id_continue_byte(ch2u8(c))
}

/// Returns `true` if the given byte is valid in a Solidity identifier.
pub fn is_id_continue_byte(c: u8) -> (r: bool)
    ensures
        r == id_continue_byte(c),
{
    let is_number = c >= DIGIT_0 && c <= DIGIT_9;
    is_id_start_byte(c) || is_number
}

/// Returns `true` if the given byte is an ASCII decimal digit.
pub fn is_decimal_digit_byte(c: u8) -> (r: bool)
    ensures
        r == decimal_digit(c),
{
    DIGIT_0 <= c && c <= DIGIT_9
}

/// Returns `true` if the given byte is an ASCII hexadecimal digit.
pub fn is_hex_digit_byte(c: u8) -> (r: bool)
    ensures
        r == hex_digit(c),
{
    (DIGIT_0 <= c && c <= DIGIT_9) || (UPPER_A <= c && c <= UPPER_F) || (LOWER_A <= c && c <= LOWER_F)
}

/// Returns `true` if the given string is a valid Solidity identifier.
pub fn is_ident(s: &str) -> (r: bool)
    ensures
        r == ident_bytes(s.spec_bytes()),
{
    is_ident_bytes(s.as_bytes())
}

/// Returns `true` if the given byte slice is a valid Solidity identifier.
pub fn is_ident_bytes(s: &[u8]) -> (r: bool)
    ensures
        r == ident_bytes(s@),
{
    if s.len() == 0 {
        return false;
    }
    if !is_id_start_byte(s[0]) {
        return false;
    }
    let mut i: usize = 1;
    while i < s.len()
        invariant
            1 <= i <= s.len(),
            id_start_byte(s@[0]),
            forall|j: int| 1 <= j < i ==> id_continue_byte(#[trigger] s@[j]),
        decreases s.len() - i,
    {
        if !is_id_continue_byte(s[i]) {
            return false;
        }
        i += 1;
    }
    true
}

/// An identifier-continue byte is an identifier-start byte or a decimal digit,
/// and nothing else.
pub proof fn law_id_continue_is_start_or_digit(b: u8)
    ensures
        id_continue_byte(b) <==> (id_start_byte(b) || (0x30 <= b <= 0x39)),
{
}

} // verus!
