//! Hexadecimal strings. Checking and decoding is done by the `hex` module of
//! `alloy_primitives`; this module states what its functions return.

use vstd::prelude::*;
use crate::lexer::ascii::{DIGIT_0, LOWER_A, LOWER_X, UPPER_A, UPPER_X};
use crate::lexer::char_class::{decimal_digit, hex_digit};

verus! {

/// The outside error of a failed decoding. Nothing of it is read.
#[verifier::external_type_specification]
#[verifier::external_body]
pub struct ExFromHexError(alloy_primitives::hex::FromHexError);

/// The value of a hexadecimal digit, 0 to 15.
pub open spec fn hex_value(b: u8) -> int
    recommends
        hex_digit(b),
{
    if decimal_digit(b) {
        b - DIGIT_0
    } else if b >= LOWER_A {
        b - LOWER_A + 10
    } else {
        b - UPPER_A + 10
    }
}

/// Every byte is a hexadecimal digit.
pub open spec fn all_hex_digits(s: Seq<u8>) -> bool {
    forall|i: int| 0 <= i < s.len() ==> hex_digit(#[trigger] s[i])
}

/// The input without a leading `0x` or `0X`.
pub open spec fn strip_prefix(s: Seq<u8>) -> Seq<u8> {
    if s.len() >= 2 && s[0] == DIGIT_0 && (s[1] == LOWER_X || s[1] == UPPER_X) {
        s.skip(2)
    } else {
        s
    }
}

/// The input can be decoded: its length is even and, after the prefix if it
/// has one, it holds hexadecimal digits only.
pub open spec fn decodable(s: Seq<u8>) -> bool {
    s.len() % 2 == 0 && all_hex_digits(strip_prefix(s))
}

/// The bytes that pairs of hexadecimal digits stand for, the high digit first.
pub open spec fn decoded(digits: Seq<u8>) -> Seq<u8>
    recommends
        digits.len() % 2 == 0,
        all_hex_digits(digits),
{
    Seq::new(
        (digits.len() / 2) as nat,
        |i: int| (hex_value(digits[2 * i]) * 16 + hex_value(digits[2 * i + 1])) as u8,
    )
}

/// `alloy_primitives::hex::check_raw`: whether every byte of the input is a
/// hexadecimal digit. Neither a prefix nor the length is looked at.
#[verifier::external_body]
pub(crate) fn check_raw(input: &[u8]) -> (r: bool)
    ensures
        r == all_hex_digits(input@),
{
    alloy_primitives::hex::check_raw(input)
}

/// `alloy_primitives::hex::decode`: fails on an input of odd length or with a
/// byte that is no hexadecimal digit; else strips a leading `0x` or `0X` and
/// turns each pair of digits into a byte.
#[verifier::external_body]
pub(crate) fn decode(input: &[u8]) -> (r: Result<Vec<u8>, alloy_primitives::hex::FromHexError>)
    ensures
        r is Ok <==> decodable(input@),
        r matches Ok(bytes) ==> bytes@ == decoded(strip_prefix(input@)),
{
    alloy_primitives::hex::decode(input)
}

} // verus!
