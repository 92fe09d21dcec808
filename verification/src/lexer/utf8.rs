//! UTF-8 as the lexer needs it: the first code point of a byte string, and
//! the encoding of a code point that need not be a Unicode scalar value.

use vstd::prelude::*;
use vstd::utf8::{
    char_is_scalar, char_u32_cast, decode_first_codepoint, encode_scalar, encode_utf8, is_ascii_chars,
    is_scalar, last_continuation_byte, leading_byte_width_1,
    leading_byte_width_2, leading_byte_width_3, leading_byte_width_4, length_of_first_codepoint,
    second_last_continuation_byte, third_last_continuation_byte, valid_first_scalar,
    valid_leading_and_continuation_bytes_first_codepoint, valid_utf8,
};

verus! {

/// What stands for a sequence that cannot be decoded: U+FFFD.
pub const REPLACEMENT: u32 = 0xfffd;

/// The length in bytes and the value of the first code point of `s`.
///
/// A leading byte with the continuation bytes it asks for gives the code
/// point they hold; overlong forms and surrogates are not told apart. Any
/// other byte is one byte long and gives U+FFFD, and so does the empty input,
/// with length zero.
pub open spec fn first_code_point(s: Seq<u8>) -> (int, u32) {
    if s.len() == 0 {
        (0, REPLACEMENT)
    } else if valid_leading_and_continuation_bytes_first_codepoint(s) {
        (length_of_first_codepoint(s), decode_first_codepoint(s))
    } else {
        (1, REPLACEMENT)
    }
}

/// The UTF-8 form of a code point, by its size alone: a surrogate or a value
/// above U+10FFFF is laid out like its neighbours.
pub open spec fn raw_utf8(code: u32) -> Seq<u8> {
    if code < 0x80 {
        seq![leading_byte_width_1(code)]
    } else if code < 0x800 {
        seq![leading_byte_width_2(code), last_continuation_byte(code)]
    } else if code < 0x10000 {
        seq![
            leading_byte_width_3(code),
            second_last_continuation_byte(code),
            last_continuation_byte(code),
        ]
    } else {
        seq![
            leading_byte_width_4(code),
            third_last_continuation_byte(code),
            second_last_continuation_byte(code),
            last_continuation_byte(code),
        ]
    }
}

/// A Unicode scalar value is laid out as UTF-8 lays it out.
pub proof fn law_scalar_is_laid_out_as_utf8(code: u32)
    requires
        is_scalar(code),
    ensures
        raw_utf8(code) == encode_scalar(code),
{
}

/// An ASCII code point is one byte, itself.
pub proof fn lemma_raw_utf8_ascii(b: u8)
    requires
        b < 0x80,
    ensures
        raw_utf8(b as u32) == seq![b],
{
    assert(((b as u32) & 0x7f) as u8 == b) by (bit_vector)
        requires
            b < 0x80,
    ;
}

/// In valid UTF-8, laying out the first code point gives back the bytes it
/// was read from.
pub proof fn lemma_raw_utf8_of_first(s: Seq<u8>)
    requires
        valid_utf8(s),
        s.len() > 0,
    ensures
        raw_utf8(first_code_point(s).1) == s.take(first_code_point(s).0),
{
    assert(valid_first_scalar(s));
    let b1 = s[0];
    let code = first_code_point(s).1;
    if b1 <= 0x7f {
        assert({
            let c = (b1 & 0x7f) as u32;
            c < 0x80 && (c & 0x7f) as u8 == b1
        }) by (bit_vector)
            requires
                b1 <= 0x7f,
        ;
    } else if 0xc0 <= b1 <= 0xdf {
        let b2 = s[1];
        assert({
            let c = (((b1 & 0x1f) as u32) << 6) | ((b2 & 0x3f) as u32);
            c < 0x800 && 0xc0 | ((c >> 6) & 0x1f) as u8 == b1 && 0x80 | (c & 0x3f) as u8 == b2
        }) by (bit_vector)
            requires
                0xc0 <= b1 <= 0xdf,
                0x80 <= b2 <= 0xbf,
        ;
    } else if 0xe0 <= b1 <= 0xef {
        let b2 = s[1];
        let b3 = s[2];
        assert({
            let c = (((b1 & 0x0f) as u32) << 12) | (((b2 & 0x3f) as u32) << 6) | ((b3
                & 0x3f) as u32);
            c < 0x10000 && 0xe0 | ((c >> 12) & 0x0f) as u8 == b1 && 0x80 | ((c >> 6) & 0x3f) as u8
                == b2 && 0x80 | (c & 0x3f) as u8 == b3
        }) by (bit_vector)
            requires
                0xe0 <= b1 <= 0xef,
                0x80 <= b2 <= 0xbf,
                0x80 <= b3 <= 0xbf,
        ;
    } else {
        let b2 = s[1];
        let b3 = s[2];
        let b4 = s[3];
        assert({
            let c = (((b1 & 0x07) as u32) << 18) | (((b2 & 0x3f) as u32) << 12) | (((b3
                & 0x3f) as u32) << 6) | ((b4 & 0x3f) as u32);
            0xf0 | ((c >> 18) & 0x07) as u8 == b1 && 0x80 | ((c >> 12) & 0x3f) as u8 == b2 && 0x80
                | ((c >> 6) & 0x3f) as u8 == b3 && 0x80 | (c & 0x3f) as u8 == b4
        }) by (bit_vector)
            requires
                0xf0 <= b1 <= 0xf7,
                0x80 <= b2 <= 0xbf,
                0x80 <= b3 <= 0xbf,
                0x80 <= b4 <= 0xbf,
        ;
    }
    assert(raw_utf8(code) =~= s.take(first_code_point(s).0));
}

/// The first code point of a non-empty input is at least one byte long and
/// ends inside the input.
pub proof fn lemma_first_code_point_len(s: Seq<u8>)
    requires
        s.len() > 0,
    ensures
        1 <= first_code_point(s).0 <= 4,
        first_code_point(s).0 <= s.len(),
{
}

/// An ASCII byte is its own code point.
pub proof fn lemma_first_code_point_ascii(s: Seq<u8>)
    requires
        s.len() > 0,
        s[0] < 0x80,
    ensures
        first_code_point(s) == (1int, s[0] as u32),
{
    let b = s[0];
    assert((b & 0x7f) as u32 == b as u32) by (bit_vector)
        requires
            b < 0x80,
    ;
}

/// The encoding of the first code point of an input is no longer than the
/// bytes it was read from, unless these could not be decoded.
pub proof fn lemma_first_code_point_fits(s: Seq<u8>)
    requires
        valid_leading_and_continuation_bytes_first_codepoint(s),
    ensures
        raw_utf8(first_code_point(s).1).len() <= first_code_point(s).0,
{
    let b1 = s[0];
    if b1 <= 0x7f {
        assert(((b1 & 0x7f) as u32) < 0x80) by (bit_vector);
    } else if 0xc0 <= b1 <= 0xdf {
        let b2 = s[1];
        assert(((((b1 & 0x1f) as u32) << 6) | ((b2 & 0x3f) as u32)) < 0x800) by (bit_vector);
    } else if 0xe0 <= b1 <= 0xef {
        let b2 = s[1];
        let b3 = s[2];
        assert(((((b1 & 0x0f) as u32) << 12) | (((b2 & 0x3f) as u32) << 6) | ((b3 & 0x3f) as u32))
            < 0x10000) by (bit_vector);
    }
}

/// In valid UTF-8 the first code point is the first scalar value, and what
/// follows it is valid UTF-8 again.
pub proof fn lemma_first_code_point_valid(s: Seq<u8>)
    requires
        valid_utf8(s),
        s.len() > 0,
    ensures
        valid_leading_and_continuation_bytes_first_codepoint(s),
        valid_utf8(s.skip(first_code_point(s).0)),
{
    assert(valid_first_scalar(s));
    assert(s.skip(first_code_point(s).0) =~= vstd::utf8::pop_first_scalar(s));
}

/// Characters whose UTF-8 form holds ASCII bytes only are ASCII characters:
/// a character outside ASCII starts with a byte outside ASCII.
pub proof fn lemma_ascii_bytes_are_ascii_chars(chars: Seq<char>)
    requires
        forall|i: int| 0 <= i < encode_utf8(chars).len() ==> #[trigger] encode_utf8(chars)[i] < 0x80,
    ensures
        is_ascii_chars(chars),
    decreases chars.len(),
{
    if chars.len() > 0 {
        let first = chars[0] as u32;
        let rest = chars.drop_first();
        let bytes = encode_utf8(chars);
        let head = encode_scalar(first);
        char_is_scalar(chars[0]);
        assert(bytes =~= head + encode_utf8(rest));
        assert(bytes[0] == head[0]);
        assert(leading_byte_width_2(first) >= 0x80) by (bit_vector);
        assert(leading_byte_width_3(first) >= 0x80) by (bit_vector);
        assert(leading_byte_width_4(first) >= 0x80) by (bit_vector);
        assert(first <= 0x7f);
        assert forall|i: int| 0 <= i < encode_utf8(rest).len() implies #[trigger] encode_utf8(
            rest,
        )[i] < 0x80 by {
            assert(encode_utf8(rest)[i] == bytes[i + 1]);
        }
        lemma_ascii_bytes_are_ascii_chars(rest);
        assert forall|i: int| 0 <= i < chars.len() implies '\0' <= #[trigger] chars[i]
            <= '\u{7f}' by {
            if i > 0 {
                assert(chars[i] == rest[i - 1]);
                assert('\0' <= rest[i - 1] <= '\u{7f}');
            } else {
                char_u32_cast(chars[0], first);
                assert('\0' <= first as char <= '\u{7f}');
            }
        }
    }
}

/// Appends the UTF-8 form of `code` to `dst`. Never fails: a code point that
/// is no Unicode scalar value is laid out by its size.
pub fn encode_utf8_raw(code: u32, dst: &mut Vec<u8>)
    ensures
        final(dst)@ == old(dst)@ + raw_utf8(code),
{
    let ghost before = dst@;
    let last = ((code & 0x3f) as u8) | 0x80;
    let second_last = (((code >> 6) & 0x3f) as u8) | 0x80;
    let third_last = (((code >> 12) & 0x3f) as u8) | 0x80;
    assert(((code & 0x3f) as u8) | 0x80 == 0x80 | (code & 0x3f) as u8) by (bit_vector);
    assert((((code >> 6) & 0x3f) as u8) | 0x80 == 0x80 | ((code >> 6) & 0x3f) as u8)
        by (bit_vector);
    assert((((code >> 12) & 0x3f) as u8) | 0x80 == 0x80 | ((code >> 12) & 0x3f) as u8)
        by (bit_vector);
    if code < 0x80 {
        assert(code as u8 == (code & 0x7f) as u8) by (bit_vector)
            requires
                code < 0x80,
        ;
        dst.push(code as u8);
    } else if code < 0x800 {
        assert((((code >> 6) & 0x1f) as u8) | 0xc0 == 0xc0 | ((code >> 6) & 0x1f) as u8)
            by (bit_vector);
        dst.push((((code >> 6) & 0x1f) as u8) | 0xc0);
        dst.push(last);
    } else if code < 0x10000 {
        assert((((code >> 12) & 0x0f) as u8) | 0xe0 == 0xe0 | ((code >> 12) & 0x0f) as u8)
            by (bit_vector);
        dst.push((((code >> 12) & 0x0f) as u8) | 0xe0);
        dst.push(second_last);
        dst.push(last);
    } else {
        assert((((code >> 18) & 0x07) as u8) | 0xf0 == 0xf0 | ((code >> 18) & 0x7) as u8)
            by (bit_vector);
        dst.push((((code >> 18) & 0x07) as u8) | 0xf0);
        dst.push(third_last);
        dst.push(second_last);
        dst.push(last);
    }
    assert(dst@ =~= before + raw_utf8(code));
}

} // verus!
