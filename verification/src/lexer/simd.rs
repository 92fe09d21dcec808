//! Scans that classify thirty-two bytes at a time: each byte of a chunk
//! gives one bit of a mask, and the run of set bits at the low end of the
//! mask is the run of bytes of the class at the start of the chunk.
//!
//! Each scan returns what a byte-by-byte scan returns.

use vstd::prelude::*;
use vstd::slice::slice_subrange;
use vstd::std_specs::bits::{axiom_u32_trailing_ones, u32_trailing_ones};
use crate::lexer::bounds::lemma_run_end_is;
use crate::lexer::bulk::{
    is_digit_or_underscore, is_hex_or_underscore, is_id_continue_fast, is_whitespace_fast,
    run_so_far, scan_tail,
};
use crate::lexer::grammar::{in_class, run_end, ByteClass};

verus! {

/// How many bytes a chunk holds.
pub const SIMD_WIDTH: usize = 32;

/// Bit `i` of the mask is set.
pub open spec fn bit_set(mask: u32, i: u32) -> bool {
    (mask >> i) & 1u32 == 1u32
}

/// The mask of a chunk for a class: bit `i` is set exactly if byte `i` of the
/// chunk is of the class, and no bit is set beyond the chunk.
pub open spec fn is_class_mask(mask: u32, chunk: Seq<u8>, class: ByteClass) -> bool {
    forall|i: u32|
        0 <= i < 32 ==> #[trigger] bit_set(mask, i) == (i < chunk.len() && in_class(
            class,
            chunk[i as int],
        ))
}

/// Setting a bit sets that bit and leaves the others.
proof fn lemma_set_bit(mask: u32, i: u32, j: u32)
    by (bit_vector)
    requires
        i < 32,
        j < 32,
    ensures
        ((mask | (1u32 << i)) >> j) & 1u32 == (if j == i {
            1u32
        } else {
            (mask >> j) & 1u32
        }),
{
}

/// No bit of zero is set.
proof fn lemma_no_bit(j: u32)
    by (bit_vector)
    requires
        j < 32,
    ensures
        (0u32 >> j) & 1u32 == 0u32,
{
}

/// The mask of a chunk for the class that `member` tells.
fn classify_chunk<F: Fn(u8) -> bool>(chunk: &[u8], member: F, Ghost(class): Ghost<ByteClass>) -> (mask:
    u32)
    requires
        chunk@.len() <= 32,
        forall|b: u8| #[trigger] call_requires(member, (b,)),
        forall|b: u8, r: bool| #[trigger] call_ensures(member, (b,), r) ==> r == in_class(class, b),
    ensures
        is_class_mask(mask, chunk@, class),
{
    let mut mask: u32 = 0;
    let mut i: usize = 0;
    proof {
        assert forall|j: u32| 0 <= j < 32 implies !#[trigger] bit_set(mask, j) by {
            lemma_no_bit(j);
        }
    }
    while i < chunk.len()
        invariant
            i <= chunk@.len() <= 32,
            forall|b: u8| #[trigger] call_requires(member, (b,)),
            forall|b: u8, r: bool| #[trigger]
                call_ensures(member, (b,), r) ==> r == in_class(class, b),
            forall|j: u32|
                0 <= j < 32 ==> #[trigger] bit_set(mask, j) == (j < i && in_class(
                    class,
                    chunk@[j as int],
                )),
        decreases chunk@.len() - i,
    {
        if member(chunk[i]) {
            let ghost before = mask;
            mask |= 1u32 << (i as u32);
            proof {
                assert forall|j: u32| 0 <= j < 32 implies #[trigger] bit_set(mask, j) == (j < i + 1
                    && in_class(class, chunk@[j as int])) by {
                    lemma_set_bit(before, i as u32, j);
                    assert(bit_set(before, j) == (j < i && in_class(class, chunk@[j as int])));
                }
            }
        }
        i += 1;
    }
    mask
}

/// Classify a chunk of bytes for whitespace characters.
/// Returns a bitmask where bit i is 1 if byte i is whitespace.
pub fn classify_chunk_whitespace(chunk: &[u8]) -> (mask: u32)
    requires
        chunk@.len() <= 32,
    ensures
        is_class_mask(mask, chunk@, ByteClass::Whitespace),
{
    classify_chunk(chunk, is_whitespace_fast, Ghost(ByteClass::Whitespace))
}

/// Classify a chunk of bytes for identifier continuation characters.
/// Returns a bitmask where bit i is 1 if byte i can continue an identifier.
pub fn classify_chunk_id_continue(chunk: &[u8]) -> (mask: u32)
    requires
        chunk@.len() <= 32,
    ensures
        is_class_mask(mask, chunk@, ByteClass::IdContinue),
{
    classify_chunk(chunk, is_id_continue_fast, Ghost(ByteClass::IdContinue))
}

/// Classify a chunk of bytes for decimal digits.
/// Returns a bitmask where bit i is 1 if byte i is a decimal digit or underscore.
pub fn classify_chunk_decimal_digits(chunk: &[u8]) -> (mask: u32)
    requires
        chunk@.len() <= 32,
    ensures
        is_class_mask(mask, chunk@, ByteClass::DecimalDigits),
{
    classify_chunk(chunk, is_digit_or_underscore, Ghost(ByteClass::DecimalDigits))
}

/// Classify a chunk of bytes for hexadecimal digits.
/// Returns a bitmask where bit i is 1 if byte i is a hex digit or underscore.
pub fn classify_chunk_hex_digits(chunk: &[u8]) -> (mask: u32)
    requires
        chunk@.len() <= 32,
    ensures
        is_class_mask(mask, chunk@, ByteClass::HexDigits),
{
    classify_chunk(chunk, is_hex_or_underscore, Ghost(ByteClass::HexDigits))
}

/// The run of set bits at the low end of the mask of a full chunk is the run
/// of bytes of the class at the start of the chunk.
proof fn lemma_trailing_ones_is_run(mask: u32, chunk: Seq<u8>, class: ByteClass)
    requires
        chunk.len() == 32,
        is_class_mask(mask, chunk, class),
    ensures
        u32_trailing_ones(mask) <= 32,
        forall|j: int| 0 <= j < u32_trailing_ones(mask) ==> in_class(class, #[trigger] chunk[j]),
        u32_trailing_ones(mask) < 32 ==> !in_class(class, chunk[u32_trailing_ones(mask) as int]),
{
    axiom_u32_trailing_ones(mask);
    let ones = u32_trailing_ones(mask);
    assert forall|j: int| 0 <= j < ones implies in_class(class, #[trigger] chunk[j]) by {
        let k = j as u32;
        assert((mask >> k) & 1u32 == 1u32);
        assert(bit_set(mask, k));
    }
    if ones < 32 {
        assert(!bit_set(mask, ones));
    }
}

/// Scans whole chunks of thirty-two bytes while all their bytes are of the
/// class whose masks `classify` makes. Returns where the run ends, if it ends
/// inside a chunk, and else how far the chunks went.
fn scan_masked<C: Fn(&[u8]) -> u32>(input: &[u8], classify: C, Ghost(class): Ghost<ByteClass>) -> (r:
    (usize, bool))
    requires
        forall|chunk: &[u8]| chunk@.len() <= 32 ==> #[trigger] call_requires(classify, (chunk,)),
        forall|chunk: &[u8], mask: u32| #[trigger]
            call_ensures(classify, (chunk,), mask) ==> is_class_mask(mask, chunk@, class),
    ensures
        r.0 <= input@.len(),
        run_so_far(input@, r.0 as int, class),
        r.1 ==> r.0 == run_end(input@, 0, class),
        !r.1 ==> input@.len() - r.0 < SIMD_WIDTH,
{
    let mut pos: usize = 0;
    let ghost s = input@;
    // Process SIMD_WIDTH bytes at a time using bitmask operations
    while input.len() - pos >= SIMD_WIDTH
        invariant
            s == input@,
            pos <= s.len(),
            run_so_far(s, pos as int, class),
            forall|chunk: &[u8]|
                chunk@.len() <= 32 ==> #[trigger] call_requires(classify, (chunk,)),
            forall|chunk: &[u8], mask: u32| #[trigger]
                call_ensures(classify, (chunk,), mask) ==> is_class_mask(mask, chunk@, class),
        decreases s.len() - pos,
    {
        let chunk = slice_subrange(input, pos, pos + SIMD_WIDTH);
        let mask = classify(chunk);
        // Count trailing ones (consecutive bytes of the class from the start)
        let consecutive = mask.trailing_ones() as usize;
        proof {
            lemma_trailing_ones_is_run(mask, chunk@, class);
            assert forall|j: int| 0 <= j < pos + consecutive implies in_class(
                class,
                #[trigger] s[j],
            ) by {
                if j >= pos {
                    assert(s[j] == chunk@[j - pos]);
                }
            }
        }
        if consecutive == SIMD_WIDTH {
            // All bytes in chunk are of the class, continue
            pos += SIMD_WIDTH;
        } else {
            // Found a byte outside the class, return position
            proof {
                assert(s[pos + consecutive] == chunk@[consecutive as int]);
                lemma_run_end_is(s, 0, class, pos + consecutive);
            }
            return (pos + consecutive, true);
        }
    }
    (pos, false)
}

/// Whitespace skipping using bitmask operations.
///
/// Processes 32 bytes at a time using character classification bitmasks.
pub fn skip_whitespace_simd(input: &[u8]) -> (end: usize)
    ensures
        end == run_end(input@, 0, ByteClass::Whitespace),
        end <= input@.len(),
{
    if input.len() == 0 {
        return 0;
    }
    let (pos, done) = scan_masked(input, classify_chunk_whitespace, Ghost(ByteClass::Whitespace));
    if done {
        return pos;
    }
    // Handle remaining bytes
    scan_tail(input, pos, is_whitespace_fast, Ghost(ByteClass::Whitespace))
}

/// Bulk whitespace skipping: by masks where the input is long enough for
/// one, else byte by byte.
pub fn skip_whitespace_bulk(input: &[u8]) -> (end: usize)
    ensures
        end == run_end(input@, 0, ByteClass::Whitespace),
        end <= input@.len(),
{
    // Use the mask version when input is large enough
    if input.len() >= SIMD_WIDTH {
        return skip_whitespace_simd(input);
    }
    scan_tail(input, 0, is_whitespace_fast, Ghost(ByteClass::Whitespace))
}

/// Identifier span detection.
///
/// Processes 32 bytes at a time using character classification bitmasks.
pub fn parse_identifier_simd(input: &[u8]) -> (end: usize)
    ensures
        end == run_end(input@, 0, ByteClass::IdContinue),
        end <= input@.len(),
{
    if input.len() == 0 {
        return 0;
    }
    let (pos, done) = scan_masked(input, classify_chunk_id_continue, Ghost(ByteClass::IdContinue));
    if done {
        return pos;
    }
    // Handle remaining bytes
    scan_tail(input, pos, is_id_continue_fast, Ghost(ByteClass::IdContinue))
}

/// Bulk identifier parsing: by masks where the input is long enough for
/// one, else byte by byte.
pub fn parse_identifier_bulk(input: &[u8]) -> (end: usize)
    ensures
        end == run_end(input@, 0, ByteClass::IdContinue),
        end <= input@.len(),
{
    // Use the mask version when input is large enough
    if input.len() >= SIMD_WIDTH {
        return parse_identifier_simd(input);
    }
    scan_tail(input, 0, is_id_continue_fast, Ghost(ByteClass::IdContinue))
}

/// Decimal digit parsing by masks. `_` is part of a run of digits.
pub fn parse_decimal_digits_simd(input: &[u8]) -> (end: usize)
    ensures
        end == run_end(input@, 0, ByteClass::DecimalDigits),
        end <= input@.len(),
{
    if input.len() == 0 {
        return 0;
    }
    let (pos, done) = scan_masked(input, classify_chunk_decimal_digits, Ghost(ByteClass::DecimalDigits));
    if done {
        return pos;
    }
    // Handle remaining bytes
    scan_tail(input, pos, is_digit_or_underscore, Ghost(ByteClass::DecimalDigits))
}

/// Hexadecimal digit parsing by masks. `_` is part of a run of digits.
pub fn parse_hex_digits_simd(input: &[u8]) -> (end: usize)
    ensures
        end == run_end(input@, 0, ByteClass::HexDigits),
        end <= input@.len(),
{
    if input.len() == 0 {
        return 0;
    }
    let (pos, done) = scan_masked(input, classify_chunk_hex_digits, Ghost(ByteClass::HexDigits));
    if done {
        return pos;
    }
    // Handle remaining bytes
    scan_tail(input, pos, is_hex_or_underscore, Ghost(ByteClass::HexDigits))
}

} // verus!
