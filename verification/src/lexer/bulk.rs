//! Bulk scans: where a run of whitespace, of identifier bytes or of digits
//! ends, found a chunk of bytes at a time.
//!
//! Each scan returns what a byte-by-byte scan returns: the end of the longest
//! run of the class at the start of the input.

use vstd::prelude::*;
use vstd::slice::slice_subrange;
use crate::lexer::ascii::{LF, SPACE, TAB, UNDERSCORE};
use crate::lexer::bounds::{lemma_run_end, lemma_run_end_is};
use crate::lexer::char_class::{
    is_decimal_digit_byte, is_hex_digit_byte, is_id_continue_byte, is_whitespace_byte,
};
use crate::lexer::grammar::{in_class, run_end, ByteClass};
use crate::search::{is_needle, memchr3};

verus! {

/// Returns `true` if the given byte is considered a whitespace.
pub fn is_whitespace_fast(byte: u8) -> (r: bool)
    ensures
        r == in_class(ByteClass::Whitespace, byte),
{
    is_whitespace_byte(byte)
}

/// Returns `true` if the given byte is valid in a Solidity identifier.
pub fn is_id_continue_fast(byte: u8) -> (r: bool)
    ensures
        r == in_class(ByteClass::IdContinue, byte),
{
    is_id_continue_byte(byte)
}

pub(crate) fn is_digit_or_underscore(byte: u8) -> (r: bool)
    ensures
        r == in_class(ByteClass::DecimalDigits, byte),
{
    is_decimal_digit_byte(byte) || byte == UNDERSCORE
}

pub(crate) fn is_hex_or_underscore(byte: u8) -> (r: bool)
    ensures
        r == in_class(ByteClass::HexDigits, byte),
{
    is_hex_digit_byte(byte) || byte == UNDERSCORE
}

/// Whether `chunk` is `byte` all over.
fn chunk_is(chunk: &[u8], byte: u8) -> (r: bool)
    ensures
        r == forall|i: int| 0 <= i < chunk@.len() ==> #[trigger] chunk@[i] == byte,
{
    let mut i: usize = 0;
    while i < chunk.len()
        invariant
            i <= chunk@.len(),
            forall|j: int| 0 <= j < i ==> #[trigger] chunk@[j] == byte,
        decreases chunk@.len() - i,
    {
        if chunk[i] != byte {
            return false;
        }
        i += 1;
    }
    true
}

/// Every byte before `pos` is of the class.
pub open spec fn run_so_far(s: Seq<u8>, pos: int, class: ByteClass) -> bool {
    forall|j: int| 0 <= j < pos ==> in_class(class, #[trigger] s[j])
}

/// Whitespace skipping with unrolled loops: sixteen, eight and four bytes at
/// a time, with a shortcut for chunks of spaces or tabs.
pub fn skip_whitespace_bulk(input: &[u8]) -> (end: usize)
    ensures
        end == run_end(input@, 0, ByteClass::Whitespace),
        end <= input@.len(),
{
    if input.len() == 0 {
        return 0;
    }
    let mut pos: usize = 0;
    let len = input.len();
    let ghost s = input@;

    // Sixteen bytes at a time.
    while len - pos >= 16
        invariant
            s == input@,
            len == s.len(),
            pos <= len,
            run_so_far(s, pos as int, ByteClass::Whitespace),
        decreases len - pos,
    {
        let chunk = slice_subrange(input, pos, pos + 16);
        // Check common patterns first.
        if chunk_is(chunk, SPACE) || chunk_is(chunk, TAB) {
            assert forall|j: int| 0 <= j < pos + 16 implies in_class(
                ByteClass::Whitespace,
                #[trigger] s[j],
            ) by {
                if j >= pos {
                    assert(s[j] == chunk@[j - pos]);
                }
            }
            pos += 16;
            continue ;
        }
        let mut i: usize = 0;
        while i < 16
            invariant
                s == input@,
                len == s.len(),
                pos + 16 <= len,
                i <= 16,
                chunk@ == s.subrange(pos as int, pos + 16),
                run_so_far(s, pos + i, ByteClass::Whitespace),
            decreases 16 - i,
        {
            if !is_whitespace_fast(chunk[i]) {
                proof {
                    lemma_run_end_is(s, 0, ByteClass::Whitespace, pos + i);
                }
                return pos + i;
            }
            i += 1;
        }
        pos += 16;
    }

    // Handle remaining bytes with 8-byte unrolling
    while len - pos >= 8
        invariant
            s == input@,
            len == s.len(),
            pos <= len,
            run_so_far(s, pos as int, ByteClass::Whitespace),
        decreases len - pos,
    {
        let chunk = slice_subrange(input, pos, pos + 8);
        if chunk_is(chunk, SPACE) {
            assert forall|j: int| 0 <= j < pos + 8 implies in_class(
                ByteClass::Whitespace,
                #[trigger] s[j],
            ) by {
                if j >= pos {
                    assert(s[j] == chunk@[j - pos]);
                }
            }
            pos += 8;
            continue ;
        }
        let mut i: usize = 0;
        while i < 8
            invariant
                s == input@,
                len == s.len(),
                pos + 8 <= len,
                i <= 8,
                chunk@ == s.subrange(pos as int, pos + 8),
                run_so_far(s, pos + i, ByteClass::Whitespace),
            decreases 8 - i,
        {
            if !is_whitespace_fast(chunk[i]) {
                proof {
                    lemma_run_end_is(s, 0, ByteClass::Whitespace, pos + i);
                }
                return pos + i;
            }
            i += 1;
        }
        pos += 8;
    }

    // Handle remaining bytes with 4-byte unrolling
    while len - pos >= 4
        invariant
            s == input@,
            len == s.len(),
            pos <= len,
            run_so_far(s, pos as int, ByteClass::Whitespace),
        decreases len - pos,
    {
        let chunk = slice_subrange(input, pos, pos + 4);
        if chunk_is(chunk, SPACE) {
            assert forall|j: int| 0 <= j < pos + 4 implies in_class(
                ByteClass::Whitespace,
                #[trigger] s[j],
            ) by {
                if j >= pos {
                    assert(s[j] == chunk@[j - pos]);
                }
            }
            pos += 4;
            continue ;
        }
        proof {
            lemma_run_end(s, pos as int, ByteClass::Whitespace);
        }
        // Unrolled 4-byte check
        if !is_whitespace_fast(chunk[0]) {
            proof {
                lemma_run_end_is(s, 0, ByteClass::Whitespace, pos as int);
            }
            return pos;
        }
        if !is_whitespace_fast(chunk[1]) {
            proof {
                lemma_run_end_is(s, 0, ByteClass::Whitespace, pos + 1);
            }
            return pos + 1;
        }
        if !is_whitespace_fast(chunk[2]) {
            proof {
                lemma_run_end_is(s, 0, ByteClass::Whitespace, pos + 2);
            }
            return pos + 2;
        }
        if !is_whitespace_fast(chunk[3]) {
            proof {
                lemma_run_end_is(s, 0, ByteClass::Whitespace, pos + 3);
            }
            return pos + 3;
        }
        pos += 4;
    }

    // Handle final bytes
    while pos < len && is_whitespace_fast(input[pos])
        invariant
            s == input@,
            len == s.len(),
            pos <= len,
            run_so_far(s, pos as int, ByteClass::Whitespace),
        decreases len - pos,
    {
        pos += 1;
    }
    proof {
        lemma_run_end_is(s, 0, ByteClass::Whitespace, pos as int);
    }
    pos
}

/// Scans `width` bytes at a time while all of them are of the class that
/// `member` tells. Returns where the run ends, if it ends inside a chunk, and
/// else how far the chunks went.
fn scan_chunks<F: Fn(u8) -> bool>(
    input: &[u8],
    from: usize,
    width: usize,
    member: F,
    Ghost(class): Ghost<ByteClass>,
) -> (r: (usize, bool))
    requires
        from <= input@.len(),
        width > 0,
        run_so_far(input@, from as int, class),
        forall|b: u8| #[trigger] call_requires(member, (b,)),
        forall|b: u8, r: bool| #[trigger] call_ensures(member, (b,), r) ==> r == in_class(class, b),
    ensures
        from <= r.0 <= input@.len(),
        run_so_far(input@, r.0 as int, class),
        r.1 ==> r.0 == run_end(input@, 0, class),
        !r.1 ==> input@.len() - r.0 < width,
{
    let len = input.len();
    let mut pos = from;
    let ghost s = input@;
    while len - pos >= width
        invariant
            s == input@,
            len == s.len(),
            from <= pos <= len,
            width > 0,
            run_so_far(s, pos as int, class),
            forall|b: u8| #[trigger] call_requires(member, (b,)),
            forall|b: u8, r: bool| #[trigger]
                call_ensures(member, (b,), r) ==> r == in_class(class, b),
        decreases len - pos,
    {
        let mut i: usize = 0;
        while i < width
            invariant
                s == input@,
                len == s.len(),
                from <= pos,
                pos + width <= len,
                i <= width,
                run_so_far(s, pos + i, class),
                forall|b: u8| #[trigger] call_requires(member, (b,)),
                forall|b: u8, r: bool| #[trigger]
                    call_ensures(member, (b,), r) ==> r == in_class(class, b),
            decreases width - i,
        {
            if !member(input[pos + i]) {
                proof {
                    lemma_run_end_is(s, 0, class, pos + i);
                }
                return (pos + i, true);
            }
            i += 1;
        }
        pos += width;
    }
    (pos, false)
}

/// Scans byte by byte from `from` to the end of the run.
pub(crate) fn scan_tail<F: Fn(u8) -> bool>(input: &[u8], from: usize, member: F, Ghost(class): Ghost<
    ByteClass,
>) -> (end: usize)
    requires
        from <= input@.len(),
        run_so_far(input@, from as int, class),
        forall|b: u8| #[trigger] call_requires(member, (b,)),
        forall|b: u8, r: bool| #[trigger] call_ensures(member, (b,), r) ==> r == in_class(class, b),
    ensures
        end == run_end(input@, 0, class),
        end <= input@.len(),
{
    let len = input.len();
    let mut pos = from;
    let ghost s = input@;
    while pos < len
        invariant_except_break
            s == input@,
            len == s.len(),
            pos <= len,
            run_so_far(s, pos as int, class),
            forall|b: u8| #[trigger] call_requires(member, (b,)),
            forall|b: u8, r: bool| #[trigger]
                call_ensures(member, (b,), r) ==> r == in_class(class, b),
        ensures
            pos <= len,
            run_so_far(s, pos as int, class),
            pos < len ==> !in_class(class, s[pos as int]),
        decreases len - pos,
    {
        if member(input[pos]) {
            pos += 1;
        } else {
            break ;
        }
    }
    proof {
        lemma_run_end_is(s, 0, class, pos as int);
    }
    pos
}

/// Whitespace skipping with branches: eight bytes at a time, then byte by
/// byte. The plain scan that the others are measured against.
pub fn skip_whitespace_branchy(input: &[u8]) -> (end: usize)
    ensures
        end == run_end(input@, 0, ByteClass::Whitespace),
        end <= input@.len(),
{
    let class = Ghost(ByteClass::Whitespace);
    let (pos, done) = scan_chunks(input, 0, 8, is_whitespace_fast, class);
    if done {
        return pos;
    }
    scan_tail(input, pos, is_whitespace_fast, class)
}

/// Identifier parsing with branches: eight bytes at a time, then byte by
/// byte. The plain scan that the others are measured against.
pub fn parse_identifier_branchy(input: &[u8]) -> (end: usize)
    ensures
        end == run_end(input@, 0, ByteClass::IdContinue),
        end <= input@.len(),
{
    let class = Ghost(ByteClass::IdContinue);
    let (pos, done) = scan_chunks(input, 0, 8, is_id_continue_fast, class);
    if done {
        return pos;
    }
    scan_tail(input, pos, is_id_continue_fast, class)
}

/// Identifier parsing with unrolled loops: sixteen, eight and four bytes at
/// a time.
pub fn parse_identifier_bulk(input: &[u8]) -> (end: usize)
    ensures
        end == run_end(input@, 0, ByteClass::IdContinue),
        end <= input@.len(),
{
    if input.len() == 0 {
        return 0;
    }
    let class = Ghost(ByteClass::IdContinue);
    // Unrolled loop for identifiers - most common tokens
    let (pos, done) = scan_chunks(input, 0, 16, is_id_continue_fast, class);
    if done {
        return pos;
    }
    // 8-byte unrolled processing
    let (pos, done) = scan_chunks(input, pos, 8, is_id_continue_fast, class);
    if done {
        return pos;
    }
    // 4-byte unrolled processing
    let (pos, done) = scan_chunks(input, pos, 4, is_id_continue_fast, class);
    if done {
        return pos;
    }
    // Handle remaining bytes
    scan_tail(input, pos, is_id_continue_fast, class)
}

/// Decimal digit parsing with unrolled loops, eight bytes at a time. `_` is
/// part of a run of digits.
pub fn parse_decimal_digits_bulk(input: &[u8]) -> (end: usize)
    ensures
        end == run_end(input@, 0, ByteClass::DecimalDigits),
        end <= input@.len(),
{
    if input.len() == 0 {
        return 0;
    }
    let class = Ghost(ByteClass::DecimalDigits);
    let (pos, done) = scan_chunks(input, 0, 8, is_digit_or_underscore, class);
    if done {
        return pos;
    }
    // Handle remaining bytes
    scan_tail(input, pos, is_digit_or_underscore, class)
}

/// Hex digit parsing with unrolled loops, eight bytes at a time. `_` is part
/// of a run of digits.
pub fn parse_hex_digits_bulk(input: &[u8]) -> (end: usize)
    ensures
        end == run_end(input@, 0, ByteClass::HexDigits),
        end <= input@.len(),
{
    if input.len() == 0 {
        return 0;
    }
    let class = Ghost(ByteClass::HexDigits);
    let (pos, done) = scan_chunks(input, 0, 8, is_hex_or_underscore, class);
    if done {
        return pos;
    }
    // Handle remaining bytes
    scan_tail(input, pos, is_hex_or_underscore, class)
}

/// Find the first non-whitespace byte: its index, or `None` where the input
/// is whitespace all over, or empty.
pub fn find_non_whitespace(input: &[u8]) -> (found: Option<usize>)
    ensures
        found == if run_end(input@, 0, ByteClass::Whitespace) < input@.len() {
            Some(run_end(input@, 0, ByteClass::Whitespace) as usize)
        } else {
            None
        },
{
    if input.len() == 0 {
        return None;
    }
    let pos = skip_whitespace_bulk(input);
    if pos < input.len() {
        Some(pos)
    } else {
        None
    }
}

/// A byte at which [`find_token_boundaries`] sees a boundary: a space, a tab
/// or a line feed.
pub open spec fn boundary_byte(b: u8) -> bool {
    b == SPACE || b == TAB || b == LF
}

/// The indices of the boundary bytes from `from` on, in rising order.
pub open spec fn boundaries_from(s: Seq<u8>, from: int) -> Seq<usize>
    decreases s.len() - from,
{
    if from < 0 || from >= s.len() {
        Seq::empty()
    } else if boundary_byte(s[from]) {
        seq![from as usize] + boundaries_from(s, from + 1)
    } else {
        boundaries_from(s, from + 1)
    }
}

/// Bytes that are no boundaries add nothing.
pub proof fn lemma_boundaries_skip(s: Seq<u8>, from: int, to: int)
    requires
        0 <= from <= to <= s.len(),
        forall|j: int| from <= j < to ==> !boundary_byte(#[trigger] s[j]),
    ensures
        boundaries_from(s, from) == boundaries_from(s, to),
    decreases to - from,
{
    if from < to {
        lemma_boundaries_skip(s, from + 1, to);
    }
}

/// Finds the places where a space, a tab or a line feed stands: all of them,
/// in rising order.
pub fn find_token_boundaries(input: &[u8]) -> (boundaries: Vec<usize>)
    ensures
        boundaries@ == boundaries_from(input@, 0),
{
    let mut boundaries: Vec<usize> = Vec::new();
    let mut pos: usize = 0;
    let ghost s = input@;
    assert(boundaries@ + boundaries_from(s, 0) =~= boundaries_from(s, 0));
    while pos < input.len()
        invariant_except_break
            s == input@,
            pos <= s.len(),
            boundaries@ + boundaries_from(s, pos as int) == boundaries_from(s, 0),
        ensures
            boundaries@ == boundaries_from(s, 0),
        decreases s.len() - pos,
    {
        let rest = slice_subrange(input, pos, input.len());
        let ghost seen = boundaries@;
        // Use memchr to find potential token boundaries
        match memchr3(SPACE, TAB, LF, rest) {
            Some(boundary_pos) => {
                proof {
                    assert forall|j: int| pos <= j < pos + boundary_pos implies !boundary_byte(
                        #[trigger] s[j],
                    ) by {
                        assert(!is_needle(rest@[j - pos], SPACE, TAB, LF));
                    }
                    assert(is_needle(rest@[boundary_pos as int], SPACE, TAB, LF));
                    lemma_boundaries_skip(s, pos as int, pos + boundary_pos);
                }
                boundaries.push(pos + boundary_pos);
                assert(boundaries@ + boundaries_from(s, pos + boundary_pos + 1) =~= seen + (seq![
                    (pos + boundary_pos) as usize,
                ] + boundaries_from(s, pos + boundary_pos + 1)));
                pos += boundary_pos + 1;
            },
            None => {
                proof {
                    assert forall|j: int| pos <= j < s.len() implies !boundary_byte(
                        #[trigger] s[j],
                    ) by {
                        assert(!is_needle(rest@[j - pos], SPACE, TAB, LF));
                    }
                    lemma_boundaries_skip(s, pos as int, s.len() as int);
                    assert(seen + Seq::<usize>::empty() =~= seen);
                }
                break ;
            },
        }
    }
    proof {
        assert(boundaries@ + Seq::<usize>::empty() =~= boundaries@);
    }
    boundaries
}

} // verus!
