//! Byte searches. The searching is done by the `memchr` crate; this module
//! states what its functions return.

use vstd::prelude::*;

verus! {

/// `b` is one of the three needles. A search for fewer passes a needle twice.
pub open spec fn is_needle(b: u8, n1: u8, n2: u8, n3: u8) -> bool {
    b == n1 || b == n2 || b == n3
}

/// `r` is the index of the first byte of `hay` that is one of the needles, or
/// `None` where `hay` holds none of them.
pub open spec fn first_needle(hay: Seq<u8>, n1: u8, n2: u8, n3: u8, r: Option<usize>) -> bool {
    match r {
        Some(i) => {
            &&& i < hay.len()
            &&& is_needle(hay[i as int], n1, n2, n3)
            &&& forall|j: int| 0 <= j < i ==> !is_needle(#[trigger] hay[j], n1, n2, n3)
        },
        None => forall|j: int| 0 <= j < hay.len() ==> !is_needle(#[trigger] hay[j], n1, n2, n3),
    }
}

/// `needle` occurs in `hay` at index `i`.
pub open spec fn occurs_at(hay: Seq<u8>, needle: Seq<u8>, i: int) -> bool {
    &&& 0 <= i
    &&& i + needle.len() <= hay.len()
    &&& hay.subrange(i, i + needle.len()) == needle
}

/// `r` is the index of the first occurrence of `needle` in `hay`, or `None`
/// where it does not occur.
pub open spec fn first_occurrence(hay: Seq<u8>, needle: Seq<u8>, r: Option<usize>) -> bool {
    match r {
        Some(i) => {
            &&& occurs_at(hay, needle, i as int)
            &&& forall|j: int| 0 <= j < i ==> !occurs_at(hay, needle, j)
        },
        None => forall|j: int| !occurs_at(hay, needle, j),
    }
}

/// `memchr::memchr2`: the index of the first byte of `haystack` equal to one
/// of the two needles, `None` if there is none.
#[verifier::external_body]
pub(crate) fn memchr2(needle1: u8, needle2: u8, haystack: &[u8]) -> (r: Option<usize>)
    ensures
        first_needle(haystack@, needle1, needle2, needle2, r),
{
    memchr::memchr2(needle1, needle2, haystack)
}

/// `memchr::memchr3`: the index of the first byte of `haystack` equal to one
/// of the three needles, `None` if there is none.
#[verifier::external_body]
pub(crate) fn memchr3(needle1: u8, needle2: u8, needle3: u8, haystack: &[u8]) -> (r: Option<usize>)
    ensures
        first_needle(haystack@, needle1, needle2, needle3, r),
{
    memchr::memchr3(needle1, needle2, needle3, haystack)
}

/// `memchr::memmem::find`: the index of the first occurrence of `needle` in
/// `haystack`, `None` if it does not occur.
#[verifier::external_body]
pub(crate) fn find(haystack: &[u8], needle: &[u8]) -> (r: Option<usize>)
    ensures
        first_occurrence(haystack@, needle@, r),
{
    memchr::memmem::find(haystack, needle)
}

} // verus!
