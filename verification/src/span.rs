//! Source code locations.

use vstd::prelude::*;
use crate::pos::BytePos;

verus! {

/// A source code location.
///
/// Essentially a `lo..hi` range into the text of a source map, half open:
/// `lo` is the first byte inside, `hi` the first byte after. `lo` and `hi` are
/// counted from the start of the source map, not of a file, so they cannot
/// always index the text of a file directly.
///
/// `lo` never lies after `hi`: the only way to make a span is [`Span::new`],
/// which swaps its arguments where they come in the wrong order.
#[derive(Clone, Copy, Debug, PartialEq, Eq, PartialOrd, Ord, Hash, Structural)]
pub struct Span {
    lo: BytePos,
    hi: BytePos,
}

/// The smaller of two positions.
pub open spec fn min_pos(a: BytePos, b: BytePos) -> BytePos {
    if a.0 <= b.0 {
        a
    } else {
        b
    }
}

/// The larger of two positions.
pub open spec fn max_pos(a: BytePos, b: BytePos) -> BytePos {
    if a.0 >= b.0 {
        a
    } else {
        b
    }
}

impl Default for Span {
    fn default() -> (span: Self)
        ensures
            span == Span::spec_dummy(),
    {
        Span::dummy()
    }
}

impl Span {
    /// A span's start does not lie after its end.
    #[verifier::type_invariant]
    pub closed spec fn well_formed(self) -> bool {
        self.lo.0 <= self.hi.0
    }

    /// The span's start position.
    pub closed spec fn spec_lo(self) -> BytePos {
        self.lo
    }

    /// The span's end position.
    pub closed spec fn spec_hi(self) -> BytePos {
        self.hi
    }

    /// The span from the smaller of two positions to the larger.
    pub closed spec fn spec_new(lo: BytePos, hi: BytePos) -> Span {
        if lo.0 > hi.0 {
            Span { lo: hi, hi: lo }
        } else {
            Span { lo, hi }
        }
    }

    /// The span `0..0`, which stands for "no location".
    pub open spec fn spec_dummy() -> Span {
        Span::spec_new(BytePos(0), BytePos(0))
    }

    /// The span holds every byte of `other`.
    pub open spec fn spec_contains(self, other: Span) -> bool {
        self.spec_lo().0 <= other.spec_lo().0 && other.spec_hi().0 <= self.spec_hi().0
    }

    /// The span shares a byte with `other`.
    pub open spec fn spec_overlaps(self, other: Span) -> bool {
        self.spec_lo().0 < other.spec_hi().0 && other.spec_lo().0 < self.spec_hi().0
    }

    /// The smallest span that holds both `self` and `end`.
    pub open spec fn spec_to(self, end: Span) -> Span {
        Span::spec_new(
            min_pos(self.spec_lo(), end.spec_lo()),
            max_pos(self.spec_hi(), end.spec_hi()),
        )
    }

    /// All of `spans` joined from left to right with [`Span::spec_to`], the
    /// dummy span where there are none.
    pub open spec fn spec_join_many(spans: Seq<Span>) -> Span
        decreases spans.len(),
    {
        if spans.len() == 0 {
            Span::spec_dummy()
        } else if spans.len() == 1 {
            spans[0]
        } else {
            Span::spec_join_many(spans.drop_last()).spec_to(spans.last())
        }
    }

    /// A span is fixed by its two ends.
    pub proof fn lemma_ends_fix_span(self, other: Span)
        requires
            self.spec_lo() == other.spec_lo(),
            self.spec_hi() == other.spec_hi(),
        ensures
            self == other,
    {
    }

    /// The ends of a new span: the smaller position, then the larger.
    pub proof fn lemma_new(lo: BytePos, hi: BytePos)
        ensures
            Span::spec_new(lo, hi).spec_lo() == min_pos(lo, hi),
            Span::spec_new(lo, hi).spec_hi() == max_pos(lo, hi),
            Span::spec_new(lo, hi).well_formed(),
            Span::spec_new(lo, hi) == Span::spec_new(hi, lo),
    {
    }

    /// A dummy span.
    pub fn dummy() -> (span: Self)
        ensures
            span == Span::spec_dummy(),
    {
        Span { lo: BytePos(0), hi: BytePos(0) }
    }

    /// Creates a new span from two byte positions, swapping them where `lo`
    /// lies after `hi`.
    pub fn new(lo: BytePos, hi: BytePos) -> (span: Self)
        ensures
            span == Span::spec_new(lo, hi),
            span.spec_lo() == min_pos(lo, hi),
            span.spec_hi() == max_pos(lo, hi),
    {
        if lo.0 > hi.0 {
            Span { lo: hi, hi: lo }
        } else {
            Span { lo, hi }
        }
    }

    /// Returns the span as a range of `usize`, `lo..hi`.
    pub fn to_range(self) -> (range: core::ops::Range<usize>)
        ensures
            range.start == self.spec_lo().0,
            range.end == self.spec_hi().0,
            range.start <= range.end,
    {
        proof {
            use_type_invariant(self);
        }
        self.lo.to_usize()..self.hi.to_usize()
    }

    /// Returns the span as a range of `u32`, `lo..hi`.
    pub fn to_u32_range(self) -> (range: core::ops::Range<u32>)
        ensures
            range.start == self.spec_lo().0,
            range.end == self.spec_hi().0,
            range.start <= range.end,
    {
        proof {
            use_type_invariant(self);
        }
        self.lo.to_u32()..self.hi.to_u32()
    }

    /// Returns the span's start position, which does not lie after its end.
    #[verifier::when_used_as_spec(spec_lo)]
    pub fn lo(self) -> (pos: BytePos)
        ensures
            pos == self.spec_lo(),
            pos.0 <= self.spec_hi().0,
    {
        proof {
            use_type_invariant(self);
        }
        self.lo
    }

    /// Creates a new span with the same hi position as this span and the given lo position.
    pub fn with_lo(self, lo: BytePos) -> (span: Self)
        ensures
            span == Span::spec_new(lo, self.hi()),
    {
        Self::new(lo, self.hi())
    }

    /// Returns the span's end position, which does not lie before its start.
    #[verifier::when_used_as_spec(spec_hi)]
    pub fn hi(self) -> (pos: BytePos)
        ensures
            pos == self.spec_hi(),
            self.spec_lo().0 <= pos.0,
    {
        proof {
            use_type_invariant(self);
        }
        self.hi
    }

    /// Creates a new span with the same lo position as this span and the given hi position.
    pub fn with_hi(self, hi: BytePos) -> (span: Self)
        ensures
            span == Span::spec_new(self.lo(), hi),
    {
        Self::new(self.lo(), hi)
    }

    /// Creates a new span representing an empty span at the beginning of this span.
    pub fn shrink_to_lo(self) -> (span: Self)
        ensures
            span.lo() == self.lo(),
            span.hi() == self.lo(),
    {
        Self::new(self.lo(), self.lo())
    }

    /// Creates a new span representing an empty span at the end of this span.
    pub fn shrink_to_hi(self) -> (span: Self)
        ensures
            span.lo() == self.hi(),
            span.hi() == self.hi(),
    {
        Self::new(self.hi(), self.hi())
    }

    /// Returns `true` if this is a dummy span.
    pub fn is_dummy(self) -> (r: bool)
        ensures
            r == (self == Span::spec_dummy()),
    {
        self.lo.0 == 0 && self.hi.0 == 0
    }

    /// Returns `true` if `self` fully encloses `other`.
    #[verifier::when_used_as_spec(spec_contains)]
    pub fn contains(self, other: Self) -> (r: bool)
        ensures
            r == self.spec_contains(other),
    {
        self.lo.0 <= other.lo.0 && other.hi.0 <= self.hi.0
    }

    /// Returns `true` if `self` touches `other`.
    #[verifier::when_used_as_spec(spec_overlaps)]
    pub fn overlaps(self, other: Self) -> (r: bool)
        ensures
            r == self.spec_overlaps(other),
    {
        self.lo.0 < other.hi.0 && other.lo.0 < self.hi.0
    }

    /// Returns `true` if `self` and `other` are equal.
    pub fn is_empty(self, other: Self) -> (r: bool)
        ensures
            r == (self == other),
    {
        self.lo.0 == other.lo.0 && self.hi.0 == other.hi.0
    }

    /// The two spans into which a position splits a span: the position is
    /// counted from the start of the span.
    pub open spec fn spec_split_at(self, pos: u32) -> (Span, Span) {
        let split_pos = BytePos((self.spec_lo().0 + pos) as u32);
        (Span::spec_new(self.spec_lo(), split_pos), Span::spec_new(split_pos, self.spec_hi()))
    }

    /// Splits a span into two composite spans around a certain position,
    /// counted from the start of the span and not beyond its end.
    pub fn split_at(self, pos: u32) -> (halves: (Self, Self))
        requires
            pos <= self.hi().0 - self.lo().0,
        ensures
            halves == self.spec_split_at(pos),
            halves.0.lo() == self.lo(),
            halves.0.hi().0 == self.lo().0 + pos,
            halves.1.lo() == halves.0.hi(),
            halves.1.hi() == self.hi(),
    {
        proof {
            use_type_invariant(self);
        }
        let split_pos = BytePos(self.lo.0 + pos);
        (Self::new(self.lo, split_pos), Self::new(split_pos, self.hi))
    }

    /// Returns a `Span` that would enclose both `self` and `end`.
    ///
    /// Note that this can also be used to extend the span "backwards":
    /// `start.to(end)` and `end.to(start)` return the same `Span`.
    ///
    /// ```text
    ///     ____             ___
    ///     self lorem ipsum end
    ///     ^^^^^^^^^^^^^^^^^^^^
    /// ```
    #[verifier::when_used_as_spec(spec_to)]
    pub fn to(self, end: Self) -> (span: Self)
        ensures
            span == self.spec_to(end),
            span.lo() == min_pos(self.lo(), end.lo()),
            span.hi() == max_pos(self.hi(), end.hi()),
    {
        proof {
            use_type_invariant(self);
            use_type_invariant(end);
        }
        let lo = if self.lo.0 <= end.lo.0 {
            self.lo
        } else {
            end.lo
        };
        let hi = if self.hi.0 >= end.hi.0 {
            self.hi
        } else {
            end.hi
        };
        Self::new(lo, hi)
    }

    /// Returns a `Span` between the end of `self` to the beginning of `end`.
    ///
    /// ```text
    ///     ____             ___
    ///     self lorem ipsum end
    ///         ^^^^^^^^^^^^^
    /// ```
    pub fn between(self, end: Self) -> (span: Self)
        ensures
            span == Span::spec_new(self.hi(), end.lo()),
    {
        Self::new(self.hi(), end.lo())
    }

    /// Returns a `Span` from the beginning of `self` until the beginning of `end`.
    ///
    /// ```text
    ///     ____             ___
    ///     self lorem ipsum end
    ///     ^^^^^^^^^^^^^^^^^
    /// ```
    pub fn until(self, end: Self) -> (span: Self)
        ensures
            span == Span::spec_new(self.lo(), end.lo()),
    {
        Self::new(self.lo(), end.lo())
    }

    /// Joins all the given spans using [`to`](Self::to).
    ///
    /// Returns the dummy span if there are none.
    pub fn join_many(spans: &[Self]) -> (span: Self)
        ensures
            span == Span::spec_join_many(spans@),
    {
        if spans.len() == 0 {
            return Span::dummy();
        }
        let mut joined = spans[0];
        let mut i: usize = 1;
        assert(spans@.take(1) =~= seq![spans@[0]]);
        while i < spans.len()
            invariant
                1 <= i <= spans@.len(),
                joined == Span::spec_join_many(spans@.take(i as int)),
            decreases spans@.len() - i,
        {
            assert(spans@.take(i + 1).drop_last() =~= spans@.take(i as int));
            joined = joined.to(spans[i]);
            i += 1;
        }
        assert(spans@.take(i as int) =~= spans@);
        joined
    }

    /// Joins the first and last span of the given spans.
    ///
    /// Returns the dummy span if there are none.
    pub fn join_first_last(spans: &[Self]) -> (span: Self)
        ensures
            span == if spans@.len() == 0 {
                Span::spec_dummy()
            } else if spans@.len() == 1 {
                spans@[0]
            } else {
                spans@[0].spec_to(spans@.last())
            },
    {
        if spans.len() == 0 {
            Span::dummy()
        } else if spans.len() == 1 {
            spans[0]
        } else {
            spans[0].to(spans[spans.len() - 1])
        }
    }
}

/// Every span that is made starts no later than it ends, and the two halves
/// into which a span is split lie end to end and cover it: the first starts
/// where the span starts, the second starts where the first ends and ends
/// where the span ends, and joined they give the span.
pub proof fn law_split_halves_cover(span: Span, k: u32)
    requires
        span.well_formed(),
        k <= span.hi().0 - span.lo().0,
    ensures
        ({
            let (first, second) = span.spec_split_at(k);
            &&& first.well_formed() && second.well_formed()
            &&& first.lo() == span.lo()
            &&& first.hi() == second.lo()
            &&& second.hi() == span.hi()
            &&& first.to(second) == span
        }),
{
    let mid = BytePos((span.lo().0 + k) as u32);
    Span::lemma_new(span.lo(), mid);
    Span::lemma_new(mid, span.hi());
    let (first, second) = span.spec_split_at(k);
    Span::lemma_new(min_pos(first.lo(), second.lo()), max_pos(first.hi(), second.hi()));
    first.to(second).lemma_ends_fix_span(span);
}

/// Whatever the two positions, the span that is made of them starts no later
/// than it ends.
pub proof fn law_span_is_ordered(lo: BytePos, hi: BytePos)
    ensures
        Span::spec_new(lo, hi).well_formed(),
        Span::spec_new(lo, hi).lo().0 <= Span::spec_new(lo, hi).hi().0,
        Span::spec_dummy().well_formed(),
{
    Span::lemma_new(lo, hi);
    Span::lemma_new(BytePos(0), BytePos(0));
}

/// Joining is symmetric: `a.to(b)` is `b.to(a)`.
pub proof fn law_to_commutes(a: Span, b: Span)
    ensures
        a.to(b) == b.to(a),
{
    Span::lemma_new(min_pos(a.lo(), b.lo()), max_pos(a.hi(), b.hi()));
    Span::lemma_new(min_pos(b.lo(), a.lo()), max_pos(b.hi(), a.hi()));
    a.to(b).lemma_ends_fix_span(b.to(a));
}

/// Joining a span with itself gives the span.
pub proof fn law_to_idempotent(a: Span)
    requires
        a.well_formed(),
    ensures
        a.to(a) == a,
{
    Span::lemma_new(min_pos(a.lo(), a.lo()), max_pos(a.hi(), a.hi()));
    a.to(a).lemma_ends_fix_span(a);
}

/// The join of two spans holds both.
pub proof fn law_to_contains_both(a: Span, b: Span)
    requires
        a.well_formed(),
        b.well_formed(),
    ensures
        a.to(b).contains(a),
        a.to(b).contains(b),
        a.to(b).well_formed(),
{
    Span::lemma_new(min_pos(a.lo(), b.lo()), max_pos(a.hi(), b.hi()));
}

/// A value paired with a source code location.
///
/// It gives way to its value: what can be called on the value can be called
/// on it.
#[derive(Clone, Copy, Debug, Default)]
pub struct Spanned<T> {
    /// Where the value stands in the source.
    pub span: Span,
    /// The value.
    pub data: T,
}

impl<T> core::ops::Deref for Spanned<T> {
    type Target = T;

    fn deref(&self) -> (data: &T)
        ensures
            *data == self.data,
    {
        &self.data
    }
}

impl<T> core::ops::DerefMut for Spanned<T> {
    fn deref_mut(&mut self) -> (data: &mut T)
        ensures
            *data == old(self).data,
            final(self).span == old(self).span,
            final(self).data == *final(data),
    {
        &mut self.data
    }
}

impl<T> Spanned<T> {
    /// Applies `f` to the value and keeps the location.
    pub fn map<U, F: FnOnce(T) -> U>(self, f: F) -> (mapped: Spanned<U>)
        requires
            call_requires(f, (self.data,)),
        ensures
            mapped.span == self.span,
            call_ensures(f, (self.data,), mapped.data),
    {
        Spanned { span: self.span, data: f(self.data) }
    }

    /// The location with a reference to the value.
    pub fn as_ref(&self) -> (borrowed: Spanned<&T>)
        ensures
            borrowed.span == self.span,
            *borrowed.data == self.data,
    {
        Spanned { span: self.span, data: &self.data }
    }

    /// The location with a mutable reference to the value.
    pub fn as_mut(&mut self) -> (borrowed: Spanned<&mut T>)
        ensures
            borrowed.span == old(self).span,
            *borrowed.data == old(self).data,
            final(self).span == old(self).span,
            final(self).data == *final(borrowed.data),
    {
        Spanned { span: self.span, data: &mut self.data }
    }

    /// The value, without its location.
    pub fn into_inner(self) -> (data: T)
        ensures
            data == self.data,
    {
        self.data
    }
}

} // verus!
