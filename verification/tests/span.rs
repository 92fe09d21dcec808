use solar_front::pos::BytePos;
use solar_front::span::{Span, Spanned};

fn span(lo: u32, hi: u32) -> Span {
    Span::new(BytePos(lo), BytePos(hi))
}

#[test]
fn new_puts_the_ends_in_order() {
    let s = span(7, 3);
    assert_eq!(s.lo(), BytePos(3));
    assert_eq!(s.hi(), BytePos(7));
    assert_eq!(s, span(3, 7));
    assert_eq!(span(4, 4).lo(), span(4, 4).hi());
}

#[test]
fn dummy_is_zero_to_zero() {
    assert_eq!(Span::dummy(), span(0, 0));
    assert_eq!(Span::default(), Span::dummy());
    assert!(Span::dummy().is_dummy());
    assert!(!span(0, 1).is_dummy());
    assert!(!span(1, 1).is_dummy());
}

#[test]
fn ranges() {
    assert_eq!(span(2, 9).to_range(), 2usize..9usize);
    assert_eq!(span(2, 9).to_u32_range(), 2u32..9u32);
    assert_eq!(BytePos::from_usize(5), BytePos::from_u32(5));
    assert_eq!(BytePos(5).to_usize(), 5usize);
    assert_eq!(BytePos(5).to_u32(), 5u32);
}

#[test]
fn with_lo_and_with_hi_keep_the_order() {
    assert_eq!(span(2, 9).with_lo(BytePos(5)), span(5, 9));
    assert_eq!(span(2, 9).with_lo(BytePos(12)), span(9, 12));
    assert_eq!(span(2, 9).with_hi(BytePos(5)), span(2, 5));
    assert_eq!(span(2, 9).with_hi(BytePos(1)), span(1, 2));
}

#[test]
fn shrinking() {
    assert_eq!(span(2, 9).shrink_to_lo(), span(2, 2));
    assert_eq!(span(2, 9).shrink_to_hi(), span(9, 9));
}

#[test]
fn contains_and_overlaps() {
    assert!(span(2, 9).contains(span(3, 5)));
    assert!(span(2, 9).contains(span(2, 9)));
    assert!(!span(2, 9).contains(span(1, 5)));
    assert!(!span(2, 9).contains(span(3, 10)));
    assert!(span(2, 9).overlaps(span(8, 12)));
    assert!(!span(2, 9).overlaps(span(9, 12)));
    assert!(!span(2, 9).overlaps(span(0, 2)));
    assert!(!span(2, 2).overlaps(span(2, 2)));
    assert!(span(2, 9).is_empty(span(2, 9)));
    assert!(!span(2, 9).is_empty(span(2, 8)));
}

#[test]
fn split_halves_lie_end_to_end() {
    let s = span(10, 20);
    for k in 0..=10 {
        let (a, b) = s.split_at(k);
        assert_eq!(a, span(10, 10 + k));
        assert_eq!(b, span(10 + k, 20));
        assert_eq!(a.lo(), s.lo());
        assert_eq!(a.hi(), b.lo());
        assert_eq!(b.hi(), s.hi());
        assert_eq!(a.to(b), s);
    }
}

#[test]
fn to_is_the_smallest_span_around_both() {
    let a = span(3, 5);
    let b = span(10, 12);
    assert_eq!(a.to(b), span(3, 12));
    assert_eq!(a.to(b), b.to(a));
    assert_eq!(a.to(a), a);
    assert!(a.to(b).contains(a) && a.to(b).contains(b));
    assert_eq!(span(3, 20).to(span(5, 7)), span(3, 20));
}

#[test]
fn between_and_until() {
    let a = span(3, 5);
    let b = span(10, 12);
    assert_eq!(a.between(b), span(5, 10));
    assert_eq!(b.between(a), span(3, 12));
    assert_eq!(a.until(b), span(3, 10));
    assert_eq!(b.until(a), span(3, 10));
}

#[test]
fn joins() {
    assert_eq!(Span::join_many(&[]), Span::dummy());
    assert_eq!(Span::join_many(&[span(4, 6)]), span(4, 6));
    assert_eq!(Span::join_many(&[span(4, 6), span(1, 2), span(9, 30), span(5, 5)]), span(1, 30));
    assert_eq!(Span::join_first_last(&[]), Span::dummy());
    assert_eq!(Span::join_first_last(&[span(4, 6)]), span(4, 6));
    assert_eq!(Span::join_first_last(&[span(4, 6), span(1, 2), span(9, 30)]), span(4, 30));
    assert_eq!(Span::join_first_last(&[span(4, 6), span(0, 50), span(5, 5)]), span(4, 6));
}

#[test]
fn spanned() {
    let s = Spanned { span: span(1, 4), data: 20u32 };
    assert_eq!(s.as_ref().span, span(1, 4));
    assert_eq!(*s.as_ref().data, 20);
    let t = s.map(|n| n + 1);
    assert_eq!(t.span, span(1, 4));
    assert_eq!(t.data, 21);
    assert_eq!(t.into_inner(), 21);
}

#[test]
fn spanned_gives_way_to_its_value() {
    let mut s = Spanned { span: span(1, 4), data: String::from("ab") };
    assert_eq!(s.len(), 2);
    s.as_mut().data.push('c');
    assert_eq!(s.data, "abc");
    s.push('d');
    assert_eq!(s.data, "abcd");
    assert_eq!(Spanned::<u8>::default().span, Span::dummy());
    assert_eq!(s.as_mut().span, span(1, 4));
}
