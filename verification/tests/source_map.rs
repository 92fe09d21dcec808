use solar_front::pos::BytePos;
use solar_front::source_map::{push_decimal, Loc, OffsetOverflowError, SourceFile, SourceMap};
use solar_front::span::Span;

fn span(lo: u32, hi: u32) -> Span {
    Span::new(BytePos(lo), BytePos(hi))
}

fn two_files() -> SourceMap {
    let mut map = SourceMap::new();
    assert_eq!(map.new_source_file("a.sol".to_string(), "ab\ncd\n".to_string()), Ok((0, span(0, 6))));
    assert_eq!(map.new_source_file("b.sol".to_string(), "é\n\nx".to_string()), Ok((1, span(6, 11))));
    map
}

#[test]
fn files_lie_end_to_end() {
    let mut map = two_files();
    assert_eq!(map.end_pos(), BytePos(11));
    assert_eq!(map.new_source_file("empty".to_string(), String::new()), Ok((2, span(11, 11))));
    assert_eq!(map.new_source_file("c.sol".to_string(), "z".to_string()), Ok((3, span(11, 12))));
    let files = map.files();
    assert_eq!(files.len(), 4);
    assert_eq!(files[0].start_pos(), BytePos(0));
    for pair in files.windows(2) {
        assert_eq!(pair[0].end_pos(), pair[1].start_pos());
    }
    assert_eq!(files[1].name(), "b.sol");
    assert_eq!(files[1].src(), "é\n\nx");
    assert_eq!(map.get_file(3).unwrap().name(), "c.sol");
    assert!(map.get_file(4).is_none());
    assert_eq!(SourceMap::new().end_pos(), BytePos(0));
    assert_eq!(SourceMap::new().files().len(), 0);
}

#[test]
fn a_file_that_does_not_fit_is_refused() {
    assert!(SourceFile::new("a".to_string(), "abc".to_string(), BytePos(u32::MAX - 4)).is_some());
    assert!(SourceFile::new("a".to_string(), "abc".to_string(), BytePos(u32::MAX - 3)).is_none());
    assert!(SourceFile::new("a".to_string(), String::new(), BytePos(u32::MAX)).is_none());
    assert_eq!(OffsetOverflowError::TooLarge, OffsetOverflowError::TooLarge);
}

#[test]
fn lines_are_counted_by_line_feeds() {
    let file = SourceFile::new("a".to_string(), "ab\ncd\n".to_string(), BytePos(10)).unwrap();
    assert_eq!(file.count_lines(), 3);
    assert_eq!(file.lookup_line_col(BytePos(9)), None);
    assert_eq!(file.lookup_line_col(BytePos(10)), Some((1, 1)));
    assert_eq!(file.lookup_line_col(BytePos(11)), Some((1, 2)));
    assert_eq!(file.lookup_line_col(BytePos(12)), Some((1, 3)));
    assert_eq!(file.lookup_line_col(BytePos(13)), Some((2, 1)));
    assert_eq!(file.lookup_line_col(BytePos(15)), Some((2, 3)));
    assert_eq!(file.lookup_line_col(BytePos(16)), Some((3, 1)));
    assert_eq!(file.lookup_line_col(BytePos(17)), None);
    let one = SourceFile::new("b".to_string(), String::new(), BytePos(0)).unwrap();
    assert_eq!(one.count_lines(), 1);
    assert_eq!(one.lookup_line_col(BytePos(0)), Some((1, 1)));
    let cr = SourceFile::new("c".to_string(), "a\r\nb\rc".to_string(), BytePos(0)).unwrap();
    assert_eq!(cr.count_lines(), 2);
    assert_eq!(cr.lookup_line_col(BytePos(5)), Some((2, 3)));
}

#[test]
fn positions_are_found_in_their_files() {
    let map = two_files();
    assert_eq!(map.lookup_source_file_idx(BytePos(0)), Some(0));
    assert_eq!(map.lookup_source_file_idx(BytePos(5)), Some(0));
    assert_eq!(map.lookup_source_file_idx(BytePos(6)), Some(1));
    assert_eq!(map.lookup_source_file_idx(BytePos(11)), Some(1));
    assert_eq!(map.lookup_source_file_idx(BytePos(12)), None);
    assert_eq!(SourceMap::new().lookup_source_file_idx(BytePos(0)), None);
    assert_eq!(map.lookup_char_pos(BytePos(4)), Some(Loc { file: 0, line: 2, col: 2 }));
    assert_eq!(map.lookup_char_pos(BytePos(6)), Some(Loc { file: 1, line: 1, col: 1 }));
    // Columns count bytes.
    assert_eq!(map.lookup_char_pos(BytePos(8)), Some(Loc { file: 1, line: 1, col: 3 }));
    assert_eq!(map.lookup_char_pos(BytePos(10)), Some(Loc { file: 1, line: 3, col: 1 }));
    assert_eq!(map.lookup_char_pos(BytePos(12)), None);
}

#[test]
fn many_files_are_searched_by_halving() {
    let mut map = SourceMap::new();
    for i in 0..100 {
        map.new_source_file(format!("f{i}"), "0123456789".to_string()).unwrap();
    }
    for pos in 0..1000u32 {
        assert_eq!(map.lookup_source_file_idx(BytePos(pos)), Some((pos / 10) as usize));
    }
    assert_eq!(map.lookup_source_file_idx(BytePos(1000)), Some(99));
    assert_eq!(map.lookup_source_file_idx(BytePos(1001)), None);
}

#[test]
fn spans_to_source_and_snippets() {
    let map = two_files();
    assert_eq!(map.span_to_source(span(3, 5)), Some((0, 3, 5)));
    assert_eq!(map.span_to_source(span(6, 11)), Some((1, 0, 5)));
    assert_eq!(map.span_to_source(span(5, 7)), None);
    assert_eq!(map.span_to_source(span(12, 13)), None);
    assert_eq!(map.span_to_snippet(span(3, 5)), Some("cd".to_string()));
    assert_eq!(map.span_to_snippet(span(0, 6)), Some("ab\ncd\n".to_string()));
    assert_eq!(map.span_to_snippet(span(6, 8)), Some("é".to_string()));
    assert_eq!(map.span_to_snippet(span(8, 8)), Some(String::new()));
    // Not through the middle of a character.
    assert_eq!(map.span_to_snippet(span(7, 8)), None);
    assert_eq!(map.span_to_snippet(span(6, 7)), None);
    assert_eq!(map.span_to_snippet(span(4, 8)), None);
}

#[test]
fn spans_as_diagnostics_name_them() {
    let map = two_files();
    assert_eq!(map.span_to_diagnostic_string(span(0, 1)), "a.sol:1:1-1:2");
    assert_eq!(map.span_to_diagnostic_string(span(1, 4)), "a.sol:1:2-2:2");
    assert_eq!(map.span_to_diagnostic_string(span(6, 11)), "b.sol:1:1-3:2");
    assert_eq!(map.span_to_diagnostic_string(span(5, 7)), "<unknown>");
    assert_eq!(map.span_to_diagnostic_string(span(20, 21)), "<unknown>");
    assert_eq!(SourceMap::new().span_to_diagnostic_string(span(0, 0)), "<unknown>");
}

#[test]
fn decimal_numbers() {
    for n in [0u32, 7, 10, 99, 100, 1234, 4_000_000_000, u32::MAX] {
        let mut out = String::from("n=");
        push_decimal(&mut out, n);
        assert_eq!(out, format!("n={n}"));
    }
}

#[test]
fn the_line_of_a_span() {
    let map = two_files();
    let found = map.span_to_lines(span(3, 5)).unwrap();
    assert_eq!((found.location.as_str(), found.line.as_str()), ("a.sol:2:1", "cd"));
    assert_eq!((found.col, found.width), (1, 2));
    // A span over several lines: what it covers of its first line.
    let found = map.span_to_lines(span(1, 4)).unwrap();
    assert_eq!((found.location.as_str(), found.line.as_str()), ("a.sol:1:2", "ab"));
    assert_eq!((found.col, found.width), (2, 1));
    // An empty span, and one at the line feed.
    let found = map.span_to_lines(span(2, 2)).unwrap();
    assert_eq!((found.location.as_str(), found.line.as_str()), ("a.sol:1:3", "ab"));
    assert_eq!((found.col, found.width), (3, 0));
    let found = map.span_to_lines(span(2, 3)).unwrap();
    assert_eq!((found.col, found.width), (3, 0));
    // The end of a file is the start of the next, and belongs to it.
    let found = map.span_to_lines(span(6, 8)).unwrap();
    assert_eq!((found.location.as_str(), found.line.as_str()), ("b.sol:1:1", "é"));
    assert_eq!((found.col, found.width), (1, 2));
    let found = map.span_to_lines(span(9, 9)).unwrap();
    assert_eq!((found.location.as_str(), found.line.as_str()), ("b.sol:2:1", ""));
    let found = map.span_to_lines(span(11, 11)).unwrap();
    assert_eq!((found.location.as_str(), found.line.as_str()), ("b.sol:3:2", "x"));
    assert!(map.span_to_lines(span(5, 7)).is_none());
    assert!(map.span_to_lines(span(12, 12)).is_none());
    assert!(SourceMap::new().span_to_lines(span(0, 0)).is_none());
}
