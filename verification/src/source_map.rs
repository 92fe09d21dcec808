//! The source map: the texts of all source files, laid end to end in one
//! space of byte positions.

use vstd::prelude::*;
use vstd::string::{StringExecFns, StringSliceAdditionalSpecFns};
use vstd::utf8::{
    decode_utf8, encode_utf8, encode_utf8_decode_utf8, encode_utf8_valid_utf8, is_char_boundary,
    is_char_boundary_iff_not_is_continuation_byte, is_char_boundary_start_end_of_seq,
};
use crate::diagnostics::{digit_char, digit_str};
use crate::lexer::ascii::LF;
use crate::pos::BytePos;
use crate::span::Span;

verus! {

/// How many of the first `n` bytes are line feeds.
pub open spec fn count_line_feeds(s: Seq<u8>, n: int) -> nat
    decreases n,
{
    if n <= 0 || n > s.len() {
        0
    } else if s[n - 1] == LF {
        1 + count_line_feeds(s, n - 1)
    } else {
        count_line_feeds(s, n - 1)
    }
}

/// A line starts at `p`: at the start of the text, and behind every line feed.
pub open spec fn is_line_start(s: Seq<u8>, p: int) -> bool {
    p == 0 || (0 < p <= s.len() && s[p - 1] == LF)
}

/// `starts` is the table of the line starts of `s`: all of them, in rising
/// order.
pub open spec fn is_line_table(s: Seq<u8>, starts: Seq<u32>) -> bool {
    &&& starts.len() > 0
    &&& starts[0] == 0
    &&& forall|i: int, j: int| 0 <= i < j < starts.len() ==> starts[i] < starts[j]
    &&& forall|k: int| 0 <= k < starts.len() ==> is_line_start(s, #[trigger] starts[k] as int)
    &&& forall|p: int|
        0 <= p <= s.len() && is_line_start(s, p) ==> exists|k: int|
            0 <= k < starts.len() && #[trigger] starts[k] == p
}

/// No line feed stands in `s[from..to)`: the count stays.
pub proof fn lemma_count_without_line_feed(s: Seq<u8>, from: int, to: int)
    requires
        0 <= from <= to <= s.len(),
        forall|i: int| from <= i < to ==> s[i] != LF,
    ensures
        count_line_feeds(s, to) == count_line_feeds(s, from),
    decreases to - from,
{
    if from < to {
        lemma_count_without_line_feed(s, from, to - 1);
    }
}

/// Between two neighbours of the table stands no line start, so no line feed
/// but the one that ends the line.
pub proof fn lemma_line_has_no_line_feed(s: Seq<u8>, starts: Seq<u32>, k: int, i: int)
    requires
        is_line_table(s, starts),
        0 <= k < starts.len(),
        starts[k] <= i < s.len(),
        k + 1 < starts.len() ==> i + 1 < starts[k + 1],
    ensures
        s[i] != LF,
{
    if s[i] == LF {
        assert(is_line_start(s, i + 1));
        let m = choose|m: int| 0 <= m < starts.len() && #[trigger] starts[m] == i + 1;
        if m <= k {
            if m < k {
                assert(starts[m] < starts[k]);
            }
        } else if m > k + 1 {
            assert(starts[k + 1] < starts[m]);
        }
    }
}

/// The line with index `k` starts behind `k` line feeds.
pub proof fn lemma_line_start_count(s: Seq<u8>, starts: Seq<u32>, k: int)
    requires
        is_line_table(s, starts),
        0 <= k < starts.len(),
    ensures
        count_line_feeds(s, starts[k] as int) == k,
    decreases k,
{
    if k > 0 {
        lemma_line_start_count(s, starts, k - 1);
        let a = starts[k - 1] as int;
        let b = starts[k] as int;
        assert(a < b);
        assert(is_line_start(s, b));
        assert forall|i: int| a <= i < b - 1 implies s[i] != LF by {
            lemma_line_has_no_line_feed(s, starts, k - 1, i);
        }
        lemma_count_without_line_feed(s, a, b - 1);
    }
}

/// A position on the line with index `k` stands behind `k` line feeds.
pub proof fn lemma_line_of_offset(s: Seq<u8>, starts: Seq<u32>, k: int, offset: int)
    requires
        is_line_table(s, starts),
        0 <= k < starts.len(),
        starts[k] <= offset <= s.len(),
        k + 1 < starts.len() ==> offset < starts[k + 1],
    ensures
        count_line_feeds(s, offset) == k,
{
    lemma_line_start_count(s, starts, k);
    assert forall|i: int| starts[k] <= i < offset implies s[i] != LF by {
        lemma_line_has_no_line_feed(s, starts, k, i);
    }
    lemma_count_without_line_feed(s, starts[k] as int, offset);
}

/// No more line feeds than bytes.
pub proof fn lemma_count_line_feeds_bound(s: Seq<u8>, n: int)
    requires
        0 <= n,
    ensures
        count_line_feeds(s, n) <= n,
    decreases n,
{
    if 0 < n <= s.len() {
        lemma_count_line_feeds_bound(s, n - 1);
    }
}

/// A number in decimal digits, without leading zeros.
pub open spec fn decimal_text(n: nat) -> Seq<char>
    decreases n,
{
    if n < 10 {
        seq![digit_char(n as int)]
    } else {
        decimal_text(n / 10) + seq![digit_char((n % 10) as int)]
    }
}

/// Appends a number in decimal digits.
pub fn push_decimal(out: &mut String, n: u32)
    ensures
        final(out)@ == old(out)@ + decimal_text(n as nat),
    decreases n,
{
    if n >= 10 {
        push_decimal(out, n / 10);
    }
    out.append(digit_str(n % 10));
    assert(out@ =~= old(out)@ + decimal_text(n as nat));
}

/// A place in a source file.
#[derive(Clone, Copy, Debug, PartialEq, Eq, Structural)]
pub struct Loc {
    /// The index of the file in the source map.
    pub file: usize,
    /// The line, counted from 1.
    pub line: u32,
    /// The column, counted from 1, in bytes.
    pub col: u32,
}

/// A source file: its name, its text, where it starts in the source map,
/// and the table of its line starts. Nothing of it changes once it is made.
#[derive(Debug)]
pub struct SourceFile {
    name: String,
    src: String,
    start_pos: BytePos,
    lines: Vec<u32>,
}

impl SourceFile {
    #[verifier::type_invariant]
    pub closed spec fn well_formed(&self) -> bool {
        &&& self.start_pos.0 + encode_utf8(self.src@).len() < u32::MAX
        &&& is_line_table(encode_utf8(self.src@), self.lines@)
    }

    /// The name of the file, or a label that stands for one.
    pub closed spec fn spec_name(&self) -> Seq<char> {
        self.name@
    }

    /// The bytes of the text.
    pub closed spec fn bytes(&self) -> Seq<u8> {
        encode_utf8(self.src@)
    }

    /// The characters of the text.
    pub closed spec fn text(&self) -> Seq<char> {
        self.src@
    }

    /// Where the file starts in the source map.
    pub closed spec fn spec_start(&self) -> int {
        self.start_pos.0 as int
    }

    /// Where the file ends in the source map.
    pub open spec fn spec_end(&self) -> int {
        self.spec_start() + self.bytes().len()
    }

    /// Makes the record of a file that starts at `start_pos`: counts its
    /// lines. Fails where the file would not end before the last position
    /// that 32 bits can hold.
    pub fn new(name: String, src: String, start_pos: BytePos) -> (file: Option<Self>)
        ensures
            file is Some <==> start_pos.0 + encode_utf8(src@).len() < u32::MAX,
            file matches Some(f) ==> {
                &&& f.spec_name() == name@
                &&& f.text() == src@
                &&& f.bytes() == encode_utf8(src@)
                &&& f.spec_start() == start_pos.0
                &&& f.well_formed()
            },
    {
        let bytes = src.as_str().as_bytes();
        let len = bytes.len();
        if len >= (u32::MAX - start_pos.0) as usize {
            return None;
        }
        let ghost s = bytes@;
        let mut lines: Vec<u32> = Vec::new();
        lines.push(0);
        let mut i: usize = 0;
        assert(lines@[0] == 0);
        while i < len
            invariant
                s == bytes@,
                len == s.len(),
                i <= len < u32::MAX,
                lines@.len() > 0,
                lines@[0] == 0,
                forall|a: int, b: int| 0 <= a < b < lines@.len() ==> lines@[a] < lines@[b],
                forall|k: int| 0 <= k < lines@.len() ==> is_line_start(s, #[trigger] lines@[k] as int),
                forall|k: int| 0 <= k < lines@.len() ==> #[trigger] lines@[k] <= i,
                forall|p: int|
                    0 <= p <= i && is_line_start(s, p) ==> exists|k: int|
                        0 <= k < lines@.len() && #[trigger] lines@[k] == p,
            decreases len - i,
        {
            if bytes[i] == LF {
                let ghost before = lines@;
                lines.push((i + 1) as u32);
                assert forall|p: int| 0 <= p <= i + 1 && is_line_start(s, p) implies exists|k: int|
                    0 <= k < lines@.len() && #[trigger] lines@[k] == p by {
                    if p <= i {
                        let k = choose|k: int| 0 <= k < before.len() && #[trigger] before[k] == p;
                        assert(lines@[k] == p);
                    } else {
                        assert(lines@[before.len() as int] == p);
                    }
                }
            }
            i += 1;
        }
        Some(SourceFile { name, src, start_pos, lines })
    }

    /// The name of the file.
    pub fn name(&self) -> (name: &str)
        ensures
            name@ == self.spec_name(),
    {
        self.name.as_str()
    }

    /// The text of the file.
    pub fn src(&self) -> (src: &str)
        ensures
            src@ == self.text(),
            src.spec_bytes() == self.bytes(),
    {
        self.src.as_str()
    }

    /// Where the file starts in the source map.
    pub fn start_pos(&self) -> (pos: BytePos)
        ensures
            pos.0 == self.spec_start(),
    {
        self.start_pos
    }

    /// Where the file ends in the source map: the first position behind it.
    pub fn end_pos(&self) -> (pos: BytePos)
        ensures
            pos.0 == self.spec_end(),
    {
        proof {
            use_type_invariant(self);
        }
        BytePos(self.start_pos.0 + self.src.as_str().as_bytes().len() as u32)
    }

    /// How many lines the file has. A text that ends in a line feed has an
    /// empty last line.
    pub fn count_lines(&self) -> (n: usize)
        ensures
            n == count_line_feeds(self.bytes(), self.bytes().len() as int) + 1,
    {
        proof {
            use_type_invariant(self);
            lemma_line_of_offset(
                self.bytes(),
                self.lines@,
                self.lines@.len() - 1,
                self.bytes().len() as int,
            );
        }
        self.lines.len()
    }

    /// The line and the column of a position in this file, both counted from
    /// 1: the line by the line feeds before the position, the column in bytes
    /// from the start of the line. `None` for a position outside the file; the
    /// end of the file is inside.
    pub fn lookup_line_col(&self, pos: BytePos) -> (place: Option<(u32, u32)>)
        ensures
            place is Some <==> self.spec_start() <= pos.0 <= self.spec_end(),
            place matches Some((line, col)) ==> {
                let offset = pos.0 - self.spec_start();
                &&& line == count_line_feeds(self.bytes(), offset) + 1
                &&& 1 <= col <= offset + 1
                &&& is_line_start(self.bytes(), offset - (col - 1))
                &&& count_line_feeds(self.bytes(), offset - (col - 1)) == count_line_feeds(
                    self.bytes(),
                    offset,
                )
                &&& col == offset - line_begin(self.bytes(), offset) + 1
            },
    {
        proof {
            use_type_invariant(self);
        }
        let len = self.src.as_str().as_bytes().len();
        if pos.0 < self.start_pos.0 || (pos.0 - self.start_pos.0) as usize > len {
            return None;
        }
        let offset = pos.0 - self.start_pos.0;
        // The last line that starts at or before the offset.
        let mut lo: usize = 0;
        let mut hi: usize = self.lines.len();
        while hi - lo > 1
            invariant
                0 <= lo < hi <= self.lines@.len(),
                forall|a: int, b: int|
                    0 <= a < b < self.lines@.len() ==> self.lines@[a] < self.lines@[b],
                self.lines@[lo as int] <= offset,
                hi < self.lines@.len() ==> offset < self.lines@[hi as int],
            decreases hi - lo,
        {
            let mid = lo + (hi - lo) / 2;
            if self.lines[mid] <= offset {
                lo = mid;
            } else {
                hi = mid;
            }
        }
        proof {
            lemma_line_of_offset(self.bytes(), self.lines@, lo as int, offset as int);
            lemma_line_start_count(self.bytes(), self.lines@, lo as int);
            lemma_count_line_feeds_bound(self.bytes(), offset as int);
            lemma_line_begin(self.bytes(), offset as int, self.lines@[lo as int] as int);
        }
        let line_start = self.lines[lo];
        Some(((lo + 1) as u32, offset - line_start + 1))
    }
}

/// The file at index `i` holds the position: it is the last file that
/// starts at or before it, and the position is not behind its end.
pub open spec fn file_holds(files: Seq<SourceFile>, i: int, pos: int) -> bool {
    &&& 0 <= i < files.len()
    &&& files[i].spec_start() <= pos <= files[i].spec_end()
    &&& i + 1 < files.len() ==> pos < files[i + 1].spec_start()
}

/// Why a file could not be added to the source map.
#[derive(Clone, Copy, Debug, PartialEq, Eq, Structural)]
pub enum OffsetOverflowError {
    /// The texts of all files together are longer than positions can count.
    TooLarge,
}

/// The source map: the source files in the order in which they were added,
/// each starting where the one before ends.
#[derive(Debug)]
pub struct SourceMap {
    files: Vec<SourceFile>,
}

impl SourceMap {
    #[verifier::type_invariant]
    pub closed spec fn well_formed(&self) -> bool {
        &&& forall|i: int| 0 <= i < self.files@.len() ==> (#[trigger] self.files@[i]).well_formed()
        &&& self.files@.len() > 0 ==> self.files@[0].spec_start() == 0
        &&& forall|i: int|
            0 <= i < self.files@.len() - 1 ==> (#[trigger] self.files@[i]).spec_end()
                == self.files@[i + 1].spec_start()
    }

    /// The files of the map, in the order in which they were added.
    pub closed spec fn view_files(&self) -> Seq<SourceFile> {
        self.files@
    }

    /// The first position behind the last file: where the next file starts.
    pub open spec fn spec_end(&self) -> int {
        if self.view_files().len() == 0 {
            0
        } else {
            self.view_files().last().spec_end()
        }
    }

    /// The files lie end to end from position zero on, in the order in which
    /// they were added, so that no two share a position.
    pub open spec fn contiguous(files: Seq<SourceFile>) -> bool {
        &&& files.len() > 0 ==> files[0].spec_start() == 0
        &&& forall|i: int|
            0 <= i < files.len() - 1 ==> (#[trigger] files[i]).spec_end() == files[i
                + 1].spec_start()
    }

    /// An empty source map.
    pub fn new() -> (map: Self)
        ensures
            map.view_files().len() == 0,
    {
        SourceMap { files: Vec::new() }
    }

    /// The files of the map lie end to end.
    pub fn files(&self) -> (files: &[SourceFile])
        ensures
            files@ == self.view_files(),
            SourceMap::contiguous(files@),
    {
        proof {
            use_type_invariant(self);
        }
        self.files.as_slice()
    }

    /// Where the next file will start.
    pub fn end_pos(&self) -> (pos: BytePos)
        ensures
            pos.0 == self.spec_end(),
    {
        if self.files.len() == 0 {
            BytePos(0)
        } else {
            self.files[self.files.len() - 1].end_pos()
        }
    }

    /// Adds a file behind those that are there. Returns its index and the
    /// range of positions that it takes, which is its own from then on. Fails,
    /// and changes nothing, where the positions do not reach.
    pub fn new_source_file(&mut self, name: String, src: String) -> (r: Result<
        (usize, Span),
        OffsetOverflowError,
    >)
        ensures
            r is Ok <==> old(self).spec_end() + encode_utf8(src@).len() < u32::MAX,
            r is Err ==> final(self).view_files() == old(self).view_files(),
            r matches Ok((index, range)) ==> {
                &&& index == old(self).view_files().len()
                &&& final(self).view_files().len() == index + 1
                &&& final(self).view_files().take(index as int) == old(self).view_files()
                &&& final(self).view_files()[index as int].spec_name() == name@
                &&& final(self).view_files()[index as int].text() == src@
                &&& final(self).view_files()[index as int].spec_start() == old(self).spec_end()
                &&& range.lo().0 == old(self).spec_end()
                &&& range.hi().0 == final(self).spec_end()
                &&& range.hi().0 == range.lo().0 + encode_utf8(src@).len()
            },
    {
        proof {
            use_type_invariant(&*self);
        }
        let start = self.end_pos();
        match SourceFile::new(name, src, start) {
            Some(file) => {
                let end = file.end_pos();
                let index = self.files.len();
                // The files are taken out, so that the map is whole at every
                // step, and put back with the new one.
                let mut files: Vec<SourceFile> = Vec::new();
                core::mem::swap(&mut self.files, &mut files);
                files.push(file);
                core::mem::swap(&mut self.files, &mut files);
                assert(self.files@.take(index as int) =~= old(self).files@);
                Ok((index, Span::new(start, end)))
            },
            None => Err(OffsetOverflowError::TooLarge),
        }
    }

    /// The file at the given index.
    pub fn get_file(&self, index: usize) -> (file: Option<&SourceFile>)
        ensures
            file is Some <==> index < self.view_files().len(),
            file matches Some(f) ==> *f == self.view_files()[index as int],
    {
        if index < self.files.len() {
            Some(&self.files[index])
        } else {
            None
        }
    }

    /// The index of the file that holds a position: the last file that starts
    /// at or before it. `None` where the position lies behind the last file.
    /// The search halves the files at every step.
    pub fn lookup_source_file_idx(&self, pos: BytePos) -> (found: Option<usize>)
        ensures
            found is Some <==> self.view_files().len() > 0 && pos.0 <= self.spec_end(),
            found matches Some(i) ==> file_holds(self.view_files(), i as int, pos.0 as int),
    {
        proof {
            use_type_invariant(self);
        }
        if self.files.len() == 0 || pos.0 > self.end_pos().0 {
            return None;
        }
        let mut lo: usize = 0;
        let mut hi: usize = self.files.len();
        while hi - lo > 1
            invariant
                0 <= lo < hi <= self.files@.len(),
                self.well_formed(),
                self.files@[lo as int].spec_start() <= pos.0,
                hi < self.files@.len() ==> pos.0 < self.files@[hi as int].spec_start(),
                pos.0 <= self.files@.last().spec_end(),
            decreases hi - lo,
        {
            let mid = lo + (hi - lo) / 2;
            if self.files[mid].start_pos().0 <= pos.0 {
                lo = mid;
            } else {
                hi = mid;
            }
        }
        proof {
            if lo + 1 < self.files@.len() {
                assert(self.files@[lo as int].spec_end() == self.files@[lo + 1].spec_start());
            }
        }
        Some(lo)
    }

    /// The file, the line and the column of a position.
    pub fn lookup_char_pos(&self, pos: BytePos) -> (loc: Option<Loc>)
        ensures
            loc is Some <==> self.view_files().len() > 0 && pos.0 <= self.spec_end(),
            loc matches Some(l) ==> {
                let file = self.view_files()[l.file as int];
                let offset = pos.0 - file.spec_start();
                &&& file_holds(self.view_files(), l.file as int, pos.0 as int)
                &&& l.line == count_line_feeds(file.bytes(), offset) + 1
                &&& 1 <= l.col <= offset + 1
                &&& is_line_start(file.bytes(), offset - (l.col - 1))
            },
    {
        match self.lookup_source_file_idx(pos) {
            Some(index) => {
                match self.files[index].lookup_line_col(pos) {
                    Some((line, col)) => Some(Loc { file: index, line, col }),
                    None => None,
                }
            },
            None => None,
        }
    }

    /// The place of a span as diagnostics name it: where it starts and where
    /// it ends in its file, if it lies in one.
    pub open spec fn spec_span_place(&self, span: Span) -> Option<(int, int, int)> {
        let files = self.view_files();
        if files.len() == 0 || span.lo().0 > self.spec_end() {
            None
        } else {
            let index = choose|i: int| file_holds(files, i, span.lo().0 as int);
            if span.hi().0 <= files[index].spec_end() {
                Some(
                    (
                        index,
                        span.lo().0 - files[index].spec_start(),
                        span.hi().0 - files[index].spec_start(),
                    ),
                )
            } else {
                None
            }
        }
    }

    /// The file at `index` is the one that holds the position: the last that
    /// starts at or before it.
    pub proof fn lemma_file_of_pos(&self, pos: int, index: int, other: int)
        requires
            self.well_formed(),
            0 <= index < self.view_files().len(),
            0 <= other < self.view_files().len(),
            self.view_files()[index].spec_start() <= pos,
            index + 1 < self.view_files().len() ==> pos < self.view_files()[index + 1].spec_start(),
            self.view_files()[other].spec_start() <= pos,
            other + 1 < self.view_files().len() ==> pos < self.view_files()[other + 1].spec_start(),
        ensures
            index == other,
    {
        if index < other {
            self.lemma_starts_rise(index + 1, other);
        } else if other < index {
            self.lemma_starts_rise(other + 1, index);
        }
    }

    /// Files start in the order in which they were added.
    pub proof fn lemma_starts_rise(&self, i: int, j: int)
        requires
            self.well_formed(),
            0 <= i <= j < self.view_files().len(),
        ensures
            self.view_files()[i].spec_start() <= self.view_files()[j].spec_start(),
        decreases j - i,
    {
        if i < j {
            self.lemma_starts_rise(i, j - 1);
            assert(self.view_files()[j - 1].spec_end() == self.view_files()[j].spec_start());
            assert(self.view_files()[j - 1].well_formed());
        }
    }

    /// The file in which a span lies, and the offsets in that file at which it
    /// starts and ends. `None` for a span that starts behind the last file or
    /// ends behind the file in which it starts.
    pub fn span_to_source(&self, span: Span) -> (place: Option<(usize, usize, usize)>)
        ensures
            match place {
                Some((index, lo, hi)) => self.spec_span_place(span) == Some(
                    (index as int, lo as int, hi as int),
                ) && index < self.view_files().len() && lo <= hi
                    <= self.view_files()[index as int].bytes().len(),
                None => self.spec_span_place(span) is None,
            },
    {
        proof {
            use_type_invariant(self);
        }
        match self.lookup_source_file_idx(span.lo()) {
            Some(index) => {
                proof {
                    let files = self.view_files();
                    assert(file_holds(files, index as int, span.lo().0 as int));
                    let chosen = choose|i: int| file_holds(files, i, span.lo().0 as int);
                    self.lemma_file_of_pos(span.lo().0 as int, index as int, chosen);
                }
                let file = &self.files[index];
                if span.hi().0 <= file.end_pos().0 {
                    let start = file.start_pos().0;
                    Some((index, (span.lo().0 - start) as usize, (span.hi().0 - start) as usize))
                } else {
                    None
                }
            },
            None => None,
        }
    }

    /// The text of a span. `None` where the span lies in no one file, or cuts
    /// a character in two.
    pub fn span_to_snippet(&self, span: Span) -> (snippet: Option<String>)
        ensures
            match snippet {
                Some(text) => self.spec_span_place(span) matches Some((index, lo, hi))
                    && encode_utf8(text@) == self.view_files()[index].bytes().subrange(lo, hi),
                None => self.spec_span_place(span) matches Some((index, lo, hi)) ==> !(
                is_char_boundary(self.view_files()[index].bytes(), lo) && is_char_boundary(
                    self.view_files()[index].bytes(),
                    hi,
                )),
            },
    {
        match self.span_to_source(span) {
            Some((index, lo, hi)) => {
                let src = self.files[index].src();
                proof {
                    encode_utf8_valid_utf8(src@);
                }
                if !src.is_char_boundary(lo) || !src.is_char_boundary(hi) {
                    return None;
                }
                let (head, _) = src.split_at(hi);
                proof {
                    encode_utf8_valid_utf8(head@);
                    let all = src.spec_bytes();
                    let part = head.spec_bytes();
                    if lo < hi {
                        is_char_boundary_iff_not_is_continuation_byte(all, lo as int);
                        is_char_boundary_iff_not_is_continuation_byte(part, lo as int);
                    } else {
                        is_char_boundary_start_end_of_seq(part);
                    }
                }
                let (_, body) = head.split_at(lo);
                let text = body.to_owned();
                proof {
                    assert(encode_utf8(text@) =~= src.spec_bytes().subrange(lo as int, hi as int));
                }
                Some(text)
            },
            None => None,
        }
    }

    /// The place of a span as a diagnostic names it:
    /// `file:line:col-line:col`, lines and columns counted from 1. A span that
    /// lies in no one file is at `<unknown>`.
    pub open spec fn spec_diagnostic_string(&self, span: Span) -> Seq<char> {
        match self.spec_span_place(span) {
            Some((index, lo, hi)) => {
                let file = self.view_files()[index];
                file.spec_name() + seq![':'] + place_text(file.bytes(), lo) + seq!['-']
                    + place_text(file.bytes(), hi)
            },
            None => "<unknown>"@,
        }
    }

    /// Renders the place of a span for a diagnostic.
    pub fn span_to_diagnostic_string(&self, span: Span) -> (text: String)
        ensures
            text@ == self.spec_diagnostic_string(span),
    {
        match self.span_to_source(span) {
            Some((index, _, _)) => {
                let file = &self.files[index];
                let mut text = String::from_str(file.name());
                match (file.lookup_line_col(span.lo()), file.lookup_line_col(span.hi())) {
                    (Some((lo_line, lo_col)), Some((hi_line, hi_col))) => {
                        proof {
                            reveal_strlit(":");
                            reveal_strlit("-");
                            let bytes = file.bytes();
                            let lo = span.lo().0 - file.spec_start();
                            let hi = span.hi().0 - file.spec_start();
                            lemma_line_begin(bytes, lo, lo - (lo_col - 1));
                            lemma_line_begin(bytes, hi, hi - (hi_col - 1));
                        }
                        text.append(":");
                        push_decimal(&mut text, lo_line);
                        text.append(":");
                        push_decimal(&mut text, lo_col);
                        text.append("-");
                        push_decimal(&mut text, hi_line);
                        text.append(":");
                        push_decimal(&mut text, hi_col);
                        assert(text@ =~= self.spec_diagnostic_string(span));
                        text
                    },
                    _ => String::from_str("<unknown>"),
                }
            },
            None => String::from_str("<unknown>"),
        }
    }
}

/// Where the line of a position starts: behind the last line feed before
/// the position, or at the start of the text.
pub open spec fn line_begin(s: Seq<u8>, offset: int) -> int
    decreases offset,
{
    if offset <= 0 || offset > s.len() {
        0
    } else if s[offset - 1] == LF {
        offset
    } else {
        line_begin(s, offset - 1)
    }
}

/// The line begins at the last line start that has as many line feeds before
/// it as the position.
pub proof fn lemma_line_begin(s: Seq<u8>, offset: int, start: int)
    requires
        0 <= start <= offset <= s.len(),
        is_line_start(s, start),
        count_line_feeds(s, start) == count_line_feeds(s, offset),
    ensures
        line_begin(s, offset) == start,
    decreases offset - start,
{
    if start < offset {
        if s[offset - 1] == LF {
            lemma_count_rises(s, start, offset - 1);
        } else {
            lemma_line_begin(s, offset - 1, start);
        }
    }
}

/// The count of line feeds does not fall.
pub proof fn lemma_count_rises(s: Seq<u8>, from: int, to: int)
    requires
        0 <= from <= to <= s.len(),
    ensures
        count_line_feeds(s, from) <= count_line_feeds(s, to),
    decreases to - from,
{
    if from < to {
        lemma_count_rises(s, from, to - 1);
    }
}

/// A place in a text as a diagnostic names it: `line:col`, both counted from
/// 1, the line by the line feeds before the place, the column in bytes from
/// where the line begins.
pub open spec fn place_text(s: Seq<u8>, offset: int) -> Seq<char> {
    decimal_text(count_line_feeds(s, offset) + 1) + seq![':'] + decimal_text(
        (offset - line_begin(s, offset) + 1) as nat,
    )
}

/// Where the line that holds a position ends: at the first line feed at or
/// behind the position, or at the end of the text.
pub open spec fn line_end(s: Seq<u8>, offset: int) -> int
    decreases s.len() - offset,
{
    if offset < 0 || offset >= s.len() {
        s.len() as int
    } else if s[offset] == LF {
        offset
    } else {
        line_end(s, offset + 1)
    }
}

/// A line ends at or behind every position on it, inside the text, and at a
/// line feed if not at the end of the text.
pub proof fn lemma_line_end(s: Seq<u8>, offset: int)
    requires
        0 <= offset <= s.len(),
    ensures
        offset <= line_end(s, offset) <= s.len(),
        line_end(s, offset) < s.len() ==> s[line_end(s, offset)] == LF,
    decreases s.len() - offset,
{
    if offset < s.len() && s[offset] != LF {
        lemma_line_end(s, offset + 1);
    }
}

/// A line begins at or before every position on it, at a line start.
pub proof fn lemma_line_begin_bounds(s: Seq<u8>, offset: int)
    requires
        0 <= offset <= s.len(),
    ensures
        0 <= line_begin(s, offset) <= offset,
        is_line_start(s, line_begin(s, offset)),
    decreases offset,
{
    if offset > 0 && s[offset - 1] != LF {
        lemma_line_begin_bounds(s, offset - 1);
    }
}

/// What a diagnostic shows of a span: where it starts, the line on which it
/// starts, and which part of that line it covers.
#[derive(Debug)]
pub struct Snippet {
    /// Where the span starts: `file:line:col`, both counted from 1.
    pub location: String,
    /// The text of the line on which the span starts, without its line feed.
    pub line: String,
    /// The column at which the span starts, counted from 1, in bytes.
    pub col: u32,
    /// How many bytes of the line the span covers.
    pub width: u32,
}

/// What a [`Snippet`] holds.
pub struct SnippetView {
    pub location: Seq<char>,
    pub line: Seq<char>,
    pub col: nat,
    pub width: nat,
}

impl View for Snippet {
    type V = SnippetView;

    open spec fn view(&self) -> SnippetView {
        SnippetView {
            location: self.location@,
            line: self.line@,
            col: self.col as nat,
            width: self.width as nat,
        }
    }
}

impl SourceMap {
    /// What a diagnostic shows of a span that lies in one file.
    pub open spec fn spec_snippet(&self, span: Span) -> Option<SnippetView> {
        match self.spec_span_place(span) {
            Some((index, lo, hi)) => {
                let file = self.view_files()[index];
                let bytes = file.bytes();
                let begin = line_begin(bytes, lo);
                let end = line_end(bytes, lo);
                let covered = if hi < end {
                    hi
                } else {
                    end
                };
                Some(
                    SnippetView {
                        location: file.spec_name() + seq![':'] + place_text(bytes, lo),
                        line: decode_utf8(bytes.subrange(begin, end)),
                        col: if lo >= begin {
                            (lo - begin + 1) as nat
                        } else {
                            1
                        },
                        width: (covered - lo) as nat,
                    },
                )
            },
            None => None,
        }
    }

    /// A span starts at column one of its line or later.
    pub proof fn lemma_snippet_col(&self, span: Span)
        ensures
            self.spec_snippet(span) matches Some(snippet) ==> snippet.col >= 1,
    {
    }

    /// Looks up what a diagnostic shows of a span: the place where it starts
    /// and the line on which it starts. `None` for a span that lies in no one
    /// file.
    pub fn span_to_lines(&self, span: Span) -> (snippet: Option<Snippet>)
        ensures
            match snippet {
                Some(found) => self.spec_snippet(span) == Some(found@),
                None => self.spec_snippet(span) is None,
            },
    {
        let (index, lo, hi) = match self.span_to_source(span) {
            Some(place) => place,
            None => {
                return None;
            },
        };
        let file = &self.files[index];
        let (line, col) = match file.lookup_line_col(span.lo()) {
            Some(place) => place,
            None => {
                return None;
            },
        };
        let src = file.src();
        let bytes = src.as_bytes();
        let ghost s = bytes@;
        let begin = lo - (col as usize - 1);
        // The line ends at the next line feed.
        let mut end = lo;
        proof {
            lemma_line_end(s, lo as int);
        }
        while end < bytes.len() && bytes[end] != LF
            invariant
                s == bytes@,
                lo <= end <= s.len(),
                line_end(s, end as int) == line_end(s, lo as int),
            decreases s.len() - end,
        {
            end += 1;
        }
        let covered = if hi < end {
            hi
        } else {
            end
        };
        proof {
            encode_utf8_valid_utf8(src@);
            lemma_line_begin_bounds(s, lo as int);
            is_char_boundary_start_end_of_seq(s);
            if end < s.len() {
                is_char_boundary_iff_not_is_continuation_byte(s, end as int);
            }
        }
        let (head, _) = src.split_at(end);
        proof {
            encode_utf8_valid_utf8(head@);
            let part = head.spec_bytes();
            is_char_boundary_start_end_of_seq(part);
            if 0 < begin {
                crate::lexer::characters::lemma_boundary_behind_ascii(part, begin as int);
            }
        }
        let (_, body) = head.split_at(begin);
        let text = body.to_owned();
        let mut location = String::from_str(file.name());
        location.append(":");
        push_decimal(&mut location, line);
        location.append(":");
        push_decimal(&mut location, col);
        proof {
            reveal_strlit(":");
            assert(encode_utf8(text@) =~= s.subrange(begin as int, end as int));
            encode_utf8_decode_utf8(text@);
            assert(location@ =~= file.spec_name() + seq![':'] + place_text(s, lo as int));
        }
        Some(Snippet { location, line: text, col, width: (covered - lo) as u32 })
    }
}

} // verus!
