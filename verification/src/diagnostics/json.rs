//! Diagnostics as JSON: one object for each diagnostic, on a line of its own.
//!
//! The object of a diagnostic has the fields `level`, `code`, `messages`,
//! `spans` and `children`. A span has the fields `file`, `lo`, `hi`,
//! `line_start`, `col_start`, `line_end`, `col_end` and `label`; the primary
//! spans come first, without labels. A child has the fields of a diagnostic
//! but for `code` and `children`.

use vstd::prelude::*;
use vstd::string::StringExecFns;
use crate::diagnostics::message::{labels_view, MultiSpan, MultiSpanView};
use crate::diagnostics::{
    children_view, code_view, messages_view, Diag, DiagView, Level, Style, SubDiagnostic,
    SubDiagnosticView,
};
use crate::diagnostics::message::DiagMsg;
use crate::source_map::{
    count_line_feeds, decimal_text, line_begin, push_decimal, SourceMap,
};
use crate::span::Span;

verus! {

/// `String::push`: appends one character.
#[verifier::external_body]
fn push_char(out: &mut String, c: char)
    ensures
        final(out)@ == old(out)@.push(c),
{
    out.push(c)
}

/// The lower-case hexadecimal digit of a value below sixteen.
pub open spec fn hex_char(d: int) -> char {
    if d < 10 {
        crate::diagnostics::digit_char(d)
    } else if d == 10 {
        'a'
    } else if d == 11 {
        'b'
    } else if d == 12 {
        'c'
    } else if d == 13 {
        'd'
    } else if d == 14 {
        'e'
    } else {
        'f'
    }
}

fn hex_char_of(d: u32) -> (c: char)
    requires
        d < 16,
    ensures
        c == hex_char(d as int),
{
    if d == 0 {
        '0'
    } else if d == 1 {
        '1'
    } else if d == 2 {
        '2'
    } else if d == 3 {
        '3'
    } else if d == 4 {
        '4'
    } else if d == 5 {
        '5'
    } else if d == 6 {
        '6'
    } else if d == 7 {
        '7'
    } else if d == 8 {
        '8'
    } else if d == 9 {
        '9'
    } else if d == 10 {
        'a'
    } else if d == 11 {
        'b'
    } else if d == 12 {
        'c'
    } else if d == 13 {
        'd'
    } else if d == 14 {
        'e'
    } else {
        'f'
    }
}

/// A character as it stands in a JSON string: the quote and the backslash
/// behind a backslash, line feed, carriage return and tab as `\n`, `\r` and
/// `\t`, any other control character as `\u00` and two hexadecimal digits,
/// and any other character as itself.
pub open spec fn escaped_char(c: char) -> Seq<char> {
    if c == '"' {
        seq!['\\', '"']
    } else if c == '\\' {
        seq!['\\', '\\']
    } else if c == '\n' {
        seq!['\\', 'n']
    } else if c == '\r' {
        seq!['\\', 'r']
    } else if c == '\t' {
        seq!['\\', 't']
    } else if (c as u32) < 0x20 {
        seq!['\\', 'u', '0', '0', hex_char((c as u32) as int / 16), hex_char((c as u32) as int % 16)]
    } else {
        seq![c]
    }
}

/// A text as it stands in a JSON string, without the quotes around it.
pub open spec fn escaped(text: Seq<char>) -> Seq<char>
    decreases text.len(),
{
    if text.len() == 0 {
        Seq::empty()
    } else {
        escaped(text.drop_last()) + escaped_char(text.last())
    }
}

/// A text as a JSON string.
pub open spec fn json_string(text: Seq<char>) -> Seq<char> {
    seq!['"'] + escaped(text) + seq!['"']
}

/// A text as a JSON string, or `null` where there is none.
pub open spec fn json_optional(text: Option<Seq<char>>) -> Seq<char> {
    match text {
        Some(text) => json_string(text),
        None => "null"@,
    }
}

/// The items of a JSON array or object, with commas between them.
pub open spec fn comma_separated(items: Seq<Seq<char>>) -> Seq<char>
    decreases items.len(),
{
    if items.len() == 0 {
        Seq::empty()
    } else if items.len() == 1 {
        items[0]
    } else {
        comma_separated(items.drop_last()) + seq![','] + items.last()
    }
}

/// A JSON array of the items.
pub open spec fn json_array(items: Seq<Seq<char>>) -> Seq<char> {
    seq!['['] + comma_separated(items) + seq![']']
}

/// The messages as a JSON array of their texts.
pub open spec fn json_messages(messages: Seq<(Seq<char>, Style)>) -> Seq<char> {
    json_array(messages.map_values(|m: (Seq<char>, Style)| json_string(m.0)))
}

/// The name of the file in which a span lies, if it lies in one.
pub open spec fn span_file(span: Span, map: &SourceMap) -> Option<Seq<char>> {
    match map.spec_span_place(span) {
        Some((index, _, _)) => Some(map.view_files()[index].spec_name()),
        None => None,
    }
}

/// The line and the column at which a span starts, and those at which it
/// ends, all counted from 1; zeros for a span that lies in no one file.
pub open spec fn span_lines(span: Span, map: &SourceMap) -> (nat, nat, nat, nat) {
    match map.spec_span_place(span) {
        Some((index, lo, hi)) => {
            let bytes = map.view_files()[index].bytes();
            (
                count_line_feeds(bytes, lo) + 1,
                (lo - line_begin(bytes, lo) + 1) as nat,
                count_line_feeds(bytes, hi) + 1,
                (hi - line_begin(bytes, hi) + 1) as nat,
            )
        },
        None => (0, 0, 0, 0),
    }
}

/// The two positions of a span as fields of a JSON object.
pub open spec fn json_positions(span: Span) -> Seq<char> {
    ",\"lo\":"@ + decimal_text(span.lo().0 as nat) + ",\"hi\":"@ + decimal_text(
        span.hi().0 as nat,
    )
}

/// Lines and columns as fields of a JSON object.
pub open spec fn json_lines(lines: (nat, nat, nat, nat)) -> Seq<char> {
    ",\"line_start\":"@ + decimal_text(lines.0) + ",\"col_start\":"@ + decimal_text(lines.1)
        + ",\"line_end\":"@ + decimal_text(lines.2) + ",\"col_end\":"@ + decimal_text(lines.3)
}

/// A span as a JSON object: the name of its file, its two positions, the
/// lines and columns of both, counted from 1, and its label. For a span that
/// lies in no one file the file is `null` and lines and columns are 0.
pub open spec fn json_span(span: Span, label: Option<Seq<char>>, map: &SourceMap) -> Seq<char> {
    "{\"file\":"@ + json_optional(span_file(span, map)) + json_positions(span) + json_lines(
        span_lines(span, map),
    ) + ",\"label\":"@ + json_optional(label) + "}"@
}

/// The spans of a diagnostic as JSON objects: the primary spans, without
/// labels, then the labelled spans.
pub open spec fn span_items(spans: MultiSpanView, map: &SourceMap) -> Seq<Seq<char>> {
    spans.primary_spans.map_values(|s: Span| json_span(s, None, map))
        + spans.span_labels.map_values(|l: (Span, Seq<char>)| json_span(l.0, Some(l.1), map))
}

/// A sub-diagnostic as a JSON object.
pub open spec fn json_child(child: SubDiagnosticView, map: &SourceMap) -> Seq<char> {
    "{\"level\":"@ + json_string(child.level.spec_to_str()) + ",\"messages\":"@ + json_messages(
        child.messages,
    ) + ",\"spans\":"@ + json_array(span_items(child.span, map)) + "}"@
}

/// A diagnostic as a JSON object on a line of its own.
pub open spec fn json_rendered(diag: DiagView, map: &SourceMap) -> Seq<char> {
    "{\"level\":"@ + json_string(diag.level.spec_to_str()) + ",\"code\":"@ + json_optional(
        diag.code,
    ) + ",\"messages\":"@ + json_messages(diag.messages) + ",\"spans\":"@ + json_array(
        span_items(diag.span, map),
    ) + ",\"children\":"@ + json_array(
        diag.children.map_values(|c: SubDiagnosticView| json_child(c, map)),
    ) + "}\n"@
}

/// One more item behind those that are there.
pub proof fn lemma_comma_separated_push(items: Seq<Seq<char>>, item: Seq<char>)
    ensures
        comma_separated(items.push(item)) == if items.len() == 0 {
            item
        } else {
            comma_separated(items) + seq![','] + item
        },
{
    let all = items.push(item);
    assert(all.drop_last() =~= items);
    assert(all.last() == item);
    if items.len() == 0 {
        assert(all[0] == item);
    }
}

/// Appends a text as a JSON string.
pub fn push_json_string(out: &mut String, text: &str)
    ensures
        final(out)@ == old(out)@ + json_string(text@),
{
    broadcast use vstd::string::group_string_axioms;

    push_char(out, '"');
    let ghost head = out@;
    assert(text@.take(0) =~= Seq::<char>::empty());
    assert(head + escaped(text@.take(0)) =~= head);
    for c in it: text.chars()
        invariant
            it.seq() == text@,
            out@ == head + escaped(text@.take(it.index())),
    {
        let ghost i = it.index();
        let ghost before = out@;
        proof {
            assert(c == text@[i]);
            assert(text@.take(i + 1).drop_last() =~= text@.take(i));
            assert(text@.take(i + 1).last() == c);
        }
        if c == '"' {
            push_char(out, '\\');
            push_char(out, '"');
        } else if c == '\\' {
            push_char(out, '\\');
            push_char(out, '\\');
        } else if c == '\n' {
            push_char(out, '\\');
            push_char(out, 'n');
        } else if c == '\r' {
            push_char(out, '\\');
            push_char(out, 'r');
        } else if c == '\t' {
            push_char(out, '\\');
            push_char(out, 't');
        } else if (c as u32) < 0x20 {
            push_char(out, '\\');
            push_char(out, 'u');
            push_char(out, '0');
            push_char(out, '0');
            push_char(out, hex_char_of(c as u32 / 16));
            push_char(out, hex_char_of(c as u32 % 16));
        } else {
            push_char(out, c);
        }
        assert(out@ =~= before + escaped_char(c));
    }
    assert(text@.take(text@.len() as int) =~= text@);
    push_char(out, '"');
    assert(out@ =~= old(out)@ + json_string(text@));
}

/// Appends the messages as a JSON array of their texts.
fn push_json_messages(out: &mut String, messages: &[(DiagMsg, Style)])
    ensures
        final(out)@ == old(out)@ + json_messages(messages_view(messages@)),
{
    push_char(out, '[');
    let ghost head = out@;
    let ghost items = messages_view(messages@).map_values(
        |m: (Seq<char>, Style)| json_string(m.0),
    );
    let mut i: usize = 0;
    assert(items.take(0) =~= Seq::<Seq<char>>::empty());
    assert(head + comma_separated(items.take(0)) =~= head);
    while i < messages.len()
        invariant
            i <= messages@.len(),
            items == messages_view(messages@).map_values(|m: (Seq<char>, Style)| json_string(m.0)),
            out@ == head + comma_separated(items.take(i as int)),
        decreases messages@.len() - i,
    {
        proof {
            assert(items.take(i + 1) =~= items.take(i as int).push(items[i as int]));
            lemma_comma_separated_push(items.take(i as int), items[i as int]);
        }
        if i > 0 {
            push_char(out, ',');
        }
        push_json_string(out, messages[i].0.as_str());
        assert(out@ =~= head + comma_separated(items.take(i + 1)));
        i += 1;
    }
    assert(items.take(i as int) =~= items);
    push_char(out, ']');
    assert(out@ =~= old(out)@ + json_messages(messages_view(messages@)));
}

/// Looks up the file of a span, and the lines and columns of its ends.
fn locate<'a>(span: Span, map: &'a SourceMap) -> (r: (Option<&'a str>, (u32, u32, u32, u32)))
    ensures
        match r.0 {
            Some(name) => span_file(span, map) == Some(name@),
            None => span_file(span, map) is None,
        },
        (r.1.0 as nat, r.1.1 as nat, r.1.2 as nat, r.1.3 as nat) == span_lines(span, map),
{
    match map.span_to_source(span) {
        Some((index, _, _)) => {
            match map.get_file(index) {
                Some(file) => {
                    match (file.lookup_line_col(span.lo()), file.lookup_line_col(span.hi())) {
                        (Some(start), Some(end)) => (
                            Some(file.name()),
                            (start.0, start.1, end.0, end.1),
                        ),
                        _ => vstd::pervasive::unreached(),
                    }
                },
                None => vstd::pervasive::unreached(),
            }
        },
        None => (None, (0, 0, 0, 0)),
    }
}

/// Appends a text as a JSON string, or `null` where there is none.
fn push_json_optional(out: &mut String, text: Option<&str>)
    ensures
        final(out)@ == old(out)@ + json_optional(
            match text {
                Some(text) => Some(text@),
                None => None,
            },
        ),
{
    match text {
        Some(text) => {
            push_json_string(out, text);
        },
        None => {
            out.append("null");
        },
    }
}

/// Appends the two positions of a span as fields of a JSON object.
fn push_json_positions(out: &mut String, span: Span)
    ensures
        final(out)@ == old(out)@ + json_positions(span),
{
    out.append(",\"lo\":");
    push_decimal(out, span.lo().0);
    out.append(",\"hi\":");
    push_decimal(out, span.hi().0);
    assert(out@ =~= old(out)@ + json_positions(span));
}

/// Appends lines and columns as fields of a JSON object.
fn push_json_lines(out: &mut String, lines: (u32, u32, u32, u32))
    ensures
        final(out)@ == old(out)@ + json_lines(
            (lines.0 as nat, lines.1 as nat, lines.2 as nat, lines.3 as nat),
        ),
{
    out.append(",\"line_start\":");
    push_decimal(out, lines.0);
    out.append(",\"col_start\":");
    push_decimal(out, lines.1);
    out.append(",\"line_end\":");
    push_decimal(out, lines.2);
    out.append(",\"col_end\":");
    push_decimal(out, lines.3);
    assert(out@ =~= old(out)@ + json_lines(
        (lines.0 as nat, lines.1 as nat, lines.2 as nat, lines.3 as nat),
    ));
}

/// Appends a span as a JSON object.
fn push_json_span(out: &mut String, span: Span, label: Option<&str>, map: &SourceMap)
    ensures
        final(out)@ == old(out)@ + json_span(
            span,
            match label {
                Some(text) => Some(text@),
                None => None,
            },
            map,
        ),
{
    let (file, lines) = locate(span, map);
    out.append("{\"file\":");
    push_json_optional(out, file);
    push_json_positions(out, span);
    push_json_lines(out, lines);
    out.append(",\"label\":");
    push_json_optional(out, label);
    out.append("}");
    assert(out@ =~= old(out)@ + json_span(
        span,
        match label {
            Some(text) => Some(text@),
            None => None,
        },
        map,
    ));
}

/// Appends the spans of a diagnostic as a JSON array.
fn push_json_spans(out: &mut String, spans: &MultiSpan, map: &SourceMap)
    ensures
        final(out)@ == old(out)@ + json_array(span_items(spans@, map)),
{
    push_char(out, '[');
    let ghost head = out@;
    let ghost items = span_items(spans@, map);
    let primary = spans.primary_spans();
    let mut i: usize = 0;
    assert(items.take(0) =~= Seq::<Seq<char>>::empty());
    assert(head + comma_separated(items.take(0)) =~= head);
    while i < primary.len()
        invariant
            i <= primary@.len(),
            primary@ == spans@.primary_spans,
            items == span_items(spans@, map),
            out@ == head + comma_separated(items.take(i as int)),
        decreases primary@.len() - i,
    {
        proof {
            assert(items[i as int] == json_span(primary@[i as int], None, map));
            assert(items.take(i + 1) =~= items.take(i as int).push(items[i as int]));
            lemma_comma_separated_push(items.take(i as int), items[i as int]);
        }
        if i > 0 {
            push_char(out, ',');
        }
        push_json_span(out, primary[i], None, map);
        assert(out@ =~= head + comma_separated(items.take(i + 1)));
        i += 1;
    }
    let count = primary.len();
    let mut k: usize = 0;
    while k < spans.span_label_count()
        invariant
            k <= spans@.span_labels.len(),
            count == spans@.primary_spans.len(),
            items == span_items(spans@, map),
            out@ == head + comma_separated(items.take(count + k)),
        decreases spans@.span_labels.len() - k,
    {
        let (span, label) = spans.span_label(k);
        proof {
            assert(items[count + k] == json_span(span, Some(label@), map));
            assert(items.take(count + k + 1) =~= items.take(count + k).push(items[count + k]));
            lemma_comma_separated_push(items.take(count + k), items[count + k]);
        }
        if count > 0 || k > 0 {
            push_char(out, ',');
        }
        push_json_span(out, span, Some(label.as_str()), map);
        assert(out@ =~= head + comma_separated(items.take(count + k + 1)));
        k += 1;
    }
    assert(items.take(count + k) =~= items);
    push_char(out, ']');
    assert(out@ =~= old(out)@ + json_array(span_items(spans@, map)));
}

/// The level as the JSON object names it.
fn level_name(level: Level) -> (name: &'static str)
    ensures
        name@ == level.spec_to_str(),
{
    proof {
        reveal_strlit("");
    }
    let name = match level {
        Level::Allow => "",
        _ => level.to_str(),
    };
    assert(name@ =~= level.spec_to_str());
    name
}

/// Appends a sub-diagnostic as a JSON object.
fn push_json_child(out: &mut String, child: &SubDiagnostic, map: &SourceMap)
    ensures
        final(out)@ == old(out)@ + json_child(child@, map),
{
    out.append("{\"level\":");
    push_json_string(out, level_name(child.level));
    out.append(",\"messages\":");
    push_json_messages(out, child.messages.as_slice());
    out.append(",\"spans\":");
    push_json_spans(out, &child.span, map);
    out.append("}");
    assert(out@ =~= old(out)@ + json_child(child@, map));
}

/// Renders a diagnostic as a JSON object on a line of its own.
pub fn render_json(diag: &Diag, map: &SourceMap) -> (text: String)
    ensures
        text@ == json_rendered(diag@, map),
{
    let mut out = String::new();
    out.append("{\"level\":");
    push_json_string(&mut out, level_name(diag.level));
    out.append(",\"code\":");
    match &diag.code {
        Some(code) => {
            let id = code.as_string();
            push_json_string(&mut out, id.as_str());
        },
        None => {
            out.append("null");
        },
    }
    out.append(",\"messages\":");
    push_json_messages(&mut out, diag.messages.as_slice());
    out.append(",\"spans\":");
    push_json_spans(&mut out, &diag.span, map);
    out.append(",\"children\":");
    push_char(&mut out, '[');
    let ghost head = out@;
    let ghost items = diag@.children.map_values(|c: SubDiagnosticView| json_child(c, map));
    let mut i: usize = 0;
    assert(items.take(0) =~= Seq::<Seq<char>>::empty());
    assert(head + comma_separated(items.take(0)) =~= head);
    while i < diag.children.len()
        invariant
            i <= diag.children@.len(),
            items == diag@.children.map_values(|c: SubDiagnosticView| json_child(c, map)),
            out@ == head + comma_separated(items.take(i as int)),
        decreases diag.children@.len() - i,
    {
        proof {
            assert(items[i as int] == json_child(diag.children@[i as int]@, map));
            assert(items.take(i + 1) =~= items.take(i as int).push(items[i as int]));
            lemma_comma_separated_push(items.take(i as int), items[i as int]);
        }
        if i > 0 {
            push_char(&mut out, ',');
        }
        push_json_child(&mut out, &diag.children[i], map);
        assert(out@ =~= head + comma_separated(items.take(i + 1)));
        i += 1;
    }
    assert(items.take(i as int) =~= items);
    push_char(&mut out, ']');
    out.append("}\n");
    assert(out@ =~= json_rendered(diag@, map));
    out
}

} // verus!
