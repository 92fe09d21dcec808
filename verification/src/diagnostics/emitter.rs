//! Emitters: what turns a diagnostic into text, and where the text goes.
//!
//! A diagnostic is rendered as a header line, `<level>[<code>]: <message>`;
//! for its primary span a line `  --> <file>:<line>:<col>`, the source line
//! on which the span starts and a line of carets under what the span covers
//! of it; for each labelled span its source line and a line of dashes with
//! the label; a line `  = <level>: <message>` for each sub-diagnostic; and an
//! empty line.

use vstd::prelude::*;
use vstd::string::StringExecFns;
use crate::diagnostics::color::{paint, painted, ColorSpec};
use crate::diagnostics::{children_view, flat_messages, Diag, DiagView, Level, SubDiagnosticView};
use crate::diagnostics::message::MultiSpanView;
use crate::source_map::{Snippet, SnippetView, SourceMap};
use crate::span::Span;

verus! {

/// Whether and when to paint the output.
#[derive(Clone, Copy, Debug, PartialEq, Eq, Structural)]
pub enum ColorChoice {
    /// Paint if the output is a terminal.
    Auto,
    /// Always paint.
    Always,
    /// Never paint.
    Never,
}

/// The level as a line names it, painted in the bold colour of the level if
/// asked for.
pub open spec fn level_label(level: Level, color: bool) -> Seq<char> {
    if color {
        painted(ColorSpec { fg: level.spec_color(), bold: true }, level.spec_to_str())
    } else {
        level.spec_to_str()
    }
}

/// The code in brackets, if there is one.
pub open spec fn code_label(code: Option<Seq<char>>) -> Seq<char> {
    match code {
        Some(text) => "["@ + text + "]"@,
        None => Seq::empty(),
    }
}

/// The header line of a diagnostic: `<level>[<code>]: <message>`.
pub open spec fn header_line(diag: DiagView, color: bool) -> Seq<char> {
    level_label(diag.level, color) + code_label(diag.code) + ": "@ + flat_messages(
        diag.messages,
        color,
        diag.level,
    ) + "\n"@
}

/// The same character `n` times.
pub open spec fn repeated(c: char, n: nat) -> Seq<char> {
    Seq::new(n, |i: int| c)
}

/// How many marks stand under a span that covers `width` bytes of a line: one
/// for each byte, and one for an empty span.
pub open spec fn marks(width: nat) -> nat {
    if width == 0 {
        1
    } else {
        width
    }
}

/// The source line of a span, and under it a line of marks where the span
/// stands, without the line break behind the marks.
pub open spec fn underlined(snippet: SnippetView, mark: char) -> Seq<char> {
    "   | "@ + snippet.line + "\n"@ + "   | "@ + repeated(' ', (snippet.col - 1) as nat)
        + repeated(mark, marks(snippet.width))
}

/// What is shown of the primary span, if it is found in the source map: the
/// line that names its place, its source line, and carets under it.
pub open spec fn location_block(place: Option<SnippetView>) -> Seq<char> {
    match place {
        Some(snippet) => "  --> "@ + snippet.location + "\n"@ + underlined(snippet, '^') + "\n"@,
        None => Seq::empty(),
    }
}

/// What is shown of a labelled span: its source line, and dashes under it
/// with the label behind them; the label alone where the span is not found in
/// the source map.
pub open spec fn label_block(place: Option<SnippetView>, label: Seq<char>) -> Seq<char> {
    match place {
        Some(snippet) => underlined(snippet, '-') + " "@ + label + "\n"@,
        None => "   = "@ + label + "\n"@,
    }
}

/// What is shown of the labelled spans, in their order.
pub open spec fn labels_block(labels: Seq<(Span, Seq<char>)>, map: &SourceMap) -> Seq<char>
    decreases labels.len(),
{
    if labels.len() == 0 {
        Seq::empty()
    } else {
        labels_block(labels.drop_last(), map) + label_block(
            map.spec_snippet(labels.last().0),
            labels.last().1,
        )
    }
}

/// The line of a sub-diagnostic: `  = <level>: <message>`.
pub open spec fn child_line(child: SubDiagnosticView, color: bool) -> Seq<char> {
    "  = "@ + level_label(child.level, color) + ": "@ + flat_messages(
        child.messages,
        color,
        child.level,
    ) + "\n"@
}

/// The lines of the sub-diagnostics, in their order.
pub open spec fn children_lines(children: Seq<SubDiagnosticView>, color: bool) -> Seq<char>
    decreases children.len(),
{
    if children.len() == 0 {
        Seq::empty()
    } else {
        children_lines(children.drop_last(), color) + child_line(children.last(), color)
    }
}

/// The rendered form of a diagnostic, with what the source map shows of its
/// spans.
pub open spec fn rendered(diag: DiagView, map: &SourceMap, color: bool) -> Seq<char> {
    header_line(diag, color) + location_block(place_of(diag.span, map)) + labels_block(
        diag.span.span_labels,
        map,
    ) + children_lines(diag.children, color) + "\n"@
}

/// What is shown of the primary span of a diagnostic: of the first one,
/// unless it has none, or only the dummy span, or one that lies in no file.
pub open spec fn place_of(spans: MultiSpanView, map: &SourceMap) -> Option<SnippetView> {
    if spans.primary_spans.len() > 0 && spans.primary_spans[0] != Span::spec_dummy() {
        map.spec_snippet(spans.primary_spans[0])
    } else {
        None
    }
}

/// Appends a text `n` times.
fn push_repeated(out: &mut String, text: &str, n: u32, Ghost(c): Ghost<char>)
    requires
        text@ == seq![c],
    ensures
        final(out)@ == old(out)@ + repeated(c, n as nat),
{
    let mut i: u32 = 0;
    assert(out@ =~= old(out)@ + repeated(c, 0));
    while i < n
        invariant
            i <= n,
            text@ == seq![c],
            out@ == old(out)@ + repeated(c, i as nat),
        decreases n - i,
    {
        out.append(text);
        assert(out@ =~= old(out)@ + repeated(c, (i + 1) as nat));
        i += 1;
    }
}

/// Appends the source line of a span and a line of marks under it.
fn push_underlined(out: &mut String, snippet: &Snippet, mark: &str, Ghost(c): Ghost<char>)
    requires
        mark@ == seq![c],
        snippet.col >= 1,
    ensures
        final(out)@ == old(out)@ + underlined(snippet@, c),
{
    proof {
        reveal_strlit(" ");
        assert(" "@ =~= seq![' ']);
    }
    out.append("   | ");
    out.append(snippet.line.as_str());
    out.append("\n");
    out.append("   | ");
    push_repeated(out, " ", snippet.col - 1, Ghost(' '));
    let width = if snippet.width == 0 {
        1
    } else {
        snippet.width
    };
    push_repeated(out, mark, width, Ghost(c));
    assert(out@ =~= old(out)@ + underlined(snippet@, c));
}

/// Appends the level as a line names it.
fn push_level(out: &mut String, level: Level, color: bool)
    ensures
        final(out)@ == old(out)@ + level_label(level, color),
{
    let text = match level {
        Level::Allow => "",
        _ => level.to_str(),
    };
    proof {
        reveal_strlit("");
    }
    assert(text@ =~= level.spec_to_str());
    if color {
        let label = paint(level.style(), text);
        out.append(label.as_str());
    } else {
        out.append(text);
    }
}

/// Renders a diagnostic for a human reader.
pub fn render_diagnostic(diag: &Diag, map: &SourceMap, color: bool) -> (text: String)
    ensures
        text@ == rendered(diag@, map, color),
{
    let mut out = String::new();
    push_level(&mut out, diag.level, color);
    match &diag.code {
        Some(code) => {
            out.append("[");
            let id = code.as_string();
            out.append(id.as_str());
            out.append("]");
        },
        None => {},
    }
    out.append(": ");
    let message = diag.label_with_style(color);
    out.append(message.as_str());
    out.append("\n");
    assert(out@ =~= header_line(diag@, color));
    match diag.span.primary_span() {
        Some(primary) => {
            if !primary.is_dummy() {
                match map.span_to_lines(primary) {
                    Some(snippet) => {
                        proof {
                            reveal_strlit("^");
                            assert("^"@ =~= seq!['^']);
                            map.lemma_snippet_col(primary);
                        }
                        out.append("  --> ");
                        out.append(snippet.location.as_str());
                        out.append("\n");
                        push_underlined(&mut out, &snippet, "^", Ghost('^'));
                        out.append("\n");
                    },
                    None => {},
                }
            }
        },
        None => {},
    }
    assert(out@ =~= header_line(diag@, color) + location_block(place_of(diag@.span, map)));
    let ghost head = out@;
    let ghost labels = diag@.span.span_labels;
    let mut k: usize = 0;
    assert(labels.take(0) =~= Seq::<(Span, Seq<char>)>::empty());
    assert(head + labels_block(labels.take(0), map) =~= head);
    while k < diag.span.span_label_count()
        invariant
            k <= labels.len(),
            labels == diag@.span.span_labels,
            out@ == head + labels_block(labels.take(k as int), map),
        decreases labels.len() - k,
    {
        let (span, label) = diag.span.span_label(k);
        let ghost before = out@;
        proof {
            assert(labels.take(k + 1).drop_last() =~= labels.take(k as int));
            assert(labels.take(k + 1).last() == labels[k as int]);
        }
        match map.span_to_lines(span) {
            Some(snippet) => {
                proof {
                    reveal_strlit("-");
                    assert("-"@ =~= seq!['-']);
                    map.lemma_snippet_col(span);
                }
                push_underlined(&mut out, &snippet, "-", Ghost('-'));
                out.append(" ");
            },
            None => {
                out.append("   = ");
            },
        }
        out.append(label.as_str());
        out.append("\n");
        assert(out@ =~= before + label_block(map.spec_snippet(span), label@));
        k += 1;
    }
    assert(labels.take(k as int) =~= labels);
    let ghost head = out@;
    let ghost children = diag@.children;
    let mut i: usize = 0;
    assert(children.take(0) =~= Seq::<SubDiagnosticView>::empty());
    assert(head + children_lines(children.take(0), color) =~= head);
    while i < diag.children.len()
        invariant
            i <= diag.children@.len(),
            children == children_view(diag.children@),
            out@ == head + children_lines(children.take(i as int), color),
        decreases diag.children@.len() - i,
    {
        let child = &diag.children[i];
        let ghost before = out@;
        proof {
            assert(children.take(i + 1).drop_last() =~= children.take(i as int));
            assert(children.take(i + 1).last() == child@);
        }
        out.append("  = ");
        push_level(&mut out, child.level, color);
        out.append(": ");
        let label = child.label_with_style(color);
        out.append(label.as_str());
        out.append("\n");
        assert(out@ =~= before + child_line(child@, color));
        assert(out@ =~= head + children_lines(children.take(i + 1), color));
        i += 1;
    }
    assert(children.take(i as int) =~= children);
    out.append("\n");
    assert(out@ =~= rendered(diag@, map, color));
    out
}

/// An emitter of diagnostics for human readers that keeps what it renders
/// in a buffer.
#[derive(Debug)]
pub struct HumanBufferEmitter {
    color: bool,
    buffer: String,
}

impl HumanBufferEmitter {
    /// The text rendered so far.
    pub closed spec fn output(&self) -> Seq<char> {
        self.buffer@
    }

    /// Whether the emitter paints.
    pub closed spec fn paints(&self) -> bool {
        self.color
    }

    /// A new emitter with an empty buffer. It paints only if always asked to.
    pub fn new(color_choice: ColorChoice) -> (emitter: Self)
        ensures
            emitter.output().len() == 0,
            emitter.paints() == (color_choice == ColorChoice::Always),
    {
        let color = match color_choice {
            ColorChoice::Always => true,
            _ => false,
        };
        HumanBufferEmitter { color, buffer: String::new() }
    }

    /// Whether the emitter paints.
    pub fn supports_color(&self) -> (r: bool)
        ensures
            r == self.paints(),
    {
        self.color
    }

    /// Renders one diagnostic, behind what was rendered before.
    pub fn emit_diagnostic(&mut self, diag: &Diag, map: &SourceMap)
        ensures
            final(self).paints() == old(self).paints(),
            final(self).output() == old(self).output() + rendered(diag@, map, old(self).paints()),
    {
        let text = render_diagnostic(diag, map, self.color);
        self.buffer.append(text.as_str());
    }

    /// The text rendered so far.
    pub fn buffer(&self) -> (text: &str)
        ensures
            text@ == self.output(),
    {
        self.buffer.as_str()
    }
}

/// An emitter that renders nothing. It may carry a note for fatal
/// diagnostics.
#[derive(Debug)]
pub struct SilentEmitter {
    fatal_note: Option<String>,
}

/// The note of a silent emitter, as text.
pub open spec fn note_view(note: Option<String>) -> Option<Seq<char>> {
    match note {
        Some(text) => Some(text@),
        None => None,
    }
}

impl SilentEmitter {
    /// The note that is attached to fatal diagnostics.
    pub closed spec fn note(&self) -> Option<Seq<char>> {
        note_view(self.fatal_note)
    }

    /// A new silent emitter.
    pub fn new(fatal_note: Option<String>) -> (emitter: Self)
        ensures
            emitter.note() == note_view(fatal_note),
    {
        SilentEmitter { fatal_note }
    }

    /// Takes in one diagnostic. Nothing is rendered. A fatal diagnostic is
    /// handed back to be passed on, with the note of the emitter attached if it
    /// has one; any other diagnostic is dropped.
    pub fn emit_diagnostic(&self, diag: &Diag) -> (passed_on: Option<Diag>)
        ensures
            passed_on is Some <==> diag@.level == Level::Fatal,
            passed_on matches Some(fatal) ==> fatal@ == match self.note() {
                Some(note) => DiagView {
                    children: diag@.children.push(
                        crate::diagnostics::plain_sub(
                            Level::Note,
                            note,
                            crate::diagnostics::message::no_spans(),
                        ),
                    ),
                    ..diag@
                },
                None => diag@,
            },
    {
        match diag.level {
            Level::Fatal => {
                let mut fatal = diag.clone();
                match &self.fatal_note {
                    Some(note) => {
                        fatal.note(note.as_str());
                    },
                    None => {},
                }
                Some(fatal)
            },
            _ => None,
        }
    }
}

} // verus!
