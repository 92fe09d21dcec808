//! The builder of a diagnostic: a diagnostic on its way to a context.
//!
//! A builder is made to be consumed: by [`DiagBuilder::emit`], which hands
//! the diagnostic to a context, or by [`DiagBuilder::cancel`], which throws it
//! away. Every operation on the way returns the builder.

use vstd::prelude::*;
use crate::diagnostics::context::{DiagCtxt, Emission};
use crate::diagnostics::message::{no_spans, MultiSpan, MultiSpanView};
use crate::diagnostics::{
    plain_sub, str_messages_view, Diag, DiagId, DiagView, Level, Style, SubDiagnosticView,
};
use crate::span::Span;

verus! {

/// What the emission of a diagnostic of a level is answered by.
#[derive(Clone, Copy, Debug, PartialEq, Eq, Structural)]
pub enum EmissionGuarantee {
    /// The compiler ends with an internal error.
    BugAbort,
    /// The current task is given up.
    FatalAbort,
    /// The error is reported, and the caller holds the token for it.
    ErrorGuaranteed,
    /// Nothing.
    Nothing,
}

impl Level {
    /// What the emission of a diagnostic of this level is answered by.
    pub fn guarantee(self) -> (g: EmissionGuarantee)
        ensures
            g == match self {
                Level::Bug => EmissionGuarantee::BugAbort,
                Level::Fatal => EmissionGuarantee::FatalAbort,
                Level::Error => EmissionGuarantee::ErrorGuaranteed,
                _ => EmissionGuarantee::Nothing,
            },
    {
        match self {
            Level::Bug => EmissionGuarantee::BugAbort,
            Level::Fatal => EmissionGuarantee::FatalAbort,
            Level::Error => EmissionGuarantee::ErrorGuaranteed,
            _ => EmissionGuarantee::Nothing,
        }
    }
}

/// The diagnostic with one more sub-diagnostic.
pub open spec fn with_child(diag: DiagView, child: SubDiagnosticView) -> DiagView {
    DiagView { children: diag.children.push(child), ..diag }
}

/// A diagnostic that is being built.
#[must_use]
#[derive(Debug)]
pub struct DiagBuilder {
    diag: Diag,
}

impl View for DiagBuilder {
    type V = DiagView;

    closed spec fn view(&self) -> DiagView {
        self.diag@
    }
}

impl DiagBuilder {
    /// Starts a diagnostic of the given level with one message.
    pub fn new(level: Level, msg: &str) -> (builder: Self)
        ensures
            builder@ == (DiagView {
                level,
                messages: seq![(msg@, Style::NoStyle)],
                span: no_spans(),
                children: Seq::empty(),
                code: None,
            }),
    {
        DiagBuilder { diag: Diag::new(level, msg) }
    }

    /// Goes on with a diagnostic that exists.
    pub fn from_diag(diag: Diag) -> (builder: Self)
        ensures
            builder@ == diag@,
    {
        DiagBuilder { diag }
    }

    /// The diagnostic as it stands.
    pub fn diag(&self) -> (diag: &Diag)
        ensures
            diag@ == self@,
    {
        &self.diag
    }

    /// Hands the diagnostic to the context, which takes it in as
    /// [`DiagCtxt::emit_diagnostic`] says.
    pub fn emit(self, dcx: &mut DiagCtxt) -> (emission: Emission)
        requires
            old(dcx).wf(),
        ensures
            final(dcx).wf(),
            final(dcx).spec_flags() == old(dcx).spec_flags(),
            final(dcx).spec_source_map() == old(dcx).spec_source_map(),
            DiagCtxt::took_in(old(dcx), final(dcx), self@, emission),
    {
        dcx.emit_diagnostic(self.diag)
    }

    /// Throws the diagnostic away: nothing is emitted.
    pub fn cancel(self) -> (diag: Diag)
        ensures
            diag@ == self@,
    {
        self.diag
    }

    /// Sets the span of this diagnostic.
    pub fn span(self, span: MultiSpan) -> (builder: Self)
        ensures
            builder@ == (DiagView { span: span@, ..self@ }),
    {
        let mut diag = self.diag;
        diag.span(span);
        DiagBuilder { diag }
    }

    /// Sets the code of this diagnostic.
    pub fn code(self, code: DiagId) -> (builder: Self)
        ensures
            builder@ == (DiagView { code: Some(code@), ..self@ }),
    {
        let mut diag = self.diag;
        diag.code(code);
        DiagBuilder { diag }
    }

    /// Adds a span with a label. The span is not a primary span.
    pub fn span_label(self, span: Span, label: &str) -> (builder: Self)
        ensures
            builder@ == (DiagView {
                span: MultiSpanView {
                    primary_spans: self@.span.primary_spans,
                    span_labels: self@.span.span_labels.push((span, label@)),
                },
                ..self@
            }),
    {
        let mut diag = self.diag;
        diag.span_label(span, label);
        DiagBuilder { diag }
    }

    /// Add a warning attached to this diagnostic.
    pub fn warn(self, msg: &str) -> (builder: Self)
        ensures
            builder@ == (with_child(self@, plain_sub(Level::Warning, msg@, no_spans()))),
    {
        let mut diag = self.diag;
        diag.warn(msg);
        DiagBuilder { diag }
    }

    /// Add a warning with a span of its own.
    pub fn span_warn(self, span: MultiSpan, msg: &str) -> (builder: Self)
        ensures
            builder@ == (with_child(self@, plain_sub(Level::Warning, msg@, span@))),
    {
        let mut diag = self.diag;
        diag.span_warn(span, msg);
        DiagBuilder { diag }
    }

    /// Add a note to this diagnostic.
    pub fn note(self, msg: &str) -> (builder: Self)
        ensures
            builder@ == (with_child(self@, plain_sub(Level::Note, msg@, no_spans()))),
    {
        let mut diag = self.diag;
        diag.note(msg);
        DiagBuilder { diag }
    }

    /// Add a note with a span of its own.
    pub fn span_note(self, span: MultiSpan, msg: &str) -> (builder: Self)
        ensures
            builder@ == (with_child(self@, plain_sub(Level::Note, msg@, span@))),
    {
        let mut diag = self.diag;
        diag.span_note(span, msg);
        DiagBuilder { diag }
    }

    /// Add a note that is shown once only.
    pub fn note_once(self, msg: &str) -> (builder: Self)
        ensures
            builder@ == (with_child(self@, plain_sub(Level::OnceNote, msg@, no_spans()))),
    {
        let mut diag = self.diag;
        diag.note_once(msg);
        DiagBuilder { diag }
    }

    /// Add a note that is shown once only, with a span of its own.
    pub fn span_note_once(self, span: MultiSpan, msg: &str) -> (builder: Self)
        ensures
            builder@ == (with_child(self@, plain_sub(Level::OnceNote, msg@, span@))),
    {
        let mut diag = self.diag;
        diag.span_note_once(span, msg);
        DiagBuilder { diag }
    }

    /// Add a help message attached to this diagnostic.
    pub fn help(self, msg: &str) -> (builder: Self)
        ensures
            builder@ == (with_child(self@, plain_sub(Level::Help, msg@, no_spans()))),
    {
        let mut diag = self.diag;
        diag.help(msg);
        DiagBuilder { diag }
    }

    /// Add a help message that is shown once only.
    pub fn help_once(self, msg: &str) -> (builder: Self)
        ensures
            builder@ == (with_child(self@, plain_sub(Level::OnceHelp, msg@, no_spans()))),
    {
        let mut diag = self.diag;
        diag.help_once(msg);
        DiagBuilder { diag }
    }

    /// Add a help message with a span of its own.
    pub fn span_help(self, span: MultiSpan, msg: &str) -> (builder: Self)
        ensures
            builder@ == (with_child(self@, plain_sub(Level::Help, msg@, span@))),
    {
        let mut diag = self.diag;
        diag.span_help(span, msg);
        DiagBuilder { diag }
    }

    /// Add a note whose messages each have a style of their own.
    pub fn highlighted_note(self, messages: Vec<(&str, Style)>) -> (builder: Self)
        ensures
            builder@ == (with_child(
                self@,
                SubDiagnosticView {
                    level: Level::Note,
                    messages: str_messages_view(messages@),
                    span: no_spans(),
                },
            )),
    {
        let mut diag = self.diag;
        diag.highlighted_note(messages);
        DiagBuilder { diag }
    }

    /// Add a help message whose messages each have a style of their own.
    pub fn highlighted_help(self, msgs: Vec<(&str, Style)>) -> (builder: Self)
        ensures
            builder@ == (with_child(
                self@,
                SubDiagnosticView {
                    level: Level::Help,
                    messages: str_messages_view(msgs@),
                    span: no_spans(),
                },
            )),
    {
        let mut diag = self.diag;
        diag.highlighted_help(msgs);
        DiagBuilder { diag }
    }
}

impl DiagCtxt {
    /// Starts a bug diagnostic.
    pub fn bug(&self, msg: &str) -> (builder: DiagBuilder)
        ensures
            builder@ == DiagBuilder::spec_start(Level::Bug, msg@),
    {
        DiagBuilder::new(Level::Bug, msg)
    }

    /// Starts a fatal diagnostic.
    pub fn fatal(&self, msg: &str) -> (builder: DiagBuilder)
        ensures
            builder@ == DiagBuilder::spec_start(Level::Fatal, msg@),
    {
        DiagBuilder::new(Level::Fatal, msg)
    }

    /// Starts an error diagnostic.
    pub fn err(&self, msg: &str) -> (builder: DiagBuilder)
        ensures
            builder@ == DiagBuilder::spec_start(Level::Error, msg@),
    {
        DiagBuilder::new(Level::Error, msg)
    }

    /// Starts a warning diagnostic.
    pub fn warn(&self, msg: &str) -> (builder: DiagBuilder)
        ensures
            builder@ == DiagBuilder::spec_start(Level::Warning, msg@),
    {
        DiagBuilder::new(Level::Warning, msg)
    }

    /// Starts a note diagnostic.
    pub fn note(&self, msg: &str) -> (builder: DiagBuilder)
        ensures
            builder@ == DiagBuilder::spec_start(Level::Note, msg@),
    {
        DiagBuilder::new(Level::Note, msg)
    }

    /// Starts a help diagnostic.
    pub fn help(&self, msg: &str) -> (builder: DiagBuilder)
        ensures
            builder@ == DiagBuilder::spec_start(Level::Help, msg@),
    {
        DiagBuilder::new(Level::Help, msg)
    }
}

impl DiagBuilder {
    /// The diagnostic of a level with one plain message and nothing else.
    pub open spec fn spec_start(level: Level, msg: Seq<char>) -> DiagView {
        DiagView {
            level,
            messages: seq![(msg, Style::NoStyle)],
            span: no_spans(),
            children: Seq::empty(),
            code: None,
        }
    }
}

} // verus!
