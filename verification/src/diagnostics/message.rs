//! Messages and the spans they are attached to.

use vstd::prelude::*;
use vstd::std_specs::cmp::PartialEqSpecImpl;
use vstd::string::StringExecFns;
use crate::span::Span;

verus! {

/// The text of a diagnostic message.
#[derive(Debug, Hash)]
pub struct DiagMsg {
    inner: String,
}

impl View for DiagMsg {
    type V = Seq<char>;

    closed spec fn view(&self) -> Seq<char> {
        self.inner@
    }
}

impl Clone for DiagMsg {
    fn clone(&self) -> (copy: Self)
        ensures
            copy@ == self@,
    {
        DiagMsg { inner: self.inner.clone() }
    }
}

impl PartialEq for DiagMsg {
    fn eq(&self, other: &Self) -> (r: bool) {
        self.inner == other.inner
    }
}

impl Eq for DiagMsg {

}

impl PartialEqSpecImpl for DiagMsg {
    open spec fn obeys_eq_spec() -> bool {
        true
    }

    open spec fn eq_spec(&self, other: &Self) -> bool {
        self@ == other@
    }
}

impl DiagMsg {
    /// The message with the given text.
    pub fn new(text: &str) -> (msg: Self)
        ensures
            msg@ == text@,
    {
        DiagMsg { inner: String::from_str(text) }
    }

    /// The message that owns the given text.
    pub fn from_string(text: String) -> (msg: Self)
        ensures
            msg@ == text@,
    {
        DiagMsg { inner: text }
    }

    /// The text of the message.
    pub fn as_str(&self) -> (text: &str)
        ensures
            text@ == self@,
    {
        self.inner.as_str()
    }
}

/// What a [`MultiSpan`] holds: its primary spans, and its labelled spans
/// with the texts of their labels.
pub struct MultiSpanView {
    pub primary_spans: Seq<Span>,
    pub span_labels: Seq<(Span, Seq<char>)>,
}

/// The span collection without spans.
pub open spec fn no_spans() -> MultiSpanView {
    MultiSpanView { primary_spans: Seq::empty(), span_labels: Seq::empty() }
}

/// The labelled spans with the texts of their labels.
pub open spec fn labels_view(labels: Seq<(Span, DiagMsg)>) -> Seq<(Span, Seq<char>)> {
    labels.map_values(|l: (Span, DiagMsg)| (l.0, l.1@))
}

/// A collection of spans: the primary ones, where the diagnostic points,
/// and others with a label each, in the order in which they were attached.
#[derive(Debug, Hash)]
pub struct MultiSpan {
    primary_spans: Vec<Span>,
    span_labels: Vec<(Span, DiagMsg)>,
}

impl View for MultiSpan {
    type V = MultiSpanView;

    closed spec fn view(&self) -> MultiSpanView {
        MultiSpanView {
            primary_spans: self.primary_spans@,
            span_labels: labels_view(self.span_labels@),
        }
    }
}

impl Clone for MultiSpan {
    fn clone(&self) -> (copy: Self)
        ensures
            copy@ == self@,
    {
        let mut primary_spans: Vec<Span> = Vec::new();
        let mut i: usize = 0;
        while i < self.primary_spans.len()
            invariant
                i <= self.primary_spans@.len(),
                primary_spans@ == self.primary_spans@.take(i as int),
            decreases self.primary_spans@.len() - i,
        {
            primary_spans.push(self.primary_spans[i]);
            assert(primary_spans@ =~= self.primary_spans@.take(i + 1));
            i += 1;
        }
        assert(self.primary_spans@.take(i as int) =~= self.primary_spans@);
        let mut span_labels: Vec<(Span, DiagMsg)> = Vec::new();
        let mut j: usize = 0;
        while j < self.span_labels.len()
            invariant
                j <= self.span_labels@.len(),
                labels_view(span_labels@) == labels_view(self.span_labels@).take(j as int),
            decreases self.span_labels@.len() - j,
        {
            let ghost before = span_labels@;
            let label = self.span_labels[j].1.clone();
            span_labels.push((self.span_labels[j].0, label));
            assert(labels_view(span_labels@) =~= labels_view(before).push(
                (self.span_labels@[j as int].0, self.span_labels@[j as int].1@),
            ));
            assert(labels_view(self.span_labels@).take(j + 1) =~= labels_view(
                self.span_labels@,
            ).take(j as int).push(labels_view(self.span_labels@)[j as int]));
            j += 1;
        }
        assert(labels_view(self.span_labels@).take(j as int) =~= labels_view(self.span_labels@));
        MultiSpan { primary_spans, span_labels }
    }
}

impl PartialEq for MultiSpan {
    fn eq(&self, other: &Self) -> (r: bool) {
        if self.primary_spans.len() != other.primary_spans.len() || self.span_labels.len()
            != other.span_labels.len() {
            assert(self@.primary_spans.len() == self.primary_spans@.len());
            assert(self@.span_labels.len() == self.span_labels@.len());
            return false;
        }
        let mut i: usize = 0;
        while i < self.primary_spans.len()
            invariant
                i <= self.primary_spans@.len() == other.primary_spans@.len(),
                forall|k: int| 0 <= k < i ==> self.primary_spans@[k] == other.primary_spans@[k],
            decreases self.primary_spans@.len() - i,
        {
            if !self.primary_spans[i].is_empty(other.primary_spans[i]) {
                return false;
            }
            i += 1;
        }
        assert(self.primary_spans@ =~= other.primary_spans@);
        let mut j: usize = 0;
        while j < self.span_labels.len()
            invariant
                j <= self.span_labels@.len() == other.span_labels@.len(),
                forall|k: int|
                    0 <= k < j ==> labels_view(self.span_labels@)[k] == labels_view(
                        other.span_labels@,
                    )[k],
            decreases self.span_labels@.len() - j,
        {
            if !self.span_labels[j].0.is_empty(other.span_labels[j].0) || self.span_labels[j].1
                != other.span_labels[j].1 {
                assert(labels_view(self.span_labels@)[j as int] != labels_view(
                    other.span_labels@,
                )[j as int]);
                return false;
            }
            j += 1;
        }
        assert(labels_view(self.span_labels@) =~= labels_view(other.span_labels@));
        true
    }
}

impl PartialEqSpecImpl for MultiSpan {
    open spec fn obeys_eq_spec() -> bool {
        true
    }

    open spec fn eq_spec(&self, other: &Self) -> bool {
        self@ == other@
    }
}

impl MultiSpan {
    /// A collection without spans.
    pub fn new() -> (spans: Self)
        ensures
            spans@ == no_spans(),
    {
        let spans = MultiSpan { primary_spans: Vec::new(), span_labels: Vec::new() };
        assert(spans@.primary_spans =~= Seq::empty());
        assert(spans@.span_labels =~= Seq::empty());
        spans
    }

    /// A collection with one primary span.
    pub fn from_span(primary_span: Span) -> (spans: Self)
        ensures
            spans@ == (MultiSpanView {
                primary_spans: seq![primary_span],
                span_labels: Seq::empty(),
            }),
    {
        let mut primary_spans = Vec::new();
        primary_spans.push(primary_span);
        let spans = MultiSpan { primary_spans, span_labels: Vec::new() };
        assert(spans@.primary_spans =~= seq![primary_span]);
        assert(spans@.span_labels =~= Seq::empty());
        spans
    }

    /// A collection with the given primary spans.
    pub fn from_spans(primary_spans: Vec<Span>) -> (spans: Self)
        ensures
            spans@ == (MultiSpanView {
                primary_spans: primary_spans@,
                span_labels: Seq::empty(),
            }),
    {
        let spans = MultiSpan { primary_spans, span_labels: Vec::new() };
        assert(spans@.span_labels =~= Seq::empty());
        spans
    }

    /// Attaches a span with a label, after those attached before.
    pub fn push_span_label(&mut self, span: Span, label: DiagMsg)
        ensures
            final(self)@.primary_spans == old(self)@.primary_spans,
            final(self)@.span_labels == old(self)@.span_labels.push((span, label@)),
    {
        self.span_labels.push((span, label));
        assert(labels_view(self.span_labels@) =~= labels_view(old(self).span_labels@).push(
            (span, label@),
        ));
    }

    /// The first primary span, if there is one.
    pub fn primary_span(&self) -> (span: Option<Span>)
        ensures
            span == if self@.primary_spans.len() > 0 {
                Some(self@.primary_spans[0])
            } else {
                None
            },
    {
        if self.primary_spans.len() > 0 {
            Some(self.primary_spans[0])
        } else {
            None
        }
    }

    /// The primary spans.
    pub fn primary_spans(&self) -> (spans: &[Span])
        ensures
            spans@ == self@.primary_spans,
    {
        self.primary_spans.as_slice()
    }

    /// How many labelled spans are attached.
    pub fn span_label_count(&self) -> (n: usize)
        ensures
            n == self@.span_labels.len(),
    {
        self.span_labels.len()
    }

    /// The labelled span at the given place, with its label.
    pub fn span_label(&self, index: usize) -> (label: (Span, &DiagMsg))
        requires
            index < self@.span_labels.len(),
        ensures
            label.0 == self@.span_labels[index as int].0,
            label.1@ == self@.span_labels[index as int].1,
    {
        (self.span_labels[index].0, &self.span_labels[index].1)
    }

    /// Whether the collection holds no span at all.
    pub fn is_empty(&self) -> (r: bool)
        ensures
            r == (self@.primary_spans.len() == 0 && self@.span_labels.len() == 0),
    {
        self.primary_spans.len() == 0 && self.span_labels.len() == 0
    }
}

} // verus!
