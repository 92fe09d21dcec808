//! Diagnostics: structured messages of the compiler to its user.

pub mod color;
pub mod message;
pub mod emitter;
pub mod json;
pub mod context;
pub mod builder;

use vstd::prelude::*;
use vstd::std_specs::cmp::PartialEqSpecImpl;
use vstd::string::StringExecFns;
use crate::diagnostics::color::{paint, painted, AnsiColor, Color, ColorSpec};
use crate::diagnostics::message::{no_spans, DiagMsg, MultiSpan, MultiSpanView};
use crate::span::Span;

verus! {

/// Represents all the diagnostics emitted up to a certain point, as the text
/// they were rendered to.
#[derive(Debug)]
pub struct EmittedDiagnostics(pub String);

impl EmittedDiagnostics {
    /// Returns `true` if no diagnostics have been emitted.
    pub fn is_empty(&self) -> (r: bool)
        ensures
            r == (self.0@.len() == 0),
    {
        self.0.as_str().is_empty()
    }

    /// The rendered text.
    pub fn as_str(&self) -> (text: &str)
        ensures
            text@ == self.0@,
    {
        self.0.as_str()
    }
}

/// Useful type to use with [`Result`] to indicate that an error has already
/// been reported to the user, so no need to continue checking.
#[derive(Clone, Copy, Debug, PartialEq, Eq, PartialOrd, Ord, Hash)]
pub struct ErrorGuaranteed(());

impl ErrorGuaranteed {
    /// Creates a new `ErrorGuaranteed`.
    ///
    /// Use of this method is discouraged: nothing shows here that an error
    /// was reported.
    pub fn new_unchecked() -> Self {
        Self(())
    }
}

/// Marker for the emission of a bug diagnostic, after which the compiler
/// ends with an internal error.
#[derive(Clone, Copy, Debug, PartialEq, Eq, PartialOrd, Ord, Hash, Structural)]
pub struct BugAbort;

/// Signifies that the compiler died with an explicit call to `.bug` rather
/// than a failed assertion, etc.
#[derive(Clone, Copy, Debug)]
pub struct ExplicitBug;

/// Marker for the emission of a fatal diagnostic, after which the current
/// task is given up.
#[derive(Clone, Copy, Debug)]
pub struct FatalAbort;

/// The character of a decimal digit.
pub open spec fn digit_char(d: int) -> char {
    if d == 0 {
        '0'
    } else if d == 1 {
        '1'
    } else if d == 2 {
        '2'
    } else if d == 3 {
        '3'
    } else if d == 4 {
        '4'
    } else if d == 5 {
        '5'
    } else if d == 6 {
        '6'
    } else if d == 7 {
        '7'
    } else if d == 8 {
        '8'
    } else {
        '9'
    }
}

/// The text of a digit.
pub fn digit_str(d: u32) -> (text: &'static str)
    requires
        d < 10,
    ensures
        text@ == seq![digit_char(d as int)],
{
    proof {
        reveal_strlit("0");
        reveal_strlit("1");
        reveal_strlit("2");
        reveal_strlit("3");
        reveal_strlit("4");
        reveal_strlit("5");
        reveal_strlit("6");
        reveal_strlit("7");
        reveal_strlit("8");
        reveal_strlit("9");
    }
    let text = if d == 0 {
        "0"
    } else if d == 1 {
        "1"
    } else if d == 2 {
        "2"
    } else if d == 3 {
        "3"
    } else if d == 4 {
        "4"
    } else if d == 5 {
        "5"
    } else if d == 6 {
        "6"
    } else if d == 7 {
        "7"
    } else if d == 8 {
        "8"
    } else {
        "9"
    };
    assert(text@ =~= seq![digit_char(d as int)]);
    text
}

/// An error code as it is written: four decimal digits, with leading zeros.
pub open spec fn code_text(id: int) -> Seq<char> {
    seq![
        digit_char(id / 1000 % 10),
        digit_char(id / 100 % 10),
        digit_char(id / 10 % 10),
        digit_char(id % 10),
    ]
}

/// Diag ID: a free-form tag, as lints have, or an error code of four digits.
#[derive(Debug, Hash)]
pub struct DiagId {
    s: String,
}

impl View for DiagId {
    type V = Seq<char>;

    closed spec fn view(&self) -> Seq<char> {
        self.s@
    }
}

impl Clone for DiagId {
    fn clone(&self) -> (copy: Self)
        ensures
            copy@ == self@,
    {
        DiagId { s: self.s.clone() }
    }
}

impl PartialEq for DiagId {
    fn eq(&self, other: &Self) -> (r: bool) {
        self.s == other.s
    }
}

impl Eq for DiagId {

}

impl PartialEqSpecImpl for DiagId {
    open spec fn obeys_eq_spec() -> bool {
        true
    }

    open spec fn eq_spec(&self, other: &Self) -> bool {
        self@ == other@
    }
}

impl DiagId {
    /// Creates a new diagnostic ID from a tag.
    ///
    /// This should be used for custom lints. For solc-like error codes, use
    /// [`DiagId::new_from_macro`].
    pub fn new_str(s: &str) -> (id: Self)
        ensures
            id@ == s@,
    {
        Self { s: String::from_str(s) }
    }

    /// Creates an error code diagnostic ID: the number in four digits.
    pub fn new_from_macro(id: u32) -> (code: Self)
        requires
            1 <= id <= 9999,
        ensures
            code@ == code_text(id as int),
    {
        let mut s = String::new();
        s.append(digit_str(id / 1000 % 10));
        s.append(digit_str(id / 100 % 10));
        s.append(digit_str(id / 10 % 10));
        s.append(digit_str(id % 10));
        assert(s@ =~= code_text(id as int));
        Self { s }
    }

    /// Returns the string representation of the diagnostic ID.
    pub fn as_string(&self) -> (s: String)
        ensures
            s@ == self@,
    {
        self.s.clone()
    }
}

/// Diag level.
#[derive(Clone, Copy, Debug, PartialEq, Eq, PartialOrd, Ord, Hash, Structural)]
pub enum Level {
    /// For bugs in the compiler. Shows as an ICE (internal compiler error).
    ///
    /// Its emission is answered by `BugAbort`.
    Bug,
    /// An error that causes an immediate abort. Used for things like
    /// configuration errors, internal overflows, some file operation errors.
    ///
    /// Its emission is answered by `FatalAbort`.
    Fatal,
    /// An error in the code being compiled, which prevents compilation from
    /// finishing. This is the most common case.
    ///
    /// Its emission is answered by `ErrorGuaranteed`.
    Error,
    /// A warning about the code being compiled. Does not prevent compilation
    /// from finishing.
    Warning,
    /// A message giving additional context. Rare, because notes are more
    /// commonly attached to other diagnostics such as errors.
    Note,
    /// A note that is only emitted once. Rare, mostly used in circumstances
    /// relating to lints.
    OnceNote,
    /// A message suggesting how to fix something. Rare, because help messages
    /// are more commonly attached to other diagnostics such as errors.
    Help,
    /// A help that is only emitted once. Rare.
    OnceHelp,
    /// Similar to `Note`, but used in cases where compilation has failed. Rare.
    FailureNote,
    /// Only used for lints.
    Allow,
}

impl Level {
    /// How the level is written in front of a message.
    pub open spec fn spec_to_str(self) -> Seq<char> {
        match self {
            Level::Bug => "error: internal compiler error"@,
            Level::Fatal | Level::Error => "error"@,
            Level::Warning => "warning"@,
            Level::Note | Level::OnceNote => "note"@,
            Level::Help | Level::OnceHelp => "help"@,
            Level::FailureNote => "failure-note"@,
            Level::Allow => Seq::empty(),
        }
    }

    /// Whether the level is an error.
    pub open spec fn spec_is_error(self) -> bool {
        self == Level::Bug || self == Level::Fatal || self == Level::Error || self
            == Level::FailureNote
    }

    /// The ANSI colour of the level: bright red for what ends in an error,
    /// bright yellow for warnings, bright green for notes, bright cyan for
    /// helps, and none for the others.
    pub open spec fn spec_ansi_color(self) -> Option<AnsiColor> {
        match self {
            Level::Bug | Level::Fatal | Level::Error => Some(AnsiColor::BrightRed),
            Level::Warning => Some(AnsiColor::BrightYellow),
            Level::Note | Level::OnceNote => Some(AnsiColor::BrightGreen),
            Level::Help | Level::OnceHelp => Some(AnsiColor::BrightCyan),
            Level::FailureNote | Level::Allow => None,
        }
    }

    /// The colour of the level.
    pub open spec fn spec_color(self) -> Option<Color> {
        match self.spec_ansi_color() {
            Some(c) => Some(Color::Ansi(c)),
            None => None,
        }
    }

    /// Returns the string representation of the level. `Allow` has none: a
    /// diagnostic of that level is never shown.
    pub fn to_str(self) -> (text: &'static str)
        requires
            self != Level::Allow,
        ensures
            text@ == self.spec_to_str(),
    {
        match self {
            Self::Bug => "error: internal compiler error",
            Self::Fatal | Self::Error => "error",
            Self::Warning => "warning",
            Self::Note | Self::OnceNote => "note",
            Self::Help | Self::OnceHelp => "help",
            _ => "failure-note",
        }
    }

    /// Returns `true` if this level is an error.
    #[verifier::when_used_as_spec(spec_is_error)]
    pub fn is_error(self) -> (r: bool)
        ensures
            r == self.spec_is_error(),
    {
        match self {
            Self::Bug | Self::Fatal | Self::Error | Self::FailureNote => true,
            Self::Warning
            | Self::Note
            | Self::OnceNote
            | Self::Help
            | Self::OnceHelp
            | Self::Allow => false,
        }
    }

    /// Returns the style of this level: its colour, in bold.
    pub fn style(self) -> (spec: ColorSpec)
        ensures
            spec == (ColorSpec { fg: self.spec_color(), bold: true }),
    {
        ColorSpec::new().fg_color(self.color()).bold()
    }

    /// Returns the color of this level.
    #[verifier::when_used_as_spec(spec_color)]
    pub fn color(self) -> (color: Option<Color>)
        ensures
            color == self.spec_color(),
    {
        match self.ansi_color() {
            Some(c) => Some(Color::Ansi(c)),
            None => None,
        }
    }

    /// Returns the ANSI color of this level.
    #[verifier::when_used_as_spec(spec_ansi_color)]
    pub fn ansi_color(self) -> (color: Option<AnsiColor>)
        ensures
            color == self.spec_ansi_color(),
    {
        match self {
            Self::Bug | Self::Fatal | Self::Error => Some(AnsiColor::BrightRed),
            Self::Warning => Some(AnsiColor::BrightYellow),
            Self::Note | Self::OnceNote => Some(AnsiColor::BrightGreen),
            Self::Help | Self::OnceHelp => Some(AnsiColor::BrightCyan),
            Self::FailureNote | Self::Allow => None,
        }
    }
}

/// The part that a piece of text has in a rendered diagnostic.
#[derive(Clone, Copy, Debug, PartialEq, Eq, Hash, Structural)]
pub enum Style {
    MainHeaderMsg,
    HeaderMsg,
    LineAndColumn,
    LineNumber,
    Quotation,
    UnderlinePrimary,
    UnderlineSecondary,
    LabelPrimary,
    LabelSecondary,
    NoStyle,
    Level(Level),
    Highlight,
    Addition,
    Removal,
}

impl Style {
    /// How a part is painted in a diagnostic of the given level: additions in
    /// green, removals in red, line numbers and what is secondary in bold
    /// blue, what is primary in the bold colour of the level, a level in its
    /// own bold colour, highlights in bold magenta, the main header in bold,
    /// and the rest plainly.
    pub open spec fn spec_to_color_spec(self, level: Level) -> ColorSpec {
        match self {
            Style::Addition => ColorSpec {
                fg: Some(Color::Ansi(AnsiColor::BrightGreen)),
                bold: false,
            },
            Style::Removal => ColorSpec { fg: Some(Color::Ansi(AnsiColor::BrightRed)), bold: false },
            Style::LineAndColumn | Style::Quotation | Style::HeaderMsg | Style::NoStyle => ColorSpec {
                fg: None,
                bold: false,
            },
            Style::LineNumber | Style::UnderlineSecondary | Style::LabelSecondary => ColorSpec {
                fg: Some(Color::Ansi(AnsiColor::BrightBlue)),
                bold: true,
            },
            Style::MainHeaderMsg => ColorSpec { fg: None, bold: true },
            Style::UnderlinePrimary | Style::LabelPrimary => ColorSpec {
                fg: level.spec_color(),
                bold: true,
            },
            Style::Level(level2) => ColorSpec { fg: level2.spec_color(), bold: true },
            Style::Highlight => ColorSpec {
                fg: Some(Color::Ansi(AnsiColor::BrightMagenta)),
                bold: true,
            },
        }
    }

    /// Converts the style to the colour and face it is painted with.
    #[verifier::when_used_as_spec(spec_to_color_spec)]
    pub fn to_color_spec(self, level: Level) -> (spec: ColorSpec)
        ensures
            spec == self.spec_to_color_spec(level),
    {
        let bright_blue = Color::Ansi(AnsiColor::BrightBlue);
        let green = Color::Ansi(AnsiColor::BrightGreen);
        let magenta = Color::Ansi(AnsiColor::BrightMagenta);
        let red = Color::Ansi(AnsiColor::BrightRed);

        let s = ColorSpec::new();
        match self {
            Self::Addition => s.fg_color(Some(green)),
            Self::Removal => s.fg_color(Some(red)),
            Self::LineAndColumn => s,
            Self::LineNumber => s.fg_color(Some(bright_blue)).bold(),
            Self::Quotation => s,
            Self::MainHeaderMsg => s.bold(),
            Self::UnderlinePrimary | Self::LabelPrimary => s.fg_color(level.color()).bold(),
            Self::UnderlineSecondary | Self::LabelSecondary => s.fg_color(Some(bright_blue)).bold(),
            Self::HeaderMsg | Self::NoStyle => s,
            Self::Level(level2) => s.fg_color(level2.color()).bold(),
            Self::Highlight => s.fg_color(Some(magenta)).bold(),
        }
    }
}

/// The texts and styles of messages.
pub open spec fn messages_view(messages: Seq<(DiagMsg, Style)>) -> Seq<(Seq<char>, Style)> {
    messages.map_values(|m: (DiagMsg, Style)| (m.0@, m.1))
}

/// One message as it stands in a flattened text: painted in its style, if
/// styles are asked for and it has one.
pub open spec fn flat_message(message: (Seq<char>, Style), with_style: bool, level: Level) -> Seq<
    char,
> {
    if with_style && message.1 != Style::NoStyle {
        painted(message.1.spec_to_color_spec(level), message.0)
    } else {
        message.0
    }
}

/// The messages one after the other, each as [`flat_message`] has it.
pub open spec fn flat_messages(messages: Seq<(Seq<char>, Style)>, with_style: bool, level: Level) -> Seq<
    char,
>
    decreases messages.len(),
{
    if messages.len() == 0 {
        Seq::empty()
    } else {
        flat_messages(messages.drop_last(), with_style, level) + flat_message(
            messages.last(),
            with_style,
            level,
        )
    }
}

/// Copies messages.
pub fn clone_messages(messages: &Vec<(DiagMsg, Style)>) -> (copy: Vec<(DiagMsg, Style)>)
    ensures
        messages_view(copy@) == messages_view(messages@),
{
    let mut copy: Vec<(DiagMsg, Style)> = Vec::new();
    let mut i: usize = 0;
    while i < messages.len()
        invariant
            i <= messages@.len(),
            messages_view(copy@) == messages_view(messages@).take(i as int),
        decreases messages@.len() - i,
    {
        let ghost before = copy@;
        let text = messages[i].0.clone();
        copy.push((text, messages[i].1));
        assert(messages_view(copy@) =~= messages_view(before).push(
            (messages@[i as int].0@, messages@[i as int].1),
        ));
        assert(messages_view(messages@).take(i + 1) =~= messages_view(messages@).take(
            i as int,
        ).push(messages_view(messages@)[i as int]));
        i += 1;
    }
    assert(messages_view(messages@).take(i as int) =~= messages_view(messages@));
    copy
}

/// Whether two lists of messages hold the same texts in the same styles.
pub fn messages_eq(a: &Vec<(DiagMsg, Style)>, b: &Vec<(DiagMsg, Style)>) -> (r: bool)
    ensures
        r == (messages_view(a@) == messages_view(b@)),
{
    if a.len() != b.len() {
        assert(messages_view(a@).len() != messages_view(b@).len());
        return false;
    }
    let mut i: usize = 0;
    while i < a.len()
        invariant
            i <= a@.len() == b@.len(),
            forall|k: int| 0 <= k < i ==> messages_view(a@)[k] == messages_view(b@)[k],
        decreases a@.len() - i,
    {
        if a[i].0 != b[i].0 || a[i].1 != b[i].1 {
            assert(messages_view(a@)[i as int] != messages_view(b@)[i as int]);
            return false;
        }
        i += 1;
    }
    assert(messages_view(a@) =~= messages_view(b@));
    true
}

/// Flattens diagnostic messages into one text, applying ANSI styles if
/// requested.
pub fn flatten_messages(
    messages: &[(DiagMsg, Style)],
    with_style: bool,
    level: Level,
) -> (text: String)
    ensures
        text@ == flat_messages(messages_view(messages@), with_style, level),
{
    let mut res = String::new();
    let ghost all = messages_view(messages@);
    let mut i: usize = 0;
    assert(all.take(0) =~= Seq::<(Seq<char>, Style)>::empty());
    while i < messages.len()
        invariant
            i <= messages@.len(),
            all == messages_view(messages@),
            res@ == flat_messages(all.take(i as int), with_style, level),
        decreases messages@.len() - i,
    {
        proof {
            assert(all.take(i + 1).drop_last() =~= all.take(i as int));
            assert(all.take(i + 1).last() == all[i as int]);
        }
        let style = messages[i].1;
        if with_style && style != Style::NoStyle {
            write_fmt(&mut res, &messages[i].0, &style, level);
        } else {
            res.append(messages[i].0.as_str());
        }
        i += 1;
    }
    assert(all.take(i as int) =~= all);
    res
}

/// Appends a message to the output, painted in its style.
pub fn write_fmt(output: &mut String, msg: &DiagMsg, style: &Style, level: Level)
    ensures
        final(output)@ == old(output)@ + painted(style.spec_to_color_spec(level), msg@),
{
    let ansi_style = style.to_color_spec(level);
    let text = paint(ansi_style, msg.as_str());
    output.append(text.as_str());
}

/// What a [`SubDiagnostic`] holds.
pub struct SubDiagnosticView {
    pub level: Level,
    pub messages: Seq<(Seq<char>, Style)>,
    pub span: MultiSpanView,
}

/// A "sub"-diagnostic attached to a parent diagnostic.
/// For example, a note attached to an error.
#[derive(Debug, Hash)]
pub struct SubDiagnostic {
    pub level: Level,
    pub messages: Vec<(DiagMsg, Style)>,
    pub span: MultiSpan,
}

impl View for SubDiagnostic {
    type V = SubDiagnosticView;

    open spec fn view(&self) -> SubDiagnosticView {
        SubDiagnosticView {
            level: self.level,
            messages: messages_view(self.messages@),
            span: self.span@,
        }
    }
}

impl Clone for SubDiagnostic {
    fn clone(&self) -> (copy: Self)
        ensures
            copy@ == self@,
    {
        SubDiagnostic {
            level: self.level,
            messages: clone_messages(&self.messages),
            span: self.span.clone(),
        }
    }
}

impl PartialEq for SubDiagnostic {
    fn eq(&self, other: &Self) -> (r: bool) {
        self.level == other.level && messages_eq(&self.messages, &other.messages) && self.span
            == other.span
    }
}

impl PartialEqSpecImpl for SubDiagnostic {
    open spec fn obeys_eq_spec() -> bool {
        true
    }

    open spec fn eq_spec(&self, other: &Self) -> bool {
        self@ == other@
    }
}

impl SubDiagnostic {
    /// Formats the diagnostic messages into a single string.
    pub fn label(&self) -> (text: String)
        ensures
            text@ == flat_messages(self@.messages, false, self.level),
    {
        flatten_messages(self.messages.as_slice(), false, self.level)
    }

    /// Formats the diagnostic messages into a single string with ANSI color
    /// codes if applicable.
    pub fn label_with_style(&self, supports_color: bool) -> (text: String)
        ensures
            text@ == flat_messages(self@.messages, supports_color, self.level),
    {
        flatten_messages(self.messages.as_slice(), supports_color, self.level)
    }
}

/// Copies sub-diagnostics.
pub fn clone_children(children: &Vec<SubDiagnostic>) -> (copy: Vec<SubDiagnostic>)
    ensures
        children_view(copy@) == children_view(children@),
{
    let mut copy: Vec<SubDiagnostic> = Vec::new();
    let mut i: usize = 0;
    while i < children.len()
        invariant
            i <= children@.len(),
            children_view(copy@) == children_view(children@).take(i as int),
        decreases children@.len() - i,
    {
        let ghost before = copy@;
        let child = children[i].clone();
        copy.push(child);
        assert(children_view(copy@) =~= children_view(before).push(children@[i as int]@));
        assert(children_view(children@).take(i + 1) =~= children_view(children@).take(
            i as int,
        ).push(children_view(children@)[i as int]));
        i += 1;
    }
    assert(children_view(children@).take(i as int) =~= children_view(children@));
    copy
}

/// Whether two lists of sub-diagnostics hold the same.
pub fn children_eq(a: &Vec<SubDiagnostic>, b: &Vec<SubDiagnostic>) -> (r: bool)
    ensures
        r == (children_view(a@) == children_view(b@)),
{
    if a.len() != b.len() {
        assert(children_view(a@).len() != children_view(b@).len());
        return false;
    }
    let mut i: usize = 0;
    while i < a.len()
        invariant
            i <= a@.len() == b@.len(),
            forall|k: int| 0 <= k < i ==> children_view(a@)[k] == children_view(b@)[k],
        decreases a@.len() - i,
    {
        if a[i] != b[i] {
            assert(children_view(a@)[i as int] != children_view(b@)[i as int]);
            return false;
        }
        i += 1;
    }
    assert(children_view(a@) =~= children_view(b@));
    true
}

/// What sub-diagnostics hold.
pub open spec fn children_view(children: Seq<SubDiagnostic>) -> Seq<SubDiagnosticView> {
    children.map_values(|c: SubDiagnostic| c@)
}

/// The text of a code, if there is one.
pub open spec fn code_view(code: Option<DiagId>) -> Option<Seq<char>> {
    match code {
        Some(id) => Some(id@),
        None => None,
    }
}

/// What a diagnostic holds, and what two diagnostics are compared by: the
/// level, the messages, the spans, the sub-diagnostics and the code.
pub struct DiagView {
    pub level: Level,
    pub messages: Seq<(Seq<char>, Style)>,
    pub span: MultiSpanView,
    pub children: Seq<SubDiagnosticView>,
    pub code: Option<Seq<char>>,
}

/// The sub-diagnostic with one plain message.
pub open spec fn plain_sub(level: Level, msg: Seq<char>, span: MultiSpanView) -> SubDiagnosticView {
    SubDiagnosticView { level, messages: seq![(msg, Style::NoStyle)], span }
}

/// The texts and styles of messages handed in as plain strings.
pub open spec fn str_messages_view(messages: Seq<(&str, Style)>) -> Seq<(Seq<char>, Style)> {
    messages.map_values(|m: (&str, Style)| (m.0@, m.1))
}

/// A compiler diagnostic.
#[must_use]
#[derive(Debug, Hash)]
pub struct Diag {
    pub level: Level,
    pub messages: Vec<(DiagMsg, Style)>,
    pub span: MultiSpan,
    pub children: Vec<SubDiagnostic>,
    pub code: Option<DiagId>,
}

impl View for Diag {
    type V = DiagView;

    open spec fn view(&self) -> DiagView {
        DiagView {
            level: self.level,
            messages: messages_view(self.messages@),
            span: self.span@,
            children: children_view(self.children@),
            code: code_view(self.code),
        }
    }
}

impl Clone for Diag {
    fn clone(&self) -> (copy: Self)
        ensures
            copy@ == self@,
    {
        let code = match &self.code {
            Some(id) => Some(id.clone()),
            None => None,
        };
        Diag {
            level: self.level,
            messages: clone_messages(&self.messages),
            span: self.span.clone(),
            children: clone_children(&self.children),
            code,
        }
    }
}

impl PartialEq for Diag {
    fn eq(&self, other: &Self) -> (r: bool) {
        let same_code = match (&self.code, &other.code) {
            (Some(a), Some(b)) => a == b,
            (None, None) => true,
            _ => false,
        };
        self.level == other.level && messages_eq(&self.messages, &other.messages) && same_code
            && self.span == other.span && children_eq(&self.children, &other.children)
    }
}

impl PartialEqSpecImpl for Diag {
    open spec fn obeys_eq_spec() -> bool {
        true
    }

    open spec fn eq_spec(&self, other: &Self) -> bool {
        self@ == other@
    }
}

impl Diag {
    /// Creates a new `Diag` with a single message.
    pub fn new(level: Level, msg: &str) -> (diag: Self)
        ensures
            diag@ == (DiagView {
                level,
                messages: seq![(msg@, Style::NoStyle)],
                span: no_spans(),
                children: Seq::empty(),
                code: None,
            }),
    {
        let mut messages: Vec<(DiagMsg, Style)> = Vec::new();
        messages.push((DiagMsg::new(msg), Style::NoStyle));
        assert(messages_view(messages@) =~= seq![(msg@, Style::NoStyle)]);
        Self::new_with_messages(level, messages)
    }

    /// Creates a new `Diag` with multiple messages.
    pub fn new_with_messages(level: Level, messages: Vec<(DiagMsg, Style)>) -> (diag: Self)
        ensures
            diag@ == (DiagView {
                level,
                messages: messages_view(messages@),
                span: no_spans(),
                children: Seq::empty(),
                code: None,
            }),
    {
        let diag = Self {
            level,
            messages,
            code: None,
            span: MultiSpan::new(),
            children: Vec::new(),
        };
        assert(diag@.children =~= Seq::empty());
        diag
    }

    /// Returns `true` if this diagnostic is an error.
    pub fn is_error(&self) -> (r: bool)
        ensures
            r == self@.level.is_error(),
    {
        self.level.is_error()
    }

    /// Formats the diagnostic messages into a single string.
    pub fn label(&self) -> (text: String)
        ensures
            text@ == flat_messages(self@.messages, false, self@.level),
    {
        flatten_messages(self.messages.as_slice(), false, self.level)
    }

    /// Formats the diagnostic messages into a single string with ANSI color
    /// codes if applicable.
    pub fn label_with_style(&self, supports_color: bool) -> (text: String)
        ensures
            text@ == flat_messages(self@.messages, supports_color, self@.level),
    {
        flatten_messages(self.messages.as_slice(), supports_color, self.level)
    }

    /// Returns the messages of this diagnostic.
    pub fn messages(&self) -> (messages: &[(DiagMsg, Style)])
        ensures
            messages_view(messages@) == self@.messages,
    {
        self.messages.as_slice()
    }

    /// Returns the level of this diagnostic.
    pub fn level(&self) -> (level: Level)
        ensures
            level == self@.level,
    {
        self.level
    }

    /// Returns the code of this diagnostic as a string.
    pub fn id(&self) -> (id: Option<String>)
        ensures
            match id {
                Some(text) => self@.code == Some(text@),
                None => self@.code is None,
            },
    {
        match &self.code {
            Some(code) => Some(code.as_string()),
            None => None,
        }
    }

    /// Sets the span of this diagnostic.
    pub fn span(&mut self, span: MultiSpan) -> (me: &mut Self)
        ensures
            me@ == (DiagView { span: span@, ..old(self)@ }),
            *final(self) == *final(me),
    {
        self.span = span;
        self
    }

    /// Sets the code of this diagnostic.
    pub fn code(&mut self, code: DiagId) -> (me: &mut Self)
        ensures
            me@ == (DiagView { code: Some(code@), ..old(self)@ }),
            *final(self) == *final(me),
    {
        self.code = Some(code);
        self
    }

    /// Adds a span/label to be included in the resulting snippet.
    ///
    /// This is pushed onto the [`MultiSpan`] that was created when the
    /// diagnostic was first built. The span is not a primary span: only the
    /// spans set with [`Diag::span`] are primary.
    pub fn span_label(&mut self, span: Span, label: &str) -> (me: &mut Self)
        ensures
            me@ == (DiagView {
                span: MultiSpanView {
                    primary_spans: old(self)@.span.primary_spans,
                    span_labels: old(self)@.span.span_labels.push((span, label@)),
                },
                ..old(self)@
            }),
            *final(self) == *final(me),
    {
        self.span.push_span_label(span, DiagMsg::new(label));
        self
    }

    /// Labels all the given spans with the provided label.
    /// See [`Self::span_label()`] for more information.
    pub fn span_labels(&mut self, spans: &[Span], label: &str) -> (me: &mut Self)
        ensures
            me@ == (DiagView {
                span: MultiSpanView {
                    primary_spans: old(self)@.span.primary_spans,
                    span_labels: old(self)@.span.span_labels + spans@.map_values(
                        |s: Span| (s, label@),
                    ),
                },
                ..old(self)@
            }),
            *final(self) == *final(me),
    {
        let mut i: usize = 0;
        let ghost labels = spans@.map_values(|s: Span| (s, label@));
        assert(old(self)@.span.span_labels + labels.take(0) =~= old(self)@.span.span_labels);
        while i < spans.len()
            invariant
                i <= spans@.len(),
                labels == spans@.map_values(|s: Span| (s, label@)),
                self@ == (DiagView {
                    span: MultiSpanView {
                        primary_spans: old(self)@.span.primary_spans,
                        span_labels: old(self)@.span.span_labels + labels.take(i as int),
                    },
                    ..old(self)@
                }),
            decreases spans@.len() - i,
        {
            self.span.push_span_label(spans[i], DiagMsg::new(label));
            assert(self@.span.span_labels =~= old(self)@.span.span_labels + labels.take(i + 1));
            i += 1;
        }
        assert(labels.take(i as int) =~= labels);
        self
    }
}

/// Sub-diagnostics.
impl Diag {
    /// Add a warning attached to this diagnostic.
    pub fn warn(&mut self, msg: &str) -> (me: &mut Self)
        ensures
            me@ == (DiagView {
                children: old(self)@.children.push(plain_sub(Level::Warning, msg@, no_spans())),
                ..old(self)@
            }),
            *final(self) == *final(me),
    {
        self.sub(Level::Warning, msg, MultiSpan::new())
    }

    /// Prints the span with a warning above it.
    /// This is like [`Diag::warn()`], but it gets its own span.
    pub fn span_warn(&mut self, span: MultiSpan, msg: &str) -> (me: &mut Self)
        ensures
            me@ == (DiagView {
                children: old(self)@.children.push(plain_sub(Level::Warning, msg@, span@)),
                ..old(self)@
            }),
            *final(self) == *final(me),
    {
        self.sub(Level::Warning, msg, span)
    }

    /// Add a note to this diagnostic.
    pub fn note(&mut self, msg: &str) -> (me: &mut Self)
        ensures
            me@ == (DiagView {
                children: old(self)@.children.push(plain_sub(Level::Note, msg@, no_spans())),
                ..old(self)@
            }),
            *final(self) == *final(me),
    {
        self.sub(Level::Note, msg, MultiSpan::new())
    }

    /// Prints the span with a note above it.
    /// This is like [`Diag::note()`], but it gets its own span.
    pub fn span_note(&mut self, span: MultiSpan, msg: &str) -> (me: &mut Self)
        ensures
            me@ == (DiagView {
                children: old(self)@.children.push(plain_sub(Level::Note, msg@, span@)),
                ..old(self)@
            }),
            *final(self) == *final(me),
    {
        self.sub(Level::Note, msg, span)
    }

    /// Add a note whose messages each have a style of their own.
    pub fn highlighted_note(&mut self, messages: Vec<(&str, Style)>) -> (me: &mut Self)
        ensures
            me@ == (DiagView {
                children: old(self)@.children.push(
                    SubDiagnosticView {
                        level: Level::Note,
                        messages: str_messages_view(messages@),
                        span: no_spans(),
                    },
                ),
                ..old(self)@
            }),
            *final(self) == *final(me),
    {
        self.sub_with_highlights(Level::Note, messages, MultiSpan::new())
    }

    /// Add a note that is emitted only once.
    pub fn note_once(&mut self, msg: &str) -> (me: &mut Self)
        ensures
            me@ == (DiagView {
                children: old(self)@.children.push(plain_sub(Level::OnceNote, msg@, no_spans())),
                ..old(self)@
            }),
            *final(self) == *final(me),
    {
        self.sub(Level::OnceNote, msg, MultiSpan::new())
    }

    /// Prints the span with a note above it.
    /// This is like [`Diag::note_once()`], but it gets its own span.
    pub fn span_note_once(&mut self, span: MultiSpan, msg: &str) -> (me: &mut Self)
        ensures
            me@ == (DiagView {
                children: old(self)@.children.push(plain_sub(Level::OnceNote, msg@, span@)),
                ..old(self)@
            }),
            *final(self) == *final(me),
    {
        self.sub(Level::OnceNote, msg, span)
    }

    /// Add a help message attached to this diagnostic.
    pub fn help(&mut self, msg: &str) -> (me: &mut Self)
        ensures
            me@ == (DiagView {
                children: old(self)@.children.push(plain_sub(Level::Help, msg@, no_spans())),
                ..old(self)@
            }),
            *final(self) == *final(me),
    {
        self.sub(Level::Help, msg, MultiSpan::new())
    }

    /// Add a help message that is emitted only once.
    pub fn help_once(&mut self, msg: &str) -> (me: &mut Self)
        ensures
            me@ == (DiagView {
                children: old(self)@.children.push(plain_sub(Level::OnceHelp, msg@, no_spans())),
                ..old(self)@
            }),
            *final(self) == *final(me),
    {
        self.sub(Level::OnceHelp, msg, MultiSpan::new())
    }

    /// Add a help message attached to this diagnostic with a customizable
    /// highlighted message.
    pub fn highlighted_help(&mut self, msgs: Vec<(&str, Style)>) -> (me: &mut Self)
        ensures
            me@ == (DiagView {
                children: old(self)@.children.push(
                    SubDiagnosticView {
                        level: Level::Help,
                        messages: str_messages_view(msgs@),
                        span: no_spans(),
                    },
                ),
                ..old(self)@
            }),
            *final(self) == *final(me),
    {
        self.sub_with_highlights(Level::Help, msgs, MultiSpan::new())
    }

    /// Prints the span with some help above it.
    /// This is like [`Diag::help()`], but it gets its own span.
    pub fn span_help(&mut self, span: MultiSpan, msg: &str) -> (me: &mut Self)
        ensures
            me@ == (DiagView {
                children: old(self)@.children.push(plain_sub(Level::Help, msg@, span@)),
                ..old(self)@
            }),
            *final(self) == *final(me),
    {
        self.sub(Level::Help, msg, span)
    }

    fn sub(&mut self, level: Level, msg: &str, span: MultiSpan) -> (me: &mut Self)
        ensures
            me@ == (DiagView {
                children: old(self)@.children.push(plain_sub(level, msg@, span@)),
                ..old(self)@
            }),
            *final(self) == *final(me),
    {
        let mut messages: Vec<(DiagMsg, Style)> = Vec::new();
        messages.push((DiagMsg::new(msg), Style::NoStyle));
        assert(messages_view(messages@) =~= seq![(msg@, Style::NoStyle)]);
        let ghost before = self.children@;
        self.children.push(SubDiagnostic { level, messages, span });
        assert(children_view(self.children@) =~= children_view(before).push(
            plain_sub(level, msg@, span@),
        ));
        self
    }

    fn sub_with_highlights(
        &mut self,
        level: Level,
        messages: Vec<(&str, Style)>,
        span: MultiSpan,
    ) -> (me: &mut Self)
        ensures
            me@ == (DiagView {
                children: old(self)@.children.push(
                    SubDiagnosticView { level, messages: str_messages_view(messages@), span: span@ },
                ),
                ..old(self)@
            }),
            *final(self) == *final(me),
    {
        let mut owned: Vec<(DiagMsg, Style)> = Vec::new();
        let mut i: usize = 0;
        while i < messages.len()
            invariant
                i <= messages@.len(),
                messages_view(owned@) == str_messages_view(messages@).take(i as int),
            decreases messages@.len() - i,
        {
            let ghost seen = owned@;
            owned.push((DiagMsg::new(messages[i].0), messages[i].1));
            assert(messages_view(owned@) =~= messages_view(seen).push(
                (messages@[i as int].0@, messages@[i as int].1),
            ));
            assert(str_messages_view(messages@).take(i + 1) =~= str_messages_view(messages@).take(
                i as int,
            ).push(str_messages_view(messages@)[i as int]));
            i += 1;
        }
        assert(str_messages_view(messages@).take(i as int) =~= str_messages_view(messages@));
        let ghost before = self.children@;
        self.children.push(SubDiagnostic { level, messages: owned, span });
        assert(children_view(self.children@) =~= children_view(before).push(
            SubDiagnosticView { level, messages: str_messages_view(messages@), span: span@ },
        ));
        self
    }
}

} // verus!
