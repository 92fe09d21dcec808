//! The diagnostic context: takes in diagnostics, drops what is not to be
//! shown or was shown before, hands the rest to its emitter, and counts.

use vstd::prelude::*;
use vstd::string::StringExecFns;
use crate::diagnostics::emitter::{
    render_diagnostic, rendered, ColorChoice, HumanBufferEmitter, SilentEmitter,
};
use crate::diagnostics::json::{json_rendered, render_json};
use crate::diagnostics::{
    children_view, Diag, DiagView, EmittedDiagnostics, ErrorGuaranteed, Level, SubDiagnostic,
    SubDiagnosticView,
};
use crate::source_map::SourceMap;

verus! {

/// Flags of a diagnostic context.
#[derive(Clone, Copy, Debug, PartialEq, Eq, Structural)]
pub struct DiagCtxtFlags {
    /// A warning is taken as an error.
    pub treat_warnings_as_errors: bool,
    /// Warnings are shown. Where they are not, a warning is dropped.
    pub emit_warnings: bool,
    /// A diagnostic that was taken in before is not shown again.
    pub deduplicate: bool,
    /// Whether to paint the output.
    pub color: ColorChoice,
}

impl Default for DiagCtxtFlags {
    fn default() -> (flags: Self)
        ensures
            flags == (DiagCtxtFlags {
                treat_warnings_as_errors: false,
                emit_warnings: true,
                deduplicate: true,
                color: ColorChoice::Auto,
            }),
    {
        DiagCtxtFlags {
            treat_warnings_as_errors: false,
            emit_warnings: true,
            deduplicate: true,
            color: ColorChoice::Auto,
        }
    }
}

/// Where the rendered diagnostics of a context go.
#[derive(Debug)]
pub enum Emitter {
    /// To a writer outside, as text for a human reader: the context hands
    /// the text of each diagnostic back to be written.
    Human { color: bool },
    /// Into a buffer, as text for a human reader.
    HumanBuffer(HumanBufferEmitter),
    /// To a writer outside, as JSON, one object for each diagnostic: the
    /// context hands the object back to be written.
    Json,
    /// Nowhere.
    Silent(SilentEmitter),
}

/// What has to happen once a diagnostic was taken in.
#[derive(Clone, Copy, Debug, PartialEq, Eq, Structural)]
pub enum AfterEmit {
    /// Nothing: the work goes on.
    Proceed,
    /// A fatal diagnostic: the current task is to be given up.
    AbortFatal,
    /// A bug: the compiler is to end with an internal error.
    AbortBug,
}

/// The answer of a context to a diagnostic.
#[derive(Debug)]
pub struct Emission {
    /// For an error: the token that says that it was reported.
    pub guaranteed: Option<ErrorGuaranteed>,
    /// What has to happen next.
    pub after: AfterEmit,
    /// The rendered diagnostic, where the emitter writes outside: the text
    /// that is to be written.
    pub text: Option<String>,
    /// The fatal diagnostic that a silent emitter passes on.
    pub passed_on: Option<Diag>,
}

/// One rendered diagnostic: what was taken in, what of it was shown, the
/// source map as it was then, and the text.
pub struct Shown {
    pub diag: DiagView,
    pub shown: DiagView,
    pub map: SourceMap,
    pub text: Seq<char>,
}

/// The diagnostic as the context takes it in: a warning is made an error
/// where warnings are to be treated so.
pub open spec fn taken_in(diag: DiagView, flags: DiagCtxtFlags) -> DiagView {
    if diag.level == Level::Warning && flags.treat_warnings_as_errors {
        DiagView { level: Level::Error, ..diag }
    } else {
        diag
    }
}

/// The diagnostic is dropped unseen: its level is `Allow`, or it is a
/// warning that stays one while warnings are not shown.
pub open spec fn dropped(diag: DiagView, flags: DiagCtxtFlags) -> bool {
    diag.level == Level::Allow || (diag.level == Level::Warning && !flags.treat_warnings_as_errors
        && !flags.emit_warnings)
}

/// The level of a sub-diagnostic that is shown once only.
pub open spec fn once_level(level: Level) -> bool {
    level == Level::OnceNote || level == Level::OnceHelp
}

/// The sub-diagnostics that are shown, given those that were shown once
/// before: one of a once-level is shown only if it is new, here and before.
pub open spec fn once_kept(children: Seq<SubDiagnosticView>, once: Seq<SubDiagnosticView>) -> Seq<
    SubDiagnosticView,
>
    decreases children.len(),
{
    if children.len() == 0 {
        Seq::empty()
    } else if !once_level(children[0].level) {
        seq![children[0]] + once_kept(children.drop_first(), once)
    } else if once.contains(children[0]) {
        once_kept(children.drop_first(), once)
    } else {
        seq![children[0]] + once_kept(children.drop_first(), once.push(children[0]))
    }
}

/// The sub-diagnostics that were shown once, after these were looked at.
pub open spec fn once_seen(children: Seq<SubDiagnosticView>, once: Seq<SubDiagnosticView>) -> Seq<
    SubDiagnosticView,
>
    decreases children.len(),
{
    if children.len() == 0 {
        once
    } else if once_level(children[0].level) && !once.contains(children[0]) {
        once_seen(children.drop_first(), once.push(children[0]))
    } else {
        once_seen(children.drop_first(), once)
    }
}

/// No value occurs twice.
pub open spec fn distinct<T>(s: Seq<T>) -> bool {
    forall|i: int, j: int| 0 <= i < j < s.len() ==> s[i] != s[j]
}

/// The texts of the rendered diagnostics, one after the other.
pub open spec fn joined(log: Seq<Shown>) -> Seq<char>
    decreases log.len(),
{
    if log.len() == 0 {
        Seq::empty()
    } else {
        joined(log.drop_last()) + log.last().text
    }
}

/// One more, saturating.
pub open spec fn bumped(count: usize) -> usize {
    if count < usize::MAX {
        (count + 1) as usize
    } else {
        count
    }
}

fn bump(count: usize) -> (r: usize)
    ensures
        r == bumped(count),
{
    if count < usize::MAX {
        count + 1
    } else {
        count
    }
}

/// What the diagnostics that were taken in are: their views.
pub open spec fn diags_view(diags: Seq<Diag>) -> Seq<DiagView> {
    diags.map_values(|d: Diag| d@)
}

/// A diagnostic context.
pub struct DiagCtxt {
    source_map: SourceMap,
    emitter: Emitter,
    flags: DiagCtxtFlags,
    err_count: usize,
    warn_count: usize,
    emitted: Vec<Diag>,
    emitted_once: Vec<SubDiagnostic>,
    log: Ghost<Seq<Shown>>,
}

impl DiagCtxt {
    /// The flags of the context.
    pub closed spec fn spec_flags(&self) -> DiagCtxtFlags {
        self.flags
    }

    /// The diagnostics that were taken in and not dropped, each once, in the
    /// order in which they first came.
    pub closed spec fn seen(&self) -> Seq<DiagView> {
        diags_view(self.emitted@)
    }

    /// The sub-diagnostics of a once-level that were shown.
    pub closed spec fn seen_once(&self) -> Seq<SubDiagnosticView> {
        children_view(self.emitted_once@)
    }

    /// The diagnostics that were rendered, in order.
    pub closed spec fn log(&self) -> Seq<Shown> {
        self.log@
    }

    /// Whether the emitter paints.
    pub closed spec fn paints(&self) -> bool {
        match self.emitter {
            Emitter::Human { color } => color,
            Emitter::HumanBuffer(e) => e.paints(),
            Emitter::Json => false,
            Emitter::Silent(_) => false,
        }
    }

    /// Whether the emitter renders as JSON.
    pub closed spec fn renders_json(&self) -> bool {
        self.emitter is Json
    }

    /// The rendered form that the emitter gives a diagnostic: a JSON object,
    /// or text for a human reader.
    pub open spec fn rendered_by(&self, diag: DiagView, map: &SourceMap) -> Seq<char> {
        if self.renders_json() {
            json_rendered(diag, map)
        } else {
            rendered(diag, map, self.paints())
        }
    }

    /// Whether the emitter renders at all.
    pub closed spec fn renders(&self) -> bool {
        !(self.emitter is Silent)
    }

    /// The note that a silent emitter attaches to the fatal diagnostics
    /// that it passes on.
    pub closed spec fn fatal_note(&self) -> Option<Seq<char>> {
        match self.emitter {
            Emitter::Silent(e) => e.note(),
            _ => None,
        }
    }

    /// The text in the buffer of the emitter, if it has one.
    pub closed spec fn buffer(&self) -> Option<Seq<char>> {
        match self.emitter {
            Emitter::HumanBuffer(e) => Some(e.output()),
            _ => None,
        }
    }

    /// How many errors were taken in.
    pub closed spec fn spec_err_count(&self) -> usize {
        self.err_count
    }

    /// How many warnings were taken in.
    pub closed spec fn spec_warn_count(&self) -> usize {
        self.warn_count
    }

    /// The source map of the context.
    pub closed spec fn spec_source_map(&self) -> &SourceMap {
        &self.source_map
    }

    /// The context is consistent:
    /// no diagnostic is recorded twice as taken in, and no sub-diagnostic
    /// twice as shown once; every entry of the log holds the rendered form of
    /// what it shows; a buffer holds the texts of the log, one after the other;
    /// a context that does not render has an empty log; and one that drops
    /// repeated diagnostics has shown each diagnostic that it took in once.
    pub closed spec fn wf(&self) -> bool {
        &&& distinct(self.seen())
        &&& self.output_wf()
        &&& self.flags.deduplicate && self.renders() ==> {
            &&& self.log@.len() == self.seen().len()
            &&& forall|i: int|
                0 <= i < self.log@.len() ==> (#[trigger] self.log@[i]).diag == self.seen()[i]
        }
    }

    /// What was rendered is consistent with the log.
    spec fn output_wf(&self) -> bool {
        &&& distinct(self.seen_once())
        &&& forall|i: int|
            0 <= i < self.log@.len() ==> (#[trigger] self.log@[i]).text == self.rendered_by(
                self.log@[i].shown,
                &self.log@[i].map,
            )
        &&& self.buffer() matches Some(text) ==> text == joined(self.log@)
        &&& !self.renders() ==> self.log@.len() == 0
    }

    /// A context around a source map, with the given emitter and flags.
    pub fn new(source_map: SourceMap, emitter: Emitter, flags: DiagCtxtFlags) -> (dcx: Self)
        requires
            emitter matches Emitter::HumanBuffer(e) ==> e.output().len() == 0,
        ensures
            dcx.wf(),
            dcx.spec_flags() == flags,
            dcx.seen().len() == 0,
            dcx.seen_once().len() == 0,
            dcx.log().len() == 0,
            dcx.spec_err_count() == 0,
            dcx.spec_warn_count() == 0,
            dcx.spec_source_map() == source_map,
            dcx.buffer() == match emitter {
                Emitter::HumanBuffer(e) => Some(e.output()),
                _ => None,
            },
            dcx.renders() == !(emitter is Silent),
            dcx.renders_json() == (emitter is Json),
            dcx.paints() == match emitter {
                Emitter::Human { color } => color,
                Emitter::HumanBuffer(e) => e.paints(),
                _ => false,
            },
            dcx.fatal_note() == match emitter {
                Emitter::Silent(e) => e.note(),
                _ => None,
            },
    {
        let dcx = DiagCtxt {
            source_map,
            emitter,
            flags,
            err_count: 0,
            warn_count: 0,
            emitted: Vec::new(),
            emitted_once: Vec::new(),
            log: Ghost(Seq::empty()),
        };
        proof {
            assert(joined(dcx.log@) =~= Seq::<char>::empty());
            if dcx.buffer() is Some {
                assert(dcx.buffer()->0 =~= Seq::<char>::empty());
            }
        }
        dcx
    }

    /// A context that renders into a buffer, for tests: unpainted, and it
    /// shows a repeated diagnostic once.
    pub fn with_test_emitter(source_map: SourceMap) -> (dcx: Self)
        ensures
            dcx.wf(),
            dcx.spec_flags() == (DiagCtxtFlags {
                treat_warnings_as_errors: false,
                emit_warnings: true,
                deduplicate: true,
                color: ColorChoice::Never,
            }),
            dcx.buffer() == Some(Seq::<char>::empty()),
            dcx.renders() && !dcx.renders_json() && !dcx.paints(),
            dcx.seen().len() == 0,
            dcx.spec_err_count() == 0,
            dcx.spec_source_map() == source_map,
    {
        Self::with_buffer_emitter(source_map, ColorChoice::Never)
    }

    /// A context that renders into a buffer.
    pub fn with_buffer_emitter(source_map: SourceMap, color_choice: ColorChoice) -> (dcx: Self)
        ensures
            dcx.wf(),
            dcx.spec_flags() == (DiagCtxtFlags {
                treat_warnings_as_errors: false,
                emit_warnings: true,
                deduplicate: true,
                color: color_choice,
            }),
            dcx.buffer() == Some(Seq::<char>::empty()),
            dcx.renders() && !dcx.renders_json(),
            dcx.paints() == (color_choice == ColorChoice::Always),
            dcx.seen().len() == 0,
            dcx.spec_err_count() == 0,
            dcx.spec_source_map() == source_map,
    {
        let emitter = HumanBufferEmitter::new(color_choice);
        let flags = DiagCtxtFlags {
            treat_warnings_as_errors: false,
            emit_warnings: true,
            deduplicate: true,
            color: color_choice,
        };
        let dcx = Self::new(source_map, Emitter::HumanBuffer(emitter), flags);
        assert(dcx.buffer()->0 =~= Seq::<char>::empty());
        dcx
    }

    /// A context whose rendered diagnostics are written outside, to the
    /// standard error stream: each emission hands back the text to write. The
    /// caller says whether that stream is painted.
    pub fn with_stderr_emitter_and_color(
        source_map: SourceMap,
        color_choice: ColorChoice,
        terminal: bool,
    ) -> (dcx: Self)
        ensures
            dcx.wf(),
            dcx.buffer() is None,
            dcx.renders() && !dcx.renders_json(),
            dcx.paints() == match color_choice {
                ColorChoice::Always => true,
                ColorChoice::Auto => terminal,
                ColorChoice::Never => false,
            },
            dcx.spec_flags() == (DiagCtxtFlags {
                treat_warnings_as_errors: false,
                emit_warnings: true,
                deduplicate: true,
                color: color_choice,
            }),
            dcx.seen().len() == 0,
            dcx.spec_err_count() == 0,
            dcx.spec_source_map() == source_map,
    {
        let color = match color_choice {
            ColorChoice::Always => true,
            ColorChoice::Auto => terminal,
            ColorChoice::Never => false,
        };
        let flags = DiagCtxtFlags {
            treat_warnings_as_errors: false,
            emit_warnings: true,
            deduplicate: true,
            color: color_choice,
        };
        Self::new(source_map, Emitter::Human { color }, flags)
    }

    /// A context whose diagnostics are written outside as JSON: each
    /// emission hands back the object to write.
    pub fn with_json_emitter(source_map: SourceMap) -> (dcx: Self)
        ensures
            dcx.wf(),
            dcx.buffer() is None,
            dcx.renders() && dcx.renders_json(),
            dcx.seen().len() == 0,
            dcx.spec_err_count() == 0,
            dcx.spec_source_map() == source_map,
    {
        let flags = DiagCtxtFlags {
            treat_warnings_as_errors: false,
            emit_warnings: true,
            deduplicate: true,
            color: ColorChoice::Never,
        };
        Self::new(source_map, Emitter::Json, flags)
    }

    /// A context that renders nothing.
    pub fn with_silent_emitter(source_map: SourceMap, fatal_note: Option<String>) -> (dcx: Self)
        ensures
            dcx.wf(),
            dcx.buffer() is None,
            !dcx.renders(),
            dcx.fatal_note() == crate::diagnostics::emitter::note_view(fatal_note),
            dcx.seen().len() == 0,
            dcx.spec_err_count() == 0,
            dcx.spec_source_map() == source_map,
    {
        let flags = DiagCtxtFlags {
            treat_warnings_as_errors: false,
            emit_warnings: true,
            deduplicate: true,
            color: ColorChoice::Never,
        };
        Self::new(source_map, Emitter::Silent(SilentEmitter::new(fatal_note)), flags)
    }

    /// The flags of the context.
    pub fn flags(&self) -> (flags: DiagCtxtFlags)
        ensures
            flags == self.spec_flags(),
    {
        self.flags
    }

    /// Sets the flags. What was taken in before stays as it is, so the
    /// context must be fresh.
    pub fn set_flags(&mut self, flags: DiagCtxtFlags)
        requires
            old(self).wf(),
            old(self).seen().len() == 0,
            old(self).log().len() == 0,
        ensures
            final(self).wf(),
            final(self).spec_flags() == flags,
            final(self).seen() == old(self).seen(),
            final(self).seen_once() == old(self).seen_once(),
            final(self).log() == old(self).log(),
            final(self).buffer() == old(self).buffer(),
            final(self).spec_err_count() == old(self).spec_err_count(),
            final(self).spec_source_map() == old(self).spec_source_map(),
    {
        self.flags = flags;
    }

    /// The source map of the context.
    pub fn source_map(&self) -> (map: &SourceMap)
        ensures
            map == self.spec_source_map(),
    {
        &self.source_map
    }

    /// The source map of the context, to add files to.
    pub fn source_map_mut(&mut self) -> (map: &mut SourceMap)
        ensures
            *map == *old(self).spec_source_map(),
            *final(map) == *final(self).spec_source_map(),
            final(self).wf() == old(self).wf(),
            final(self).spec_flags() == old(self).spec_flags(),
            final(self).seen() == old(self).seen(),
            final(self).seen_once() == old(self).seen_once(),
            final(self).log() == old(self).log(),
            final(self).buffer() == old(self).buffer(),
            final(self).spec_err_count() == old(self).spec_err_count(),
            final(self).spec_warn_count() == old(self).spec_warn_count(),
    {
        &mut self.source_map
    }

    /// How many errors were taken in, repeated ones too.
    pub fn err_count(&self) -> (n: usize)
        ensures
            n == self.spec_err_count(),
    {
        self.err_count
    }

    /// How many warnings were taken in, repeated ones too.
    pub fn warn_count(&self) -> (n: usize)
        ensures
            n == self.spec_warn_count(),
    {
        self.warn_count
    }

    /// Whether any error was taken in.
    pub fn has_errors(&self) -> (r: Result<(), ErrorGuaranteed>)
        ensures
            r is Ok <==> self.spec_err_count() == 0,
    {
        if self.err_count > 0 {
            Err(ErrorGuaranteed::new_unchecked())
        } else {
            Ok(())
        }
    }

    /// Returns the emitted diagnostics as rendered text: what the buffer of
    /// the emitter holds. `None` where the emitter has no buffer.
    pub fn emitted_diagnostics(&self) -> (text: Option<EmittedDiagnostics>)
        ensures
            match text {
                Some(emitted) => self.buffer() == Some(emitted.0@),
                None => self.buffer() is None,
            },
    {
        match &self.emitter {
            Emitter::HumanBuffer(emitter) => Some(
                EmittedDiagnostics(String::from_str(emitter.buffer())),
            ),
            _ => None,
        }
    }

    /// Returns `Err` with the printed diagnostics if any errors have been
    /// emitted, and `Ok` if none. `None` where the emitter has no buffer.
    pub fn emitted_errors(&self) -> (r: Option<Result<(), EmittedDiagnostics>>)
        ensures
            match r {
                Some(Ok(())) => self.buffer() is Some && self.spec_err_count() == 0,
                Some(Err(emitted)) => self.buffer() == Some(emitted.0@) && self.spec_err_count()
                    > 0,
                None => self.buffer() is None,
            },
    {
        match self.emitted_diagnostics() {
            Some(emitted) => {
                if self.err_count > 0 {
                    Some(Err(emitted))
                } else {
                    Some(Ok(()))
                }
            },
            None => None,
        }
    }

    /// The place in `list` of a diagnostic that holds the same as `diag`.
    fn position(list: &Vec<Diag>, diag: &Diag) -> (found: Option<usize>)
        ensures
            match found {
                Some(i) => i < list@.len() && diags_view(list@)[i as int] == diag@,
                None => !diags_view(list@).contains(diag@),
            },
    {
        let mut i: usize = 0;
        while i < list.len()
            invariant
                i <= list@.len(),
                forall|k: int| 0 <= k < i ==> diags_view(list@)[k] != diag@,
            decreases list@.len() - i,
        {
            if list[i] == *diag {
                return Some(i);
            }
            i += 1;
        }
        None
    }

    /// Whether `list` holds a sub-diagnostic that holds the same as `child`.
    fn holds_once(list: &Vec<SubDiagnostic>, child: &SubDiagnostic) -> (found: bool)
        ensures
            found == children_view(list@).contains(child@),
    {
        let mut i: usize = 0;
        while i < list.len()
            invariant
                i <= list@.len(),
                forall|k: int| 0 <= k < i ==> children_view(list@)[k] != child@,
            decreases list@.len() - i,
        {
            if list[i] == *child {
                assert(children_view(list@)[i as int] == child@);
                return true;
            }
            i += 1;
        }
        false
    }

    /// Takes the sub-diagnostics of a once-level that were shown before out of
    /// a diagnostic, and records those that are shown now.
    fn retain_new_once(emitted_once: &mut Vec<SubDiagnostic>, diag: Diag) -> (shown: Diag)
        requires
            distinct(children_view(old(emitted_once)@)),
        ensures
            distinct(children_view(final(emitted_once)@)),
            shown@ == (DiagView {
                children: once_kept(diag@.children, children_view(old(emitted_once)@)),
                ..diag@
            }),
            children_view(final(emitted_once)@) == once_seen(
                diag@.children,
                children_view(old(emitted_once)@),
            ),
    {
        let Diag { level, messages, span, children, code } = diag;
        let mut kept: Vec<SubDiagnostic> = Vec::new();
        let ghost all = children_view(children@);
        let ghost once0 = children_view(emitted_once@);
        let mut i: usize = 0;
        proof {
            assert(all.skip(0) =~= all);
            assert(children_view(kept@) + once_kept(all, once0) =~= once_kept(all, once0));
        }
        while i < children.len()
            invariant
                i <= children@.len(),
                all == children_view(children@),
                distinct(children_view(emitted_once@)),
                children_view(kept@) + once_kept(all.skip(i as int), children_view(emitted_once@))
                    == once_kept(all, once0),
                once_seen(all.skip(i as int), children_view(emitted_once@)) == once_seen(
                    all,
                    once0,
                ),
            decreases children@.len() - i,
        {
            let child = &children[i];
            let ghost rest = all.skip(i as int);
            let ghost seen = children_view(kept@);
            let ghost once = children_view(emitted_once@);
            proof {
                assert(rest[0] == child@);
                assert(rest.drop_first() =~= all.skip(i + 1));
            }
            let is_once = match child.level {
                Level::OnceNote | Level::OnceHelp => true,
                _ => false,
            };
            if !is_once {
                kept.push(child.clone());
                assert(children_view(kept@) =~= seen.push(child@));
                assert(children_view(kept@) + once_kept(all.skip(i + 1), once) =~= seen + (
                seq![child@] + once_kept(all.skip(i + 1), once)));
            } else if !Self::holds_once(emitted_once, child) {
                kept.push(child.clone());
                emitted_once.push(child.clone());
                assert(children_view(kept@) =~= seen.push(child@));
                assert(children_view(emitted_once@) =~= once.push(child@));
                assert(children_view(kept@) + once_kept(all.skip(i + 1), once.push(child@))
                    =~= seen + (seq![child@] + once_kept(all.skip(i + 1), once.push(child@))));
            }
            i += 1;
        }
        proof {
            assert(all.skip(i as int) =~= Seq::<SubDiagnosticView>::empty());
            assert(children_view(kept@) + Seq::<SubDiagnosticView>::empty() =~= children_view(
                kept@,
            ));
        }
        Diag { level, messages, span, children: kept, code }
    }

    /// What taking in a diagnostic does to a context, and how the context
    /// answers: `after` is `before` once `diagnostic` was taken in with the
    /// answer `emission`.
    pub open spec fn took_in(
        before: &Self,
        after: &Self,
        diagnostic: DiagView,
        emission: Emission,
    ) -> bool {
        let flags = before.spec_flags();
        let diag = taken_in(diagnostic, flags);
        let repeated = before.seen().contains(diag);
        let shows = !dropped(diagnostic, flags) && before.renders() && !(flags.deduplicate
            && repeated);
        let shown = DiagView {
            children: once_kept(diag.children, before.seen_once()),
            ..diag
        };
        let map = *before.spec_source_map();
        let text = before.rendered_by(shown, &map);
        &&& dropped(diagnostic, flags) ==> {
            &&& after.seen() == before.seen()
            &&& after.spec_err_count() == before.spec_err_count()
            &&& after.spec_warn_count() == before.spec_warn_count()
            &&& emission.guaranteed is None
            &&& emission.after == AfterEmit::Proceed
        }
        &&& !dropped(diagnostic, flags) ==> {
            &&& after.seen().contains(diag)
            &&& after.seen() == if repeated {
                before.seen()
            } else {
                before.seen().push(diag)
            }
            &&& after.spec_err_count() == if diag.level.is_error() {
                bumped(before.spec_err_count())
            } else {
                before.spec_err_count()
            }
            &&& after.spec_warn_count() == if diag.level == Level::Warning {
                bumped(before.spec_warn_count())
            } else {
                before.spec_warn_count()
            }
            &&& emission.guaranteed is Some <==> diag.level.is_error()
            &&& emission.after == match diag.level {
                Level::Bug => AfterEmit::AbortBug,
                Level::Fatal => AfterEmit::AbortFatal,
                _ => AfterEmit::Proceed,
            }
        }
        &&& shows ==> {
            &&& after.log() == before.log().push(Shown { diag, shown, map, text })
            &&& after.seen_once() == once_seen(diag.children, before.seen_once())
            &&& before.buffer() matches Some(buffered) ==> after.buffer() == Some(
                buffered + text,
            )
            &&& before.buffer() is None ==> (emission.text matches Some(t) && t@ == text)
        }
        &&& !shows ==> {
            &&& after.log() == before.log()
            &&& after.seen_once() == before.seen_once()
            &&& after.buffer() == before.buffer()
            &&& emission.text is None
        }
        &&& before.buffer() is Some ==> emission.text is None
        &&& before.renders() ==> emission.passed_on is None
        &&& !before.renders() ==> {
            let passes = !dropped(diagnostic, flags) && !(flags.deduplicate && repeated)
                && diag.level == Level::Fatal;
            &&& emission.passed_on is Some <==> passes
            &&& emission.passed_on matches Some(fatal) ==> fatal@ == match before.fatal_note() {
                Some(note) => DiagView {
                    children: diag.children.push(
                        crate::diagnostics::plain_sub(
                            Level::Note,
                            note,
                            crate::diagnostics::message::no_spans(),
                        ),
                    ),
                    ..diag
                },
                None => diag,
            }
        }
    }

    /// Takes in a diagnostic.
    ///
    /// A diagnostic of level `Allow` is dropped, and so is a warning while
    /// warnings are not shown. A warning is made an error where warnings are
    /// to be treated so. What is left is recorded, unless the same was taken
    /// in before; it is rendered, unless it is such a repetition and
    /// repetitions are dropped. Of its sub-diagnostics of a once-level, only
    /// those are rendered that were never rendered before. An error is
    /// counted and answered by the token that it was reported; a fatal
    /// diagnostic and a bug ask for the task or the compiler to end.
    pub fn emit_diagnostic(&mut self, diagnostic: Diag) -> (emission: Emission)
        requires
            old(self).wf(),
        ensures
            final(self).wf(),
            final(self).spec_flags() == old(self).spec_flags(),
            final(self).spec_source_map() == old(self).spec_source_map(),
            final(self).buffer() is Some == old(self).buffer() is Some,
            final(self).renders_json() == old(self).renders_json(),
            DiagCtxt::took_in(old(self), final(self), diagnostic@, emission),
    {
        let diagnostic = match Self::sift(diagnostic, self.flags) {
            Some(diagnostic) => diagnostic,
            None => {
                return Emission {
                    guaranteed: None,
                    after: AfterEmit::Proceed,
                    text: None,
                    passed_on: None,
                };
            },
        };
        let level = diagnostic.level;
        let repeated = Self::record(&mut self.emitted, &diagnostic);
        let mut text: Option<String> = None;
        let mut passed_on: Option<Diag> = None;
        if !(self.flags.deduplicate && repeated) {
            let (rendered_text, fatal) = self.show(diagnostic);
            text = rendered_text;
            passed_on = fatal;
        }
        if level.is_error() {
            self.err_count = bump(self.err_count);
        } else if level == Level::Warning {
            self.warn_count = bump(self.warn_count);
        }
        let guaranteed = if level.is_error() {
            Some(ErrorGuaranteed::new_unchecked())
        } else {
            None
        };
        let after = match level {
            Level::Bug => AfterEmit::AbortBug,
            Level::Fatal => AfterEmit::AbortFatal,
            _ => AfterEmit::Proceed,
        };
        Emission { guaranteed, after, text, passed_on }
    }

    /// Drops what is not to be seen, and makes a warning an error where
    /// warnings are to be treated so.
    fn sift(diagnostic: Diag, flags: DiagCtxtFlags) -> (left: Option<Diag>)
        ensures
            left is None <==> dropped(diagnostic@, flags),
            left matches Some(diag) ==> diag@ == taken_in(diagnostic@, flags),
    {
        let mut diagnostic = diagnostic;
        match diagnostic.level {
            Level::Allow => None,
            Level::Warning => {
                if flags.treat_warnings_as_errors {
                    diagnostic.level = Level::Error;
                    Some(diagnostic)
                } else if !flags.emit_warnings {
                    None
                } else {
                    Some(diagnostic)
                }
            },
            _ => Some(diagnostic),
        }
    }

    /// Records a diagnostic as taken in, unless the same was taken in before.
    /// Returns whether it was.
    fn record(emitted: &mut Vec<Diag>, diagnostic: &Diag) -> (repeated: bool)
        requires
            distinct(diags_view(old(emitted)@)),
        ensures
            distinct(diags_view(final(emitted)@)),
            repeated == diags_view(old(emitted)@).contains(diagnostic@),
            diags_view(final(emitted)@) == if repeated {
                diags_view(old(emitted)@)
            } else {
                diags_view(old(emitted)@).push(diagnostic@)
            },
            diags_view(final(emitted)@).contains(diagnostic@),
    {
        let repeated = Self::position(emitted, diagnostic).is_some();
        if !repeated {
            let ghost seen0 = diags_view(emitted@);
            emitted.push(diagnostic.clone());
            proof {
                let seen = diags_view(emitted@);
                assert(seen =~= seen0.push(diagnostic@));
                assert(seen[seen0.len() as int] == diagnostic@);
                assert forall|i: int, j: int| 0 <= i < j < seen.len() implies seen[i]
                    != seen[j] by {
                    if j == seen0.len() {
                        assert(seen0.contains(seen0[i]));
                    } else {
                        assert(seen0[i] != seen0[j]);
                    }
                }
            }
        }
        repeated
    }

    /// Hands a diagnostic to the emitter. Returns the text that is to be
    /// written outside, and the fatal diagnostic that is to be passed on.
    fn show(&mut self, diagnostic: Diag) -> (r: (Option<String>, Option<Diag>))
        requires
            old(self).output_wf(),
        ensures
            final(self).output_wf(),
            final(self).flags == old(self).flags,
            final(self).source_map == old(self).source_map,
            final(self).emitted == old(self).emitted,
            final(self).err_count == old(self).err_count,
            final(self).warn_count == old(self).warn_count,
            final(self).renders() == old(self).renders(),
            final(self).paints() == old(self).paints(),
            final(self).renders_json() == old(self).renders_json(),
            final(self).buffer() is Some == old(self).buffer() is Some,
            old(self).buffer() is Some ==> r.0 is None,
            final(self).fatal_note() == old(self).fatal_note(),
            old(self).renders() ==> r.1 is None,
            !old(self).renders() ==> {
                &&& final(self).log@ == old(self).log@
                &&& final(self).seen_once() == old(self).seen_once()
                &&& final(self).buffer() == old(self).buffer()
                &&& r.0 is None
                &&& r.1 is Some <==> diagnostic@.level == Level::Fatal
                &&& r.1 matches Some(fatal) ==> fatal@ == match old(self).fatal_note() {
                    Some(note) => DiagView {
                        children: diagnostic@.children.push(
                            crate::diagnostics::plain_sub(
                                Level::Note,
                                note,
                                crate::diagnostics::message::no_spans(),
                            ),
                        ),
                        ..diagnostic@
                    },
                    None => diagnostic@,
                }
            },
            old(self).renders() ==> {
                let shown = DiagView {
                    children: once_kept(diagnostic@.children, old(self).seen_once()),
                    ..diagnostic@
                };
                let map = old(self).source_map;
                let text = old(self).rendered_by(shown, &map);
                &&& final(self).log@ == old(self).log@.push(
                    Shown { diag: diagnostic@, shown, map, text },
                )
                &&& final(self).seen_once() == once_seen(
                    diagnostic@.children,
                    old(self).seen_once(),
                )
                &&& old(self).buffer() matches Some(before) ==> final(self).buffer() == Some(
                    before + text,
                )
                &&& old(self).buffer() is None ==> (r.0 matches Some(t) && t@ == text)
            },
    {
        let ghost diag = diagnostic@;
        let ghost log0 = self.log@;
        match &mut self.emitter {
            Emitter::Silent(emitter) => {
                let passed_on = emitter.emit_diagnostic(&diagnostic);
                (None, passed_on)
            },
            Emitter::Human { color } => {
                // Remove duplicate `Once*` sub-diagnostics.
                let shown = Self::retain_new_once(&mut self.emitted_once, diagnostic);
                let text = render_diagnostic(&shown, &self.source_map, *color);
                proof {
                    self.log@ = log0.push(
                        Shown { diag, shown: shown@, map: self.source_map, text: text@ },
                    );
                }
                (Some(text), None)
            },
            Emitter::Json => {
                // Remove duplicate `Once*` sub-diagnostics.
                let shown = Self::retain_new_once(&mut self.emitted_once, diagnostic);
                let text = render_json(&shown, &self.source_map);
                proof {
                    self.log@ = log0.push(
                        Shown { diag, shown: shown@, map: self.source_map, text: text@ },
                    );
                }
                (Some(text), None)
            },
            Emitter::HumanBuffer(emitter) => {
                // Remove duplicate `Once*` sub-diagnostics.
                let shown = Self::retain_new_once(&mut self.emitted_once, diagnostic);
                emitter.emit_diagnostic(&shown, &self.source_map);
                proof {
                    let entry = Shown {
                        diag,
                        shown: shown@,
                        map: self.source_map,
                        text: rendered(shown@, &self.source_map, emitter.paints()),
                    };
                    self.log@ = log0.push(entry);
                    assert(log0.push(entry).drop_last() =~= log0);
                }
                (None, None)
            },
        }
    }

    /// Where repeated diagnostics are dropped, a buffer holds the rendered form
    /// of every diagnostic that was taken in exactly once: the diagnostics
    /// that were taken in are all different, each has its one entry in the log,
    /// at its place, with the rendered form of what was shown of it, and the
    /// buffer holds the texts of the log, one after the other.
    pub proof fn law_each_diagnostic_rendered_once(&self)
        requires
            self.wf(),
            self.spec_flags().deduplicate,
            self.buffer() is Some,
        ensures
            self.buffer() == Some(joined(self.log())),
            distinct(self.seen()),
            self.log().len() == self.seen().len(),
            forall|i: int|
                0 <= i < self.log().len() ==> {
                    &&& (#[trigger] self.log()[i]).diag == self.seen()[i]
                    &&& self.log()[i].text == self.rendered_by(
                        self.log()[i].shown,
                        &self.log()[i].map,
                    )
                },
            forall|i: int, j: int|
                0 <= i < self.log().len() && 0 <= j < self.log().len() && (
                #[trigger] self.log()[i]).diag == (#[trigger] self.log()[j]).diag ==> i == j,
    {
        assert forall|i: int, j: int|
            0 <= i < self.log().len() && 0 <= j < self.log().len() && (
            #[trigger] self.log()[i]).diag == (#[trigger] self.log()[j]).diag implies i == j by {
            if i < j {
                assert(self.seen()[i] != self.seen()[j]);
            } else if j < i {
                assert(self.seen()[j] != self.seen()[i]);
            }
        }
    }
}

} // verus!
