//! The compiler session: the diagnostic context with its source map, and the
//! options of one run of the compiler.

use vstd::prelude::*;
use vstd::string::StringExecFns;
use crate::config::{
    resolve_threads, resolved_threads, CompilerOutput, CompilerStage, Language, Opts, UnstableOpts,
};
use crate::diagnostics::builder::DiagBuilder;
use crate::diagnostics::context::{bumped, distinct, DiagCtxt, Emission};
use crate::diagnostics::emitter::ColorChoice;
use crate::diagnostics::{EmittedDiagnostics, ErrorGuaranteed, Level};
use crate::source_map::SourceMap;

verus! {

/// Whether the path names a file with the given extension, by the rules of
/// the platform for paths: `std::path::Path::extension`. Nothing is claimed
/// of the answer, which the platform decides.
#[verifier::external_body]
fn has_extension(path: &str, extension: &str) -> bool {
    std::path::Path::new(path).extension() == Some(extension.as_ref())
}

/// The language that is inferred for input files, of which `is_yul` says for
/// each whether it has the extension of Yul: Yul if there are input files and
/// all are Yul files, and else the language as it was.
pub fn inferred_language(is_yul: &Vec<bool>, current: Language) -> (language: Language)
    ensures
        language == if is_yul@.len() > 0 && forall|i: int| 0 <= i < is_yul@.len() ==> is_yul@[i] {
            Language::Yul
        } else {
            current
        },
{
    if is_yul.len() == 0 {
        return current;
    }
    let mut i: usize = 0;
    while i < is_yul.len()
        invariant
            i <= is_yul@.len(),
            forall|k: int| 0 <= k < i ==> is_yul@[k],
        decreases is_yul@.len() - i,
    {
        if !is_yul[i] {
            return current;
        }
        i += 1;
    }
    Language::Yul
}

/// How many items of the list stand behind an equal item.
pub open spec fn repeats<T>(list: Seq<T>) -> nat
    decreases list.len(),
{
    if list.len() == 0 {
        0
    } else if list.drop_last().contains(list.last()) {
        repeats(list.drop_last()) + 1
    } else {
        repeats(list.drop_last())
    }
}

/// A list without repeats holds no item twice, and the other way round.
pub proof fn lemma_repeats_distinct<T>(list: Seq<T>)
    ensures
        repeats(list) == 0 <==> distinct(list),
    decreases list.len(),
{
    if list.len() > 0 {
        let front = list.drop_last();
        lemma_repeats_distinct(front);
        if repeats(list) == 0 {
            assert forall|i: int, j: int| 0 <= i < j < list.len() implies list[i] != list[j] by {
                if j == list.len() - 1 {
                    assert(front[i] == list[i]);
                    assert(!front.contains(list.last()));
                } else {
                    assert(front[i] != front[j]);
                }
            }
        }
        if distinct(list) {
            assert forall|i: int, j: int| 0 <= i < j < front.len() implies front[i]
                != front[j] by {
                assert(list[i] != list[j]);
            }
            if front.contains(list.last()) {
                let i = choose|i: int| 0 <= i < front.len() && front[i] == list.last();
                assert(list[i] != list[list.len() - 1]);
            }
        }
    }
}

/// The diagnostic that reports an option that was given twice.
pub open spec fn twice_error(name: Seq<char>, item: CompilerOutput) -> crate::diagnostics::DiagView {
    DiagBuilder::spec_start(
        Level::Error,
        "cannot specify `--"@ + name + " "@ + item.spec_name() + "` twice"@,
    )
}

/// Every item of the list that stands behind an equal item was reported:
/// its error is among the diagnostics that the context has seen.
pub open spec fn repeats_reported(
    list: Seq<CompilerOutput>,
    name: Seq<char>,
    seen: Seq<crate::diagnostics::DiagView>,
) -> bool {
    forall|i: int|
        0 <= i < list.len() && list.take(i).contains(#[trigger] list[i]) ==> seen.contains(
            twice_error(name, list[i]),
        )
}

/// The count after `n` more, saturating.
pub open spec fn bumped_by(count: usize, n: nat) -> usize
    decreases n,
{
    if n == 0 {
        count
    } else {
        bumped(bumped_by(count, (n - 1) as nat))
    }
}

/// Information about the current compiler session.
pub struct Session {
    /// The diagnostics context. It holds the source map.
    pub dcx: DiagCtxt,
    /// Unique ID of this session.
    pub session_id: usize,
    /// The compiler options.
    pub opts: Opts,
    /// The number of logical cores: what a request for zero threads
    /// resolves to.
    pub logical_cores: usize,
}

/// Builds a [`Session`].
pub struct SessionBuilder {
    dcx: Option<DiagCtxt>,
    source_map: Option<SourceMap>,
    opts: Option<Opts>,
}

impl SessionBuilder {
    /// Whether a diagnostic context was set.
    pub closed spec fn has_dcx(&self) -> bool {
        self.dcx is Some
    }

    /// The diagnostic context that was set.
    pub closed spec fn spec_dcx(&self) -> DiagCtxt {
        self.dcx->0
    }

    /// The source map that was set and is not yet part of a diagnostic
    /// context.
    pub closed spec fn spec_source_map(&self) -> Option<SourceMap> {
        self.source_map
    }

    /// The options that were set.
    pub closed spec fn spec_opts(&self) -> Option<Opts> {
        self.opts
    }

    /// `map` is the source map that a diagnostic context made by the
    /// builder holds: the one that was set, or an empty one.
    pub open spec fn takes_map(&self, map: &SourceMap) -> bool {
        match self.spec_source_map() {
            Some(set) => *map == set,
            None => map.view_files().len() == 0,
        }
    }

    /// The number of threads that was asked for; zero where none was.
    pub closed spec fn spec_threads(&self) -> usize {
        match self.opts {
            Some(opts) => opts.threads,
            None => 0,
        }
    }

    /// A builder with nothing set.
    pub fn new() -> (builder: Self)
        ensures
            !builder.has_dcx(),
            builder.spec_source_map() is None,
            builder.spec_threads() == 0,
            builder.spec_opts() is None,
    {
        SessionBuilder { dcx: None, source_map: None, opts: None }
    }

    /// Whether a diagnostic context was set, so that a session can be built.
    pub fn is_ready(&self) -> (r: bool)
        ensures
            r == self.has_dcx(),
    {
        self.dcx.is_some()
    }

    /// Sets the diagnostic context.
    pub fn dcx(self, dcx: DiagCtxt) -> (builder: Self)
        ensures
            builder.has_dcx(),
            builder.spec_dcx() == dcx,
            builder.spec_source_map() == self.spec_source_map(),
            builder.spec_threads() == self.spec_threads(),
            builder.spec_opts() == self.spec_opts(),
    {
        SessionBuilder { dcx: Some(dcx), source_map: self.source_map, opts: self.opts }
    }

    /// Sets the source map.
    pub fn source_map(self, source_map: SourceMap) -> (builder: Self)
        ensures
            builder.has_dcx() == self.has_dcx(),
            self.has_dcx() ==> builder.spec_dcx() == self.spec_dcx(),
            builder.spec_source_map() == Some(source_map),
            builder.spec_threads() == self.spec_threads(),
            builder.spec_opts() == self.spec_opts(),
    {
        SessionBuilder { dcx: self.dcx, source_map: Some(source_map), opts: self.opts }
    }

    /// Sets the options.
    pub fn opts(self, opts: Opts) -> (builder: Self)
        ensures
            builder.has_dcx() == self.has_dcx(),
            self.has_dcx() ==> builder.spec_dcx() == self.spec_dcx(),
            builder.spec_source_map() == self.spec_source_map(),
            builder.spec_threads() == opts.threads,
            builder.spec_opts() == Some(opts),
    {
        SessionBuilder { dcx: self.dcx, source_map: self.source_map, opts: Some(opts) }
    }

    /// Sets the diagnostic context to a test emitter.
    pub fn with_test_emitter(self) -> (builder: Self)
        ensures
            builder.has_dcx(),
            builder.spec_dcx().wf(),
            self.takes_map(builder.spec_dcx().spec_source_map()),
            builder.spec_dcx().seen().len() == 0,
            builder.spec_dcx().buffer() == Some(Seq::<char>::empty()),
            builder.spec_dcx().spec_err_count() == 0,
            builder.spec_source_map() is None,
            builder.spec_threads() == self.spec_threads(),
            builder.spec_opts() == self.spec_opts(),
    {
        let (sm, builder) = self.get_source_map();
        builder.dcx(DiagCtxt::with_test_emitter(sm))
    }

    /// Sets the diagnostic context to a stderr emitter. The caller says
    /// whether the standard error stream is a terminal.
    pub fn with_stderr_emitter(self, terminal: bool) -> (builder: Self)
        ensures
            builder.has_dcx(),
            builder.spec_dcx().wf(),
            self.takes_map(builder.spec_dcx().spec_source_map()),
            builder.spec_dcx().seen().len() == 0,
            builder.spec_dcx().buffer() is None,
            builder.spec_dcx().spec_err_count() == 0,
            builder.spec_source_map() is None,
            builder.spec_threads() == self.spec_threads(),
            builder.spec_opts() == self.spec_opts(),
    {
        self.with_stderr_emitter_and_color(ColorChoice::Auto, terminal)
    }

    /// Sets the diagnostic context to a stderr emitter and a color choice.
    pub fn with_stderr_emitter_and_color(
        self,
        color_choice: ColorChoice,
        terminal: bool,
    ) -> (builder: Self)
        ensures
            builder.has_dcx(),
            builder.spec_dcx().wf(),
            self.takes_map(builder.spec_dcx().spec_source_map()),
            builder.spec_dcx().seen().len() == 0,
            builder.spec_dcx().buffer() is None,
            builder.spec_dcx().spec_err_count() == 0,
            builder.spec_source_map() is None,
            builder.spec_threads() == self.spec_threads(),
            builder.spec_opts() == self.spec_opts(),
    {
        let (sm, builder) = self.get_source_map();
        builder.dcx(DiagCtxt::with_stderr_emitter_and_color(sm, color_choice, terminal))
    }

    /// Sets the diagnostic context to a human emitter that emits diagnostics
    /// to a local buffer.
    pub fn with_buffer_emitter(self, color_choice: ColorChoice) -> (builder: Self)
        ensures
            builder.has_dcx(),
            builder.spec_dcx().wf(),
            self.takes_map(builder.spec_dcx().spec_source_map()),
            builder.spec_dcx().seen().len() == 0,
            builder.spec_dcx().buffer() == Some(Seq::<char>::empty()),
            builder.spec_dcx().spec_err_count() == 0,
            builder.spec_source_map() is None,
            builder.spec_threads() == self.spec_threads(),
            builder.spec_opts() == self.spec_opts(),
    {
        let (sm, builder) = self.get_source_map();
        builder.dcx(DiagCtxt::with_buffer_emitter(sm, color_choice))
    }

    /// Sets the diagnostic context to a silent emitter.
    pub fn with_silent_emitter(self, fatal_note: Option<String>) -> (builder: Self)
        ensures
            builder.has_dcx(),
            builder.spec_dcx().wf(),
            self.takes_map(builder.spec_dcx().spec_source_map()),
            builder.spec_dcx().seen().len() == 0,
            builder.spec_dcx().buffer() is None,
            builder.spec_dcx().spec_err_count() == 0,
            builder.spec_source_map() is None,
            builder.spec_threads() == self.spec_threads(),
            builder.spec_opts() == self.spec_opts(),
    {
        let (sm, builder) = self.get_source_map();
        builder.dcx(DiagCtxt::with_silent_emitter(sm, fatal_note))
    }

    /// Sets the number of threads to use for parallelism to 1.
    pub fn single_threaded(self) -> (builder: Self)
        ensures
            builder.has_dcx() == self.has_dcx(),
            self.has_dcx() ==> builder.spec_dcx() == self.spec_dcx(),
            builder.spec_source_map() == self.spec_source_map(),
            builder.spec_threads() == 1,
            builder.spec_opts() matches Some(opts) && opts.threads == 1 && (
            self.spec_opts() matches Some(before) ==> opts == (Opts { threads: 1, ..before })),
    {
        self.threads(1)
    }

    /// Sets the number of threads to use for parallelism. Zero specifies the
    /// number of logical cores.
    pub fn threads(self, threads: usize) -> (builder: Self)
        ensures
            builder.has_dcx() == self.has_dcx(),
            self.has_dcx() ==> builder.spec_dcx() == self.spec_dcx(),
            builder.spec_source_map() == self.spec_source_map(),
            builder.spec_threads() == threads,
            builder.spec_opts() matches Some(opts) && opts.threads == threads && (
            self.spec_opts() matches Some(before) ==> opts == (Opts { threads, ..before })),
    {
        let mut opts = match self.opts {
            Some(opts) => opts,
            None => Opts::default(),
        };
        opts.threads = threads;
        SessionBuilder { dcx: self.dcx, source_map: self.source_map, opts: Some(opts) }
    }

    /// Takes the source map out of the builder, or a new one where none was
    /// set, for the diagnostic context that is about to be made.
    fn get_source_map(self) -> (r: (SourceMap, Self))
        ensures
            r.1.dcx == self.dcx,
            r.1.opts == self.opts,
            r.1.source_map is None,
            self.takes_map(&r.0),
    {
        let map = match self.source_map {
            Some(map) => map,
            None => SourceMap::new(),
        };
        (map, SessionBuilder { dcx: self.dcx, source_map: None, opts: self.opts })
    }

    /// Consumes the builder to create a new session.
    ///
    /// The diagnostic context must have been set. The source map of the
    /// session is the one of the diagnostic context; a source map that was set
    /// besides takes its place there. `session_id` tells this session from
    /// all others of the process, and `logical_cores` is what a request for
    /// zero threads resolves to.
    pub fn build(self, session_id: usize, logical_cores: usize) -> (session: Session)
        requires
            self.has_dcx(),
            self.spec_dcx().wf(),
        ensures
            session.dcx.wf(),
            session.opts.threads == self.spec_threads(),
            match self.spec_opts() {
                Some(opts) => session.opts == opts,
                None => {
                    &&& session.opts.input@.len() == 0
                    &&& session.opts.language == Language::Solidity
                    &&& session.opts.emit@.len() == 0
                    &&& session.opts.stop_after is None
                    &&& session.opts.unstable.flags@.len() == 0
                },
            },
            session.logical_cores == logical_cores,
            session.session_id == session_id,
            session.dcx.spec_source_map() == match self.spec_source_map() {
                Some(map) => map,
                None => *self.spec_dcx().spec_source_map(),
            },
            session.dcx.seen() == self.spec_dcx().seen(),
            session.dcx.buffer() == self.spec_dcx().buffer(),
            session.dcx.spec_err_count() == self.spec_dcx().spec_err_count(),
            session.dcx.spec_flags() == self.spec_dcx().spec_flags(),
    {
        let mut dcx = match self.dcx {
            Some(dcx) => dcx,
            None => vstd::pervasive::unreached(),
        };
        match self.source_map {
            Some(map) => {
                let place = dcx.source_map_mut();
                *place = map;
            },
            None => {},
        }
        let opts = match self.opts {
            Some(opts) => opts,
            None => Opts::default(),
        };
        Session { dcx, session_id, opts, logical_cores }
    }
}

impl Session {
    /// The number of threads to use: the number asked for, and for zero the
    /// number of logical cores, but at least one.
    pub open spec fn spec_threads(&self) -> usize {
        resolved_threads(self.opts.threads, self.logical_cores)
    }

    /// Creates a new session with the given diagnostics context and source
    /// map, which takes the place of the one in the context.
    pub fn new(
        dcx: DiagCtxt,
        source_map: SourceMap,
        session_id: usize,
        logical_cores: usize,
    ) -> (session: Self)
        requires
            dcx.wf(),
        ensures
            session.dcx.wf(),
            session.dcx.spec_source_map() == source_map,
            session.session_id == session_id,
            session.spec_threads() == resolved_threads(0, logical_cores),
    {
        Self::builder().dcx(dcx).source_map(source_map).build(session_id, logical_cores)
    }

    /// Creates a new session with the given diagnostics context and the
    /// source map that it holds.
    pub fn empty(dcx: DiagCtxt, session_id: usize, logical_cores: usize) -> (session: Self)
        requires
            dcx.wf(),
        ensures
            session.dcx.wf(),
            session.dcx.spec_source_map() == dcx.spec_source_map(),
            session.session_id == session_id,
            session.spec_threads() == resolved_threads(0, logical_cores),
    {
        Self::builder().dcx(dcx).build(session_id, logical_cores)
    }

    /// Creates a new session builder.
    pub fn builder() -> (builder: SessionBuilder)
        ensures
            !builder.has_dcx(),
            builder.spec_source_map() is None,
            builder.spec_threads() == 0,
            builder.spec_opts() is None,
    {
        SessionBuilder::new()
    }

    /// Infers the language from the input files: Yul, where there are input
    /// files and all of them have the extension `yul`.
    pub fn infer_language(&mut self)
        ensures
            final(self).dcx == old(self).dcx,
            final(self).opts.input == old(self).opts.input,
            final(self).opts.emit == old(self).opts.emit,
            final(self).opts.threads == old(self).opts.threads,
            final(self).opts.stop_after == old(self).opts.stop_after,
            final(self).opts.unstable == old(self).opts.unstable,
            final(self).logical_cores == old(self).logical_cores,
            final(self).session_id == old(self).session_id,
            old(self).opts.input@.len() == 0 ==> final(self).opts.language == old(
                self,
            ).opts.language,
            final(self).opts.language == old(self).opts.language || final(self).opts.language
                == Language::Yul,
    {
        let mut is_yul: Vec<bool> = Vec::new();
        let mut i: usize = 0;
        while i < self.opts.input.len()
            invariant
                i <= self.opts.input@.len(),
                is_yul@.len() == i,
                *self == *old(self),
            decreases self.opts.input@.len() - i,
        {
            is_yul.push(has_extension(self.opts.input[i].as_str(), "yul"));
            i += 1;
        }
        self.opts.language = inferred_language(&is_yul, self.opts.language);
    }

    /// Validates the session options: no kind of output may be asked for
    /// twice. Every repeated kind is reported as an error.
    pub fn validate(&mut self) -> (r: Result<(), ErrorGuaranteed>)
        requires
            old(self).dcx.wf(),
        ensures
            final(self).dcx.wf(),
            final(self).opts == old(self).opts,
            final(self).logical_cores == old(self).logical_cores,
            final(self).session_id == old(self).session_id,
            r is Ok <==> distinct(old(self).opts.emit@),
            final(self).dcx.spec_err_count() == bumped_by(
                old(self).dcx.spec_err_count(),
                repeats(old(self).opts.emit@),
            ),
            r is Ok ==> final(self).dcx.seen() == old(self).dcx.seen() && final(self).dcx.buffer()
                == old(self).dcx.buffer(),
            repeats_reported(old(self).opts.emit@, "emit"@, final(self).dcx.seen()),
    {
        proof {
            lemma_repeats_distinct(self.opts.emit@);
        }
        Self::check_unique(&mut self.dcx, "emit", &self.opts.emit)
    }

    fn check_unique(dcx: &mut DiagCtxt, name: &str, list: &Vec<CompilerOutput>) -> (r: Result<
        (),
        ErrorGuaranteed,
    >)
        requires
            old(dcx).wf(),
        ensures
            final(dcx).wf(),
            r is Ok <==> repeats(list@) == 0,
            final(dcx).spec_err_count() == bumped_by(old(dcx).spec_err_count(), repeats(list@)),
            r is Ok ==> final(dcx).seen() == old(dcx).seen() && final(dcx).buffer() == old(
                dcx,
            ).buffer(),
            repeats_reported(list@, name@, final(dcx).seen()),
            forall|d: crate::diagnostics::DiagView|
                old(dcx).seen().contains(d) ==> final(dcx).seen().contains(d),
    {
        let mut result: Result<(), ErrorGuaranteed> = Ok(());
        let mut i: usize = 0;
        assert(list@.take(0) =~= Seq::<CompilerOutput>::empty());
        while i < list.len()
            invariant
                i <= list@.len(),
                dcx.wf(),
                result is Ok <==> repeats(list@.take(i as int)) == 0,
                dcx.spec_err_count() == bumped_by(
                    old(dcx).spec_err_count(),
                    repeats(list@.take(i as int)),
                ),
                result is Ok ==> dcx.seen() == old(dcx).seen() && dcx.buffer() == old(dcx).buffer(),
                repeats_reported(list@.take(i as int), name@, dcx.seen()),
                forall|d: crate::diagnostics::DiagView|
                    old(dcx).seen().contains(d) ==> dcx.seen().contains(d),
            decreases list@.len() - i,
        {
            let item = list[i];
            let ghost seen_before = dcx.seen();
            proof {
                assert(list@.take(i + 1).drop_last() =~= list@.take(i as int));
                assert(list@.take(i + 1).last() == item);
            }
            // Whether the item stood in the list before.
            let mut seen = false;
            let mut k: usize = 0;
            while k < i
                invariant
                    k <= i <= list@.len(),
                    item == list@[i as int],
                    seen == (exists|j: int| 0 <= j < k && #[trigger] list@[j] == item),
                decreases i - k,
            {
                if list[k] == item {
                    seen = true;
                }
                k += 1;
            }
            proof {
                let front = list@.take(i as int);
                if seen {
                    let j = choose|j: int| 0 <= j < i && #[trigger] list@[j] == item;
                    assert(front[j] == item);
                }
                if front.contains(item) {
                    let j = choose|j: int| 0 <= j < front.len() && front[j] == item;
                    assert(list@[j] == item);
                }
            }
            if seen {
                let mut msg = String::from_str("cannot specify `--");
                msg.append(name);
                msg.append(" ");
                msg.append(item.name());
                msg.append("` twice");
                assert(msg@ =~= "cannot specify `--"@ + name@ + " "@ + item.spec_name()
                    + "` twice"@);
                let emission = DiagBuilder::new(Level::Error, msg.as_str()).emit(dcx);
                result = Err(ErrorGuaranteed::new_unchecked());
            }
            proof {
                let now = dcx.seen();
                assert forall|d: crate::diagnostics::DiagView|
                    seen_before.contains(d) implies now.contains(d) by {
                    if now != seen_before {
                        let j = choose|j: int| 0 <= j < seen_before.len() && seen_before[j] == d;
                        assert(now[j] == d);
                    }
                }
                let front = list@.take(i as int);
                let next = list@.take(i + 1);
                assert forall|j: int|
                    0 <= j < next.len() && next.take(j).contains(#[trigger] next[j]) implies now.contains(
                    twice_error(name@, next[j]),
                ) by {
                    assert(next[j] == list@[j]);
                    if j < i {
                        assert(front[j] == list@[j]);
                        assert(front.take(j) =~= next.take(j));
                        assert(seen_before.contains(twice_error(name@, front[j])));
                    } else {
                        assert(next.take(j) =~= front);
                    }
                }
            }
            i += 1;
        }
        assert(list@.take(i as int) =~= list@);
        result
    }

    /// Returns the unstable options.
    pub fn unstable(&self) -> (unstable: &UnstableOpts)
        ensures
            *unstable == self.opts.unstable,
    {
        &self.opts.unstable
    }

    /// Returns the emitted diagnostics. Can be empty.
    pub fn emitted_diagnostics(&self) -> (text: Option<EmittedDiagnostics>)
        ensures
            match text {
                Some(emitted) => self.dcx.buffer() == Some(emitted.0@),
                None => self.dcx.buffer() is None,
            },
    {
        self.dcx.emitted_diagnostics()
    }

    /// Returns `Err` with the printed diagnostics if any errors have been
    /// emitted.
    pub fn emitted_errors(&self) -> (r: Option<Result<(), EmittedDiagnostics>>)
        ensures
            match r {
                Some(Ok(())) => self.dcx.buffer() is Some && self.dcx.spec_err_count() == 0,
                Some(Err(emitted)) => self.dcx.buffer() == Some(emitted.0@)
                    && self.dcx.spec_err_count() > 0,
                None => self.dcx.buffer() is None,
            },
    {
        self.dcx.emitted_errors()
    }

    /// Returns a reference to the source map: the one of the diagnostic
    /// context.
    pub fn source_map(&self) -> (map: &SourceMap)
        ensures
            map == self.dcx.spec_source_map(),
    {
        self.dcx.source_map()
    }

    /// Returns `true` if compilation should stop after the given stage: a
    /// stage to stop after is set, and it is this stage or a later one.
    pub fn stop_after(&self, stage: CompilerStage) -> (r: bool)
        ensures
            r == match self.opts.stop_after {
                Some(stop) => stop.spec_rank() >= stage.spec_rank(),
                None => false,
            },
    {
        match self.opts.stop_after {
            Some(stop) => stop.rank() >= stage.rank(),
            None => false,
        }
    }

    /// Returns the number of threads to use for parallelism, at least one.
    pub fn threads(&self) -> (threads: usize)
        ensures
            threads == self.spec_threads(),
            threads > 0,
    {
        resolve_threads(self.opts.threads, self.logical_cores)
    }

    /// Returns `true` if parallelism is not enabled.
    pub fn is_sequential(&self) -> (r: bool)
        ensures
            r == (self.spec_threads() == 1),
    {
        self.threads() == 1
    }

    /// Returns `true` if parallelism is enabled.
    pub fn is_parallel(&self) -> (r: bool)
        ensures
            r == (self.spec_threads() != 1),
    {
        !self.is_sequential()
    }

    /// Returns `true` if the given output should be emitted.
    pub fn do_emit(&self, output: CompilerOutput) -> (r: bool)
        ensures
            r == self.opts.emit@.contains(output),
    {
        let mut i: usize = 0;
        while i < self.opts.emit.len()
            invariant
                i <= self.opts.emit@.len(),
                forall|k: int| 0 <= k < i ==> self.opts.emit@[k] != output,
            decreases self.opts.emit@.len() - i,
        {
            if self.opts.emit[i] == output {
                return true;
            }
            i += 1;
        }
        false
    }

    /// Reports that the pool of worker threads could not be built: a fatal
    /// diagnostic with the reason, and, where more than one thread was asked
    /// for, the advice to run without parallelism.
    pub fn thread_pool_failure(&mut self, reason: &str) -> (emission: Emission)
        requires
            old(self).dcx.wf(),
        ensures
            final(self).dcx.wf(),
            final(self).opts == old(self).opts,
            final(self).logical_cores == old(self).logical_cores,
            final(self).session_id == old(self).session_id,
            DiagCtxt::took_in(
                &old(self).dcx,
                &final(self).dcx,
                Session::spec_thread_pool_failure(reason@, old(self).spec_threads()),
                emission,
            ),
    {
        let mut msg = String::from_str("failed to build the rayon thread pool: ");
        msg.append(reason);
        let mut err = DiagBuilder::new(Level::Fatal, msg.as_str());
        if self.threads() > 1 {
            err = err.help("try running with `--threads 1` / `-j1` to disable parallelism");
        }
        err.emit(&mut self.dcx)
    }

    /// The diagnostic that reports that the pool of worker threads could not
    /// be built.
    pub open spec fn spec_thread_pool_failure(reason: Seq<char>, threads: usize) -> crate::diagnostics::DiagView {
        let fatal = DiagBuilder::spec_start(
            Level::Fatal,
            "failed to build the rayon thread pool: "@ + reason,
        );
        if threads > 1 {
            crate::diagnostics::builder::with_child(
                fatal,
                crate::diagnostics::plain_sub(
                    Level::Help,
                    "try running with `--threads 1` / `-j1` to disable parallelism"@,
                    crate::diagnostics::message::no_spans(),
                ),
            )
        } else {
            fatal
        }
    }
}

} // verus!
