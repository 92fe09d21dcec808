use solar_front::config::{
    resolve_threads, CompilerOutput, CompilerStage, Language, Opts, SINGLE_THREADED,
};
use solar_front::diagnostics::context::{AfterEmit, DiagCtxt};
use solar_front::diagnostics::emitter::ColorChoice;
use solar_front::session::{inferred_language, Session, SessionBuilder};
use solar_front::source_map::SourceMap;

fn session(opts: Opts) -> Session {
    Session::builder().with_buffer_emitter(ColorChoice::Never).opts(opts).build(1, 4)
}

#[test]
fn threads_are_resolved() {
    assert_eq!(resolve_threads(3, 8), 3);
    assert_eq!(resolve_threads(0, 8), 8);
    assert_eq!(resolve_threads(0, 0), 1);
    assert_eq!(SINGLE_THREADED, 1);
    let sess = Session::builder().with_test_emitter().build(0, 8);
    assert_eq!(sess.threads(), 8);
    assert!(sess.is_parallel() && !sess.is_sequential());
    let sess = Session::builder().with_test_emitter().single_threaded().build(0, 8);
    assert_eq!(sess.threads(), 1);
    assert!(sess.is_sequential() && !sess.is_parallel());
    let sess = Session::builder().with_test_emitter().threads(4).build(0, 8);
    assert_eq!(sess.threads(), 4);
    let sess = Session::builder().threads(2).with_silent_emitter(None).build(0, 8);
    assert_eq!(sess.threads(), 2);
    let sess = Session::builder().with_test_emitter().threads(0).build(0, 1);
    assert!(sess.is_sequential());
}

#[test]
fn the_source_map_of_the_session_is_that_of_the_context() {
    let mut map = SourceMap::new();
    map.new_source_file("a.sol".to_string(), "abc".to_string()).unwrap();
    let sess = Session::new(DiagCtxt::with_test_emitter(SourceMap::new()), map, 7, 2);
    assert_eq!(sess.session_id, 7);
    assert_eq!(sess.source_map().files().len(), 1);
    assert_eq!(sess.dcx.source_map().files().len(), 1);

    let mut map = SourceMap::new();
    map.new_source_file("b.sol".to_string(), "abc".to_string()).unwrap();
    let sess = Session::empty(DiagCtxt::with_test_emitter(map), 8, 2);
    assert_eq!(sess.source_map().files()[0].name(), "b.sol");

    let mut map = SourceMap::new();
    map.new_source_file("c.sol".to_string(), "abc".to_string()).unwrap();
    let sess = SessionBuilder::new().source_map(map).with_buffer_emitter(ColorChoice::Never).build(9, 2);
    assert_eq!(sess.source_map().files()[0].name(), "c.sol");
    assert_eq!(sess.emitted_diagnostics().unwrap().as_str(), "");
    assert!(matches!(sess.emitted_errors(), Some(Ok(()))));
    let sess = SessionBuilder::new().with_stderr_emitter(false).build(9, 2);
    assert!(sess.emitted_diagnostics().is_none());
    let sess = SessionBuilder::new()
        .with_stderr_emitter_and_color(ColorChoice::Always, false)
        .build(9, 2);
    assert!(sess.emitted_errors().is_none());
}

#[test]
fn language_is_inferred_from_all_inputs() {
    assert_eq!(inferred_language(&vec![], Language::Solidity), Language::Solidity);
    assert_eq!(inferred_language(&vec![true], Language::Solidity), Language::Yul);
    assert_eq!(inferred_language(&vec![true, true], Language::Solidity), Language::Yul);
    assert_eq!(inferred_language(&vec![true, false], Language::Solidity), Language::Solidity);
    assert_eq!(inferred_language(&vec![false], Language::Yul), Language::Yul);
    assert_eq!(inferred_language(&vec![], Language::Yul), Language::Yul);

    let mut opts = Opts::default();
    opts.input = vec!["a.yul".to_string(), "dir/b.yul".to_string()];
    let mut sess = session(opts);
    sess.infer_language();
    assert_eq!(sess.opts.language, Language::Yul);

    let mut opts = Opts::default();
    opts.input = vec!["a.yul".to_string(), "b.sol".to_string()];
    let mut sess = session(opts);
    sess.infer_language();
    assert_eq!(sess.opts.language, Language::Solidity);

    let mut sess = session(Opts::default());
    sess.infer_language();
    assert_eq!(sess.opts.language, Language::Solidity);

    let mut opts = Opts::default();
    opts.input = vec!["yul".to_string()];
    let mut sess = session(opts);
    sess.infer_language();
    assert_eq!(sess.opts.language, Language::Solidity);
}

#[test]
fn an_output_asked_for_twice_is_an_error() {
    let mut opts = Opts::default();
    opts.emit = vec![CompilerOutput::Abi, CompilerOutput::Hashes];
    let mut sess = session(opts);
    assert!(sess.validate().is_ok());
    assert!(sess.do_emit(CompilerOutput::Abi));
    assert!(sess.do_emit(CompilerOutput::Hashes));
    assert_eq!(sess.emitted_diagnostics().unwrap().as_str(), "");

    let mut opts = Opts::default();
    opts.emit = vec![CompilerOutput::Abi, CompilerOutput::Hashes, CompilerOutput::Abi];
    let mut sess = session(opts);
    assert!(sess.validate().is_err());
    assert_eq!(
        sess.emitted_diagnostics().unwrap().as_str(),
        "error: cannot specify `--emit abi` twice\n\n"
    );
    assert_eq!(sess.dcx.err_count(), 1);
    assert!(matches!(sess.emitted_errors(), Some(Err(_))));

    let mut opts = Opts::default();
    opts.emit = vec![
        CompilerOutput::Hashes,
        CompilerOutput::Hashes,
        CompilerOutput::Abi,
        CompilerOutput::Hashes,
        CompilerOutput::Abi,
    ];
    let mut sess = session(opts);
    assert!(sess.validate().is_err());
    // Three repeats are three errors, of which the repeated one is shown once.
    assert_eq!(sess.dcx.err_count(), 3);
    assert_eq!(
        sess.emitted_diagnostics().unwrap().as_str(),
        "error: cannot specify `--emit hashes` twice\n\nerror: cannot specify `--emit abi` twice\n\n"
    );

    let mut sess = session(Opts::default());
    assert!(sess.validate().is_ok());
    assert!(!sess.do_emit(CompilerOutput::Abi));
    assert_eq!(CompilerOutput::Abi.name(), "abi");
    assert_eq!(CompilerOutput::Hashes.name(), "hashes");
}

#[test]
fn stopping_after_a_stage() {
    let sess = session(Opts::default());
    assert!(!sess.stop_after(CompilerStage::Parsed));
    let mut opts = Opts::default();
    opts.stop_after = Some(CompilerStage::Lowered);
    let sess = session(opts);
    assert!(sess.stop_after(CompilerStage::Parsed));
    assert!(sess.stop_after(CompilerStage::Lowered));
    assert!(!sess.stop_after(CompilerStage::Analyzed));
    assert!(CompilerStage::Parsed < CompilerStage::Lowered);
    assert_eq!(CompilerStage::Analyzed.rank(), 2);
    assert_eq!(sess.unstable().flags.len(), 0);
}

#[test]
fn a_thread_pool_that_cannot_be_built_is_fatal() {
    let mut sess = Session::builder().with_test_emitter().threads(4).build(0, 8);
    let emission = sess.thread_pool_failure("no threads");
    assert_eq!(emission.after, AfterEmit::AbortFatal);
    assert_eq!(
        sess.emitted_diagnostics().unwrap().as_str(),
        "error: failed to build the rayon thread pool: no threads\n  = help: try running with `--threads 1` / `-j1` to disable parallelism\n\n"
    );
    let mut sess = Session::builder().with_test_emitter().single_threaded().build(0, 8);
    sess.thread_pool_failure("no threads");
    assert_eq!(
        sess.emitted_diagnostics().unwrap().as_str(),
        "error: failed to build the rayon thread pool: no threads\n\n"
    );
}
