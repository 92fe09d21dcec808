use solar_front::diagnostics::builder::{DiagBuilder, EmissionGuarantee};
use solar_front::diagnostics::color::{AnsiColor, Color, ColorSpec};
use solar_front::diagnostics::context::{AfterEmit, DiagCtxt, DiagCtxtFlags, Emitter};
use solar_front::diagnostics::emitter::{
    render_diagnostic, ColorChoice, HumanBufferEmitter, SilentEmitter,
};
use solar_front::diagnostics::json::{push_json_string, render_json};
use solar_front::diagnostics::message::{DiagMsg, MultiSpan};
use solar_front::diagnostics::{
    flatten_messages, write_fmt, Diag, DiagId, EmittedDiagnostics, ErrorGuaranteed, Level, Style,
};
use solar_front::pos::BytePos;
use solar_front::source_map::SourceMap;
use solar_front::span::Span;

fn span(lo: u32, hi: u32) -> Span {
    Span::new(BytePos(lo), BytePos(hi))
}

fn map_with(name: &str, src: &str) -> SourceMap {
    let mut map = SourceMap::new();
    map.new_source_file(name.to_string(), src.to_string()).unwrap();
    map
}

#[test]
fn test_styled_messages() {
    // Create a diagnostic with styled messages
    let mut diag = Diag::new(Level::Note, "test");

    diag.highlighted_note(vec![
        ("plain text ", Style::NoStyle),
        ("removed", Style::Removal),
        (" middle ", Style::NoStyle),
        ("added", Style::Addition),
    ]);

    let sub = &diag.children[0];

    // Without styles - just concatenated text
    let plain = sub.label();
    assert_eq!(plain, "plain text removed middle added");

    // With styles - includes ANSI escape codes
    let styled = sub.label_with_style(true);
    assert_eq!(
        styled.to_string(),
        "plain text \u{1b}[91mremoved\u{1b}[0m middle \u{1b}[92madded\u{1b}[0m".to_string()
    );
}

#[test]
fn levels() {
    assert_eq!(Level::Bug.to_str(), "error: internal compiler error");
    assert_eq!(Level::Fatal.to_str(), "error");
    assert_eq!(Level::Error.to_str(), "error");
    assert_eq!(Level::Warning.to_str(), "warning");
    assert_eq!(Level::Note.to_str(), "note");
    assert_eq!(Level::OnceNote.to_str(), "note");
    assert_eq!(Level::Help.to_str(), "help");
    assert_eq!(Level::OnceHelp.to_str(), "help");
    assert_eq!(Level::FailureNote.to_str(), "failure-note");
    for level in [Level::Bug, Level::Fatal, Level::Error, Level::FailureNote] {
        assert!(level.is_error());
    }
    for level in
        [Level::Warning, Level::Note, Level::OnceNote, Level::Help, Level::OnceHelp, Level::Allow]
    {
        assert!(!level.is_error());
    }
    assert_eq!(Level::Bug.guarantee(), EmissionGuarantee::BugAbort);
    assert_eq!(Level::Fatal.guarantee(), EmissionGuarantee::FatalAbort);
    assert_eq!(Level::Error.guarantee(), EmissionGuarantee::ErrorGuaranteed);
    assert_eq!(Level::Warning.guarantee(), EmissionGuarantee::Nothing);
    assert_eq!(Level::FailureNote.guarantee(), EmissionGuarantee::Nothing);
}

#[test]
fn level_colors() {
    assert_eq!(Level::Error.ansi_color(), Some(AnsiColor::BrightRed));
    assert_eq!(Level::Fatal.ansi_color(), Some(AnsiColor::BrightRed));
    assert_eq!(Level::Bug.ansi_color(), Some(AnsiColor::BrightRed));
    assert_eq!(Level::Warning.ansi_color(), Some(AnsiColor::BrightYellow));
    assert_eq!(Level::Note.ansi_color(), Some(AnsiColor::BrightGreen));
    assert_eq!(Level::OnceHelp.ansi_color(), Some(AnsiColor::BrightCyan));
    assert_eq!(Level::FailureNote.ansi_color(), None);
    assert_eq!(Level::Allow.color(), None);
    assert_eq!(Level::Help.color(), Some(Color::Ansi(AnsiColor::BrightCyan)));
    assert_eq!(Level::Warning.style(), ColorSpec {
        fg: Some(Color::Ansi(AnsiColor::BrightYellow)),
        bold: true
    });
}

#[test]
fn style_colors() {
    let plain = ColorSpec { fg: None, bold: false };
    let blue = ColorSpec { fg: Some(Color::Ansi(AnsiColor::BrightBlue)), bold: true };
    assert_eq!(Style::NoStyle.to_color_spec(Level::Error), plain);
    assert_eq!(Style::HeaderMsg.to_color_spec(Level::Error), plain);
    assert_eq!(Style::Quotation.to_color_spec(Level::Error), plain);
    assert_eq!(Style::LineAndColumn.to_color_spec(Level::Error), plain);
    assert_eq!(Style::MainHeaderMsg.to_color_spec(Level::Error), ColorSpec { fg: None, bold: true });
    assert_eq!(Style::LineNumber.to_color_spec(Level::Error), blue);
    assert_eq!(Style::UnderlineSecondary.to_color_spec(Level::Error), blue);
    assert_eq!(Style::LabelSecondary.to_color_spec(Level::Error), blue);
    assert_eq!(Style::UnderlinePrimary.to_color_spec(Level::Warning), Level::Warning.style());
    assert_eq!(Style::LabelPrimary.to_color_spec(Level::Note), Level::Note.style());
    assert_eq!(Style::Level(Level::Help).to_color_spec(Level::Error), Level::Help.style());
    assert_eq!(Style::Highlight.to_color_spec(Level::Error), ColorSpec {
        fg: Some(Color::Ansi(AnsiColor::BrightMagenta)),
        bold: true
    });
    assert_eq!(Style::Addition.to_color_spec(Level::Error), ColorSpec {
        fg: Some(Color::Ansi(AnsiColor::BrightGreen)),
        bold: false
    });
    assert_eq!(Style::Removal.to_color_spec(Level::Error), ColorSpec {
        fg: Some(Color::Ansi(AnsiColor::BrightRed)),
        bold: false
    });
}

#[test]
fn painting_writes_bold_then_colour_then_reset() {
    let msg = DiagMsg::new("x");
    let mut out = String::from("a");
    write_fmt(&mut out, &msg, &Style::Highlight, Level::Error);
    assert_eq!(out, "a\u{1b}[1m\u{1b}[95mx\u{1b}[0m");
    let mut out = String::new();
    write_fmt(&mut out, &msg, &Style::LabelPrimary, Level::Warning);
    assert_eq!(out, "\u{1b}[1m\u{1b}[93mx\u{1b}[0m");
    let mut out = String::new();
    write_fmt(&mut out, &msg, &Style::LineNumber, Level::Warning);
    assert_eq!(out, "\u{1b}[1m\u{1b}[94mx\u{1b}[0m");
    let mut out = String::new();
    write_fmt(&mut out, &msg, &Style::Level(Level::Help), Level::Warning);
    assert_eq!(out, "\u{1b}[1m\u{1b}[96mx\u{1b}[0m");
    let mut out = String::new();
    write_fmt(&mut out, &msg, &Style::MainHeaderMsg, Level::Warning);
    assert_eq!(out, "\u{1b}[1mx\u{1b}[0m");
    // Nothing to switch on, nothing to switch off.
    let mut out = String::new();
    write_fmt(&mut out, &msg, &Style::NoStyle, Level::Warning);
    assert_eq!(out, "x");
    let mut out = String::new();
    write_fmt(&mut out, &msg, &Style::LabelPrimary, Level::Allow);
    assert_eq!(out, "\u{1b}[1mx\u{1b}[0m");
}

#[test]
fn flattening() {
    let messages = vec![
        (DiagMsg::new("a"), Style::NoStyle),
        (DiagMsg::new("b"), Style::Addition),
        (DiagMsg::from_string("c".to_string()), Style::NoStyle),
    ];
    assert_eq!(flatten_messages(&messages, false, Level::Error), "abc");
    assert_eq!(flatten_messages(&messages, true, Level::Error), "a\u{1b}[92mb\u{1b}[0mc");
    assert_eq!(flatten_messages(&[], true, Level::Error), "");
    assert_eq!(flatten_messages(&messages[..1], true, Level::Error), "a");
    assert_eq!(flatten_messages(&messages[1..2], true, Level::Error), "\u{1b}[92mb\u{1b}[0m");
    assert_eq!(flatten_messages(&messages[1..2], false, Level::Error), "b");
}

#[test]
fn diag_ids() {
    assert_eq!(DiagId::new_str("unused-var").as_string(), "unused-var");
    assert_eq!(DiagId::new_from_macro(1234).as_string(), "1234");
    assert_eq!(DiagId::new_from_macro(1).as_string(), "0001");
    assert_eq!(DiagId::new_from_macro(9999).as_string(), "9999");
    assert_eq!(DiagId::new_from_macro(70).as_string(), "0070");
    assert_eq!(DiagId::new_from_macro(305).as_string(), "0305");
    assert!(DiagId::new_from_macro(12) == DiagId::new_str("0012"));
    assert!(DiagId::new_from_macro(12) != DiagId::new_str("12"));
}

#[test]
fn emitted_diagnostics_text() {
    assert!(EmittedDiagnostics(String::new()).is_empty());
    assert!(!EmittedDiagnostics("x".to_string()).is_empty());
    assert_eq!(EmittedDiagnostics("x".to_string()).as_str(), "x");
    assert_eq!(ErrorGuaranteed::new_unchecked(), ErrorGuaranteed::new_unchecked());
}

#[test]
fn building_a_diagnostic() {
    let mut diag = Diag::new(Level::Error, "boom");
    assert!(diag.is_error());
    assert_eq!(diag.level(), Level::Error);
    assert_eq!(diag.label(), "boom");
    assert_eq!(diag.label_with_style(true), "boom");
    assert_eq!(diag.id(), None);
    assert_eq!(diag.messages().len(), 1);
    diag.code(DiagId::new_from_macro(42)).span(MultiSpan::from_span(span(1, 2))).span_label(
        span(3, 4),
        "here",
    );
    assert_eq!(diag.id(), Some("0042".to_string()));
    assert_eq!(diag.span.primary_span(), Some(span(1, 2)));
    assert_eq!(diag.span.primary_spans(), &[span(1, 2)]);
    assert_eq!(diag.span.span_label_count(), 1);
    assert_eq!(diag.span.span_label(0).0, span(3, 4));
    assert_eq!(diag.span.span_label(0).1.as_str(), "here");
    diag.span_labels(&[span(5, 6), span(7, 8)], "there");
    assert_eq!(diag.span.span_label_count(), 3);
    assert_eq!(diag.span.span_label(2).0, span(7, 8));
    assert_eq!(diag.span.span_label(2).1.as_str(), "there");

    diag.warn("w").note("n").help("h").note_once("no").help_once("ho");
    diag.span_warn(MultiSpan::from_span(span(1, 1)), "sw");
    diag.span_note(MultiSpan::from_span(span(2, 2)), "sn");
    diag.span_note_once(MultiSpan::from_span(span(3, 3)), "sno");
    diag.span_help(MultiSpan::from_span(span(4, 4)), "sh");
    diag.highlighted_help(vec![("x", Style::Highlight)]);
    let levels: Vec<Level> = diag.children.iter().map(|c| c.level).collect();
    assert_eq!(levels, vec![
        Level::Warning,
        Level::Note,
        Level::Help,
        Level::OnceNote,
        Level::OnceHelp,
        Level::Warning,
        Level::Note,
        Level::OnceNote,
        Level::Help,
        Level::Help,
    ]);
    let labels: Vec<String> = diag.children.iter().map(|c| c.label()).collect();
    assert_eq!(labels, vec!["w", "n", "h", "no", "ho", "sw", "sn", "sno", "sh", "x"]);
    assert!(diag.children[0].span.is_empty());
    assert_eq!(diag.children[8].span.primary_span(), Some(span(4, 4)));
    assert_eq!(diag.children[9].messages[0].1, Style::Highlight);
}

#[test]
fn diagnostics_are_equal_by_what_they_hold() {
    let make = || {
        let mut d = Diag::new(Level::Error, "boom");
        d.code(DiagId::new_from_macro(7)).span(MultiSpan::from_span(span(1, 2))).note("n");
        d
    };
    assert!(make() == make());
    assert!(make().clone() == make());
    let mut other = make();
    other.note("m");
    assert!(other != make());
    let mut other = make();
    other.level = Level::Warning;
    assert!(other != make());
    let mut other = make();
    other.code(DiagId::new_from_macro(8));
    assert!(other != make());
    let mut other = make();
    other.span(MultiSpan::from_span(span(1, 3)));
    assert!(other != make());
    let mut other = make();
    other.span_label(span(1, 2), "l");
    assert!(other != make());
    assert!(Diag::new(Level::Error, "a") != Diag::new(Level::Error, "b"));
    let mut no_code = make();
    no_code.code = None;
    assert!(no_code != make());
}

#[test]
fn rendering() {
    let map = map_with("a.sol", "contract C {\n  uint x;\n}\n");
    let mut diag = Diag::new(Level::Error, "unexpected token");
    diag.code(DiagId::new_from_macro(2314)).span(MultiSpan::from_span(span(15, 19)));
    diag.note("expected `;`").help("remove it");
    assert_eq!(
        render_diagnostic(&diag, &map, false),
        "error[2314]: unexpected token\n  --> a.sol:2:3\n   |   uint x;\n   |   ^^^^\n  = note: expected `;`\n  = help: remove it\n\n"
    );
    assert_eq!(
        render_diagnostic(&diag, &map, true),
        "\u{1b}[1m\u{1b}[91merror\u{1b}[0m[2314]: unexpected token\n  --> a.sol:2:3\n   |   uint x;\n   |   ^^^^\n  = \u{1b}[1m\u{1b}[92mnote\u{1b}[0m: expected `;`\n  = \u{1b}[1m\u{1b}[96mhelp\u{1b}[0m: remove it\n\n"
    );
    // No code, no span.
    assert_eq!(render_diagnostic(&Diag::new(Level::Warning, "w"), &map, false), "warning: w\n\n");
    assert_eq!(
        render_diagnostic(&Diag::new(Level::Bug, "b"), &map, false),
        "error: internal compiler error: b\n\n"
    );
    // Neither the dummy span nor a span outside the map names a place.
    let mut dummy = Diag::new(Level::Note, "n");
    dummy.span(MultiSpan::from_span(Span::dummy()));
    assert_eq!(render_diagnostic(&dummy, &map, false), "note: n\n\n");
    let mut outside = Diag::new(Level::Note, "n");
    outside.span(MultiSpan::from_span(span(1000, 1001)));
    assert_eq!(render_diagnostic(&outside, &map, false), "note: n\n\n");
    // An empty span gets one caret, and a span over several lines carets to the
    // end of its first line.
    let mut empty = Diag::new(Level::Note, "n");
    empty.span(MultiSpan::from_span(span(9, 9)));
    assert_eq!(
        render_diagnostic(&empty, &map, false),
        "note: n\n  --> a.sol:1:10\n   | contract C {\n   |          ^\n\n"
    );
    let mut long = Diag::new(Level::Note, "n");
    long.span(MultiSpan::from_span(span(9, 20)));
    long.span_label(span(18, 19), "declared here").span_label(span(500, 501), "elsewhere");
    assert_eq!(
        render_diagnostic(&long, &map, false),
        "note: n\n  --> a.sol:1:10\n   | contract C {\n   |          ^^^\n   |   uint x;\n   |      - declared here\n   = elsewhere\n\n"
    );
}

#[test]
fn buffer_emitter_appends() {
    let map = map_with("a.sol", "x");
    let mut emitter = HumanBufferEmitter::new(ColorChoice::Never);
    assert!(!emitter.supports_color());
    assert_eq!(emitter.buffer(), "");
    emitter.emit_diagnostic(&Diag::new(Level::Error, "one"), &map);
    emitter.emit_diagnostic(&Diag::new(Level::Note, "two"), &map);
    assert_eq!(emitter.buffer(), "error: one\n\nnote: two\n\n");
    assert!(HumanBufferEmitter::new(ColorChoice::Always).supports_color());
    assert!(!HumanBufferEmitter::new(ColorChoice::Auto).supports_color());
}

#[test]
fn silent_emitter_passes_fatal_diagnostics_on() {
    let silent = SilentEmitter::new(Some("given up".to_string()));
    assert!(silent.emit_diagnostic(&Diag::new(Level::Error, "e")).is_none());
    let fatal = silent.emit_diagnostic(&Diag::new(Level::Fatal, "f")).unwrap();
    assert_eq!(fatal.level(), Level::Fatal);
    assert_eq!(fatal.label(), "f");
    assert_eq!(fatal.children.len(), 1);
    assert_eq!(fatal.children[0].level, Level::Note);
    assert_eq!(fatal.children[0].label(), "given up");
    let plain = SilentEmitter::new(None);
    let fatal = plain.emit_diagnostic(&Diag::new(Level::Fatal, "f")).unwrap();
    assert!(fatal == Diag::new(Level::Fatal, "f"));
}

#[test]
fn every_diagnostic_is_rendered_once() {
    let mut dcx = DiagCtxt::with_buffer_emitter(map_with("a.sol", "abc\ndef"), ColorChoice::Never);
    assert_eq!(dcx.emitted_diagnostics().unwrap().as_str(), "");
    assert!(matches!(dcx.emitted_errors(), Some(Ok(()))));

    let first = dcx.emit_diagnostic(Diag::new(Level::Error, "one"));
    assert!(first.guaranteed.is_some());
    assert_eq!(first.after, AfterEmit::Proceed);
    assert!(first.text.is_none());
    dcx.emit_diagnostic(Diag::new(Level::Warning, "two"));
    // The same again: counted, and not rendered.
    dcx.emit_diagnostic(Diag::new(Level::Error, "one"));
    dcx.emit_diagnostic(Diag::new(Level::Warning, "two"));
    let mut third = Diag::new(Level::Error, "one");
    third.span(MultiSpan::from_span(span(4, 5)));
    dcx.emit_diagnostic(third);

    let text = dcx.emitted_diagnostics().unwrap();
    assert_eq!(text.as_str(), "error: one\n\nwarning: two\n\nerror: one\n  --> a.sol:2:1\n   | def\n   | ^\n\n");
    assert_eq!(text.as_str().matches("warning: two\n\n").count(), 1);
    assert_eq!(dcx.err_count(), 3);
    assert_eq!(dcx.warn_count(), 2);
    assert!(dcx.has_errors().is_err());
    match dcx.emitted_errors() {
        Some(Err(emitted)) => assert_eq!(emitted.as_str(), text.as_str()),
        _ => panic!("errors were emitted"),
    }
}

#[test]
fn repeated_diagnostics_are_rendered_where_asked_for() {
    let mut dcx = DiagCtxt::with_buffer_emitter(SourceMap::new(), ColorChoice::Never);
    let mut flags = dcx.flags();
    assert_eq!(flags, DiagCtxtFlags {
        treat_warnings_as_errors: false,
        emit_warnings: true,
        deduplicate: true,
        color: ColorChoice::Never
    });
    flags.deduplicate = false;
    dcx.set_flags(flags);
    dcx.emit_diagnostic(Diag::new(Level::Note, "n"));
    dcx.emit_diagnostic(Diag::new(Level::Note, "n"));
    assert_eq!(dcx.emitted_diagnostics().unwrap().as_str(), "note: n\n\nnote: n\n\n");
    assert_eq!(dcx.err_count(), 0);
    assert!(dcx.has_errors().is_ok());
}

#[test]
fn once_notes_are_rendered_once() {
    let mut dcx = DiagCtxt::with_test_emitter(SourceMap::new());
    let mut first = Diag::new(Level::Error, "one");
    first.note_once("only once").note("always").note_once("only once");
    dcx.emit_diagnostic(first);
    let mut second = Diag::new(Level::Error, "two");
    second.note_once("only once").note("always").help_once("only once");
    dcx.emit_diagnostic(second);
    assert_eq!(
        dcx.emitted_diagnostics().unwrap().as_str(),
        "error: one\n  = note: only once\n  = note: always\n\nerror: two\n  = note: always\n  = help: only once\n\n"
    );
}

#[test]
fn warnings_and_allowed_diagnostics() {
    let mut dcx = DiagCtxt::with_test_emitter(SourceMap::new());
    let allowed = dcx.emit_diagnostic(Diag::new(Level::Allow, "a"));
    assert!(allowed.guaranteed.is_none());
    assert_eq!(dcx.emitted_diagnostics().unwrap().as_str(), "");

    let mut flags = dcx.flags();
    flags.emit_warnings = false;
    dcx.set_flags(flags);
    dcx.emit_diagnostic(Diag::new(Level::Warning, "w"));
    assert_eq!(dcx.emitted_diagnostics().unwrap().as_str(), "");
    assert_eq!(dcx.warn_count(), 0);

    let mut strict = DiagCtxt::with_test_emitter(SourceMap::new());
    let mut flags = strict.flags();
    flags.treat_warnings_as_errors = true;
    flags.emit_warnings = false;
    strict.set_flags(flags);
    let emission = strict.emit_diagnostic(Diag::new(Level::Warning, "w"));
    assert!(emission.guaranteed.is_some());
    assert_eq!(strict.emitted_diagnostics().unwrap().as_str(), "error: w\n\n");
    assert_eq!(strict.err_count(), 1);
    assert_eq!(strict.warn_count(), 0);
}

#[test]
fn fatal_diagnostics_and_bugs_ask_to_abort() {
    let mut dcx = DiagCtxt::with_test_emitter(SourceMap::new());
    assert_eq!(dcx.emit_diagnostic(Diag::new(Level::Fatal, "f")).after, AfterEmit::AbortFatal);
    assert_eq!(dcx.emit_diagnostic(Diag::new(Level::Bug, "b")).after, AfterEmit::AbortBug);
    assert_eq!(dcx.emit_diagnostic(Diag::new(Level::Error, "e")).after, AfterEmit::Proceed);
    let note = dcx.emit_diagnostic(Diag::new(Level::FailureNote, "n"));
    assert_eq!(note.after, AfterEmit::Proceed);
    assert!(note.guaranteed.is_some());
    assert_eq!(dcx.err_count(), 4);
    assert_eq!(
        dcx.emitted_diagnostics().unwrap().as_str(),
        "error: f\n\nerror: internal compiler error: b\n\nerror: e\n\nfailure-note: n\n\n"
    );
}

#[test]
fn other_emitters() {
    let mut dcx = DiagCtxt::with_stderr_emitter_and_color(SourceMap::new(), ColorChoice::Never, true);
    assert!(dcx.emitted_diagnostics().is_none());
    assert!(dcx.emitted_errors().is_none());
    let emission = dcx.emit_diagnostic(Diag::new(Level::Error, "e"));
    assert_eq!(emission.text, Some("error: e\n\n".to_string()));
    let again = dcx.emit_diagnostic(Diag::new(Level::Error, "e"));
    assert_eq!(again.text, None);
    assert_eq!(dcx.err_count(), 2);

    let mut auto = DiagCtxt::with_stderr_emitter_and_color(SourceMap::new(), ColorChoice::Auto, true);
    let painted = auto.emit_diagnostic(Diag::new(Level::Warning, "w"));
    assert_eq!(painted.text, Some("\u{1b}[1m\u{1b}[93mwarning\u{1b}[0m: w\n\n".to_string()));
    let mut piped = DiagCtxt::with_stderr_emitter_and_color(SourceMap::new(), ColorChoice::Auto, false);
    assert_eq!(
        piped.emit_diagnostic(Diag::new(Level::Warning, "w")).text,
        Some("warning: w\n\n".to_string())
    );

    let mut silent = DiagCtxt::with_silent_emitter(SourceMap::new(), Some("note".to_string()));
    let emission = silent.emit_diagnostic(Diag::new(Level::Error, "e"));
    assert!(emission.text.is_none() && emission.passed_on.is_none());
    assert!(emission.guaranteed.is_some());
    let emission = silent.emit_diagnostic(Diag::new(Level::Fatal, "f"));
    assert_eq!(emission.after, AfterEmit::AbortFatal);
    assert_eq!(emission.passed_on.unwrap().children[0].label(), "note");
    assert!(silent.emitted_diagnostics().is_none());
    assert_eq!(silent.err_count(), 2);

    let custom = DiagCtxt::new(
        SourceMap::new(),
        Emitter::HumanBuffer(HumanBufferEmitter::new(ColorChoice::Always)),
        DiagCtxtFlags::default(),
    );
    assert_eq!(custom.flags().color, ColorChoice::Auto);
    assert!(custom.flags().deduplicate);
}

#[test]
fn builder_chains_and_emits() {
    let mut dcx = DiagCtxt::with_test_emitter(map_with("f.sol", "ab"));
    let emission = dcx
        .err("bad")
        .code(DiagId::new_from_macro(9))
        .span(MultiSpan::from_span(span(0, 1)))
        .span_label(span(1, 2), "label")
        .warn("w")
        .span_warn(MultiSpan::new(), "sw")
        .note("n")
        .span_note(MultiSpan::new(), "sn")
        .note_once("no")
        .span_note_once(MultiSpan::new(), "sno")
        .help("h")
        .help_once("ho")
        .span_help(MultiSpan::new(), "sh")
        .highlighted_note(vec![("hn", Style::NoStyle)])
        .highlighted_help(vec![("hh", Style::NoStyle)])
        .emit(&mut dcx);
    assert!(emission.guaranteed.is_some());
    assert_eq!(
        dcx.emitted_diagnostics().unwrap().as_str(),
        "error[0009]: bad\n  --> f.sol:1:1\n   | ab\n   | ^\n   | ab\n   |  - label\n  = warning: w\n  = warning: sw\n  = note: n\n  = note: sn\n  = note: no\n  = note: sno\n  = help: h\n  = help: ho\n  = help: sh\n  = note: hn\n  = help: hh\n\n"
    );
    // A cancelled diagnostic is not emitted.
    let cancelled = dcx.warn("never").cancel();
    assert_eq!(cancelled.label(), "never");
    assert_eq!(dcx.warn_count(), 0);
    assert_eq!(dcx.bug("b").diag().level(), Level::Bug);
    assert_eq!(dcx.fatal("f").diag().level(), Level::Fatal);
    assert_eq!(dcx.note("n").diag().level(), Level::Note);
    assert_eq!(dcx.help("h").diag().level(), Level::Help);
    assert_eq!(DiagBuilder::new(Level::Help, "x").diag().label(), "x");
    assert!(DiagBuilder::from_diag(Diag::new(Level::Help, "x")).cancel() == Diag::new(Level::Help, "x"));
}

#[test]
fn files_can_be_added_through_the_context() {
    let mut dcx = DiagCtxt::with_test_emitter(SourceMap::new());
    dcx.source_map_mut().new_source_file("a.sol".to_string(), "abc".to_string()).unwrap();
    assert_eq!(dcx.source_map().files().len(), 1);
    let mut diag = Diag::new(Level::Error, "e");
    diag.span(MultiSpan::from_span(span(1, 2)));
    dcx.emit_diagnostic(diag);
    assert_eq!(dcx.emitted_diagnostics().unwrap().as_str(), "error: e\n  --> a.sol:1:2\n   | abc\n   |  ^\n\n");
}

#[test]
fn multi_spans() {
    let spans = MultiSpan::from_spans(vec![span(1, 2), span(3, 4)]);
    assert_eq!(spans.primary_span(), Some(span(1, 2)));
    assert_eq!(spans.primary_spans(), &[span(1, 2), span(3, 4)]);
    assert!(!spans.is_empty());
    assert!(MultiSpan::new().is_empty());
    assert_eq!(MultiSpan::new().primary_span(), None);
    let mut labelled = MultiSpan::new();
    labelled.push_span_label(span(5, 6), DiagMsg::new("l"));
    assert!(!labelled.is_empty());
    assert!(labelled.clone() == labelled);
    assert!(labelled != MultiSpan::new());
    assert!(MultiSpan::from_span(span(1, 2)) != MultiSpan::from_span(span(1, 3)));
}

#[test]
fn json_strings_are_escaped() {
    let cases = [
        ("", "\"\""),
        ("plain é 😀", "\"plain é 😀\""),
        ("a\"b", "\"a\\\"b\""),
        ("a\\b", "\"a\\\\b\""),
        ("a\nb\rc\td", "\"a\\nb\\rc\\td\""),
        ("\u{0}\u{1f}\u{7f} ", "\"\\u0000\\u001f\u{7f} \""),
        ("\u{b}\u{c}", "\"\\u000b\\u000c\""),
    ];
    for (text, expected) in cases {
        let mut out = String::from("=");
        push_json_string(&mut out, text);
        assert_eq!(out, format!("={expected}"), "{text:?}");
    }
}

#[test]
fn diagnostics_as_json() {
    let map = map_with("a.sol", "contract C {\n  uint x;\n}\n");
    let mut diag = Diag::new(Level::Error, "unexpected \"token\"");
    diag.code(DiagId::new_from_macro(2314)).span(MultiSpan::from_span(span(15, 19)));
    diag.span_label(span(9, 14), "in here").note("expected `;`");
    diag.span_help(MultiSpan::from_span(span(700, 701)), "see there");
    assert_eq!(
        render_json(&diag, &map),
        [
            "{\"level\":\"error\",\"code\":\"2314\",\"messages\":[\"unexpected \\\"token\\\"\"],",
            "\"spans\":[",
            "{\"file\":\"a.sol\",\"lo\":15,\"hi\":19,\"line_start\":2,\"col_start\":3,",
            "\"line_end\":2,\"col_end\":7,\"label\":null},",
            "{\"file\":\"a.sol\",\"lo\":9,\"hi\":14,\"line_start\":1,\"col_start\":10,",
            "\"line_end\":2,\"col_end\":2,\"label\":\"in here\"}],",
            "\"children\":[",
            "{\"level\":\"note\",\"messages\":[\"expected `;`\"],\"spans\":[]},",
            "{\"level\":\"help\",\"messages\":[\"see there\"],\"spans\":[",
            "{\"file\":null,\"lo\":700,\"hi\":701,\"line_start\":0,\"col_start\":0,",
            "\"line_end\":0,\"col_end\":0,\"label\":null}]}",
            "]}\n"
        ]
        .concat()
    );
    let mut plain = Diag::new(Level::Warning, "a");
    plain.messages.push((DiagMsg::new("b"), Style::Highlight));
    assert_eq!(
        render_json(&plain, &map),
        "{\"level\":\"warning\",\"code\":null,\"messages\":[\"a\",\"b\"],\"spans\":[],\"children\":[]}\n"
    );
}

#[test]
fn json_emitter_hands_out_one_object_for_each_diagnostic() {
    let mut dcx = DiagCtxt::with_json_emitter(SourceMap::new());
    assert!(dcx.emitted_diagnostics().is_none());
    let emission = dcx.emit_diagnostic(Diag::new(Level::Error, "e"));
    assert_eq!(
        emission.text,
        Some(
            "{\"level\":\"error\",\"code\":null,\"messages\":[\"e\"],\"spans\":[],\"children\":[]}\n"
                .to_string()
        )
    );
    assert!(emission.guaranteed.is_some());
    assert_eq!(dcx.emit_diagnostic(Diag::new(Level::Error, "e")).text, None);
    assert_eq!(dcx.err_count(), 2);
}
