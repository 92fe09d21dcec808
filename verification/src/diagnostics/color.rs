//! Terminal colours of diagnostics, and the text that paints with them.
//!
//! A [`ColorSpec`] holds what a diagnostic ever asks of a terminal: a
//! foreground colour and bold face. The escape codes are written by the
//! `anstyle` crate.

use vstd::prelude::*;

verus! {

/// The ANSI colours that diagnostics use, all of the bright half of the
/// palette.
#[derive(Clone, Copy, Debug, PartialEq, Eq, Hash, Structural)]
pub enum AnsiColor {
    BrightRed,
    BrightGreen,
    BrightYellow,
    BrightBlue,
    BrightMagenta,
    BrightCyan,
}

/// A colour of the terminal.
#[derive(Clone, Copy, Debug, PartialEq, Eq, Hash, Structural)]
pub enum Color {
    /// One of the sixteen colours of the ANSI palette.
    Ansi(AnsiColor),
}

/// How a piece of text is painted: an optional foreground colour, and
/// whether it is bold.
#[derive(Clone, Copy, Debug, PartialEq, Eq, Hash, Structural)]
pub struct ColorSpec {
    /// The foreground colour, if any.
    pub fg: Option<Color>,
    /// Whether the text is bold.
    pub bold: bool,
}

/// The last digit of the code that selects a bright foreground colour.
pub open spec fn color_digit(color: AnsiColor) -> char {
    match color {
        AnsiColor::BrightRed => '1',
        AnsiColor::BrightGreen => '2',
        AnsiColor::BrightYellow => '3',
        AnsiColor::BrightBlue => '4',
        AnsiColor::BrightMagenta => '5',
        AnsiColor::BrightCyan => '6',
    }
}

/// The escape codes that switch painting on: bold first, then the colour.
pub open spec fn paint_on(spec: ColorSpec) -> Seq<char> {
    let bold = if spec.bold {
        seq!['\x1b', '[', '1', 'm']
    } else {
        Seq::empty()
    };
    let fg = match spec.fg {
        Some(Color::Ansi(color)) => seq!['\x1b', '[', '9', color_digit(color), 'm'],
        None => Seq::empty(),
    };
    bold + fg
}

/// The escape code that switches painting off; nothing where nothing was
/// switched on.
pub open spec fn paint_off(spec: ColorSpec) -> Seq<char> {
    if spec.bold || spec.fg is Some {
        seq!['\x1b', '[', '0', 'm']
    } else {
        Seq::empty()
    }
}

/// The text between the codes that switch its painting on and off.
pub open spec fn painted(spec: ColorSpec, text: Seq<char>) -> Seq<char> {
    paint_on(spec) + text + paint_off(spec)
}

impl ColorSpec {
    /// No colour, not bold.
    pub fn new() -> (spec: Self)
        ensures
            spec == (ColorSpec { fg: None, bold: false }),
    {
        ColorSpec { fg: None, bold: false }
    }

    /// The same with the given foreground colour.
    pub fn fg_color(self, fg: Option<Color>) -> (spec: Self)
        ensures
            spec == (ColorSpec { fg, bold: self.bold }),
    {
        ColorSpec { fg, bold: self.bold }
    }

    /// The same in bold.
    pub fn bold(self) -> (spec: Self)
        ensures
            spec == (ColorSpec { fg: self.fg, bold: true }),
    {
        ColorSpec { fg: self.fg, bold: true }
    }
}

/// `anstyle::Style::render` and `anstyle::Style::render_reset`, around the
/// text: the style with the given foreground colour, bold or not, writes the
/// code for bold, then the code of the colour, and after the text the reset
/// code, unless the style is plain.
#[verifier::external_body]
pub(crate) fn paint(spec: ColorSpec, text: &str) -> (out: String)
    ensures
        out@ == painted(spec, text@),
{
    let fg = spec.fg.map(|Color::Ansi(color)| match color {
        AnsiColor::BrightRed => anstyle::AnsiColor::BrightRed,
        AnsiColor::BrightGreen => anstyle::AnsiColor::BrightGreen,
        AnsiColor::BrightYellow => anstyle::AnsiColor::BrightYellow,
        AnsiColor::BrightBlue => anstyle::AnsiColor::BrightBlue,
        AnsiColor::BrightMagenta => anstyle::AnsiColor::BrightMagenta,
        AnsiColor::BrightCyan => anstyle::AnsiColor::BrightCyan,
    });
    let plain = anstyle::Style::new().fg_color(fg.map(anstyle::Color::Ansi));
    let style = if spec.bold { plain.bold() } else { plain };
    format!("{}{}{}", style.render(), text, style.render_reset())
}

} // verus!
