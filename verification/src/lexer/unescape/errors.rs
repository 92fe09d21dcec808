//! What can be wrong with the contents of a string literal.

use vstd::prelude::*;

verus! {

/// Errors and warnings that can occur during string unescaping.
#[derive(Clone, Copy, Debug, PartialEq, Eq, Hash, Structural)]
pub enum EscapeError {
    /// Escaped `\` character without continuation.
    LoneSlash,
    /// Invalid escape character (e.g. `\z`).
    InvalidEscape,
    /// Raw `\r` encountered.
    BareCarriageReturn,
    /// Can only skip one line of whitespace.
    ///
    /// ```text
    /// "this is \
    ///  ok" == "this is ok";
    ///
    /// "this is \
    ///  \
    ///  also ok" == "this is also ok";
    ///
    /// "this is \
    ///
    ///  not ok"; // error: cannot skip multiple lines
    /// ```
    CannotSkipMultipleLines,

    /// Numeric character escape is too short (e.g. `\x1`).
    HexEscapeTooShort,
    /// Invalid character in numeric escape (e.g. `\xz1`).
    InvalidHexEscape,

    /// Unicode character escape is too short (e.g. `\u1`).
    UnicodeEscapeTooShort,
    /// Invalid character in unicode character escape (e.g. `\uz111`).
    InvalidUnicodeEscape,

    /// Newline in string literal. These must be escaped.
    StrNewline,
    /// Non-ASCII character in non-unicode literal.
    StrNonAsciiChar,

    /// Non hex-digit character in hex literal.
    HexNotHexDigit,
    /// Underscore in hex literal.
    HexBadUnderscore,
    /// Odd number of hex digits in hex literal.
    HexOddDigits,
    /// Hex literal with the `0x` prefix.
    HexPrefix,
}

} // verus!
