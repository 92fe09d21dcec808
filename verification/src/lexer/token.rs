//! Raw tokens: what the cursor hands out, a kind and a byte length.

use vstd::prelude::*;

verus! {

/// The base of a numeric literal.
#[derive(Clone, Copy, Debug, PartialEq, Eq, Hash, Structural)]
pub enum Base {
    /// Literal starts with `0b`.
    Binary,
    /// Literal starts with `0o`.
    Octal,
    /// Literal has no base prefix.
    Decimal,
    /// Literal starts with `0x`.
    Hexadecimal,
}

/// The kind of a string literal, chosen by its prefix.
#[derive(Clone, Copy, Debug, PartialEq, Eq, Hash, Structural)]
pub enum StrKind {
    /// `"..."` or `'...'`.
    Str,
    /// `unicode"..."`.
    Unicode,
    /// `hex"..."`.
    Hex,
}

/// The kind of a literal token.
#[derive(Clone, Copy, Debug, PartialEq, Eq, Hash, Structural)]
pub enum RawLiteralKind {
    /// `123`, `0x1f`; `empty_int` for a base prefix without digits (`0x`).
    Int { base: Base, empty_int: bool },
    /// `1.5`, `2e10`; `empty_exponent` for an exponent without digits (`1e`).
    Rational { base: Base, empty_exponent: bool },
    /// `"abc"`, `hex"00"`; `terminated` if the closing quote was found.
    Str { kind: StrKind, terminated: bool },
}

/// The kind of a raw token.
#[derive(Clone, Copy, Debug, PartialEq, Eq, Hash, Structural)]
pub enum RawTokenKind {
    /// `// comment`; a doc comment starts with exactly three slashes.
    LineComment { is_doc: bool },
    /// `/* comment */`; a doc comment starts with `/**` not followed by `*` or `/`.
    BlockComment { is_doc: bool, terminated: bool },
    /// A run of whitespace bytes.
    Whitespace,
    /// An identifier or a keyword.
    Ident,
    /// A numeric or a string literal.
    Literal { kind: RawLiteralKind },
    /// `;`
    Semi,
    /// `,`
    Comma,
    /// `.`
    Dot,
    /// `(`
    OpenParen,
    /// `)`
    CloseParen,
    /// `{`
    OpenBrace,
    /// `}`
    CloseBrace,
    /// `[`
    OpenBracket,
    /// `]`
    CloseBracket,
    /// `~`
    Tilde,
    /// `?`
    Question,
    /// `:`
    Colon,
    /// `=`
    Eq,
    /// `!`
    Bang,
    /// `<`
    Lt,
    /// `>`
    Gt,
    /// `-`
    Minus,
    /// `&`
    And,
    /// `|`
    Or,
    /// `+`
    Plus,
    /// `*`
    Star,
    /// `/`
    Slash,
    /// `^`
    Caret,
    /// `%`
    Percent,
    /// A byte, or a non-ASCII character, that starts no token.
    Unknown,
    /// End of input.
    Eof,
}

impl RawTokenKind {
    /// Returns `true` if this is the end of the input.
    pub fn is_eof(&self) -> (r: bool)
        ensures
            r == (*self == RawTokenKind::Eof),
    {
        matches!(self, RawTokenKind::Eof)
    }

    /// Returns `true` if this is whitespace or a comment: what the parser
    /// passes over.
    pub fn is_trivial(&self) -> (r: bool)
        ensures
            r == (*self is Whitespace || *self is LineComment || *self is BlockComment),
    {
        matches!(
            self,
            RawTokenKind::Whitespace
                | RawTokenKind::LineComment { .. }
                | RawTokenKind::BlockComment { .. }
        )
    }
}

/// A raw token: its kind and how many bytes of the input it covers.
#[derive(Clone, Copy, Debug, PartialEq, Eq, Hash, Structural)]
pub struct RawToken {
    /// The kind of the token.
    pub kind: RawTokenKind,
    /// The length of the token in bytes.
    pub len: u32,
}

impl RawToken {
    /// The end-of-input token: kind `Eof`, length zero.
    pub fn eof() -> (tok: Self)
        ensures
            tok == (RawToken { kind: RawTokenKind::Eof, len: 0 }),
    {
        Self { kind: RawTokenKind::Eof, len: 0 }
    }

    /// Creates a new token.
    pub fn new(kind: RawTokenKind, len: u32) -> (tok: Self)
        ensures
            tok == (RawToken { kind, len }),
    {
        Self { kind, len }
    }
}

} // verus!
