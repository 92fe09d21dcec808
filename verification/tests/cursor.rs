use solar_front::lexer::cursor::Cursor;
use solar_front::lexer::token::{Base, RawLiteralKind, RawToken, RawTokenKind, StrKind};

fn lex(src: &str) -> Vec<(RawTokenKind, String)> {
    let mut cursor = Cursor::new(src);
    let mut at = 0usize;
    let mut out = Vec::new();
    loop {
        let token = cursor.advance_token();
        if token.kind == RawTokenKind::Eof {
            assert_eq!(token.len, 0);
            break;
        }
        let end = at + token.len as usize;
        out.push((token.kind, src[at..end].to_string()));
        at = end;
    }
    assert_eq!(at, src.len());
    out
}

fn kinds(src: &str) -> Vec<RawTokenKind> {
    lex(src).into_iter().map(|(kind, _)| kind).collect()
}

fn integer(base: Base, empty_int: bool) -> RawTokenKind {
    RawTokenKind::Literal { kind: RawLiteralKind::Int { base, empty_int } }
}

fn rational(base: Base, empty_exponent: bool) -> RawTokenKind {
    RawTokenKind::Literal { kind: RawLiteralKind::Rational { base, empty_exponent } }
}

fn string(kind: StrKind, terminated: bool) -> RawTokenKind {
    RawTokenKind::Literal { kind: RawLiteralKind::Str { kind, terminated } }
}

fn tok(kind: RawTokenKind, text: &str) -> (RawTokenKind, String) {
    (kind, text.to_string())
}

#[test]
fn declaration() {
    assert_eq!(lex("uint256 x = 1;"), vec![
        tok(RawTokenKind::Ident, "uint256"),
        tok(RawTokenKind::Whitespace, " "),
        tok(RawTokenKind::Ident, "x"),
        tok(RawTokenKind::Whitespace, " "),
        tok(RawTokenKind::Eq, "="),
        tok(RawTokenKind::Whitespace, " "),
        tok(integer(Base::Decimal, false), "1"),
        tok(RawTokenKind::Semi, ";"),
    ]);
}

#[test]
fn eof_is_handed_out_again_and_again() {
    let mut cursor = Cursor::new("a");
    assert_eq!(cursor.advance_token(), RawToken::new(RawTokenKind::Ident, 1));
    assert_eq!(cursor.advance_token(), RawToken::eof());
    assert_eq!(cursor.advance_token(), RawToken::new(RawTokenKind::Eof, 0));
    assert_eq!(cursor.next(), None);
    let mut empty = Cursor::new("");
    assert_eq!(empty.advance_token(), RawToken::eof());
    assert_eq!(empty.collect_tokens(), vec![]);
}

#[test]
fn block_comments() {
    assert_eq!(lex("/**/"), vec![tok(
        RawTokenKind::BlockComment { is_doc: false, terminated: true },
        "/**/"
    )]);
    assert_eq!(lex("/***/"), vec![tok(
        RawTokenKind::BlockComment { is_doc: false, terminated: true },
        "/***/"
    )]);
    assert_eq!(lex("/** foo */"), vec![tok(
        RawTokenKind::BlockComment { is_doc: true, terminated: true },
        "/** foo */"
    )]);
    assert_eq!(lex("/* a */b"), vec![
        tok(RawTokenKind::BlockComment { is_doc: false, terminated: true }, "/* a */"),
        tok(RawTokenKind::Ident, "b"),
    ]);
    assert_eq!(kinds("/* a"), vec![RawTokenKind::BlockComment {
        is_doc: false,
        terminated: false
    }]);
    assert_eq!(kinds("/** a"), vec![RawTokenKind::BlockComment {
        is_doc: true,
        terminated: false
    }]);
    assert_eq!(kinds("/*"), vec![RawTokenKind::BlockComment { is_doc: false, terminated: false }]);
    assert_eq!(kinds("/**"), vec![RawTokenKind::BlockComment { is_doc: true, terminated: false }]);
    assert_eq!(kinds("/*/"), vec![RawTokenKind::BlockComment { is_doc: false, terminated: false }]);
    assert_eq!(lex("/* * / */ */"), vec![
        tok(RawTokenKind::BlockComment { is_doc: false, terminated: true }, "/* * / */"),
        tok(RawTokenKind::Whitespace, " "),
        tok(RawTokenKind::Star, "*"),
        tok(RawTokenKind::Slash, "/"),
    ]);
}

#[test]
fn line_comments() {
    assert_eq!(lex("// a\nb"), vec![
        tok(RawTokenKind::LineComment { is_doc: false }, "// a"),
        tok(RawTokenKind::Whitespace, "\n"),
        tok(RawTokenKind::Ident, "b"),
    ]);
    assert_eq!(lex("/// a\r\n"), vec![
        tok(RawTokenKind::LineComment { is_doc: true }, "/// a"),
        tok(RawTokenKind::Whitespace, "\r\n"),
    ]);
    assert_eq!(kinds("//// a"), vec![RawTokenKind::LineComment { is_doc: false }]);
    assert_eq!(kinds("///"), vec![RawTokenKind::LineComment { is_doc: true }]);
    assert_eq!(kinds("//"), vec![RawTokenKind::LineComment { is_doc: false }]);
    assert_eq!(kinds("//\n"), vec![
        RawTokenKind::LineComment { is_doc: false },
        RawTokenKind::Whitespace
    ]);
    assert_eq!(kinds("/"), vec![RawTokenKind::Slash]);
    assert_eq!(kinds("/ /"), vec![
        RawTokenKind::Slash,
        RawTokenKind::Whitespace,
        RawTokenKind::Slash
    ]);
}

#[test]
fn empty_hex_integer_before_an_identifier() {
    assert_eq!(lex("0xG"), vec![
        tok(integer(Base::Hexadecimal, true), "0x"),
        tok(RawTokenKind::Ident, "G"),
    ]);
}

#[test]
fn integer_before_a_member_access() {
    assert_eq!(lex("12.foo"), vec![
        tok(integer(Base::Decimal, false), "12"),
        tok(RawTokenKind::Dot, "."),
        tok(RawTokenKind::Ident, "foo"),
    ]);
}

#[test]
fn numbers() {
    assert_eq!(lex("0"), vec![tok(integer(Base::Decimal, false), "0")]);
    assert_eq!(lex("0;"), vec![tok(integer(Base::Decimal, false), "0"), tok(RawTokenKind::Semi, ";")]);
    assert_eq!(lex("0x1F_a"), vec![tok(integer(Base::Hexadecimal, false), "0x1F_a")]);
    assert_eq!(lex("0x_"), vec![tok(integer(Base::Hexadecimal, true), "0x_")]);
    assert_eq!(lex("0b101"), vec![tok(integer(Base::Binary, false), "0b101")]);
    assert_eq!(lex("0b"), vec![tok(integer(Base::Binary, true), "0b")]);
    assert_eq!(lex("0o17"), vec![tok(integer(Base::Octal, false), "0o17")]);
    assert_eq!(lex("0o_9"), vec![tok(integer(Base::Octal, false), "0o_9")]);
    assert_eq!(lex("1_000"), vec![tok(integer(Base::Decimal, false), "1_000")]);
    assert_eq!(lex("007"), vec![tok(integer(Base::Decimal, false), "007")]);
    assert_eq!(lex("0_1"), vec![tok(integer(Base::Decimal, false), "0_1")]);
    assert_eq!(lex("1.5"), vec![tok(rational(Base::Decimal, false), "1.5")]);
    assert_eq!(lex("0.5"), vec![tok(rational(Base::Decimal, false), "0.5")]);
    assert_eq!(lex("1."), vec![tok(rational(Base::Decimal, false), "1.")]);
    assert_eq!(lex("1._5"), vec![tok(rational(Base::Decimal, false), "1._5")]);
    assert_eq!(lex(".5"), vec![tok(rational(Base::Decimal, false), ".5")]);
    assert_eq!(lex(".5e3"), vec![tok(rational(Base::Decimal, false), ".5e3")]);
    assert_eq!(lex("1e10"), vec![tok(rational(Base::Decimal, false), "1e10")]);
    assert_eq!(lex("1E-10"), vec![tok(rational(Base::Decimal, false), "1E-10")]);
    assert_eq!(lex("1e"), vec![tok(rational(Base::Decimal, true), "1e")]);
    assert_eq!(lex("1e-"), vec![tok(rational(Base::Decimal, true), "1e-")]);
    assert_eq!(lex("1e_"), vec![tok(rational(Base::Decimal, true), "1e_")]);
    assert_eq!(lex("0e1"), vec![tok(rational(Base::Decimal, false), "0e1")]);
    assert_eq!(lex("1.5e"), vec![tok(rational(Base::Decimal, true), "1.5e")]);
    assert_eq!(lex("0x1.5"), vec![tok(rational(Base::Hexadecimal, false), "0x1.5")]);
    assert_eq!(lex("0x1e5"), vec![tok(integer(Base::Hexadecimal, false), "0x1e5")]);
    // No `+` in an exponent.
    assert_eq!(lex("1e+5"), vec![
        tok(rational(Base::Decimal, true), "1e"),
        tok(RawTokenKind::Plus, "+"),
        tok(integer(Base::Decimal, false), "5"),
    ]);
    assert_eq!(lex("1.e5"), vec![
        tok(integer(Base::Decimal, false), "1"),
        tok(RawTokenKind::Dot, "."),
        tok(RawTokenKind::Ident, "e5"),
    ]);
    assert_eq!(lex("0.$"), vec![
        tok(integer(Base::Decimal, false), "0"),
        tok(RawTokenKind::Dot, "."),
        tok(RawTokenKind::Ident, "$"),
    ]);
    assert_eq!(lex("0a"), vec![tok(integer(Base::Decimal, false), "0"), tok(RawTokenKind::Ident, "a")]);
    assert_eq!(lex("."), vec![tok(RawTokenKind::Dot, ".")]);
    assert_eq!(lex(".a"), vec![tok(RawTokenKind::Dot, "."), tok(RawTokenKind::Ident, "a")]);
}

#[test]
fn strings() {
    assert_eq!(lex("\"abc\""), vec![tok(string(StrKind::Str, true), "\"abc\"")]);
    assert_eq!(lex("'abc'"), vec![tok(string(StrKind::Str, true), "'abc'")]);
    assert_eq!(lex("'a\"b'c"), vec![
        tok(string(StrKind::Str, true), "'a\"b'"),
        tok(RawTokenKind::Ident, "c"),
    ]);
    assert_eq!(lex("\"a\\\"b\""), vec![tok(string(StrKind::Str, true), "\"a\\\"b\"")]);
    assert_eq!(lex("\"a\\\\\"b"), vec![
        tok(string(StrKind::Str, true), "\"a\\\\\""),
        tok(RawTokenKind::Ident, "b"),
    ]);
    // A backslash hides the other quote in no way.
    assert_eq!(lex("\"a\\'\"b"), vec![
        tok(string(StrKind::Str, true), "\"a\\'\""),
        tok(RawTokenKind::Ident, "b"),
    ]);
    assert_eq!(lex("\"abc"), vec![tok(string(StrKind::Str, false), "\"abc")]);
    assert_eq!(lex("\"abc\\"), vec![tok(string(StrKind::Str, false), "\"abc\\")]);
    assert_eq!(lex("\"abc\\\""), vec![tok(string(StrKind::Str, false), "\"abc\\\"")]);
    assert_eq!(lex("\""), vec![tok(string(StrKind::Str, false), "\"")]);
    assert_eq!(lex("\"a\nb\""), vec![tok(string(StrKind::Str, true), "\"a\nb\"")]);
    assert_eq!(lex("\"è\""), vec![tok(string(StrKind::Str, true), "\"è\"")]);
}

#[test]
fn prefixed_strings() {
    assert_eq!(lex("hex\"DEAD_beef\""), vec![tok(string(StrKind::Hex, true), "hex\"DEAD_beef\"")]);
    assert_eq!(lex("hex'00'"), vec![tok(string(StrKind::Hex, true), "hex'00'")]);
    assert_eq!(lex("unicode\"😀\""), vec![tok(string(StrKind::Unicode, true), "unicode\"😀\"")]);
    assert_eq!(lex("unicode'a"), vec![tok(string(StrKind::Unicode, false), "unicode'a")]);
    assert_eq!(lex("hex"), vec![tok(RawTokenKind::Ident, "hex")]);
    assert_eq!(lex("hex "), vec![
        tok(RawTokenKind::Ident, "hex"),
        tok(RawTokenKind::Whitespace, " "),
    ]);
    assert_eq!(lex("hex \"00\""), vec![
        tok(RawTokenKind::Ident, "hex"),
        tok(RawTokenKind::Whitespace, " "),
        tok(string(StrKind::Str, true), "\"00\""),
    ]);
    assert_eq!(lex("hexx\"00\""), vec![
        tok(RawTokenKind::Ident, "hexx"),
        tok(string(StrKind::Str, true), "\"00\""),
    ]);
    assert_eq!(lex("Hex\"00\""), vec![
        tok(RawTokenKind::Ident, "Hex"),
        tok(string(StrKind::Str, true), "\"00\""),
    ]);
    assert_eq!(lex("unicod\"\""), vec![
        tok(RawTokenKind::Ident, "unicod"),
        tok(string(StrKind::Str, true), "\"\""),
    ]);
    assert_eq!(lex("u\"\""), vec![
        tok(RawTokenKind::Ident, "u"),
        tok(string(StrKind::Str, true), "\"\""),
    ]);
}

#[test]
fn punctuators() {
    assert_eq!(kinds(";,.(){}[]~?:=!<>-&|+*/^%"), vec![
        RawTokenKind::Semi,
        RawTokenKind::Comma,
        RawTokenKind::Dot,
        RawTokenKind::OpenParen,
        RawTokenKind::CloseParen,
        RawTokenKind::OpenBrace,
        RawTokenKind::CloseBrace,
        RawTokenKind::OpenBracket,
        RawTokenKind::CloseBracket,
        RawTokenKind::Tilde,
        RawTokenKind::Question,
        RawTokenKind::Colon,
        RawTokenKind::Eq,
        RawTokenKind::Bang,
        RawTokenKind::Lt,
        RawTokenKind::Gt,
        RawTokenKind::Minus,
        RawTokenKind::And,
        RawTokenKind::Or,
        RawTokenKind::Plus,
        RawTokenKind::Star,
        RawTokenKind::Slash,
        RawTokenKind::Caret,
        RawTokenKind::Percent,
    ]);
}

#[test]
fn identifiers_and_whitespace() {
    assert_eq!(lex("_a$1 \t\r\nB"), vec![
        tok(RawTokenKind::Ident, "_a$1"),
        tok(RawTokenKind::Whitespace, " \t\r\n"),
        tok(RawTokenKind::Ident, "B"),
    ]);
    assert_eq!(lex("$"), vec![tok(RawTokenKind::Ident, "$")]);
}

#[test]
fn unknown_bytes_and_characters() {
    assert_eq!(lex("#"), vec![tok(RawTokenKind::Unknown, "#")]);
    assert_eq!(lex("@a"), vec![tok(RawTokenKind::Unknown, "@"), tok(RawTokenKind::Ident, "a")]);
    assert_eq!(lex("\0"), vec![tok(RawTokenKind::Unknown, "\0")]);
    assert_eq!(lex("\\"), vec![tok(RawTokenKind::Unknown, "\\")]);
    assert_eq!(lex("`"), vec![tok(RawTokenKind::Unknown, "`")]);
    // One token for each character outside ASCII, whatever its length.
    assert_eq!(lex("èx"), vec![tok(RawTokenKind::Unknown, "è"), tok(RawTokenKind::Ident, "x")]);
    assert_eq!(lex("€€"), vec![tok(RawTokenKind::Unknown, "€"), tok(RawTokenKind::Unknown, "€")]);
    assert_eq!(lex("😀;"), vec![tok(RawTokenKind::Unknown, "😀"), tok(RawTokenKind::Semi, ";")]);
    // A form feed is no whitespace.
    assert_eq!(lex("\x0c"), vec![tok(RawTokenKind::Unknown, "\x0c")]);
}

#[test]
fn as_bytes_is_what_is_left() {
    let mut cursor = Cursor::new("ab cd");
    assert_eq!(cursor.as_bytes(), b"ab cd");
    cursor.advance_token();
    assert_eq!(cursor.as_bytes(), b" cd");
    cursor.advance_token();
    cursor.advance_token();
    assert_eq!(cursor.as_bytes(), b"");
    let copy = cursor.clone();
    assert_eq!(copy.as_bytes(), b"");
}

#[test]
fn next_and_collect_agree_with_advance_token() {
    let src = "contract C { uint x = 0x1f; /* c */ string s = unicode\"é\"; } // end";
    let mut by_next = Vec::new();
    let mut cursor = Cursor::new(src);
    while let Some(token) = cursor.next() {
        by_next.push(token);
    }
    assert_eq!(Cursor::new(src).collect_tokens(), by_next);
    assert_eq!(by_next.len(), lex(src).len());
    let mut cursor = Cursor::new(src);
    cursor.advance_token();
    assert_eq!(cursor.collect_tokens(), by_next[1..].to_vec());
}

const SOURCES: &[&str] = &[
    "",
    "uint256 x = 1;",
    "/** doc */ contract C { function f() public { return 12.foo; } }",
    "hex\"00\" unicode'é' \"a\\\"b\" 'x",
    "0x 0b1 0o7 1e 1e-5 1.5e3 .5 1.",
    "// line\n/// doc\n//// not doc\n/* open",
    "a/b/*c*/d//e",
    "é€😀#@`\\",
    "1.a 1._ 1.. 1.e 0.e1",
];

#[test]
fn token_lengths_add_up_to_the_input() {
    for src in SOURCES {
        let tokens = Cursor::new(src).collect_tokens();
        let total: usize = tokens.iter().map(|t| t.len as usize).sum();
        assert_eq!(total, src.len(), "{src:?}");
        assert!(tokens.iter().all(|t| t.len > 0 && t.kind != RawTokenKind::Eof), "{src:?}");
    }
}

#[test]
fn tokens_of_a_prefix_are_tokens_of_the_whole() {
    for src in SOURCES {
        let whole = Cursor::new(src).collect_tokens();
        for n in 0..=src.len() {
            if !src.is_char_boundary(n) {
                continue;
            }
            let part = Cursor::new(&src[..n]).collect_tokens();
            assert!(part.len() <= whole.len(), "{src:?} cut at {n}");
            if let Some((_, but_last)) = part.split_last() {
                assert_eq!(but_last, &whole[..but_last.len()], "{src:?} cut at {n}");
            }
        }
    }
}

#[test]
fn last_token_of_a_prefix_may_differ_in_kind_and_length() {
    // The prefix reads the end of the input behind the dot, the whole reads a
    // member access.
    assert_eq!(lex("1."), vec![tok(rational(Base::Decimal, false), "1.")]);
    assert_eq!(lex("1.a")[0], tok(integer(Base::Decimal, false), "1"));
    assert_eq!(kinds("/* a"), vec![RawTokenKind::BlockComment {
        is_doc: false,
        terminated: false
    }]);
    assert_eq!(kinds("/* a */"), vec![RawTokenKind::BlockComment {
        is_doc: false,
        terminated: true
    }]);
}

#[test]
fn kinds_of_tokens() {
    assert!(RawTokenKind::Eof.is_eof());
    assert!(!RawTokenKind::Ident.is_eof());
    assert!(RawTokenKind::Whitespace.is_trivial());
    assert!(RawTokenKind::LineComment { is_doc: true }.is_trivial());
    assert!(RawTokenKind::BlockComment { is_doc: false, terminated: false }.is_trivial());
    assert!(!RawTokenKind::Ident.is_trivial());
    assert!(!RawTokenKind::Eof.is_trivial());
}
