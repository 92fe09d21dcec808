//! Front-end lexical core of a Solidity compiler: byte positions and spans,
//! character classes, the raw-token cursor, string-literal unescaping, and the
//! diagnostic model the lexer and later passes report through.

pub mod lexer;
pub mod pos;
pub mod span;
pub mod source_map;
pub mod search;
pub mod hex;
pub mod diagnostics;
pub mod config;
pub mod session;
pub mod builtins;
