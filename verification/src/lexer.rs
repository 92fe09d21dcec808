//! Low-level Solidity lexer.

pub mod ascii;
pub mod char_class;
pub mod token;
pub mod grammar;
pub mod bounds;
pub mod cursor;
pub mod bulk;
pub mod simd;
pub mod laws;
pub mod characters;
pub mod unescape;
pub mod utf8;
