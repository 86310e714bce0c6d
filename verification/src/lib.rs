//! A lexical scanner for a small C-like scripting language.
//!
//! The scanner turns raw source text into a linear sequence of classified
//! tokens: identifiers, integer literals, operators, delimiters, reserved
//! words, an `Illegal` token for any unrecognized character, and an
//! `EndOfInput` sentinel once the input is exhausted.

pub mod lexer;
pub mod token;
