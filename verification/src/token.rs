//! Token model: the closed set of lexical categories, the token value
//! record, and the keyword table that maps reserved words to their kinds.

use vstd::prelude::*;

verus! {

/// One variant per lexical category of the language.
#[derive(Debug, Clone, Copy, PartialEq, Eq, Structural)]
pub enum TokenKind {
    // sentinels
    Illegal,
    EndOfInput,
    // identifiers / literals
    Identifier,
    IntegerLiteral,
    True,
    False,
    // operators
    Assign,
    Plus,
    Minus,
    Bang,
    Asterisk,
    Slash,
    LessThan,
    GreaterThan,
    Equal,
    NotEqual,
    // delimiters
    Comma,
    Semicolon,
    LeftParen,
    RightParen,
    LeftBrace,
    RightBrace,
    // keywords
    Function,
    Let,
    If,
    Else,
    Return,
}

/// A classified, immutable fragment of source text. `literal` is the exact
/// span of characters that produced the token.
#[derive(Debug)]
pub struct Token {
    pub kind: TokenKind,
    pub literal: String,
}

/// The keyword table: the kind reserved for `t`, or `None` when `t` is not a
/// reserved word.
pub open spec fn spec_keyword(t: Seq<char>) -> Option<TokenKind> {
    if t == "fn"@ {
        Some(TokenKind::Function)
    } else if t == "let"@ {
        Some(TokenKind::Let)
    } else if t == "true"@ {
        Some(TokenKind::True)
    } else if t == "false"@ {
        Some(TokenKind::False)
    } else if t == "return"@ {
        Some(TokenKind::Return)
    } else if t == "if"@ {
        Some(TokenKind::If)
    } else if t == "else"@ {
        Some(TokenKind::Else)
    } else {
        None
    }
}

/// The kind an identifier-shaped span receives: its keyword kind when it is a
/// reserved word, `Identifier` otherwise.
pub open spec fn spec_lookup(t: Seq<char>) -> TokenKind {
    match spec_keyword(t) {
        Some(k) => k,
        None => TokenKind::Identifier,
    }
}

impl Token {
    /// Maps a fully scanned identifier span to its keyword kind, or to
    /// `Identifier` when it matches no reserved word.
    pub fn lookup_identifier(id: &str) -> (r: TokenKind)
        ensures
            r == spec_lookup(id@),
    {
        match Self::get_keyword(id) {
            Some(k) => k,
            None => TokenKind::Identifier,
        }
    }

    /// Looks `kw` up in the keyword table.
    pub fn get_keyword(kw: &str) -> (r: Option<TokenKind>)
        ensures
            r == spec_keyword(kw@),
    {
        let k: String = kw.to_owned();
        if k == String::from_str("fn") {
            Some(TokenKind::Function)
        } else if k == String::from_str("let") {
            Some(TokenKind::Let)
        } else if k == String::from_str("true") {
            Some(TokenKind::True)
        } else if k == String::from_str("false") {
            Some(TokenKind::False)
        } else if k == String::from_str("return") {
            Some(TokenKind::Return)
        } else if k == String::from_str("if") {
            Some(TokenKind::If)
        } else if k == String::from_str("else") {
            Some(TokenKind::Else)
        } else {
            None
        }
    }
}

impl Default for Token {
    /// The default token: an `Illegal` token with empty text.
    fn default() -> (t: Token)
        ensures
            t.kind == TokenKind::Illegal,
            t.literal@ == Seq::<char>::empty(),
    {
        Token { kind: TokenKind::Illegal, literal: String::new() }
    }
}

} // verus!
