//! The scanner: holds the input and a read cursor, and produces one
//! classified token per call to `next_token`.
//!
//! The whole behaviour is pinned down by the spec function [`scan`]: given
//! the input and a cursor position, it says which token kind comes next,
//! what its text is, and where the cursor stands afterwards. `next_token`
//! is proved to follow `scan` exactly.

use crate::token::{spec_keyword, spec_lookup, Token, TokenKind};
use vstd::prelude::*;

verus! {

/// Whitespace skipped between tokens: space, tab, newline, carriage return.
pub open spec fn is_whitespace_char(c: char) -> bool {
    c == ' ' || c == '\t' || c == '\n' || c == '\r'
}

/// An ASCII letter, the only characters that may start an identifier.
pub open spec fn is_ascii_letter(c: char) -> bool {
    ('a' <= c && c <= 'z') || ('A' <= c && c <= 'Z')
}

/// An ASCII decimal digit.
pub open spec fn is_digit_char(c: char) -> bool {
    '0' <= c && c <= '9'
}

/// A character that may continue an identifier span: ASCII alphanumeric or
/// underscore. Digits may follow the first letter but can never start an
/// identifier, since digit-leading input is dispatched to the integer rule.
pub open spec fn is_letter_char(c: char) -> bool {
    is_ascii_letter(c) || is_digit_char(c) || c == '_'
}

/// The character at position `p`, or the null sentinel at or past the end.
pub open spec fn char_at(s: Seq<char>, p: int) -> char {
    if 0 <= p < s.len() {
        s[p]
    } else {
        '\0'
    }
}

/// The run predicates, each a single definition point so that every mention
/// of a run denotes the same function value.
pub open spec fn whitespace_pred() -> spec_fn(char) -> bool {
    |c: char| is_whitespace_char(c)
}

pub open spec fn letter_pred() -> spec_fn(char) -> bool {
    |c: char| is_letter_char(c)
}

pub open spec fn digit_pred() -> spec_fn(char) -> bool {
    |c: char| is_digit_char(c)
}

/// The end of the maximal run of characters satisfying `f` that starts at
/// `p`: the first position at or after `p` whose character fails `f`.
pub open spec fn run_end(s: Seq<char>, p: int, f: spec_fn(char) -> bool) -> int
    decreases s.len() - p,
{
    if 0 <= p < s.len() && f(s[p]) {
        run_end(s, p + 1, f)
    } else {
        p
    }
}

/// The position of the first non-whitespace character at or after `p`.
pub open spec fn skip_whitespace(s: Seq<char>, p: int) -> int {
    run_end(s, p, whitespace_pred())
}

/// Where the cursor stands after one single-character advance from `p`:
/// one further, except that it never moves past the end of the input.
pub open spec fn step(s: Seq<char>, p: int) -> int {
    if p < s.len() {
        p + 1
    } else {
        p
    }
}

/// The single-character operators and delimiters that map one-to-one to a
/// token kind (`=` and `!` only when not followed by `=`).
pub open spec fn single_char_kind(c: char) -> Option<TokenKind> {
    if c == '=' {
        Some(TokenKind::Assign)
    } else if c == '!' {
        Some(TokenKind::Bang)
    } else if c == ';' {
        Some(TokenKind::Semicolon)
    } else if c == '(' {
        Some(TokenKind::LeftParen)
    } else if c == ')' {
        Some(TokenKind::RightParen)
    } else if c == '{' {
        Some(TokenKind::LeftBrace)
    } else if c == '}' {
        Some(TokenKind::RightBrace)
    } else if c == ',' {
        Some(TokenKind::Comma)
    } else if c == '+' {
        Some(TokenKind::Plus)
    } else if c == '-' {
        Some(TokenKind::Minus)
    } else if c == '/' {
        Some(TokenKind::Slash)
    } else if c == '*' {
        Some(TokenKind::Asterisk)
    } else if c == '<' {
        Some(TokenKind::LessThan)
    } else if c == '>' {
        Some(TokenKind::GreaterThan)
    } else {
        None
    }
}

/// What one scan step yields: the token's kind, its text, and the cursor
/// position once the token has been produced.
pub ghost struct ScanStep {
    pub kind: TokenKind,
    pub text: Seq<char>,
    pub end: int,
}

/// The scanner's single-step behaviour on input `s` at cursor position `p`:
/// skip whitespace, classify the current character (with one character of
/// lookahead for `==` and `!=`), and consume exactly the token's span.
pub open spec fn scan(s: Seq<char>, p: int) -> ScanStep {
    let q = skip_whitespace(s, p);
    let c = char_at(s, q);
    if c == '\0' {
        ScanStep { kind: TokenKind::EndOfInput, text: seq!['\0'], end: step(s, q) }
    } else if c == '=' && char_at(s, q + 1) == '=' {
        ScanStep { kind: TokenKind::Equal, text: seq!['=', '='], end: q + 2 }
    } else if c == '!' && char_at(s, q + 1) == '=' {
        ScanStep { kind: TokenKind::NotEqual, text: seq!['!', '='], end: q + 2 }
    } else if single_char_kind(c) is Some {
        ScanStep { kind: single_char_kind(c)->Some_0, text: seq![c], end: q + 1 }
    } else if is_ascii_letter(c) {
        let e = run_end(s, q, letter_pred());
        ScanStep { kind: spec_lookup(s.subrange(q, e)), text: s.subrange(q, e), end: e }
    } else if is_digit_char(c) {
        let e = run_end(s, q, digit_pred());
        ScanStep { kind: TokenKind::IntegerLiteral, text: s.subrange(q, e), end: e }
    } else {
        ScanStep { kind: TokenKind::Illegal, text: seq![c], end: q + 1 }
    }
}

/// The scanner. It owns the input for its lifetime and advances a cursor
/// monotonically forward over it, never rewinding.
pub struct Lexer {
    /// The complete input text, immutable for the scanner's lifetime.
    pub input: String,
    /// Position of the character currently under examination.
    pub position: usize,
    /// Position of the next character to read; equals `position + 1`
    /// mid-stream and stays pinned at the input length once exhausted.
    pub read_position: usize,
    /// The character at `position`, or the null sentinel past the end.
    pub ch: char,
}

impl Lexer {
    /// The scanner's internal invariant, established by `new` and preserved
    /// by every operation.
    pub open spec fn wf(self) -> bool {
        &&& self.position <= self.input@.len()
        &&& self.read_position == if self.position < self.input@.len() {
            self.position + 1
        } else {
            self.position as int
        }
        &&& self.ch == char_at(self.input@, self.position as int)
    }

    /// Creates a scanner over `input` with the cursor at the start.
    pub fn new(input: String) -> (l: Lexer)
        ensures
            l.wf(),
            l.input@ == input@,
            l.position == 0,
    {
        let mut l = Lexer { input, position: 0, read_position: 0, ch: '\0' };
        l.read_char();
        l
    }

    /// Advances the cursor by one character, loading the next character (or
    /// the null sentinel) into `ch`. Once the input is exhausted the cursor
    /// stays where it is.
    pub fn read_char(&mut self)
        requires
            old(self).read_position <= old(self).input@.len(),
        ensures
            final(self).input == old(self).input,
            final(self).position == old(self).read_position,
            final(self).read_position == step(old(self).input@, old(self).read_position as int),
            final(self).ch == char_at(old(self).input@, old(self).read_position as int),
            final(self).wf(),
    {
        self.ch = self.peek_char();
        self.position = self.read_position;
        if self.read_position < self.input.as_str().unicode_len() {
            self.read_position += 1;
        }
    }

    /// Reads the next character without moving the cursor; the null sentinel
    /// when there is none.
    pub fn peek_char(&self) -> (c: char)
        ensures
            c == char_at(self.input@, self.read_position as int),
    {
        if self.read_position < self.input.as_str().unicode_len() {
            self.input.as_str().get_char(self.read_position)
        } else {
            '\0'
        }
    }

    /// Decides whether `ch` may continue an identifier span.
    fn is_letter(&self, ch: char) -> (r: bool)
        ensures
            r == is_letter_char(ch),
    {
        ('a' <= ch && ch <= 'z') || ('A' <= ch && ch <= 'Z') || ('0' <= ch && ch <= '9') || ch
            == '_'
    }

    /// Decides whether `ch` is an ASCII decimal digit.
    fn is_digit(&self, ch: char) -> (r: bool)
        ensures
            r == is_digit_char(ch),
    {
        '0' <= ch && ch <= '9'
    }

    /// Advances the cursor past the run of whitespace under it, if any.
    fn swallow_whitespace(&mut self)
        requires
            old(self).wf(),
        ensures
            final(self).wf(),
            final(self).input == old(self).input,
            final(self).position == skip_whitespace(old(self).input@, old(self).position as int),
    {
        while self.ch == ' ' || self.ch == '\t' || self.ch == '\n' || self.ch == '\r'
            invariant
                self.wf(),
                self.input == old(self).input,
                skip_whitespace(self.input@, self.position as int) == skip_whitespace(
                    old(self).input@,
                    old(self).position as int,
                ),
            decreases self.input@.len() - self.position,
        {
            self.read_char();
        }
    }

    /// Copies out the maximal identifier span that starts at the cursor and
    /// advances the cursor past it.
    fn read_identifier(&mut self) -> (r: String)
        requires
            old(self).wf(),
        ensures
            final(self).wf(),
            final(self).input == old(self).input,
            final(self).position as int == run_end(
                old(self).input@,
                old(self).position as int,
                letter_pred(),
                ),
            r@ == old(self).input@.subrange(old(self).position as int, final(self).position as int),
    {
        let position = self.position;
        while self.is_letter(self.ch)
            invariant
                self.wf(),
                self.input == old(self).input,
                position <= self.position,
                run_end(self.input@, self.position as int, letter_pred()) == run_end(
                    old(self).input@,
                    old(self).position as int,
                    letter_pred(),
                    ),
            decreases self.input@.len() - self.position,
        {
            self.read_char();
        }
        self.input.as_str().substring_char(position, self.position).to_owned()
    }

    /// Copies out the maximal digit span that starts at the cursor and
    /// advances the cursor past it.
    fn read_integer(&mut self) -> (r: String)
        requires
            old(self).wf(),
        ensures
            final(self).wf(),
            final(self).input == old(self).input,
            final(self).position as int == run_end(
                old(self).input@,
                old(self).position as int,
                digit_pred(),
                ),
            r@ == old(self).input@.subrange(old(self).position as int, final(self).position as int),
    {
        let position = self.position;
        while self.is_digit(self.ch)
            invariant
                self.wf(),
                self.input == old(self).input,
                position <= self.position,
                run_end(self.input@, self.position as int, digit_pred()) == run_end(
                    old(self).input@,
                    old(self).position as int,
                    digit_pred(),
                    ),
            decreases self.input@.len() - self.position,
        {
            self.read_char();
        }
        self.input.as_str().substring_char(position, self.position).to_owned()
    }

    /// Produces the next token: skips whitespace, classifies the current
    /// character with one character of lookahead for `==` and `!=`, and
    /// consumes exactly the token's span. Once the input is exhausted it
    /// returns `EndOfInput` forever, without advancing further.
    pub fn next_token(&mut self) -> (tok: Token)
        requires
            old(self).wf(),
        ensures
            final(self).wf(),
            final(self).input == old(self).input,
            tok.kind == scan(old(self).input@, old(self).position as int).kind,
            tok.literal@ == scan(old(self).input@, old(self).position as int).text,
            final(self).position as int == scan(old(self).input@, old(self).position as int).end,
    {
        self.swallow_whitespace();
        let tok: Token;
        if self.ch == '\0' {
            tok = self.new_token(TokenKind::EndOfInput, self.ch);
        } else if self.ch == '=' {
            if self.peek_char() == '=' {
                self.read_char();
                let literal = String::from_str("==");
                proof {
                    reveal_strlit("==");
                    assert(literal@ =~= seq!['=', '=']);
                }
                tok = Token { kind: TokenKind::Equal, literal };
            } else {
                tok = self.new_token(TokenKind::Assign, self.ch);
            }
        } else if self.ch == '!' {
            if self.peek_char() == '=' {
                self.read_char();
                let literal = String::from_str("!=");
                proof {
                    reveal_strlit("!=");
                    assert(literal@ =~= seq!['!', '=']);
                }
                tok = Token { kind: TokenKind::NotEqual, literal };
            } else {
                tok = self.new_token(TokenKind::Bang, self.ch);
            }
        } else if self.ch == ';' {
            tok = self.new_token(TokenKind::Semicolon, self.ch);
        } else if self.ch == '(' {
            tok = self.new_token(TokenKind::LeftParen, self.ch);
        } else if self.ch == ')' {
            tok = self.new_token(TokenKind::RightParen, self.ch);
        } else if self.ch == '{' {
            tok = self.new_token(TokenKind::LeftBrace, self.ch);
        } else if self.ch == '}' {
            tok = self.new_token(TokenKind::RightBrace, self.ch);
        } else if self.ch == ',' {
            tok = self.new_token(TokenKind::Comma, self.ch);
        } else if self.ch == '+' {
            tok = self.new_token(TokenKind::Plus, self.ch);
        } else if self.ch == '-' {
            tok = self.new_token(TokenKind::Minus, self.ch);
        } else if self.ch == '/' {
            tok = self.new_token(TokenKind::Slash, self.ch);
        } else if self.ch == '*' {
            tok = self.new_token(TokenKind::Asterisk, self.ch);
        } else if self.ch == '<' {
            tok = self.new_token(TokenKind::LessThan, self.ch);
        } else if self.ch == '>' {
            tok = self.new_token(TokenKind::GreaterThan, self.ch);
        } else if ('a' <= self.ch && self.ch <= 'z') || ('A' <= self.ch && self.ch <= 'Z') {
            let literal = self.read_identifier();
            let kind = Token::lookup_identifier(literal.as_str());
            return Token { kind, literal };
        } else if self.is_digit(self.ch) {
            let literal = self.read_integer();
            return Token { kind: TokenKind::IntegerLiteral, literal };
        } else {
            tok = self.new_token(TokenKind::Illegal, self.ch);
        }
        self.read_char();
        tok
    }

    /// The sequence view of the scanner: the next token, or `None` in place
    /// of the `EndOfInput` sentinel.
    pub fn next(&mut self) -> (r: Option<Token>)
        requires
            old(self).wf(),
        ensures
            final(self).wf(),
            final(self).input == old(self).input,
            final(self).position as int == scan(old(self).input@, old(self).position as int).end,
            ({
                let st = scan(old(self).input@, old(self).position as int);
                match r {
                    None => st.kind == TokenKind::EndOfInput,
                    Some(tok) => st.kind != TokenKind::EndOfInput && tok.kind == st.kind
                        && tok.literal@ == st.text,
                }
            }),
    {
        let tok = self.next_token();
        if tok.kind == TokenKind::EndOfInput {
            None
        } else {
            Some(tok)
        }
    }

    /// Builds a token whose text is the single character `ch`.
    fn new_token(&self, token_kind: TokenKind, ch: char) -> (tok: Token)
        ensures
            tok.kind == token_kind,
            tok.literal@ == seq![ch],
    {
        let mut literal = String::new();
        push_char(&mut literal, ch);
        proof {
            assert(literal@ =~= seq![ch]);
        }
        Token { kind: token_kind, literal }
    }
}

/// Relies on String::push: appends the given character at the end of the
/// string, changing nothing else.
#[verifier::external_body]
fn push_char(s: &mut String, c: char)
    ensures
        final(s)@ == old(s)@.push(c),
{
    s.push(c);
}

/// `run_end` lies between `p` and the input length, every character of the
/// run satisfies `f`, and the character at the run's end (if any) does not.
pub proof fn lemma_run_end(s: Seq<char>, p: int, f: spec_fn(char) -> bool)
    requires
        0 <= p <= s.len(),
    ensures
        p <= run_end(s, p, f) <= s.len(),
        forall|i: int| p <= i < run_end(s, p, f) ==> #[trigger] f(s[i]),
        run_end(s, p, f) < s.len() ==> !f(s[run_end(s, p, f)]),
    decreases s.len() - p,
{
    if p < s.len() && f(s[p]) {
        lemma_run_end(s, p + 1, f);
    }
}

/// `run_end` is the one position `e` such that `f` holds on all of
/// `[p, e)` and fails at `e` (or `e` is the end of the input): the run is
/// maximal.
pub proof fn lemma_run_end_is(s: Seq<char>, p: int, e: int, f: spec_fn(char) -> bool)
    requires
        0 <= p <= e <= s.len(),
        forall|i: int| p <= i < e ==> #[trigger] f(s[i]),
        e < s.len() ==> !f(s[e]),
    ensures
        run_end(s, p, f) == e,
    decreases e - p,
{
    if p < e {
        assert(f(s[p]));
        lemma_run_end_is(s, p + 1, e, f);
    }
}

/// Law: on input consisting only of whitespace, the first token produced is
/// `EndOfInput`.
pub proof fn lemma_whitespace_only_yields_end_of_input(s: Seq<char>)
    requires
        forall|i: int| 0 <= i < s.len() ==> is_whitespace_char(#[trigger] s[i]),
    ensures
        scan(s, 0).kind == TokenKind::EndOfInput,
{
    assert forall|i: int| 0 <= i < s.len() implies #[trigger] whitespace_pred()(s[i]) by {
        assert(is_whitespace_char(s[i]));
    }
    lemma_run_end_is(s, 0, s.len() as int, whitespace_pred());
}

/// Law: a recognized single-character operator or delimiter — when not the
/// first half of `==` or `!=` — yields exactly one token whose text is that
/// character alone, consuming a single position.
pub proof fn lemma_single_char_token(s: Seq<char>, p: int)
    requires
        single_char_kind(char_at(s, skip_whitespace(s, p))) is Some,
        ({
            let q = skip_whitespace(s, p);
            (char_at(s, q) == '=' || char_at(s, q) == '!') ==> char_at(s, q + 1) != '='
        }),
    ensures
        ({
            let q = skip_whitespace(s, p);
            &&& scan(s, p).kind == single_char_kind(char_at(s, q))->Some_0
            &&& scan(s, p).text == seq![char_at(s, q)]
            &&& scan(s, p).end == q + 1
        }),
{
}

/// Law: adjacent `==` and `!=` always yield a single two-character token,
/// never two single-character tokens.
pub proof fn lemma_two_char_operator(s: Seq<char>, p: int)
    requires
        ({
            let q = skip_whitespace(s, p);
            (char_at(s, q) == '=' || char_at(s, q) == '!') && char_at(s, q + 1) == '='
        }),
    ensures
        ({
            let q = skip_whitespace(s, p);
            &&& scan(s, p).kind == if char_at(s, q) == '=' {
                TokenKind::Equal
            } else {
                TokenKind::NotEqual
            }
            &&& scan(s, p).text == seq![char_at(s, q), '=']
            &&& scan(s, p).end == q + 2
        }),
{
    let q = skip_whitespace(s, p);
    if char_at(s, q) == '=' {
        assert(seq!['=', '='] =~= seq![char_at(s, q), '=']);
    } else {
        assert(seq!['!', '='] =~= seq![char_at(s, q), '=']);
    }
}

/// Law: a maximal ASCII digit run is emitted as one `IntegerLiteral` token
/// whose text equals the full run, never split into shorter tokens.
pub proof fn lemma_integer_run(s: Seq<char>, p: int, e: int)
    requires
        0 <= p,
        ({
            let q = skip_whitespace(s, p);
            &&& q < e <= s.len()
            &&& forall|i: int| q <= i < e ==> is_digit_char(#[trigger] s[i])
            &&& (e < s.len() ==> !is_digit_char(s[e]))
        }),
    ensures
        ({
            let q = skip_whitespace(s, p);
            &&& scan(s, p).kind == TokenKind::IntegerLiteral
            &&& scan(s, p).text == s.subrange(q, e)
            &&& scan(s, p).end == e
        }),
{
    let q = skip_whitespace(s, p);
    lemma_run_end(s, p, whitespace_pred());
    assert forall|i: int| q <= i < e implies #[trigger] digit_pred()(s[i]) by {
        assert(is_digit_char(s[i]));
    }
    lemma_run_end_is(s, q, e, digit_pred());
}

/// A maximal identifier-shaped span that starts with an ASCII letter is
/// emitted as one token whose text is the whole span and whose kind comes
/// from the keyword table. `lemma_identifier_run` and `lemma_keyword_run`
/// specialize it.
pub proof fn lemma_word_run(s: Seq<char>, p: int, e: int)
    requires
        0 <= p,
        ({
            let q = skip_whitespace(s, p);
            &&& q < e <= s.len()
            &&& is_ascii_letter(char_at(s, q))
            &&& forall|i: int| q <= i < e ==> is_letter_char(#[trigger] s[i])
            &&& (e < s.len() ==> !is_letter_char(s[e]))
        }),
    ensures
        ({
            let q = skip_whitespace(s, p);
            &&& scan(s, p).kind == spec_lookup(s.subrange(q, e))
            &&& scan(s, p).text == s.subrange(q, e)
            &&& scan(s, p).end == e
        }),
{
    let q = skip_whitespace(s, p);
    lemma_run_end(s, p, whitespace_pred());
    assert forall|i: int| q <= i < e implies #[trigger] letter_pred()(s[i]) by {
        assert(is_letter_char(s[i]));
    }
    lemma_run_end_is(s, q, e, letter_pred());
}

/// Law: a maximal ASCII letter run that matches no reserved word is emitted
/// as one `Identifier` token with text equal to the full span.
pub proof fn lemma_identifier_run(s: Seq<char>, p: int, e: int)
    requires
        0 <= p,
        ({
            let q = skip_whitespace(s, p);
            &&& q < e <= s.len()
            &&& is_ascii_letter(char_at(s, q))
            &&& forall|i: int| q <= i < e ==> is_letter_char(#[trigger] s[i])
            &&& (e < s.len() ==> !is_letter_char(s[e]))
            &&& spec_keyword(s.subrange(q, e)) is None
        }),
    ensures
        ({
            let q = skip_whitespace(s, p);
            &&& scan(s, p).kind == TokenKind::Identifier
            &&& scan(s, p).text == s.subrange(q, e)
            &&& scan(s, p).end == e
        }),
{
    lemma_word_run(s, p, e);
}

/// Law: a reserved word scanned as a standalone identifier span always
/// produces its dedicated keyword kind, never `Identifier`.
pub proof fn lemma_keyword_run(s: Seq<char>, p: int, e: int)
    requires
        0 <= p,
        ({
            let q = skip_whitespace(s, p);
            &&& q < e <= s.len()
            &&& is_ascii_letter(char_at(s, q))
            &&& forall|i: int| q <= i < e ==> is_letter_char(#[trigger] s[i])
            &&& (e < s.len() ==> !is_letter_char(s[e]))
            &&& spec_keyword(s.subrange(q, e)) is Some
        }),
    ensures
        ({
            let q = skip_whitespace(s, p);
            &&& scan(s, p).kind == spec_keyword(s.subrange(q, e))->Some_0
            &&& scan(s, p).kind != TokenKind::Identifier
            &&& scan(s, p).text == s.subrange(q, e)
            &&& scan(s, p).end == e
        }),
{
    lemma_word_run(s, p, e);
}

/// Law: once the input is exhausted, every further scan yields `EndOfInput`
/// with the sentinel text and leaves the cursor where it is.
pub proof fn lemma_end_of_input_idempotent(s: Seq<char>)
    ensures
        scan(s, s.len() as int).kind == TokenKind::EndOfInput,
        scan(s, s.len() as int).text == seq!['\0'],
        scan(s, s.len() as int).end == s.len(),
{
}

} // verus!
