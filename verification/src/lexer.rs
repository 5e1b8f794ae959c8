//! The tokenizer: converts source text into an ordered sequence of
//! tokens, single pass and left to right, dispatching on the next
//! character with one character of lookahead for two-character operators.
//!
//! What `tokenize` returns is pinned down exactly by [`spec_tokenize`].

use vstd::prelude::*;

use crate::cursor::{lemma_run_end, seq_run_end, Cursor};
use crate::decimal::Decimal;
use crate::error::{Error, ErrorKind, ErrorKindV, ErrorV, LexerError, LexerErrorV};
use crate::program::Source;
use crate::span::Span;
use crate::text::{str_to_chars, text_range};
use crate::token::{
    spec_is_operator_start, Keyword, Operator, Parenthesis, Token, TokenExt, TokenKind, TokenKindV,
    TokenV,
};

verus! {

/// Whether a character beyond ascii satisfies the `XID_Start` property.
pub uninterp spec fn xid_start_supplementary(c: char) -> bool;

/// Whether a character beyond ascii satisfies the `XID_Continue`
/// property.
pub uninterp spec fn xid_continue_supplementary(c: char) -> bool;

/// Whether a character may begin an identifier: an ascii letter, an
/// underscore, or a character beyond ascii with the `XID_Start` property.
pub open spec fn spec_ident_start(c: char) -> bool {
    ('a' <= c && c <= 'z') || ('A' <= c && c <= 'Z') || c == '_' || ((c as u32) > 127
        && xid_start_supplementary(c))
}

/// Whether a character may continue an identifier: an ascii letter or
/// digit, an underscore, or a character beyond ascii with the
/// `XID_Continue` property.
pub open spec fn spec_ident_continue(c: char) -> bool {
    ('a' <= c && c <= 'z') || ('A' <= c && c <= 'Z') || ('0' <= c && c <= '9') || c == '_' || ((
    c as u32) > 127 && xid_continue_supplementary(c))
}

/// Relies on `unicode_xid::UnicodeXID::is_xid_start`: true for ascii
/// letters, false for every other ascii character, and the `XID_Start`
/// table beyond ascii; an underscore is accepted here as well.
#[verifier::external_body]
fn is_ident_start(c: char) -> (r: bool)
    ensures
        r == spec_ident_start(c),
        (c as u32) > 127 ==> r == xid_start_supplementary(c),
{
    c == '_' || unicode_xid::UnicodeXID::is_xid_start(c)
}

/// Relies on `unicode_xid::UnicodeXID::is_xid_continue`: true for ascii
/// letters, digits and the underscore, false for every other ascii
/// character, and the `XID_Continue` table beyond ascii.
#[verifier::external_body]
fn is_ident_continue(c: char) -> (r: bool)
    ensures
        r == spec_ident_continue(c),
        (c as u32) > 127 ==> r == xid_continue_supplementary(c),
{
    unicode_xid::UnicodeXID::is_xid_continue(c)
}

/// Blank space that is discarded: space, tab, carriage return.
pub open spec fn spec_is_ws(c: char) -> bool {
    c == ' ' || c == '\t' || c == '\r'
}

/// A statement terminator character: a line break or a semicolon.
pub open spec fn spec_is_newline(c: char) -> bool {
    c == '\n' || c == ';'
}

/// An ascii digit.
pub open spec fn spec_is_digit(c: char) -> bool {
    '0' <= c && c <= '9'
}

/// The numeric value of an ascii digit.
pub open spec fn digit_val(c: char) -> int {
    (c as u32) - 48
}

/// The numeric value of a run of ascii digits, most significant first.
pub open spec fn digits_val(s: Seq<char>) -> int
    decreases s.len(),
{
    if s.len() == 0 {
        0
    } else {
        digits_val(s.drop_last()) * 10 + digit_val(s.last())
    }
}

/// The predicate for blank space, as a function value.
pub open spec fn ws_pred() -> spec_fn(char) -> bool {
    |c: char| spec_is_ws(c)
}

/// The predicate for ascii digits, as a function value.
pub open spec fn digit_pred() -> spec_fn(char) -> bool {
    |c: char| spec_is_digit(c)
}

/// The predicate for identifier continuation, as a function value.
pub open spec fn ident_cont_pred() -> spec_fn(char) -> bool {
    |c: char| spec_ident_continue(c)
}

/// The predicate for the inside of a string literal, as a function value.
pub open spec fn not_quote_pred() -> spec_fn(char) -> bool {
    |c: char| c != '"'
}

/// The predicate for an unbroken run of symbols, as a function value:
/// neither blank space nor a terminator.
pub open spec fn symbol_run_pred() -> spec_fn(char) -> bool {
    |c: char| !spec_is_ws(c) && !spec_is_newline(c)
}

/// Where a numeric literal ends: after the leading digit run, each `.`
/// pulls in another digit run.
pub open spec fn spec_dots_end(s: Seq<char>, j: int) -> int
    decreases s.len() - j,
{
    if 0 <= j < s.len() && s[j] == '.' {
        let k = seq_run_end(s, j + 1, digit_pred());
        let k2 = if j + 1 <= k <= s.len() {
            k
        } else {
            j + 1
        };
        spec_dots_end(s, k2)
    } else {
        j
    }
}

/// How many `.` a numeric literal starting its dotted part at `j` holds.
pub open spec fn spec_dot_count(s: Seq<char>, j: int) -> int
    decreases s.len() - j,
{
    if 0 <= j < s.len() && s[j] == '.' {
        let k = seq_run_end(s, j + 1, digit_pred());
        let k2 = if j + 1 <= k <= s.len() {
            k
        } else {
            j + 1
        };
        1 + spec_dot_count(s, k2)
    } else {
        0
    }
}

/// Ten to a small power.
pub open spec fn pow10(k: int) -> int
    decreases k,
{
    if k <= 0 {
        1
    } else {
        10 * pow10(k - 1)
    }
}

/// The fractional digits of a literal, as scaled units: the first six
/// fractional digits, padded with zeros on the right.
pub open spec fn frac6_val(ds: Seq<char>) -> int {
    if ds.len() >= 6 {
        digits_val(ds.take(6))
    } else {
        digits_val(ds) * pow10(6 - ds.len())
    }
}

/// Whether a character is discarded blank space.
fn is_ws_exec(c: char) -> (b: bool)
    ensures
        b == spec_is_ws(c),
{
    c == ' ' || c == '\t' || c == '\r'
}

/// Whether a character is an ascii digit.
fn is_digit_exec(c: char) -> (b: bool)
    ensures
        b == spec_is_digit(c),
{
    '0' <= c && c <= '9'
}

/// Whether a character lies inside a string literal.
fn not_quote_exec(c: char) -> (b: bool)
    ensures
        b == (c != '"'),
{
    c != '"'
}

/// Whether a character continues an unbroken run of symbols.
fn symbol_run_exec(c: char) -> (b: bool)
    ensures
        b == (!spec_is_ws(c) && !spec_is_newline(c)),
{
    !(c == ' ' || c == '\t' || c == '\r') && !(c == '\n' || c == ';')
}

/// One step of tokenization: the token or error beginning at position
/// `i`, or the end of the input.
pub enum LexOut {
    Tok(TokenV),
    Fail(ErrorV),
    End,
}

/// A malformed-number error covering `[i, end)`.
pub open spec fn spec_malformed(s: Seq<char>, i: int, end: int, key: u64) -> LexOut {
    LexOut::Fail(
        ErrorV {
            span: Span { start: i as usize, end: end as usize, source: key },
            kind: ErrorKindV::Lexer(LexerErrorV::MalformedNumber(s.subrange(i, end))),
        },
    )
}

/// The numeric literal starting at `i`: an integer if it has no dot, a
/// decimal if it has one; two or more dots, or a value too large for the
/// representation, are a malformed number covering the whole run.
pub open spec fn spec_number(s: Seq<char>, i: int, key: u64) -> LexOut {
    let d1 = seq_run_end(s, i, digit_pred());
    let end = spec_dots_end(s, d1);
    let dots = spec_dot_count(s, d1);
    if dots == 0 {
        let v = digits_val(s.subrange(i, d1));
        if v > i64::MAX {
            spec_malformed(s, i, end, key)
        } else {
            LexOut::Tok(
                TokenV {
                    kind: TokenKindV::Integer(v as i64),
                    span: Span { start: i as usize, end: end as usize, source: key },
                },
            )
        }
    } else if dots == 1 {
        let f1 = seq_run_end(s, d1 + 1, digit_pred());
        let scaled = digits_val(s.subrange(i, d1)) * 1000000 + frac6_val(s.subrange(d1 + 1, f1));
        if scaled > i64::MAX {
            spec_malformed(s, i, end, key)
        } else {
            LexOut::Tok(
                TokenV {
                    kind: TokenKindV::Float(Decimal { scaled: scaled as i64 }),
                    span: Span { start: i as usize, end: end as usize, source: key },
                },
            )
        }
    } else {
        spec_malformed(s, i, end, key)
    }
}

/// The token or error beginning at position `i` of the source.
pub open spec fn spec_next_token(s: Seq<char>, i: int, key: u64) -> LexOut {
    if i >= s.len() {
        LexOut::End
    } else {
        let c = s[i];
        if spec_is_ws(c) {
            let end = seq_run_end(s, i, ws_pred());
            LexOut::Tok(
                TokenV {
                    kind: TokenKindV::Whitespace,
                    span: Span { start: i as usize, end: end as usize, source: key },
                },
            )
        } else if spec_is_newline(c) {
            LexOut::Tok(
                TokenV {
                    kind: TokenKindV::Newline,
                    span: Span { start: i as usize, end: (i + 1) as usize, source: key },
                },
            )
        } else if c == ',' {
            LexOut::Tok(
                TokenV {
                    kind: TokenKindV::Comma,
                    span: Span { start: i as usize, end: (i + 1) as usize, source: key },
                },
            )
        } else if spec_is_digit(c) {
            spec_number(s, i, key)
        } else if c == '"' {
            let j = seq_run_end(s, i + 1, not_quote_pred());
            if j >= s.len() {
                LexOut::Fail(
                    ErrorV {
                        span: Span { start: i as usize, end: j as usize, source: key },
                        kind: ErrorKindV::Lexer(
                            LexerErrorV::UnterminatedString(s.subrange(i, j)),
                        ),
                    },
                )
            } else {
                LexOut::Tok(
                    TokenV {
                        kind: TokenKindV::Str(s.subrange(i + 1, j)),
                        span: Span { start: i as usize, end: (j + 1) as usize, source: key },
                    },
                )
            }
        } else if spec_ident_start(c) {
            let e = seq_run_end(s, i + 1, ident_cont_pred());
            let text = s.subrange(i, e);
            let kind = match Keyword::spec_from_ident(text) {
                Some(k) => TokenKindV::Keyword(k),
                None => TokenKindV::Identifier(text),
            };
            LexOut::Tok(
                TokenV { kind, span: Span { start: i as usize, end: e as usize, source: key } },
            )
        } else if spec_is_operator_start(c) {
            let b = if i + 1 < s.len() {
                Some(s[i + 1])
            } else {
                None
            };
            match Operator::spec_from_chars(c, b) {
                Some(op) => {
                    let w: int = if op.spec_is_two_char() {
                        2
                    } else {
                        1
                    };
                    LexOut::Tok(
                        TokenV {
                            kind: TokenKindV::Operator(op),
                            span: Span { start: i as usize, end: (i + w) as usize, source: key },
                        },
                    )
                },
                None => LexOut::Fail(
                    ErrorV {
                        span: Span { start: i as usize, end: (i + 1) as usize, source: key },
                        kind: ErrorKindV::Lexer(
                            LexerErrorV::UnknownSymbol(s.subrange(i, i + 1)),
                        ),
                    },
                ),
            }
        } else if Parenthesis::spec_from_char(c) is Some {
            LexOut::Tok(
                TokenV {
                    kind: TokenKindV::Parenthesis(Parenthesis::spec_from_char(c)->Some_0),
                    span: Span { start: i as usize, end: (i + 1) as usize, source: key },
                },
            )
        } else {
            let e = seq_run_end(s, i, symbol_run_pred());
            LexOut::Fail(
                ErrorV {
                    span: Span { start: i as usize, end: e as usize, source: key },
                    kind: ErrorKindV::Lexer(LexerErrorV::UnknownSymbol(s.subrange(i, e))),
                },
            )
        }
    }
}

/// The whole token stream from position `i` on, with the tokens already
/// produced in `acc`; whitespace tokens are discarded.  The first error
/// aborts tokenization.
pub open spec fn spec_tokenize_from(s: Seq<char>, key: u64, i: int, acc: Seq<TokenV>) -> Result<
    Seq<TokenV>,
    ErrorV,
>
    decreases s.len() - i,
{
    if i >= s.len() {
        Ok(acc)
    } else {
        match spec_next_token(s, i, key) {
            LexOut::End => Ok(acc),
            LexOut::Fail(e) => Err(e),
            LexOut::Tok(t) => {
                let n = if i + 1 <= t.span.end <= s.len() {
                    t.span.end as int
                } else {
                    i + 1
                };
                spec_tokenize_from(
                    s,
                    key,
                    n,
                    if t.kind is Whitespace {
                        acc
                    } else {
                        acc.push(t)
                    },
                )
            },
        }
    }
}

/// The token stream of a source text: what `tokenize` returns.
pub open spec fn spec_tokenize(s: Seq<char>, key: u64) -> Result<Seq<TokenV>, ErrorV> {
    spec_tokenize_from(s, key, 0, Seq::empty())
}

/// The values of a vector of tokens.
pub open spec fn view_tokens(v: Seq<Token>) -> Seq<TokenV> {
    v.map_values(|t: Token| t@)
}

/// Converts a source text into a list of tokens.
pub struct Lexer {
    /// The cursor over the source code's characters.
    pub cursor: Cursor,
    /// The key of the source file, used to give tokens spans.
    pub key: u64,
}

impl Lexer {
    /// The characters being tokenized.
    pub open spec fn s(&self) -> Seq<char> {
        self.cursor.s()
    }

    /// Creates a new lexer over a source file.
    pub fn new(key: u64, source: &Source) -> (r: Lexer)
        ensures
            r.s() == source.content@,
            r.cursor.pos == 0,
            r.cursor.wf(),
            r.key == key,
    {
        Lexer { cursor: Cursor::new(str_to_chars(source.content.as_str())), key }
    }

    /// Starts the tokenization process: every token of the source in
    /// order, whitespace discarded, or the first lexical error.
    pub fn tokenize(self) -> (r: Result<Vec<Token>, Error>)
        requires
            self.cursor.pos == 0,
            self.cursor.wf(),
        ensures
            match r {
                Ok(v) => spec_tokenize(self.s(), self.key) == Ok::<Seq<TokenV>, ErrorV>(
                    view_tokens(v@),
                ),
                Err(e) => spec_tokenize(self.s(), self.key) == Err::<Seq<TokenV>, ErrorV>(e@),
            },
    {
        let ghost s = self.s();
        let ghost key = self.key;
        let mut this = self;
        let mut tokens: Vec<Token> = Vec::new();
        proof {
            assert(view_tokens(tokens@) =~= Seq::<TokenV>::empty());
        }
        loop
            invariant
                s == self.s(),
                key == self.key,
                this.key == key,
                this.s() == s,
                this.cursor.wf(),
                spec_tokenize(s, key) == spec_tokenize_from(
                    s,
                    key,
                    this.cursor.pos as int,
                    view_tokens(tokens@),
                ),
            ensures
                this.cursor.pos == s.len(),
                spec_tokenize(s, key) == Ok::<Seq<TokenV>, ErrorV>(view_tokens(tokens@)),
            decreases s.len() - this.cursor.pos,
        {
            let ghost pos0 = this.cursor.pos as int;
            let ghost acc0 = view_tokens(tokens@);
            match this.next() {
                Err(e) => {
                    proof {
                        assert(spec_next_token(s, pos0, key) == LexOut::Fail(e@));
                        assert(pos0 < s.len());
                        assert(spec_tokenize_from(s, key, pos0, acc0) == Err::<
                            Seq<TokenV>,
                            ErrorV,
                        >(e@));
                        assert(spec_tokenize(s, key) == Err::<Seq<TokenV>, ErrorV>(e@));
                    }
                    return Err(e);
                },
                Ok(None) => {
                    break ;
                },
                Ok(Some(token)) => {
                    match token.kind {
                        TokenKind::Whitespace => {
                        },
                        _ => {
                            let ghost t = token@;
                            tokens.push(token);
                            proof {
                                assert(view_tokens(tokens@) =~= acc0.push(t));
                            }
                        },
                    }
                },
            }
        }
        Ok(tokens)
    }

    /// Advances the lexer by one token: the token beginning at the
    /// cursor, or nothing at the end of the input, or the lexical error
    /// beginning there.
    pub fn next(&mut self) -> (r: Result<Option<Token>, Error>)
        requires
            old(self).cursor.wf(),
        ensures
            final(self).key == old(self).key,
            final(self).s() == old(self).s(),
            final(self).cursor.wf(),
            match r {
                Ok(None) => old(self).cursor.pos == old(self).s().len() && final(self).cursor.pos
                    == old(self).cursor.pos && spec_next_token(
                    old(self).s(),
                    old(self).cursor.pos as int,
                    old(self).key,
                ) == LexOut::End,
                Ok(Some(t)) => spec_next_token(
                    old(self).s(),
                    old(self).cursor.pos as int,
                    old(self).key,
                ) == LexOut::Tok(t@) && final(self).cursor.pos == t@.span.end && old(self).cursor.pos < final(self).cursor.pos <= old(self).s().len(),
                Err(e) => spec_next_token(
                    old(self).s(),
                    old(self).cursor.pos as int,
                    old(self).key,
                ) == LexOut::Fail(e@),
            },
    {
        let ghost s = self.s();
        let start = self.cursor.pos();
        let ghost i = start as int;
        let c = match self.cursor.peek() {
            None => {
                return Ok(None);
            },
            Some(c) => c,
        };
        if c == ' ' || c == '\t' || c == '\r' {
            self.cursor.advance_while(is_ws_exec, Ghost(ws_pred()));
            let end = self.cursor.pos();
            proof {
                lemma_run_end(s, i + 1, ws_pred());
                assert(seq_run_end(s, i, ws_pred()) == seq_run_end(s, i + 1, ws_pred()));
            }
            Ok(
                Some(
                    Token {
                        kind: TokenKind::Whitespace,
                        span: Span { start, end, source: self.key },
                    },
                ),
            )
        } else if c == '\n' || c == ';' {
            self.cursor.advance();
            Ok(
                Some(
                    Token {
                        kind: TokenKind::Newline,
                        span: Span { start, end: start + 1, source: self.key },
                    },
                ),
            )
        } else if c == ',' {
            self.cursor.advance();
            Ok(
                Some(
                    Token {
                        kind: TokenKind::Comma,
                        span: Span { start, end: start + 1, source: self.key },
                    },
                ),
            )
        } else if '0' <= c && c <= '9' {
            self.next_number(start)
        } else if c == '"' {
            self.cursor.advance();
            self.cursor.advance_while(not_quote_exec, Ghost(not_quote_pred()));
            let j = self.cursor.pos();
            proof {
                lemma_run_end(s, i + 1, not_quote_pred());
            }
            match self.cursor.peek() {
                None => Err(
                    Error {
                        span: Span { start, end: j, source: self.key },
                        kind: ErrorKind::Lexer(
                            LexerError::UnterminatedString(
                                text_range(&self.cursor.chars, start, j),
                            ),
                        ),
                    },
                ),
                Some(_) => {
                    self.cursor.advance();
                    Ok(
                        Some(
                            Token {
                                kind: TokenKind::Str(
                                    text_range(&self.cursor.chars, start + 1, j),
                                ),
                                span: Span { start, end: j + 1, source: self.key },
                            },
                        ),
                    )
                },
            }
        } else if is_ident_start(c) {
            self.cursor.advance();
            self.cursor.advance_while(is_ident_continue, Ghost(ident_cont_pred()));
            let e = self.cursor.pos();
            proof {
                lemma_run_end(s, i + 1, ident_cont_pred());
            }
            let text = text_range(&self.cursor.chars, start, e);
            let kind = match Keyword::from_ident(text.as_str()) {
                Some(k) => TokenKind::Keyword(k),
                None => TokenKind::Identifier(text),
            };
            Ok(Some(Token { kind, span: Span { start, end: e, source: self.key } }))
        } else if c.is_operator_start() {
            self.cursor.advance();
            let b = self.cursor.peek();
            match Operator::from_chars(c, b) {
                Some(op) => {
                    if op.is_two_char() {
                        self.cursor.advance();
                        Ok(
                            Some(
                                Token {
                                    kind: TokenKind::Operator(op),
                                    span: Span { start, end: start + 2, source: self.key },
                                },
                            ),
                        )
                    } else {
                        Ok(
                            Some(
                                Token {
                                    kind: TokenKind::Operator(op),
                                    span: Span { start, end: start + 1, source: self.key },
                                },
                            ),
                        )
                    }
                },
                None => Err(
                    Error {
                        span: Span { start, end: start + 1, source: self.key },
                        kind: ErrorKind::Lexer(
                            LexerError::UnknownSymbol(
                                text_range(&self.cursor.chars, start, start + 1),
                            ),
                        ),
                    },
                ),
            }
        } else if let Some(p) = Parenthesis::from_char(c) {
            self.cursor.advance();
            Ok(
                Some(
                    Token {
                        kind: TokenKind::Parenthesis(p),
                        span: Span { start, end: start + 1, source: self.key },
                    },
                ),
            )
        } else {
            self.cursor.advance_while(symbol_run_exec, Ghost(symbol_run_pred()));
            let e = self.cursor.pos();
            proof {
                lemma_run_end(s, i, symbol_run_pred());
            }
            Err(
                Error {
                    span: Span { start, end: e, source: self.key },
                    kind: ErrorKind::Lexer(
                        LexerError::UnknownSymbol(text_range(&self.cursor.chars, start, e)),
                    ),
                },
            )
        }
    }

    /// Consumes a numeric literal: the leading digit run, then every
    /// following `.` with its digit run, counting the dots; the token or
    /// the malformed-number error this yields.
    fn next_number(&mut self, start: usize) -> (r: Result<Option<Token>, Error>)
        requires
            old(self).cursor.wf(),
            start == old(self).cursor.pos,
            start < old(self).s().len(),
            spec_is_digit(old(self).s()[start as int]),
        ensures
            final(self).key == old(self).key,
            final(self).s() == old(self).s(),
            final(self).cursor.wf(),
            match r {
                Ok(Some(t)) => spec_number(old(self).s(), start as int, old(self).key)
                    == LexOut::Tok(t@) && final(self).cursor.pos == t@.span.end && start < final(self).cursor.pos <= old(self).s().len(),
                Err(e) => spec_number(old(self).s(), start as int, old(self).key) == LexOut::Fail(
                    e@,
                ),
                Ok(None) => false,
            },
    {
        let ghost s = self.s();
        let ghost i = start as int;
        let ghost key = self.key;
        self.cursor.advance_while(is_digit_exec, Ghost(digit_pred()));
        let d1 = self.cursor.pos();
        proof {
            lemma_run_end(s, i, digit_pred());
        }
        let mut dots: usize = 0;
        let mut f_start: usize = d1;
        let mut f_end: usize = d1;
        loop
            invariant
                self.key == key,
                self.s() == s,
                self.cursor.wf(),
                i < d1 <= self.cursor.pos <= s.len(),
                d1 == seq_run_end(s, i, digit_pred()),
                dots <= self.cursor.pos,
                spec_dots_end(s, d1 as int) == spec_dots_end(s, self.cursor.pos as int),
                spec_dot_count(s, d1 as int) == dots + spec_dot_count(
                    s,
                    self.cursor.pos as int,
                ),
                dots == 0 ==> self.cursor.pos == d1 && f_start == d1 && f_end == d1,
                dots >= 1 ==> f_start == d1 + 1 && f_end == seq_run_end(
                    s,
                    d1 + 1,
                    digit_pred(),
                ) && f_end <= self.cursor.pos,
                f_start <= f_end <= s.len(),
            ensures
                self.key == key,
                self.s() == s,
                self.cursor.wf(),
                i < d1 <= self.cursor.pos <= s.len(),
                spec_dots_end(s, d1 as int) == self.cursor.pos,
                spec_dot_count(s, d1 as int) == dots,
                dots == 0 ==> self.cursor.pos == d1 && f_start == d1 && f_end == d1,
                dots >= 1 ==> f_start == d1 + 1 && f_end == seq_run_end(s, d1 + 1, digit_pred()),
                f_start <= f_end <= s.len(),
            decreases s.len() - self.cursor.pos,
        {
            match self.cursor.peek() {
                Some(c) => {
                    if c == '.' {
                        let ghost p0 = self.cursor.pos as int;
                        self.cursor.advance();
                        let rs = self.cursor.pos();
                        self.cursor.advance_while(is_digit_exec, Ghost(digit_pred()));
                        proof {
                            lemma_run_end(s, rs as int, digit_pred());
                        }
                        if dots == 0 {
                            f_start = rs;
                            f_end = self.cursor.pos();
                        }
                        dots += 1;
                    } else {
                        break ;
                    }
                },
                None => {
                    break ;
                },
            }
        }
        let end = self.cursor.pos();
        let ghost text = s.subrange(i, end as int);
        proof {
            lemma_digits_range(s, i, d1 as int);
        }
        if dots == 0 {
            match digits_value(&self.cursor.chars, start, d1) {
                Some(n) => Ok(
                    Some(
                        Token {
                            kind: TokenKind::Integer(n),
                            span: Span { start, end, source: self.key },
                        },
                    ),
                ),
                None => Err(self.malformed(start, end)),
            }
        } else if dots == 1 {
            proof {
                lemma_run_end(s, d1 + 1, digit_pred());
                lemma_digits_range(s, d1 + 1, f_end as int);
                lemma_frac6_bounds(s.subrange(d1 + 1, f_end as int));
            }
            match digits_value(&self.cursor.chars, start, d1) {
                None => {
                    proof {
                        let ip = digits_val(s.subrange(i, d1 as int));
                        let fr = frac6_val(s.subrange(d1 + 1, f_end as int));
                        assert(ip * 1000000 >= ip) by (nonlinear_arith)
                            requires
                                ip > i64::MAX,
                        ;
                    }
                    Err(self.malformed(start, end))
                },
                Some(ip) => {
                    let frac = frac_value6(&self.cursor.chars, f_start, f_end);
                    match ip.checked_mul(1000000) {
                        None => {
                            proof {
                                let ipv = digits_val(s.subrange(i, d1 as int));
                                assert(ipv * 1000000 > i64::MAX);
                            }
                            Err(self.malformed(start, end))
                        },
                        Some(m) => {
                            proof {
                                let ipv = digits_val(s.subrange(i, d1 as int));
                                assert(ipv * 1000000 >= 0) by (nonlinear_arith)
                                    requires
                                        ipv >= 0,
                                ;
                            }
                            match m.checked_add(frac) {
                                None => Err(self.malformed(start, end)),
                                Some(scaled) => Ok(
                                    Some(
                                        Token {
                                            kind: TokenKind::Float(Decimal { scaled }),
                                            span: Span { start, end, source: self.key },
                                        },
                                    ),
                                ),
                            }
                        },
                    }
                },
            }
        } else {
            Err(self.malformed(start, end))
        }
    }

    /// A malformed-number error covering `[start, end)`.
    fn malformed(&self, start: usize, end: usize) -> (r: Error)
        requires
            self.cursor.wf(),
            start <= end <= self.s().len(),
        ensures
            r@ == (ErrorV {
                span: Span { start, end, source: self.key },
                kind: ErrorKindV::Lexer(
                    LexerErrorV::MalformedNumber(self.s().subrange(start as int, end as int)),
                ),
            }),
    {
        Error {
            span: Span { start, end, source: self.key },
            kind: ErrorKind::Lexer(
                LexerError::MalformedNumber(text_range(&self.cursor.chars, start, end)),
            ),
        }
    }
}

/// Characters of a digit run are digits.
proof fn lemma_digits_range(s: Seq<char>, i: int, e: int)
    requires
        0 <= i <= s.len(),
        e == seq_run_end(s, i, digit_pred()),
    ensures
        i <= e <= s.len(),
        forall|j: int| i <= j < e ==> spec_is_digit(s[j]),
{
    lemma_run_end(s, i, digit_pred());
    assert forall|j: int| i <= j < e implies spec_is_digit(s[j]) by {
        assert(digit_pred()(s[j]));
    }
}

/// The value of a digit run is not negative.
pub proof fn lemma_digits_val_nonneg(s: Seq<char>)
    requires
        forall|j: int| 0 <= j < s.len() ==> spec_is_digit(s[j]),
    ensures
        digits_val(s) >= 0,
    decreases s.len(),
{
    if s.len() > 0 {
        lemma_digits_val_nonneg(s.drop_last());
        assert(digits_val(s.drop_last()) * 10 >= 0) by (nonlinear_arith)
            requires
                digits_val(s.drop_last()) >= 0,
        ;
    }
}

/// Extending a digit run multiplies its value by ten and adds the new
/// digit.
pub proof fn lemma_digits_val_take(s: Seq<char>, k: int)
    requires
        0 <= k < s.len(),
    ensures
        digits_val(s.take(k + 1)) == digits_val(s.take(k)) * 10 + digit_val(s[k]),
{
    assert(s.take(k + 1).drop_last() =~= s.take(k));
    assert(s.take(k + 1).last() == s[k]);
}

/// A digit run is worth at least any of its prefixes.
pub proof fn lemma_digits_prefix_mono(s: Seq<char>, k: int)
    requires
        0 <= k <= s.len(),
        forall|j: int| 0 <= j < s.len() ==> spec_is_digit(s[j]),
    ensures
        digits_val(s) >= digits_val(s.take(k)),
    decreases s.len() - k,
{
    if k < s.len() {
        lemma_digits_val_take(s, k);
        lemma_digits_val_nonneg(s.take(k));
        assert(digits_val(s.take(k)) * 10 >= digits_val(s.take(k))) by (nonlinear_arith)
            requires
                digits_val(s.take(k)) >= 0,
        ;
        lemma_digits_prefix_mono(s, k + 1);
    } else {
        assert(s.take(k) =~= s);
    }
}

/// Appending zeros to a digit run multiplies its value by the matching
/// power of ten.
proof fn lemma_digits_append_zeros(p: Seq<char>, m: int)
    requires
        m >= 0,
    ensures
        digits_val(p + seq_zeros(m)) == digits_val(p) * pow10(m),
    decreases m,
{
    if m == 0 {
        assert(p + seq_zeros(0) =~= p);
    } else {
        assert((p + seq_zeros(m)).drop_last() =~= p + seq_zeros(m - 1));
        assert((p + seq_zeros(m)).last() == '0');
        lemma_digits_append_zeros(p, m - 1);
        assert(digits_val(p) * pow10(m - 1) * 10 == digits_val(p) * pow10(m)) by (nonlinear_arith)
            requires
                pow10(m) == 10 * pow10(m - 1),
        ;
    }
}

/// A run of `m` zero characters.
pub open spec fn seq_zeros(m: int) -> Seq<char> {
    Seq::new(if m >= 0 {
        m as nat
    } else {
        0
    }, |k: int| '0')
}

/// The scaled fractional value lies under one whole unit.
proof fn lemma_frac6_bounds(ds: Seq<char>)
    requires
        forall|j: int| 0 <= j < ds.len() ==> spec_is_digit(ds[j]),
    ensures
        0 <= frac6_val(ds) < 1000000,
{
    lemma_frac6_as_padded(ds);
    let padded = frac6_padded(ds);
    lemma_digits_val_nonneg(padded);
    lemma_digits_fixed_width(padded);
    assert(pow10(6) == 1000000) by {
        reveal_with_fuel(pow10, 7);
    }
}

/// The padded six-digit form of a fractional run.
pub open spec fn frac6_padded(ds: Seq<char>) -> Seq<char> {
    Seq::new(
        6,
        |k: int| if k < ds.len() {
            ds[k]
        } else {
            '0'
        },
    )
}

/// The fractional value equals the value of the padded six-digit form.
proof fn lemma_frac6_as_padded(ds: Seq<char>)
    requires
        forall|j: int| 0 <= j < ds.len() ==> spec_is_digit(ds[j]),
    ensures
        frac6_val(ds) == digits_val(frac6_padded(ds)),
        forall|j: int| 0 <= j < 6 ==> spec_is_digit(frac6_padded(ds)[j]),
{
    let padded = frac6_padded(ds);
    if ds.len() >= 6 {
        assert(padded =~= ds.take(6));
    } else {
        assert(padded =~= ds + seq_zeros(6 - ds.len()));
        lemma_digits_append_zeros(ds, 6 - ds.len());
    }
}

/// A run of `n` digits is worth less than ten to the `n`.
proof fn lemma_digits_fixed_width(s: Seq<char>)
    requires
        forall|j: int| 0 <= j < s.len() ==> spec_is_digit(s[j]),
    ensures
        digits_val(s) < pow10(s.len() as int),
    decreases s.len(),
{
    if s.len() == 0 {
    } else {
        lemma_digits_fixed_width(s.drop_last());
        let p = digits_val(s.drop_last());
        let d = digit_val(s.last());
        assert(d <= 9);
        assert(p * 10 + d < pow10(s.len() as int)) by (nonlinear_arith)
            requires
                p < pow10(s.len() - 1),
                pow10(s.len() as int) == 10 * pow10(s.len() - 1),
                d <= 9,
        ;
    }
}

/// The numeric value of a digit run, or nothing if it does not fit the
/// integer range.
fn digits_value(v: &Vec<char>, from: usize, to: usize) -> (r: Option<i64>)
    requires
        from <= to <= v@.len(),
        forall|j: int| from <= j < to ==> spec_is_digit(v@[j]),
    ensures
        match r {
            Some(n) => n >= 0 && n as int == digits_val(v@.subrange(from as int, to as int)),
            None => digits_val(v@.subrange(from as int, to as int)) > i64::MAX,
        },
{
    let ghost ds = v@.subrange(from as int, to as int);
    proof {
        lemma_digits_val_nonneg(ds);
    }
    let mut acc: i64 = 0;
    let mut j: usize = from;
    while j < to
        invariant
            from <= j <= to <= v@.len(),
            ds == v@.subrange(from as int, to as int),
            forall|k: int| from <= k < to ==> spec_is_digit(v@[k]),
            acc >= 0,
            acc as int == digits_val(ds.take(j - from)),
        decreases to - j,
    {
        let c = v[j];
        let d: i64 = (c as u32 - 48) as i64;
        proof {
            lemma_digits_val_take(ds, j - from);
            assert(ds[j - from] == v@[j as int]);
        }
        let step = match acc.checked_mul(10) {
            Some(m) => m.checked_add(d),
            None => None,
        };
        match step {
            Some(n) => {
                acc = n;
            },
            None => {
                proof {
                    lemma_digits_prefix_mono(ds, j + 1 - from);
                }
                return None;
            },
        }
        j += 1;
    }
    proof {
        assert(ds.take(to - from) =~= ds);
    }
    Some(acc)
}

/// The scaled value of a run of fractional digits: the first six digits,
/// padded with zeros.
fn frac_value6(v: &Vec<char>, from: usize, to: usize) -> (r: i64)
    requires
        from <= to <= v@.len(),
        forall|j: int| from <= j < to ==> spec_is_digit(v@[j]),
    ensures
        0 <= r < 1000000,
        r as int == frac6_val(v@.subrange(from as int, to as int)),
{
    let ghost ds = v@.subrange(from as int, to as int);
    let ghost padded = frac6_padded(ds);
    proof {
        lemma_frac6_as_padded(ds);
    }
    let mut acc: i64 = 0;
    let mut k: usize = 0;
    while k < 6
        invariant
            k <= 6,
            from <= to <= v@.len(),
            ds == v@.subrange(from as int, to as int),
            padded == frac6_padded(ds),
            forall|j: int| from <= j < to ==> spec_is_digit(v@[j]),
            forall|j: int| 0 <= j < 6 ==> spec_is_digit(padded[j]),
            0 <= acc < pow10(k as int),
            acc as int == digits_val(padded.take(k as int)),
            pow10(k as int) <= 1000000,
        decreases 6 - k,
    {
        let d: i64 = if k < to - from {
            let c = v[from + k];
            (c as u32 - 48) as i64
        } else {
            0
        };
        proof {
            lemma_digits_val_take(padded, k as int);
            assert(pow10(k + 1) == 10 * pow10(k as int));
            assert(pow10(6) == 1000000) by {
                reveal_with_fuel(pow10, 7);
            }
            lemma_pow10_mono(k + 1, 6);
        }
        acc = acc * 10 + d;
        k += 1;
    }
    proof {
        assert(padded.take(6) =~= padded);
        lemma_digits_val_nonneg(padded);
    }
    acc
}

/// Ten to a power grows with the power.
proof fn lemma_pow10_mono(a: int, b: int)
    requires
        0 <= a <= b,
    ensures
        pow10(a) <= pow10(b),
    decreases b - a,
{
    if a < b {
        lemma_pow10_mono(a, b - 1);
        lemma_pow10_pos(b - 1);
        assert(pow10(b - 1) <= 10 * pow10(b - 1)) by (nonlinear_arith)
            requires
                pow10(b - 1) >= 1,
        ;
    }
}

/// Ten to a power is positive.
proof fn lemma_pow10_pos(k: int)
    ensures
        pow10(k) >= 1,
    decreases k,
{
    if k > 0 {
        lemma_pow10_pos(k - 1);
        assert(10 * pow10(k - 1) >= 1) by (nonlinear_arith)
            requires
                pow10(k - 1) >= 1,
        ;
    }
}

} // verus!

verus! {

/// A dotted numeric run ends between where it starts and the end of the
/// input.
proof fn lemma_dots_end_bounds(s: Seq<char>, j: int)
    requires
        0 <= j <= s.len(),
    ensures
        j <= spec_dots_end(s, j) <= s.len(),
    decreases s.len() - j,
{
    if 0 <= j < s.len() && s[j] == '.' {
        let k = seq_run_end(s, j + 1, digit_pred());
        lemma_run_end(s, j + 1, digit_pred());
        let k2 = if j + 1 <= k <= s.len() {
            k
        } else {
            j + 1
        };
        lemma_dots_end_bounds(s, k2);
    }
}

/// Every token or error step starts where asked and ends after it, within
/// the input; the characters under a whitespace token are blank.
proof fn lemma_next_token_shape(s: Seq<char>, i: int, key: u64)
    requires
        s.len() <= usize::MAX,
        0 <= i < s.len(),
    ensures
        match spec_next_token(s, i, key) {
            LexOut::Tok(t) => t.span.start == i && i < t.span.end <= s.len() && (t.kind
                is Whitespace ==> forall|p: int|
                i <= p < t.span.end ==> spec_is_ws(#[trigger] s[p])),
            LexOut::Fail(_) => true,
            LexOut::End => false,
        },
{
    let c = s[i];
    if spec_is_ws(c) {
        lemma_run_end(s, i + 1, ws_pred());
        assert(seq_run_end(s, i, ws_pred()) == seq_run_end(s, i + 1, ws_pred()));
        assert forall|p: int|
            i <= p < seq_run_end(s, i, ws_pred()) implies spec_is_ws(#[trigger] s[p]) by {
            if p > i {
                assert(ws_pred()(s[p]));
            }
        }
    } else if spec_is_newline(c) || c == ',' {
    } else if spec_is_digit(c) {
        lemma_run_end(s, i, digit_pred());
        let d1 = seq_run_end(s, i, digit_pred());
        assert(seq_run_end(s, i, digit_pred()) == seq_run_end(s, i + 1, digit_pred()));
        lemma_run_end(s, i + 1, digit_pred());
        lemma_dots_end_bounds(s, d1);
    } else if c == '"' {
        lemma_run_end(s, i + 1, not_quote_pred());
    } else if spec_ident_start(c) {
        lemma_run_end(s, i + 1, ident_cont_pred());
    } else if spec_is_operator_start(c) {
        if i + 1 >= s.len() {
            assert(match Operator::spec_from_chars(c, None) {
                Some(op) => !op.spec_is_two_char(),
                None => true,
            });
        }
    } else if Parenthesis::spec_from_char(c) is Some {
    } else {
        lemma_run_end(s, i, symbol_run_pred());
    }
}

/// The accumulated token stream stays ordered, disjoint and within the
/// scanned prefix, and covers every non-blank position scanned so far.
proof fn lemma_tokenize_from_covers(s: Seq<char>, key: u64, i: int, acc: Seq<TokenV>, ts: Seq<TokenV>)
    requires
        s.len() <= usize::MAX,
        0 <= i <= s.len(),
        spec_tokenize_from(s, key, i, acc) == Ok::<Seq<TokenV>, ErrorV>(ts),
        forall|k: int|
            0 <= k < acc.len() ==> (#[trigger] acc[k].span).start < acc[k].span.end <= i,
        forall|k: int|
            0 <= k < acc.len() - 1 ==> (#[trigger] acc[k].span).end <= acc[k + 1].span.start,
        forall|p: int|
            0 <= p < i && !spec_is_ws(s[p]) ==> exists|k: int|
                0 <= k < acc.len() && (#[trigger] acc[k].span).start <= p < acc[k].span.end,
    ensures
        forall|k: int|
            0 <= k < ts.len() ==> (#[trigger] ts[k].span).start < ts[k].span.end <= s.len(),
        forall|k: int|
            0 <= k < ts.len() - 1 ==> (#[trigger] ts[k].span).end <= ts[k + 1].span.start,
        forall|p: int|
            0 <= p < s.len() && !spec_is_ws(s[p]) ==> exists|k: int|
                0 <= k < ts.len() && (#[trigger] ts[k].span).start <= p < ts[k].span.end,
    decreases s.len() - i,
{
    if i >= s.len() {
        assert(ts == acc);
    } else {
        lemma_next_token_shape(s, i, key);
        match spec_next_token(s, i, key) {
            LexOut::Tok(t) => {
                let n = if i + 1 <= t.span.end <= s.len() {
                    t.span.end as int
                } else {
                    i + 1
                };
                assert(n == t.span.end);
                if t.kind is Whitespace {
                    assert forall|p: int| 0 <= p < n && !spec_is_ws(s[p]) implies exists|k: int|
                        0 <= k < acc.len()
                            && (#[trigger] acc[k].span).start <= p < acc[k].span.end by {
                        assert(p < i);
                    }
                    lemma_tokenize_from_covers(s, key, n, acc, ts);
                } else {
                    let acc2 = acc.push(t);
                    assert forall|p: int| 0 <= p < n && !spec_is_ws(s[p]) implies exists|k: int|
                        0 <= k < acc2.len()
                            && (#[trigger] acc2[k].span).start <= p < acc2[k].span.end by {
                        if p < i {
                            let k = choose|k: int|
                                0 <= k < acc.len()
                                    && (#[trigger] acc[k].span).start <= p < acc[k].span.end;
                            assert(acc2[k] == acc[k]);
                        } else {
                            assert(acc2[acc2.len() - 1] == t);
                        }
                    }
                    assert(forall|k: int| 0 <= k < acc.len() ==> acc2[k] == acc[k]);
                    lemma_tokenize_from_covers(s, key, n, acc2, ts);
                }
            },
            _ => {},
        }
    }
}

/// The tokens of a source stand in source order with disjoint spans, and
/// every position the tokenizer discarded holds blank space: so
/// concatenating the spanned substrings, in order, reconstructs exactly
/// the non-blank content of the source.
pub proof fn lemma_tokens_cover_source(s: Seq<char>, key: u64, ts: Seq<TokenV>)
    requires
        s.len() <= usize::MAX,
        spec_tokenize(s, key) == Ok::<Seq<TokenV>, ErrorV>(ts),
    ensures
        forall|k: int|
            0 <= k < ts.len() ==> (#[trigger] ts[k].span).start < ts[k].span.end <= s.len(),
        forall|k: int|
            0 <= k < ts.len() - 1 ==> (#[trigger] ts[k].span).end <= ts[k + 1].span.start,
        forall|p: int|
            0 <= p < s.len() && !spec_is_ws(s[p]) ==> exists|k: int|
                0 <= k < ts.len() && (#[trigger] ts[k].span).start <= p < ts[k].span.end,
{
    lemma_tokenize_from_covers(s, key, 0, Seq::empty(), ts);
}

} // verus!

verus! {

/// Re-tokenizing the exact substring spanned by a single operator token
/// reproduces a stream of exactly one token of the same kind: operator
/// lookahead never lets a token mean something else out of context.
pub proof fn lemma_retokenize_operator(s: Seq<char>, i: int, key: u64)
    requires
        s.len() <= usize::MAX,
        0 <= i < s.len(),
        spec_next_token(s, i, key) matches LexOut::Tok(t) && t.kind is Operator,
    ensures
        match spec_next_token(s, i, key) {
            LexOut::Tok(t) => spec_tokenize(
                s.subrange(t.span.start as int, t.span.end as int),
                key,
            ) == Ok::<Seq<TokenV>, ErrorV>(
                seq![
                    TokenV {
                        kind: t.kind,
                        span: Span {
                            start: 0,
                            end: (t.span.end - t.span.start) as usize,
                            source: key,
                        },
                    },
                ],
            ),
            _ => false,
        },
{
    let t = spec_next_token(s, i, key)->Tok_0;
    let c = s[i];
    lemma_next_token_shape(s, i, key);
    let b: Option<char> = if i + 1 < s.len() {
        Some(s[i + 1])
    } else {
        None
    };
    let op = Operator::spec_from_chars(c, b)->Some_0;
    let w = t.span.end - t.span.start;
    let sub = s.subrange(t.span.start as int, t.span.end as int);
    assert(sub.len() == w);
    assert(sub[0] == c);
    let t2 = TokenV {
        kind: t.kind,
        span: Span { start: 0, end: w as usize, source: key },
    };
    if op.spec_is_two_char() {
        assert(w == 2);
        assert(sub[1] == s[i + 1]);
        assert(spec_next_token(sub, 0, key) == LexOut::Tok(t2));
        assert(spec_tokenize_from(sub, key, 2, seq![t2]) == Ok::<Seq<TokenV>, ErrorV>(
            seq![t2],
        ));
    } else {
        assert(w == 1);
        assert(Operator::spec_from_chars(c, None) == Some(op));
        assert(spec_next_token(sub, 0, key) == LexOut::Tok(t2));
        assert(spec_tokenize_from(sub, key, 1, seq![t2]) == Ok::<Seq<TokenV>, ErrorV>(
            seq![t2],
        ));
    }
    assert(Seq::<TokenV>::empty().push(t2) =~= seq![t2]);
}

} // verus!
