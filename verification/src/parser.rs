//! The parser: consumes the token stream with recursive descent and
//! precedence climbing, building the abstract syntax tree.
//!
//! The precedence ladder, lowest first: `||`, `&&`, equality, comparison,
//! additive, multiplicative, then unary operators and atoms.  Every
//! binary level is handled by one reduce routine parameterized by the
//! level, which left-associates its operators.  What each entry point
//! returns is pinned down exactly by its mirror specification function.

use vstd::prelude::*;

use crate::ast::{view_ast_seq, AstKindV, AstNode, AstNodeKind, AstV};
use crate::error::{Error, ErrorKind, ErrorKindV, ErrorV, ParserError, ParserErrorV};
use crate::span::Span;
use crate::token::{
    Keyword, Opening, Operator, Parenthesis, ParenthesisKind, Token, TokenKind, TokenKindV, TokenV,
    UnaryOperator,
};

verus! {

/// The values of a vector of tokens.
pub open spec fn toks_of(v: Seq<Token>) -> Seq<TokenV> {
    v.map_values(|t: Token| t@)
}

/// The result of one parsing step: a node value and the position after
/// it, or the error that stopped the parse.
pub type ParseStep = Result<(AstV, int), ErrorV>;

/// Where an end-of-input error points: just past the last token.
pub open spec fn eof_span(ts: Seq<TokenV>, src: u64) -> Span {
    if ts.len() > 0 {
        Span { start: ts.last().span.end, end: ts.last().span.end, source: src }
    } else {
        Span { start: 0, end: 0, source: src }
    }
}

/// An unexpected-end-of-file error expecting the given construct.
pub open spec fn spec_eof_err(ts: Seq<TokenV>, src: u64, what: Seq<char>) -> ErrorV {
    ErrorV {
        span: eof_span(ts, src),
        kind: ErrorKindV::Parser(ParserErrorV::UnexpectedEndOfFile { expected: what }),
    }
}

/// An unexpected-token error naming what was expected instead.
pub open spec fn spec_unexpected(t: TokenV, what: Seq<char>) -> ErrorV {
    ErrorV {
        span: t.span,
        kind: ErrorKindV::Parser(ParserErrorV::UnexpectedToken { found: t, expected: what }),
    }
}

/// Which operators a binary precedence level accepts, lowest level first.
pub open spec fn spec_level_ops(level: int, op: Operator) -> bool {
    if level == 0 {
        op == Operator::Or
    } else if level == 1 {
        op == Operator::And
    } else if level == 2 {
        op == Operator::Equals || op == Operator::NotEquals
    } else if level == 3 {
        op == Operator::LessThan || op == Operator::LessThanEquals || op == Operator::GreaterThan
            || op == Operator::GreaterThanEquals
    } else if level == 4 {
        op == Operator::Plus || op == Operator::Minus
    } else {
        op == Operator::Multiply || op == Operator::Divide
    }
}

/// The rank a level takes in the termination measure.
pub open spec fn rank_of(level: int) -> int {
    if 0 <= level <= 5 {
        20 - 2 * level
    } else {
        8
    }
}

/// An expression: the lowest binary precedence level.
pub open spec fn spec_parse_expr(ts: Seq<TokenV>, src: u64, pos: int) -> ParseStep
    decreases ts.len() - pos, 21int,
{
    spec_binary_level(ts, src, pos, 0)
}

/// The operand of a binary level: the next level up, or a unary
/// expression above the last level.
pub open spec fn spec_operand(ts: Seq<TokenV>, src: u64, pos: int, level: int) -> ParseStep
    decreases ts.len() - pos, rank_of(level) - 1,
{
    if 0 <= level < 5 {
        spec_binary_level(ts, src, pos, level + 1)
    } else {
        spec_unary(ts, src, pos)
    }
}

/// One binary precedence level: an operand, then every following
/// `(operator, operand)` pair the level accepts, left-associated.
pub open spec fn spec_binary_level(ts: Seq<TokenV>, src: u64, pos: int, level: int) -> ParseStep
    decreases ts.len() - pos, rank_of(level),
{
    if pos >= ts.len() {
        Err(spec_eof_err(ts, src, "an atom"@))
    } else {
        match spec_operand(ts, src, pos, level) {
            Err(e) => Err(e),
            Ok((lhs, p1)) => {
                let q = if pos < p1 <= ts.len() {
                    p1
                } else {
                    pos + 1
                };
                spec_level_rest(ts, src, q, lhs, level)
            },
        }
    }
}

/// The running tail of a binary level: while the next token is one of
/// the level's operators, consume it and its right operand, nesting the
/// running result as the new left hand side.
pub open spec fn spec_level_rest(ts: Seq<TokenV>, src: u64, pos: int, lhs: AstV, level: int) -> ParseStep
    decreases ts.len() - pos, rank_of(level),
{
    if pos >= ts.len() {
        Ok((lhs, pos))
    } else {
        match ts[pos].kind {
            TokenKindV::Operator(op) => {
                if spec_level_ops(level, op) {
                    match spec_operand(ts, src, pos + 1, level) {
                        Err(e) => Err(e),
                        Ok((rhs, p2)) => {
                            let node = AstV {
                                kind: AstKindV::BinaryExpression {
                                    lhs: Box::new(lhs),
                                    op,
                                    rhs: Box::new(rhs),
                                },
                                span: Span {
                                    start: lhs.span.start,
                                    end: rhs.span.end,
                                    source: src,
                                },
                            };
                            let q = if pos + 1 < p2 && p2 <= ts.len() {
                                p2
                            } else if pos + 2 <= ts.len() {
                                pos + 2
                            } else {
                                ts.len() as int
                            };
                            spec_level_rest(ts, src, q, node, level)
                        },
                    }
                } else {
                    Ok((lhs, pos))
                }
            },
            _ => Ok((lhs, pos)),
        }
    }
}

/// A unary expression: a chain of unary operators applied to an atom.
/// An operator with no unary form is an invalid-unary-operator error.
pub open spec fn spec_unary(ts: Seq<TokenV>, src: u64, pos: int) -> ParseStep
    decreases ts.len() - pos, 6int,
{
    if pos >= ts.len() {
        Err(spec_eof_err(ts, src, "an atom"@))
    } else {
        match ts[pos].kind {
            TokenKindV::Operator(op) => match UnaryOperator::spec_from_operator(op) {
                None => Err(
                    ErrorV {
                        span: ts[pos].span,
                        kind: ErrorKindV::Parser(ParserErrorV::InvalidUnaryOperator(op)),
                    },
                ),
                Some(u) => match spec_unary(ts, src, pos + 1) {
                    Err(e) => Err(e),
                    Ok((operand, p)) => Ok(
                        (
                            AstV {
                                kind: AstKindV::UnaryExpression {
                                    op: u,
                                    expr: Box::new(operand),
                                },
                                span: Span {
                                    start: ts[pos].span.start,
                                    end: operand.span.end,
                                    source: src,
                                },
                            },
                            p,
                        ),
                    ),
                },
            },
            _ => spec_atom(ts, src, pos),
        }
    }
}

/// An atom: a literal, an identifier, or a parenthesized expression,
/// which must close with its matching parenthesis.
pub open spec fn spec_atom(ts: Seq<TokenV>, src: u64, pos: int) -> ParseStep
    decreases ts.len() - pos, 5int,
{
    if pos >= ts.len() {
        Err(spec_eof_err(ts, src, "an atom"@))
    } else {
        let t = ts[pos];
        match t.kind {
            TokenKindV::Integer(n) => Ok(
                (AstV { kind: AstKindV::IntegerLiteral(n), span: t.span }, pos + 1),
            ),
            TokenKindV::Float(d) => Ok(
                (AstV { kind: AstKindV::FloatLiteral(d), span: t.span }, pos + 1),
            ),
            TokenKindV::Str(s) => Ok(
                (AstV { kind: AstKindV::StringLiteral(s), span: t.span }, pos + 1),
            ),
            TokenKindV::Identifier(name) => Ok(
                (AstV { kind: AstKindV::VariableReference(name), span: t.span }, pos + 1),
            ),
            TokenKindV::Keyword(k) => {
                if k == Keyword::True {
                    Ok((AstV { kind: AstKindV::BooleanLiteral(true), span: t.span }, pos + 1))
                } else if k == Keyword::False {
                    Ok((AstV { kind: AstKindV::BooleanLiteral(false), span: t.span }, pos + 1))
                } else {
                    Err(spec_unexpected(t, "an atom"@))
                }
            },
            TokenKindV::Parenthesis(p) => {
                if p == (Parenthesis { kind: ParenthesisKind::Round, opening: Opening::Open }) {
                    match spec_parse_expr(ts, src, pos + 1) {
                        Err(e) => Err(e),
                        Ok((node, p1)) => {
                            if p1 >= ts.len() {
                                Err(spec_eof_err(ts, src, "a closing parenthesis"@))
                            } else if ts[p1].kind matches TokenKindV::Parenthesis(q) && q == (
                            Parenthesis { kind: ParenthesisKind::Round, opening: Opening::Close }) {
                                Ok((node, p1 + 1))
                            } else {
                                Err(spec_unexpected(ts[p1], "a closing parenthesis"@))
                            }
                        },
                    }
                } else if p == (Parenthesis {
                    kind: ParenthesisKind::Round,
                    opening: Opening::Close,
                }) {
                    Err(
                        ErrorV {
                            span: t.span,
                            kind: ErrorKindV::Parser(
                                ParserErrorV::UnmatchedClosingParenthesis { paren: t },
                            ),
                        },
                    )
                } else {
                    Err(spec_unexpected(t, "an atom"@))
                }
            },
            _ => Err(spec_unexpected(t, "an atom"@)),
        }
    }
}

/// A parser over a list of tokens: the tokens, the current position, and
/// the source key its spans point into.
#[derive(Debug)]
pub struct Parser {
    /// The list of tokens being parsed into the tree.
    pub tokens: Vec<Token>,
    /// The current position in the list of tokens.
    pub pos: usize,
    /// The source buffer the tokens came from.
    pub source: u64,
}

impl Parser {
    /// The token values under the parser.
    pub open spec fn toks(&self) -> Seq<TokenV> {
        toks_of(self.tokens@)
    }

    /// The parser has not run past its tokens.
    pub open spec fn wf(&self) -> bool {
        self.pos <= self.tokens@.len()
    }

    /// Creates a new parser over a list of tokens; spans of nodes point
    /// into the source buffer the first token names.
    pub fn new(tokens: Vec<Token>) -> (r: Parser)
        ensures
            r.toks() == toks_of(tokens@),
            r.pos == 0,
            r.wf(),
            r.source == (if tokens@.len() > 0 {
                tokens@[0].span.source
            } else {
                0u64
            }),
    {
        let source: u64 = if tokens.len() > 0 {
            tokens[0].span.source
        } else {
            0
        };
        Parser { tokens, pos: 0, source }
    }

    /// The token at the current position, if any.
    fn peek(&self) -> (r: Option<&Token>)
        requires
            self.wf(),
        ensures
            match r {
                Some(t) => self.pos < self.toks().len() && t@ == self.toks()[self.pos as int],
                None => self.pos == self.toks().len(),
            },
    {
        if self.pos < self.tokens.len() {
            Some(&self.tokens[self.pos])
        } else {
            None
        }
    }

    /// Move past the current token.
    fn advance(&mut self)
        requires
            old(self).wf(),
            old(self).pos < old(self).toks().len(),
        ensures
            final(self).tokens == old(self).tokens,
            final(self).source == old(self).source,
            final(self).pos == old(self).pos + 1,
            final(self).wf(),
    {
        let n = self.tokens.len();
        proof {
            assert(self.toks().len() == self.tokens@.len());
        }
        self.pos += 1;
    }

    /// The end-of-input error expecting the given construct.
    fn eof_error(&self, what: &str) -> (r: Error)
        requires
            self.wf(),
        ensures
            r@ == spec_eof_err(self.toks(), self.source, what@),
    {
        let span = if self.tokens.len() > 0 {
            let sp = self.tokens[self.tokens.len() - 1].span;
            Span { start: sp.end, end: sp.end, source: self.source }
        } else {
            Span { start: 0, end: 0, source: self.source }
        };
        proof {
            if self.tokens@.len() > 0 {
                assert(self.toks().last() == self.tokens@.last()@);
            }
        }
        Error {
            span,
            kind: ErrorKind::Parser(
                ParserError::UnexpectedEndOfFile { expected: String::from_str(what) },
            ),
        }
    }

    /// An expression: the full precedence ladder.
    pub fn parse_expr(&mut self) -> (r: Result<AstNode, Error>)
        requires
            old(self).wf(),
        ensures
            final(self).tokens == old(self).tokens,
            final(self).source == old(self).source,
            final(self).wf(),
            match r {
                Ok(node) => spec_parse_expr(old(self).toks(), old(self).source, old(self).pos as int)
                    == Ok::<(AstV, int), ErrorV>((node@, final(self).pos as int)) && old(self).pos
                    < final(self).pos <= old(self).toks().len(),
                Err(e) => spec_parse_expr(old(self).toks(), old(self).source, old(self).pos as int)
                    == Err::<(AstV, int), ErrorV>(e@),
            },
        decreases old(self).tokens@.len() - old(self).pos, 21int,
    {
        self.parse_binary_level(0)
    }

    /// The operand of a binary level.
    fn parse_operand(&mut self, level: u8) -> (r: Result<AstNode, Error>)
        requires
            old(self).wf(),
            level <= 5,
        ensures
            final(self).tokens == old(self).tokens,
            final(self).source == old(self).source,
            final(self).wf(),
            match r {
                Ok(node) => spec_operand(
                    old(self).toks(),
                    old(self).source,
                    old(self).pos as int,
                    level as int,
                ) == Ok::<(AstV, int), ErrorV>((node@, final(self).pos as int)) && old(self).pos
                    < final(self).pos <= old(self).toks().len(),
                Err(e) => spec_operand(
                    old(self).toks(),
                    old(self).source,
                    old(self).pos as int,
                    level as int,
                ) == Err::<(AstV, int), ErrorV>(e@),
            },
        decreases old(self).tokens@.len() - old(self).pos, rank_of(level as int) - 1,
    {
        if level < 5 {
            self.parse_binary_level(level + 1)
        } else {
            self.unary()
        }
    }

    /// One binary precedence level: parse one operand, then keep
    /// consuming `(operator, operand)` pairs while the next token is one
    /// of the level's operators, left-associating the result.
    fn parse_binary_level(&mut self, level: u8) -> (r: Result<AstNode, Error>)
        requires
            old(self).wf(),
            level <= 5,
        ensures
            final(self).tokens == old(self).tokens,
            final(self).source == old(self).source,
            final(self).wf(),
            match r {
                Ok(node) => spec_binary_level(
                    old(self).toks(),
                    old(self).source,
                    old(self).pos as int,
                    level as int,
                ) == Ok::<(AstV, int), ErrorV>((node@, final(self).pos as int)) && old(self).pos
                    < final(self).pos <= old(self).toks().len(),
                Err(e) => spec_binary_level(
                    old(self).toks(),
                    old(self).source,
                    old(self).pos as int,
                    level as int,
                ) == Err::<(AstV, int), ErrorV>(e@),
            },
        decreases old(self).tokens@.len() - old(self).pos, rank_of(level as int),
    {
        let ghost ts = self.toks();
        let ghost src = self.source;
        let ghost pos0 = self.pos as int;
        if self.pos >= self.tokens.len() {
            return Err(self.eof_error("an atom"));
        }
        let mut lhs = match self.parse_operand(level) {
            Ok(node) => node,
            Err(e) => {
                return Err(e);
            },
        };
        loop
            invariant
                self.wf(),
                self.tokens == old(self).tokens,
                self.source == old(self).source,
                ts == self.toks(),
                src == self.source,
                level <= 5,
                pos0 == old(self).pos as int,
                ts == old(self).toks(),
                src == old(self).source,
                pos0 < self.pos <= ts.len(),
                spec_binary_level(ts, src, pos0, level as int) == spec_level_rest(
                    ts,
                    src,
                    self.pos as int,
                    lhs@,
                    level as int,
                ),
            ensures
                self.wf(),
                self.tokens == old(self).tokens,
                self.source == old(self).source,
                pos0 < self.pos <= ts.len(),
                spec_binary_level(ts, src, pos0, level as int) == Ok::<(AstV, int), ErrorV>(
                    (lhs@, self.pos as int),
                ),
            decreases ts.len() - self.pos,
        {
            let op = match self.peek() {
                None => {
                    break ;
                },
                Some(t) => match &t.kind {
                    TokenKind::Operator(op) => *op,
                    _ => {
                        break ;
                    },
                },
            };
            if !level_ops(level, op) {
                break ;
            }
            let ghost p = self.pos as int;
            let ghost lhs0 = lhs@;
            self.advance();
            let rhs = match self.parse_operand(level) {
                Ok(node) => node,
                Err(e) => {
                    proof {
                        assert(spec_level_rest(ts, src, p, lhs0, level as int) == Err::<
                            (AstV, int),
                            ErrorV,
                        >(e@));
                    }
                    return Err(e);
                },
            };
            let span = Span { start: lhs.span.start, end: rhs.span.end, source: self.source };
            let ghost rhs0 = rhs@;
            let ghost p2 = self.pos as int;
            lhs = AstNode {
                kind: AstNodeKind::BinaryExpression {
                    lhs: Box::new(lhs),
                    op,
                    rhs: Box::new(rhs),
                },
                span,
            };
            proof {
                assert(lhs@ == (AstV {
                    kind: AstKindV::BinaryExpression {
                        lhs: Box::new(lhs0),
                        op,
                        rhs: Box::new(rhs0),
                    },
                    span: Span { start: lhs0.span.start, end: rhs0.span.end, source: src },
                }));
                assert(spec_level_rest(ts, src, p, lhs0, level as int) == spec_level_rest(
                    ts,
                    src,
                    p2,
                    lhs@,
                    level as int,
                ));
            }
        }
        Ok(lhs)
    }

    /// A unary expression: `+`, `-` or `!` applied to a unary
    /// expression, or an atom.
    fn unary(&mut self) -> (r: Result<AstNode, Error>)
        requires
            old(self).wf(),
        ensures
            final(self).tokens == old(self).tokens,
            final(self).source == old(self).source,
            final(self).wf(),
            match r {
                Ok(node) => spec_unary(old(self).toks(), old(self).source, old(self).pos as int)
                    == Ok::<(AstV, int), ErrorV>((node@, final(self).pos as int)) && old(self).pos
                    < final(self).pos <= old(self).toks().len(),
                Err(e) => spec_unary(old(self).toks(), old(self).source, old(self).pos as int)
                    == Err::<(AstV, int), ErrorV>(e@),
            },
        decreases old(self).tokens@.len() - old(self).pos, 6int,
    {
        let (op, op_span) = match self.peek() {
            None => {
                return Err(self.eof_error("an atom"));
            },
            Some(t) => match &t.kind {
                TokenKind::Operator(op) => (*op, t.span),
                _ => {
                    return self.atom();
                },
            },
        };
        self.advance();
        let u = match UnaryOperator::from_operator(op) {
            Some(u) => u,
            None => {
                return Err(
                    Error {
                        span: op_span,
                        kind: ErrorKind::Parser(ParserError::InvalidUnaryOperator(op)),
                    },
                );
            },
        };
        let operand = match self.unary() {
            Ok(node) => node,
            Err(e) => {
                return Err(e);
            },
        };
        let span = Span { start: op_span.start, end: operand.span.end, source: self.source };
        Ok(
            AstNode {
                kind: AstNodeKind::UnaryExpression { op: u, expr: Box::new(operand) },
                span,
            },
        )
    }

    /// An atom: a literal, an identifier, or `(` expression `)`.
    fn atom(&mut self) -> (r: Result<AstNode, Error>)
        requires
            old(self).wf(),
        ensures
            final(self).tokens == old(self).tokens,
            final(self).source == old(self).source,
            final(self).wf(),
            match r {
                Ok(node) => spec_atom(old(self).toks(), old(self).source, old(self).pos as int)
                    == Ok::<(AstV, int), ErrorV>((node@, final(self).pos as int)) && old(self).pos
                    < final(self).pos <= old(self).toks().len(),
                Err(e) => spec_atom(old(self).toks(), old(self).source, old(self).pos as int)
                    == Err::<(AstV, int), ErrorV>(e@),
            },
        decreases old(self).tokens@.len() - old(self).pos, 5int,
    {
        let (kind, span) = match self.peek() {
            None => {
                return Err(self.eof_error("an atom"));
            },
            Some(t) => {
                let span = t.span;
                match &t.kind {
                    TokenKind::Integer(n) => (AstNodeKind::IntegerLiteral(*n), span),
                    TokenKind::Float(d) => (AstNodeKind::FloatLiteral(*d), span),
                    TokenKind::Str(s) => (AstNodeKind::StringLiteral(s.clone()), span),
                    TokenKind::Identifier(name) => (
                        AstNodeKind::VariableReference(name.clone()),
                        span,
                    ),
                    TokenKind::Keyword(Keyword::True) => (AstNodeKind::BooleanLiteral(true), span),
                    TokenKind::Keyword(Keyword::False) => (
                        AstNodeKind::BooleanLiteral(false),
                        span,
                    ),
                    TokenKind::Parenthesis(
                        Parenthesis { kind: ParenthesisKind::Round, opening: Opening::Open },
                    ) => {
                        self.advance();
                        let node = match self.parse_expr() {
                            Ok(node) => node,
                            Err(e) => {
                                return Err(e);
                            },
                        };
                        match self.peek() {
                            None => {
                                return Err(self.eof_error("a closing parenthesis"));
                            },
                            Some(t2) => match &t2.kind {
                                TokenKind::Parenthesis(
                                    Parenthesis {
                                        kind: ParenthesisKind::Round,
                                        opening: Opening::Close,
                                    },
                                ) => {},
                                _ => {
                                    let found = t2.duplicate();
                                    return Err(
                                        Error {
                                            span: found.span,
                                            kind: ErrorKind::Parser(
                                                ParserError::UnexpectedToken {
                                                    found,
                                                    expected: String::from_str(
                                                        "a closing parenthesis",
                                                    ),
                                                },
                                            ),
                                        },
                                    );
                                },
                            },
                        }
                        self.advance();
                        return Ok(node);
                    },
                    TokenKind::Parenthesis(
                        Parenthesis { kind: ParenthesisKind::Round, opening: Opening::Close },
                    ) => {
                        let paren = t.duplicate();
                        return Err(
                            Error {
                                span,
                                kind: ErrorKind::Parser(
                                    ParserError::UnmatchedClosingParenthesis { paren },
                                ),
                            },
                        );
                    },
                    _ => {
                        let found = t.duplicate();
                        return Err(
                            Error {
                                span,
                                kind: ErrorKind::Parser(
                                    ParserError::UnexpectedToken {
                                        found,
                                        expected: String::from_str("an atom"),
                                    },
                                ),
                            },
                        );
                    },
                }
            },
        };
        self.advance();
        Ok(AstNode { kind, span })
    }
}

/// What follows a finished statement: a statement terminator is
/// consumed, the end of the input or of a block is left alone, and
/// anything else is an error.
pub open spec fn spec_stmt_end(ts: Seq<TokenV>, src: u64, node: AstV, p: int) -> ParseStep {
    if p >= ts.len() {
        Ok((node, p))
    } else {
        match ts[p].kind {
            TokenKindV::Newline => Ok((node, p + 1)),
            TokenKindV::Parenthesis(q) => {
                if q == (Parenthesis { kind: ParenthesisKind::Curly, opening: Opening::Close }) {
                    Ok((node, p))
                } else if q == (Parenthesis {
                    kind: ParenthesisKind::Round,
                    opening: Opening::Close,
                }) {
                    Err(
                        ErrorV {
                            span: ts[p].span,
                            kind: ErrorKindV::Parser(
                                ParserErrorV::UnmatchedClosingParenthesis { paren: ts[p] },
                            ),
                        },
                    )
                } else {
                    Err(spec_unexpected(ts[p], "a statement terminator"@))
                }
            },
            _ => Err(spec_unexpected(ts[p], "a statement terminator"@)),
        }
    }
}

/// A statement, followed by its terminator: a block, a control
/// statement, a declaration, or an expression statement.
pub open spec fn spec_parse_stmt(ts: Seq<TokenV>, src: u64, pos: int) -> ParseStep
    decreases ts.len() - pos, 24int,
{
    if pos >= ts.len() {
        Err(spec_eof_err(ts, src, "a statement"@))
    } else {
        let t = ts[pos];
        let inner: ParseStep = match t.kind {
            TokenKindV::Newline => Ok((AstV { kind: AstKindV::NoOp, span: t.span }, pos)),
            TokenKindV::Keyword(k) => {
                if k == Keyword::Let {
                    spec_parse_assignment(ts, src, pos)
                } else if k == Keyword::If {
                    spec_parse_if(ts, src, pos)
                } else if k == Keyword::Else {
                    Err(spec_unexpected(t, "an if statement or a block"@))
                } else if k == Keyword::Print {
                    spec_parse_print(ts, src, pos)
                } else if k == Keyword::While {
                    spec_parse_while(ts, src, pos)
                } else if k == Keyword::Function {
                    spec_parse_function(ts, src, pos)
                } else if k == Keyword::Break {
                    Ok((AstV { kind: AstKindV::Break, span: t.span }, pos + 1))
                } else if k == Keyword::Continue {
                    Ok((AstV { kind: AstKindV::Continue, span: t.span }, pos + 1))
                } else {
                    spec_parse_assignment(ts, src, pos)
                }
            },
            TokenKindV::Parenthesis(q) => {
                if q == (Parenthesis { kind: ParenthesisKind::Curly, opening: Opening::Open }) {
                    spec_parse_block(ts, src, pos)
                } else {
                    spec_parse_assignment(ts, src, pos)
                }
            },
            _ => spec_parse_assignment(ts, src, pos),
        };
        match inner {
            Err(e) => Err(e),
            Ok((node, p)) => spec_stmt_end(ts, src, node, p),
        }
    }
}

/// The body of an assignment statement, once the position is known to
/// lie on a token.
pub open spec fn spec_parse_assignment(ts: Seq<TokenV>, src: u64, pos: int) -> ParseStep
    decreases ts.len() - pos, 23int,
{
    if pos >= ts.len() {
        Err(spec_eof_err(ts, src, "an atom"@))
    } else {
    let is_new = pos < ts.len() && ts[pos].kind == TokenKindV::Keyword(Keyword::Let);
    let p0 = if is_new {
        pos + 1
    } else {
        pos
    };
    match spec_parse_expr(ts, src, p0) {
        Err(e) => Err(e),
        Ok((lhs, p1)) => {
            if p1 < ts.len() && ts[p1].kind == TokenKindV::Operator(Operator::Assign) && pos < p1 {
                match lhs.kind {
                    AstKindV::VariableReference(name) => {
                        match spec_parse_expr(ts, src, p1 + 1) {
                            Err(e) => Err(e),
                            Ok((rhs, p2)) => Ok(
                                (
                                    AstV {
                                        kind: AstKindV::Assignment {
                                            name,
                                            value: Box::new(rhs),
                                            declaration: is_new,
                                        },
                                        span: Span {
                                            start: lhs.span.start,
                                            end: rhs.span.end,
                                            source: src,
                                        },
                                    },
                                    p2,
                                ),
                            ),
                        }
                    },
                    _ => Err(
                        ErrorV {
                            span: lhs.span,
                            kind: ErrorKindV::Parser(
                                ParserErrorV::InvalidAssignmentTarget { found: lhs },
                            ),
                        },
                    ),
                }
            } else {
                Ok((lhs, p1))
            }
        },
    }
    }
}

/// The body of a print statement, once the position is known to lie on
/// a token.
pub open spec fn spec_parse_print(ts: Seq<TokenV>, src: u64, pos: int) -> ParseStep
    decreases ts.len() - pos, 23int,
{
    if pos >= ts.len() {
        Err(spec_eof_err(ts, src, "an atom"@))
    } else {
    let p1 = pos + 1;
    let has_paren = p1 < ts.len() && ts[p1].kind == TokenKindV::Parenthesis(
        Parenthesis { kind: ParenthesisKind::Round, opening: Opening::Open },
    );
    let p2 = if has_paren {
        p1 + 1
    } else {
        p1
    };
    match spec_parse_expr(ts, src, p2) {
        Err(e) => Err(e),
        Ok((expr, p3)) => {
            if has_paren {
                if p3 >= ts.len() {
                    Err(spec_eof_err(ts, src, "a closing parenthesis"@))
                } else if ts[p3].kind == TokenKindV::Parenthesis(
                    Parenthesis { kind: ParenthesisKind::Round, opening: Opening::Close },
                ) {
                    Ok(
                        (
                            AstV {
                                kind: AstKindV::Print { expression: Box::new(expr) },
                                span: Span {
                                    start: ts[pos].span.start,
                                    end: ts[p3].span.end,
                                    source: src,
                                },
                            },
                            p3 + 1,
                        ),
                    )
                } else {
                    Err(spec_unexpected(ts[p3], "a closing parenthesis"@))
                }
            } else {
                Ok(
                    (
                        AstV {
                            kind: AstKindV::Print { expression: Box::new(expr) },
                            span: Span {
                                start: ts[pos].span.start,
                                end: expr.span.end,
                                source: src,
                            },
                        },
                        p3,
                    ),
                )
            }
        },
    }
    }
}

/// The body of a while statement, once the position is known to lie on
/// a token.
pub open spec fn spec_parse_while(ts: Seq<TokenV>, src: u64, pos: int) -> ParseStep
    decreases ts.len() - pos, 23int,
{
    if pos >= ts.len() {
        Err(spec_eof_err(ts, src, "an atom"@))
    } else {
    match spec_parse_expr(ts, src, pos + 1) {
        Err(e) => Err(e),
        Ok((cond, p1)) => {
            let q = if pos + 1 < p1 <= ts.len() {
                p1
            } else {
                pos + 1
            };
            match spec_parse_block(ts, src, q) {
                Err(e) => Err(e),
                Ok((body, p2)) => Ok(
                    (
                        AstV {
                            kind: AstKindV::While {
                                condition: Box::new(cond),
                                body: Box::new(body),
                            },
                            span: Span {
                                start: ts[pos].span.start,
                                end: body.span.end,
                                source: src,
                            },
                        },
                        p2,
                    ),
                ),
            }
        },
    }
    }
}

/// The body of an if statement, once the position is known to lie on a
/// token.
pub open spec fn spec_parse_if(ts: Seq<TokenV>, src: u64, pos: int) -> ParseStep
    decreases ts.len() - pos, 23int,
{
    if pos >= ts.len() {
        Err(spec_eof_err(ts, src, "an atom"@))
    } else {
    match spec_parse_expr(ts, src, pos + 1) {
        Err(e) => Err(e),
        Ok((cond, p1)) => {
            let q = if pos + 1 < p1 <= ts.len() {
                p1
            } else {
                pos + 1
            };
            match spec_parse_block(ts, src, q) {
                Err(e) => Err(e),
                Ok((body, p2)) => {
                    if p2 < ts.len() && ts[p2].kind == TokenKindV::Keyword(Keyword::Else) && q < p2 {
                        match spec_parse_else(ts, src, p2) {
                            Err(e) => Err(e),
                            Ok((els, p3)) => Ok(
                                (
                                    AstV {
                                        kind: AstKindV::If {
                                            condition: Box::new(cond),
                                            body: Box::new(body),
                                            else_branch: Some(Box::new(els)),
                                        },
                                        span: Span {
                                            start: ts[pos].span.start,
                                            end: els.span.end,
                                            source: src,
                                        },
                                    },
                                    p3,
                                ),
                            ),
                        }
                    } else {
                        Ok(
                            (
                                AstV {
                                    kind: AstKindV::If {
                                        condition: Box::new(cond),
                                        body: Box::new(body),
                                        else_branch: None,
                                    },
                                    span: Span {
                                        start: ts[pos].span.start,
                                        end: body.span.end,
                                        source: src,
                                    },
                                },
                                p2,
                            ),
                        )
                    }
                },
            }
        },
    }
    }
}

/// The branch after `else`: a further if, or a block.
pub open spec fn spec_parse_else(ts: Seq<TokenV>, src: u64, pos: int) -> ParseStep
    decreases ts.len() - pos, 23int,
{
    if pos >= ts.len() {
        Err(spec_eof_err(ts, src, "a block"@))
    } else {
    let body: ParseStep = if pos + 1 < ts.len() && ts[pos + 1].kind == TokenKindV::Keyword(
        Keyword::If,
    ) {
        spec_parse_if(ts, src, pos + 1)
    } else {
        spec_parse_block(ts, src, pos + 1)
    };
    match body {
        Err(e) => Err(e),
        Ok((b, p)) => Ok(
            (
                AstV {
                    kind: AstKindV::Else { body: Box::new(b) },
                    span: Span { start: ts[pos].span.start, end: b.span.end, source: src },
                },
                p,
            ),
        ),
    }
    }
}

/// A block: `{`, statements until the matching `}`, skipping empty
/// statements.
pub open spec fn spec_parse_block(ts: Seq<TokenV>, src: u64, pos: int) -> ParseStep
    decreases ts.len() - pos, 22int,
{
    if pos >= ts.len() {
        Err(spec_eof_err(ts, src, "a block"@))
    } else if ts[pos].kind == TokenKindV::Parenthesis(
        Parenthesis { kind: ParenthesisKind::Curly, opening: Opening::Open },
    ) {
        match spec_block_items(ts, src, pos + 1, Seq::empty()) {
            Err(e) => Err(e),
            Ok((stmts, p)) => Ok(
                (
                    AstV {
                        kind: AstKindV::Block { expressions: stmts },
                        span: Span {
                            start: ts[pos].span.start,
                            end: if p < ts.len() {
                                ts[p].span.end
                            } else {
                                ts[pos].span.end
                            },
                            source: src,
                        },
                    },
                    p + 1,
                ),
            ),
        }
    } else {
        Err(spec_unexpected(ts[pos], "a block"@))
    }
}

/// The statements of a block, accumulated until the closing brace; the
/// position returned is the closing brace's.
pub open spec fn spec_block_items(ts: Seq<TokenV>, src: u64, pos: int, acc: Seq<AstV>) -> Result<
    (Seq<AstV>, int),
    ErrorV,
>
    decreases ts.len() - pos, 25int,
{
    if pos >= ts.len() {
        Err(spec_eof_err(ts, src, "a statement"@))
    } else if ts[pos].kind == TokenKindV::Parenthesis(
        Parenthesis { kind: ParenthesisKind::Curly, opening: Opening::Close },
    ) {
        Ok((acc, pos))
    } else {
        match spec_parse_stmt(ts, src, pos) {
            Err(e) => Err(e),
            Ok((node, p)) => {
                let q = if pos < p <= ts.len() {
                    p
                } else {
                    pos + 1
                };
                spec_block_items(
                    ts,
                    src,
                    q,
                    if node.kind is NoOp {
                        acc
                    } else {
                        acc.push(node)
                    },
                )
            },
        }
    }
}

/// The function parameter list after the opening parenthesis: identifier
/// names separated by commas; the position returned is the closing
/// parenthesis's.
pub open spec fn spec_params(ts: Seq<TokenV>, src: u64, pos: int, acc: Seq<Seq<char>>) -> Result<
    (Seq<Seq<char>>, int),
    ErrorV,
>
    decreases ts.len() - pos, 24int,
{
    if pos >= ts.len() {
        Err(spec_eof_err(ts, src, "a closing parenthesis"@))
    } else {
        match ts[pos].kind {
            TokenKindV::Identifier(nm) => {
                let p2 = pos + 1;
                if p2 >= ts.len() {
                    Err(spec_eof_err(ts, src, "a comma or a closing parenthesis"@))
                } else if ts[p2].kind == TokenKindV::Comma {
                    spec_params(ts, src, p2 + 1, acc.push(nm))
                } else if ts[p2].kind == TokenKindV::Parenthesis(
                    Parenthesis { kind: ParenthesisKind::Round, opening: Opening::Close },
                ) {
                    Ok((acc.push(nm), p2))
                } else {
                    Err(spec_unexpected(ts[p2], "a comma or a closing parenthesis"@))
                }
            },
            _ => {
                if ts[pos].kind == TokenKindV::Parenthesis(
                    Parenthesis { kind: ParenthesisKind::Round, opening: Opening::Close },
                ) {
                    Ok((acc, pos))
                } else {
                    Err(spec_unexpected(ts[pos], "a closing parenthesis"@))
                }
            },
        }
    }
}

/// A function definition: `fn`, its name, its parenthesized parameter
/// names, and its block body.
pub open spec fn spec_parse_function(ts: Seq<TokenV>, src: u64, pos: int) -> ParseStep
    decreases ts.len() - pos, 22int,
{
    let p1 = pos + 1;
    if p1 >= ts.len() {
        Err(spec_eof_err(ts, src, "an identifier as the function name"@))
    } else {
        match ts[p1].kind {
            TokenKindV::Identifier(name) => {
                let p2 = p1 + 1;
                if p2 >= ts.len() {
                    Err(spec_eof_err(ts, src, "an opening parenthesis"@))
                } else if ts[p2].kind == TokenKindV::Parenthesis(
                    Parenthesis { kind: ParenthesisKind::Round, opening: Opening::Open },
                ) {
                    match spec_params(ts, src, p2 + 1, Seq::empty()) {
                        Err(e) => Err(e),
                        Ok((params, pc)) => {
                            let q = if p2 + 1 <= pc < ts.len() {
                                pc + 1
                            } else {
                                p2 + 1
                            };
                            match spec_parse_block(ts, src, q) {
                                Err(e) => Err(e),
                                Ok((body, p3)) => Ok(
                                    (
                                        AstV {
                                            kind: AstKindV::FunctionDefinition {
                                                params,
                                                body: Box::new(body),
                                                name,
                                            },
                                            span: Span {
                                                start: ts[pos].span.start,
                                                end: body.span.end,
                                                source: src,
                                            },
                                        },
                                        p3,
                                    ),
                                ),
                            }
                        },
                    }
                } else {
                    Err(spec_unexpected(ts[p2], "an opening parenthesis"@))
                }
            },
            _ => Err(spec_unexpected(ts[p1], "an identifier as the function name"@)),
        }
    }
}

/// The statements of a whole source, accumulated to its end.
pub open spec fn spec_stmts(ts: Seq<TokenV>, src: u64, pos: int, acc: Seq<AstV>) -> Result<
    (Seq<AstV>, int),
    ErrorV,
>
    decreases ts.len() - pos, 25int,
{
    if pos >= ts.len() {
        Ok((acc, pos))
    } else {
        match spec_parse_stmt(ts, src, pos) {
            Err(e) => Err(e),
            Ok((node, p)) => {
                let q = if pos < p <= ts.len() {
                    p
                } else {
                    pos + 1
                };
                spec_stmts(
                    ts,
                    src,
                    q,
                    if node.kind is NoOp {
                        acc
                    } else {
                        acc.push(node)
                    },
                )
            },
        }
    }
}

/// A whole source as one tree: a single statement stands alone, any
/// other number of statements becomes a block.
pub open spec fn spec_parse_statements(ts: Seq<TokenV>, src: u64, pos: int) -> ParseStep {
    match spec_stmts(ts, src, pos, Seq::empty()) {
        Err(e) => Err(e),
        Ok((stmts, p)) => {
            if stmts.len() == 1 {
                Ok((stmts[0], p))
            } else {
                Ok(
                    (
                        AstV {
                            kind: AstKindV::Block { expressions: stmts },
                            span: if stmts.len() == 0 {
                                Span { start: 0, end: 0, source: src }
                            } else {
                                Span {
                                    start: stmts[0].span.start,
                                    end: stmts[stmts.len() - 1].span.end,
                                    source: src,
                                }
                            },
                        },
                        p,
                    ),
                )
            }
        },
    }
}

/// What `parse` returns: the whole source parsed, with any unconsumed
/// token an error.
pub open spec fn spec_parse(ts: Seq<TokenV>, src: u64) -> Result<AstV, ErrorV> {
    match spec_parse_statements(ts, src, 0) {
        Err(e) => Err(e),
        Ok((node, p)) => {
            if p < ts.len() {
                if ts[p].kind == TokenKindV::Parenthesis(
                    Parenthesis { kind: ParenthesisKind::Round, opening: Opening::Close },
                ) {
                    Err(
                        ErrorV {
                            span: ts[p].span,
                            kind: ErrorKindV::Parser(
                                ParserErrorV::UnmatchedClosingParenthesis { paren: ts[p] },
                            ),
                        },
                    )
                } else {
                    Err(spec_unexpected(ts[p], "end of input"@))
                }
            } else {
                Ok(node)
            }
        },
    }
}

/// What stands at the head of a statement, copied out so that parsing
/// can dispatch on it.
enum StatementHead {
    Eof,
    Terminator(Span),
    Head(Keyword, Span),
    OpenBrace,
    Other,
}

impl Parser {
    /// Classify the token at the current position for statement
    /// dispatch.
    fn stmt_head(&self) -> (r: StatementHead)
        requires
            self.wf(),
        ensures
            match r {
                StatementHead::Eof => self.pos == self.toks().len(),
                StatementHead::Terminator(sp) => self.pos < self.toks().len() && self.toks()[self.pos as int].kind is Newline && sp == self.toks()[self.pos as int].span,
                StatementHead::Head(k, sp) => self.pos < self.toks().len() && self.toks()[self.pos as int].kind == TokenKindV::Keyword(k) && sp == self.toks()[self.pos as int].span,
                StatementHead::OpenBrace => self.pos < self.toks().len() && self.toks()[self.pos as int].kind == TokenKindV::Parenthesis(Parenthesis { kind: ParenthesisKind::Curly, opening: Opening::Open }),
                StatementHead::Other => self.pos < self.toks().len() && !(self.toks()[self.pos as int].kind is Newline) && !(self.toks()[self.pos as int].kind is Keyword) && self.toks()[self.pos as int].kind != TokenKindV::Parenthesis(Parenthesis { kind: ParenthesisKind::Curly, opening: Opening::Open }),
            },
    {
        match self.peek() {
            None => StatementHead::Eof,
            Some(t) => {
                let sp = t.span;
                match &t.kind {
                    TokenKind::Newline => StatementHead::Terminator(sp),
                    TokenKind::Keyword(k) => StatementHead::Head(*k, sp),
                    TokenKind::Parenthesis(
                        Parenthesis { kind: ParenthesisKind::Curly, opening: Opening::Open },
                    ) => StatementHead::OpenBrace,
                    _ => StatementHead::Other,
                }
            },
        }
    }

    /// Consume what must follow a finished statement: a terminator, the
    /// end of the input, or the end of a block.
    fn statement_end(&mut self, node: AstNode) -> (r: Result<AstNode, Error>)
        requires
            old(self).wf(),
        ensures
            final(self).tokens == old(self).tokens,
            final(self).source == old(self).source,
            final(self).wf(),
            match r {
                Ok(n2) => spec_stmt_end(old(self).toks(), old(self).source, node@, old(self).pos as int) == Ok::<(AstV, int), ErrorV>((n2@, final(self).pos as int)) && old(self).pos <= final(self).pos <= old(self).toks().len(),
                Err(e) => spec_stmt_end(old(self).toks(), old(self).source, node@, old(self).pos as int) == Err::<(AstV, int), ErrorV>(e@),
            },
    {
        let advance_it: bool = match self.peek() {
            None => false,
            Some(t) => match &t.kind {
                TokenKind::Newline => true,
                TokenKind::Parenthesis(
                    Parenthesis { kind: ParenthesisKind::Curly, opening: Opening::Close },
                ) => false,
                TokenKind::Parenthesis(
                    Parenthesis { kind: ParenthesisKind::Round, opening: Opening::Close },
                ) => {
                    let paren = t.duplicate();
                    return Err(
                        Error {
                            span: paren.span,
                            kind: ErrorKind::Parser(
                                ParserError::UnmatchedClosingParenthesis { paren },
                            ),
                        },
                    );
                },
                _ => {
                    let found = t.duplicate();
                    return Err(
                        Error {
                            span: found.span,
                            kind: ErrorKind::Parser(
                                ParserError::UnexpectedToken {
                                    found,
                                    expected: String::from_str("a statement terminator"),
                                },
                            ),
                        },
                    );
                },
            },
        };
        if advance_it {
            self.advance();
        }
        Ok(node)
    }

    /// A statement: a block, a control statement, a declaration, or an
    /// expression statement, followed by its terminator.
    fn parse_statement(&mut self) -> (r: Result<AstNode, Error>)
        requires
            old(self).wf(),
        ensures
            final(self).tokens == old(self).tokens,
            final(self).source == old(self).source,
            final(self).wf(),
            match r {
                Ok(node) => spec_parse_stmt(old(self).toks(), old(self).source, old(self).pos as int) == Ok::<(AstV, int), ErrorV>((node@, final(self).pos as int)) && old(self).pos < final(self).pos <= old(self).toks().len(),
                Err(e) => spec_parse_stmt(old(self).toks(), old(self).source, old(self).pos as int) == Err::<(AstV, int), ErrorV>(e@),
            },
        decreases old(self).tokens@.len() - old(self).pos, 24int,
    {
        let inner: AstNode = match self.stmt_head() {
            StatementHead::Eof => {
                return Err(self.eof_error("a statement"));
            },
            StatementHead::Terminator(sp) => AstNode { kind: AstNodeKind::NoOp, span: sp },
            StatementHead::Head(k, sp) => match k {
                Keyword::Let => match self.parse_assignment() {
                    Ok(n) => n,
                    Err(e) => {
                        return Err(e);
                    },
                },
                Keyword::If => match self.parse_if() {
                    Ok(n) => n,
                    Err(e) => {
                        return Err(e);
                    },
                },
                Keyword::Else => {
                    let found = match self.peek() {
                        Some(t) => t.duplicate(),
                        None => {
                            return Err(self.eof_error("a statement"));
                        },
                    };
                    return Err(
                        Error {
                            span: found.span,
                            kind: ErrorKind::Parser(
                                ParserError::UnexpectedToken {
                                    found,
                                    expected: String::from_str("an if statement or a block"),
                                },
                            ),
                        },
                    );
                },
                Keyword::Print => match self.parse_print() {
                    Ok(n) => n,
                    Err(e) => {
                        return Err(e);
                    },
                },
                Keyword::While => match self.parse_while() {
                    Ok(n) => n,
                    Err(e) => {
                        return Err(e);
                    },
                },
                Keyword::Function => match self.parse_function() {
                    Ok(n) => n,
                    Err(e) => {
                        return Err(e);
                    },
                },
                Keyword::Break => {
                    let node = AstNode { kind: AstNodeKind::Break, span: sp };
                    self.advance();
                    node
                },
                Keyword::Continue => {
                    let node = AstNode { kind: AstNodeKind::Continue, span: sp };
                    self.advance();
                    node
                },
                _ => match self.parse_assignment() {
                    Ok(n) => n,
                    Err(e) => {
                        return Err(e);
                    },
                },
            },
            StatementHead::OpenBrace => match self.parse_block() {
                Ok(n) => n,
                Err(e) => {
                    return Err(e);
                },
            },
            StatementHead::Other => match self.parse_assignment() {
                Ok(n) => n,
                Err(e) => {
                    return Err(e);
                },
            },
        };
        self.statement_end(inner)
    }

    /// An assignment statement (`let x = e` or `x = e`), or a bare
    /// expression statement.
    fn parse_assignment(&mut self) -> (r: Result<AstNode, Error>)
        requires
            old(self).wf(),
        ensures
            final(self).tokens == old(self).tokens,
            final(self).source == old(self).source,
            final(self).wf(),
            match r {
                Ok(node) => spec_parse_assignment(old(self).toks(), old(self).source, old(self).pos as int) == Ok::<(AstV, int), ErrorV>((node@, final(self).pos as int)) && old(self).pos < final(self).pos <= old(self).toks().len(),
                Err(e) => spec_parse_assignment(old(self).toks(), old(self).source, old(self).pos as int) == Err::<(AstV, int), ErrorV>(e@),
            },
        decreases old(self).tokens@.len() - old(self).pos, 23int,
    {
        if self.pos >= self.tokens.len() {
            proof {
                assert(self.toks().len() == self.tokens@.len());
            }
            return Err(self.eof_error("an atom"));
        }
        let is_new: bool = match self.peek() {
            Some(t) => match &t.kind {
                TokenKind::Keyword(Keyword::Let) => true,
                _ => false,
            },
            None => false,
        };
        if is_new {
            self.advance();
        }
        let lhs = match self.parse_expr() {
            Ok(n) => n,
            Err(e) => {
                return Err(e);
            },
        };
        let has_assign: bool = match self.peek() {
            Some(t) => match &t.kind {
                TokenKind::Operator(Operator::Assign) => true,
                _ => false,
            },
            None => false,
        };
        if !has_assign {
            return Ok(lhs);
        }
        self.advance();
        let lspan = lhs.span;
        let name: String = match lhs.kind {
            AstNodeKind::VariableReference(name) => name,
            other => {
                let found = AstNode { kind: other, span: lspan };
                return Err(
                    Error {
                        span: lspan,
                        kind: ErrorKind::Parser(ParserError::InvalidAssignmentTarget { found }),
                    },
                );
            },
        };
        let rhs = match self.parse_expr() {
            Ok(n) => n,
            Err(e) => {
                return Err(e);
            },
        };
        let span = Span { start: lspan.start, end: rhs.span.end, source: self.source };
        Ok(
            AstNode {
                kind: AstNodeKind::Assignment {
                    name,
                    value: Box::new(rhs),
                    declaration: is_new,
                },
                span,
            },
        )
    }

    /// A print statement: `print`, optionally parenthesized, and the
    /// expression to print.
    fn parse_print(&mut self) -> (r: Result<AstNode, Error>)
        requires
            old(self).wf(),
            old(self).pos < old(self).toks().len(),
        ensures
            final(self).tokens == old(self).tokens,
            final(self).source == old(self).source,
            final(self).wf(),
            match r {
                Ok(node) => spec_parse_print(old(self).toks(), old(self).source, old(self).pos as int) == Ok::<(AstV, int), ErrorV>((node@, final(self).pos as int)) && old(self).pos < final(self).pos <= old(self).toks().len(),
                Err(e) => spec_parse_print(old(self).toks(), old(self).source, old(self).pos as int) == Err::<(AstV, int), ErrorV>(e@),
            },
        decreases old(self).tokens@.len() - old(self).pos, 23int,
    {
        let start_span = match self.peek() {
            Some(t) => t.span,
            None => {
                return Err(self.eof_error("an atom"));
            },
        };
        self.advance();
        let has_paren: bool = match self.peek() {
            Some(t) => match &t.kind {
                TokenKind::Parenthesis(
                    Parenthesis { kind: ParenthesisKind::Round, opening: Opening::Open },
                ) => true,
                _ => false,
            },
            None => false,
        };
        if has_paren {
            self.advance();
        }
        let expr = match self.parse_expr() {
            Ok(n) => n,
            Err(e) => {
                return Err(e);
            },
        };
        if has_paren {
            let close_end: usize = match self.peek() {
                None => {
                    return Err(self.eof_error("a closing parenthesis"));
                },
                Some(t) => match &t.kind {
                    TokenKind::Parenthesis(
                        Parenthesis { kind: ParenthesisKind::Round, opening: Opening::Close },
                    ) => t.span.end,
                    _ => {
                        let found = t.duplicate();
                        return Err(
                            Error {
                                span: found.span,
                                kind: ErrorKind::Parser(
                                    ParserError::UnexpectedToken {
                                        found,
                                        expected: String::from_str("a closing parenthesis"),
                                    },
                                ),
                            },
                        );
                    },
                },
            };
            self.advance();
            let span = Span { start: start_span.start, end: close_end, source: self.source };
            Ok(AstNode { kind: AstNodeKind::Print { expression: Box::new(expr) }, span })
        } else {
            let span = Span { start: start_span.start, end: expr.span.end, source: self.source };
            Ok(AstNode { kind: AstNodeKind::Print { expression: Box::new(expr) }, span })
        }
    }

    /// A while loop: `while`, its condition, and its block body.
    fn parse_while(&mut self) -> (r: Result<AstNode, Error>)
        requires
            old(self).wf(),
            old(self).pos < old(self).toks().len(),
        ensures
            final(self).tokens == old(self).tokens,
            final(self).source == old(self).source,
            final(self).wf(),
            match r {
                Ok(node) => spec_parse_while(old(self).toks(), old(self).source, old(self).pos as int) == Ok::<(AstV, int), ErrorV>((node@, final(self).pos as int)) && old(self).pos < final(self).pos <= old(self).toks().len(),
                Err(e) => spec_parse_while(old(self).toks(), old(self).source, old(self).pos as int) == Err::<(AstV, int), ErrorV>(e@),
            },
        decreases old(self).tokens@.len() - old(self).pos, 23int,
    {
        let start_span = match self.peek() {
            Some(t) => t.span,
            None => {
                return Err(self.eof_error("an atom"));
            },
        };
        self.advance();
        let cond = match self.parse_expr() {
            Ok(n) => n,
            Err(e) => {
                return Err(e);
            },
        };
        let body = match self.parse_block() {
            Ok(n) => n,
            Err(e) => {
                return Err(e);
            },
        };
        let span = Span { start: start_span.start, end: body.span.end, source: self.source };
        Ok(
            AstNode {
                kind: AstNodeKind::While { condition: Box::new(cond), body: Box::new(body) },
                span,
            },
        )
    }

    /// An if statement: `if`, its condition, its block body, and an
    /// optional else branch.
    fn parse_if(&mut self) -> (r: Result<AstNode, Error>)
        requires
            old(self).wf(),
            old(self).pos < old(self).toks().len(),
        ensures
            final(self).tokens == old(self).tokens,
            final(self).source == old(self).source,
            final(self).wf(),
            match r {
                Ok(node) => spec_parse_if(old(self).toks(), old(self).source, old(self).pos as int) == Ok::<(AstV, int), ErrorV>((node@, final(self).pos as int)) && old(self).pos < final(self).pos <= old(self).toks().len(),
                Err(e) => spec_parse_if(old(self).toks(), old(self).source, old(self).pos as int) == Err::<(AstV, int), ErrorV>(e@),
            },
        decreases old(self).tokens@.len() - old(self).pos, 23int,
    {
        let start_span = match self.peek() {
            Some(t) => t.span,
            None => {
                return Err(self.eof_error("an atom"));
            },
        };
        self.advance();
        let cond = match self.parse_expr() {
            Ok(n) => n,
            Err(e) => {
                return Err(e);
            },
        };
        let body = match self.parse_block() {
            Ok(n) => n,
            Err(e) => {
                return Err(e);
            },
        };
        let has_else: bool = match self.peek() {
            Some(t) => match &t.kind {
                TokenKind::Keyword(Keyword::Else) => true,
                _ => false,
            },
            None => false,
        };
        if has_else {
            let els = match self.parse_else() {
                Ok(n) => n,
                Err(e) => {
                    return Err(e);
                },
            };
            let span = Span { start: start_span.start, end: els.span.end, source: self.source };
            Ok(
                AstNode {
                    kind: AstNodeKind::If {
                        condition: Box::new(cond),
                        body: Box::new(body),
                        else_branch: Some(Box::new(els)),
                    },
                    span,
                },
            )
        } else {
            let span = Span { start: start_span.start, end: body.span.end, source: self.source };
            Ok(
                AstNode {
                    kind: AstNodeKind::If {
                        condition: Box::new(cond),
                        body: Box::new(body),
                        else_branch: None,
                    },
                    span,
                },
            )
        }
    }

    /// An else branch: `else` followed by a block or by a further if.
    fn parse_else(&mut self) -> (r: Result<AstNode, Error>)
        requires
            old(self).wf(),
            old(self).pos < old(self).toks().len(),
        ensures
            final(self).tokens == old(self).tokens,
            final(self).source == old(self).source,
            final(self).wf(),
            match r {
                Ok(node) => spec_parse_else(old(self).toks(), old(self).source, old(self).pos as int) == Ok::<(AstV, int), ErrorV>((node@, final(self).pos as int)) && old(self).pos < final(self).pos <= old(self).toks().len(),
                Err(e) => spec_parse_else(old(self).toks(), old(self).source, old(self).pos as int) == Err::<(AstV, int), ErrorV>(e@),
            },
        decreases old(self).tokens@.len() - old(self).pos, 23int,
    {
        let start_span = match self.peek() {
            Some(t) => t.span,
            None => {
                return Err(self.eof_error("a block"));
            },
        };
        self.advance();
        let next_is_if: bool = match self.peek() {
            Some(t) => match &t.kind {
                TokenKind::Keyword(Keyword::If) => true,
                _ => false,
            },
            None => false,
        };
        let body = if next_is_if {
            match self.parse_if() {
                Ok(n) => n,
                Err(e) => {
                    return Err(e);
                },
            }
        } else {
            match self.parse_block() {
                Ok(n) => n,
                Err(e) => {
                    return Err(e);
                },
            }
        };
        let span = Span { start: start_span.start, end: body.span.end, source: self.source };
        Ok(AstNode { kind: AstNodeKind::Else { body: Box::new(body) }, span })
    }

    /// A block: `{`, statements until the matching `}`, skipping empty
    /// statements.
    fn parse_block(&mut self) -> (r: Result<AstNode, Error>)
        requires
            old(self).wf(),
        ensures
            final(self).tokens == old(self).tokens,
            final(self).source == old(self).source,
            final(self).wf(),
            match r {
                Ok(node) => spec_parse_block(old(self).toks(), old(self).source, old(self).pos as int) == Ok::<(AstV, int), ErrorV>((node@, final(self).pos as int)) && old(self).pos < final(self).pos <= old(self).toks().len(),
                Err(e) => spec_parse_block(old(self).toks(), old(self).source, old(self).pos as int) == Err::<(AstV, int), ErrorV>(e@),
            },
        decreases old(self).tokens@.len() - old(self).pos, 22int,
    {
        let ghost ts = self.toks();
        let ghost src = self.source;
        let ghost pos0 = self.pos as int;
        let open_span = match self.peek() {
            None => {
                return Err(self.eof_error("a block"));
            },
            Some(t) => match &t.kind {
                TokenKind::Parenthesis(
                    Parenthesis { kind: ParenthesisKind::Curly, opening: Opening::Open },
                ) => t.span,
                _ => {
                    let found = t.duplicate();
                    return Err(
                        Error {
                            span: found.span,
                            kind: ErrorKind::Parser(
                                ParserError::UnexpectedToken {
                                    found,
                                    expected: String::from_str("a block"),
                                },
                            ),
                        },
                    );
                },
            },
        };
        self.advance();
        let ghost items0 = self.pos as int;
        let mut statements: Vec<AstNode> = Vec::new();
        let ghost mut gacc: Seq<AstV> = Seq::empty();
        loop
            invariant
                self.wf(),
                self.tokens == old(self).tokens,
                self.source == old(self).source,
                ts == self.toks(),
                src == self.source,
                pos0 == old(self).pos as int,
                pos0 < items0 <= self.pos <= ts.len(),
                items0 == pos0 + 1,
                pos0 < ts.len(),
                ts[pos0].kind == TokenKindV::Parenthesis(
                    Parenthesis { kind: ParenthesisKind::Curly, opening: Opening::Open },
                ),
                gacc.len() == statements@.len(),
                forall|i: int| 0 <= i < gacc.len() ==> gacc[i] == statements@[i]@,
                spec_block_items(ts, src, items0, Seq::empty()) == spec_block_items(
                    ts,
                    src,
                    self.pos as int,
                    gacc,
                ),
            ensures
                self.wf(),
                self.tokens == old(self).tokens,
                self.source == old(self).source,
                pos0 < items0 <= self.pos <= ts.len(),
                items0 == pos0 + 1,
                pos0 < ts.len(),
                ts[pos0].kind == TokenKindV::Parenthesis(
                    Parenthesis { kind: ParenthesisKind::Curly, opening: Opening::Open },
                ),
                gacc.len() == statements@.len(),
                forall|i: int| 0 <= i < gacc.len() ==> gacc[i] == statements@[i]@,
                spec_block_items(ts, src, items0, Seq::empty()) == Ok::<(Seq<AstV>, int), ErrorV>(
                    (gacc, self.pos as int),
                ),
                self.pos < ts.len(),
                ts[self.pos as int].kind == TokenKindV::Parenthesis(
                    Parenthesis { kind: ParenthesisKind::Curly, opening: Opening::Close },
                ),
            decreases ts.len() - self.pos,
        {
            let at_close: bool = match self.peek() {
                Some(t) => match &t.kind {
                    TokenKind::Parenthesis(
                        Parenthesis { kind: ParenthesisKind::Curly, opening: Opening::Close },
                    ) => true,
                    _ => false,
                },
                None => false,
            };
            if at_close {
                break ;
            }
            let ghost p = self.pos as int;
            match self.parse_statement() {
                Err(e) => {
                    proof {
                        assert(spec_block_items(ts, src, p, gacc) == Err::<
                            (Seq<AstV>, int),
                            ErrorV,
                        >(e@));
                    }
                    return Err(e);
                },
                Ok(node) => {
                    let is_noop = match &node.kind {
                        AstNodeKind::NoOp => true,
                        _ => false,
                    };
                    if !is_noop {
                        proof {
                            gacc = gacc.push(node@);
                        }
                        statements.push(node);
                    }
                },
            }
        }
        let close_end = match self.peek() {
            Some(t) => t.span.end,
            None => {
                proof {
                    assert(false);
                }
                0
            },
        };
        self.advance();
        proof {
            crate::ast::lemma_view_ast_seq(statements@);
            assert(view_ast_seq(statements@) =~= gacc);
        }
        let span = Span { start: open_span.start, end: close_end, source: self.source };
        Ok(AstNode { kind: AstNodeKind::Block { expressions: statements }, span })
    }

    /// A function definition: `fn`, its name, its parameter list, and
    /// its block body.
    #[verifier::rlimit(60)]
    fn parse_function(&mut self) -> (r: Result<AstNode, Error>)
        requires
            old(self).wf(),
            old(self).pos < old(self).toks().len(),
        ensures
            final(self).tokens == old(self).tokens,
            final(self).source == old(self).source,
            final(self).wf(),
            match r {
                Ok(node) => spec_parse_function(old(self).toks(), old(self).source, old(self).pos as int) == Ok::<(AstV, int), ErrorV>((node@, final(self).pos as int)) && old(self).pos < final(self).pos <= old(self).toks().len(),
                Err(e) => spec_parse_function(old(self).toks(), old(self).source, old(self).pos as int) == Err::<(AstV, int), ErrorV>(e@),
            },
        decreases old(self).tokens@.len() - old(self).pos, 22int,
    {
        let ghost ts = self.toks();
        let ghost src = self.source;
        let ghost pos0 = self.pos as int;
        let start_span = match self.peek() {
            Some(t) => t.span,
            None => {
                return Err(self.eof_error("an atom"));
            },
        };
        self.advance();
        let name: String = match self.peek() {
            None => {
                return Err(self.eof_error("an identifier as the function name"));
            },
            Some(t) => match &t.kind {
                TokenKind::Identifier(name) => name.clone(),
                _ => {
                    let found = t.duplicate();
                    return Err(
                        Error {
                            span: found.span,
                            kind: ErrorKind::Parser(
                                ParserError::UnexpectedToken {
                                    found,
                                    expected: String::from_str(
                                        "an identifier as the function name",
                                    ),
                                },
                            ),
                        },
                    );
                },
            },
        };
        self.advance();
        match self.peek() {
            None => {
                return Err(self.eof_error("an opening parenthesis"));
            },
            Some(t) => match &t.kind {
                TokenKind::Parenthesis(
                    Parenthesis { kind: ParenthesisKind::Round, opening: Opening::Open },
                ) => {},
                _ => {
                    let found = t.duplicate();
                    return Err(
                        Error {
                            span: found.span,
                            kind: ErrorKind::Parser(
                                ParserError::UnexpectedToken {
                                    found,
                                    expected: String::from_str("an opening parenthesis"),
                                },
                            ),
                        },
                    );
                },
            },
        }
        self.advance();
        let ghost pstart = self.pos as int;
        let mut params: Vec<String> = Vec::new();
        let ghost mut gnames: Seq<Seq<char>> = Seq::empty();
        loop
            invariant
                self.wf(),
                self.tokens == old(self).tokens,
                self.source == old(self).source,
                ts == self.toks(),
                src == self.source,
                pos0 == old(self).pos as int,
                pos0 < pstart <= self.pos <= ts.len(),
                pstart == pos0 + 3,
                pos0 + 2 < ts.len(),
                ts[pos0 + 1].kind == TokenKindV::Identifier(name@),
                ts[pos0 + 2].kind == TokenKindV::Parenthesis(
                    Parenthesis { kind: ParenthesisKind::Round, opening: Opening::Open },
                ),
                gnames.len() == params@.len(),
                forall|i: int| 0 <= i < gnames.len() ==> gnames[i] == params@[i]@,
                spec_params(ts, src, pstart, Seq::empty()) == spec_params(
                    ts,
                    src,
                    self.pos as int,
                    gnames,
                ),
            ensures
                self.wf(),
                self.tokens == old(self).tokens,
                self.source == old(self).source,
                pos0 == old(self).pos as int,
                pos0 < pstart <= self.pos <= ts.len(),
                pstart == pos0 + 3,
                pos0 + 2 < ts.len(),
                ts[pos0 + 1].kind == TokenKindV::Identifier(name@),
                ts[pos0 + 2].kind == TokenKindV::Parenthesis(
                    Parenthesis { kind: ParenthesisKind::Round, opening: Opening::Open },
                ),
                gnames.len() == params@.len(),
                forall|i: int| 0 <= i < gnames.len() ==> gnames[i] == params@[i]@,
                spec_params(ts, src, pstart, Seq::empty()) == Ok::<(Seq<Seq<char>>, int), ErrorV>(
                    (gnames, self.pos as int),
                ),
                self.pos < ts.len(),
            decreases ts.len() - self.pos,
        {
            let is_ident: bool = match self.peek() {
                Some(t) => match &t.kind {
                    TokenKind::Identifier(_) => true,
                    _ => false,
                },
                None => false,
            };
            if is_ident {
                let pname: String = match self.peek() {
                    Some(t) => match &t.kind {
                        TokenKind::Identifier(name) => name.clone(),
                        _ => String::new(),
                    },
                    None => String::new(),
                };
                self.advance();
                match self.peek() {
                    None => {
                        return Err(self.eof_error("a comma or a closing parenthesis"));
                    },
                    Some(t2) => match &t2.kind {
                        TokenKind::Comma => {
                            proof {
                                gnames = gnames.push(pname@);
                            }
                            params.push(pname);
                            self.advance();
                        },
                        TokenKind::Parenthesis(
                            Parenthesis { kind: ParenthesisKind::Round, opening: Opening::Close },
                        ) => {
                            proof {
                                gnames = gnames.push(pname@);
                            }
                            params.push(pname);
                            break ;
                        },
                        _ => {
                            let found = t2.duplicate();
                            return Err(
                                Error {
                                    span: found.span,
                                    kind: ErrorKind::Parser(
                                        ParserError::UnexpectedToken {
                                            found,
                                            expected: String::from_str(
                                                "a comma or a closing parenthesis",
                                            ),
                                        },
                                    ),
                                },
                            );
                        },
                    },
                }
            } else {
                match self.peek() {
                    None => {
                        return Err(self.eof_error("a closing parenthesis"));
                    },
                    Some(t) => match &t.kind {
                        TokenKind::Parenthesis(
                            Parenthesis { kind: ParenthesisKind::Round, opening: Opening::Close },
                        ) => {
                            break ;
                        },
                        _ => {
                            let found = t.duplicate();
                            return Err(
                                Error {
                                    span: found.span,
                                    kind: ErrorKind::Parser(
                                        ParserError::UnexpectedToken {
                                            found,
                                            expected: String::from_str("a closing parenthesis"),
                                        },
                                    ),
                                },
                            );
                        },
                    },
                }
            }
        }
        self.advance();
        let body = match self.parse_block() {
            Ok(n) => n,
            Err(e) => {
                return Err(e);
            },
        };
        proof {
            assert(params@.map_values(|p: String| p@) =~= gnames);
        }
        let span = Span { start: start_span.start, end: body.span.end, source: self.source };
        Ok(
            AstNode {
                kind: AstNodeKind::FunctionDefinition {
                    params,
                    body: Box::new(body),
                    name,
                },
                span,
            },
        )
    }

    /// Parses a run of statements to the end of the input: a single
    /// statement stands alone, any other number becomes a block.
    pub fn parse_statements(&mut self) -> (r: Result<AstNode, Error>)
        requires
            old(self).wf(),
        ensures
            final(self).tokens == old(self).tokens,
            final(self).source == old(self).source,
            final(self).wf(),
            match r {
                Ok(node) => spec_parse_statements(old(self).toks(), old(self).source, old(self).pos as int) == Ok::<(AstV, int), ErrorV>((node@, final(self).pos as int)) && old(self).pos <= final(self).pos <= old(self).toks().len(),
                Err(e) => spec_parse_statements(old(self).toks(), old(self).source, old(self).pos as int) == Err::<(AstV, int), ErrorV>(e@),
            },
        decreases old(self).tokens@.len() - old(self).pos, 25int,
    {
        let ghost ts = self.toks();
        let ghost src = self.source;
        let ghost pos0 = self.pos as int;
        let mut statements: Vec<AstNode> = Vec::new();
        let ghost mut gacc: Seq<AstV> = Seq::empty();
        loop
            invariant
                self.wf(),
                self.tokens == old(self).tokens,
                self.source == old(self).source,
                ts == self.toks(),
                src == self.source,
                pos0 == old(self).pos as int,
                pos0 <= self.pos <= ts.len(),
                gacc.len() == statements@.len(),
                forall|i: int| 0 <= i < gacc.len() ==> gacc[i] == statements@[i]@,
                spec_stmts(ts, src, pos0, Seq::empty()) == spec_stmts(
                    ts,
                    src,
                    self.pos as int,
                    gacc,
                ),
            ensures
                self.wf(),
                self.tokens == old(self).tokens,
                self.source == old(self).source,
                pos0 <= self.pos <= ts.len(),
                gacc.len() == statements@.len(),
                forall|i: int| 0 <= i < gacc.len() ==> gacc[i] == statements@[i]@,
                spec_stmts(ts, src, pos0, Seq::empty()) == Ok::<(Seq<AstV>, int), ErrorV>(
                    (gacc, self.pos as int),
                ),
                self.pos == ts.len(),
            decreases ts.len() - self.pos,
        {
            if self.pos >= self.tokens.len() {
                proof {
                    assert(self.toks().len() == self.tokens@.len());
                }
                break ;
            }
            let ghost p = self.pos as int;
            match self.parse_statement() {
                Err(e) => {
                    proof {
                        assert(spec_stmts(ts, src, p, gacc) == Err::<(Seq<AstV>, int), ErrorV>(
                            e@,
                        ));
                    }
                    return Err(e);
                },
                Ok(node) => {
                    let is_noop = match &node.kind {
                        AstNodeKind::NoOp => true,
                        _ => false,
                    };
                    if !is_noop {
                        proof {
                            gacc = gacc.push(node@);
                        }
                        statements.push(node);
                    }
                },
            }
        }
        if statements.len() == 1 {
            let node = match statements.pop() {
                Some(n) => n,
                None => {
                    proof {
                        assert(false);
                    }
                    AstNode {
                        kind: AstNodeKind::NoOp,
                        span: Span { start: 0, end: 0, source: 0 },
                    }
                },
            };
            proof {
                assert(gacc[0] == node@);
            }
            Ok(node)
        } else {
            let span = if statements.len() == 0 {
                Span { start: 0, end: 0, source: self.source }
            } else {
                Span {
                    start: statements[0].span.start,
                    end: statements[statements.len() - 1].span.end,
                    source: self.source,
                }
            };
            proof {
                crate::ast::lemma_view_ast_seq(statements@);
                assert(view_ast_seq(statements@) =~= gacc);
            }
            Ok(AstNode { kind: AstNodeKind::Block { expressions: statements }, span })
        }
    }

    /// Parses the whole token stream into one tree; any token left after
    /// the top-level construct is an error.
    pub fn parse(&mut self) -> (r: Result<AstNode, Error>)
        requires
            old(self).wf(),
            old(self).pos == 0,
        ensures
            final(self).tokens == old(self).tokens,
            final(self).source == old(self).source,
            final(self).wf(),
            match r {
                Ok(node) => spec_parse(old(self).toks(), old(self).source) == Ok::<AstV, ErrorV>(
                    node@,
                ),
                Err(e) => spec_parse(old(self).toks(), old(self).source) == Err::<AstV, ErrorV>(
                    e@,
                ),
            },
        decreases old(self).tokens@.len() - old(self).pos, 26int,
    {
        let node = match self.parse_statements() {
            Ok(n) => n,
            Err(e) => {
                return Err(e);
            },
        };
        if self.pos < self.tokens.len() {
            match self.peek() {
                Some(t) => match &t.kind {
                    TokenKind::Parenthesis(
                        Parenthesis { kind: ParenthesisKind::Round, opening: Opening::Close },
                    ) => {
                        let paren = t.duplicate();
                        return Err(
                            Error {
                                span: paren.span,
                                kind: ErrorKind::Parser(
                                    ParserError::UnmatchedClosingParenthesis { paren },
                                ),
                            },
                        );
                    },
                    _ => {
                        let found = t.duplicate();
                        return Err(
                            Error {
                                span: found.span,
                                kind: ErrorKind::Parser(
                                    ParserError::UnexpectedToken {
                                        found,
                                        expected: String::from_str("end of input"),
                                    },
                                ),
                            },
                        );
                    },
                },
                None => {
                    proof {
                        assert(false);
                    }
                },
            }
        }
        Ok(node)
    }
}

/// Whether a binary level accepts an operator.
fn level_ops(level: u8, op: Operator) -> (b: bool)
    ensures
        b == spec_level_ops(level as int, op),
{
    match level {
        0 => op == Operator::Or,
        1 => op == Operator::And,
        2 => op == Operator::Equals || op == Operator::NotEquals,
        3 => op == Operator::LessThan || op == Operator::LessThanEquals || op
            == Operator::GreaterThan || op == Operator::GreaterThanEquals,
        4 => op == Operator::Plus || op == Operator::Minus,
        _ => op == Operator::Multiply || op == Operator::Divide,
    }
}

} // verus!
