//! The error taxonomy: a closed set of lexical, syntactic and runtime
//! error kinds, each carried inside an [`Error`] with the span of the
//! offending source text.

use vstd::prelude::*;

use crate::ast::{view_ast, AstNode, AstV};
use crate::span::Span;
use crate::token::{Operator, Token, TokenV, UnaryOperator};
use crate::value::{ValueKind, ValueKindV};

verus! {

/// An error from any stage of the pipeline, with the span it points at.
#[derive(Debug, PartialEq)]
pub struct Error {
    pub span: Span,
    pub kind: ErrorKind,
}

/// Which stage an error came from.
#[derive(Debug, PartialEq)]
pub enum ErrorKind {
    Lexer(LexerError),
    Parser(ParserError),
    Runtime(RuntimeError),
}

/// An error that occurred during tokenization.
#[derive(Debug, PartialEq)]
pub enum LexerError {
    /// An unrecognized symbol; the payload is the offending text.
    UnknownSymbol(String),
    /// A numeric literal with too many decimal points, or one too large
    /// to represent; the payload is the offending text.
    MalformedNumber(String),
    /// A string literal whose closing quote never comes; the payload is
    /// the text from the opening quote to the end of the input.
    UnterminatedString(String),
}

/// An error that occurred while building the syntax tree.
#[derive(Debug, PartialEq)]
pub enum ParserError {
    /// A token that does not fit here; `expected` describes what would.
    UnexpectedToken { found: Token, expected: String },
    /// The token stream ended where a token was required.
    UnexpectedEndOfFile { expected: String },
    /// A closing parenthesis with no group to close.
    UnmatchedClosingParenthesis { paren: Token },
    /// An operator that may not stand before an operand.
    InvalidUnaryOperator(Operator),
    /// The left hand side of an assignment is not a plain identifier.
    InvalidAssignmentTarget { found: AstNode },
}

/// An error that occurred while evaluating the syntax tree.
#[derive(Debug, PartialEq)]
pub enum RuntimeError {
    /// The operator has no rule for this pair of operand kinds.
    InvalidBinaryOperation { lhs: ValueKind, operator: Operator, rhs: ValueKind },
    /// The unary operator has no rule for this operand kind.
    InvalidUnaryOperation { operand: ValueKind, operator: UnaryOperator },
    /// Division by a numeric zero.
    DivisionByZero,
    /// A variable that is not bound in any enclosing scope.
    UndefinedVariable { name: String },
    /// A `break` statement with no enclosing loop.
    BreakOutsideLoop,
    /// A `continue` statement with no enclosing loop.
    ContinueOutsideLoop,
    /// A single loop ran longer than the evaluator counts iterations.
    /// The count is bounded because every verified loop carries a bound;
    /// it is far beyond what any machine reaches.
    LoopLimit,
}

/// The mathematical value of a lexical error.
pub enum LexerErrorV {
    UnknownSymbol(Seq<char>),
    MalformedNumber(Seq<char>),
    UnterminatedString(Seq<char>),
}

/// The mathematical value of a parse error.
pub enum ParserErrorV {
    UnexpectedToken { found: TokenV, expected: Seq<char> },
    UnexpectedEndOfFile { expected: Seq<char> },
    UnmatchedClosingParenthesis { paren: TokenV },
    InvalidUnaryOperator(Operator),
    InvalidAssignmentTarget { found: AstV },
}

/// The mathematical value of a runtime error.
pub enum RuntimeErrorV {
    InvalidBinaryOperation { lhs: ValueKindV, operator: Operator, rhs: ValueKindV },
    InvalidUnaryOperation { operand: ValueKindV, operator: UnaryOperator },
    DivisionByZero,
    UndefinedVariable { name: Seq<char> },
    BreakOutsideLoop,
    ContinueOutsideLoop,
    LoopLimit,
}

/// The mathematical value of an error's stage and payload.
pub enum ErrorKindV {
    Lexer(LexerErrorV),
    Parser(ParserErrorV),
    Runtime(RuntimeErrorV),
}

/// The mathematical value of an error.
pub struct ErrorV {
    pub span: Span,
    pub kind: ErrorKindV,
}

impl View for LexerError {
    type V = LexerErrorV;

    open spec fn view(&self) -> LexerErrorV {
        match self {
            LexerError::UnknownSymbol(s) => LexerErrorV::UnknownSymbol(s@),
            LexerError::MalformedNumber(s) => LexerErrorV::MalformedNumber(s@),
            LexerError::UnterminatedString(s) => LexerErrorV::UnterminatedString(s@),
        }
    }
}

impl View for ParserError {
    type V = ParserErrorV;

    open spec fn view(&self) -> ParserErrorV {
        match self {
            ParserError::UnexpectedToken { found, expected } => ParserErrorV::UnexpectedToken {
                found: found@,
                expected: expected@,
            },
            ParserError::UnexpectedEndOfFile { expected } => ParserErrorV::UnexpectedEndOfFile {
                expected: expected@,
            },
            ParserError::UnmatchedClosingParenthesis { paren } => {
                ParserErrorV::UnmatchedClosingParenthesis { paren: paren@ }
            },
            ParserError::InvalidUnaryOperator(op) => ParserErrorV::InvalidUnaryOperator(*op),
            ParserError::InvalidAssignmentTarget { found } => {
                ParserErrorV::InvalidAssignmentTarget { found: view_ast(*found) }
            },
        }
    }
}

impl View for RuntimeError {
    type V = RuntimeErrorV;

    open spec fn view(&self) -> RuntimeErrorV {
        match self {
            RuntimeError::InvalidBinaryOperation { lhs, operator, rhs } => {
                RuntimeErrorV::InvalidBinaryOperation {
                    lhs: lhs@,
                    operator: *operator,
                    rhs: rhs@,
                }
            },
            RuntimeError::InvalidUnaryOperation { operand, operator } => {
                RuntimeErrorV::InvalidUnaryOperation { operand: operand@, operator: *operator }
            },
            RuntimeError::DivisionByZero => RuntimeErrorV::DivisionByZero,
            RuntimeError::UndefinedVariable { name } => RuntimeErrorV::UndefinedVariable {
                name: name@,
            },
            RuntimeError::BreakOutsideLoop => RuntimeErrorV::BreakOutsideLoop,
            RuntimeError::ContinueOutsideLoop => RuntimeErrorV::ContinueOutsideLoop,
            RuntimeError::LoopLimit => RuntimeErrorV::LoopLimit,
        }
    }
}

impl View for ErrorKind {
    type V = ErrorKindV;

    open spec fn view(&self) -> ErrorKindV {
        match self {
            ErrorKind::Lexer(e) => ErrorKindV::Lexer(e@),
            ErrorKind::Parser(e) => ErrorKindV::Parser(e@),
            ErrorKind::Runtime(e) => ErrorKindV::Runtime(e@),
        }
    }
}

impl View for Error {
    type V = ErrorV;

    open spec fn view(&self) -> ErrorV {
        ErrorV { span: self.span, kind: self.kind@ }
    }
}

} // verus!
