//! Tokens: classified lexemes with their source spans, together with the
//! operator, keyword, parenthesis and command tables that classification
//! relies on.

use vstd::prelude::*;

use crate::decimal::Decimal;
use crate::span::Span;

verus! {

/// A keyword in the source code.
#[derive(Debug, Clone, Copy, PartialEq, Eq, Structural)]
pub enum Keyword {
    /// The `true` literal.
    True,
    /// The `false` literal.
    False,
    /// Variable declaration, as in `let x = 1`.
    Let,
    /// An `if` statement.
    If,
    /// An `else` branch.
    Else,
    /// A `print` statement.
    Print,
    /// A `while` loop.
    While,
    /// A function definition, introduced by `fn`.
    Function,
    /// A `break` statement.
    Break,
    /// A `continue` statement.
    Continue,
}

/// An operator in the source code.
#[derive(Debug, Clone, Copy, PartialEq, Eq, Structural)]
pub enum Operator {
    /// The plus operator (`+`).
    Plus,
    /// The minus operator (`-`).
    Minus,
    /// The multiplication operator (`*`).
    Multiply,
    /// The division operator (`/`).
    Divide,
    /// The assignment operator (`=`).
    Assign,
    /// The equals operator (`==`).
    Equals,
    /// The not equals operator (`!=`).
    NotEquals,
    /// The less than operator (`<`).
    LessThan,
    /// The less than or equals operator (`<=`).
    LessThanEquals,
    /// The greater than operator (`>`).
    GreaterThan,
    /// The greater than or equals operator (`>=`).
    GreaterThanEquals,
    /// The and operator (`&&`).
    And,
    /// The or operator (`||`).
    Or,
    /// The not operator, also called "bang" (`!`).
    Not,
}

/// A unary operator on an operand.
///
/// These are not generated during tokenization; they are only constructed
/// during parsing, from the subset of operators that may stand before an
/// operand.
#[derive(Debug, Clone, Copy, PartialEq, Eq, Structural)]
pub enum UnaryOperator {
    /// The plus unary operator (`+`).
    Plus,
    /// The minus unary operator (`-`).
    Minus,
    /// The not unary operator (`!`).
    Not,
}

/// A kind of parenthesis.
#[derive(Debug, Clone, Copy, PartialEq, Eq, Structural)]
pub enum ParenthesisKind {
    /// A round parenthesis (`(`, `)`).
    Round,
    /// A curly brace (`{`, `}`).
    Curly,
}

/// Whether a parenthesis is an opening or closing parenthesis.
#[derive(Debug, Clone, Copy, PartialEq, Eq, Structural)]
pub enum Opening {
    /// An opening parenthesis.
    Open,
    /// A closing parenthesis.
    Close,
}

/// A type of parenthesis in the source code, tagged with its shape and with
/// whether it opens or closes a group.
#[derive(Debug, Clone, Copy, PartialEq, Eq, Structural)]
pub struct Parenthesis {
    /// The kind of parenthesis.
    pub kind: ParenthesisKind,
    /// Whether the parenthesis is an opening or closing parenthesis.
    pub opening: Opening,
}

/// A command given to the surrounding read-eval-print loop, written as `#`
/// followed by the command's name.  Commands are recognized here; acting on
/// them is the front end's business.
#[derive(Debug, Clone, Copy, PartialEq, Eq, Structural)]
pub enum CommandType {
    Quit,
    Help,
    Version,
    Licence,
}

/// The kind of a token.
#[derive(Debug, Clone, PartialEq)]
pub enum TokenKind {
    /// An integer literal.
    Integer(i64),
    /// A decimal (floating point style) literal.
    Float(Decimal),
    /// A string literal; the payload is the text between the quotes.
    Str(String),
    /// An identifier.
    Identifier(String),
    /// Any operator.
    Operator(Operator),
    /// A keyword.
    Keyword(Keyword),
    /// A type of parenthesis.
    Parenthesis(Parenthesis),
    /// A comma.
    Comma,
    /// A statement terminator: a line break or a semicolon.
    Newline,
    /// Any form of blank space other than line breaks.  Only used during
    /// lexing, and discarded from the token stream.
    Whitespace,
}

/// A token within the source code, representing a literal, operator,
/// keyword, punctuation or statement terminator.
#[derive(Debug, Clone, PartialEq)]
pub struct Token {
    pub kind: TokenKind,
    pub span: Span,
}

/// The mathematical value of a token kind: payloads of text are taken to
/// their character sequences.
pub enum TokenKindV {
    Integer(i64),
    Float(Decimal),
    Str(Seq<char>),
    Identifier(Seq<char>),
    Operator(Operator),
    Keyword(Keyword),
    Parenthesis(Parenthesis),
    Comma,
    Newline,
    Whitespace,
}

/// The mathematical value of a token: its kind's value plus its span.
pub struct TokenV {
    pub kind: TokenKindV,
    pub span: Span,
}

impl View for TokenKind {
    type V = TokenKindV;

    open spec fn view(&self) -> TokenKindV {
        match self {
            TokenKind::Integer(n) => TokenKindV::Integer(*n),
            TokenKind::Float(d) => TokenKindV::Float(*d),
            TokenKind::Str(s) => TokenKindV::Str(s@),
            TokenKind::Identifier(s) => TokenKindV::Identifier(s@),
            TokenKind::Operator(op) => TokenKindV::Operator(*op),
            TokenKind::Keyword(k) => TokenKindV::Keyword(*k),
            TokenKind::Parenthesis(p) => TokenKindV::Parenthesis(*p),
            TokenKind::Comma => TokenKindV::Comma,
            TokenKind::Newline => TokenKindV::Newline,
            TokenKind::Whitespace => TokenKindV::Whitespace,
        }
    }
}

impl View for Token {
    type V = TokenV;

    open spec fn view(&self) -> TokenV {
        TokenV { kind: self.kind@, span: self.span }
    }
}

impl Token {
    /// An owned copy of the token, with the same value.
    pub fn duplicate(&self) -> (r: Token)
        ensures
            r@ == self@,
    {
        let kind = match &self.kind {
            TokenKind::Integer(n) => TokenKind::Integer(*n),
            TokenKind::Float(d) => TokenKind::Float(*d),
            TokenKind::Str(s) => TokenKind::Str(s.clone()),
            TokenKind::Identifier(s) => TokenKind::Identifier(s.clone()),
            TokenKind::Operator(op) => TokenKind::Operator(*op),
            TokenKind::Keyword(k) => TokenKind::Keyword(*k),
            TokenKind::Parenthesis(p) => TokenKind::Parenthesis(*p),
            TokenKind::Comma => TokenKind::Comma,
            TokenKind::Newline => TokenKind::Newline,
            TokenKind::Whitespace => TokenKind::Whitespace,
        };
        Token { kind, span: self.span }
    }

    /// Create a new token with a given kind and span.
    pub fn new(kind: TokenKind, span: Span) -> (r: Token)
        ensures
            r@.kind == kind@,
            r@.span == span,
    {
        Token { kind, span }
    }
}

impl Operator {
    /// The operator written as a given character, with one character of
    /// lookahead so that two-character operators win over the
    /// single-character operator they extend.
    pub open spec fn spec_from_chars(a: char, b: Option<char>) -> Option<Operator> {
        if a == '+' {
            Some(Operator::Plus)
        } else if a == '-' {
            Some(Operator::Minus)
        } else if a == '*' {
            Some(Operator::Multiply)
        } else if a == '/' {
            Some(Operator::Divide)
        } else if a == '=' {
            if b == Some('=') {
                Some(Operator::Equals)
            } else {
                Some(Operator::Assign)
            }
        } else if a == '!' {
            if b == Some('=') {
                Some(Operator::NotEquals)
            } else {
                Some(Operator::Not)
            }
        } else if a == '<' {
            if b == Some('=') {
                Some(Operator::LessThanEquals)
            } else {
                Some(Operator::LessThan)
            }
        } else if a == '>' {
            if b == Some('=') {
                Some(Operator::GreaterThanEquals)
            } else {
                Some(Operator::GreaterThan)
            }
        } else if a == '&' && b == Some('&') {
            Some(Operator::And)
        } else if a == '|' && b == Some('|') {
            Some(Operator::Or)
        } else {
            None
        }
    }

    /// Classify the operator starting at character `a`, peeking at the
    /// following character `b`.
    pub fn from_chars(a: char, b: Option<char>) -> (r: Option<Operator>)
        ensures
            r == Operator::spec_from_chars(a, b),
    {
        match (a, b) {
            ('+', _) => Some(Operator::Plus),
            ('-', _) => Some(Operator::Minus),
            ('*', _) => Some(Operator::Multiply),
            ('/', _) => Some(Operator::Divide),
            ('=', Some('=')) => Some(Operator::Equals),
            ('!', Some('=')) => Some(Operator::NotEquals),
            ('<', Some('=')) => Some(Operator::LessThanEquals),
            ('<', _) => Some(Operator::LessThan),
            ('>', Some('=')) => Some(Operator::GreaterThanEquals),
            ('>', _) => Some(Operator::GreaterThan),
            ('&', Some('&')) => Some(Operator::And),
            ('|', Some('|')) => Some(Operator::Or),
            ('!', _) => Some(Operator::Not),
            ('=', _) => Some(Operator::Assign),
            (_, _) => None,
        }
    }

    /// Whether the operator is written with two characters.
    pub open spec fn spec_is_two_char(self) -> bool {
        match self {
            Operator::Equals
            | Operator::NotEquals
            | Operator::LessThanEquals
            | Operator::GreaterThanEquals
            | Operator::And
            | Operator::Or => true,
            _ => false,
        }
    }

    /// Whether the operator is written with two characters.
    pub fn is_two_char(&self) -> (r: bool)
        ensures
            r == self.spec_is_two_char(),
    {
        match self {
            Operator::Equals
            | Operator::NotEquals
            | Operator::LessThanEquals
            | Operator::GreaterThanEquals
            | Operator::And
            | Operator::Or => true,
            _ => false,
        }
    }

    /// The operator carried by a token kind, if it carries one.
    pub fn from_token_kind(kind: &TokenKind) -> (r: Option<Operator>)
        ensures
            r == (match kind@ {
                TokenKindV::Operator(op) => Some(op),
                _ => None::<Operator>,
            }),
    {
        match kind {
            TokenKind::Operator(op) => Some(*op),
            _ => None,
        }
    }
}

impl UnaryOperator {
    /// The unary form of an operator, for the operators that may stand
    /// before an operand.
    pub open spec fn spec_from_operator(op: Operator) -> Option<UnaryOperator> {
        match op {
            Operator::Plus => Some(UnaryOperator::Plus),
            Operator::Minus => Some(UnaryOperator::Minus),
            Operator::Not => Some(UnaryOperator::Not),
            _ => None,
        }
    }

    /// The unary form of an operator, if it has one.
    pub fn from_operator(op: Operator) -> (r: Option<UnaryOperator>)
        ensures
            r == UnaryOperator::spec_from_operator(op),
    {
        match op {
            Operator::Plus => Some(UnaryOperator::Plus),
            Operator::Minus => Some(UnaryOperator::Minus),
            Operator::Not => Some(UnaryOperator::Not),
            _ => None,
        }
    }
}

impl Parenthesis {
    /// The parenthesis written as a given character.
    pub open spec fn spec_from_char(c: char) -> Option<Parenthesis> {
        if c == '(' {
            Some(Parenthesis { kind: ParenthesisKind::Round, opening: Opening::Open })
        } else if c == ')' {
            Some(Parenthesis { kind: ParenthesisKind::Round, opening: Opening::Close })
        } else if c == '{' {
            Some(Parenthesis { kind: ParenthesisKind::Curly, opening: Opening::Open })
        } else if c == '}' {
            Some(Parenthesis { kind: ParenthesisKind::Curly, opening: Opening::Close })
        } else {
            None
        }
    }

    /// Classify a parenthesis or brace character.
    pub fn from_char(c: char) -> (r: Option<Parenthesis>)
        ensures
            r == Parenthesis::spec_from_char(c),
    {
        match c {
            '(' => Some(Parenthesis { kind: ParenthesisKind::Round, opening: Opening::Open }),
            ')' => Some(Parenthesis { kind: ParenthesisKind::Round, opening: Opening::Close }),
            '{' => Some(Parenthesis { kind: ParenthesisKind::Curly, opening: Opening::Open }),
            '}' => Some(Parenthesis { kind: ParenthesisKind::Curly, opening: Opening::Close }),
            _ => None,
        }
    }

    /// Whether the character opens a group.
    pub fn is_opening(c: char) -> (r: bool)
        ensures
            r == (c == '(' || c == '{'),
    {
        c == '(' || c == '{'
    }
}

/// Whether a character may begin an operator.
pub open spec fn spec_is_operator_start(c: char) -> bool {
    c == '=' || c == '!' || c == '<' || c == '>' || c == '+' || c == '-' || c == '*' || c == '/'
        || c == '&' || c == '|'
}

/// Character classification used by the tokenizer's dispatch.
pub trait TokenExt {
    /// What `is_operator_start` decides, as a predicate.
    spec fn operator_start(&self) -> bool;

    /// What `is_parenthesis` decides, as a predicate.
    spec fn parenthesis(&self) -> bool;

    /// Whether the character may begin an operator.
    fn is_operator_start(&self) -> (r: bool)
        ensures
            r == self.operator_start(),
    ;

    /// Whether the character is a parenthesis or brace.
    fn is_parenthesis(&self) -> (r: bool)
        ensures
            r == self.parenthesis(),
    ;
}

impl TokenExt for char {
    open spec fn operator_start(&self) -> bool {
        spec_is_operator_start(*self)
    }

    open spec fn parenthesis(&self) -> bool {
        Parenthesis::spec_from_char(*self) is Some
    }

    fn is_operator_start(&self) -> (r: bool) {
        let c = *self;
        c == '=' || c == '!' || c == '<' || c == '>' || c == '+' || c == '-' || c == '*'
            || c == '/' || c == '&' || c == '|'
    }

    fn is_parenthesis(&self) -> (r: bool) {
        let c = *self;
        c == '(' || c == ')' || c == '{' || c == '}'
    }
}

/// Whether two string slices hold the same characters.
pub fn str_eq(a: &str, b: &str) -> (r: bool)
    ensures
        r == (a@ == b@),
{
    let n = a.unicode_len();
    if n != b.unicode_len() {
        proof {
            assert(a@ != b@) by {
                if a@ == b@ {
                    assert(a@.len() == b@.len());
                }
            }
        }
        return false;
    }
    let mut i: usize = 0;
    while i < n
        invariant
            n == a@.len(),
            n == b@.len(),
            i <= n,
            forall|j: int| 0 <= j < i ==> a@[j] == b@[j],
        decreases n - i,
    {
        if a.get_char(i) != b.get_char(i) {
            return false;
        }
        i += 1;
    }
    proof {
        assert(a@ =~= b@);
    }
    true
}

impl Keyword {
    /// The keyword written as a given identifier, if any.
    pub open spec fn spec_from_ident(s: Seq<char>) -> Option<Keyword> {
        if s == "true"@ {
            Some(Keyword::True)
        } else if s == "false"@ {
            Some(Keyword::False)
        } else if s == "let"@ {
            Some(Keyword::Let)
        } else if s == "if"@ {
            Some(Keyword::If)
        } else if s == "else"@ {
            Some(Keyword::Else)
        } else if s == "print"@ {
            Some(Keyword::Print)
        } else if s == "while"@ {
            Some(Keyword::While)
        } else if s == "fn"@ {
            Some(Keyword::Function)
        } else if s == "break"@ {
            Some(Keyword::Break)
        } else if s == "continue"@ {
            Some(Keyword::Continue)
        } else {
            None
        }
    }

    /// Look an identifier up in the keyword table; a keyword match wins
    /// over an identifier.
    pub fn from_ident(ident: &str) -> (r: Option<Keyword>)
        ensures
            r == Keyword::spec_from_ident(ident@),
    {
        if str_eq(ident, "true") {
            Some(Keyword::True)
        } else if str_eq(ident, "false") {
            Some(Keyword::False)
        } else if str_eq(ident, "let") {
            Some(Keyword::Let)
        } else if str_eq(ident, "if") {
            Some(Keyword::If)
        } else if str_eq(ident, "else") {
            Some(Keyword::Else)
        } else if str_eq(ident, "print") {
            Some(Keyword::Print)
        } else if str_eq(ident, "while") {
            Some(Keyword::While)
        } else if str_eq(ident, "fn") {
            Some(Keyword::Function)
        } else if str_eq(ident, "break") {
            Some(Keyword::Break)
        } else if str_eq(ident, "continue") {
            Some(Keyword::Continue)
        } else {
            None
        }
    }
}

impl CommandType {
    /// The read-eval-print-loop command written with a given name, if any.
    pub open spec fn spec_get_command(s: Seq<char>) -> Option<CommandType> {
        if s == "quit"@ || s == "q"@ {
            Some(CommandType::Quit)
        } else if s == "help"@ || s == "h"@ {
            Some(CommandType::Help)
        } else if s == "version"@ || s == "v"@ {
            Some(CommandType::Version)
        } else if s == "licence"@ || s == "license"@ || s == "l"@ {
            Some(CommandType::Licence)
        } else {
            None
        }
    }

    /// Look a command name up in the command table.
    pub fn get_command(lexeme: &str) -> (r: Option<CommandType>)
        ensures
            r == CommandType::spec_get_command(lexeme@),
    {
        if str_eq(lexeme, "quit") || str_eq(lexeme, "q") {
            Some(CommandType::Quit)
        } else if str_eq(lexeme, "help") || str_eq(lexeme, "h") {
            Some(CommandType::Help)
        } else if str_eq(lexeme, "version") || str_eq(lexeme, "v") {
            Some(CommandType::Version)
        } else if str_eq(lexeme, "licence") || str_eq(lexeme, "license") || str_eq(lexeme, "l") {
            Some(CommandType::Licence)
        } else {
            None
        }
    }
}

} // verus!
