//! The abstract syntax tree: statements and expressions as the parser
//! builds them, each node carrying the span of source text it covers.

use vstd::prelude::*;

use crate::decimal::Decimal;
use crate::span::Span;
use crate::token::{Operator, UnaryOperator};

verus! {

/// A node in the abstract syntax tree.
#[derive(Debug, PartialEq)]
pub struct AstNode {
    /// The kind of the node.
    pub kind: AstNodeKind,
    /// The span of the node.
    pub span: Span,
}

/// The kind of a node in the abstract syntax tree.
#[derive(Debug, PartialEq)]
pub enum AstNodeKind {
    /// A binary operation, such as `1 + 2`.
    BinaryExpression {
        /// The left hand side of the operation.
        lhs: Box<AstNode>,
        /// The operator.
        op: Operator,
        /// The right hand side of the operation.
        rhs: Box<AstNode>,
    },
    /// A unary operation, such as `-1`.
    UnaryExpression { op: UnaryOperator, expr: Box<AstNode> },
    /// A block of statements, such as `{ 1 + 1 }`.
    Block { expressions: Vec<AstNode> },
    /// An integer literal.
    IntegerLiteral(i64),
    /// A decimal literal, such as `2.5`.
    FloatLiteral(Decimal),
    /// A string literal, such as `"hello"`.
    StringLiteral(String),
    /// A boolean literal, written `true` or `false`.
    BooleanLiteral(bool),
    /// A reference to a variable, such as `x`.
    VariableReference(String),
    /// No operation: an empty statement.
    NoOp,
    /// An assignment, such as `x = 1`, or a declaration `let x = 1`.
    Assignment {
        /// The name of the variable being assigned to.
        name: String,
        /// The value being assigned.
        value: Box<AstNode>,
        /// Whether the assignment declares the variable (`let`).
        declaration: bool,
    },
    /// An `if` statement; the else branch is optional.
    If {
        condition: Box<AstNode>,
        body: Box<AstNode>,
        else_branch: Option<Box<AstNode>>,
    },
    /// An `else` branch, wrapping either a block or a further `if`.
    Else { body: Box<AstNode> },
    /// A `print` statement.
    Print { expression: Box<AstNode> },
    /// A `while` loop.
    While { condition: Box<AstNode>, body: Box<AstNode> },
    /// A `continue` statement.
    Continue,
    /// A `break` statement.
    Break,
    /// A function definition statement.
    FunctionDefinition { params: Vec<String>, body: Box<AstNode>, name: String },
}

/// The mathematical value of a syntax tree node.
pub struct AstV {
    pub kind: AstKindV,
    pub span: Span,
}

/// The mathematical value of a node's kind: text payloads become
/// character sequences and children become their values.
pub enum AstKindV {
    BinaryExpression { lhs: Box<AstV>, op: Operator, rhs: Box<AstV> },
    UnaryExpression { op: UnaryOperator, expr: Box<AstV> },
    Block { expressions: Seq<AstV> },
    IntegerLiteral(i64),
    FloatLiteral(Decimal),
    StringLiteral(Seq<char>),
    BooleanLiteral(bool),
    VariableReference(Seq<char>),
    NoOp,
    Assignment { name: Seq<char>, value: Box<AstV>, declaration: bool },
    If { condition: Box<AstV>, body: Box<AstV>, else_branch: Option<Box<AstV>> },
    Else { body: Box<AstV> },
    Print { expression: Box<AstV> },
    While { condition: Box<AstV>, body: Box<AstV> },
    Continue,
    Break,
    FunctionDefinition { params: Seq<Seq<char>>, body: Box<AstV>, name: Seq<char> },
}

/// The value of a syntax tree node.
pub open spec fn view_ast(n: AstNode) -> AstV
    decreases n,
{
    AstV { kind: view_ast_kind(n.kind), span: n.span }
}

/// The value of a node kind.
pub open spec fn view_ast_kind(k: AstNodeKind) -> AstKindV
    decreases k,
{
    match k {
        AstNodeKind::BinaryExpression { lhs, op, rhs } => AstKindV::BinaryExpression {
            lhs: Box::new(view_ast(*lhs)),
            op,
            rhs: Box::new(view_ast(*rhs)),
        },
        AstNodeKind::UnaryExpression { op, expr } => AstKindV::UnaryExpression {
            op,
            expr: Box::new(view_ast(*expr)),
        },
        AstNodeKind::Block { expressions } => AstKindV::Block {
            expressions: view_ast_seq(expressions@),
        },
        AstNodeKind::IntegerLiteral(n) => AstKindV::IntegerLiteral(n),
        AstNodeKind::FloatLiteral(d) => AstKindV::FloatLiteral(d),
        AstNodeKind::StringLiteral(s) => AstKindV::StringLiteral(s@),
        AstNodeKind::BooleanLiteral(b) => AstKindV::BooleanLiteral(b),
        AstNodeKind::VariableReference(s) => AstKindV::VariableReference(s@),
        AstNodeKind::NoOp => AstKindV::NoOp,
        AstNodeKind::Assignment { name, value, declaration } => AstKindV::Assignment {
            name: name@,
            value: Box::new(view_ast(*value)),
            declaration,
        },
        AstNodeKind::If { condition, body, else_branch } => AstKindV::If {
            condition: Box::new(view_ast(*condition)),
            body: Box::new(view_ast(*body)),
            else_branch: match else_branch {
                Some(e) => Some(Box::new(view_ast(*e))),
                None => None,
            },
        },
        AstNodeKind::Else { body } => AstKindV::Else { body: Box::new(view_ast(*body)) },
        AstNodeKind::Print { expression } => AstKindV::Print {
            expression: Box::new(view_ast(*expression)),
        },
        AstNodeKind::While { condition, body } => AstKindV::While {
            condition: Box::new(view_ast(*condition)),
            body: Box::new(view_ast(*body)),
        },
        AstNodeKind::Continue => AstKindV::Continue,
        AstNodeKind::Break => AstKindV::Break,
        AstNodeKind::FunctionDefinition { params, body, name } => AstKindV::FunctionDefinition {
            params: params@.map_values(|p: String| p@),
            body: Box::new(view_ast(*body)),
            name: name@,
        },
    }
}

/// The values of a sequence of nodes, in order.
pub open spec fn view_ast_seq(s: Seq<AstNode>) -> Seq<AstV>
    decreases s,
{
    if s.len() == 0 {
        Seq::empty()
    } else {
        seq![view_ast(s[0])] + view_ast_seq(s.drop_first())
    }
}

impl View for AstNode {
    type V = AstV;

    open spec fn view(&self) -> AstV {
        view_ast(*self)
    }
}

/// A sequence's node values have the sequence's length, and each position
/// holds the value of the node at that position.
pub proof fn lemma_view_ast_seq(s: Seq<AstNode>)
    ensures
        view_ast_seq(s).len() == s.len(),
        forall|i: int| 0 <= i < s.len() ==> view_ast_seq(s)[i] == view_ast(s[i]),
    decreases s,
{
    if s.len() > 0 {
        lemma_view_ast_seq(s.drop_first());
    }
}

impl AstNode {
    /// Create a new node with the given kind and span.
    pub fn new(kind: AstNodeKind, span: Span) -> (r: AstNode)
        ensures
            r@.kind == view_ast_kind(kind),
            r@.span == span,
    {
        AstNode { kind, span }
    }

    /// An owned copy of the subtree, with the same value.
    #[verifier::loop_isolation(false)]
    pub fn deep_clone(&self) -> (r: AstNode)
        ensures
            r@ == self@,
        decreases *self,
    {
        let kind = match &self.kind {
            AstNodeKind::BinaryExpression { lhs, op, rhs } => AstNodeKind::BinaryExpression {
                lhs: Box::new(lhs.deep_clone()),
                op: *op,
                rhs: Box::new(rhs.deep_clone()),
            },
            AstNodeKind::UnaryExpression { op, expr } => AstNodeKind::UnaryExpression {
                op: *op,
                expr: Box::new(expr.deep_clone()),
            },
            AstNodeKind::Block { expressions } => {
                let mut copies: Vec<AstNode> = Vec::new();
                let mut i: usize = 0;
                while i < expressions.len()
                    invariant
                        i <= expressions@.len(),
                        copies@.len() == i,
                        forall|j: int| 0 <= j < i ==> copies@[j]@ == expressions@[j]@,
                    decreases expressions@.len() - i,
                {
                    copies.push(expressions[i].deep_clone());
                    i += 1;
                }
                proof {
                    lemma_view_ast_seq(copies@);
                    lemma_view_ast_seq(expressions@);
                    assert(view_ast_seq(copies@) =~= view_ast_seq(expressions@));
                }
                AstNodeKind::Block { expressions: copies }
            },
            AstNodeKind::IntegerLiteral(n) => AstNodeKind::IntegerLiteral(*n),
            AstNodeKind::FloatLiteral(d) => AstNodeKind::FloatLiteral(*d),
            AstNodeKind::StringLiteral(s) => AstNodeKind::StringLiteral(s.clone()),
            AstNodeKind::BooleanLiteral(b) => AstNodeKind::BooleanLiteral(*b),
            AstNodeKind::VariableReference(s) => AstNodeKind::VariableReference(s.clone()),
            AstNodeKind::NoOp => AstNodeKind::NoOp,
            AstNodeKind::Assignment { name, value, declaration } => AstNodeKind::Assignment {
                name: name.clone(),
                value: Box::new(value.deep_clone()),
                declaration: *declaration,
            },
            AstNodeKind::If { condition, body, else_branch } => AstNodeKind::If {
                condition: Box::new(condition.deep_clone()),
                body: Box::new(body.deep_clone()),
                else_branch: match else_branch {
                    Some(e) => Some(Box::new(e.deep_clone())),
                    None => None,
                },
            },
            AstNodeKind::Else { body } => AstNodeKind::Else { body: Box::new(body.deep_clone()) },
            AstNodeKind::Print { expression } => AstNodeKind::Print {
                expression: Box::new(expression.deep_clone()),
            },
            AstNodeKind::While { condition, body } => AstNodeKind::While {
                condition: Box::new(condition.deep_clone()),
                body: Box::new(body.deep_clone()),
            },
            AstNodeKind::Continue => AstNodeKind::Continue,
            AstNodeKind::Break => AstNodeKind::Break,
            AstNodeKind::FunctionDefinition { params, body, name } => {
                let mut ps: Vec<String> = Vec::new();
                let mut i: usize = 0;
                while i < params.len()
                    invariant
                        i <= params@.len(),
                        ps@.len() == i,
                        forall|j: int| 0 <= j < i ==> ps@[j]@ == params@[j]@,
                    decreases params@.len() - i,
                {
                    ps.push(params[i].clone());
                    i += 1;
                }
                proof {
                    assert(ps@.map_values(|p: String| p@) =~= params@.map_values(
                        |p: String| p@,
                    ));
                }
                AstNodeKind::FunctionDefinition {
                    params: ps,
                    body: Box::new(body.deep_clone()),
                    name: name.clone(),
                }
            },
        };
        AstNode { kind, span: self.span }
    }
}

} // verus!
