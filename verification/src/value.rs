//! Runtime values: what evaluation produces, together with the operator
//! tables saying which operand kinds combine under which operators, and
//! the display form of each value.

use vstd::prelude::*;

use crate::ast::{view_ast, AstNode, AstV};
use crate::decimal::{spec_dec_add, spec_dec_div, spec_dec_mul, spec_dec_neg, spec_dec_sub, Decimal};
use crate::error::{Error, ErrorKind, ErrorKindV, ErrorV, RuntimeError, RuntimeErrorV};
use crate::span::Span;
use crate::text::push_char;
use crate::token::Operator;
use crate::token::UnaryOperator;

verus! {

/// A value produced by evaluation, carrying the span it was produced at.
#[derive(Debug, PartialEq)]
pub struct Value {
    pub kind: ValueKind,
    pub span: Span,
}

/// The kind of a value.
#[derive(Debug, PartialEq)]
pub enum ValueKind {
    /// A decimal (floating point style) number.
    Float(Decimal),
    /// An integer.
    Integer(i64),
    /// A boolean.
    Boolean(bool),
    /// A string.
    Str(String),
    /// A function: its name, parameter names, and body.
    Function { name: String, parameters: Vec<String>, body: Box<AstNode> },
    /// Nothing.
    Null,
}

/// The mathematical value of a runtime value's kind.
pub enum ValueKindV {
    Float(Decimal),
    Integer(i64),
    Boolean(bool),
    Str(Seq<char>),
    Function { name: Seq<char>, parameters: Seq<Seq<char>>, body: AstV },
    Null,
}

/// The mathematical value of a runtime value.
pub struct ValueV {
    pub kind: ValueKindV,
    pub span: Span,
}

impl View for ValueKind {
    type V = ValueKindV;

    open spec fn view(&self) -> ValueKindV {
        match self {
            ValueKind::Float(d) => ValueKindV::Float(*d),
            ValueKind::Integer(n) => ValueKindV::Integer(*n),
            ValueKind::Boolean(b) => ValueKindV::Boolean(*b),
            ValueKind::Str(s) => ValueKindV::Str(s@),
            ValueKind::Function { name, parameters, body } => ValueKindV::Function {
                name: name@,
                parameters: parameters@.map_values(|p: String| p@),
                body: view_ast(*(*body)),
            },
            ValueKind::Null => ValueKindV::Null,
        }
    }
}

impl View for Value {
    type V = ValueV;

    open spec fn view(&self) -> ValueV {
        ValueV { kind: self.kind@, span: self.span }
    }
}

/// Whether a value counts as true in a condition: a non-zero number, a
/// non-empty string, the boolean `true` and any function are truthy; null
/// is falsy.
pub open spec fn spec_truthy(k: ValueKindV) -> bool {
    match k {
        ValueKindV::Float(d) => d.scaled != 0,
        ValueKindV::Integer(n) => n != 0,
        ValueKindV::Boolean(b) => b,
        ValueKindV::Str(s) => s.len() > 0,
        ValueKindV::Function { .. } => true,
        ValueKindV::Null => false,
    }
}

/// A string repeated a number of times.
pub open spec fn seq_repeat(s: Seq<char>, n: int) -> Seq<char>
    decreases n,
{
    if n <= 0 {
        Seq::empty()
    } else {
        seq_repeat(s, n - 1) + s
    }
}

/// What a binary operator yields on two operand kinds: a result kind, a
/// division by zero, or no registered combination.
pub enum BinaryOutcome {
    Value(ValueKindV),
    DivisionByZero,
    Unregistered,
}

/// The operator table for the eager binary operators.
///
/// Numbers combine with numbers of the same kind; `+` concatenates two
/// strings; `*` repeats a string by an integer; `==` compares numbers and
/// booleans.  Integer arithmetic wraps; decimal arithmetic saturates.
/// Division checks for a zero divisor first.
pub open spec fn spec_binary_op(op: Operator, l: ValueKindV, r: ValueKindV) -> BinaryOutcome {
    match op {
        Operator::Plus => match (l, r) {
            (ValueKindV::Integer(a), ValueKindV::Integer(b)) => BinaryOutcome::Value(
                ValueKindV::Integer(vstd::wrapping::i64_specs::wrapping_add(a, b)),
            ),
            (ValueKindV::Float(a), ValueKindV::Float(b)) => BinaryOutcome::Value(
                ValueKindV::Float(
                    Decimal { scaled: spec_dec_add(a.scaled as int, b.scaled as int) as i64 },
                ),
            ),
            (ValueKindV::Str(a), ValueKindV::Str(b)) => BinaryOutcome::Value(
                ValueKindV::Str(a + b),
            ),
            _ => BinaryOutcome::Unregistered,
        },
        Operator::Minus => match (l, r) {
            (ValueKindV::Integer(a), ValueKindV::Integer(b)) => BinaryOutcome::Value(
                ValueKindV::Integer(vstd::wrapping::i64_specs::wrapping_sub(a, b)),
            ),
            (ValueKindV::Float(a), ValueKindV::Float(b)) => BinaryOutcome::Value(
                ValueKindV::Float(
                    Decimal { scaled: spec_dec_sub(a.scaled as int, b.scaled as int) as i64 },
                ),
            ),
            _ => BinaryOutcome::Unregistered,
        },
        Operator::Multiply => match (l, r) {
            (ValueKindV::Integer(a), ValueKindV::Integer(b)) => BinaryOutcome::Value(
                ValueKindV::Integer(vstd::wrapping::i64_specs::wrapping_mul(a, b)),
            ),
            (ValueKindV::Float(a), ValueKindV::Float(b)) => BinaryOutcome::Value(
                ValueKindV::Float(
                    Decimal { scaled: spec_dec_mul(a.scaled as int, b.scaled as int) as i64 },
                ),
            ),
            (ValueKindV::Str(a), ValueKindV::Integer(b)) => BinaryOutcome::Value(
                ValueKindV::Str(seq_repeat(a, b as int)),
            ),
            _ => BinaryOutcome::Unregistered,
        },
        Operator::Divide => match (l, r) {
            (ValueKindV::Integer(a), ValueKindV::Integer(b)) => {
                if b == 0 {
                    BinaryOutcome::DivisionByZero
                } else if b == 1 {
                    BinaryOutcome::Value(ValueKindV::Integer(a))
                } else if b == -1 {
                    BinaryOutcome::Value(
                        ValueKindV::Integer(
                            if a == i64::MIN {
                                i64::MIN
                            } else {
                                (-a) as i64
                            },
                        ),
                    )
                } else {
                    let q = (if a >= 0 {
                        a as int
                    } else {
                        -(a as int)
                    }) / (if b >= 0 {
                        b as int
                    } else {
                        -(b as int)
                    });
                    BinaryOutcome::Value(
                        ValueKindV::Integer(
                            if (a >= 0) == (b >= 0) {
                                q as i64
                            } else {
                                (-q) as i64
                            },
                        ),
                    )
                }
            },
            (ValueKindV::Float(a), ValueKindV::Float(b)) => {
                if b.scaled == 0 {
                    BinaryOutcome::DivisionByZero
                } else {
                    BinaryOutcome::Value(
                        ValueKindV::Float(
                            Decimal {
                                scaled: spec_dec_div(a.scaled as int, b.scaled as int) as i64,
                            },
                        ),
                    )
                }
            },
            _ => BinaryOutcome::Unregistered,
        },
        Operator::LessThan => spec_compare(l, r, |a: int, b: int| a < b),
        Operator::LessThanEquals => spec_compare(l, r, |a: int, b: int| a <= b),
        Operator::GreaterThan => spec_compare(l, r, |a: int, b: int| a > b),
        Operator::GreaterThanEquals => spec_compare(l, r, |a: int, b: int| a >= b),
        Operator::Equals => match (l, r) {
            (ValueKindV::Integer(a), ValueKindV::Integer(b)) => BinaryOutcome::Value(
                ValueKindV::Boolean(a == b),
            ),
            (ValueKindV::Float(a), ValueKindV::Float(b)) => BinaryOutcome::Value(
                ValueKindV::Boolean(a.scaled == b.scaled),
            ),
            (ValueKindV::Boolean(a), ValueKindV::Boolean(b)) => BinaryOutcome::Value(
                ValueKindV::Boolean(a == b),
            ),
            _ => BinaryOutcome::Unregistered,
        },
        Operator::NotEquals => match (l, r) {
            (ValueKindV::Integer(a), ValueKindV::Integer(b)) => BinaryOutcome::Value(
                ValueKindV::Boolean(!(a == b)),
            ),
            (ValueKindV::Float(a), ValueKindV::Float(b)) => BinaryOutcome::Value(
                ValueKindV::Boolean(!(a.scaled == b.scaled)),
            ),
            (ValueKindV::Boolean(a), ValueKindV::Boolean(b)) => BinaryOutcome::Value(
                ValueKindV::Boolean(!(a == b)),
            ),
            _ => BinaryOutcome::Unregistered,
        },
        _ => BinaryOutcome::Unregistered,
    }
}

/// Numeric comparison under a given relation on mathematical values.
pub open spec fn spec_compare(
    l: ValueKindV,
    r: ValueKindV,
    rel: spec_fn(int, int) -> bool,
) -> BinaryOutcome {
    match (l, r) {
        (ValueKindV::Integer(a), ValueKindV::Integer(b)) => BinaryOutcome::Value(
            ValueKindV::Boolean(rel(a as int, b as int)),
        ),
        (ValueKindV::Float(a), ValueKindV::Float(b)) => BinaryOutcome::Value(
            ValueKindV::Boolean(rel(a.scaled as int, b.scaled as int)),
        ),
        _ => BinaryOutcome::Unregistered,
    }
}

/// The error or value a binary operator method returns, given the outcome
/// the operator table assigns to its operands.
pub open spec fn spec_binary_value(
    op: Operator,
    l: ValueV,
    r: ValueV,
) -> Result<ValueV, ErrorV> {
    let span = Span { start: l.span.start, end: r.span.end, source: l.span.source };
    match spec_binary_op(op, l.kind, r.kind) {
        BinaryOutcome::Value(k) => Ok(ValueV { kind: k, span }),
        BinaryOutcome::DivisionByZero => Err(
            ErrorV { span, kind: ErrorKindV::Runtime(RuntimeErrorV::DivisionByZero) },
        ),
        BinaryOutcome::Unregistered => Err(
            ErrorV {
                span,
                kind: ErrorKindV::Runtime(
                    RuntimeErrorV::InvalidBinaryOperation { lhs: l.kind, operator: op, rhs: r.kind },
                ),
            },
        ),
    }
}

impl Value {
    /// Create a new value.
    pub fn new(kind: ValueKind, span: Span) -> (r: Value)
        ensures
            r@.kind == kind@,
            r@.span == span,
    {
        Value { kind, span }
    }

    /// An owned copy of the value, with the same mathematical value.
    pub fn deep_clone(&self) -> (r: Value)
        ensures
            r@ == self@,
    {
        let kind = match &self.kind {
            ValueKind::Float(d) => ValueKind::Float(*d),
            ValueKind::Integer(n) => ValueKind::Integer(*n),
            ValueKind::Boolean(b) => ValueKind::Boolean(*b),
            ValueKind::Str(s) => ValueKind::Str(s.clone()),
            ValueKind::Function { name, parameters, body } => {
                let mut ps: Vec<String> = Vec::new();
                let mut i: usize = 0;
                while i < parameters.len()
                    invariant
                        i <= parameters@.len(),
                        ps@.len() == i,
                        forall|j: int| 0 <= j < i ==> ps@[j]@ == parameters@[j]@,
                    decreases parameters@.len() - i,
                {
                    ps.push(parameters[i].clone());
                    i += 1;
                }
                proof {
                    assert(ps@.map_values(|p: String| p@) =~= parameters@.map_values(
                        |p: String| p@,
                    ));
                }
                ValueKind::Function {
                    name: name.clone(),
                    parameters: ps,
                    body: Box::new(body.deep_clone()),
                }
            },
            ValueKind::Null => ValueKind::Null,
        };
        Value { kind, span: self.span }
    }

    /// Whether the value counts as true in a condition.
    pub fn is_truthy(&self) -> (r: bool)
        ensures
            r == spec_truthy(self@.kind),
    {
        match &self.kind {
            ValueKind::Float(d) => !d.is_zero(),
            ValueKind::Integer(n) => *n != 0,
            ValueKind::Boolean(b) => *b,
            ValueKind::Str(s) => s.as_str().unicode_len() != 0,
            ValueKind::Function { .. } => true,
            ValueKind::Null => false,
        }
    }

    /// Apply an eager binary operator to this value and another, per the
    /// operator table.
    pub fn binary_op(&self, op: Operator, other: &Value) -> (r: Result<Value, Error>)
        ensures
            match r {
                Ok(v) => spec_binary_value(op, self@, other@) == Ok::<ValueV, ErrorV>(v@),
                Err(e) => spec_binary_value(op, self@, other@) == Err::<ValueV, ErrorV>(e@),
            },
    {
        let span = Span { start: self.span.start, end: other.span.end, source: self.span.source };
        let kind: ValueKind = match (op, &self.kind, &other.kind) {
            (Operator::Plus, ValueKind::Integer(a), ValueKind::Integer(b)) => ValueKind::Integer(
                a.wrapping_add(*b),
            ),
            (Operator::Plus, ValueKind::Float(a), ValueKind::Float(b)) => ValueKind::Float(
                a.add(*b),
            ),
            (Operator::Plus, ValueKind::Str(a), ValueKind::Str(b)) => {
                let mut s = a.clone();
                s.append(b.as_str());
                ValueKind::Str(s)
            },
            (Operator::Minus, ValueKind::Integer(a), ValueKind::Integer(b)) => ValueKind::Integer(
                a.wrapping_sub(*b),
            ),
            (Operator::Minus, ValueKind::Float(a), ValueKind::Float(b)) => ValueKind::Float(
                a.sub(*b),
            ),
            (Operator::Multiply, ValueKind::Integer(a), ValueKind::Integer(b)) => {
                ValueKind::Integer(a.wrapping_mul(*b))
            },
            (Operator::Multiply, ValueKind::Float(a), ValueKind::Float(b)) => ValueKind::Float(
                a.mul(*b),
            ),
            (Operator::Multiply, ValueKind::Str(a), ValueKind::Integer(b)) => ValueKind::Str(
                repeat_str(a, *b),
            ),
            (Operator::Divide, ValueKind::Integer(a), ValueKind::Integer(b)) => {
                if *b == 0 {
                    return Err(
                        Error {
                            span,
                            kind: ErrorKind::Runtime(RuntimeError::DivisionByZero),
                        },
                    );
                } else if *b == 1 {
                    ValueKind::Integer(*a)
                } else if *b == -1 {
                    ValueKind::Integer(
                        if *a == i64::MIN {
                            i64::MIN
                        } else {
                            -*a
                        },
                    )
                } else {
                    let ua: u64 = if *a >= 0 {
                        *a as u64
                    } else {
                        ((-((*a) as i128)) as u64)
                    };
                    let ub: u64 = if *b >= 0 {
                        *b as u64
                    } else {
                        ((-((*b) as i128)) as u64)
                    };
                    let q: u64 = ua / ub;
                    proof {
                        assert(q <= ua / 2) by (nonlinear_arith)
                            requires
                                ub >= 2,
                                q == ua / ub,
                        ;
                    }
                    ValueKind::Integer(
                        if (*a >= 0) == (*b >= 0) {
                            q as i64
                        } else {
                            -(q as i64)
                        },
                    )
                }
            },
            (Operator::Divide, ValueKind::Float(a), ValueKind::Float(b)) => {
                if b.is_zero() {
                    return Err(
                        Error {
                            span,
                            kind: ErrorKind::Runtime(RuntimeError::DivisionByZero),
                        },
                    );
                } else {
                    ValueKind::Float(a.div(*b))
                }
            },
            (Operator::LessThan, ValueKind::Integer(a), ValueKind::Integer(b)) => {
                ValueKind::Boolean(*a < *b)
            },
            (Operator::LessThan, ValueKind::Float(a), ValueKind::Float(b)) => ValueKind::Boolean(
                a.scaled < b.scaled,
            ),
            (Operator::LessThanEquals, ValueKind::Integer(a), ValueKind::Integer(b)) => {
                ValueKind::Boolean(*a <= *b)
            },
            (Operator::LessThanEquals, ValueKind::Float(a), ValueKind::Float(b)) => {
                ValueKind::Boolean(a.scaled <= b.scaled)
            },
            (Operator::GreaterThan, ValueKind::Integer(a), ValueKind::Integer(b)) => {
                ValueKind::Boolean(*a > *b)
            },
            (Operator::GreaterThan, ValueKind::Float(a), ValueKind::Float(b)) => {
                ValueKind::Boolean(a.scaled > b.scaled)
            },
            (Operator::GreaterThanEquals, ValueKind::Integer(a), ValueKind::Integer(b)) => {
                ValueKind::Boolean(*a >= *b)
            },
            (Operator::GreaterThanEquals, ValueKind::Float(a), ValueKind::Float(b)) => {
                ValueKind::Boolean(a.scaled >= b.scaled)
            },
            (Operator::Equals, ValueKind::Integer(a), ValueKind::Integer(b)) => {
                ValueKind::Boolean(*a == *b)
            },
            (Operator::Equals, ValueKind::Float(a), ValueKind::Float(b)) => ValueKind::Boolean(
                a.scaled == b.scaled,
            ),
            (Operator::Equals, ValueKind::Boolean(a), ValueKind::Boolean(b)) => {
                ValueKind::Boolean(*a == *b)
            },
            (Operator::NotEquals, ValueKind::Integer(a), ValueKind::Integer(b)) => {
                ValueKind::Boolean(!(*a == *b))
            },
            (Operator::NotEquals, ValueKind::Float(a), ValueKind::Float(b)) => {
                ValueKind::Boolean(!(a.scaled == b.scaled))
            },
            (Operator::NotEquals, ValueKind::Boolean(a), ValueKind::Boolean(b)) => {
                ValueKind::Boolean(!(*a == *b))
            },
            _ => {
                return Err(
                    Error {
                        span,
                        kind: ErrorKind::Runtime(
                            RuntimeError::InvalidBinaryOperation {
                                lhs: self.kind.deep_clone_kind(),
                                operator: op,
                                rhs: other.kind.deep_clone_kind(),
                            },
                        ),
                    },
                );
            },
        };
        Ok(Value { kind, span })
    }

    /// The sum of two values, where the operator table registers one.
    pub fn add(&self, other: &Value) -> (r: Result<Value, Error>)
        ensures
            match r {
                Ok(v) => spec_binary_value(Operator::Plus, self@, other@) == Ok::<
                    ValueV,
                    ErrorV,
                >(v@),
                Err(e) => spec_binary_value(Operator::Plus, self@, other@) == Err::<
                    ValueV,
                    ErrorV,
                >(e@),
            },
    {
        self.binary_op(Operator::Plus, other)
    }

    /// The difference of two values, where the operator table registers
    /// one.
    pub fn subtract(&self, other: &Value) -> (r: Result<Value, Error>)
        ensures
            match r {
                Ok(v) => spec_binary_value(Operator::Minus, self@, other@) == Ok::<
                    ValueV,
                    ErrorV,
                >(v@),
                Err(e) => spec_binary_value(Operator::Minus, self@, other@) == Err::<
                    ValueV,
                    ErrorV,
                >(e@),
            },
    {
        self.binary_op(Operator::Minus, other)
    }

    /// The product of two values, where the operator table registers one.
    pub fn multiply(&self, other: &Value) -> (r: Result<Value, Error>)
        ensures
            match r {
                Ok(v) => spec_binary_value(Operator::Multiply, self@, other@) == Ok::<
                    ValueV,
                    ErrorV,
                >(v@),
                Err(e) => spec_binary_value(Operator::Multiply, self@, other@) == Err::<
                    ValueV,
                    ErrorV,
                >(e@),
            },
    {
        self.binary_op(Operator::Multiply, other)
    }

    /// The quotient of two values; dividing by a numeric zero is a
    /// distinct error, checked before the operator table.
    pub fn divide(&self, other: &Value) -> (r: Result<Value, Error>)
        ensures
            match r {
                Ok(v) => spec_binary_value(Operator::Divide, self@, other@) == Ok::<
                    ValueV,
                    ErrorV,
                >(v@),
                Err(e) => spec_binary_value(Operator::Divide, self@, other@) == Err::<
                    ValueV,
                    ErrorV,
                >(e@),
            },
    {
        self.binary_op(Operator::Divide, other)
    }

    /// Whether two values are equal, where the operator table registers
    /// the comparison.
    pub fn equal(&self, other: &Value) -> (r: Result<Value, Error>)
        ensures
            match r {
                Ok(v) => spec_binary_value(Operator::Equals, self@, other@) == Ok::<
                    ValueV,
                    ErrorV,
                >(v@),
                Err(e) => spec_binary_value(Operator::Equals, self@, other@) == Err::<
                    ValueV,
                    ErrorV,
                >(e@),
            },
    {
        self.binary_op(Operator::Equals, other)
    }

    /// Whether two values differ: equality, negated, with the same
    /// registered combinations.
    pub fn not_equal(&self, other: &Value) -> (r: Result<Value, Error>)
        ensures
            match r {
                Ok(v) => match spec_binary_value(Operator::Equals, self@, other@) {
                    Ok(e) => e.kind matches ValueKindV::Boolean(b) && v@.kind
                        == ValueKindV::Boolean(!b) && v@.span == e.span,
                    Err(_) => false,
                },
                Err(e) => spec_binary_value(Operator::Equals, self@, other@) == Err::<
                    ValueV,
                    ErrorV,
                >(e@),
            },
    {
        let span = Span { start: self.span.start, end: other.span.end, source: self.span.source };
        match (&self.kind, &other.kind) {
            (ValueKind::Integer(a), ValueKind::Integer(b)) => Ok(
                Value { kind: ValueKind::Boolean(!(*a == *b)), span },
            ),
            (ValueKind::Float(a), ValueKind::Float(b)) => Ok(
                Value { kind: ValueKind::Boolean(!(a.scaled == b.scaled)), span },
            ),
            (ValueKind::Boolean(a), ValueKind::Boolean(b)) => Ok(
                Value { kind: ValueKind::Boolean(!(*a == *b)), span },
            ),
            _ => Err(
                Error {
                    span,
                    kind: ErrorKind::Runtime(
                        RuntimeError::InvalidBinaryOperation {
                            lhs: self.kind.deep_clone_kind(),
                            operator: Operator::Equals,
                            rhs: other.kind.deep_clone_kind(),
                        },
                    ),
                },
            ),
        }
    }

    /// Logical negation: defined only on booleans; the evaluator's `!`
    /// goes through truthiness instead.
    pub fn not(&self) -> (r: Result<Value, Error>)
        ensures
            match r {
                Ok(v) => self@.kind matches ValueKindV::Boolean(b) && v@.kind
                    == ValueKindV::Boolean(!b) && v@.span == self@.span,
                Err(e) => !(self@.kind is Boolean) && e@ == (ErrorV {
                    span: self@.span,
                    kind: ErrorKindV::Runtime(
                        RuntimeErrorV::InvalidUnaryOperation {
                            operand: self@.kind,
                            operator: UnaryOperator::Not,
                        },
                    ),
                }),
            },
    {
        match &self.kind {
            ValueKind::Boolean(b) => Ok(
                Value { kind: ValueKind::Boolean(!*b), span: self.span },
            ),
            _ => Err(
                Error {
                    span: self.span,
                    kind: ErrorKind::Runtime(
                        RuntimeError::InvalidUnaryOperation {
                            operand: self.kind.deep_clone_kind(),
                            operator: UnaryOperator::Not,
                        },
                    ),
                },
            ),
        }
    }

    /// Arithmetic negation: integers wrap, decimals saturate; any other
    /// operand kind is an invalid unary operation.
    pub fn negate(&self) -> (r: Result<Value, Error>)
        ensures
            match r {
                Ok(v) => v@.span == self@.span && match self@.kind {
                    ValueKindV::Integer(n) => v@.kind == ValueKindV::Integer(
                        if n == i64::MIN {
                            i64::MIN
                        } else {
                            (-n) as i64
                        },
                    ),
                    ValueKindV::Float(d) => v@.kind == ValueKindV::Float(
                        Decimal { scaled: spec_dec_neg(d.scaled as int) as i64 },
                    ),
                    _ => false,
                },
                Err(e) => !(self@.kind is Integer) && !(self@.kind is Float) && e@ == (ErrorV {
                    span: self@.span,
                    kind: ErrorKindV::Runtime(
                        RuntimeErrorV::InvalidUnaryOperation {
                            operand: self@.kind,
                            operator: UnaryOperator::Minus,
                        },
                    ),
                }),
            },
    {
        match &self.kind {
            ValueKind::Integer(n) => {
                let m = if *n == i64::MIN {
                    i64::MIN
                } else {
                    -*n
                };
                Ok(Value { kind: ValueKind::Integer(m), span: self.span })
            },
            ValueKind::Float(d) => Ok(Value { kind: ValueKind::Float(d.neg()), span: self.span }),
            _ => Err(
                Error {
                    span: self.span,
                    kind: ErrorKind::Runtime(
                        RuntimeError::InvalidUnaryOperation {
                            operand: self.kind.deep_clone_kind(),
                            operator: UnaryOperator::Minus,
                        },
                    ),
                },
            ),
        }
    }
}

impl ValueKind {
    /// An owned copy of the kind, with the same mathematical value.
    pub fn deep_clone_kind(&self) -> (r: ValueKind)
        ensures
            r@ == self@,
    {
        match self {
            ValueKind::Float(d) => ValueKind::Float(*d),
            ValueKind::Integer(n) => ValueKind::Integer(*n),
            ValueKind::Boolean(b) => ValueKind::Boolean(*b),
            ValueKind::Str(s) => ValueKind::Str(s.clone()),
            ValueKind::Function { name, parameters, body } => {
                let mut ps: Vec<String> = Vec::new();
                let mut i: usize = 0;
                while i < parameters.len()
                    invariant
                        i <= parameters@.len(),
                        ps@.len() == i,
                        forall|j: int| 0 <= j < i ==> ps@[j]@ == parameters@[j]@,
                    decreases parameters@.len() - i,
                {
                    ps.push(parameters[i].clone());
                    i += 1;
                }
                proof {
                    assert(ps@.map_values(|p: String| p@) =~= parameters@.map_values(
                        |p: String| p@,
                    ));
                }
                ValueKind::Function {
                    name: name.clone(),
                    parameters: ps,
                    body: Box::new(body.deep_clone()),
                }
            },
            ValueKind::Null => ValueKind::Null,
        }
    }

    /// The canonical name of this value kind, as diagnostics use it.
    pub fn name(&self) -> (r: &'static str)
        ensures
            r@ == (match self@ {
                ValueKindV::Float(_) => "float"@,
                ValueKindV::Integer(_) => "integer"@,
                ValueKindV::Boolean(_) => "boolean"@,
                ValueKindV::Str(_) => "string"@,
                ValueKindV::Function { .. } => "function"@,
                ValueKindV::Null => "null"@,
            }),
    {
        match self {
            ValueKind::Float(_) => "float",
            ValueKind::Integer(_) => "integer",
            ValueKind::Boolean(_) => "boolean",
            ValueKind::Str(_) => "string",
            ValueKind::Function { .. } => "function",
            ValueKind::Null => "null",
        }
    }
}

/// Repeat a string a number of times; a negative count yields the empty
/// string.
pub fn repeat_str(s: &String, n: i64) -> (r: String)
    ensures
        r@ == seq_repeat(s@, n as int),
{
    let mut out = String::new();
    if n <= 0 {
        return out;
    }
    let mut i: i64 = 0;
    while i < n
        invariant
            0 <= i <= n,
            out@ == seq_repeat(s@, i as int),
        decreases n - i,
    {
        out.append(s.as_str());
        i += 1;
    }
    out
}


/// The character of a decimal digit.
pub open spec fn digit_char(d: int) -> char {
    if d == 0 {
        '0'
    } else if d == 1 {
        '1'
    } else if d == 2 {
        '2'
    } else if d == 3 {
        '3'
    } else if d == 4 {
        '4'
    } else if d == 5 {
        '5'
    } else if d == 6 {
        '6'
    } else if d == 7 {
        '7'
    } else if d == 8 {
        '8'
    } else {
        '9'
    }
}

/// The decimal digits of a number, most significant first.
pub open spec fn nat_digits(n: int) -> Seq<char>
    decreases n,
{
    if n < 10 {
        seq![digit_char(if n >= 0 {
            n
        } else {
            0
        })]
    } else {
        nat_digits(n / 10).push(digit_char(n % 10))
    }
}

/// The display form of an integer.
pub open spec fn spec_int_display(n: int) -> Seq<char> {
    if n >= 0 {
        nat_digits(n)
    } else {
        seq!['-'] + nat_digits(-n)
    }
}

/// Exactly `k` decimal digits of a number, most significant first.
pub open spec fn fixed_digits(n: int, k: nat) -> Seq<char>
    decreases k,
{
    if k == 0 {
        Seq::empty()
    } else {
        fixed_digits(n / 10, (k - 1) as nat).push(digit_char(n % 10))
    }
}

/// The characters with trailing zeros removed.
pub open spec fn trim_zeros(s: Seq<char>) -> Seq<char>
    decreases s.len(),
{
    if s.len() > 0 && s.last() == '0' {
        trim_zeros(s.drop_last())
    } else {
        s
    }
}

/// The display form of a decimal: its sign, its whole part, and its
/// fractional digits with trailing zeros removed, after a point only
/// present when the fraction is not zero.
pub open spec fn spec_dec_display(scaled: int) -> Seq<char> {
    let a = if scaled >= 0 {
        scaled
    } else {
        -scaled
    };
    let sign: Seq<char> = if scaled < 0 {
        seq!['-']
    } else {
        Seq::empty()
    };
    let whole = a / 1000000;
    let frac = a % 1000000;
    if frac == 0 {
        sign + nat_digits(whole)
    } else {
        sign + nat_digits(whole) + seq!['.'] + trim_zeros(fixed_digits(frac, 6))
    }
}

/// Names joined by commas, as a parameter list displays.
pub open spec fn join_commas(ps: Seq<Seq<char>>) -> Seq<char>
    decreases ps.len(),
{
    if ps.len() == 0 {
        Seq::empty()
    } else if ps.len() == 1 {
        ps[0]
    } else {
        join_commas(ps.drop_last()) + ", "@ + ps.last()
    }
}

/// The display form of a value, as `print` writes it.
pub open spec fn spec_display(v: ValueV) -> Seq<char> {
    match v.kind {
        ValueKindV::Integer(n) => spec_int_display(n as int),
        ValueKindV::Float(d) => spec_dec_display(d.scaled as int),
        ValueKindV::Boolean(b) => if b {
            "true"@
        } else {
            "false"@
        },
        ValueKindV::Str(s) => s,
        ValueKindV::Null => "null"@,
        ValueKindV::Function { name, parameters, .. } => "function "@ + name + "("@ + join_commas(
            parameters,
        ) + ")"@,
    }
}

/// The character of a small digit.
fn digit_char_of(d: u64) -> (c: char)
    requires
        d < 10,
    ensures
        c == digit_char(d as int),
{
    if d == 0 {
        '0'
    } else if d == 1 {
        '1'
    } else if d == 2 {
        '2'
    } else if d == 3 {
        '3'
    } else if d == 4 {
        '4'
    } else if d == 5 {
        '5'
    } else if d == 6 {
        '6'
    } else if d == 7 {
        '7'
    } else if d == 8 {
        '8'
    } else {
        '9'
    }
}

/// The decimal digits of a number, as a string.
fn nat_to_string(n: u64) -> (r: String)
    ensures
        r@ == nat_digits(n as int),
    decreases n,
{
    if n < 10 {
        let mut s = String::new();
        push_char(&mut s, digit_char_of(n));
        proof {
            assert(s@ =~= nat_digits(n as int));
        }
        s
    } else {
        let mut s = nat_to_string(n / 10);
        push_char(&mut s, digit_char_of(n % 10));
        s
    }
}

/// The display form of an integer, as a string.
fn int_to_string(n: i64) -> (r: String)
    ensures
        r@ == spec_int_display(n as int),
{
    if n >= 0 {
        nat_to_string(n as u64)
    } else {
        let mag: u64 = if n == i64::MIN {
            9223372036854775808u64
        } else {
            (-n) as u64
        };
        let mut s = String::new();
        push_char(&mut s, '-');
        let digits = nat_to_string(mag);
        s.append(digits.as_str());
        proof {
            assert(s@ =~= seq!['-'] + nat_digits(mag as int));
        }
        s
    }
}

/// Exactly `k` decimal digits of a number, as characters.
fn fixed_to_vec(n: u64, k: u64) -> (r: Vec<char>)
    ensures
        r@ == fixed_digits(n as int, k as nat),
    decreases k,
{
    if k == 0 {
        Vec::new()
    } else {
        let mut v = fixed_to_vec(n / 10, k - 1);
        v.push(digit_char_of(n % 10));
        v
    }
}

/// The display form of a decimal, as a string.
fn dec_to_string(d: Decimal) -> (r: String)
    ensures
        r@ == spec_dec_display(d.scaled as int),
{
    let neg = d.scaled < 0;
    let a: u64 = if d.scaled == i64::MIN {
        9223372036854775808u64
    } else if neg {
        (-d.scaled) as u64
    } else {
        d.scaled as u64
    };
    let whole = a / 1000000;
    let frac = a % 1000000;
    let mut s = String::new();
    if neg {
        push_char(&mut s, '-');
    }
    let wdigits = nat_to_string(whole);
    s.append(wdigits.as_str());
    if frac != 0 {
        push_char(&mut s, '.');
        let mut digits = fixed_to_vec(frac, 6);
        let ghost fixed6 = fixed_digits(frac as int, 6);
        loop
            invariant
                trim_zeros(fixed6) == trim_zeros(digits@),
            ensures
                trim_zeros(fixed6) == digits@,
            decreases digits@.len(),
        {
            let m = digits.len();
            if m > 0 && digits[m - 1] == '0' {
                let _ = digits.pop();
            } else {
                break ;
            }
        }
        let mut i: usize = 0;
        let ghost mid = s@;
        while i < digits.len()
            invariant
                i <= digits@.len(),
                s@ == mid + digits@.subrange(0, i as int),
            decreases digits@.len() - i,
        {
            push_char(&mut s, digits[i]);
            proof {
                assert(s@ =~= mid + digits@.subrange(0, i + 1));
            }
            i += 1;
        }
        proof {
            assert(digits@.subrange(0, digits@.len() as int) =~= digits@);
            assert(s@ =~= spec_dec_display(d.scaled as int));
        }
    } else {
        proof {
            assert(s@ =~= spec_dec_display(d.scaled as int));
        }
    }
    s
}

/// Joining one more name appends a comma and the name.
proof fn lemma_join_take(ps: Seq<Seq<char>>, i: int)
    requires
        0 <= i < ps.len(),
    ensures
        join_commas(ps.take(i + 1)) == if i == 0 {
            ps[0]
        } else {
            join_commas(ps.take(i)) + ", "@ + ps[i]
        },
{
    assert(ps.take(i + 1).drop_last() =~= ps.take(i));
    assert(ps.take(i + 1).last() == ps[i]);
    if i == 0 {
        assert(ps.take(1).len() == 1);
        assert(ps.take(1)[0] == ps[0]);
    }
}

impl Value {
    /// The display form of the value, as `print` and the prompt write
    /// it.
    pub fn display_string(&self) -> (r: String)
        ensures
            r@ == spec_display(self@),
    {
        match &self.kind {
            ValueKind::Integer(n) => int_to_string(*n),
            ValueKind::Float(d) => dec_to_string(*d),
            ValueKind::Boolean(b) => {
                if *b {
                    String::from_str("true")
                } else {
                    String::from_str("false")
                }
            },
            ValueKind::Str(s) => s.clone(),
            ValueKind::Null => String::from_str("null"),
            ValueKind::Function { name, parameters, .. } => {
                let ghost pview = parameters@.map_values(|p: String| p@);
                let mut s = String::from_str("function ");
                s.append(name.as_str());
                push_char(&mut s, '(');
                let ghost head = s@;
                proof {
                    reveal_strlit("(");
                    reveal_strlit(")");
                    assert(head =~= "function "@ + name@ + "("@);
                }
                let mut i: usize = 0;
                while i < parameters.len()
                    invariant
                        i <= parameters@.len(),
                        pview == parameters@.map_values(|p: String| p@),
                        head == "function "@ + name@ + "("@,
                        s@ == head + join_commas(pview.take(i as int)),
                    decreases parameters@.len() - i,
                {
                    if i > 0 {
                        s.append(", ");
                    }
                    s.append(parameters[i].as_str());
                    proof {
                        lemma_join_take(pview, i as int);
                        assert(pview[i as int] == parameters@[i as int]@);
                        assert(s@ =~= head + join_commas(pview.take(i + 1)));
                    }
                    i += 1;
                }
                push_char(&mut s, ')');
                proof {
                    reveal_strlit(")");
                    assert(pview.take(pview.len() as int) =~= pview);
                    assert(s@ =~= spec_display(self@));
                }
                s
            },
        }
    }
}

} // verus!
