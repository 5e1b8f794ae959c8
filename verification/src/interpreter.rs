//! The evaluator: walks the syntax tree against a stack of lexical
//! scopes, producing runtime values.
//!
//! Control transfer for `break` and `continue` is a distinguished flow
//! result, caught by the nearest enclosing loop; everything else
//! propagates.  What evaluation computes is pinned down by [`eval_node`],
//! a step-indexed evaluator: `eval_node(n, st, fuel)` is `None` when
//! `fuel` loop iterations are too few to finish, and otherwise the exact
//! outcome; `interpret` returns a result that some fuel reaches.

use std::io::Write;

use vstd::prelude::*;

use crate::ast::{AstKindV, AstNode, AstNodeKind, AstV};
use crate::error::{Error, ErrorKind, ErrorKindV, ErrorV, RuntimeError, RuntimeErrorV};
use crate::scope::Scope;
use crate::span::Span;
use crate::token::Operator;
use crate::token::UnaryOperator;
use crate::value::{
    spec_binary_value, spec_truthy, Value, ValueKind, ValueKindV, ValueV,
};

verus! {

/// How the evaluation of one node ended: a value, or a `break` or
/// `continue` travelling to the nearest enclosing loop.
#[derive(Debug)]
pub enum Flow {
    /// Ordinary completion with a value.
    Normal(Value),
    /// A `break` travelling outward from this span.
    Break(Span),
    /// A `continue` travelling outward from this span.
    Continue(Span),
}

/// The mathematical value of a flow result.
pub enum FlowV {
    Normal(ValueV),
    Break(Span),
    Continue(Span),
}

impl View for Flow {
    type V = FlowV;

    open spec fn view(&self) -> FlowV {
        match self {
            Flow::Normal(v) => FlowV::Normal(v@),
            Flow::Break(sp) => FlowV::Break(*sp),
            Flow::Continue(sp) => FlowV::Continue(*sp),
        }
    }
}

/// The scope stack as mathematics: one map of bindings per frame,
/// outermost first.
pub type StV = Seq<Map<Seq<char>, ValueV>>;

/// What one evaluation step yields: nothing if the fuel ran out, or the
/// flow and new scope stack, or the runtime error.
pub type EvalOut = Option<Result<(FlowV, StV), ErrorV>>;

/// The innermost binding of a name, searching frames inner to outer.
pub open spec fn lookup_frames(fr: StV, name: Seq<char>) -> Option<ValueV>
    decreases fr.len(),
{
    if fr.len() == 0 {
        None
    } else if fr.last().dom().contains(name) {
        Some(fr.last()[name])
    } else {
        lookup_frames(fr.drop_last(), name)
    }
}

/// Re-bind a name in the innermost frame that holds it; nothing if no
/// frame does.
pub open spec fn assign_frames(fr: StV, name: Seq<char>, v: ValueV) -> Option<StV>
    decreases fr.len(),
{
    if fr.len() == 0 {
        None
    } else if fr.last().dom().contains(name) {
        Some(fr.update(fr.len() - 1, fr.last().insert(name, v)))
    } else {
        match assign_frames(fr.drop_last(), name, v) {
            None => None,
            Some(fr2) => Some(fr2.push(fr.last())),
        }
    }
}

/// The null value produced at a given span.
pub open spec fn null_at(sp: Span) -> ValueV {
    ValueV { kind: ValueKindV::Null, span: sp }
}

/// What arithmetic negation yields on a value: integers wrap, decimals
/// saturate, anything else is an invalid unary operation.
pub open spec fn spec_negate_value(v: ValueV) -> Result<ValueV, ErrorV> {
    match v.kind {
        ValueKindV::Integer(n) => Ok(
            ValueV {
                kind: ValueKindV::Integer(
                    if n == i64::MIN {
                        i64::MIN
                    } else {
                        (-n) as i64
                    },
                ),
                span: v.span,
            },
        ),
        ValueKindV::Float(d) => Ok(
            ValueV {
                kind: ValueKindV::Float(
                    crate::decimal::Decimal {
                        scaled: crate::decimal::spec_dec_neg(d.scaled as int) as i64,
                    },
                ),
                span: v.span,
            },
        ),
        _ => Err(
            ErrorV {
                span: v.span,
                kind: ErrorKindV::Runtime(
                    RuntimeErrorV::InvalidUnaryOperation {
                        operand: v.kind,
                        operator: UnaryOperator::Minus,
                    },
                ),
            },
        ),
    }
}

/// The outcome of evaluating one node against a scope stack, with fuel
/// bounding how many loop iterations may still run.
pub open spec fn eval_node(n: AstV, st: StV, fuel: nat) -> EvalOut
    decreases fuel, n, 1int,
{
    match n.kind {
        AstKindV::IntegerLiteral(i) => Some(
            Ok((FlowV::Normal(ValueV { kind: ValueKindV::Integer(i), span: n.span }), st)),
        ),
        AstKindV::FloatLiteral(d) => Some(
            Ok((FlowV::Normal(ValueV { kind: ValueKindV::Float(d), span: n.span }), st)),
        ),
        AstKindV::StringLiteral(s) => Some(
            Ok((FlowV::Normal(ValueV { kind: ValueKindV::Str(s), span: n.span }), st)),
        ),
        AstKindV::BooleanLiteral(b) => Some(
            Ok((FlowV::Normal(ValueV { kind: ValueKindV::Boolean(b), span: n.span }), st)),
        ),
        AstKindV::VariableReference(name) => match lookup_frames(st, name) {
            Some(v) => Some(Ok((FlowV::Normal(v), st))),
            None => Some(
                Err(
                    ErrorV {
                        span: n.span,
                        kind: ErrorKindV::Runtime(RuntimeErrorV::UndefinedVariable { name }),
                    },
                ),
            ),
        },
        AstKindV::UnaryExpression { op, expr } => match eval_node(*expr, st, fuel) {
            None => None,
            Some(Err(e)) => Some(Err(e)),
            Some(Ok((flow, st1))) => match flow {
                FlowV::Normal(v) => match op {
                    UnaryOperator::Plus => Some(Ok((FlowV::Normal(v), st1))),
                    UnaryOperator::Minus => match spec_negate_value(v) {
                        Ok(w) => Some(Ok((FlowV::Normal(w), st1))),
                        Err(e) => Some(Err(e)),
                    },
                    UnaryOperator::Not => Some(
                        Ok(
                            (
                                FlowV::Normal(
                                    ValueV {
                                        kind: ValueKindV::Boolean(!spec_truthy(v.kind)),
                                        span: n.span,
                                    },
                                ),
                                st1,
                            ),
                        ),
                    ),
                },
                _ => Some(Ok((flow, st1))),
            },
        },
        AstKindV::BinaryExpression { lhs, op, rhs } => {
            let span = Span { start: lhs.span.start, end: rhs.span.end, source: n.span.source };
            match eval_node(*lhs, st, fuel) {
                None => None,
                Some(Err(e)) => Some(Err(e)),
                Some(Ok((lflow, st1))) => match lflow {
                    FlowV::Normal(lv) => {
                        if op == Operator::And {
                            if !spec_truthy(lv.kind) {
                                Some(
                                    Ok(
                                        (
                                            FlowV::Normal(
                                                ValueV {
                                                    kind: ValueKindV::Boolean(false),
                                                    span,
                                                },
                                            ),
                                            st1,
                                        ),
                                    ),
                                )
                            } else {
                                match eval_node(*rhs, st1, fuel) {
                                    None => None,
                                    Some(Err(e)) => Some(Err(e)),
                                    Some(Ok((rflow, st2))) => match rflow {
                                        FlowV::Normal(rv) => Some(
                                            Ok(
                                                (
                                                    FlowV::Normal(
                                                        ValueV {
                                                            kind: ValueKindV::Boolean(
                                                                spec_truthy(rv.kind),
                                                            ),
                                                            span,
                                                        },
                                                    ),
                                                    st2,
                                                ),
                                            ),
                                        ),
                                        _ => Some(Ok((rflow, st2))),
                                    },
                                }
                            }
                        } else if op == Operator::Or {
                            if spec_truthy(lv.kind) {
                                Some(Ok((FlowV::Normal(lv), st1)))
                            } else {
                                match eval_node(*rhs, st1, fuel) {
                                    None => None,
                                    Some(Err(e)) => Some(Err(e)),
                                    Some(Ok((rflow, st2))) => match rflow {
                                        FlowV::Normal(rv) => {
                                            if spec_truthy(rv.kind) {
                                                Some(Ok((FlowV::Normal(rv), st2)))
                                            } else {
                                                Some(
                                                    Ok(
                                                        (
                                                            FlowV::Normal(
                                                                ValueV {
                                                                    kind: ValueKindV::Boolean(
                                                                        false,
                                                                    ),
                                                                    span,
                                                                },
                                                            ),
                                                            st2,
                                                        ),
                                                    ),
                                                )
                                            }
                                        },
                                        _ => Some(Ok((rflow, st2))),
                                    },
                                }
                            }
                        } else {
                            match eval_node(*rhs, st1, fuel) {
                                None => None,
                                Some(Err(e)) => Some(Err(e)),
                                Some(Ok((rflow, st2))) => match rflow {
                                    FlowV::Normal(rv) => match spec_binary_value(op, lv, rv) {
                                        Ok(w) => Some(Ok((FlowV::Normal(w), st2))),
                                        Err(e) => Some(Err(e)),
                                    },
                                    _ => Some(Ok((rflow, st2))),
                                },
                            }
                        }
                    },
                    _ => Some(Ok((lflow, st1))),
                },
            }
        },
        AstKindV::Assignment { name, value, declaration } => match eval_node(*value, st, fuel) {
            None => None,
            Some(Err(e)) => Some(Err(e)),
            Some(Ok((flow, st1))) => match flow {
                FlowV::Normal(v) => {
                    if declaration {
                        Some(
                            Ok(
                                (
                                    FlowV::Normal(null_at(n.span)),
                                    st1.update(st1.len() - 1, st1.last().insert(name, v)),
                                ),
                            ),
                        )
                    } else {
                        match assign_frames(st1, name, v) {
                            Some(st2) => Some(Ok((FlowV::Normal(null_at(n.span)), st2))),
                            None => Some(
                                Err(
                                    ErrorV {
                                        span: n.span,
                                        kind: ErrorKindV::Runtime(
                                            RuntimeErrorV::UndefinedVariable { name },
                                        ),
                                    },
                                ),
                            ),
                        }
                    }
                },
                _ => Some(Ok((flow, st1))),
            },
        },
        AstKindV::Block { expressions } => {
            match eval_block(expressions, st.push(Map::empty()), null_at(n.span), fuel) {
                None => None,
                Some(Err(e)) => Some(Err(e)),
                Some(Ok((flow, st1))) => Some(Ok((flow, st1.drop_last()))),
            }
        },
        AstKindV::If { condition, body, else_branch } => match eval_node(*condition, st, fuel) {
            None => None,
            Some(Err(e)) => Some(Err(e)),
            Some(Ok((flow, st1))) => match flow {
                FlowV::Normal(c) => {
                    if spec_truthy(c.kind) {
                        eval_node(*body, st1, fuel)
                    } else {
                        match else_branch {
                            Some(e) => eval_node(*e, st1, fuel),
                            None => Some(Ok((FlowV::Normal(null_at(n.span)), st1))),
                        }
                    }
                },
                _ => Some(Ok((flow, st1))),
            },
        },
        AstKindV::Else { body } => eval_node(*body, st, fuel),
        AstKindV::Print { expression } => match eval_node(*expression, st, fuel) {
            None => None,
            Some(Err(e)) => Some(Err(e)),
            Some(Ok((flow, st1))) => match flow {
                FlowV::Normal(_) => Some(Ok((FlowV::Normal(null_at(n.span)), st1))),
                _ => Some(Ok((flow, st1))),
            },
        },
        AstKindV::While { condition, body } => eval_while(n, st, null_at(n.span), fuel),
        AstKindV::Break => Some(Ok((FlowV::Break(n.span), st))),
        AstKindV::Continue => Some(Ok((FlowV::Continue(n.span), st))),
        AstKindV::NoOp => Some(Ok((FlowV::Normal(null_at(n.span)), st))),
        AstKindV::FunctionDefinition { params, body, name } => {
            let fv = ValueV {
                kind: ValueKindV::Function { name, parameters: params, body: *body },
                span: n.span,
            };
            Some(
                Ok(
                    (
                        FlowV::Normal(fv),
                        st.update(st.len() - 1, st.last().insert(name, fv)),
                    ),
                ),
            )
        },
    }
}

/// Evaluate the statements of a block in order; `last` carries the most
/// recent statement's value, which becomes the block's value.  A break
/// or continue aborts the remaining statements and propagates.
pub open spec fn eval_block(stmts: Seq<AstV>, st: StV, last: ValueV, fuel: nat) -> EvalOut
    decreases fuel, stmts, 0int,
{
    if stmts.len() == 0 {
        Some(Ok((FlowV::Normal(last), st)))
    } else {
        match eval_node(stmts[0], st, fuel) {
            None => None,
            Some(Err(e)) => Some(Err(e)),
            Some(Ok((flow, st1))) => match flow {
                FlowV::Normal(v) => eval_block(stmts.drop_first(), st1, v, fuel),
                _ => Some(Ok((flow, st1))),
            },
        }
    }
}

/// One round of a while loop: re-evaluate the condition, run the body if
/// it is truthy, and iterate with one less fuel.  A break ends the loop
/// with the last body value; a continue re-checks the condition.
pub open spec fn eval_while(n: AstV, st: StV, last: ValueV, fuel: nat) -> EvalOut
    decreases fuel, n, 0int,
{
    match n.kind {
        AstKindV::While { condition, body } => match eval_node(*condition, st, fuel) {
            None => None,
            Some(Err(e)) => Some(Err(e)),
            Some(Ok((cflow, st1))) => match cflow {
                FlowV::Normal(c) => {
                    if !spec_truthy(c.kind) {
                        Some(Ok((FlowV::Normal(last), st1)))
                    } else {
                        match eval_node(*body, st1, fuel) {
                            None => None,
                            Some(Err(e)) => Some(Err(e)),
                            Some(Ok((bflow, st2))) => match bflow {
                                FlowV::Normal(v) => {
                                    if fuel == 0 {
                                        None
                                    } else {
                                        eval_while(n, st2, v, (fuel - 1) as nat)
                                    }
                                },
                                FlowV::Break(_) => Some(Ok((FlowV::Normal(last), st2))),
                                FlowV::Continue(_) => {
                                    if fuel == 0 {
                                        None
                                    } else {
                                        eval_while(n, st2, last, (fuel - 1) as nat)
                                    }
                                },
                            },
                        }
                    }
                },
                _ => Some(Ok((cflow, st1))),
            },
        },
        _ => Some(Ok((FlowV::Normal(last), st))),
    }
}

/// More fuel never changes a finished evaluation.
pub proof fn lemma_eval_node_mono(n: AstV, st: StV, f1: nat, f2: nat)
    requires
        f1 <= f2,
        eval_node(n, st, f1) is Some,
    ensures
        eval_node(n, st, f2) == eval_node(n, st, f1),
    decreases f1, n, 1int,
{
    match n.kind {
        AstKindV::UnaryExpression { op, expr } => {
            lemma_eval_node_mono(*expr, st, f1, f2);
        },
        AstKindV::BinaryExpression { lhs, op, rhs } => {
            lemma_eval_node_mono(*lhs, st, f1, f2);
            match eval_node(*lhs, st, f1) {
                Some(Ok((FlowV::Normal(lv), st1))) => {
                    if eval_node(*rhs, st1, f1) is Some {
                        lemma_eval_node_mono(*rhs, st1, f1, f2);
                    }
                },
                _ => {},
            }
        },
        AstKindV::Assignment { name, value, declaration } => {
            lemma_eval_node_mono(*value, st, f1, f2);
        },
        AstKindV::Block { expressions } => {
            lemma_eval_block_mono(
                expressions,
                st.push(Map::empty()),
                null_at(n.span),
                f1,
                f2,
            );
        },
        AstKindV::If { condition, body, else_branch } => {
            lemma_eval_node_mono(*condition, st, f1, f2);
            match eval_node(*condition, st, f1) {
                Some(Ok((FlowV::Normal(c), st1))) => {
                    if spec_truthy(c.kind) {
                        if eval_node(*body, st1, f1) is Some {
                            lemma_eval_node_mono(*body, st1, f1, f2);
                        }
                    } else {
                        match else_branch {
                            Some(e) => {
                                if eval_node(*e, st1, f1) is Some {
                                    lemma_eval_node_mono(*e, st1, f1, f2);
                                }
                            },
                            None => {},
                        }
                    }
                },
                _ => {},
            }
        },
        AstKindV::Else { body } => {
            lemma_eval_node_mono(*body, st, f1, f2);
        },
        AstKindV::Print { expression } => {
            lemma_eval_node_mono(*expression, st, f1, f2);
        },
        AstKindV::While { condition, body } => {
            lemma_eval_while_mono(n, st, null_at(n.span), f1, f2);
        },
        _ => {},
    }
}

/// More fuel never changes a finished run of block statements.
pub proof fn lemma_eval_block_mono(stmts: Seq<AstV>, st: StV, last: ValueV, f1: nat, f2: nat)
    requires
        f1 <= f2,
        eval_block(stmts, st, last, f1) is Some,
    ensures
        eval_block(stmts, st, last, f2) == eval_block(stmts, st, last, f1),
    decreases f1, stmts, 0int,
{
    if stmts.len() > 0 {
        lemma_eval_node_mono(stmts[0], st, f1, f2);
        match eval_node(stmts[0], st, f1) {
            Some(Ok((FlowV::Normal(v), st1))) => {
                lemma_eval_block_mono(stmts.drop_first(), st1, v, f1, f2);
            },
            _ => {},
        }
    }
}

/// More fuel never changes a finished while loop.
pub proof fn lemma_eval_while_mono(n: AstV, st: StV, last: ValueV, f1: nat, f2: nat)
    requires
        f1 <= f2,
        eval_while(n, st, last, f1) is Some,
    ensures
        eval_while(n, st, last, f2) == eval_while(n, st, last, f1),
    decreases f1, n, 0int,
{
    match n.kind {
        AstKindV::While { condition, body } => {
            lemma_eval_node_mono(*condition, st, f1, f2);
            match eval_node(*condition, st, f1) {
                Some(Ok((FlowV::Normal(c), st1))) => {
                    if spec_truthy(c.kind) {
                        if eval_node(*body, st1, f1) is Some {
                            lemma_eval_node_mono(*body, st1, f1, f2);
                            match eval_node(*body, st1, f1) {
                                Some(Ok((FlowV::Normal(v), st2))) => {
                                    if f1 > 0 {
                                        lemma_eval_while_mono(
                                            n,
                                            st2,
                                            v,
                                            (f1 - 1) as nat,
                                            (f2 - 1) as nat,
                                        );
                                    }
                                },
                                Some(Ok((FlowV::Continue(_), st2))) => {
                                    if f1 > 0 {
                                        lemma_eval_while_mono(
                                            n,
                                            st2,
                                            last,
                                            (f1 - 1) as nat,
                                            (f2 - 1) as nat,
                                        );
                                    }
                                },
                                _ => {},
                            }
                        }
                    }
                },
                _ => {},
            }
        },
        _ => {},
    }
}

} // verus!

verus! {

/// Looking a name up ignores frames above the innermost that holds it.
proof fn lemma_lookup_skip_top(fr: StV, i: int, name: Seq<char>)
    requires
        0 <= i <= fr.len(),
        forall|j: int| i <= j < fr.len() ==> !(#[trigger] fr[j].dom().contains(name)),
    ensures
        lookup_frames(fr, name) == lookup_frames(fr.take(i), name),
    decreases fr.len() - i,
{
    if i < fr.len() {
        assert(!fr[fr.len() - 1].dom().contains(name));
        assert(fr.drop_last().take(i) =~= fr.take(i));
        lemma_lookup_skip_top(fr.drop_last(), i, name);
    } else {
        assert(fr.take(i) =~= fr);
    }
}

/// Re-binding a name ignores frames above the innermost that holds it.
proof fn lemma_assign_skip_top(fr: StV, i: int, name: Seq<char>, v: ValueV)
    requires
        0 <= i <= fr.len(),
        forall|j: int| i <= j < fr.len() ==> !(#[trigger] fr[j].dom().contains(name)),
    ensures
        assign_frames(fr, name, v) == (match assign_frames(fr.take(i), name, v) {
            None => None::<StV>,
            Some(g) => Some(g + fr.skip(i)),
        }),
    decreases fr.len() - i,
{
    if i < fr.len() {
        assert(!fr[fr.len() - 1].dom().contains(name));
        assert(fr.drop_last().take(i) =~= fr.take(i));
        lemma_assign_skip_top(fr.drop_last(), i, name, v);
        match assign_frames(fr.take(i), name, v) {
            None => {},
            Some(g) => {
                assert(g + fr.drop_last().skip(i) + seq![fr.last()] =~= g + fr.skip(i));
                assert(assign_frames(fr, name, v) == Some(
                    (g + fr.drop_last().skip(i)).push(fr.last()),
                ));
                assert((g + fr.drop_last().skip(i)).push(fr.last()) =~= g + fr.skip(i));
            },
        }
    } else {
        assert(fr.take(i) =~= fr);
        match assign_frames(fr, name, v) {
            None => {},
            Some(g) => {
                assert(g + fr.skip(i) =~= g);
            },
        }
    }
}

/// Excecutes a syntax tree, and holds the scope stack of the current
/// excecution context.
pub struct Interpreter {
    /// The stack of scopes, outermost first.
    pub scopes: Vec<Scope>,
}

/// Writes one line of program output.
///
/// Relies on the standard library's `writeln` to standard output.
#[verifier::external_body]
fn print_line(s: &str) {
    let _ = writeln!(std::io::stdout(), "{}", s);
}

impl Interpreter {
    /// The scope stack as mathematics.
    pub open spec fn st(&self) -> StV {
        self.scopes@.map_values(|s: Scope| s@)
    }

    /// The interpreter always holds at least the global frame, and every
    /// frame binds each name once.
    pub open spec fn wf(&self) -> bool {
        self.scopes@.len() >= 1 && forall|i: int|
            0 <= i < self.scopes@.len() ==> (#[trigger] self.scopes@[i]).wf()
    }

    /// Creates a new interpreter with one empty global scope.
    pub fn new() -> (r: Interpreter)
        ensures
            r.wf(),
            r.st() =~= seq![Map::<Seq<char>, ValueV>::empty()],
    {
        let mut scopes: Vec<Scope> = Vec::new();
        scopes.push(Scope::new());
        Interpreter { scopes }
    }

    /// The innermost binding of a name, as a fresh value.
    fn lookup_var(&self, name: &String) -> (r: Option<Value>)
        requires
            self.wf(),
        ensures
            match r {
                Some(v) => lookup_frames(self.st(), name@) == Some(v@),
                None => lookup_frames(self.st(), name@) is None,
            },
    {
        let n = self.scopes.len();
        let mut i: usize = n;
        loop
            invariant
                self.wf(),
                n == self.scopes@.len(),
                i <= n,
                forall|j: int| i <= j < n ==> !(#[trigger] self.st()[j].dom().contains(name@)),
            ensures
                i == 0,
                forall|j: int| 0 <= j < n ==> !(#[trigger] self.st()[j].dom().contains(name@)),
            decreases i,
        {
            if i == 0 {
                break ;
            }
            match self.scopes[i - 1].get(name) {
                Some(v) => {
                    let out = v.deep_clone();
                    proof {
                        lemma_lookup_skip_top(self.st(), i as int, name@);
                        assert(self.st().take(i as int).last() == self.st()[i - 1]);
                    }
                    return Some(out);
                },
                None => {
                    i -= 1;
                },
            }
        }
        proof {
            lemma_lookup_skip_top(self.st(), 0, name@);
            assert(self.st().take(0) =~= Seq::<Map<Seq<char>, ValueV>>::empty());
        }
        None
    }

    /// Re-bind a name in the innermost frame that holds it; reports
    /// whether any frame did.
    fn assign_var(&mut self, name: &String, value: Value) -> (r: bool)
        requires
            old(self).wf(),
        ensures
            final(self).wf(),
            final(self).scopes@.len() == old(self).scopes@.len(),
            if r {
                assign_frames(old(self).st(), name@, value@) == Some(final(self).st())
            } else {
                assign_frames(old(self).st(), name@, value@) is None && final(self).st() == old(
                    self,
                ).st()
            },
    {
        let ghost st0 = self.st();
        let n = self.scopes.len();
        let mut i: usize = n;
        loop
            invariant
                self.wf(),
                self.scopes@ == old(self).scopes@,
                st0 == self.st(),
                n == self.scopes@.len(),
                i <= n,
                forall|j: int| i <= j < n ==> !(#[trigger] st0[j].dom().contains(name@)),
            ensures
                self.scopes@ == old(self).scopes@,
                i == 0,
                forall|j: int| 0 <= j < n ==> !(#[trigger] st0[j].dom().contains(name@)),
            decreases i,
        {
            if i == 0 {
                break ;
            }
            let found = match self.scopes[i - 1].get(name) {
                Some(_) => true,
                None => false,
            };
            if found {
                let fr = &mut self.scopes[i - 1];
                fr.insert(name.clone(), value);
                proof {
                    lemma_assign_skip_top(st0, i as int, name@, value@);
                    assert(st0.take(i as int).last() == st0[i - 1]);
                    assert(self.st() =~= st0.update(
                        i - 1,
                        st0[i - 1].insert(name@, value@),
                    ));
                    assert(st0.take(i as int).update(i - 1, st0[i - 1].insert(name@, value@))
                        + st0.skip(i as int) =~= st0.update(
                        i - 1,
                        st0[i - 1].insert(name@, value@),
                    ));
                }
                return true;
            }
            i -= 1;
        }
        proof {
            lemma_assign_skip_top(st0, 0, name@, value@);
            assert(st0.take(0) =~= Seq::<Map<Seq<char>, ValueV>>::empty());
        }
        false
    }

    /// Bind a name in the innermost frame, shadowing within that frame.
    fn declare_var(&mut self, name: String, value: Value)
        requires
            old(self).wf(),
        ensures
            final(self).wf(),
            final(self).scopes@.len() == old(self).scopes@.len(),
            final(self).st() == old(self).st().update(
                old(self).st().len() - 1,
                old(self).st().last().insert(name@, value@),
            ),
    {
        let ghost st0 = self.st();
        let n = self.scopes.len();
        let fr = &mut self.scopes[n - 1];
        fr.insert(name, value);
        proof {
            assert(self.st() =~= st0.update(st0.len() - 1, st0.last().insert(name@, value@)));
        }
    }

    /// Push a fresh empty frame for a block.
    fn push_frame(&mut self)
        requires
            old(self).wf(),
        ensures
            final(self).wf(),
            final(self).scopes@.len() == old(self).scopes@.len() + 1,
            final(self).st() == old(self).st().push(Map::<Seq<char>, ValueV>::empty()),
    {
        let ghost st0 = self.st();
        self.scopes.push(Scope::new());
        proof {
            assert(self.st() =~= st0.push(Map::<Seq<char>, ValueV>::empty()));
        }
    }

    /// Pop the innermost frame at the end of a block.
    fn pop_frame(&mut self)
        requires
            old(self).wf(),
            old(self).scopes@.len() >= 2,
        ensures
            final(self).wf(),
            final(self).scopes@.len() == old(self).scopes@.len() - 1,
            final(self).st() == old(self).st().drop_last(),
    {
        let ghost st0 = self.st();
        let _ = self.scopes.pop();
        proof {
            assert(self.st() =~= st0.drop_last());
        }
    }
}

} // verus!

verus! {

impl Interpreter {
    /// Starts running the interpreter on the given syntax tree: a
    /// `break` or `continue` that reaches the top is reported as being
    /// outside any loop.
    pub fn run(&mut self, ast: AstNode) -> (r: Result<Value, Error>)
        requires
            old(self).wf(),
        ensures
            final(self).wf(),
            match r {
                Ok(v) => exists|f: nat|
                    eval_node(ast@, old(self).st(), f) == Some(
                        Ok::<(FlowV, StV), ErrorV>((FlowV::Normal(v@), final(self).st())),
                    ),
                Err(e) => (exists|f: nat|
                    eval_node(ast@, old(self).st(), f) == Some(
                        Err::<(FlowV, StV), ErrorV>(e@),
                    )) || (exists|f: nat, sp: Span|
                    eval_node(ast@, old(self).st(), f) == Some(
                        Ok::<(FlowV, StV), ErrorV>((FlowV::Break(sp), final(self).st())),
                    ) && e@ == (ErrorV {
                        span: sp,
                        kind: ErrorKindV::Runtime(RuntimeErrorV::BreakOutsideLoop),
                    })) || (exists|f: nat, sp: Span|
                    eval_node(ast@, old(self).st(), f) == Some(
                        Ok::<(FlowV, StV), ErrorV>((FlowV::Continue(sp), final(self).st())),
                    ) && e@ == (ErrorV {
                        span: sp,
                        kind: ErrorKindV::Runtime(RuntimeErrorV::ContinueOutsideLoop),
                    })) || (e@.kind == ErrorKindV::Runtime(RuntimeErrorV::LoopLimit)
                    && eval_node(ast@, old(self).st(), 0) is None),
            },
    {
        self.start(ast)
    }

    /// Runs the interpreter on the given syntax tree; same as `run`.
    pub fn start(&mut self, ast: AstNode) -> (r: Result<Value, Error>)
        requires
            old(self).wf(),
        ensures
            final(self).wf(),
            match r {
                Ok(v) => exists|f: nat|
                    eval_node(ast@, old(self).st(), f) == Some(
                        Ok::<(FlowV, StV), ErrorV>((FlowV::Normal(v@), final(self).st())),
                    ),
                Err(e) => (exists|f: nat|
                    eval_node(ast@, old(self).st(), f) == Some(
                        Err::<(FlowV, StV), ErrorV>(e@),
                    )) || (exists|f: nat, sp: Span|
                    eval_node(ast@, old(self).st(), f) == Some(
                        Ok::<(FlowV, StV), ErrorV>((FlowV::Break(sp), final(self).st())),
                    ) && e@ == (ErrorV {
                        span: sp,
                        kind: ErrorKindV::Runtime(RuntimeErrorV::BreakOutsideLoop),
                    })) || (exists|f: nat, sp: Span|
                    eval_node(ast@, old(self).st(), f) == Some(
                        Ok::<(FlowV, StV), ErrorV>((FlowV::Continue(sp), final(self).st())),
                    ) && e@ == (ErrorV {
                        span: sp,
                        kind: ErrorKindV::Runtime(RuntimeErrorV::ContinueOutsideLoop),
                    })) || (e@.kind == ErrorKindV::Runtime(RuntimeErrorV::LoopLimit)
                    && eval_node(ast@, old(self).st(), 0) is None),
            },
    {
        match self.interpret(&ast) {
            Ok(Flow::Normal(v)) => Ok(v),
            Ok(Flow::Break(sp)) => Err(
                Error { span: sp, kind: ErrorKind::Runtime(RuntimeError::BreakOutsideLoop) },
            ),
            Ok(Flow::Continue(sp)) => Err(
                Error { span: sp, kind: ErrorKind::Runtime(RuntimeError::ContinueOutsideLoop) },
            ),
            Err(e) => Err(e),
        }
    }

    /// Interprets one node of the syntax tree against the current scope
    /// stack.  The result is exactly what the step-indexed evaluator
    /// computes at some sufficient fuel; the one exception is a loop
    /// that outlives the evaluator's iteration count, reported as a
    /// loop-limit error and only possible when no small fuel finishes.
    #[verifier::rlimit(100)]
    pub fn interpret(&mut self, ast: &AstNode) -> (r: Result<Flow, Error>)
        requires
            old(self).wf(),
        ensures
            final(self).wf(),
            final(self).scopes@.len() == old(self).scopes@.len(),
            match r {
                Ok(flow) => final(self).scopes@.len() == old(self).scopes@.len() && exists|f: nat|
                    eval_node(ast@, old(self).st(), f) == Some(
                        Ok::<(FlowV, StV), ErrorV>((flow@, final(self).st())),
                    ),
                Err(e) => (exists|f: nat|
                    eval_node(ast@, old(self).st(), f) == Some(
                        Err::<(FlowV, StV), ErrorV>(e@),
                    )) || (e@.kind == ErrorKindV::Runtime(RuntimeErrorV::LoopLimit)
                    && eval_node(ast@, old(self).st(), 0) is None),
            },
        decreases *ast, 1int,
    {
        let ghost nv = ast@;
        let ghost st0 = self.st();
        match &ast.kind {
            AstNodeKind::IntegerLiteral(n) => {
                let flow = Flow::Normal(
                    Value { kind: ValueKind::Integer(*n), span: ast.span },
                );
                proof {
                    assert(eval_node(nv, st0, 0) == Some(
                        Ok::<(FlowV, StV), ErrorV>((flow@, st0)),
                    ));
                }
                Ok(flow)
            },
            AstNodeKind::FloatLiteral(d) => {
                let flow = Flow::Normal(Value { kind: ValueKind::Float(*d), span: ast.span });
                proof {
                    assert(eval_node(nv, st0, 0) == Some(
                        Ok::<(FlowV, StV), ErrorV>((flow@, st0)),
                    ));
                }
                Ok(flow)
            },
            AstNodeKind::StringLiteral(s) => {
                let flow = Flow::Normal(
                    Value { kind: ValueKind::Str(s.clone()), span: ast.span },
                );
                proof {
                    assert(eval_node(nv, st0, 0) == Some(
                        Ok::<(FlowV, StV), ErrorV>((flow@, st0)),
                    ));
                }
                Ok(flow)
            },
            AstNodeKind::BooleanLiteral(b) => {
                let flow = Flow::Normal(
                    Value { kind: ValueKind::Boolean(*b), span: ast.span },
                );
                proof {
                    assert(eval_node(nv, st0, 0) == Some(
                        Ok::<(FlowV, StV), ErrorV>((flow@, st0)),
                    ));
                }
                Ok(flow)
            },
            AstNodeKind::NoOp => {
                let flow = Flow::Normal(Value { kind: ValueKind::Null, span: ast.span });
                proof {
                    assert(eval_node(nv, st0, 0) == Some(
                        Ok::<(FlowV, StV), ErrorV>((flow@, st0)),
                    ));
                }
                Ok(flow)
            },
            AstNodeKind::Break => {
                proof {
                    assert(eval_node(nv, st0, 0) == Some(
                        Ok::<(FlowV, StV), ErrorV>((FlowV::Break(nv.span), st0)),
                    ));
                }
                Ok(Flow::Break(ast.span))
            },
            AstNodeKind::Continue => {
                proof {
                    assert(eval_node(nv, st0, 0) == Some(
                        Ok::<(FlowV, StV), ErrorV>((FlowV::Continue(nv.span), st0)),
                    ));
                }
                Ok(Flow::Continue(ast.span))
            },
            AstNodeKind::VariableReference(name) => match self.lookup_var(name) {
                Some(v) => {
                    let flow = Flow::Normal(v);
                    proof {
                        assert(eval_node(nv, st0, 0) == Some(
                            Ok::<(FlowV, StV), ErrorV>((flow@, st0)),
                        ));
                    }
                    Ok(flow)
                },
                None => {
                    let e = Error {
                        span: ast.span,
                        kind: ErrorKind::Runtime(
                            RuntimeError::UndefinedVariable { name: name.clone() },
                        ),
                    };
                    proof {
                        assert(eval_node(nv, st0, 0) == Some(Err::<(FlowV, StV), ErrorV>(e@)));
                    }
                    Err(e)
                },
            },
            AstNodeKind::UnaryExpression { op, expr } => {
                self.interpret_unary(ast, *op, &**expr)
            },
            AstNodeKind::Else { body } => {
                let ghost bv = (**body)@;
                let r = self.interpret(&**body);
                proof {
                    match &r {
                        Ok(fl) => {
                            let f1 = choose|f: nat|
                                eval_node(bv, st0, f) == Some(
                                    Ok::<(FlowV, StV), ErrorV>((fl@, self.st())),
                                );
                            assert(eval_node(nv, st0, f1) == eval_node(bv, st0, f1));
                        },
                        Err(e) => {
                            if exists|f: nat|
                                eval_node(bv, st0, f) == Some(Err::<(FlowV, StV), ErrorV>(e@)) {
                                let f1 = choose|f: nat|
                                    eval_node(bv, st0, f) == Some(
                                        Err::<(FlowV, StV), ErrorV>(e@),
                                    );
                                assert(eval_node(nv, st0, f1) == eval_node(bv, st0, f1));
                            } else {
                                assert(eval_node(bv, st0, 0) is None);
                                assert(eval_node(nv, st0, 0) is None);
                            }
                        },
                    }
                }
                r
            },
            AstNodeKind::Print { expression } => {
                let ghost ev = (**expression)@;
                let flow = match self.interpret(&**expression) {
                    Ok(fl) => fl,
                    Err(e) => {
                        proof {
                            if exists|f: nat|
                                eval_node(ev, st0, f) == Some(Err::<(FlowV, StV), ErrorV>(e@)) {
                                let f1 = choose|f: nat|
                                    eval_node(ev, st0, f) == Some(
                                        Err::<(FlowV, StV), ErrorV>(e@),
                                    );
                                assert(eval_node(nv, st0, f1) == Some(
                                    Err::<(FlowV, StV), ErrorV>(e@),
                                ));
                            }
                        }
                        return Err(e);
                    },
                };
                let ghost f1 = choose|f: nat|
                    eval_node(ev, st0, f) == Some(
                        Ok::<(FlowV, StV), ErrorV>((flow@, self.st())),
                    );
                match flow {
                    Flow::Normal(v) => {
                        let text = v.display_string();
                        print_line(text.as_str());
                        let out = Flow::Normal(
                            Value { kind: ValueKind::Null, span: ast.span },
                        );
                        proof {
                            assert(eval_node(nv, st0, f1) == Some(
                                Ok::<(FlowV, StV), ErrorV>((out@, self.st())),
                            ));
                        }
                        Ok(out)
                    },
                    _ => {
                        proof {
                            assert(eval_node(nv, st0, f1) == Some(
                                Ok::<(FlowV, StV), ErrorV>((flow@, self.st())),
                            ));
                        }
                        Ok(flow)
                    },
                }
            },
            AstNodeKind::Assignment { name, value, declaration } => {
                self.interpret_assignment(ast, name, &**value, *declaration)
            },
            AstNodeKind::FunctionDefinition { params, body, name } => {
                let mut ps: Vec<String> = Vec::new();
                let mut i: usize = 0;
                while i < params.len()
                    invariant
                        i <= params@.len(),
                        ps@.len() == i,
                        forall|j: int| 0 <= j < i ==> ps@[j]@ == params@[j]@,
                    decreases params@.len() - i,
                {
                    ps.push(params[i].clone());
                    i += 1;
                }
                proof {
                    assert(ps@.map_values(|p: String| p@) =~= params@.map_values(
                        |p: String| p@,
                    ));
                }
                let fv = Value {
                    kind: ValueKind::Function {
                        name: name.clone(),
                        parameters: ps,
                        body: Box::new(body.deep_clone()),
                    },
                    span: ast.span,
                };
                let result = fv.deep_clone();
                self.declare_var(name.clone(), fv);
                let flow = Flow::Normal(result);
                proof {
                    assert(eval_node(nv, st0, 0) == Some(
                        Ok::<(FlowV, StV), ErrorV>((flow@, self.st())),
                    ));
                }
                Ok(flow)
            },
            AstNodeKind::If { condition, body, else_branch } => {
                let els: Option<&AstNode> = match else_branch {
                    Some(e) => Some(&**e),
                    None => None,
                };
                self.interpret_if(ast, &**condition, &**body, els)
            },
            AstNodeKind::Block { expressions } => {
                self.push_frame();
                let ghost stp = self.st();
                let start_value = Value { kind: ValueKind::Null, span: ast.span };
                let r = self.eval_block_exec(expressions, 0, start_value);
                match r {
                    Ok(flow) => {
                        let ghost fb = choose|f: nat|
                            eval_block(
                                view_ast_seq_of(expressions@).skip(0),
                                stp,
                                null_at(nv.span),
                                f,
                            ) == Some(Ok::<(FlowV, StV), ErrorV>((flow@, self.st())));
                        self.pop_frame();
                        proof {
                            assert(view_ast_seq_of(expressions@).skip(0) =~= view_ast_seq_of(
                                expressions@,
                            ));
                            assert(eval_node(nv, st0, fb) == Some(
                                Ok::<(FlowV, StV), ErrorV>((flow@, self.st())),
                            ));
                        }
                        Ok(flow)
                    },
                    Err(e) => {
                        let ghost got = exists|f: nat|
                            eval_block(
                                view_ast_seq_of(expressions@).skip(0),
                                stp,
                                null_at(nv.span),
                                f,
                            ) == Some(Err::<(FlowV, StV), ErrorV>(e@));
                        self.pop_frame();
                        proof {
                            assert(view_ast_seq_of(expressions@).skip(0) =~= view_ast_seq_of(
                                expressions@,
                            ));
                            if got {
                                let fb = choose|f: nat|
                                    eval_block(
                                        view_ast_seq_of(expressions@),
                                        stp,
                                        null_at(nv.span),
                                        f,
                                    ) == Some(Err::<(FlowV, StV), ErrorV>(e@));
                                assert(eval_node(nv, st0, fb) == Some(
                                    Err::<(FlowV, StV), ErrorV>(e@),
                                ));
                            } else {
                                assert(eval_block(
                                    view_ast_seq_of(expressions@),
                                    stp,
                                    null_at(nv.span),
                                    0,
                                ) is None);
                                assert(eval_node(nv, st0, 0) is None);
                            }
                        }
                        Err(e)
                    },
                }
            },
            AstNodeKind::BinaryExpression { lhs, op, rhs } => {
                self.interpret_binary(ast, &**lhs, *op, &**rhs)
            },
            AstNodeKind::While { condition, body } => {
                self.interpret_while(ast, &**condition, &**body)
            },
        }
    }


    /// One while loop: re-check the condition before every iteration; a
    /// break ends the loop, a continue re-checks the condition.  The
    /// iteration count is bounded far beyond reach; passing the bound is
    /// the loop-limit error.
    #[verifier::rlimit(100)]
    fn interpret_while(&mut self, ast: &AstNode, cond: &AstNode, wbody: &AstNode) -> (r: Result<
        Flow,
        Error,
    >)
        requires
            old(self).wf(),
            ast@.kind == (AstKindV::While { condition: Box::new(cond@), body: Box::new(wbody@) }),
            decreases_to!(*ast => *cond),
            decreases_to!(*ast => *wbody),
        ensures
            final(self).wf(),
            final(self).scopes@.len() == old(self).scopes@.len(),
            match r {
                Ok(flow) => final(self).scopes@.len() == old(self).scopes@.len() && exists|f: nat|
                    eval_node(ast@, old(self).st(), f) == Some(
                        Ok::<(FlowV, StV), ErrorV>((flow@, final(self).st())),
                    ),
                Err(e) => (exists|f: nat|
                    eval_node(ast@, old(self).st(), f) == Some(
                        Err::<(FlowV, StV), ErrorV>(e@),
                    )) || (e@.kind == ErrorKindV::Runtime(RuntimeErrorV::LoopLimit)
                    && eval_node(ast@, old(self).st(), 0) is None),
            },
        decreases *ast, 0int,
    {
        let ghost nv = ast@;
        let ghost st0 = self.st();

                let mut last: Value = Value { kind: ValueKind::Null, span: ast.span };
                let ghost last0 = null_at(nv.span);
                let mut budget: u64 = u64::MAX;
                let ghost mut consumed_any: bool = false;
                let ghost cond_v = cond@;
                let ghost body_v = wbody@;
                loop
                    invariant
                        self.wf(),
                        self.scopes@.len() == old(self).scopes@.len(),
                        nv == ast@,
                        st0 == old(self).st(),
                        last0 == null_at(nv.span),
                        cond_v == cond@,
                        body_v == wbody@,
                        decreases_to!(*ast => *cond),
                        decreases_to!(*ast => *wbody),
                        nv.kind == (AstKindV::While {
                            condition: Box::new(cond_v),
                            body: Box::new(body_v),
                        }),
                        forall|f: nat, res: Result<(FlowV, StV), ErrorV>|
                            eval_while(nv, self.st(), last@, f) == Some(res) ==> exists|g: nat|
                                eval_while(nv, st0, last0, g) == Some(res),
                        consumed_any ==> eval_while(nv, st0, last0, 0) is None,
                        !consumed_any ==> self.st() == st0 && last@ == last0,
                        budget < u64::MAX ==> consumed_any,
                    decreases budget,
                {
                    if budget == 0 {
                        let e = Error {
                            span: ast.span,
                            kind: ErrorKind::Runtime(RuntimeError::LoopLimit),
                        };
                        proof {
                            assert(consumed_any);
                            assert(eval_node(nv, st0, 0) == eval_while(nv, st0, last0, 0));
                        }
                        return Err(e);
                    }
                    budget = budget - 1;
                    let ghost st_it = self.st();
                    let ghost last_it = last@;
                    let cflow = match self.interpret(cond) {
                        Ok(fl) => fl,
                        Err(e) => {
                            proof {
                                if exists|f: nat|
                                    eval_node(cond_v, st_it, f) == Some(
                                        Err::<(FlowV, StV), ErrorV>(e@),
                                    ) {
                                    let fc = choose|f: nat|
                                        eval_node(cond_v, st_it, f) == Some(
                                            Err::<(FlowV, StV), ErrorV>(e@),
                                        );
                                    assert(eval_while(nv, st_it, last_it, fc) == Some(
                                        Err::<(FlowV, StV), ErrorV>(e@),
                                    ));
                                    assert(exists|g: nat|
                                        eval_while(nv, st0, last0, g) == Some(
                                            Err::<(FlowV, StV), ErrorV>(e@),
                                        ));
                                    let g = choose|g: nat|
                                        eval_while(nv, st0, last0, g) == Some(
                                            Err::<(FlowV, StV), ErrorV>(e@),
                                        );
                                    assert(eval_node(nv, st0, g) == Some(
                                        Err::<(FlowV, StV), ErrorV>(e@),
                                    ));
                                } else {
                                    assert(eval_node(cond_v, st_it, 0) is None);
                                    assert(eval_while(nv, st_it, last_it, 0) is None);
                                    if consumed_any {
                                    } else {
                                        assert(eval_while(nv, st0, last0, 0) is None);
                                    }
                                    assert(eval_node(nv, st0, 0) is None);
                                }
                            }
                            return Err(e);
                        },
                    };
                    let ghost fc = choose|f: nat|
                        eval_node(cond_v, st_it, f) == Some(
                            Ok::<(FlowV, StV), ErrorV>((cflow@, self.st())),
                        );
                    let ghost st_c = self.st();
                    let c = match cflow {
                        Flow::Normal(c) => c,
                        other => {
                            proof {
                                assert(eval_while(nv, st_it, last_it, fc) == Some(
                                    Ok::<(FlowV, StV), ErrorV>((other@, st_c)),
                                ));
                                assert(exists|g: nat|
                                    eval_while(nv, st0, last0, g) == Some(
                                        Ok::<(FlowV, StV), ErrorV>((other@, st_c)),
                                    ));
                                let g = choose|g: nat|
                                    eval_while(nv, st0, last0, g) == Some(
                                        Ok::<(FlowV, StV), ErrorV>((other@, st_c)),
                                    );
                                assert(eval_node(nv, st0, g) == Some(
                                    Ok::<(FlowV, StV), ErrorV>((other@, st_c)),
                                ));
                            }
                            return Ok(other);
                        },
                    };
                    if !c.is_truthy() {
                        let out = Flow::Normal(last);
                        proof {
                            assert(eval_while(nv, st_it, last_it, fc) == Some(
                                Ok::<(FlowV, StV), ErrorV>((FlowV::Normal(last_it), st_c)),
                            ));
                            assert(exists|g: nat|
                                eval_while(nv, st0, last0, g) == Some(
                                    Ok::<(FlowV, StV), ErrorV>((FlowV::Normal(last_it), st_c)),
                                ));
                            let g = choose|g: nat|
                                eval_while(nv, st0, last0, g) == Some(
                                    Ok::<(FlowV, StV), ErrorV>((FlowV::Normal(last_it), st_c)),
                                );
                            assert(eval_node(nv, st0, g) == Some(
                                Ok::<(FlowV, StV), ErrorV>((FlowV::Normal(last_it), st_c)),
                            ));
                        }
                        return Ok(out);
                    }
                    let bflow = match self.interpret(wbody) {
                        Ok(fl) => fl,
                        Err(e) => {
                            proof {
                                if exists|f: nat|
                                    eval_node(body_v, st_c, f) == Some(
                                        Err::<(FlowV, StV), ErrorV>(e@),
                                    ) {
                                    let fb = choose|f: nat|
                                        eval_node(body_v, st_c, f) == Some(
                                            Err::<(FlowV, StV), ErrorV>(e@),
                                        );
                                    let bigf = fc + fb;
                                    lemma_eval_node_mono(cond_v, st_it, fc, bigf);
                                    lemma_eval_node_mono(body_v, st_c, fb, bigf);
                                    assert(eval_while(nv, st_it, last_it, bigf) == Some(
                                        Err::<(FlowV, StV), ErrorV>(e@),
                                    ));
                                    assert(exists|g: nat|
                                        eval_while(nv, st0, last0, g) == Some(
                                            Err::<(FlowV, StV), ErrorV>(e@),
                                        ));
                                    let g = choose|g: nat|
                                        eval_while(nv, st0, last0, g) == Some(
                                            Err::<(FlowV, StV), ErrorV>(e@),
                                        );
                                    assert(eval_node(nv, st0, g) == Some(
                                        Err::<(FlowV, StV), ErrorV>(e@),
                                    ));
                                } else {
                                    assert(eval_node(body_v, st_c, 0) is None);
                                    if eval_node(cond_v, st_it, 0) is Some {
                                        lemma_eval_node_mono(cond_v, st_it, 0, fc);
                                    }
                                    assert(eval_while(nv, st_it, last_it, 0) is None);
                                    if consumed_any {
                                    } else {
                                        assert(eval_while(nv, st0, last0, 0) is None);
                                    }
                                    assert(eval_node(nv, st0, 0) is None);
                                }
                            }
                            return Err(e);
                        },
                    };
                    let ghost fb = choose|f: nat|
                        eval_node(body_v, st_c, f) == Some(
                            Ok::<(FlowV, StV), ErrorV>((bflow@, self.st())),
                        );
                    match bflow {
                        Flow::Normal(v) => {
                            proof {
                                let st_new = self.st();
                                let vv = v@;
                                assert forall|f: nat, res: Result<(FlowV, StV), ErrorV>|
                                    eval_while(nv, st_new, vv, f) == Some(res) implies exists|
                                    g: nat,
                                |
                                    eval_while(nv, st0, last0, g) == Some(res) by {
                                    let bigf = f + fc + fb + 1;
                                    lemma_eval_node_mono(cond_v, st_it, fc, bigf);
                                    lemma_eval_node_mono(body_v, st_c, fb, bigf);
                                    lemma_eval_while_mono(nv, st_new, vv, f, (bigf - 1) as nat);
                                    assert(eval_while(nv, st_it, last_it, bigf) == Some(res));
                                    assert(exists|g: nat|
                                        eval_while(nv, st0, last0, g) == Some(res));
                                }
                                // the first completed iteration pins fuel zero as short
                                if eval_node(cond_v, st_it, 0) is Some {
                                    lemma_eval_node_mono(cond_v, st_it, 0, fc);
                                    if eval_node(body_v, st_c, 0) is Some {
                                        lemma_eval_node_mono(body_v, st_c, 0, fb);
                                        assert(eval_while(nv, st_it, last_it, 0) is None);
                                    } else {
                                        assert(eval_while(nv, st_it, last_it, 0) is None);
                                    }
                                } else {
                                    assert(eval_while(nv, st_it, last_it, 0) is None);
                                }
                                if !consumed_any {
                                    assert(eval_while(nv, st0, last0, 0) is None);
                                }
                                consumed_any = true;
                            }
                            last = v;
                        },
                        Flow::Break(_) => {
                            let ghost st_b = self.st();
                            let out = Flow::Normal(last);
                            proof {
                                let bigf = fc + fb;
                                lemma_eval_node_mono(cond_v, st_it, fc, bigf);
                                lemma_eval_node_mono(body_v, st_c, fb, bigf);
                                assert(eval_while(nv, st_it, last_it, bigf) == Some(
                                    Ok::<(FlowV, StV), ErrorV>((FlowV::Normal(last_it), st_b)),
                                ));
                                assert(exists|g: nat|
                                    eval_while(nv, st0, last0, g) == Some(
                                        Ok::<(FlowV, StV), ErrorV>(
                                            (FlowV::Normal(last_it), st_b),
                                        ),
                                    ));
                                let g = choose|g: nat|
                                    eval_while(nv, st0, last0, g) == Some(
                                        Ok::<(FlowV, StV), ErrorV>(
                                            (FlowV::Normal(last_it), st_b),
                                        ),
                                    );
                                assert(eval_node(nv, st0, g) == Some(
                                    Ok::<(FlowV, StV), ErrorV>((FlowV::Normal(last_it), st_b)),
                                ));
                            }
                            return Ok(out);
                        },
                        Flow::Continue(_) => {
                            proof {
                                let st_new = self.st();
                                assert forall|f: nat, res: Result<(FlowV, StV), ErrorV>|
                                    eval_while(nv, st_new, last_it, f) == Some(res) implies exists|
                                    g: nat,
                                |
                                    eval_while(nv, st0, last0, g) == Some(res) by {
                                    let bigf = f + fc + fb + 1;
                                    lemma_eval_node_mono(cond_v, st_it, fc, bigf);
                                    lemma_eval_node_mono(body_v, st_c, fb, bigf);
                                    lemma_eval_while_mono(
                                        nv,
                                        st_new,
                                        last_it,
                                        f,
                                        (bigf - 1) as nat,
                                    );
                                    assert(eval_while(nv, st_it, last_it, bigf) == Some(res));
                                    assert(exists|g: nat|
                                        eval_while(nv, st0, last0, g) == Some(res));
                                }
                                if eval_node(cond_v, st_it, 0) is Some {
                                    lemma_eval_node_mono(cond_v, st_it, 0, fc);
                                    if eval_node(body_v, st_c, 0) is Some {
                                        lemma_eval_node_mono(body_v, st_c, 0, fb);
                                        assert(eval_while(nv, st_it, last_it, 0) is None);
                                    } else {
                                        assert(eval_while(nv, st_it, last_it, 0) is None);
                                    }
                                } else {
                                    assert(eval_while(nv, st_it, last_it, 0) is None);
                                }
                                if !consumed_any {
                                    assert(eval_while(nv, st0, last0, 0) is None);
                                }
                                consumed_any = true;
                            }
                        },
                    }
                }
            
    }


    /// One binary operation: `&&` and `||` short-circuit; every other
    /// operator evaluates both operands, left before right, and applies
    /// the operator table.
    #[verifier::rlimit(100)]
    fn interpret_binary(&mut self, ast: &AstNode, blhs: &AstNode, bop: Operator, brhs: &AstNode) -> (r: Result<
        Flow,
        Error,
    >)
        requires
            old(self).wf(),
            ast@.kind == (AstKindV::BinaryExpression {
                lhs: Box::new(blhs@),
                op: bop,
                rhs: Box::new(brhs@),
            }),
            decreases_to!(*ast => *blhs),
            decreases_to!(*ast => *brhs),
        ensures
            final(self).wf(),
            final(self).scopes@.len() == old(self).scopes@.len(),
            match r {
                Ok(flow) => final(self).scopes@.len() == old(self).scopes@.len() && exists|f: nat|
                    eval_node(ast@, old(self).st(), f) == Some(
                        Ok::<(FlowV, StV), ErrorV>((flow@, final(self).st())),
                    ),
                Err(e) => (exists|f: nat|
                    eval_node(ast@, old(self).st(), f) == Some(
                        Err::<(FlowV, StV), ErrorV>(e@),
                    )) || (e@.kind == ErrorKindV::Runtime(RuntimeErrorV::LoopLimit)
                    && eval_node(ast@, old(self).st(), 0) is None),
            },
        decreases *ast, 0int,
    {
        let ghost nv = ast@;
        let ghost st0 = self.st();

                let bspan = Span {
                    start: blhs.span.start,
                    end: brhs.span.end,
                    source: ast.span.source,
                };
                let ghost lv_n = blhs@;
                let ghost rv_n = brhs@;
                let lflow = match self.interpret(blhs) {
                    Ok(fl) => fl,
                    Err(e) => {
                        proof {
                            if exists|f: nat|
                                eval_node(lv_n, st0, f) == Some(
                                    Err::<(FlowV, StV), ErrorV>(e@),
                                ) {
                                let f1 = choose|f: nat|
                                    eval_node(lv_n, st0, f) == Some(
                                        Err::<(FlowV, StV), ErrorV>(e@),
                                    );
                                assert(eval_node(nv, st0, f1) == Some(
                                    Err::<(FlowV, StV), ErrorV>(e@),
                                ));
                            }
                        }
                        return Err(e);
                    },
                };
                let ghost f1 = choose|f: nat|
                    eval_node(lv_n, st0, f) == Some(
                        Ok::<(FlowV, StV), ErrorV>((lflow@, self.st())),
                    );
                let ghost st1 = self.st();
                let lval = match lflow {
                    Flow::Normal(v) => v,
                    other => {
                        proof {
                            assert(eval_node(nv, st0, f1) == Some(
                                Ok::<(FlowV, StV), ErrorV>((other@, self.st())),
                            ));
                        }
                        return Ok(other);
                    },
                };
                let is_and = matches!(bop, Operator::And);
                let is_or = matches!(bop, Operator::Or);
                if is_and && !lval.is_truthy() {
                    let out = Flow::Normal(
                        Value { kind: ValueKind::Boolean(false), span: bspan },
                    );
                    proof {
                        assert(eval_node(nv, st0, f1) == Some(
                            Ok::<(FlowV, StV), ErrorV>((out@, self.st())),
                        ));
                    }
                    return Ok(out);
                }
                if is_or && lval.is_truthy() {
                    let out = Flow::Normal(lval);
                    proof {
                        assert(eval_node(nv, st0, f1) == Some(
                            Ok::<(FlowV, StV), ErrorV>((out@, self.st())),
                        ));
                    }
                    return Ok(out);
                }
                let ghost lvv = lval@;
                let rflow = match self.interpret(brhs) {
                    Ok(fl) => fl,
                    Err(e) => {
                        proof {
                            if exists|f: nat|
                                eval_node(rv_n, st1, f) == Some(
                                    Err::<(FlowV, StV), ErrorV>(e@),
                                ) {
                                let f2 = choose|f: nat|
                                    eval_node(rv_n, st1, f) == Some(
                                        Err::<(FlowV, StV), ErrorV>(e@),
                                    );
                                let bigf = f1 + f2;
                                lemma_eval_node_mono(lv_n, st0, f1, bigf);
                                lemma_eval_node_mono(rv_n, st1, f2, bigf);
                                assert(eval_node(nv, st0, bigf) == Some(
                                    Err::<(FlowV, StV), ErrorV>(e@),
                                ));
                            } else {
                                assert(eval_node(rv_n, st1, 0) is None);
                                if eval_node(lv_n, st0, 0) is Some {
                                    lemma_eval_node_mono(lv_n, st0, 0, f1);
                                }
                                assert(eval_node(nv, st0, 0) is None);
                            }
                        }
                        return Err(e);
                    },
                };
                let ghost f2 = choose|f: nat|
                    eval_node(rv_n, st1, f) == Some(
                        Ok::<(FlowV, StV), ErrorV>((rflow@, self.st())),
                    );
                let ghost bigf = f1 + f2;
                proof {
                    lemma_eval_node_mono(lv_n, st0, f1, bigf);
                    lemma_eval_node_mono(rv_n, st1, f2, bigf);
                }
                let rval = match rflow {
                    Flow::Normal(v) => v,
                    other => {
                        proof {
                            assert(eval_node(nv, st0, bigf) == Some(
                                Ok::<(FlowV, StV), ErrorV>((other@, self.st())),
                            ));
                        }
                        return Ok(other);
                    },
                };
                if is_and {
                    let out = Flow::Normal(
                        Value {
                            kind: ValueKind::Boolean(rval.is_truthy()),
                            span: bspan,
                        },
                    );
                    proof {
                        assert(eval_node(nv, st0, bigf) == Some(
                            Ok::<(FlowV, StV), ErrorV>((out@, self.st())),
                        ));
                    }
                    Ok(out)
                } else if is_or {
                    let out = if rval.is_truthy() {
                        Flow::Normal(rval)
                    } else {
                        Flow::Normal(Value { kind: ValueKind::Boolean(false), span: bspan })
                    };
                    proof {
                        assert(eval_node(nv, st0, bigf) == Some(
                            Ok::<(FlowV, StV), ErrorV>((out@, self.st())),
                        ));
                    }
                    Ok(out)
                } else {
                    match lval.binary_op(bop, &rval) {
                        Ok(w) => {
                            let out = Flow::Normal(w);
                            proof {
                                assert(eval_node(nv, st0, bigf) == Some(
                                    Ok::<(FlowV, StV), ErrorV>((out@, self.st())),
                                ));
                            }
                            Ok(out)
                        },
                        Err(e) => {
                            proof {
                                assert(eval_node(nv, st0, bigf) == Some(
                                    Err::<(FlowV, StV), ErrorV>(e@),
                                ));
                            }
                            Err(e)
                        },
                    }
                }
            
    }


    /// One conditional: evaluate the condition's truthiness, then
    /// exactly one of the body and the else branch; no else branch and a
    /// falsy condition yield null.
    #[verifier::rlimit(100)]
    fn interpret_if(&mut self, ast: &AstNode, icond: &AstNode, ibody: &AstNode, iels: Option<&AstNode>) -> (r: Result<
        Flow,
        Error,
    >)
        requires
            old(self).wf(),
            ast@.kind == (AstKindV::If {
                condition: Box::new(icond@),
                body: Box::new(ibody@),
                else_branch: match iels {
                    Some(e) => Some(Box::new(e@)),
                    None => None,
                },
            }),
            decreases_to!(*ast => *icond),
            decreases_to!(*ast => *ibody),
            iels matches Some(e) ==> decreases_to!(*ast => *e),
        ensures
            final(self).wf(),
            final(self).scopes@.len() == old(self).scopes@.len(),
            match r {
                Ok(flow) => final(self).scopes@.len() == old(self).scopes@.len() && exists|f: nat|
                    eval_node(ast@, old(self).st(), f) == Some(
                        Ok::<(FlowV, StV), ErrorV>((flow@, final(self).st())),
                    ),
                Err(e) => (exists|f: nat|
                    eval_node(ast@, old(self).st(), f) == Some(
                        Err::<(FlowV, StV), ErrorV>(e@),
                    )) || (e@.kind == ErrorKindV::Runtime(RuntimeErrorV::LoopLimit)
                    && eval_node(ast@, old(self).st(), 0) is None),
            },
        decreases *ast, 0int,
    {
        let ghost nv = ast@;
        let ghost st0 = self.st();

                let ghost cv = icond@;
                let cflow = match self.interpret(icond) {
                    Ok(fl) => fl,
                    Err(e) => {
                        proof {
                            if exists|f: nat|
                                eval_node(cv, st0, f) == Some(Err::<(FlowV, StV), ErrorV>(e@)) {
                                let f1 = choose|f: nat|
                                    eval_node(cv, st0, f) == Some(
                                        Err::<(FlowV, StV), ErrorV>(e@),
                                    );
                                assert(eval_node(nv, st0, f1) == Some(
                                    Err::<(FlowV, StV), ErrorV>(e@),
                                ));
                            }
                        }
                        return Err(e);
                    },
                };
                let ghost fc = choose|f: nat|
                    eval_node(cv, st0, f) == Some(
                        Ok::<(FlowV, StV), ErrorV>((cflow@, self.st())),
                    );
                let ghost st1 = self.st();
                match cflow {
                    Flow::Normal(c) => {
                        if c.is_truthy() {
                            let ghost bv = ibody@;
                            let r = self.interpret(ibody);
                            proof {
                                match &r {
                                    Ok(fl) => {
                                        let fb = choose|f: nat|
                                            eval_node(bv, st1, f) == Some(
                                                Ok::<(FlowV, StV), ErrorV>((fl@, self.st())),
                                            );
                                        let bigf = fc + fb;
                                        lemma_eval_node_mono(cv, st0, fc, bigf);
                                        lemma_eval_node_mono(bv, st1, fb, bigf);
                                        assert(eval_node(nv, st0, bigf) == Some(
                                            Ok::<(FlowV, StV), ErrorV>((fl@, self.st())),
                                        ));
                                    },
                                    Err(e) => {
                                        if exists|f: nat|
                                            eval_node(bv, st1, f) == Some(
                                                Err::<(FlowV, StV), ErrorV>(e@),
                                            ) {
                                            let fb = choose|f: nat|
                                                eval_node(bv, st1, f) == Some(
                                                    Err::<(FlowV, StV), ErrorV>(e@),
                                                );
                                            let bigf = fc + fb;
                                            lemma_eval_node_mono(cv, st0, fc, bigf);
                                            lemma_eval_node_mono(bv, st1, fb, bigf);
                                            assert(eval_node(nv, st0, bigf) == Some(
                                                Err::<(FlowV, StV), ErrorV>(e@),
                                            ));
                                        } else {
                                            assert(eval_node(bv, st1, 0) is None);
                                            if eval_node(cv, st0, 0) is Some {
                                                lemma_eval_node_mono(cv, st0, 0, fc);
                                            }
                                            assert(eval_node(nv, st0, 0) is None);
                                        }
                                    },
                                }
                            }
                            match r {
                                Ok(fl) => Ok(fl),
                                Err(e) => {
                                    Err(e)
                                },
                            }
                        } else {
                            match iels {
                                Some(els) => {
                                    let ghost ev2 = els@;
                                    let r = self.interpret(els);
                                    proof {
                                        match &r {
                                            Ok(fl) => {
                                                let fb = choose|f: nat|
                                                    eval_node(ev2, st1, f) == Some(
                                                        Ok::<(FlowV, StV), ErrorV>(
                                                            (fl@, self.st()),
                                                        ),
                                                    );
                                                let bigf = fc + fb;
                                                lemma_eval_node_mono(cv, st0, fc, bigf);
                                                lemma_eval_node_mono(ev2, st1, fb, bigf);
                                                assert(eval_node(nv, st0, bigf) == Some(
                                                    Ok::<(FlowV, StV), ErrorV>((fl@, self.st())),
                                                ));
                                            },
                                            Err(e) => {
                                                if exists|f: nat|
                                                    eval_node(ev2, st1, f) == Some(
                                                        Err::<(FlowV, StV), ErrorV>(e@),
                                                    ) {
                                                    let fb = choose|f: nat|
                                                        eval_node(ev2, st1, f) == Some(
                                                            Err::<(FlowV, StV), ErrorV>(e@),
                                                        );
                                                    let bigf = fc + fb;
                                                    lemma_eval_node_mono(cv, st0, fc, bigf);
                                                    lemma_eval_node_mono(ev2, st1, fb, bigf);
                                                    assert(eval_node(nv, st0, bigf) == Some(
                                                        Err::<(FlowV, StV), ErrorV>(e@),
                                                    ));
                                                } else {
                                                    assert(eval_node(ev2, st1, 0) is None);
                                                    if eval_node(cv, st0, 0) is Some {
                                                        lemma_eval_node_mono(cv, st0, 0, fc);
                                                    }
                                                    assert(eval_node(nv, st0, 0) is None);
                                                }
                                            },
                                        }
                                    }
                                    match r {
                                        Ok(fl) => Ok(fl),
                                        Err(e) => {
                                            Err(e)
                                        },
                                    }
                                },
                                None => {
                                    let out = Flow::Normal(
                                        Value { kind: ValueKind::Null, span: ast.span },
                                    );
                                    proof {
                                        assert(eval_node(nv, st0, fc) == Some(
                                            Ok::<(FlowV, StV), ErrorV>((out@, self.st())),
                                        ));
                                    }
                                    Ok(out)
                                },
                            }
                        }
                    },
                    _ => {
                        proof {
                            assert(eval_node(nv, st0, fc) == Some(
                                Ok::<(FlowV, StV), ErrorV>((cflow@, self.st())),
                            ));
                        }
                        Ok(cflow)
                    },
                }
            
    }


    /// One assignment: a declaration binds the name in the innermost
    /// frame; a re-assignment mutates the innermost existing binding or
    /// fails as an undefined variable.
    #[verifier::rlimit(100)]
    fn interpret_assignment(&mut self, ast: &AstNode, name: &String, avalue: &AstNode, adecl: bool) -> (r: Result<
        Flow,
        Error,
    >)
        requires
            old(self).wf(),
            ast@.kind == (AstKindV::Assignment {
                name: name@,
                value: Box::new(avalue@),
                declaration: adecl,
            }),
            decreases_to!(*ast => *avalue),
        ensures
            final(self).wf(),
            final(self).scopes@.len() == old(self).scopes@.len(),
            match r {
                Ok(flow) => exists|f: nat|
                    eval_node(ast@, old(self).st(), f) == Some(
                        Ok::<(FlowV, StV), ErrorV>((flow@, final(self).st())),
                    ),
                Err(e) => (exists|f: nat|
                    eval_node(ast@, old(self).st(), f) == Some(
                        Err::<(FlowV, StV), ErrorV>(e@),
                    )) || (e@.kind == ErrorKindV::Runtime(RuntimeErrorV::LoopLimit)
                    && eval_node(ast@, old(self).st(), 0) is None),
            },
        decreases *ast, 0int,
    {
        let ghost nv = ast@;
        let ghost st0 = self.st();

                let ghost ev = avalue@;
                let flow = match self.interpret(avalue) {
                    Ok(fl) => fl,
                    Err(e) => {
                        proof {
                            if exists|f: nat|
                                eval_node(ev, st0, f) == Some(Err::<(FlowV, StV), ErrorV>(e@)) {
                                let f1 = choose|f: nat|
                                    eval_node(ev, st0, f) == Some(
                                        Err::<(FlowV, StV), ErrorV>(e@),
                                    );
                                assert(eval_node(nv, st0, f1) == Some(
                                    Err::<(FlowV, StV), ErrorV>(e@),
                                ));
                            }
                        }
                        return Err(e);
                    },
                };
                let ghost f1 = choose|f: nat|
                    eval_node(ev, st0, f) == Some(
                        Ok::<(FlowV, StV), ErrorV>((flow@, self.st())),
                    );
                match flow {
                    Flow::Normal(v) => {
                        let ghost st1 = self.st();
                        let ghost vv = v@;
                        if adecl {
                            self.declare_var(name.clone(), v);
                            let out = Flow::Normal(
                                Value { kind: ValueKind::Null, span: ast.span },
                            );
                            proof {
                                assert(eval_node(nv, st0, f1) == Some(
                                    Ok::<(FlowV, StV), ErrorV>((out@, self.st())),
                                ));
                            }
                            Ok(out)
                        } else {
                            if self.assign_var(name, v) {
                                let out = Flow::Normal(
                                    Value { kind: ValueKind::Null, span: ast.span },
                                );
                                proof {
                                    assert(eval_node(nv, st0, f1) == Some(
                                        Ok::<(FlowV, StV), ErrorV>((out@, self.st())),
                                    ));
                                }
                                Ok(out)
                            } else {
                                let e = Error {
                                    span: ast.span,
                                    kind: ErrorKind::Runtime(
                                        RuntimeError::UndefinedVariable { name: name.clone() },
                                    ),
                                };
                                proof {
                                    assert(eval_node(nv, st0, f1) == Some(
                                        Err::<(FlowV, StV), ErrorV>(e@),
                                    ));
                                }
                                Err(e)
                            }
                        }
                    },
                    _ => {
                        proof {
                            assert(eval_node(nv, st0, f1) == Some(
                                Ok::<(FlowV, StV), ErrorV>((flow@, self.st())),
                            ));
                        }
                        Ok(flow)
                    },
                }
            
    }


    /// One unary operation: numeric negation needs a numeric operand,
    /// logical not goes through truthiness, and unary plus is identity.
    #[verifier::rlimit(100)]
    fn interpret_unary(&mut self, ast: &AstNode, uop: UnaryOperator, uexpr: &AstNode) -> (r: Result<
        Flow,
        Error,
    >)
        requires
            old(self).wf(),
            ast@.kind == (AstKindV::UnaryExpression { op: uop, expr: Box::new(uexpr@) }),
            decreases_to!(*ast => *uexpr),
        ensures
            final(self).wf(),
            final(self).scopes@.len() == old(self).scopes@.len(),
            match r {
                Ok(flow) => exists|f: nat|
                    eval_node(ast@, old(self).st(), f) == Some(
                        Ok::<(FlowV, StV), ErrorV>((flow@, final(self).st())),
                    ),
                Err(e) => (exists|f: nat|
                    eval_node(ast@, old(self).st(), f) == Some(
                        Err::<(FlowV, StV), ErrorV>(e@),
                    )) || (e@.kind == ErrorKindV::Runtime(RuntimeErrorV::LoopLimit)
                    && eval_node(ast@, old(self).st(), 0) is None),
            },
        decreases *ast, 0int,
    {
        let ghost nv = ast@;
        let ghost st0 = self.st();

                let ghost ev = uexpr@;
                let flow = match self.interpret(uexpr) {
                    Ok(fl) => fl,
                    Err(e) => {
                        proof {
                            if exists|f: nat|
                                eval_node(ev, st0, f) == Some(Err::<(FlowV, StV), ErrorV>(e@)) {
                                let f1 = choose|f: nat|
                                    eval_node(ev, st0, f) == Some(
                                        Err::<(FlowV, StV), ErrorV>(e@),
                                    );
                                assert(eval_node(nv, st0, f1) == Some(
                                    Err::<(FlowV, StV), ErrorV>(e@),
                                ));
                            }
                        }
                        return Err(e);
                    },
                };
                let ghost f1 = choose|f: nat|
                    eval_node(ev, st0, f) == Some(
                        Ok::<(FlowV, StV), ErrorV>((flow@, self.st())),
                    );
                match flow {
                    Flow::Normal(v) => match uop {
                        UnaryOperator::Plus => {
                            proof {
                                assert(eval_node(nv, st0, f1) == Some(
                                    Ok::<(FlowV, StV), ErrorV>((FlowV::Normal(v@), self.st())),
                                ));
                            }
                            Ok(Flow::Normal(v))
                        },
                        UnaryOperator::Minus => match v.negate() {
                            Ok(w) => {
                                proof {
                                    assert(spec_negate_value(v@) == Ok::<ValueV, ErrorV>(w@));
                                    assert(eval_node(nv, st0, f1) == Some(
                                        Ok::<(FlowV, StV), ErrorV>(
                                            (FlowV::Normal(w@), self.st()),
                                        ),
                                    ));
                                }
                                Ok(Flow::Normal(w))
                            },
                            Err(e) => {
                                proof {
                                    assert(spec_negate_value(v@) == Err::<ValueV, ErrorV>(e@));
                                    assert(eval_node(nv, st0, f1) == Some(
                                        Err::<(FlowV, StV), ErrorV>(e@),
                                    ));
                                }
                                Err(e)
                            },
                        },
                        UnaryOperator::Not => {
                            let flow2 = Flow::Normal(
                                Value {
                                    kind: ValueKind::Boolean(!v.is_truthy()),
                                    span: ast.span,
                                },
                            );
                            proof {
                                assert(eval_node(nv, st0, f1) == Some(
                                    Ok::<(FlowV, StV), ErrorV>((flow2@, self.st())),
                                ));
                            }
                            Ok(flow2)
                        },
                    },
                    _ => {
                        proof {
                            assert(eval_node(nv, st0, f1) == Some(
                                Ok::<(FlowV, StV), ErrorV>((flow@, self.st())),
                            ));
                        }
                        Ok(flow)
                    },
                }
            
    }

    /// Evaluate the statements of a block from position `i` on; `last`
    /// carries the most recent statement's value.
    fn eval_block_exec(&mut self, stmts: &Vec<AstNode>, i: usize, last: Value) -> (r: Result<
        Flow,
        Error,
    >)
        requires
            old(self).wf(),
            i <= stmts@.len(),
        ensures
            final(self).wf(),
            final(self).scopes@.len() == old(self).scopes@.len(),
            match r {
                Ok(flow) => final(self).scopes@.len() == old(self).scopes@.len() && exists|f: nat|
                    eval_block(
                        view_ast_seq_of(stmts@).skip(i as int),
                        old(self).st(),
                        last@,
                        f,
                    ) == Some(Ok::<(FlowV, StV), ErrorV>((flow@, final(self).st()))),
                Err(e) => (exists|f: nat|
                    eval_block(
                        view_ast_seq_of(stmts@).skip(i as int),
                        old(self).st(),
                        last@,
                        f,
                    ) == Some(Err::<(FlowV, StV), ErrorV>(e@))) || (e@.kind
                    == ErrorKindV::Runtime(RuntimeErrorV::LoopLimit) && eval_block(
                    view_ast_seq_of(stmts@).skip(i as int),
                    old(self).st(),
                    last@,
                    0,
                ) is None),
            },
        decreases *stmts, stmts@.len() - i,
    {
        let ghost sv = view_ast_seq_of(stmts@);
        let ghost st0 = self.st();
        if i >= stmts.len() {
            proof {
                crate::ast::lemma_view_ast_seq(stmts@);
                assert(sv.skip(i as int) =~= Seq::<AstV>::empty());
            }
            return Ok(Flow::Normal(last));
        }
        proof {
            broadcast use vstd::std_specs::vec::axiom_vec_index_decreases;

            crate::ast::lemma_view_ast_seq(stmts@);
            assert(sv.skip(i as int)[0] == sv[i as int]);
        }
        let ghost head = stmts@[i as int]@;
        let flow = match self.interpret(&stmts[i]) {
            Ok(fl) => fl,
            Err(e) => {
                proof {
                    if exists|f: nat|
                        eval_node(head, st0, f) == Some(Err::<(FlowV, StV), ErrorV>(e@)) {
                        let f1 = choose|f: nat|
                            eval_node(head, st0, f) == Some(Err::<(FlowV, StV), ErrorV>(e@));
                        assert(eval_block(sv.skip(i as int), st0, last@, f1) == Some(
                            Err::<(FlowV, StV), ErrorV>(e@),
                        ));
                    } else {
                        assert(eval_node(head, st0, 0) is None);
                        assert(eval_block(sv.skip(i as int), st0, last@, 0) is None);
                    }
                }
                return Err(e);
            },
        };
        let ghost f1 = choose|f: nat|
            eval_node(head, st0, f) == Some(Ok::<(FlowV, StV), ErrorV>((flow@, self.st())));
        let ghost st1 = self.st();
        match flow {
            Flow::Normal(v) => {
                let ghost vv = v@;
                let r = self.eval_block_exec(stmts, i + 1, v);
                let ghost sv2 = sv.skip(i + 1);
                proof {
                    assert(sv.skip(i as int).drop_first() =~= sv2);
                }
                match r {
                    Ok(fl) => {
                        proof {
                            let f2 = choose|f: nat|
                                eval_block(sv2, st1, vv, f) == Some(
                                    Ok::<(FlowV, StV), ErrorV>((fl@, self.st())),
                                );
                            let bigf = f1 + f2;
                            lemma_eval_node_mono(head, st0, f1, bigf);
                            lemma_eval_block_mono(sv2, st1, vv, f2, bigf);
                            assert(eval_block(sv.skip(i as int), st0, last@, bigf) == Some(
                                Ok::<(FlowV, StV), ErrorV>((fl@, self.st())),
                            ));
                        }
                        Ok(fl)
                    },
                    Err(e) => {
                        proof {
                            if exists|f: nat|
                                eval_block(sv2, st1, vv, f) == Some(
                                    Err::<(FlowV, StV), ErrorV>(e@),
                                ) {
                                let f2 = choose|f: nat|
                                    eval_block(sv2, st1, vv, f) == Some(
                                        Err::<(FlowV, StV), ErrorV>(e@),
                                    );
                                let bigf = f1 + f2;
                                lemma_eval_node_mono(head, st0, f1, bigf);
                                lemma_eval_block_mono(sv2, st1, vv, f2, bigf);
                                assert(eval_block(sv.skip(i as int), st0, last@, bigf) == Some(
                                    Err::<(FlowV, StV), ErrorV>(e@),
                                ));
                            } else {
                                assert(eval_block(sv2, st1, vv, 0) is None);
                                if eval_node(head, st0, 0) is Some {
                                    lemma_eval_node_mono(head, st0, 0, f1);
                                }
                                assert(eval_block(sv.skip(i as int), st0, last@, 0) is None);
                            }
                        }
                        Err(e)
                    },
                }
            },
            other => {
                proof {
                    assert(eval_block(sv.skip(i as int), st0, last@, f1) == Some(
                        Ok::<(FlowV, StV), ErrorV>((other@, self.st())),
                    ));
                }
                Ok(other)
            },
        }
    }
}

/// The values of a sequence of nodes, as the tree's view takes them.
pub open spec fn view_ast_seq_of(s: Seq<AstNode>) -> Seq<AstV> {
    crate::ast::view_ast_seq(s)
}

} // verus!

verus! {

/// A name is bound in the scope stack exactly when some frame holds it.
pub proof fn lemma_lookup_none_iff_unbound(fr: StV, name: Seq<char>)
    ensures
        lookup_frames(fr, name) is None <==> forall|j: int|
            0 <= j < fr.len() ==> !(#[trigger] fr[j].dom().contains(name)),
    decreases fr.len(),
{
    if fr.len() > 0 {
        lemma_lookup_none_iff_unbound(fr.drop_last(), name);
        assert(forall|j: int| 0 <= j < fr.len() - 1 ==> fr.drop_last()[j] == fr[j]);
    }
}

/// Re-assignment finds a frame to mutate exactly when the name is bound:
/// an assignment without `let` to a name no enclosing frame declares is
/// the undefined-variable error, as the evaluator's assignment case
/// shows.
pub proof fn lemma_assign_iff_lookup(fr: StV, name: Seq<char>, v: ValueV)
    ensures
        assign_frames(fr, name, v) is None <==> lookup_frames(fr, name) is None,
    decreases fr.len(),
{
    if fr.len() > 0 && !fr.last().dom().contains(name) {
        lemma_assign_iff_lookup(fr.drop_last(), name, v);
    }
}

/// Re-binding a name changes no frame's domain: values move, names do
/// not appear or disappear.
proof fn lemma_assign_keeps_doms(fr: StV, name: Seq<char>, v: ValueV, fr2: StV)
    requires
        assign_frames(fr, name, v) == Some(fr2),
    ensures
        fr2.len() == fr.len(),
        forall|j: int| 0 <= j < fr.len() ==> (#[trigger] fr2[j].dom()) =~= fr[j].dom(),
    decreases fr.len(),
{
    if fr.len() > 0 {
        if fr.last().dom().contains(name) {
            assert(fr2 == fr.update(fr.len() - 1, fr.last().insert(name, v)));
            assert(fr.last().insert(name, v).dom() =~= fr.last().dom());
        } else {
            let inner = choose|g: StV| assign_frames(fr.drop_last(), name, v) == Some(g);
            lemma_assign_keeps_doms(fr.drop_last(), name, v, inner);
            assert(fr2 == inner.push(fr.last()));
            assert(forall|j: int|
                0 <= j < fr.len() - 1 ==> (#[trigger] fr2[j]) == inner[j] && fr.drop_last()[j]
                    == fr[j]);
        }
    }
}

/// Evaluation preserves the scope stack's depth, and the domain of every
/// frame but the innermost: blocks pop the frame they push on every
/// exit, and only the innermost frame ever gains a name.
#[verifier::rlimit(100)]
pub proof fn lemma_eval_frames(n: AstV, st: StV, fuel: nat, flow: FlowV, st2: StV)
    requires
        st.len() >= 1,
        eval_node(n, st, fuel) == Some(Ok::<(FlowV, StV), ErrorV>((flow, st2))),
    ensures
        st2.len() == st.len(),
        forall|j: int| 0 <= j < st.len() - 1 ==> (#[trigger] st2[j].dom()) =~= st[j].dom(),
    decreases fuel, n, 1int,
{
    match n.kind {
        AstKindV::UnaryExpression { op, expr } => {
            match eval_node(*expr, st, fuel) {
                Some(Ok((f1, s1))) => {
                    lemma_eval_frames(*expr, st, fuel, f1, s1);
                },
                _ => {},
            }
        },
        AstKindV::BinaryExpression { lhs, op, rhs } => {
            match eval_node(*lhs, st, fuel) {
                Some(Ok((f1, s1))) => {
                    lemma_eval_frames(*lhs, st, fuel, f1, s1);
                    match eval_node(*rhs, s1, fuel) {
                        Some(Ok((f2, s2))) => {
                            lemma_eval_frames(*rhs, s1, fuel, f2, s2);
                        },
                        _ => {},
                    }
                },
                _ => {},
            }
        },
        AstKindV::Assignment { name, value, declaration } => {
            match eval_node(*value, st, fuel) {
                Some(Ok((f1, s1))) => {
                    lemma_eval_frames(*value, st, fuel, f1, s1);
                    match f1 {
                        FlowV::Normal(v) => {
                            if declaration {
                                assert(forall|j: int|
                                    0 <= j < s1.len() - 1 ==> (#[trigger] st2[j]) == s1[j]);
                            } else {
                                match assign_frames(s1, name, v) {
                                    Some(s2) => {
                                        lemma_assign_keeps_doms(s1, name, v, s2);
                                    },
                                    None => {},
                                }
                            }
                        },
                        _ => {},
                    }
                },
                _ => {},
            }
        },
        AstKindV::Block { expressions } => {
            let stp = st.push(Map::empty());
            match eval_block(expressions, stp, null_at(n.span), fuel) {
                Some(Ok((f1, s1))) => {
                    lemma_eval_block_frames(expressions, stp, null_at(n.span), fuel, f1, s1);
                    assert(forall|j: int| 0 <= j < st.len() ==> stp[j] == st[j]);
                    assert(forall|j: int|
                        0 <= j < st.len() ==> (#[trigger] st2[j]) == s1[j]);
                },
                _ => {},
            }
        },
        AstKindV::If { condition, body, else_branch } => {
            match eval_node(*condition, st, fuel) {
                Some(Ok((f1, s1))) => {
                    lemma_eval_frames(*condition, st, fuel, f1, s1);
                    match f1 {
                        FlowV::Normal(c) => {
                            if spec_truthy(c.kind) {
                                match eval_node(*body, s1, fuel) {
                                    Some(Ok((f2, s2))) => {
                                        lemma_eval_frames(*body, s1, fuel, f2, s2);
                                    },
                                    _ => {},
                                }
                            } else {
                                match else_branch {
                                    Some(e) => {
                                        match eval_node(*e, s1, fuel) {
                                            Some(Ok((f2, s2))) => {
                                                lemma_eval_frames(*e, s1, fuel, f2, s2);
                                            },
                                            _ => {},
                                        }
                                    },
                                    None => {},
                                }
                            }
                        },
                        _ => {},
                    }
                },
                _ => {},
            }
        },
        AstKindV::Else { body } => {
            lemma_eval_frames(*body, st, fuel, flow, st2);
        },
        AstKindV::Print { expression } => {
            match eval_node(*expression, st, fuel) {
                Some(Ok((f1, s1))) => {
                    lemma_eval_frames(*expression, st, fuel, f1, s1);
                },
                _ => {},
            }
        },
        AstKindV::While { condition, body } => {
            lemma_eval_while_frames(n, st, null_at(n.span), fuel, flow, st2);
        },
        AstKindV::FunctionDefinition { params, body, name } => {
            assert(forall|j: int| 0 <= j < st.len() - 1 ==> (#[trigger] st2[j]) == st[j]);
        },
        _ => {},
    }
}

/// Running a block's statements preserves the stack's depth and the
/// domains of all frames but the innermost.
proof fn lemma_eval_block_frames(
    stmts: Seq<AstV>,
    st: StV,
    last: ValueV,
    fuel: nat,
    flow: FlowV,
    st2: StV,
)
    requires
        st.len() >= 1,
        eval_block(stmts, st, last, fuel) == Some(Ok::<(FlowV, StV), ErrorV>((flow, st2))),
    ensures
        st2.len() == st.len(),
        forall|j: int| 0 <= j < st.len() - 1 ==> (#[trigger] st2[j].dom()) =~= st[j].dom(),
    decreases fuel, stmts, 0int,
{
    if stmts.len() > 0 {
        match eval_node(stmts[0], st, fuel) {
            Some(Ok((f1, s1))) => {
                lemma_eval_frames(stmts[0], st, fuel, f1, s1);
                match f1 {
                    FlowV::Normal(v) => {
                        lemma_eval_block_frames(stmts.drop_first(), s1, v, fuel, flow, st2);
                    },
                    _ => {},
                }
            },
            _ => {},
        }
    }
}

/// Iterating a while loop preserves the stack's depth and the domains of
/// all frames but the innermost.
proof fn lemma_eval_while_frames(
    n: AstV,
    st: StV,
    last: ValueV,
    fuel: nat,
    flow: FlowV,
    st2: StV,
)
    requires
        st.len() >= 1,
        eval_while(n, st, last, fuel) == Some(Ok::<(FlowV, StV), ErrorV>((flow, st2))),
    ensures
        st2.len() == st.len(),
        forall|j: int| 0 <= j < st.len() - 1 ==> (#[trigger] st2[j].dom()) =~= st[j].dom(),
    decreases fuel, n, 0int,
{
    match n.kind {
        AstKindV::While { condition, body } => {
            match eval_node(*condition, st, fuel) {
                Some(Ok((cf, s1))) => {
                    lemma_eval_frames(*condition, st, fuel, cf, s1);
                    match cf {
                        FlowV::Normal(c) => {
                            if spec_truthy(c.kind) {
                                match eval_node(*body, s1, fuel) {
                                    Some(Ok((bf, s2))) => {
                                        lemma_eval_frames(*body, s1, fuel, bf, s2);
                                        match bf {
                                            FlowV::Normal(v) => {
                                                if fuel > 0 {
                                                    lemma_eval_while_frames(
                                                        n,
                                                        s2,
                                                        v,
                                                        (fuel - 1) as nat,
                                                        flow,
                                                        st2,
                                                    );
                                                }
                                            },
                                            FlowV::Continue(_) => {
                                                if fuel > 0 {
                                                    lemma_eval_while_frames(
                                                        n,
                                                        s2,
                                                        last,
                                                        (fuel - 1) as nat,
                                                        flow,
                                                        st2,
                                                    );
                                                }
                                            },
                                            _ => {},
                                        }
                                    },
                                    _ => {},
                                }
                            }
                        },
                        _ => {},
                    }
                },
                _ => {},
            }
        },
        _ => {},
    }
}

/// Re-assignment without `let` to a name no enclosing frame binds is
/// exactly the undefined-variable error, once the right hand side has a
/// value.
pub proof fn lemma_reassignment_unbound_fails(
    n: AstV,
    st: StV,
    fuel: nat,
    name: Seq<char>,
    value: Box<AstV>,
    v: ValueV,
    st1: StV,
)
    requires
        n.kind == (AstKindV::Assignment { name, value, declaration: false }),
        eval_node(*value, st, fuel) == Some(
            Ok::<(FlowV, StV), ErrorV>((FlowV::Normal(v), st1)),
        ),
        lookup_frames(st1, name) is None,
    ensures
        eval_node(n, st, fuel) == Some(
            Err::<(FlowV, StV), ErrorV>(
                ErrorV {
                    span: n.span,
                    kind: ErrorKindV::Runtime(RuntimeErrorV::UndefinedVariable { name }),
                },
            ),
        ),
{
    lemma_assign_iff_lookup(st1, name, v);
}

/// A variable declared inside a block is not visible once the block's
/// frame is popped: a name unbound before a block stays unbound after
/// it, whatever the block declared.
pub proof fn lemma_block_scope_discarded(
    n: AstV,
    st: StV,
    fuel: nat,
    flow: FlowV,
    st2: StV,
    name: Seq<char>,
)
    requires
        st.len() >= 1,
        n.kind is Block,
        eval_node(n, st, fuel) == Some(Ok::<(FlowV, StV), ErrorV>((flow, st2))),
        lookup_frames(st, name) is None,
    ensures
        lookup_frames(st2, name) is None,
{
    lemma_eval_frames(n, st, fuel, flow, st2);
    lemma_lookup_none_iff_unbound(st, name);
    lemma_lookup_none_iff_unbound(st2, name);
    let stp = st.push(Map::empty());
    match n.kind {
        AstKindV::Block { expressions } => {
            match eval_block(expressions, stp, null_at(n.span), fuel) {
                Some(Ok((f1, s1))) => {
                    lemma_eval_block_frames(expressions, stp, null_at(n.span), fuel, f1, s1);
                    assert(st2 == s1.drop_last());
                    assert forall|j: int| 0 <= j < st.len() implies !(#[trigger] st2[j].dom().contains(
                        name,
                    )) by {
                        assert(stp[j] == st[j]);
                        assert(s1[j].dom() =~= stp[j].dom());
                        assert(st2[j] == s1[j]);
                    }
                },
                _ => {
                    assert(false);
                },
            }
        },
        _ => {
            assert(false);
        },
    }
}

} // verus!
