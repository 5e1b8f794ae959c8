use helix::ast::{AstNode, AstNodeKind};
use helix::error::{Error, ErrorKind, ParserError};
use helix::lexer::Lexer;
use helix::parser::Parser;
use helix::program::Source;
use helix::token::{Operator, TokenKind, UnaryOperator};

fn parse(source: &str) -> Result<AstNode, Error> {
    let tokens = Lexer::new(0, &Source::new("<test>".to_string(), source.to_string()))
        .tokenize()
        .expect("test case did not tokenize properly");
    Parser::new(tokens).parse()
}

#[test]
fn test_literals() {
    assert!(matches!(parse("1").unwrap().kind, AstNodeKind::IntegerLiteral(1)));
    assert!(matches!(parse("555").unwrap().kind, AstNodeKind::IntegerLiteral(555)));
    assert!(match parse("23.11").unwrap().kind {
        AstNodeKind::FloatLiteral(d) => (d.scaled as f64 / 1e6 - 23.11).abs() < f64::EPSILON,
        _ => false,
    });
}

#[test]
fn test_unary_operators() {
    let node = parse("-20").unwrap();
    let operand = match node.kind {
        AstNodeKind::UnaryExpression { op: UnaryOperator::Minus, expr } => expr,
        _ => panic!(),
    };
    assert!(matches!(operand.kind, AstNodeKind::IntegerLiteral(20)));

    let node = parse("--20").unwrap();
    let operand = match node.kind {
        AstNodeKind::UnaryExpression { op: UnaryOperator::Minus, expr } => expr,
        _ => panic!(),
    };
    let inner = match operand.kind {
        AstNodeKind::UnaryExpression { op: UnaryOperator::Minus, expr } => expr,
        _ => panic!(),
    };
    assert!(matches!(inner.kind, AstNodeKind::IntegerLiteral(20)));
}

#[test]
fn mod_test_empty() {
    assert!(matches!(
        parse("").unwrap().kind,
        AstNodeKind::Block { expressions } if expressions.is_empty()
    ));
}

#[test]
fn test_number() {
    assert!(matches!(parse("123").unwrap().kind, AstNodeKind::IntegerLiteral(..)));
}

#[test]
fn test_binary_expr() {
    assert!(matches!(
        parse("1 + 2").unwrap().kind,
        AstNodeKind::BinaryExpression { op: Operator::Plus, .. }
    ));
}

#[test]
fn test_order_of_operations() {
    // `*` binds tighter than `+`: the star node is the plus node's right
    // child.
    if let AstNodeKind::BinaryExpression { lhs, op, rhs } = parse("1 + 2 * 3").unwrap().kind {
        assert!(matches!(lhs.kind, AstNodeKind::IntegerLiteral(1)));
        assert!(matches!(op, Operator::Plus));
        if let AstNodeKind::BinaryExpression { lhs, op, rhs } = rhs.kind {
            assert!(matches!(lhs.kind, AstNodeKind::IntegerLiteral(2)));
            assert!(matches!(rhs.kind, AstNodeKind::IntegerLiteral(3)));
            assert!(matches!(op, Operator::Multiply));
        } else {
            panic!();
        }
    } else {
        panic!();
    }
}

#[test]
fn test_parentheses() {
    // Parenthesization overrides precedence: the plus node is the star
    // node's left child.
    if let AstNodeKind::BinaryExpression { lhs, op, rhs } = parse("(1 + 2) * 3").unwrap().kind {
        assert!(matches!(op, Operator::Multiply));
        if let AstNodeKind::BinaryExpression { lhs, op, rhs } = lhs.kind {
            assert!(matches!(lhs.kind, AstNodeKind::IntegerLiteral(1)));
            assert!(matches!(rhs.kind, AstNodeKind::IntegerLiteral(2)));
            assert!(matches!(op, Operator::Plus));
        } else {
            panic!();
        }
        assert!(matches!(rhs.kind, AstNodeKind::IntegerLiteral(3)));
    } else {
        panic!();
    }
}

#[test]
fn test_assignment() {
    if let AstNodeKind::Assignment { name, value, declaration } = parse("let a = 1").unwrap().kind
    {
        assert_eq!(name, "a");
        assert!(matches!(value.kind, AstNodeKind::IntegerLiteral(1)));
        assert!(declaration);
    } else {
        panic!();
    }
}

#[test]
fn test_invalid_assignment() {
    assert!(matches!(
        parse("let asd + 123213 = 1 + 2").unwrap_err().kind,
        ErrorKind::Parser(ParserError::InvalidAssignmentTarget { .. })
    ));
}

#[test]
fn test_incomplete_bin_expr() {
    // The stream ends where the right operand should stand.
    assert!(matches!(
        parse("1 +").unwrap_err().kind,
        ErrorKind::Parser(ParserError::UnexpectedEndOfFile { .. })
    ));
}

#[test]
fn test_invalid_bin_expr() {
    // `/` cannot stand before an operand.
    assert!(matches!(
        parse("1 + / 2").unwrap_err().kind,
        ErrorKind::Parser(ParserError::InvalidUnaryOperator(Operator::Divide))
    ));
}

#[test]
fn test_invalid_parentheses() {
    assert!(matches!(
        parse("(1 + 2").unwrap_err().kind,
        ErrorKind::Parser(ParserError::UnexpectedEndOfFile { .. })
    ));
}

#[test]
fn test_unary_expr() {
    assert!(matches!(
        parse("-1").unwrap().kind,
        AstNodeKind::UnaryExpression { op: UnaryOperator::Minus, .. }
    ));
    assert!(matches!(
        parse("!1").unwrap().kind,
        AstNodeKind::UnaryExpression { op: UnaryOperator::Not, .. }
    ));
}

#[test]
fn test_unmatched_parentheses() {
    assert!(matches!(
        parse("(1 + 2))").unwrap_err().kind,
        ErrorKind::Parser(ParserError::UnmatchedClosingParenthesis { .. })
    ));
}

#[test]
fn test_conditional_exprs() {
    if let AstNodeKind::BinaryExpression { lhs, op, rhs } =
        parse("1 + 3 > 2 && 1 < 2").unwrap().kind
    {
        assert!(matches!(
            lhs.kind,
            AstNodeKind::BinaryExpression { op: Operator::GreaterThan, .. }
        ));
        assert!(matches!(
            rhs.kind,
            AstNodeKind::BinaryExpression { op: Operator::LessThan, .. }
        ));
        assert!(matches!(op, Operator::And));
    } else {
        panic!();
    }
}

#[test]
fn test_conditional_exprs_with_parentheses() {
    if let AstNodeKind::BinaryExpression { lhs, op, rhs } =
        parse("(1 + 3 > 2) && (1 < 2)").unwrap().kind
    {
        assert!(matches!(
            lhs.kind,
            AstNodeKind::BinaryExpression { op: Operator::GreaterThan, .. }
        ));
        assert!(matches!(
            rhs.kind,
            AstNodeKind::BinaryExpression { op: Operator::LessThan, .. }
        ));
        assert!(matches!(op, Operator::And));
    } else {
        panic!();
    }
}

#[test]
fn test_if_statement() {
    if let AstNodeKind::If { condition, body, else_branch } =
        parse("if (1 + 3 > 2) { 1 }").unwrap().kind
    {
        assert!(matches!(
            condition.kind,
            AstNodeKind::BinaryExpression { op: Operator::GreaterThan, .. }
        ));
        assert!(matches!(body.kind, AstNodeKind::Block { .. }));
        assert!(else_branch.is_none());
    } else {
        panic!();
    }
}

#[test]
fn test_if_with_many_else() {
    let source = "\nif (1 + 3 > 2) {\n    1\n} else if (1 < 2) {\n    2\n} else {\n    3\n}\n        ";
    // A single statement parses to the statement itself; the else branch
    // wraps the chained if.
    if let AstNodeKind::If { condition, body, else_branch } = parse(source).unwrap().kind {
        assert!(matches!(
            condition.kind,
            AstNodeKind::BinaryExpression { op: Operator::GreaterThan, .. }
        ));
        assert!(matches!(body.kind, AstNodeKind::Block { .. }));
        let els = else_branch.expect("an else branch");
        if let AstNodeKind::Else { body } = els.kind {
            assert!(matches!(body.kind, AstNodeKind::If { .. }));
        } else {
            panic!();
        }
    } else {
        panic!();
    }
}

#[test]
fn test_print_statemnt() {
    if let AstNodeKind::Print { expression } = parse("print 1 + 2").unwrap().kind {
        assert!(matches!(
            expression.kind,
            AstNodeKind::BinaryExpression { op: Operator::Plus, .. }
        ));
    } else {
        panic!();
    }
}

#[test]
fn test_function_definition() {
    if let AstNodeKind::FunctionDefinition { params, name, body } =
        parse("\nfn add(a, b) {\n    a + b\n}").unwrap().kind
    {
        assert_eq!(name, "add");
        assert_eq!(params, vec!["a".to_string(), "b".to_string()]);
        if let AstNodeKind::Block { expressions } = body.kind {
            assert!(matches!(
                expressions[0].kind,
                AstNodeKind::BinaryExpression { op: Operator::Plus, .. }
            ));
        } else {
            panic!();
        }
    } else {
        panic!();
    }
}

#[test]
fn test_while_loop() {
    if let AstNodeKind::While { condition, body } = parse("while (1 < 2) { 1 }").unwrap().kind {
        assert!(matches!(
            condition.kind,
            AstNodeKind::BinaryExpression { op: Operator::LessThan, .. }
        ));
        assert!(matches!(body.kind, AstNodeKind::Block { .. }));
    } else {
        panic!();
    }
}

#[test]
fn token_matches() {
    let tokens = Lexer::new(0, &Source::new("t".to_string(), "1 , 2".to_string()))
        .tokenize()
        .unwrap();
    assert!(tokens[1].kind == TokenKind::Comma);
}
