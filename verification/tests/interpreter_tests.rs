use helix::error::{ErrorKind, RuntimeError};
use helix::program::Program;
use helix::value::{Value, ValueKind};

fn run(source: &str) -> Result<Value, helix::error::Error> {
    let mut program = Program::new();
    let key = program.add_source("<test>".to_string(), source.to_string());
    program.run(key)
}

#[test]
fn addition() {
    let v = run("2 + 2").unwrap();
    assert!(matches!(v.kind, ValueKind::Integer(4)));
}

#[test]
fn division_by_zero() {
    let e = run("1/0").unwrap_err();
    assert!(matches!(e.kind, ErrorKind::Runtime(RuntimeError::DivisionByZero)));
}

#[test]
fn unbound_identifier() {
    let e = run("nope").unwrap_err();
    assert!(matches!(
        e.kind,
        ErrorKind::Runtime(RuntimeError::UndefinedVariable { ref name }) if name == "nope"
    ));
}

#[test]
fn block_scope_is_popped() {
    // A variable declared inside a block is gone once the block's frame
    // is popped.
    let e = run("let a = 1\n{\nlet b = 2\n}\nb").unwrap_err();
    assert!(matches!(
        e.kind,
        ErrorKind::Runtime(RuntimeError::UndefinedVariable { ref name }) if name == "b"
    ));
}

#[test]
fn reassignment_of_undeclared_fails() {
    let e = run("x = 5").unwrap_err();
    assert!(matches!(
        e.kind,
        ErrorKind::Runtime(RuntimeError::UndefinedVariable { ref name }) if name == "x"
    ));
}

#[test]
fn assignment_reaches_outer_frame() {
    let v = run("let a = 1\n{\na = 2\n}\na").unwrap();
    assert!(matches!(v.kind, ValueKind::Integer(2)));
}

#[test]
fn while_loop_runs() {
    let v = run("let i = 0\nlet s = 0\nwhile (i < 3) {\ns = s + i\ni = i + 1\n}\ns").unwrap();
    assert!(matches!(v.kind, ValueKind::Integer(3)));
}

#[test]
fn break_leaves_loop() {
    let v = run("let i = 0\nwhile (true) {\nbreak\n}\ni").unwrap();
    assert!(matches!(v.kind, ValueKind::Integer(0)));
}

#[test]
fn continue_restarts_loop() {
    let v = run(
        "let i = 0\nlet s = 0\nwhile (i < 4) {\ni = i + 1\nif (i == 2) {\ncontinue\n}\ns = s + i\n}\ns",
    )
    .unwrap();
    assert!(matches!(v.kind, ValueKind::Integer(8)));
}

#[test]
fn break_outside_loop() {
    let e = run("break").unwrap_err();
    assert!(matches!(e.kind, ErrorKind::Runtime(RuntimeError::BreakOutsideLoop)));
}

#[test]
fn continue_outside_loop() {
    let e = run("continue").unwrap_err();
    assert!(matches!(e.kind, ErrorKind::Runtime(RuntimeError::ContinueOutsideLoop)));
}

#[test]
fn string_concatenation() {
    let v = run("\"ab\" + \"cd\"").unwrap();
    assert!(matches!(v.kind, ValueKind::Str(ref s) if s == "abcd"));
}

#[test]
fn string_repetition() {
    let v = run("\"ab\" * 3").unwrap();
    assert!(matches!(v.kind, ValueKind::Str(ref s) if s == "ababab"));
}

#[test]
fn decimal_arithmetic() {
    let v = run("1.5 + 2.25").unwrap();
    assert!(matches!(v.kind, ValueKind::Float(d) if d.scaled == 3_750_000));
}

#[test]
fn integer_division_truncates() {
    let v = run("7 / 2").unwrap();
    assert!(matches!(v.kind, ValueKind::Integer(3)));
    let v = run("(0 - 7) / 2").unwrap();
    assert!(matches!(v.kind, ValueKind::Integer(-3)));
}

#[test]
fn equality_and_inequality() {
    let v = run("1 == 1").unwrap();
    assert!(matches!(v.kind, ValueKind::Boolean(true)));
    let v = run("1 != 2").unwrap();
    assert!(matches!(v.kind, ValueKind::Boolean(true)));
}

#[test]
fn invalid_binary_operation() {
    let e = run("1 + \"a\"").unwrap_err();
    assert!(matches!(
        e.kind,
        ErrorKind::Runtime(RuntimeError::InvalidBinaryOperation { .. })
    ));
}

#[test]
fn invalid_unary_operation() {
    let e = run("-\"a\"").unwrap_err();
    assert!(matches!(
        e.kind,
        ErrorKind::Runtime(RuntimeError::InvalidUnaryOperation { .. })
    ));
}

#[test]
fn truthiness_in_conditionals() {
    let v = run("if 0 {\n1\n} else {\n2\n}").unwrap();
    assert!(matches!(v.kind, ValueKind::Integer(2)));
    let v = run("if \"x\" {\n1\n} else {\n2\n}").unwrap();
    assert!(matches!(v.kind, ValueKind::Integer(1)));
}

#[test]
fn short_circuit_and_or() {
    // `&&` must not evaluate its right operand when the left is falsy;
    // an undefined name there would otherwise fail.
    let v = run("false && nope").unwrap();
    assert!(matches!(v.kind, ValueKind::Boolean(false)));
    // `||` returns the truthy operand itself.
    let v = run("7 || nope").unwrap();
    assert!(matches!(v.kind, ValueKind::Integer(7)));
    let v = run("0 || 0").unwrap();
    assert!(matches!(v.kind, ValueKind::Boolean(false)));
}

#[test]
fn unary_not_uses_truthiness() {
    let v = run("!0").unwrap();
    assert!(matches!(v.kind, ValueKind::Boolean(true)));
    let v = run("!\"x\"").unwrap();
    assert!(matches!(v.kind, ValueKind::Boolean(false)));
}

#[test]
fn function_definition_binds_value() {
    let v = run("fn add(a, b) {\na + b\n}\nadd").unwrap();
    assert!(matches!(
        v.kind,
        ValueKind::Function { ref name, ref parameters, .. }
            if name == "add" && parameters.len() == 2
    ));
}

#[test]
fn print_yields_null() {
    let v = run("print 1 + 2").unwrap();
    assert!(matches!(v.kind, ValueKind::Null));
}

#[test]
fn display_forms() {
    let v = run("2.5").unwrap();
    assert_eq!(v.display_string(), "2.5");
    let v = run("4").unwrap();
    assert_eq!(v.display_string(), "4");
    let v = run("true").unwrap();
    assert_eq!(v.display_string(), "true");
    let v = run("fn f(a, b) {\na\n}").unwrap();
    assert_eq!(v.display_string(), "function f(a, b)");
}

#[test]
fn saturating_decimal_negate() {
    let v = run("1.25 * 2.0").unwrap();
    assert!(matches!(v.kind, ValueKind::Float(d) if d.scaled == 2_500_000));
}

#[test]
fn wrapping_integer_addition() {
    let v = run("9223372036854775807 + 1").unwrap();
    assert!(matches!(v.kind, ValueKind::Integer(i64::MIN)));
}
