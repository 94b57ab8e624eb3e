use espresso::error::{CompileError, TypeError, TypeKind};

#[test]
fn kinds_have_their_names() {
    assert_eq!(TypeKind::Bool.name(), "Bool");
    assert_eq!(TypeKind::Integer.name(), "Integer");
    assert_eq!(TypeKind::Unit.name(), "Unit");
    assert_eq!(TypeKind::Function.name(), "Function");
}

#[test]
fn type_mismatch_reports_both_kinds() {
    let e = TypeError::TypeMismatch { expected: TypeKind::Integer, found: TypeKind::Bool };
    assert_eq!(e.message(), "type mismatch: expected Integer, found Bool");
    assert_eq!(CompileError::TypeError(e).message(), "type mismatch: expected Integer, found Bool");
}

#[test]
fn arity_mismatch_reports_both_numbers() {
    let e = TypeError::ArityMismatch { expected: 2, found: 10 };
    assert_eq!(e.message(), "arity mismatch: expected 2, found 10");
    let e = TypeError::ArityMismatch { expected: 0, found: 1 };
    assert_eq!(CompileError::TypeError(e).message(), "arity mismatch: expected 0, found 1");
}

#[test]
fn unbound_name_reports_the_name() {
    let e = CompileError::UnboundNameError("foo".to_string());
    assert_eq!(e.message(), "unbound name: foo");
}

#[test]
fn syntax_error_reports_its_text() {
    assert_eq!(CompileError::SyntaxError("here".to_string()).message(), "here");
    let e = espresso::grammar::parser::module("def f() -> I {1} ?").unwrap_err();
    assert_eq!(e.message(), "syntax error at character 17");
}
