use espresso::ast::{BlockAst, ExprAst, FunctionAst, IdentAst, ModuleAst, StatementAst};
use espresso::error::{CompileError, TypeError, TypeKind};
use espresso::typechecker::engine::TypeCheckerCore;
use espresso::typechecker::frontend::{check_expr, Bindings};
use espresso::typechecker::TypeChecker;

fn name(s: &str) -> IdentAst {
    IdentAst::from_str(s)
}

// tells two values apart by what they flow into
fn is_bool(engine: &mut TypeCheckerCore, v: espresso::typechecker::engine::Value) -> bool {
    let u = engine.bool_use();
    engine.flow(v, u).is_ok()
}

#[test]
fn module_scope_binds_nothing() {
    let scope = Bindings::new_module_scope();
    assert!(scope.resolve(&name("x")).is_none());
    assert!(scope.resolve(&name("")).is_none());
}

#[test]
fn inserted_name_resolves_to_its_value() {
    let mut engine = TypeCheckerCore::new();
    let b = engine.bool();
    let i = engine.integer();
    let mut scope = Bindings::new_module_scope();
    scope.insert(name("b"), b);
    scope.insert(name("i"), i);
    let found_b = scope.resolve(&name("b")).unwrap();
    let found_i = scope.resolve(&name("i")).unwrap();
    assert!(is_bool(&mut engine, found_b));
    assert!(!is_bool(&mut engine, found_i));
    assert!(scope.resolve(&name("c")).is_none());
}

#[test]
fn name_inserted_twice_resolves_to_the_later_value() {
    let mut engine = TypeCheckerCore::new();
    let b = engine.bool();
    let i = engine.integer();
    let mut scope = Bindings::new_module_scope();
    scope.insert(name("x"), i);
    scope.insert(name("y"), i);
    scope.insert(name("x"), b);
    let found = scope.resolve(&name("x")).unwrap();
    assert!(is_bool(&mut engine, found));
    let found = scope.resolve(&name("y")).unwrap();
    assert!(!is_bool(&mut engine, found));
}

#[test]
fn inner_scope_sees_the_outer_and_shadows_it() {
    let mut engine = TypeCheckerCore::new();
    let b = engine.bool();
    let i = engine.integer();
    let mut outer = Bindings::new_module_scope();
    outer.insert(name("x"), i);
    outer.insert(name("y"), i);
    {
        let mut inner = outer.push();
        let found = inner.resolve(&name("x")).unwrap();
        assert!(!is_bool(&mut engine, found));
        inner.insert(name("x"), b);
        inner.insert(name("z"), b);
        let found = inner.resolve(&name("x")).unwrap();
        assert!(is_bool(&mut engine, found));
        let found = inner.resolve(&name("y")).unwrap();
        assert!(!is_bool(&mut engine, found));
        {
            let innermost = inner.push();
            let found = innermost.resolve(&name("z")).unwrap();
            assert!(is_bool(&mut engine, found));
        }
    }
    // the outer scope is as it was
    let found = outer.resolve(&name("x")).unwrap();
    assert!(!is_bool(&mut engine, found));
    assert!(outer.resolve(&name("z")).is_none());
}

#[test]
fn let_binds_in_the_scope_where_it_stands() {
    let mut engine = TypeCheckerCore::new();
    let mut scope = Bindings::new_module_scope();
    let e = ExprAst::Assignment {
        name: name("x"),
        maybe_type: None,
        expr: Box::new(ExprAst::Boolean(true)),
    };
    let unit = check_expr(&mut engine, &mut scope, &e).unwrap();
    let uu = engine.unit_use();
    assert_eq!(engine.flow(unit, uu), Ok(()));
    let found = scope.resolve(&name("x")).unwrap();
    assert!(is_bool(&mut engine, found));
}

#[test]
fn let_in_an_argument_binds_for_the_arguments_after_it() {
    // f(let x = 1, x): the arguments are checked from left to right
    let mut engine = TypeCheckerCore::new();
    let mut scope = Bindings::new_module_scope();
    let (v, u) = engine.var();
    scope.insert(name("f"), v);
    let _ = u;
    let bind = ExprAst::Assignment {
        name: name("x"),
        maybe_type: None,
        expr: Box::new(ExprAst::Integer(1)),
    };
    let good = ExprAst::new_fn_call(name("f"), vec![bind, ExprAst::Variable(name("x"))]);
    assert!(check_expr(&mut engine, &mut scope, &good).is_ok());

    let mut engine = TypeCheckerCore::new();
    let mut scope = Bindings::new_module_scope();
    let (v, _) = engine.var();
    scope.insert(name("f"), v);
    let bind = ExprAst::Assignment {
        name: name("x"),
        maybe_type: None,
        expr: Box::new(ExprAst::Integer(1)),
    };
    let bad = ExprAst::new_fn_call(name("f"), vec![ExprAst::Variable(name("x")), bind]);
    assert_eq!(
        check_expr(&mut engine, &mut scope, &bad).unwrap_err(),
        CompileError::UnboundNameError("x".to_string())
    );
}

#[test]
fn callee_is_resolved_before_the_arguments_are_checked() {
    // g(let g = 1): the unbound callee is reported, the argument is not reached
    let mut engine = TypeCheckerCore::new();
    let mut scope = Bindings::new_module_scope();
    let bind = ExprAst::Assignment {
        name: name("g"),
        maybe_type: None,
        expr: Box::new(ExprAst::Variable(name("nowhere"))),
    };
    let e = ExprAst::new_fn_call(name("g"), vec![bind]);
    assert_eq!(
        check_expr(&mut engine, &mut scope, &e).unwrap_err(),
        CompileError::UnboundNameError("g".to_string())
    );
    assert!(scope.resolve(&name("g")).is_none());
}

fn function(fname: &str, ret: &str, body: Vec<ExprAst>) -> StatementAst {
    StatementAst::Function(FunctionAst::new(
        name(fname),
        false,
        vec![],
        name(ret),
        BlockAst::new(body, false),
    ))
}

#[test]
fn checker_keeps_its_functions_from_module_to_module() {
    let mut checker = TypeChecker::new();
    let first = ModuleAst::from_statements(vec![function("one", "Integer", vec![ExprAst::Integer(1)])]);
    assert_eq!(checker.check_module(&first), Ok(()));
    let second = ModuleAst::from_statements(vec![function(
        "main",
        "Integer",
        vec![ExprAst::new_fn_call(name("one"), vec![])],
    )]);
    assert_eq!(checker.check_module(&second), Ok(()));
    let third = ModuleAst::from_statements(vec![function(
        "other",
        "Bool",
        vec![ExprAst::new_fn_call(name("one"), vec![])],
    )]);
    assert_eq!(
        checker.check_module(&third),
        Err(CompileError::TypeError(TypeError::TypeMismatch {
            expected: TypeKind::Bool,
            found: TypeKind::Integer
        }))
    );
}

#[test]
fn fresh_checker_knows_no_function() {
    let mut checker = TypeChecker::new();
    let m = ModuleAst::from_statements(vec![function(
        "main",
        "Integer",
        vec![ExprAst::new_fn_call(name("one"), vec![])],
    )]);
    assert_eq!(checker.check_module(&m), Err(CompileError::UnboundNameError("one".to_string())));
}

#[test]
fn empty_module_checks() {
    assert_eq!(TypeChecker::new().check_module(&ModuleAst::from_statements(vec![])), Ok(()));
}
