use espresso::ast::{
    BinOpAst, BlockAst, ExprAst, FunctionArgAst, FunctionAst, IdentAst, ModuleAst, StatementAst,
};
use espresso::error::{CompileError, TypeError, TypeKind};
use espresso::typechecker::engine::TypeCheckerCore;
use espresso::typechecker::frontend::{check_block, check_expr, check_module, Bindings};
use espresso::typechecker::TypeChecker;

fn ident(s: &str) -> IdentAst {
    IdentAst::from_str(s)
}

fn var(s: &str) -> ExprAst {
    ExprAst::Variable(ident(s))
}

fn call(name: &str, args: Vec<ExprAst>) -> ExprAst {
    ExprAst::new_fn_call(ident(name), args)
}

fn let_(name: &str, e: ExprAst) -> ExprAst {
    ExprAst::Assignment { name: ident(name), maybe_type: None, expr: Box::new(e) }
}

fn if_(cond: ExprAst, then: Vec<ExprAst>, other: Vec<ExprAst>) -> ExprAst {
    ExprAst::If {
        cond_expr: Box::new(cond),
        then_expr: BlockAst::new(then, false),
        else_expr: BlockAst::new(other, false),
    }
}

fn def(name: &str, params: &[(&str, &str)], ret: &str, body: Vec<ExprAst>) -> StatementAst {
    let fn_args = params
        .iter()
        .map(|(n, t)| FunctionArgAst { name: ident(n), arg_type: ident(t) })
        .collect();
    StatementAst::Function(FunctionAst::new(
        ident(name),
        false,
        fn_args,
        ident(ret),
        BlockAst::new(body, false),
    ))
}

fn check(statements: Vec<StatementAst>) -> Result<(), CompileError> {
    TypeChecker::new().check_module(&ModuleAst::from_statements(statements))
}

fn mismatch(expected: TypeKind, found: TypeKind) -> CompileError {
    CompileError::TypeError(TypeError::TypeMismatch { expected, found })
}

#[test]
fn call_with_an_integer_checks() {
    let module = vec![
        def("f", &[("x", "Integer")], "Integer", vec![var("x")]),
        def("main", &[], "Integer", vec![call("f", vec![ExprAst::Integer(5)])]),
    ];
    assert_eq!(check(module), Ok(()));
}

#[test]
fn call_with_a_bool_is_a_mismatch() {
    let module = vec![
        def("f", &[("x", "Integer")], "Integer", vec![var("x")]),
        def("main", &[], "Integer", vec![call("f", vec![ExprAst::Boolean(true)])]),
    ];
    assert_eq!(check(module), Err(mismatch(TypeKind::Integer, TypeKind::Bool)));
}

#[test]
fn call_with_too_few_arguments_is_an_arity_mismatch() {
    let module = vec![
        def("f", &[("x", "Integer"), ("y", "Integer")], "Integer", vec![var("x")]),
        def("main", &[], "Integer", vec![call("f", vec![ExprAst::Integer(1)])]),
    ];
    assert_eq!(
        check(module),
        Err(CompileError::TypeError(TypeError::ArityMismatch { expected: 2, found: 1 }))
    );
}

#[test]
fn arity_is_checked_before_the_arguments() {
    let module = vec![
        def("f", &[("x", "Integer")], "Integer", vec![var("x")]),
        def(
            "main",
            &[],
            "Integer",
            vec![call("f", vec![ExprAst::Boolean(true), ExprAst::Boolean(false)])],
        ),
    ];
    assert_eq!(
        check(module),
        Err(CompileError::TypeError(TypeError::ArityMismatch { expected: 1, found: 2 }))
    );
}

#[test]
fn branches_of_one_type_merge_to_that_type() {
    let mut engine = TypeCheckerCore::new();
    let mut scope = Bindings::new_module_scope();
    let e = if_(ExprAst::Boolean(true), vec![ExprAst::Integer(1)], vec![ExprAst::Integer(2)]);
    let merged = check_expr(&mut engine, &mut scope, &e).unwrap();
    let int_use = engine.integer_use();
    assert_eq!(engine.flow(merged, int_use), Ok(()));
}

#[test]
fn branches_of_two_types_fail_only_when_used() {
    let e = if_(ExprAst::Boolean(true), vec![ExprAst::Integer(1)], vec![ExprAst::Boolean(true)]);

    let mut engine = TypeCheckerCore::new();
    let mut scope = Bindings::new_module_scope();
    let merged = check_expr(&mut engine, &mut scope, &e).unwrap();
    let bool_use = engine.bool_use();
    assert_eq!(
        engine.flow(merged, bool_use),
        Err(TypeError::TypeMismatch { expected: TypeKind::Bool, found: TypeKind::Integer })
    );

    let mut engine = TypeCheckerCore::new();
    let mut scope = Bindings::new_module_scope();
    let merged = check_expr(&mut engine, &mut scope, &e).unwrap();
    let int_use = engine.integer_use();
    assert_eq!(
        engine.flow(merged, int_use),
        Err(TypeError::TypeMismatch { expected: TypeKind::Integer, found: TypeKind::Bool })
    );
}

#[test]
fn undeclared_function_is_unbound() {
    let module = vec![def("main", &[], "Integer", vec![call("foo", vec![])])];
    assert_eq!(check(module), Err(CompileError::UnboundNameError("foo".to_string())));
}

#[test]
fn undeclared_variable_is_unbound() {
    let module = vec![def("main", &[], "Integer", vec![var("y")])];
    assert_eq!(check(module), Err(CompileError::UnboundNameError("y".to_string())));
}

#[test]
fn binding_in_one_branch_is_unbound_in_the_other() {
    let e = if_(
        ExprAst::Boolean(true),
        vec![let_("x", ExprAst::Integer(1)), var("x")],
        vec![var("x")],
    );
    let module = vec![def("main", &[], "Integer", vec![e])];
    assert_eq!(check(module), Err(CompileError::UnboundNameError("x".to_string())));
}

#[test]
fn binding_in_a_branch_is_unbound_after_the_conditional() {
    let e = if_(
        ExprAst::Boolean(true),
        vec![let_("x", ExprAst::Integer(1)), var("x")],
        vec![ExprAst::Integer(2)],
    );
    let module = vec![def("main", &[], "Integer", vec![e, var("x")])];
    assert_eq!(check(module), Err(CompileError::UnboundNameError("x".to_string())));
}

#[test]
fn binding_is_seen_later_in_its_block_and_in_nested_blocks() {
    let e = if_(ExprAst::Boolean(true), vec![var("x")], vec![ExprAst::Integer(2)]);
    let module = vec![def("main", &[], "Integer", vec![let_("x", ExprAst::Integer(1)), e])];
    assert_eq!(check(module), Ok(()));
}

#[test]
fn binding_of_one_function_is_unbound_in_the_next() {
    let module = vec![
        def("f", &[("x", "Integer")], "Integer", vec![var("x")]),
        def("g", &[], "Integer", vec![var("x")]),
    ];
    assert_eq!(check(module), Err(CompileError::UnboundNameError("x".to_string())));
}

#[test]
fn function_is_not_in_scope_before_its_declaration() {
    let module = vec![
        def("main", &[], "Integer", vec![call("f", vec![ExprAst::Integer(5)])]),
        def("f", &[("x", "Integer")], "Integer", vec![var("x")]),
    ];
    assert_eq!(check(module), Err(CompileError::UnboundNameError("f".to_string())));
}

#[test]
fn function_does_not_see_its_own_name() {
    let module = vec![def("f", &[("x", "Integer")], "Integer", vec![call("f", vec![var("x")])])];
    assert_eq!(check(module), Err(CompileError::UnboundNameError("f".to_string())));
}

#[test]
fn later_binding_shadows_the_earlier() {
    let module = vec![def(
        "main",
        &[],
        "Bool",
        vec![let_("x", ExprAst::Integer(1)), let_("x", ExprAst::Boolean(true)), var("x")],
    )];
    assert_eq!(check(module), Ok(()));
}

#[test]
fn condition_must_be_a_bool() {
    let e = if_(ExprAst::Integer(1), vec![ExprAst::Integer(1)], vec![ExprAst::Integer(2)]);
    let module = vec![def("main", &[], "Integer", vec![e])];
    assert_eq!(check(module), Err(mismatch(TypeKind::Bool, TypeKind::Integer)));
}

#[test]
fn operands_must_be_integers() {
    let e = ExprAst::Binary {
        lhs: Box::new(ExprAst::Integer(1)),
        op: BinOpAst::Add,
        rhs: Box::new(ExprAst::Boolean(true)),
    };
    let module = vec![def("main", &[], "Integer", vec![e])];
    assert_eq!(check(module), Err(mismatch(TypeKind::Integer, TypeKind::Bool)));
}

#[test]
fn operators_give_integers() {
    for op in [BinOpAst::Add, BinOpAst::Sub, BinOpAst::Mul, BinOpAst::Div] {
        let e = ExprAst::Binary {
            lhs: Box::new(ExprAst::Integer(1)),
            op,
            rhs: Box::new(ExprAst::Integer(2)),
        };
        let module = vec![def("main", &[], "Integer", vec![e])];
        assert_eq!(check(module), Ok(()));
    }
    let e = ExprAst::Binary {
        lhs: Box::new(ExprAst::Integer(1)),
        op: BinOpAst::Add,
        rhs: Box::new(ExprAst::Integer(2)),
    };
    let module = vec![def("main", &[], "Bool", vec![e])];
    assert_eq!(check(module), Err(mismatch(TypeKind::Bool, TypeKind::Integer)));
}

#[test]
fn declared_result_type_is_enforced() {
    let module = vec![def("main", &[], "Integer", vec![ExprAst::Boolean(true)])];
    assert_eq!(check(module), Err(mismatch(TypeKind::Integer, TypeKind::Bool)));
}

#[test]
fn unknown_declared_type_constrains_nothing() {
    let module = vec![
        def("id", &[("x", "Anything")], "Whatever", vec![var("x")]),
        def("main", &[], "Bool", vec![call("id", vec![ExprAst::Boolean(true)])]),
    ];
    assert_eq!(check(module), Ok(()));
    let module = vec![
        def("id", &[("x", "Anything")], "Whatever", vec![var("x")]),
        def("main", &[], "Integer", vec![call("id", vec![ExprAst::Integer(1)])]),
    ];
    assert_eq!(check(module), Ok(()));
}

#[test]
fn one_function_is_one_type_at_all_its_calls() {
    // what flows into a parameter at one call is seen at every other call
    let module = vec![
        def("id", &[("x", "Anything")], "Whatever", vec![var("x")]),
        def(
            "main",
            &[],
            "Integer",
            vec![
                let_("b", call("id", vec![ExprAst::Boolean(true)])),
                call("id", vec![ExprAst::Integer(1)]),
            ],
        ),
    ];
    assert_eq!(check(module), Err(mismatch(TypeKind::Integer, TypeKind::Bool)));
}

#[test]
fn declared_type_of_a_let_is_not_checked() {
    let e = ExprAst::Assignment {
        name: ident("x"),
        maybe_type: Some(ident("Integer")),
        expr: Box::new(ExprAst::Boolean(true)),
    };
    let module = vec![def("main", &[], "Bool", vec![e, var("x")])];
    assert_eq!(check(module), Ok(()));
}

#[test]
fn empty_block_has_unit() {
    let mut engine = TypeCheckerCore::new();
    let mut scope = Bindings::new_module_scope();
    let v = check_block(&mut engine, &mut scope, &BlockAst::new(vec![], false)).unwrap();
    let unit_use = engine.unit_use();
    assert_eq!(engine.flow(v, unit_use), Ok(()));
    let int_use = engine.integer_use();
    assert_eq!(
        engine.flow(v, int_use),
        Err(TypeError::TypeMismatch { expected: TypeKind::Integer, found: TypeKind::Unit })
    );
}

#[test]
fn block_with_trailing_separator_has_unit_and_checks_its_last_expression() {
    let mut engine = TypeCheckerCore::new();
    let mut scope = Bindings::new_module_scope();
    let block = BlockAst::new(vec![ExprAst::Integer(1)], true);
    let v = check_block(&mut engine, &mut scope, &block).unwrap();
    let int_use = engine.integer_use();
    assert_eq!(
        engine.flow(v, int_use),
        Err(TypeError::TypeMismatch { expected: TypeKind::Integer, found: TypeKind::Unit })
    );

    let mut engine = TypeCheckerCore::new();
    let mut scope = Bindings::new_module_scope();
    let block = BlockAst::new(vec![var("nowhere")], true);
    assert_eq!(
        check_block(&mut engine, &mut scope, &block).unwrap_err(),
        CompileError::UnboundNameError("nowhere".to_string())
    );
}

#[test]
fn every_expression_of_a_block_is_checked_in_order() {
    let block = vec![var("first"), var("second")];
    let module = vec![def("main", &[], "Integer", block)];
    assert_eq!(check(module), Err(CompileError::UnboundNameError("first".to_string())));
}

#[test]
fn let_has_unit() {
    let module = vec![def("main", &[], "Integer", vec![let_("x", ExprAst::Integer(1))])];
    assert_eq!(check(module), Err(mismatch(TypeKind::Integer, TypeKind::Unit)));
}

#[test]
fn first_failure_stops_the_module() {
    let module = vec![
        def("a", &[], "Integer", vec![ExprAst::Boolean(true)]),
        def("b", &[], "Integer", vec![var("unbound")]),
    ];
    assert_eq!(check(module), Err(mismatch(TypeKind::Integer, TypeKind::Bool)));
}

#[test]
fn free_standing_check_module_agrees_with_the_checker() {
    let module = ModuleAst::from_statements(vec![
        def("f", &[("x", "Integer")], "Integer", vec![var("x")]),
        def("main", &[], "Integer", vec![call("f", vec![ExprAst::Boolean(true)])]),
    ]);
    let mut engine = TypeCheckerCore::new();
    let mut scope = Bindings::new_module_scope();
    assert_eq!(
        check_module(&mut engine, &mut scope, &module),
        Err(mismatch(TypeKind::Integer, TypeKind::Bool))
    );
}

#[test]
fn higher_order_function_checks() {
    // def apply(g, x) { g(x) }   def inc(n: Integer) -> Integer { n + 1 }
    // def main() -> Integer { apply(inc, 1) }
    let inc_body = ExprAst::Binary {
        lhs: Box::new(var("n")),
        op: BinOpAst::Add,
        rhs: Box::new(ExprAst::Integer(1)),
    };
    let module = vec![
        def("apply", &[("g", "Fn"), ("x", "Any")], "Any", vec![call("g", vec![var("x")])]),
        def("inc", &[("n", "Integer")], "Integer", vec![inc_body]),
        def("main", &[], "Integer", vec![call("apply", vec![var("inc"), ExprAst::Integer(1)])]),
    ];
    assert_eq!(check(module), Ok(()));
}

#[test]
fn higher_order_function_passes_the_mismatch_on() {
    let inc_body = ExprAst::Binary {
        lhs: Box::new(var("n")),
        op: BinOpAst::Add,
        rhs: Box::new(ExprAst::Integer(1)),
    };
    let module = vec![
        def("apply", &[("g", "Fn"), ("x", "Any")], "Any", vec![call("g", vec![var("x")])]),
        def("inc", &[("n", "Integer")], "Integer", vec![inc_body]),
        def(
            "main",
            &[],
            "Integer",
            vec![call("apply", vec![var("inc"), ExprAst::Boolean(true)])],
        ),
    ];
    assert_eq!(check(module), Err(mismatch(TypeKind::Integer, TypeKind::Bool)));
}

#[test]
fn self_application_checks_and_ends() {
    // def w(g) { g(g) }   def main() { w(w) }
    let module = vec![
        def("w", &[("g", "Any")], "Any", vec![call("g", vec![var("g")])]),
        def("main", &[], "Any", vec![call("w", vec![var("w")])]),
    ];
    assert_eq!(check(module), Ok(()));
}

#[test]
fn calling_a_bool_is_a_mismatch() {
    let module = vec![def(
        "main",
        &[],
        "Any",
        vec![let_("b", ExprAst::Boolean(true)), call("b", vec![])],
    )];
    assert_eq!(check(module), Err(mismatch(TypeKind::Function, TypeKind::Bool)));
}

#[test]
fn failed_check_fails_again_with_the_same_fault() {
    let module = || {
        ModuleAst::from_statements(vec![
            def("f", &[("x", "Integer")], "Integer", vec![var("x")]),
            def("main", &[], "Integer", vec![call("f", vec![ExprAst::Boolean(true)])]),
        ])
    };
    let mut checker = TypeChecker::new();
    assert_eq!(checker.check_module(&module()), Err(mismatch(TypeKind::Integer, TypeKind::Bool)));
    assert_eq!(checker.check_module(&module()), Err(mismatch(TypeKind::Integer, TypeKind::Bool)));
}

#[test]
fn failed_call_is_not_held_against_the_function() {
    // the call with a bool fails and records nothing: the function still takes an integer
    let mut checker = TypeChecker::new();
    let bad = ModuleAst::from_statements(vec![
        def("f", &[("x", "Integer")], "Integer", vec![var("x")]),
        def("main", &[], "Integer", vec![call("f", vec![ExprAst::Boolean(true)])]),
    ]);
    assert_eq!(checker.check_module(&bad), Err(mismatch(TypeKind::Integer, TypeKind::Bool)));
    let good = ModuleAst::from_statements(vec![def(
        "main",
        &[],
        "Integer",
        vec![call("f", vec![ExprAst::Integer(1)])],
    )]);
    assert_eq!(checker.check_module(&good), Ok(()));
}
