use espresso::ast::{BlockAst, ExprAst, FunctionArgAst, FunctionAst, IdentAst, ModuleAst, StatementAst};

#[test]
fn ident_keeps_its_text() {
    let id = IdentAst::from_str("abc");
    assert_eq!(id.as_str(), "abc");
    assert_eq!(id.as_string(), "abc".to_string());
    assert_eq!(id.to_string(), "abc".to_string());
    assert_eq!(id.name, "abc");
    assert_eq!(IdentAst::from_str("").as_str(), "");
}

#[test]
fn idents_are_equal_by_their_text() {
    assert_eq!(IdentAst::from_str("a"), IdentAst::from_str("a"));
    assert_ne!(IdentAst::from_str("a"), IdentAst::from_str("b"));
    assert_eq!(IdentAst::from_str("a").clone(), IdentAst::from_str("a"));
}

#[test]
fn block_boxes_its_expressions_in_order() {
    let block = BlockAst::new(vec![ExprAst::Integer(1), ExprAst::Boolean(true), ExprAst::Integer(3)], true);
    assert!(block.trailing_semi);
    assert_eq!(block.exprs.len(), 3);
    assert!(matches!(*block.exprs[0], ExprAst::Integer(1)));
    assert!(matches!(*block.exprs[1], ExprAst::Boolean(true)));
    assert!(matches!(*block.exprs[2], ExprAst::Integer(3)));
    let empty = BlockAst::new(vec![], false);
    assert!(!empty.trailing_semi);
    assert!(empty.exprs.is_empty());
}

#[test]
fn call_boxes_its_arguments_in_order() {
    let call = ExprAst::new_fn_call(
        IdentAst::from_str("f"),
        vec![ExprAst::Integer(1), ExprAst::Integer(2)],
    );
    match call {
        ExprAst::FunctionCall { name, args } => {
            assert_eq!(name.as_str(), "f");
            assert_eq!(args.len(), 2);
            assert!(matches!(*args[0], ExprAst::Integer(1)));
            assert!(matches!(*args[1], ExprAst::Integer(2)));
        }
        _ => panic!("not a call"),
    }
}

#[test]
fn function_and_module_keep_their_parts() {
    let f = FunctionAst::new(
        IdentAst::from_str("f"),
        true,
        vec![FunctionArgAst { name: IdentAst::from_str("x"), arg_type: IdentAst::from_str("Integer") }],
        IdentAst::from_str("Bool"),
        BlockAst::new(vec![ExprAst::Boolean(false)], false),
    );
    assert_eq!(f.name.as_str(), "f");
    assert!(f.is_pub);
    assert_eq!(f.fn_args.len(), 1);
    assert_eq!(f.fn_args[0].name.as_str(), "x");
    assert_eq!(f.fn_args[0].arg_type.as_str(), "Integer");
    assert_eq!(f.return_type.as_str(), "Bool");
    assert_eq!(f.block.exprs.len(), 1);
    let m = ModuleAst::from_statements(vec![StatementAst::Function(f.clone()), StatementAst::Function(f)]);
    assert_eq!(m.statements.len(), 2);
    let StatementAst::Function(first) = &m.statements[0];
    assert_eq!(first.name.as_str(), "f");
}

#[test]
fn clone_copies_the_whole_tree() {
    let e = ExprAst::If {
        cond_expr: Box::new(ExprAst::Boolean(true)),
        then_expr: BlockAst::new(
            vec![ExprAst::new_fn_call(IdentAst::from_str("f"), vec![ExprAst::Integer(7)])],
            false,
        ),
        else_expr: BlockAst::new(
            vec![ExprAst::Assignment {
                name: IdentAst::from_str("x"),
                maybe_type: Some(IdentAst::from_str("Integer")),
                expr: Box::new(ExprAst::Integer(2)),
            }],
            true,
        ),
    };
    assert_eq!(format!("{:?}", e.clone()), format!("{:?}", e));
}
