use espresso::ast::{
    BinOpAst, BlockAst, ExprAst, FunctionArgAst, FunctionAst, IdentAst, ModuleAst, StatementAst,
};
use espresso::compiler::codegen::Compiler;
use espresso::decimal::write_decimal;

const ENTRY: &str = "document.getElementById(\"app-root\").innerHTML = main(true)";

fn ident(s: &str) -> IdentAst {
    IdentAst::from_str(s)
}

fn expr_text(e: &ExprAst) -> String {
    let mut out = String::from("~");
    Compiler::new().visit_expr(e, &mut out).unwrap();
    out
}

fn block_text(b: &BlockAst) -> String {
    let mut out = String::from("~");
    Compiler::new().visit_block(b, &mut out).unwrap();
    out
}

fn decimal(i: i64) -> String {
    let mut out = String::new();
    write_decimal(i, &mut out);
    out
}

#[test]
fn decimal_of_small_and_large_numbers() {
    assert_eq!(decimal(0), "0");
    assert_eq!(decimal(7), "7");
    assert_eq!(decimal(10), "10");
    assert_eq!(decimal(109), "109");
    assert_eq!(decimal(1234567890), "1234567890");
    assert_eq!(decimal(-5), "-5");
    assert_eq!(decimal(-120), "-120");
    assert_eq!(decimal(i64::MAX), "9223372036854775807");
    assert_eq!(decimal(i64::MIN), "-9223372036854775808");
}

#[test]
fn decimal_agrees_with_the_standard_formatting() {
    let mut i: i64 = -100_003;
    while i < 100_000 {
        assert_eq!(decimal(i), format!("{}", i));
        i += 97;
    }
}

#[test]
fn decimal_appends_to_what_is_there() {
    let mut out = String::from("x=");
    write_decimal(42, &mut out);
    assert_eq!(out, "x=42");
}

#[test]
fn literals_and_names() {
    assert_eq!(expr_text(&ExprAst::Integer(12)), "~12");
    assert_eq!(expr_text(&ExprAst::Boolean(true)), "~true");
    assert_eq!(expr_text(&ExprAst::Boolean(false)), "~false");
    assert_eq!(expr_text(&ExprAst::Variable(ident("abc"))), "~abc");
}

#[test]
fn call_ends_every_argument_with_a_comma() {
    let none = ExprAst::new_fn_call(ident("f"), vec![]);
    assert_eq!(expr_text(&none), "~f()");
    let two =
        ExprAst::new_fn_call(ident("f"), vec![ExprAst::Integer(1), ExprAst::Variable(ident("y"))]);
    assert_eq!(expr_text(&two), "~f(1,y,)");
    let nested = ExprAst::new_fn_call(ident("g"), vec![two]);
    assert_eq!(expr_text(&nested), "~g(f(1,y,),)");
}

#[test]
fn let_is_a_constant() {
    let e = ExprAst::Assignment {
        name: ident("x"),
        maybe_type: Some(ident("Integer")),
        expr: Box::new(ExprAst::Integer(3)),
    };
    assert_eq!(expr_text(&e), "~const x=3");
}

#[test]
fn operators_as_written() {
    for (op, text) in
        [(BinOpAst::Add, "+"), (BinOpAst::Sub, "-"), (BinOpAst::Mul, "*"), (BinOpAst::Div, "/")]
    {
        assert_eq!(op.to_string(), text);
        assert_eq!(op.as_str(), text);
        let e = ExprAst::Binary {
            lhs: Box::new(ExprAst::Integer(1)),
            op,
            rhs: Box::new(ExprAst::Variable(ident("b"))),
        };
        assert_eq!(expr_text(&e), format!("~1{}b", text));
    }
}

#[test]
fn conditional_is_a_function_called_on_the_spot() {
    let e = ExprAst::If {
        cond_expr: Box::new(ExprAst::Boolean(true)),
        then_expr: BlockAst::new(vec![ExprAst::Integer(1)], false),
        else_expr: BlockAst::new(vec![ExprAst::Integer(2)], true),
    };
    assert_eq!(expr_text(&e), "~(function(){if(true){return 1;}else{2;}})()");
}

#[test]
fn block_returns_its_last_expression_unless_it_ends_with_a_separator() {
    let exprs = || vec![ExprAst::Integer(1), ExprAst::Integer(2), ExprAst::Integer(3)];
    assert_eq!(block_text(&BlockAst::new(exprs(), false)), "~1;2;return 3;");
    assert_eq!(block_text(&BlockAst::new(exprs(), true)), "~1;2;3;");
    assert_eq!(block_text(&BlockAst::new(vec![], false)), "~");
    assert_eq!(block_text(&BlockAst::new(vec![], true)), "~");
}

#[test]
fn module_is_its_functions_and_the_entry_line() {
    let f = FunctionAst::new(
        ident("main"),
        true,
        vec![
            FunctionArgAst { name: ident("x"), arg_type: ident("Bool") },
            FunctionArgAst { name: ident("y"), arg_type: ident("Integer") },
        ],
        ident("Integer"),
        BlockAst::new(vec![ExprAst::Variable(ident("y"))], false),
    );
    let g = FunctionAst::new(ident("g"), false, vec![], ident("Unit"), BlockAst::new(vec![], false));
    let module =
        ModuleAst::from_statements(vec![StatementAst::Function(f), StatementAst::Function(g)]);
    let text = Compiler::new().compile_module(module).unwrap();
    assert_eq!(text, format!("function main(x,y,){{return y;}}\nfunction g(){{}}\n{}", ENTRY));
}

#[test]
fn empty_module_is_the_entry_line() {
    let text = Compiler::new().compile_module(ModuleAst::from_statements(vec![])).unwrap();
    assert_eq!(text, ENTRY);
}
