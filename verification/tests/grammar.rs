use espresso::ast::{
    BinOpAst, BlockAst, ExprAst, FunctionArgAst, FunctionAst, IdentAst, ModuleAst, StatementAst,
};
use espresso::compiler::codegen::Compiler;
use espresso::error::{CompileError, TypeError, TypeKind};
use espresso::grammar::parser::module;
use espresso::typechecker::TypeChecker;

fn ident(s: &str) -> IdentAst {
    IdentAst::from_str(s)
}

fn var(s: &str) -> ExprAst {
    ExprAst::Variable(ident(s))
}

fn num(i: i64) -> ExprAst {
    ExprAst::Integer(i)
}

fn bin(l: ExprAst, op: BinOpAst, r: ExprAst) -> ExprAst {
    ExprAst::Binary { lhs: Box::new(l), op, rhs: Box::new(r) }
}

fn main_with(body: Vec<ExprAst>, trailing_semi: bool) -> ModuleAst {
    ModuleAst::from_statements(vec![StatementAst::Function(FunctionAst::new(
        ident("main"),
        false,
        vec![],
        ident("Integer"),
        BlockAst::new(body, trailing_semi),
    ))])
}

fn same(found: Result<ModuleAst, CompileError>, expected: ModuleAst) {
    assert_eq!(format!("{:?}", found.unwrap()), format!("{:?}", expected));
}

fn parses_as(body_text: &str, body: Vec<ExprAst>, trailing_semi: bool) {
    let text = format!("def main() -> Integer {{{}}}", body_text);
    same(module(&text), main_with(body, trailing_semi));
}

fn stops_at(text: &str, at: usize) {
    assert_eq!(
        module(text).unwrap_err(),
        CompileError::SyntaxError(format!("syntax error at character {}", at))
    );
}

#[test]
fn empty_text_is_the_empty_module() {
    same(module(""), ModuleAst::from_statements(vec![]));
}

#[test]
fn blanks_alone_are_no_module() {
    // blanks belong to the statement that they stand around
    stops_at(" \n\t ", 0);
}

#[test]
fn function_with_everything() {
    let text = "\n pub def add ( x : Integer , y:Integer , ) -> Integer { x + y }\n";
    let expected = ModuleAst::from_statements(vec![StatementAst::Function(FunctionAst::new(
        ident("add"),
        true,
        vec![
            FunctionArgAst { name: ident("x"), arg_type: ident("Integer") },
            FunctionArgAst { name: ident("y"), arg_type: ident("Integer") },
        ],
        ident("Integer"),
        BlockAst::new(vec![bin(var("x"), BinOpAst::Add, var("y"))], false),
    ))]);
    same(module(text), expected);
}

#[test]
fn several_functions_in_order() {
    let text = "def a() -> I {1} def b() -> I {2}\ndef c() -> I {3}";
    let m = module(text).unwrap();
    let names: Vec<String> = m
        .statements
        .iter()
        .map(|s| {
            let StatementAst::Function(f) = s;
            f.name.as_string()
        })
        .collect();
    assert_eq!(names, vec!["a", "b", "c"]);
}

#[test]
fn literals_and_names_are_read() {
    parses_as("1", vec![num(1)], false);
    parses_as("007", vec![num(7)], false);
    parses_as("9223372036854775807", vec![num(i64::MAX)], false);
    parses_as("true", vec![ExprAst::Boolean(true)], false);
    parses_as("false", vec![ExprAst::Boolean(false)], false);
    parses_as("some_Name", vec![var("some_Name")], false);
    parses_as("_", vec![var("_")], false);
}

#[test]
fn integer_that_no_i64_holds_is_no_integer() {
    stops_at("def main() -> Integer {9223372036854775808}", 0);
    stops_at("def main() -> Integer {99999999999999999999999999}", 0);
}

#[test]
fn multiplication_binds_tighter_than_addition() {
    parses_as("1+2*3", vec![bin(num(1), BinOpAst::Add, bin(num(2), BinOpAst::Mul, num(3)))], false);
    parses_as("1*2+3", vec![bin(bin(num(1), BinOpAst::Mul, num(2)), BinOpAst::Add, num(3))], false);
    parses_as(
        "1 - 2 / 3 - 4",
        vec![bin(
            bin(num(1), BinOpAst::Sub, bin(num(2), BinOpAst::Div, num(3))),
            BinOpAst::Sub,
            num(4),
        )],
        false,
    );
}

#[test]
fn operators_of_one_level_group_from_the_left() {
    parses_as("1-2-3", vec![bin(bin(num(1), BinOpAst::Sub, num(2)), BinOpAst::Sub, num(3))], false);
    parses_as("8/4/2", vec![bin(bin(num(8), BinOpAst::Div, num(4)), BinOpAst::Div, num(2))], false);
    parses_as("1-2+3", vec![bin(bin(num(1), BinOpAst::Sub, num(2)), BinOpAst::Add, num(3))], false);
}

#[test]
fn parentheses_group() {
    parses_as("(1+2)*3", vec![bin(bin(num(1), BinOpAst::Add, num(2)), BinOpAst::Mul, num(3))], false);
    parses_as("1-(2-3)", vec![bin(num(1), BinOpAst::Sub, bin(num(2), BinOpAst::Sub, num(3)))], false);
    parses_as(" ( ( x ) ) ", vec![var("x")], false);
}

#[test]
fn operator_without_operand_is_left_standing() {
    stops_at("def main() -> Integer {1+}", 0);
    stops_at("def main() -> Integer {*1}", 0);
}

#[test]
fn calls() {
    parses_as("f()", vec![ExprAst::new_fn_call(ident("f"), vec![])], false);
    parses_as("f(1)", vec![ExprAst::new_fn_call(ident("f"), vec![num(1)])], false);
    parses_as("f( 1 , x ,)", vec![ExprAst::new_fn_call(ident("f"), vec![num(1), var("x")])], false);
    parses_as("f(,)", vec![ExprAst::new_fn_call(ident("f"), vec![])], false);
    parses_as(
        "f(g(1), 2 + h())",
        vec![ExprAst::new_fn_call(
            ident("f"),
            vec![
                ExprAst::new_fn_call(ident("g"), vec![num(1)]),
                bin(num(2), BinOpAst::Add, ExprAst::new_fn_call(ident("h"), vec![])),
            ],
        )],
        false,
    );
}

#[test]
fn call_has_its_parenthesis_right_behind_the_name() {
    stops_at("def main() -> Integer {f (1)}", 0);
    stops_at("def main() -> Integer {f(1,,)}", 0);
}

#[test]
fn lets() {
    parses_as(
        "let x = 1",
        vec![ExprAst::Assignment { name: ident("x"), maybe_type: None, expr: Box::new(num(1)) }],
        false,
    );
    parses_as(
        "let x : Integer = 1 + 2",
        vec![ExprAst::Assignment {
            name: ident("x"),
            maybe_type: Some(ident("Integer")),
            expr: Box::new(bin(num(1), BinOpAst::Add, num(2))),
        }],
        false,
    );
    parses_as(
        "let x=1; x",
        vec![
            ExprAst::Assignment { name: ident("x"), maybe_type: None, expr: Box::new(num(1)) },
            var("x"),
        ],
        false,
    );
}

#[test]
fn conditionals() {
    let e = ExprAst::If {
        cond_expr: Box::new(ExprAst::Boolean(true)),
        then_expr: BlockAst::new(vec![num(1)], false),
        else_expr: BlockAst::new(vec![num(2)], true),
    };
    parses_as("if true {1} else {2;}", vec![e.clone()], false);
    parses_as("if true{1}else{2;}", vec![e.clone()], false);
    parses_as("if true { 1 } else { 2 ; } + 3", vec![bin(e, BinOpAst::Add, num(3))], false);
    stops_at("def main() -> Integer {if true {1}}", 0);
}

#[test]
fn blocks() {
    parses_as("", vec![], false);
    parses_as(" ", vec![], false);
    parses_as(";", vec![], true);
    parses_as("1;2", vec![num(1), num(2)], false);
    parses_as("1;2;", vec![num(1), num(2)], true);
    parses_as(" 1 ; 2 ; ", vec![num(1), num(2)], true);
    stops_at("def main() -> Integer {1;;}", 0);
    stops_at("def main() -> Integer {1 2}", 0);
}

#[test]
fn a_keyword_at_the_front_of_a_name_is_taken_as_the_keyword() {
    // `true` is matched and `x` is left standing
    stops_at("def main() -> Integer {truex}", 0);
    // `if` is matched and `fy` is the condition
    let e = ExprAst::If {
        cond_expr: Box::new(var("fy")),
        then_expr: BlockAst::new(vec![num(1)], false),
        else_expr: BlockAst::new(vec![num(2)], false),
    };
    parses_as("iffy {1} else {2}", vec![e], false);
    // `let` is matched and `x` is the name
    parses_as(
        "letx = 1",
        vec![ExprAst::Assignment { name: ident("x"), maybe_type: None, expr: Box::new(num(1)) }],
        false,
    );
}

#[test]
fn names_hold_no_digits() {
    stops_at("def main() -> Integer {x1}", 0);
    stops_at("def f1() -> Integer {1}", 0);
}

#[test]
fn what_is_no_module_is_reported_with_the_place_where_it_stops() {
    stops_at("x", 0);
    stops_at("def", 0);
    stops_at("def a() -> I {1} x", 17);
    stops_at("def a() -> I {1}\ndef b() -> I {", 17);
    stops_at("def a() -> I {1} \u{e9}", 17);
    stops_at("d\u{e9}f a() -> I {1}", 0);
}

#[test]
fn text_outside_ascii_is_read_character_by_character() {
    // no rule matches a character outside ASCII, a name next to one is still a name
    stops_at("def a() -> I {x} \u{4e16}\u{754c}", 17);
    stops_at("def a() -> I {\u{e9}}", 0);
}

#[test]
fn parsed_module_is_checked_and_emitted() {
    let text = "def f(x: Integer) -> Integer { x }\ndef main(b: Bool) -> Integer { if b { f(5) } else { 1 + 2 * 3 } }";
    let m = module(text).unwrap();
    assert_eq!(TypeChecker::new().check_module(&m), Ok(()));
    let out = Compiler::new().compile_module(m).unwrap();
    assert_eq!(
        out,
        "function f(x,){return x;}\nfunction main(b,){return (function(){if(b){return f(5,);}else{return 1+2*3;}})();}\ndocument.getElementById(\"app-root\").innerHTML = main(true)"
    );
}

#[test]
fn parsed_module_with_a_type_fault_fails_the_check() {
    let text = "def f(x: Integer) -> Integer { x } def main() -> Integer { f(true) }";
    let m = module(text).unwrap();
    assert_eq!(
        TypeChecker::new().check_module(&m),
        Err(CompileError::TypeError(TypeError::TypeMismatch {
            expected: TypeKind::Integer,
            found: TypeKind::Bool
        }))
    );
}

#[test]
fn any_text_is_either_a_module_or_reported() {
    // texts made of the characters that the grammar knows, and a few that it does not
    let alphabet: Vec<char> =
        "defpubiflstrua(){};:,->=+-*/ \n\t01_T\u{e9}".chars().collect();
    let mut state: u64 = 0x2545F4914F6CDD1D;
    for _ in 0..2000 {
        let mut text = String::from("def f() -> I {");
        let len = (state >> 60) as usize + 1;
        for _ in 0..len {
            state = state.wrapping_mul(6364136223846793005).wrapping_add(1442695040888963407);
            text.push(alphabet[(state >> 33) as usize % alphabet.len()]);
        }
        text.push('}');
        match module(&text) {
            Ok(m) => assert_eq!(m.statements.len(), 1),
            Err(e) => assert!(e.message().starts_with("syntax error at character ")),
        }
    }
}
