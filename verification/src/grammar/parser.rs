//! The parser: reads a text by the rules of the grammar and builds its syntax tree.

use vstd::prelude::*;
use vstd::string::StringExecFns;
use crate::ast::{BinOpAst, BlockAst, ExprAst, FunctionArgAst, FunctionAst, ModuleAst, StatementAst};
use crate::decimal::write_digits;
use crate::error::{CompileError, ErrorView};
use crate::grammar::rules;
use crate::grammar::rules::Parsed;
use crate::grammar::scan::Source;
use crate::tree::{
    block_tree, expr_tree, expr_trees, function_tree, module_tree, param_tree, statement_tree,
    BlockTree, ExprTree, ParamTree, StatementTree,
};

verus! {

/// The parser found what the rule says: an expression.
pub open spec fn found_expr(
    src: Seq<char>,
    pos: usize,
    r: Option<(ExprAst, usize)>,
    rule: Option<Parsed<ExprTree>>,
) -> bool {
    match r {
        Some((e, next)) => rule == Some(Parsed { value: expr_tree(e), next: next as int }) && pos
            <= next <= src.len(),
        None => rule is None,
    }
}

/// The parser found what the rule says: a block.
pub open spec fn found_block(
    src: Seq<char>,
    pos: usize,
    r: Option<(BlockAst, usize)>,
    rule: Option<Parsed<BlockTree>>,
) -> bool {
    match r {
        Some((b, next)) => rule == Some(Parsed { value: block_tree(b), next: next as int }) && pos
            <= next <= src.len(),
        None => rule is None,
    }
}

/// The operator that `c` is, if it is one.
fn operator(c: char) -> (op: Option<BinOpAst>)
    ensures
        op == rules::operator(c),
{
    if c == '+' {
        Some(BinOpAst::Add)
    } else if c == '-' {
        Some(BinOpAst::Sub)
    } else if c == '*' {
        Some(BinOpAst::Mul)
    } else if c == '/' {
        Some(BinOpAst::Div)
    } else {
        None
    }
}

/// How tightly an operator binds.
fn level(op: BinOpAst) -> (l: u8)
    ensures
        l == rules::level(op),
{
    match op {
        BinOpAst::Add => 0,
        BinOpAst::Sub => 0,
        BinOpAst::Mul => 1,
        BinOpAst::Div => 1,
    }
}

/// Matches an expression at `pos`.
pub fn expr(src: &Source, pos: usize) -> (r: Option<(ExprAst, usize)>)
    requires
        src.wf(),
        pos <= src@.len(),
    ensures
        found_expr(src@, pos, r, rules::expr(src@, pos as int)),
    decreases src@.len() - pos, 8int,
{
    climb(src, pos, 0)
}

/// Matches an operand at `pos` with the operators after it that bind at level `min` or tighter.
fn climb(src: &Source, pos: usize, min: u8) -> (r: Option<(ExprAst, usize)>)
    requires
        src.wf(),
        pos <= src@.len(),
    ensures
        found_expr(src@, pos, r, rules::climb(src@, pos as int, min as int)),
    decreases src@.len() - pos, 7int,
{
    let (first, start) = match atom(src, pos) {
        Some(found) => found,
        None => {
            return None;
        },
    };
    let mut left = first;
    let mut at = start;
    loop
        invariant
            src.wf(),
            pos <= at <= src@.len(),
            rules::climb(src@, pos as int, min as int) == Some(
                rules::tail(src@, at as int, min as int, expr_tree(left)),
            ),
        decreases src@.len() - at,
    {
        if at >= src.len() {
            return Some((left, at));
        }
        let op = match operator(src.at(at)) {
            Some(op) => op,
            None => {
                return Some((left, at));
            },
        };
        if level(op) < min {
            return Some((left, at));
        }
        let (right, next) = match climb(src, at + 1, level(op) + 1) {
            Some(found) => found,
            None => {
                return Some((left, at));
            },
        };
        left = ExprAst::Binary { lhs: Box::new(left), op, rhs: Box::new(right) };
        at = next;
    }
}

/// Matches an operand at `pos`.
fn atom(src: &Source, pos: usize) -> (r: Option<(ExprAst, usize)>)
    requires
        src.wf(),
        pos <= src@.len(),
    ensures
        found_expr(src@, pos, r, rules::atom(src@, pos as int)),
    decreases src@.len() - pos, 6int,
{
    let start = src.blanks(pos);
    match primary(src, start) {
        Some((e, next)) => {
            return Some((e, src.blanks(next)));
        },
        None => {},
    }
    let open = match src.symbol(start, '(') {
        Some(p) => p,
        None => {
            return None;
        },
    };
    let (inner, next) = match expr(src, src.blanks(open)) {
        Some(found) => found,
        None => {
            return None;
        },
    };
    match src.symbol(src.blanks(next), ')') {
        Some(end) => Some((inner, src.blanks(end))),
        None => None,
    }
}

/// Matches a conditional, a `let`, a call, a literal or a variable at `pos`.
fn primary(src: &Source, pos: usize) -> (r: Option<(ExprAst, usize)>)
    requires
        src.wf(),
        pos <= src@.len(),
    ensures
        found_expr(src@, pos, r, rules::primary(src@, pos as int)),
    decreases src@.len() - pos, 5int,
{
    match conditional(src, pos) {
        Some(found) => {
            return Some(found);
        },
        None => {},
    }
    match assignment(src, pos) {
        Some(found) => {
            return Some(found);
        },
        None => {},
    }
    match call(src, pos) {
        Some(found) => {
            return Some(found);
        },
        None => {},
    }
    match src.integer(pos) {
        Some((value, next)) => {
            return Some((ExprAst::Integer(value), next));
        },
        None => {},
    }
    match src.word(pos, "true") {
        Some(next) => {
            return Some((ExprAst::Boolean(true), next));
        },
        None => {},
    }
    match src.word(pos, "false") {
        Some(next) => {
            return Some((ExprAst::Boolean(false), next));
        },
        None => {},
    }
    match src.ident(pos) {
        Some((name, next)) => Some((ExprAst::Variable(name), next)),
        None => None,
    }
}

/// Matches a conditional at `pos`.
fn conditional(src: &Source, pos: usize) -> (r: Option<(ExprAst, usize)>)
    requires
        src.wf(),
        pos <= src@.len(),
    ensures
        found_expr(src@, pos, r, rules::conditional(src@, pos as int)),
    decreases src@.len() - pos, 4int,
{
    proof {
        reveal_strlit("if");
        reveal_strlit("else");
    }
    let after_if = match src.word(pos, "if") {
        Some(p) => p,
        None => {
            return None;
        },
    };
    let (cond, after_cond) = match expr(src, src.blanks(after_if)) {
        Some(found) => found,
        None => {
            return None;
        },
    };
    let (then, after_then) = match block(src, src.blanks(after_cond)) {
        Some(found) => found,
        None => {
            return None;
        },
    };
    let after_else = match src.word(src.blanks(after_then), "else") {
        Some(p) => p,
        None => {
            return None;
        },
    };
    let (other, after_other) = match block(src, src.blanks(after_else)) {
        Some(found) => found,
        None => {
            return None;
        },
    };
    Some(
        (
            ExprAst::If { cond_expr: Box::new(cond), then_expr: then, else_expr: other },
            src.blanks(after_other),
        ),
    )
}

/// Matches a `let` at `pos`.
fn assignment(src: &Source, pos: usize) -> (r: Option<(ExprAst, usize)>)
    requires
        src.wf(),
        pos <= src@.len(),
    ensures
        found_expr(src@, pos, r, rules::assignment(src@, pos as int)),
    decreases src@.len() - pos, 4int,
{
    proof {
        reveal_strlit("let");
    }
    let after_let = match src.word(pos, "let") {
        Some(p) => p,
        None => {
            return None;
        },
    };
    let (name, after_name) = match src.ident(src.blanks(after_let)) {
        Some(found) => found,
        None => {
            return None;
        },
    };
    let type_start = src.blanks(after_name);
    let (maybe_type, after_type) = match src.symbol(type_start, ':') {
        Some(colon) => match src.ident(src.blanks(colon)) {
            Some((t, next)) => (Some(t), next),
            None => (None, type_start),
        },
        None => (None, type_start),
    };
    let after_eq = match src.symbol(src.blanks(after_type), '=') {
        Some(p) => p,
        None => {
            return None;
        },
    };
    let (bound, next) = match expr(src, src.blanks(after_eq)) {
        Some(found) => found,
        None => {
            return None;
        },
    };
    Some((ExprAst::Assignment { name, maybe_type, expr: Box::new(bound) }, next))
}

/// Matches a call at `pos`.
fn call(src: &Source, pos: usize) -> (r: Option<(ExprAst, usize)>)
    requires
        src.wf(),
        pos <= src@.len(),
    ensures
        found_expr(src@, pos, r, rules::call(src@, pos as int)),
    decreases src@.len() - pos, 4int,
{
    let (name, after_name) = match src.ident(pos) {
        Some(found) => found,
        None => {
            return None;
        },
    };
    let open = match src.symbol(after_name, '(') {
        Some(p) => p,
        None => {
            return None;
        },
    };
    let (args, after_args) = list(src, open, ',');
    let after = src.blanks(after_args);
    let before_close = match src.symbol(after, ',') {
        Some(p) => p,
        None => after,
    };
    match src.symbol(before_close, ')') {
        Some(end) => Some((ExprAst::FunctionCall { name, args }, end)),
        None => None,
    }
}

/// Matches expressions with the separator `sep` between them at `pos`.
fn list(src: &Source, pos: usize, sep: char) -> (r: (Vec<Box<ExprAst>>, usize))
    requires
        src.wf(),
        pos <= src@.len(),
    ensures
        rules::list(src@, pos as int, sep) == (Parsed {
            value: expr_trees(r.0@),
            next: r.1 as int,
        }),
        pos <= r.1 <= src@.len(),
    decreases src@.len() - pos, 9int,
{
    let mut found: Vec<Box<ExprAst>> = Vec::new();
    let (first, start) = match expr(src, pos) {
        Some(e) => e,
        None => {
            return (found, pos);
        },
    };
    found.push(Box::new(first));
    let mut at = start;
    proof {
        assert(expr_trees(found@.drop_last()) =~= Seq::<ExprTree>::empty());
    }
    loop
        invariant
            src.wf(),
            pos <= at <= src@.len(),
            rules::more(src@, at as int, sep, expr_trees(found@)) == rules::list(
                src@,
                pos as int,
                sep,
            ),
        decreases src@.len() - at,
    {
        if at >= src.len() || src.at(at) != sep {
            return (found, at);
        }
        let (next, after) = match expr(src, at + 1) {
            Some(e) => e,
            None => {
                return (found, at);
            },
        };
        let ghost before = found@;
        found.push(Box::new(next));
        proof {
            assert(found@.drop_last() =~= before);
        }
        at = after;
    }
}

/// Matches a block at `pos`.
pub fn block(src: &Source, pos: usize) -> (r: Option<(BlockAst, usize)>)
    requires
        src.wf(),
        pos <= src@.len(),
    ensures
        found_block(src@, pos, r, rules::block(src@, pos as int)),
    decreases src@.len() - pos, 4int,
{
    let open = match src.symbol(pos, '{') {
        Some(p) => p,
        None => {
            return None;
        },
    };
    let (exprs, after_exprs) = list(src, open, ';');
    let after = src.blanks(after_exprs);
    let (trailing_semi, closing) = match src.symbol(after, ';') {
        Some(p) => (true, p),
        None => (false, after),
    };
    match src.symbol(src.blanks(closing), '}') {
        Some(end) => Some((BlockAst { exprs, trailing_semi }, end)),
        None => None,
    }
}

/// Matches a parameter at `pos`.
fn param(src: &Source, pos: usize) -> (r: Option<(FunctionArgAst, usize)>)
    requires
        src.wf(),
        pos <= src@.len(),
    ensures
        match r {
            Some((arg, next)) => rules::param(src@, pos as int) == Some(
                Parsed { value: param_tree(arg), next: next as int },
            ) && pos <= next <= src@.len(),
            None => rules::param(src@, pos as int) is None,
        },
{
    let (name, after_name) = match src.ident(src.blanks(pos)) {
        Some(found) => found,
        None => {
            return None;
        },
    };
    let colon = match src.symbol(src.blanks(after_name), ':') {
        Some(p) => p,
        None => {
            return None;
        },
    };
    let (arg_type, after_type) = match src.ident(src.blanks(colon)) {
        Some(found) => found,
        None => {
            return None;
        },
    };
    Some((FunctionArgAst { name, arg_type }, src.blanks(after_type)))
}

/// The values of a list of parameters.
pub open spec fn param_trees(args: Seq<FunctionArgAst>) -> Seq<ParamTree> {
    Seq::new(args.len(), |i: int| param_tree(args[i]))
}

/// The values of a list of statements.
pub open spec fn statement_trees(statements: Seq<StatementAst>) -> Seq<StatementTree> {
    Seq::new(statements.len(), |i: int| statement_tree(statements[i]))
}

/// Matches parameters with commas between them at `pos`.
fn params(src: &Source, pos: usize) -> (r: (Vec<FunctionArgAst>, usize))
    requires
        src.wf(),
        pos <= src@.len(),
    ensures
        rules::params(src@, pos as int) == (Parsed {
            value: param_trees(r.0@),
            next: r.1 as int,
        }),
        pos <= r.1 <= src@.len(),
{
    let mut found: Vec<FunctionArgAst> = Vec::new();
    let (first, start) = match param(src, pos) {
        Some(p) => p,
        None => {
            proof {
                assert(param_trees(found@) =~= Seq::<ParamTree>::empty());
            }
            return (found, pos);
        },
    };
    found.push(first);
    let mut at = start;
    proof {
        assert(param_trees(found@) =~= seq![param_tree(first)]);
    }
    loop
        invariant
            src.wf(),
            pos <= at <= src@.len(),
            rules::more_params(src@, at as int, param_trees(found@)) == rules::params(
                src@,
                pos as int,
            ),
        decreases src@.len() - at,
    {
        if at >= src.len() || src.at(at) != ',' {
            return (found, at);
        }
        let (next, after) = match param(src, at + 1) {
            Some(p) => p,
            None => {
                return (found, at);
            },
        };
        let ghost before = found@;
        found.push(next);
        proof {
            assert(param_trees(found@) =~= param_trees(before).push(param_tree(next)));
        }
        at = after;
    }
}

/// Matches a function declaration at `pos`.
fn function(src: &Source, pos: usize) -> (r: Option<(FunctionAst, usize)>)
    requires
        src.wf(),
        pos <= src@.len(),
    ensures
        match r {
            Some((f, next)) => rules::function(src@, pos as int) == Some(
                Parsed { value: function_tree(f), next: next as int },
            ) && pos < next <= src@.len(),
            None => rules::function(src@, pos as int) is None,
        },
{
    proof {
        reveal_strlit("def");
    }
    let (is_pub, after_pub) = match src.word(pos, "pub") {
        Some(p) => (true, p),
        None => (false, pos),
    };
    let after_def = match src.word(src.blanks(after_pub), "def") {
        Some(p) => p,
        None => {
            return None;
        },
    };
    let (name, after_name) = match src.ident(src.blanks(after_def)) {
        Some(found) => found,
        None => {
            return None;
        },
    };
    let open = match src.symbol(src.blanks(after_name), '(') {
        Some(p) => p,
        None => {
            return None;
        },
    };
    let (fn_args, after_args) = params(src, src.blanks(open));
    let after = src.blanks(after_args);
    let before_close = match src.symbol(after, ',') {
        Some(p) => p,
        None => after,
    };
    let close = match src.symbol(src.blanks(before_close), ')') {
        Some(p) => p,
        None => {
            return None;
        },
    };
    let arrow = match src.word(src.blanks(close), "->") {
        Some(p) => p,
        None => {
            return None;
        },
    };
    let (return_type, after_type) = match src.ident(src.blanks(arrow)) {
        Some(found) => found,
        None => {
            return None;
        },
    };
    let (body, after_body) = match block(src, src.blanks(after_type)) {
        Some(found) => found,
        None => {
            return None;
        },
    };
    let f = FunctionAst { name, is_pub, fn_args, return_type, block: body };
    proof {
        assert(function_tree(f).fn_args =~= param_trees(fn_args@));
    }
    Some((f, src.blanks(after_body)))
}

/// Matches a statement at `pos`.
fn statement(src: &Source, pos: usize) -> (r: Option<(StatementAst, usize)>)
    requires
        src.wf(),
        pos <= src@.len(),
    ensures
        match r {
            Some((s, next)) => rules::statement(src@, pos as int) == Some(
                Parsed { value: statement_tree(s), next: next as int },
            ) && pos < next <= src@.len(),
            None => rules::statement(src@, pos as int) is None,
        },
{
    match function(src, src.blanks(pos)) {
        Some((f, next)) => Some((StatementAst::Function(f), src.blanks(next))),
        None => None,
    }
}

/// Reads a module: succeeds where the whole text is a module, and then
/// gives its syntax tree; fails otherwise, and then says how far the text is one.
pub fn module(input: &str) -> (r: Result<ModuleAst, CompileError>)
    ensures
        match r {
            Ok(m) => rules::module(input@) == Some(module_tree(m)),
            Err(e) => rules::module(input@) is None && e@ == ErrorView::Syntax(
                rules::complaint(input@),
            ),
        },
{
    let src = Source::new(input);
    let mut found: Vec<StatementAst> = Vec::new();
    let mut at: usize = 0;
    proof {
        assert(statement_trees(found@) =~= Seq::<StatementTree>::empty());
    }
    loop
        invariant
            src.wf(),
            src@ == input@,
            at <= src@.len(),
            rules::statements(src@, at as int, statement_trees(found@)) == rules::statements(
                src@,
                0,
                Seq::empty(),
            ),
        decreases src@.len() - at,
    {
        let (next, after) = match statement(&src, at) {
            Some(s) => s,
            None => {
                if at == src.len() {
                    let m = ModuleAst { statements: found };
                    proof {
                        assert(module_tree(m).statements =~= statement_trees(found@));
                    }
                    return Ok(m);
                } else {
                    let mut text = String::from_str("syntax error at character ");
                    write_digits(at as u64, &mut text);
                    return Err(CompileError::SyntaxError(text));
                }
            },
        };
        let ghost before = found@;
        found.push(next);
        proof {
            assert(statement_trees(found@) =~= statement_trees(before).push(
                statement_tree(next),
            ));
        }
        at = after;
    }
}

} // verus!
