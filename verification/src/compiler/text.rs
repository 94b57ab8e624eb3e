//! The text that a syntax tree is emitted as.

use vstd::prelude::*;
use crate::ast::{BlockAst, ExprAst, FunctionArgAst, FunctionAst, ModuleAst, StatementAst};
use crate::decimal::decimal;

verus! {

/// The text of an expression.
///
/// A call ends every argument with a comma. A `let` becomes a constant. A
/// conditional becomes a function that is called on the spot, so that it has a value.
pub open spec fn expr_text(e: ExprAst) -> Seq<char>
    decreases e,
{
    match e {
        ExprAst::Integer(i) => decimal(i as int),
        ExprAst::Boolean(b) => if b {
            "true"@
        } else {
            "false"@
        },
        ExprAst::Variable(name) => name@,
        ExprAst::FunctionCall { name, args } => name@ + "("@ + args_text(args@) + ")"@,
        ExprAst::Assignment { name, maybe_type, expr } => "const "@ + name@ + "="@ + expr_text(
            *expr,
        ),
        ExprAst::Binary { lhs, op, rhs } => expr_text(*lhs) + op.symbol() + expr_text(*rhs),
        ExprAst::If { cond_expr, then_expr, else_expr } => "(function(){if("@ + expr_text(
            *cond_expr,
        ) + "){"@ + block_text(then_expr) + "}else{"@ + block_text(else_expr) + "}})()"@,
    }
}

/// The text of the arguments of a call: each followed by a comma.
pub open spec fn args_text(args: Seq<Box<ExprAst>>) -> Seq<char>
    decreases args,
{
    if args.len() == 0 {
        Seq::empty()
    } else {
        args_text(args.drop_last()) + expr_text(*args.last()) + ","@
    }
}

/// The text of expressions as statements: each followed by a semicolon,
/// and, where `yields` is set, the last one returned.
pub open spec fn statements_text(exprs: Seq<Box<ExprAst>>, yields: bool) -> Seq<char>
    decreases exprs,
{
    if exprs.len() == 0 {
        Seq::empty()
    } else {
        statements_text(exprs.drop_last(), false) + (if yields {
            "return "@
        } else {
            Seq::empty()
        }) + expr_text(*exprs.last()) + ";"@
    }
}

/// The text of a block: its expressions as statements, the last one
/// returned unless the block ends with a separator.
pub open spec fn block_text(block: BlockAst) -> Seq<char>
    decreases block,
{
    statements_text(block.exprs@, !block.trailing_semi)
}

/// The text of the parameters of a function: each name followed by a comma.
pub open spec fn params_text(args: Seq<FunctionArgAst>) -> Seq<char>
    decreases args.len(),
{
    if args.len() == 0 {
        Seq::empty()
    } else {
        params_text(args.drop_last()) + args.last().name@ + ","@
    }
}

/// The text of a function declaration, on a line of its own.
pub open spec fn function_text(f: FunctionAst) -> Seq<char> {
    "function "@ + f.name@ + "("@ + params_text(f.fn_args@) + "){"@ + block_text(f.block) + "}"@
        + "\n"@
}

/// The text of statements, one after the other.
pub open spec fn items_text(statements: Seq<StatementAst>) -> Seq<char>
    decreases statements.len(),
{
    if statements.len() == 0 {
        Seq::empty()
    } else {
        items_text(statements.drop_last()) + match statements.last() {
            StatementAst::Function(f) => function_text(f),
        }
    }
}

/// The line that starts the script: it calls `main` and shows its result.
pub open spec fn entry_text() -> Seq<char> {
    "document.getElementById(\"app-root\").innerHTML = main(true)"@
}

/// The text of a module: its functions, then the line that starts the script.
pub open spec fn module_text(module: ModuleAst) -> Seq<char> {
    items_text(module.statements@) + entry_text()
}

} // verus!
