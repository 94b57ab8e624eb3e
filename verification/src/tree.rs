//! The syntax tree as a mathematical value: names are sequences of
//! characters, lists are sequences. Two syntax trees with the same value are
//! the same program.

use vstd::prelude::*;
use crate::ast::{BinOpAst, BlockAst, ExprAst, FunctionArgAst, FunctionAst, ModuleAst, StatementAst};

verus! {

/// The value of an [`ExprAst`].
pub enum ExprTree {
    Boolean(bool),
    Integer(i64),
    Variable(Seq<char>),
    FunctionCall { name: Seq<char>, args: Seq<ExprTree> },
    Assignment { name: Seq<char>, maybe_type: Option<Seq<char>>, expr: Box<ExprTree> },
    Binary { lhs: Box<ExprTree>, op: BinOpAst, rhs: Box<ExprTree> },
    If { cond_expr: Box<ExprTree>, then_expr: BlockTree, else_expr: BlockTree },
}

/// The value of a [`BlockAst`].
pub struct BlockTree {
    pub exprs: Seq<ExprTree>,
    pub trailing_semi: bool,
}

/// The value of a [`FunctionArgAst`].
pub struct ParamTree {
    pub name: Seq<char>,
    pub arg_type: Seq<char>,
}

/// The value of a [`FunctionAst`].
pub struct FunctionTree {
    pub name: Seq<char>,
    pub is_pub: bool,
    pub fn_args: Seq<ParamTree>,
    pub return_type: Seq<char>,
    pub block: BlockTree,
}

/// The value of a [`StatementAst`].
pub enum StatementTree {
    Function(FunctionTree),
}

/// The value of a [`ModuleAst`].
pub struct ModuleTree {
    pub statements: Seq<StatementTree>,
}

/// The value of an expression.
pub open spec fn expr_tree(e: ExprAst) -> ExprTree
    decreases e,
{
    match e {
        ExprAst::Boolean(b) => ExprTree::Boolean(b),
        ExprAst::Integer(i) => ExprTree::Integer(i),
        ExprAst::Variable(name) => ExprTree::Variable(name@),
        ExprAst::FunctionCall { name, args } => ExprTree::FunctionCall {
            name: name@,
            args: expr_trees(args@),
        },
        ExprAst::Assignment { name, maybe_type, expr } => ExprTree::Assignment {
            name: name@,
            maybe_type: match maybe_type {
                Some(t) => Some(t@),
                None => None,
            },
            expr: Box::new(expr_tree(*expr)),
        },
        ExprAst::Binary { lhs, op, rhs } => ExprTree::Binary {
            lhs: Box::new(expr_tree(*lhs)),
            op,
            rhs: Box::new(expr_tree(*rhs)),
        },
        ExprAst::If { cond_expr, then_expr, else_expr } => ExprTree::If {
            cond_expr: Box::new(expr_tree(*cond_expr)),
            then_expr: block_tree(then_expr),
            else_expr: block_tree(else_expr),
        },
    }
}

/// The values of a list of expressions.
pub open spec fn expr_trees(exprs: Seq<Box<ExprAst>>) -> Seq<ExprTree>
    decreases exprs,
{
    if exprs.len() == 0 {
        Seq::empty()
    } else {
        expr_trees(exprs.drop_last()).push(expr_tree(*exprs.last()))
    }
}

/// The value of a block.
pub open spec fn block_tree(block: BlockAst) -> BlockTree
    decreases block,
{
    BlockTree { exprs: expr_trees(block.exprs@), trailing_semi: block.trailing_semi }
}

/// The value of a parameter.
pub open spec fn param_tree(arg: FunctionArgAst) -> ParamTree {
    ParamTree { name: arg.name@, arg_type: arg.arg_type@ }
}

/// The value of a function declaration.
pub open spec fn function_tree(f: FunctionAst) -> FunctionTree {
    FunctionTree {
        name: f.name@,
        is_pub: f.is_pub,
        fn_args: Seq::new(f.fn_args@.len(), |i: int| param_tree(f.fn_args@[i])),
        return_type: f.return_type@,
        block: block_tree(f.block),
    }
}

/// The value of a statement.
pub open spec fn statement_tree(s: StatementAst) -> StatementTree {
    match s {
        StatementAst::Function(f) => StatementTree::Function(function_tree(f)),
    }
}

/// The value of a module.
pub open spec fn module_tree(m: ModuleAst) -> ModuleTree {
    ModuleTree { statements: Seq::new(m.statements@.len(), |i: int| statement_tree(m.statements@[i])) }
}

} // verus!
