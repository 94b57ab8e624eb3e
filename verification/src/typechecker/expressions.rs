//! What holds of the check of expressions, whatever the graph and the scope.

use vstd::prelude::*;
use crate::ast::{ExprAst, IdentAst};
use crate::error::{ErrorView, TypeError, TypeKind};
use crate::typechecker::graph::{Graph, UseNode, ValueNode};
use crate::typechecker::laws::{law_arity, law_kinds_do_not_mix};
use crate::typechecker::soundness::{
    lemma_expr_kept, lemma_exprs_kept, lemma_use_kept, lemma_var_kept, scope_ok,
};
use crate::typechecker::typing::{check_expr, check_exprs, require, Env};

verus! {

/// An integer literal and an operator expression are of type `Integer`: the
/// value of either is an `Integer` node, and is not acceptable where a
/// `Bool` is required.
pub proof fn law_integer_expression(g: Graph, env: Env, e: ExprAst)
    requires
        g.wf(),
        scope_ok(g, env),
        e is Integer || e is Binary,
        check_expr(g, env, e).result is Ok,
    ensures
        ({
            let checked = check_expr(g, env, e);
            let v = checked.result->Ok_0;
            &&& checked.graph.values[v] == ValueNode::Integer
            &&& require(checked.graph, v, TypeKind::Bool).error == Some(
                TypeError::TypeMismatch { expected: TypeKind::Bool, found: TypeKind::Integer },
            )
        }),
{
    let checked = check_expr(g, env, e);
    let v = checked.result->Ok_0;
    lemma_expr_kept(g, env, e);
    lemma_use_kept(checked.graph, UseNode::BoolUse);
    law_kinds_do_not_mix(
        checked.graph.push_use(UseNode::BoolUse),
        v,
        checked.graph.uses.len() as int,
    );
}

/// A boolean literal is of type `Bool`: its value is a `Bool` node, and is
/// not acceptable where an `Integer` is required.
pub proof fn law_boolean_expression(g: Graph, env: Env, e: ExprAst)
    requires
        g.wf(),
        scope_ok(g, env),
        e is Boolean,
    ensures
        ({
            let checked = check_expr(g, env, e);
            let v = checked.result->Ok_0;
            &&& checked.result is Ok
            &&& checked.graph.values[v] == ValueNode::Bool
            &&& require(checked.graph, v, TypeKind::Integer).error == Some(
                TypeError::TypeMismatch { expected: TypeKind::Integer, found: TypeKind::Bool },
            )
        }),
{
    let checked = check_expr(g, env, e);
    let v = checked.result->Ok_0;
    lemma_expr_kept(g, env, e);
    lemma_use_kept(checked.graph, UseNode::IntegerUse);
    law_kinds_do_not_mix(
        checked.graph.push_use(UseNode::IntegerUse),
        v,
        checked.graph.uses.len() as int,
    );
}

/// A call of a declared function with another number of arguments than the
/// function has parameters fails with the two numbers, whatever the types
/// of the arguments are, as soon as the arguments themselves have passed.
pub proof fn law_call_arity(g: Graph, env: Env, name: IdentAst, args: Vec<Box<ExprAst>>)
    requires
        g.wf(),
        scope_ok(g, env),
        env.contains_key(name@),
        g.values[env[name@]] is Func,
        g.values[env[name@]]->params.len() != args@.len(),
        check_exprs(g, env, args@).result is Ok,
    ensures
        check_expr(g, env, ExprAst::FunctionCall { name, args }).result == Err::<int, ErrorView>(
            ErrorView::Type(
                TypeError::ArityMismatch {
                    expected: g.values[env[name@]]->params.len() as usize,
                    found: args@.len() as usize,
                },
            ),
        ),
{
    let callee = env[name@];
    let given = check_exprs(g, env, args@);
    let values = given.result->Ok_0;
    lemma_exprs_kept(g, env, args@);
    let with_var = given.graph.push_var();
    let node = UseNode::FuncUse { args: values, result: given.graph.uses.len() as int };
    let call = with_var.push_use(node);
    lemma_var_kept(given.graph);
    assert(with_var.admits_use(node)) by {
        assert forall|k: int| 0 <= k < values.len() implies with_var.has_value(
            #[trigger] values[k],
        ) by {
            assert(given.graph.has_value(values[k]));
        }
    }
    lemma_use_kept(with_var, node);
    law_arity(call, callee, with_var.uses.len() as int);
}

} // verus!
