//! What holds of the scopes, whatever the syntax tree.

use vstd::prelude::*;
use crate::ast::{BlockAst, ExprAst, FunctionAst, IdentAst};
use crate::error::{ErrorView, TypeKind};
use crate::typechecker::graph::Graph;
use crate::typechecker::typing::{
    check_block, check_expr, check_exprs, check_function, lemma_exprs_stop, require, Env,
};

verus! {

/// A name that no scope binds is unbound, and the check of it changes nothing.
pub proof fn law_unbound_name(g: Graph, env: Env, name: IdentAst)
    requires
        !env.contains_key(name@),
    ensures
        check_expr(g, env, ExprAst::Variable(name)).result == Err::<int, ErrorView>(
            ErrorView::UnboundName(name@),
        ),
        check_expr(g, env, ExprAst::Variable(name)).graph == g,
        check_expr(g, env, ExprAst::Variable(name)).env == env,
{
}

/// A conditional leaves the scope as its condition left it: whatever its
/// branches bind is bound in the branch alone.
pub proof fn law_branches_bind_nothing(
    g: Graph,
    env: Env,
    cond_expr: Box<ExprAst>,
    then_expr: BlockAst,
    else_expr: BlockAst,
)
    ensures
        check_expr(g, env, ExprAst::If { cond_expr, then_expr, else_expr }).env == check_expr(
            g,
            env,
            *cond_expr,
        ).env,
{
}

/// A name that is not in scope where the branches of a conditional begin is
/// unbound after the conditional, whatever the branches bind.
pub proof fn law_branch_binding_unbound_after(
    g: Graph,
    env: Env,
    cond_expr: Box<ExprAst>,
    then_expr: BlockAst,
    else_expr: BlockAst,
    name: IdentAst,
)
    requires
        !check_expr(g, env, *cond_expr).env.contains_key(name@),
    ensures
        ({
            let after = check_expr(g, env, ExprAst::If { cond_expr, then_expr, else_expr });
            check_expr(after.graph, after.env, ExprAst::Variable(name)).result == Err::<
                int,
                ErrorView,
            >(ErrorView::UnboundName(name@))
        }),
{
}

/// A name that is not in scope where the branches of a conditional begin is
/// unbound in the second branch, whatever the first branch binds: where the
/// second branch begins with that name, the conditional fails with it as
/// soon as the condition and the first branch have passed.
pub proof fn law_branch_binding_unbound_in_sibling(
    g: Graph,
    env: Env,
    cond_expr: Box<ExprAst>,
    then_expr: BlockAst,
    else_expr: BlockAst,
    name: IdentAst,
)
    requires
        !check_expr(g, env, *cond_expr).env.contains_key(name@),
        else_expr.exprs@.len() > 0,
        *else_expr.exprs@[0] == ExprAst::Variable(name),
        check_expr(g, env, *cond_expr).result is Ok,
        require(
            check_expr(g, env, *cond_expr).graph,
            check_expr(g, env, *cond_expr).result->Ok_0,
            TypeKind::Bool,
        ).error is None,
        check_block(
            require(
                check_expr(g, env, *cond_expr).graph,
                check_expr(g, env, *cond_expr).result->Ok_0,
                TypeKind::Bool,
            ).graph,
            check_expr(g, env, *cond_expr).env,
            then_expr,
        ).result is Ok,
    ensures
        check_expr(g, env, ExprAst::If { cond_expr, then_expr, else_expr }).result == Err::<
            int,
            ErrorView,
        >(ErrorView::UnboundName(name@)),
{
    let cond = check_expr(g, env, *cond_expr);
    let tested = require(cond.graph, cond.result->Ok_0, TypeKind::Bool);
    let then = check_block(tested.graph, cond.env, then_expr);
    let exprs = else_expr.exprs@;
    assert(exprs.take(1).drop_last() =~= Seq::<Box<ExprAst>>::empty());
    assert(exprs.take(1).last() == exprs[0]);
    let front = check_exprs(then.graph, cond.env, exprs.take(1).drop_last());
    assert(front.result is Ok && front.graph == then.graph && front.env == cond.env);
    let first = check_expr(front.graph, front.env, *exprs.take(1).last());
    assert(first.result == Err::<int, ErrorView>(ErrorView::UnboundName(name@)));
    let unbound = Err::<Seq<int>, ErrorView>(ErrorView::UnboundName(name@));
    assert(check_exprs(then.graph, cond.env, exprs.take(1)).result == unbound);
    lemma_exprs_stop(then.graph, cond.env, exprs, 1);
    assert(check_exprs(then.graph, cond.env, else_expr.exprs@).result == unbound);
    let other = check_block(then.graph, cond.env, else_expr);
    assert(other.result == Err::<int, ErrorView>(ErrorView::UnboundName(name@)));
}

/// A function declaration binds the function's name in the scope where it
/// stands and nothing else there: its parameters and what its body binds are
/// bound in the body alone.
pub proof fn law_function_binds_its_name_only(g: Graph, env: Env, f: FunctionAst)
    ensures
        ({
            let after = check_function(g, env, f);
            if after.error is None {
                after.env == env.insert(f.name@, after.graph.values.len() - 1)
            } else {
                after.env == env
            }
        }),
{
}


/// The expression `e` binds `name` in the scope where it stands: a `let`
/// of that name stands in it, outside the branches of every conditional.
pub open spec fn binds(e: ExprAst, name: Seq<char>) -> bool
    decreases e,
{
    match e {
        ExprAst::Boolean(_) => false,
        ExprAst::Integer(_) => false,
        ExprAst::Variable(_) => false,
        ExprAst::FunctionCall { name: callee, args } => binds_any(args@, name),
        ExprAst::Assignment { name: bound, maybe_type, expr } => bound@ == name || binds(
            *expr,
            name,
        ),
        ExprAst::Binary { lhs, op, rhs } => binds(*lhs, name) || binds(*rhs, name),
        ExprAst::If { cond_expr, then_expr, else_expr } => binds(*cond_expr, name),
    }
}

/// One of the expressions binds `name` in the scope where they stand.
pub open spec fn binds_any(exprs: Seq<Box<ExprAst>>, name: Seq<char>) -> bool
    decreases exprs,
{
    if exprs.len() == 0 {
        false
    } else {
        binds_any(exprs.drop_last(), name) || binds(*exprs.last(), name)
    }
}

/// `name` resolves in `after` as it does in `before`.
pub open spec fn same_binding(before: Env, after: Env, name: Seq<char>) -> bool {
    &&& after.contains_key(name) == before.contains_key(name)
    &&& after[name] == before[name]
}

/// The check of an expression changes the scope by the `let`s of the
/// expression alone: a name that the expression does not bind resolves
/// after the check as before it, whether the check passes or fails.
pub proof fn law_only_lets_bind(g: Graph, env: Env, e: ExprAst, name: Seq<char>)
    requires
        !binds(e, name),
    ensures
        same_binding(env, check_expr(g, env, e).env, name),
    decreases e,
{
    match e {
        ExprAst::FunctionCall { name: callee, args } => {
            lemma_only_lets_bind_in_list(g, env, args@, name);
        },
        ExprAst::Assignment { name: bound, maybe_type, expr } => {
            law_only_lets_bind(g, env, *expr, name);
        },
        ExprAst::Binary { lhs, op, rhs } => {
            let left = check_expr(g, env, *lhs);
            law_only_lets_bind(g, env, *lhs, name);
            law_only_lets_bind(left.graph, left.env, *rhs, name);
        },
        ExprAst::If { cond_expr, then_expr, else_expr } => {
            law_only_lets_bind(g, env, *cond_expr, name);
        },
        _ => {},
    }
}

/// The check of a list of expressions changes the scope by the `let`s of
/// the expressions alone.
pub proof fn lemma_only_lets_bind_in_list(
    g: Graph,
    env: Env,
    exprs: Seq<Box<ExprAst>>,
    name: Seq<char>,
)
    requires
        !binds_any(exprs, name),
    ensures
        same_binding(env, check_exprs(g, env, exprs).env, name),
    decreases exprs,
{
    if exprs.len() > 0 {
        let front = check_exprs(g, env, exprs.drop_last());
        lemma_only_lets_bind_in_list(g, env, exprs.drop_last(), name);
        law_only_lets_bind(front.graph, front.env, *exprs.last(), name);
    }
}

/// A name that is not in scope before a conditional, and that the
/// condition does not bind, is unbound after the conditional and unbound
/// where the second branch begins, whatever the branches bind.
pub proof fn law_branch_binding_stays_inside(
    g: Graph,
    env: Env,
    cond_expr: Box<ExprAst>,
    then_expr: BlockAst,
    else_expr: BlockAst,
    name: IdentAst,
)
    requires
        !env.contains_key(name@),
        !binds(*cond_expr, name@),
    ensures
        !check_expr(g, env, *cond_expr).env.contains_key(name@),
        !check_expr(g, env, ExprAst::If { cond_expr, then_expr, else_expr }).env.contains_key(
            name@,
        ),
        ({
            let after = check_expr(g, env, ExprAst::If { cond_expr, then_expr, else_expr });
            check_expr(after.graph, after.env, ExprAst::Variable(name)).result == Err::<
                int,
                ErrorView,
            >(ErrorView::UnboundName(name@))
        }),
{
    law_only_lets_bind(g, env, *cond_expr, name@);
    law_branches_bind_nothing(g, env, cond_expr, then_expr, else_expr);
}

} // verus!
