//! What the typing rules keep: the graph stays well formed and keeps its
//! nodes, the scope stays in the graph, and the graph stays closed, whether
//! the check passes or fails.

use vstd::prelude::*;
use crate::ast::{BlockAst, ExprAst, FunctionArgAst, FunctionAst, ModuleAst, StatementAst};
use crate::error::TypeKind;
use crate::typechecker::arena::{lemma_push_use_wf, lemma_push_value_wf, lemma_push_var_wf};
use crate::typechecker::closure::lemma_closed_kept;
use crate::typechecker::graph::{Graph, UseNode, ValueNode};
use crate::typechecker::laws::{law_flow_closes, law_flow_only_adds_bounds};
use crate::typechecker::lazy::{law_open_variable_accepts, law_open_variable_is_accepted};
use crate::typechecker::typing::{
    base_use, bind_params, check_block, check_expr, check_exprs, check_function, check_module,
    check_statements, constrain, declared_kind, merge, require, Env,
};

verus! {

/// Every name in scope resolves to a value node of the graph.
pub open spec fn scope_ok(g: Graph, env: Env) -> bool {
    forall|name: Seq<char>| #[trigger] env.contains_key(name) ==> g.has_value(env[name])
}

/// `after` holds every node of `before` at its place, and at least as many variables.
pub open spec fn grown(before: Graph, after: Graph) -> bool {
    &&& before.values.len() <= after.values.len()
    &&& before.uses.len() <= after.uses.len()
    &&& before.slots.len() <= after.slots.len()
    &&& forall|i: int|
        0 <= i < before.values.len() ==> #[trigger] after.values[i] == before.values[i]
    &&& forall|j: int| 0 <= j < before.uses.len() ==> #[trigger] after.uses[j] == before.uses[j]
}

/// What every step of a check keeps, whether it passes or fails: the graph
/// well formed and grown, and closed if it was closed.
pub open spec fn kept(before: Graph, after: Graph) -> bool {
    &&& after.wf()
    &&& grown(before, after)
    &&& before.closed() ==> after.closed()
}

/// A value node more keeps what is to be kept.
pub proof fn lemma_value_kept(g: Graph, n: ValueNode)
    requires
        g.wf(),
        g.admits_value(n),
    ensures
        kept(g, g.push_value(n)),
{
    lemma_push_value_wf(g, n);
    if g.closed() {
        lemma_closed_kept(g, g.push_value(n));
    }
}

/// A use node more keeps what is to be kept.
pub proof fn lemma_use_kept(g: Graph, n: UseNode)
    requires
        g.wf(),
        g.admits_use(n),
    ensures
        kept(g, g.push_use(n)),
{
    lemma_push_use_wf(g, n);
    if g.closed() {
        lemma_closed_kept(g, g.push_use(n));
    }
}

/// A variable more keeps what is to be kept.
pub proof fn lemma_var_kept(g: Graph)
    requires
        g.wf(),
    ensures
        kept(g, g.push_var()),
{
    lemma_push_var_wf(g);
    if g.closed() {
        lemma_closed_kept(g, g.push_var());
    }
}

/// A flow keeps what is to be kept.
pub proof fn lemma_flow_kept(g: Graph, v: int, u: int)
    requires
        g.wf(),
        g.has_value(v),
        g.has_use(u),
    ensures
        kept(g, g.flow(v, u).graph),
        g.flow(v, u).graph.values == g.values,
        g.flow(v, u).graph.uses == g.uses,
{
    law_flow_only_adds_bounds(g, v, u);
    if g.closed() && g.flow(v, u).error is None {
        law_flow_closes(g, v, u);
    }
}

/// To require a base type of a value keeps what is to be kept.
pub proof fn lemma_require_kept(g: Graph, v: int, kind: TypeKind)
    requires
        g.wf(),
        g.has_value(v),
    ensures
        kept(g, require(g, v, kind).graph),
        require(g, v, kind).graph.values == g.values,
{
    let with_use = g.push_use(base_use(kind));
    lemma_use_kept(g, base_use(kind));
    lemma_flow_kept(with_use, v, g.uses.len() as int);
}

/// To hold a value to a declared type keeps what is to be kept.
pub proof fn lemma_constrain_kept(g: Graph, v: int, declared: Seq<char>)
    requires
        g.wf(),
        g.has_value(v),
    ensures
        kept(g, constrain(g, v, declared).graph),
        constrain(g, v, declared).graph.values == g.values,
{
    match declared_kind(declared) {
        Some(kind) => {
            lemma_require_kept(g, v, kind);
        },
        None => {},
    }
}

/// The check of an expression keeps what is to be kept, and the value of the
/// expression is a node of the graph.
pub proof fn lemma_expr_kept(g: Graph, env: Env, e: ExprAst)
    requires
        g.wf(),
        scope_ok(g, env),
    ensures
        kept(g, check_expr(g, env, e).graph),
        scope_ok(check_expr(g, env, e).graph, check_expr(g, env, e).env),
        check_expr(g, env, e).result matches Ok(v) ==> check_expr(g, env, e).graph.has_value(v),
    decreases e,
{
    match e {
        ExprAst::Boolean(_) => {
            lemma_value_kept(g, ValueNode::Bool);
        },
        ExprAst::Integer(_) => {
            lemma_value_kept(g, ValueNode::Integer);
        },
        ExprAst::Variable(name) => {},
        ExprAst::FunctionCall { name, args } => {
            if env.contains_key(name@) {
                let given = check_exprs(g, env, args@);
                lemma_exprs_kept(g, env, args@);
                match given.result {
                    Ok(values) => {
                        let with_var = given.graph.push_var();
                        let node = UseNode::FuncUse {
                            args: values,
                            result: given.graph.uses.len() as int,
                        };
                        let call = with_var.push_use(node);
                        lemma_var_kept(given.graph);
                        lemma_use_kept(with_var, node);
                        lemma_flow_kept(call, env[name@], with_var.uses.len() as int);
                    },
                    Err(_) => {},
                }
            }
        },
        ExprAst::Assignment { name, maybe_type, expr } => {
            let bound = check_expr(g, env, *expr);
            lemma_expr_kept(g, env, *expr);
            if bound.result is Ok {
                lemma_value_kept(bound.graph, ValueNode::Unit);
            }
        },
        ExprAst::Binary { lhs, op, rhs } => {
            let left = check_expr(g, env, *lhs);
            lemma_expr_kept(g, env, *lhs);
            if left.result is Ok {
                let right = check_expr(left.graph, left.env, *rhs);
                lemma_expr_kept(left.graph, left.env, *rhs);
                if right.result is Ok {
                    let first = require(right.graph, left.result->Ok_0, TypeKind::Integer);
                    lemma_require_kept(right.graph, left.result->Ok_0, TypeKind::Integer);
                    if first.error is None {
                        let second = require(first.graph, right.result->Ok_0, TypeKind::Integer);
                        lemma_require_kept(first.graph, right.result->Ok_0, TypeKind::Integer);
                        if second.error is None {
                            lemma_value_kept(second.graph, ValueNode::Integer);
                        }
                    }
                }
            }
        },
        ExprAst::If { cond_expr, then_expr, else_expr } => {
            let cond = check_expr(g, env, *cond_expr);
            lemma_expr_kept(g, env, *cond_expr);
            if cond.result is Ok {
                let tested = require(cond.graph, cond.result->Ok_0, TypeKind::Bool);
                lemma_require_kept(cond.graph, cond.result->Ok_0, TypeKind::Bool);
                if tested.error is None {
                    let then = check_block(tested.graph, cond.env, then_expr);
                    lemma_block_kept(tested.graph, cond.env, then_expr);
                    if then.result is Ok {
                        let other = check_block(then.graph, cond.env, else_expr);
                        lemma_block_kept(then.graph, cond.env, else_expr);
                        if other.result is Ok {
                            lemma_merge_kept(
                                other.graph,
                                then.result->Ok_0,
                                other.result->Ok_0,
                            );
                        }
                    }
                }
            }
        },
    }
}

/// The merge of two branches never fails, keeps what is to be kept, and
/// leaves the variable of the merge flowing into nothing.
pub proof fn lemma_merge_kept(g: Graph, t: int, o: int)
    requires
        g.wf(),
        g.has_value(t),
        g.has_value(o),
    ensures
        g.push_var().flow(t, g.uses.len() as int).error is None,
        g.push_var().flow(t, g.uses.len() as int).graph.flow(o, g.uses.len() as int).error is None,
        kept(g, merge(g, t, o)),
        merge(g, t, o).values == g.push_var().values,
        merge(g, t, o).open_use(g.uses.len() as int),
{
    let with_var = g.push_var();
    let m = g.uses.len() as int;
    lemma_var_kept(g);
    law_open_variable_accepts(with_var, t, m);
    lemma_flow_kept(with_var, t, m);
    let first = with_var.flow(t, m).graph;
    law_open_variable_accepts(first, o, m);
    lemma_flow_kept(first, o, m);
}

/// The check of a list of expressions keeps what is to be kept, and the
/// values of the expressions are nodes of the graph, one for each expression.
pub proof fn lemma_exprs_kept(g: Graph, env: Env, exprs: Seq<Box<ExprAst>>)
    requires
        g.wf(),
        scope_ok(g, env),
    ensures
        kept(g, check_exprs(g, env, exprs).graph),
        scope_ok(check_exprs(g, env, exprs).graph, check_exprs(g, env, exprs).env),
        check_exprs(g, env, exprs).result matches Ok(values) ==> values.len() == exprs.len()
            && forall|k: int|
            0 <= k < values.len() ==> check_exprs(g, env, exprs).graph.has_value(
                #[trigger] values[k],
            ),
    decreases exprs,
{
    if exprs.len() > 0 {
        let front = check_exprs(g, env, exprs.drop_last());
        lemma_exprs_kept(g, env, exprs.drop_last());
        if front.result is Ok {
            lemma_expr_kept(front.graph, front.env, *exprs.last());
        }
    }
}

/// The check of a block keeps what is to be kept, and the value of the
/// block is a node of the graph.
pub proof fn lemma_block_kept(g: Graph, env: Env, block: BlockAst)
    requires
        g.wf(),
        scope_ok(g, env),
    ensures
        kept(g, check_block(g, env, block).graph),
        scope_ok(check_block(g, env, block).graph, check_block(g, env, block).env),
        check_block(g, env, block).result matches Ok(v) ==> check_block(
            g,
            env,
            block,
        ).graph.has_value(v),
    decreases block,
{
    let all = check_exprs(g, env, block.exprs@);
    lemma_exprs_kept(g, env, block.exprs@);
    if all.result is Ok {
        if block.exprs@.len() == 0 || block.trailing_semi {
            lemma_value_kept(all.graph, ValueNode::Unit);
        }
    }
}

/// The binding of the parameters of a function keeps what is to be kept,
/// and what the function requires of its arguments are uses of the graph.
pub proof fn lemma_params_kept(g: Graph, env: Env, args: Seq<FunctionArgAst>)
    requires
        g.wf(),
        scope_ok(g, env),
    ensures
        kept(g, bind_params(g, env, args).graph),
        scope_ok(bind_params(g, env, args).graph, bind_params(g, env, args).env),
        forall|k: int|
            0 <= k < bind_params(g, env, args).params.len() ==> bind_params(
                g,
                env,
                args,
            ).graph.has_use(#[trigger] bind_params(g, env, args).params[k]),
    decreases args.len(),
{
    if args.len() > 0 {
        let front = bind_params(g, env, args.drop_last());
        lemma_params_kept(g, env, args.drop_last());
        lemma_var_kept(front.graph);
        lemma_parameter_binds(front.graph, args.last().arg_type@);
        lemma_constrain_kept(
            front.graph.push_var(),
            front.graph.values.len() as int,
            args.last().arg_type@,
        );
    }
}

/// A fresh variable can be held to any declared type: nothing has flowed into it.
pub proof fn lemma_parameter_binds(g: Graph, declared: Seq<char>)
    requires
        g.wf(),
    ensures
        constrain(g.push_var(), g.values.len() as int, declared).error is None,
{
    let with_var = g.push_var();
    let p = g.values.len() as int;
    lemma_var_kept(g);
    match declared_kind(declared) {
        Some(kind) => {
            let with_use = with_var.push_use(base_use(kind));
            lemma_use_kept(with_var, base_use(kind));
            law_open_variable_is_accepted(with_use, p, with_var.uses.len() as int);
        },
        None => {},
    }
}

/// The check of a function declaration keeps what is to be kept.
pub proof fn lemma_function_kept(g: Graph, env: Env, f: FunctionAst)
    requires
        g.wf(),
        scope_ok(g, env),
    ensures
        kept(g, check_function(g, env, f).graph),
        scope_ok(check_function(g, env, f).graph, check_function(g, env, f).env),
{
    let bound = bind_params(g, env, f.fn_args@);
    lemma_params_kept(g, env, f.fn_args@);
    let body = check_block(bound.graph, bound.env, f.block);
    lemma_block_kept(bound.graph, bound.env, f.block);
    if body.result is Ok {
        let b = body.result->Ok_0;
        let held = constrain(body.graph, b, f.return_type@);
        lemma_constrain_kept(body.graph, b, f.return_type@);
        if held.error is None {
            lemma_value_kept(held.graph, ValueNode::Func { params: bound.params, result: b });
        }
    }
}

/// The check of statements keeps what is to be kept.
pub proof fn lemma_statements_kept(g: Graph, env: Env, statements: Seq<StatementAst>)
    requires
        g.wf(),
        scope_ok(g, env),
    ensures
        kept(g, check_statements(g, env, statements).graph),
        scope_ok(
            check_statements(g, env, statements).graph,
            check_statements(g, env, statements).env,
        ),
    decreases statements.len(),
{
    if statements.len() > 0 {
        let front = check_statements(g, env, statements.drop_last());
        lemma_statements_kept(g, env, statements.drop_last());
        if front.error is None {
            match statements.last() {
                StatementAst::Function(f) => {
                    lemma_function_kept(front.graph, front.env, f);
                },
            }
        }
    }
}

/// The check of a module leaves a closed graph, whether it passes or fails:
/// at every point all that flows into a variable is acceptable to all that
/// the variable flows into, and the constraints of a module that passes can
/// all be met together. The graph stays well formed and the scope stays in it.
pub proof fn law_checked_module_is_consistent(g: Graph, env: Env, module: ModuleAst)
    requires
        g.wf(),
        scope_ok(g, env),
    ensures
        check_module(g, env, module).graph.wf(),
        scope_ok(check_module(g, env, module).graph, check_module(g, env, module).env),
        grown(g, check_module(g, env, module).graph),
        g.closed() ==> check_module(g, env, module).graph.closed(),
{
    lemma_statements_kept(g, env, module.statements@);
}

} // verus!
