//! The typing rules: what the check of a syntax tree does to the constraint
//! graph and to the scope, and what it returns.
//!
//! A scope is taken here as what its names resolve to, through all the scopes
//! around it. The scope of a function body or of a branch of a conditional
//! starts as a copy of the scope around it and is dropped at the end of the
//! block: what the block binds is seen in the block and nowhere else.

use vstd::prelude::*;
use crate::ast::{BlockAst, ExprAst, FunctionArgAst, FunctionAst, ModuleAst, StatementAst};
use crate::error::{ErrorView, TypeError, TypeKind};
use crate::typechecker::graph::{Graph, Outcome, UseNode, ValueNode};

verus! {

/// What the names in scope resolve to: each to the index of a value node.
pub type Env = Map<Seq<char>, int>;

/// How the check of an expression or of a block ended.
pub struct Checked {
    /// The graph as the check left it.
    pub graph: Graph,
    /// The scope as the check left it.
    pub env: Env,
    /// The value of the expression, or why the check stopped.
    pub result: Result<int, ErrorView>,
}

/// How the check of a list of expressions ended.
pub struct CheckedList {
    pub graph: Graph,
    pub env: Env,
    /// The values of the expressions in order, or why the check stopped.
    pub result: Result<Seq<int>, ErrorView>,
}

/// How the check of a function declaration or of a module ended.
pub struct Declared {
    pub graph: Graph,
    pub env: Env,
    /// Why the check stopped, if it did.
    pub error: Option<ErrorView>,
}

/// The parameters of a function, bound.
pub struct Bound {
    pub graph: Graph,
    /// The scope of the function's body.
    pub env: Env,
    /// What the function requires of its arguments, in order.
    pub params: Seq<int>,
}

/// The base type that a declared type names, if it names one.
pub open spec fn declared_kind(name: Seq<char>) -> Option<TypeKind> {
    if name == "Integer"@ {
        Some(TypeKind::Integer)
    } else if name == "Bool"@ {
        Some(TypeKind::Bool)
    } else {
        None
    }
}

/// The use that requires the base type `kind`.
pub open spec fn base_use(kind: TypeKind) -> UseNode
    recommends
        kind != TypeKind::Function,
{
    match kind {
        TypeKind::Integer => UseNode::IntegerUse,
        TypeKind::Bool => UseNode::BoolUse,
        _ => UseNode::UnitUse,
    }
}

/// Requires the base type `kind` of the value `v`: `v` flows into a fresh use of that type.
pub open spec fn require(g: Graph, v: int, kind: TypeKind) -> Outcome {
    g.push_use(base_use(kind)).flow(v, g.uses.len() as int)
}

/// Holds the value `v` to the declared type `declared`: where that names
/// `Integer` or `Bool`, that type is required of `v`. Any other name
/// constrains nothing.
pub open spec fn constrain(g: Graph, v: int, declared: Seq<char>) -> Outcome {
    match declared_kind(declared) {
        None => Outcome { graph: g, error: None },
        Some(kind) => require(g, v, kind),
    }
}

/// A conflict of types as the reason why a check stopped.
pub open spec fn type_error(conflict: Option<TypeError>) -> Option<ErrorView> {
    match conflict {
        None => None,
        Some(e) => Some(ErrorView::Type(e)),
    }
}

/// The check of an expression.
///
/// - A literal is a fresh value of its type.
/// - A name is what it resolves to in the scope; a name that the scope does
///   not hold is unbound.
/// - A call resolves its callee, then checks its arguments from left to
///   right, and flows the callee into the use of a function that takes these
///   arguments and gives a fresh variable, which is the call's value.
/// - A `let` checks its expression and binds the name to its value in the
///   scope where it stands; its own value is `Unit`.
/// - An operator checks its two operands from left to right, flows each
///   into a fresh `IntegerUse`, and has a fresh `Integer` as its value.
/// - A conditional checks its condition, flows it into a fresh `BoolUse`,
///   checks each branch in a scope of its own, and merges the values of
///   both into a fresh variable, which is the conditional's value.
///
/// The first failure ends the check, and leaves the scope as it is then and
/// the graph as the steps before the failure have made it.
pub open spec fn check_expr(g: Graph, env: Env, e: ExprAst) -> Checked
    decreases e,
{
    match e {
        ExprAst::Boolean(_) => Checked {
            graph: g.push_value(ValueNode::Bool),
            env,
            result: Ok(g.values.len() as int),
        },
        ExprAst::Integer(_) => Checked {
            graph: g.push_value(ValueNode::Integer),
            env,
            result: Ok(g.values.len() as int),
        },
        ExprAst::Variable(name) => Checked {
            graph: g,
            env,
            result: if env.contains_key(name@) {
                Ok(env[name@])
            } else {
                Err(ErrorView::UnboundName(name@))
            },
        },
        ExprAst::FunctionCall { name, args } => {
            if !env.contains_key(name@) {
                Checked { graph: g, env, result: Err(ErrorView::UnboundName(name@)) }
            } else {
                let given = check_exprs(g, env, args@);
                match given.result {
                    Err(e) => Checked { graph: given.graph, env: given.env, result: Err(e) },
                    Ok(values) => {
                        let with_var = given.graph.push_var();
                        let call = with_var.push_use(
                            UseNode::FuncUse { args: values, result: given.graph.uses.len() as int },
                        );
                        let done = call.flow(env[name@], with_var.uses.len() as int);
                        Checked {
                            graph: done.graph,
                            env: given.env,
                            result: match done.error {
                                None => Ok(given.graph.values.len() as int),
                                Some(e) => Err(ErrorView::Type(e)),
                            },
                        }
                    },
                }
            }
        },
        ExprAst::Assignment { name, maybe_type, expr } => {
            let bound = check_expr(g, env, *expr);
            match bound.result {
                Err(e) => bound,
                Ok(v) => Checked {
                    graph: bound.graph.push_value(ValueNode::Unit),
                    env: bound.env.insert(name@, v),
                    result: Ok(bound.graph.values.len() as int),
                },
            }
        },
        ExprAst::Binary { lhs, op, rhs } => {
            let left = check_expr(g, env, *lhs);
            match left.result {
                Err(e) => left,
                Ok(l) => {
                    let right = check_expr(left.graph, left.env, *rhs);
                    match right.result {
                        Err(e) => right,
                        Ok(r) => {
                            let first = require(right.graph, l, TypeKind::Integer);
                            if first.error is Some {
                                Checked {
                                    graph: first.graph,
                                    env: right.env,
                                    result: Err(ErrorView::Type(first.error->0)),
                                }
                            } else {
                                let second = require(first.graph, r, TypeKind::Integer);
                                if second.error is Some {
                                    Checked {
                                        graph: second.graph,
                                        env: right.env,
                                        result: Err(ErrorView::Type(second.error->0)),
                                    }
                                } else {
                                    Checked {
                                        graph: second.graph.push_value(ValueNode::Integer),
                                        env: right.env,
                                        result: Ok(second.graph.values.len() as int),
                                    }
                                }
                            }
                        },
                    }
                },
            }
        },
        ExprAst::If { cond_expr, then_expr, else_expr } => {
            let cond = check_expr(g, env, *cond_expr);
            match cond.result {
                Err(e) => cond,
                Ok(c) => {
                    let tested = require(cond.graph, c, TypeKind::Bool);
                    if tested.error is Some {
                        Checked {
                            graph: tested.graph,
                            env: cond.env,
                            result: Err(ErrorView::Type(tested.error->0)),
                        }
                    } else {
                        let then = check_block(tested.graph, cond.env, then_expr);
                        match then.result {
                            Err(e) => Checked { graph: then.graph, env: cond.env, result: Err(e) },
                            Ok(t) => {
                                let other = check_block(then.graph, cond.env, else_expr);
                                match other.result {
                                    Err(e) => Checked {
                                        graph: other.graph,
                                        env: cond.env,
                                        result: Err(e),
                                    },
                                    Ok(o) => Checked {
                                        graph: merge(other.graph, t, o),
                                        env: cond.env,
                                        result: Ok(other.graph.values.len() as int),
                                    },
                                }
                            },
                        }
                    }
                },
            }
        },
    }
}

/// The graph in which the values `t` and `o` of the two branches of a
/// conditional are merged: both flow into a fresh variable, whose producer
/// half is the value of the conditional. The branches need not agree, and
/// the merge never fails: nothing that the variable flows into is there yet
/// to refuse one of them.
pub open spec fn merge(g: Graph, t: int, o: int) -> Graph {
    g.push_var().flow(t, g.uses.len() as int).graph.flow(o, g.uses.len() as int).graph
}

/// The check of expressions one after the other, each in the graph and the
/// scope that the one before it left.
pub open spec fn check_exprs(g: Graph, env: Env, exprs: Seq<Box<ExprAst>>) -> CheckedList
    decreases exprs,
{
    if exprs.len() == 0 {
        CheckedList { graph: g, env, result: Ok(Seq::empty()) }
    } else {
        let front = check_exprs(g, env, exprs.drop_last());
        match front.result {
            Err(e) => front,
            Ok(values) => {
                let last = check_expr(front.graph, front.env, *exprs.last());
                CheckedList {
                    graph: last.graph,
                    env: last.env,
                    result: match last.result {
                        Err(e) => Err(e),
                        Ok(v) => Ok(values.push(v)),
                    },
                }
            },
        }
    }
}

/// The check of a block in the scope `env`, which is the block's own.
///
/// Every expression is checked, in order. The block's value is that of its
/// last expression; an empty block and a block that ends with a separator
/// have a fresh `Unit` as their value.
pub open spec fn check_block(g: Graph, env: Env, block: BlockAst) -> Checked
    decreases block,
{
    let all = check_exprs(g, env, block.exprs@);
    match all.result {
        Err(e) => Checked { graph: all.graph, env: all.env, result: Err(e) },
        Ok(values) => {
            if block.exprs@.len() == 0 || block.trailing_semi {
                Checked {
                    graph: all.graph.push_value(ValueNode::Unit),
                    env: all.env,
                    result: Ok(all.graph.values.len() as int),
                }
            } else {
                Checked { graph: all.graph, env: all.env, result: Ok(values.last()) }
            }
        },
    }
}

/// The parameters of a function, bound from left to right: each is a fresh
/// variable, its name bound to the producer half, its consumer half what the
/// function requires of the argument, and held to its declared type. Nothing
/// has flowed into a parameter yet, so this never fails.
pub open spec fn bind_params(g: Graph, env: Env, args: Seq<FunctionArgAst>) -> Bound
    decreases args.len(),
{
    if args.len() == 0 {
        Bound { graph: g, env, params: Seq::empty() }
    } else {
        let front = bind_params(g, env, args.drop_last());
        let arg = args.last();
        Bound {
            graph: constrain(
                front.graph.push_var(),
                front.graph.values.len() as int,
                arg.arg_type@,
            ).graph,
            env: front.env.insert(arg.name@, front.graph.values.len() as int),
            params: front.params.push(front.graph.uses.len() as int),
        }
    }
}

/// The check of a function declaration: binds the parameters in a scope of
/// the function's own, checks the body there, holds the body's value to the
/// declared result type, and binds the function's name, in the scope where
/// the declaration stands, to the function's type. The body does not see the
/// function's own name.
pub open spec fn check_function(g: Graph, env: Env, f: FunctionAst) -> Declared {
    let bound = bind_params(g, env, f.fn_args@);
    let body = check_block(bound.graph, bound.env, f.block);
    match body.result {
        Err(e) => Declared { graph: body.graph, env, error: Some(e) },
        Ok(b) => {
            let held = constrain(body.graph, b, f.return_type@);
            if held.error is Some {
                Declared { graph: held.graph, env, error: type_error(held.error) }
            } else {
                Declared {
                    graph: held.graph.push_value(
                        ValueNode::Func { params: bound.params, result: b },
                    ),
                    env: env.insert(f.name@, held.graph.values.len() as int),
                    error: None,
                }
            }
        },
    }
}

/// The check of statements one after the other: a function is in scope for
/// the statements after its declaration.
pub open spec fn check_statements(g: Graph, env: Env, statements: Seq<StatementAst>) -> Declared
    decreases statements.len(),
{
    if statements.len() == 0 {
        Declared { graph: g, env, error: None }
    } else {
        let front = check_statements(g, env, statements.drop_last());
        if front.error is Some {
            front
        } else {
            match statements.last() {
                StatementAst::Function(f) => check_function(front.graph, front.env, f),
            }
        }
    }
}

/// The check of a module.
pub open spec fn check_module(g: Graph, env: Env, module: ModuleAst) -> Declared {
    check_statements(g, env, module.statements@)
}

/// Once the check of a list has failed, the expressions after the failure count for nothing.
pub proof fn lemma_exprs_stop(g: Graph, env: Env, exprs: Seq<Box<ExprAst>>, k: int)
    requires
        0 <= k <= exprs.len(),
        check_exprs(g, env, exprs.take(k)).result is Err,
    ensures
        check_exprs(g, env, exprs) == check_exprs(g, env, exprs.take(k)),
    decreases exprs.len(),
{
    if k == exprs.len() {
        assert(exprs.take(k) =~= exprs);
    } else {
        assert(exprs.drop_last().take(k) =~= exprs.take(k));
        lemma_exprs_stop(g, env, exprs.drop_last(), k);
    }
}

/// Once the check of a module has failed, the statements after the failure count for nothing.
pub proof fn lemma_statements_stop(g: Graph, env: Env, statements: Seq<StatementAst>, k: int)
    requires
        0 <= k <= statements.len(),
        check_statements(g, env, statements.take(k)).error is Some,
    ensures
        check_statements(g, env, statements) == check_statements(
            g,
            env,
            statements.take(k),
        ),
    decreases statements.len(),
{
    if k == statements.len() {
        assert(statements.take(k) =~= statements);
    } else {
        assert(statements.drop_last().take(k) =~= statements.take(k));
        lemma_statements_stop(g, env, statements.drop_last(), k);
    }
}

} // verus!
