//! What holds of every flow, whatever the graph.

use vstd::prelude::*;
use crate::error::TypeError;
use crate::typechecker::closure::{
    lemma_bound_pair_satisfied, lemma_run_below, lemma_run_closed, lemma_run_noop,
    lemma_run_settles, lemma_run_wf, lemma_settled_grows,
};
use crate::typechecker::graph::{func_edges, Edge, Graph, Outcome};

verus! {

/// A flow leaves the nodes as they are, keeps the graph well formed, and
/// leaves every bound in it that was in it, whether it succeeds or fails.
pub proof fn law_flow_only_adds_bounds(g: Graph, v: int, u: int)
    requires
        g.wf(),
        g.has_value(v),
        g.has_use(u),
    ensures
        g.flow(v, u).graph.wf(),
        g.below(g.flow(v, u).graph),
{
    lemma_run_wf(g, seq![Edge { v, u }]);
}

/// After a flow that succeeds the value is acceptable to the use, as far as
/// the bounds record it.
pub proof fn law_flow_satisfies(g: Graph, v: int, u: int)
    requires
        g.wf(),
        g.has_value(v),
        g.has_use(u),
        g.flow(v, u).error is None,
    ensures
        g.flow(v, u).graph.satisfied(Edge { v, u }),
{
    let e = Edge { v, u };
    let todo = seq![e];
    lemma_run_settles(g, todo, e);
}

/// On a closed graph a flow that succeeds yields a closed graph in which the
/// value is acceptable to the use.
pub proof fn law_flow_closes(g: Graph, v: int, u: int)
    requires
        g.wf(),
        g.has_value(v),
        g.has_use(u),
        g.closed(),
        g.flow(v, u).error is None,
    ensures
        g.flow(v, u).graph.closed(),
        g.flow(v, u).graph.satisfied(Edge { v, u }),
{
    let e = Edge { v, u };
    let todo = seq![e];
    law_flow_satisfies(g, v, u);
    assert(g.closed_upto(todo)) by {
        assert forall|s: int, i: int, j: int|
            0 <= s < g.slots.len() && 0 <= i < g.slots[s].lower.len() && 0 <= j
                < g.slots[s].upper.len() implies g.settled(
            todo,
            Edge { v: #[trigger] g.slots[s].lower[i], u: #[trigger] g.slots[s].upper[j] },
        ) by {
            let pair = Edge { v: g.slots[s].lower[i], u: g.slots[s].upper[j] };
            lemma_settled_grows(g, Seq::empty(), g, todo, pair);
        }
    }
    lemma_run_closed(g, todo);
}

/// Where any closed graph above `g` has the value acceptable to the use, the
/// flow succeeds, and what it yields lies below that graph: a flow records
/// nothing that does not follow. So a flow fails only where the constraints
/// cannot be met, however many variables and cycles lie between the two
/// concrete types that conflict.
pub proof fn law_flow_is_least(g: Graph, v: int, u: int, k: Graph)
    requires
        g.wf(),
        g.has_value(v),
        g.has_use(u),
        k.wf(),
        k.closed(),
        g.below(k),
        k.satisfied(Edge { v, u }),
    ensures
        g.flow(v, u).error is None,
        g.flow(v, u).graph.below(k),
{
    lemma_run_below(g, seq![Edge { v, u }], k);
}

/// On a closed graph a flow succeeds exactly where the constraints can be
/// met: where some closed graph above has the value acceptable to the use.
pub proof fn law_flow_succeeds_iff_consistent(g: Graph, v: int, u: int)
    requires
        g.wf(),
        g.has_value(v),
        g.has_use(u),
        g.closed(),
    ensures
        g.flow(v, u).error is None <==> exists|k: Graph|
            k.wf() && k.closed() && g.below(k) && #[trigger] k.satisfied(Edge { v, u }),
{
    let e = Edge { v, u };
    if g.flow(v, u).error is None {
        law_flow_only_adds_bounds(g, v, u);
        law_flow_closes(g, v, u);
    }
    if exists|k: Graph| k.wf() && k.closed() && g.below(k) && #[trigger] k.satisfied(e) {
        let k = choose|k: Graph| k.wf() && k.closed() && g.below(k) && #[trigger] k.satisfied(e);
        law_flow_is_least(g, v, u, k);
    }
}

/// A flow of what is satisfied already succeeds and changes nothing.
pub proof fn law_flow_of_satisfied(g: Graph, v: int, u: int)
    requires
        g.wf(),
        g.has_value(v),
        g.has_use(u),
        g.satisfied(Edge { v, u }),
    ensures
        g.flow(v, u) == (Outcome { graph: g, error: None }),
{
    lemma_run_noop(g, seq![Edge { v, u }]);
}

/// A flow that fails leaves the graph as it found it.
pub proof fn law_failed_flow_changes_nothing(g: Graph, v: int, u: int)
    requires
        g.flow(v, u).error is Some,
    ensures
        g.flow(v, u).graph == g,
{
}

/// The same flow again, on the graph that the first left, whatever the first returned.
pub open spec fn flow_twice(g: Graph, v: int, u: int) -> Outcome {
    g.flow(v, u).graph.flow(v, u)
}

/// The same flow twice is the flow once: the second ends as the first and
/// leaves the graph that the first left. A flow that has succeeded succeeds
/// again and records nothing more; the bounds are sets, and the same pair
/// asserted twice is recorded once. A flow that has failed fails again, with
/// the same conflict.
pub proof fn law_flow_twice(g: Graph, v: int, u: int)
    requires
        g.wf(),
        g.has_value(v),
        g.has_use(u),
    ensures
        flow_twice(g, v, u) == g.flow(v, u),
        g.flow(v, u).error is Some ==> g.flow(v, u).graph.flow(v, u).error == g.flow(v, u).error,
        g.flow(v, u).error is None ==> g.flow(v, u).graph.flow(v, u) == g.flow(v, u),
{
    if g.flow(v, u).error is None {
        law_flow_satisfies(g, v, u);
        law_flow_only_adds_bounds(g, v, u);
        law_flow_of_satisfied(g.flow(v, u).graph, v, u);
    }
}

/// Two concrete types of different kinds never fit: the flow fails at once
/// with the kind that the use requires and the kind that the value has, and
/// changes nothing. So an `Integer` is not acceptable to a `BoolUse`, nor a
/// `Bool` to an `IntegerUse`.
pub proof fn law_kinds_do_not_mix(g: Graph, v: int, u: int)
    requires
        g.wf(),
        g.has_value(v),
        g.has_use(u),
        !(g.values[v] is Var),
        !(g.uses[u] is Var),
        g.values[v].kind() != g.uses[u].kind(),
    ensures
        g.flow(v, u) == (Outcome {
            graph: g,
            error: Some(
                TypeError::TypeMismatch { expected: g.uses[u].kind(), found: g.values[v].kind() },
            ),
        }),
{
}

/// A function that declares other than the number of arguments that a call
/// supplies is not acceptable to the call, whatever the arguments are: the
/// flow fails at once with the two numbers, and changes nothing.
pub proof fn law_arity(g: Graph, v: int, u: int)
    requires
        g.wf(),
        g.has_value(v),
        g.has_use(u),
        g.values[v] is Func,
        g.uses[u] is FuncUse,
        g.values[v]->params.len() != g.uses[u]->args.len(),
    ensures
        g.flow(v, u) == (Outcome {
            graph: g,
            error: Some(
                TypeError::ArityMismatch {
                    expected: g.values[v]->params.len() as usize,
                    found: g.uses[u]->args.len() as usize,
                },
            ),
        }),
{
}

/// Parameters are contravariant: a call is checked against what the function
/// requires of its arguments. Where the function requires a concrete type of
/// its `i`-th argument, and the call supplies a variable into which a value
/// of another kind has flowed, the function is not acceptable to the call.
pub proof fn law_contravariance(g: Graph, f: int, call: int, i: int, x: int)
    requires
        g.wf(),
        g.closed(),
        g.has_value(f),
        g.has_use(call),
        g.values[f] is Func,
        g.uses[call] is FuncUse,
        g.values[f]->params.len() == g.uses[call]->args.len(),
        0 <= i < g.values[f]->params.len(),
        !(g.uses[g.values[f]->params[i]] is Var),
        g.values[g.uses[call]->args[i]] is Var,
        g.slots[g.values[g.uses[call]->args[i]]->slot].lower.contains(x),
        g.has_value(x),
        !(g.values[x] is Var),
        g.values[x].kind() != g.uses[g.values[f]->params[i]].kind(),
    ensures
        g.flow(f, call).error is Some,
{
    if g.flow(f, call).error is None {
        let h = g.flow(f, call).graph;
        law_flow_only_adds_bounds(g, f, call);
        law_flow_closes(g, f, call);
        let parts = func_edges(
            g.values[f]->params,
            g.values[f]->Func_result,
            g.uses[call]->args,
            g.uses[call]->FuncUse_result,
        );
        let s = g.values[g.uses[call]->args[i]]->slot;
        let required = g.values[f]->params[i];
        assert(h.settled(Seq::empty(), parts[i]));
        lemma_bound_pair_satisfied(h, s, x, required);
    }
}

} // verus!
