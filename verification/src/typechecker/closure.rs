//! What a flow achieves, stated without the steps that it takes.
//!
//! A graph is *closed* when every lower bound of every variable is acceptable
//! to every upper bound of that variable. On a closed graph a flow that
//! succeeds yields the least closed graph above it in which the new
//! obligation is satisfied, and a flow fails only where no such graph exists.

use vstd::prelude::*;
use crate::typechecker::graph::{
    func_edges, height, load, ranked, ranking, well_founded, Edge, Graph, Outcome, UseNode,
    ValueNode,
};
use crate::typechecker::progress::{lemma_discharge_decreases, lemma_discharge_wf};

verus! {

impl Graph {
    /// The obligation `e` is met as far as the bounds record it, taking
    /// those in `pending` for granted.
    ///
    /// Where a variable stands on either side, the other side must be
    /// recorded as its bound. `Bool`, `Integer` and `Unit` meet their own use.
    /// A function meets a call of its arity if all their parts are met.
    /// No other two concrete types meet.
    pub open spec fn settled(self, pending: Seq<Edge>, e: Edge) -> bool
        decreases height(self.values, self.uses, e),
        when well_founded(self.values, self.uses) && self.has_edge(e)
    {
        ||| pending.contains(e)
        ||| match (self.values[e.v], self.uses[e.u]) {
            (ValueNode::Var { slot: s }, UseNode::Var { slot: t }) => {
                self.slots[s].upper.contains(e.u) && self.slots[t].lower.contains(e.v)
            },
            (ValueNode::Var { slot: s }, _) => self.slots[s].upper.contains(e.u),
            (_, UseNode::Var { slot: t }) => self.slots[t].lower.contains(e.v),
            (ValueNode::Bool, UseNode::BoolUse) => true,
            (ValueNode::Integer, UseNode::IntegerUse) => true,
            (ValueNode::Unit, UseNode::UnitUse) => true,
            (ValueNode::Func { params, result }, UseNode::FuncUse { args, result: expects }) => {
                &&& params.len() == args.len()
                &&& forall|k: int|
                    0 <= k <= params.len() ==> self.settled(
                        pending,
                        #[trigger] func_edges(params, result, args, expects)[k],
                    )
            },
            _ => false,
        }
    }

    /// The value `e.v` is acceptable to the use `e.u` as far as the bounds record it.
    pub open spec fn satisfied(self, e: Edge) -> bool {
        self.settled(Seq::empty(), e)
    }

    /// Every lower bound of every variable is acceptable to every upper
    /// bound of that variable, taking the obligations in `pending` for granted.
    pub open spec fn closed_upto(self, pending: Seq<Edge>) -> bool {
        forall|s: int, i: int, j: int|
            0 <= s < self.slots.len() && 0 <= i < self.slots[s].lower.len() && 0 <= j
                < self.slots[s].upper.len() ==> self.settled(
                pending,
                Edge { v: #[trigger] self.slots[s].lower[i], u: #[trigger] self.slots[s].upper[j] },
            )
    }

    /// Every lower bound of every variable is acceptable to every upper
    /// bound of that variable.
    pub open spec fn closed(self) -> bool {
        self.closed_upto(Seq::empty())
    }

    /// `other` has the nodes of this graph and records every bound that this graph records.
    pub open spec fn below(self, other: Graph) -> bool {
        &&& self.values == other.values
        &&& self.uses == other.uses
        &&& self.slots.len() == other.slots.len()
        &&& forall|s: int, x: int|
            0 <= s < self.slots.len() && #[trigger] self.slots[s].lower.contains(x)
                ==> other.slots[s].lower.contains(x)
        &&& forall|s: int, x: int|
            0 <= s < self.slots.len() && #[trigger] self.slots[s].upper.contains(x)
                ==> other.slots[s].upper.contains(x)
    }
}


/// The parts of a function meeting a call are obligations of the graph and lie lower than the whole.
pub proof fn lemma_parts_lower(g: Graph, e: Edge, k: int)
    requires
        g.wf(),
        g.has_edge(e),
        g.values[e.v] is Func,
        g.uses[e.u] is FuncUse,
        g.values[e.v]->params.len() == g.uses[e.u]->args.len(),
        0 <= k <= g.values[e.v]->params.len(),
    ensures
        ({
            let part = func_edges(
                g.values[e.v]->params,
                g.values[e.v]->Func_result,
                g.uses[e.u]->args,
                g.uses[e.u]->FuncUse_result,
            )[k];
            &&& g.has_edge(part)
            &&& height(g.values, g.uses, part) < height(g.values, g.uses, e)
        }),
{
    let r = ranking(g.values, g.uses);
    assert(ranked(g.values, g.uses, r.0, r.1));
}

/// What is settled stays settled when bounds are added and more is taken for granted.
pub proof fn lemma_settled_grows(g: Graph, p: Seq<Edge>, h: Graph, q: Seq<Edge>, e: Edge)
    requires
        g.wf(),
        g.has_edge(e),
        g.below(h),
        forall|x: Edge| p.contains(x) ==> q.contains(x),
        g.settled(p, e),
    ensures
        h.settled(q, e),
    decreases height(g.values, g.uses, e),
{
    if !p.contains(e) {
        match (g.values[e.v], g.uses[e.u]) {
            (ValueNode::Func { params, result }, UseNode::FuncUse { args, result: expects }) => {
                let parts = func_edges(params, result, args, expects);
                assert forall|k: int| 0 <= k <= params.len() implies h.settled(
                    q,
                    #[trigger] parts[k],
                ) by {
                    lemma_parts_lower(g, e, k);
                    lemma_settled_grows(g, p, h, q, parts[k]);
                }
            },
            _ => {},
        }
    }
}

/// A step adds bounds, and at most the two sides of its obligation.
pub proof fn lemma_discharge_below(g: Graph, e: Edge)
    requires
        g.wf(),
        g.has_edge(e),
    ensures
        g.below(g.discharge(e).graph),
        forall|s: int|
            #![trigger g.discharge(e).graph.slots[s]]
            0 <= s < g.slots.len() ==> {
                let before = g.slots[s];
                let after = g.discharge(e).graph.slots[s];
                &&& after.lower == before.lower || (after.lower == before.lower.push(e.v)
                    && g.uses[e.u] == UseNode::Var { slot: s } && !before.lower.contains(e.v))
                &&& after.upper == before.upper || (after.upper == before.upper.push(e.u)
                    && g.values[e.v] == ValueNode::Var { slot: s } && !before.upper.contains(e.u))
            },
{
    let d = g.discharge(e);
    assert forall|s: int, x: int|
        0 <= s < g.slots.len() && #[trigger] g.slots[s].lower.contains(x) implies d.graph.slots[s].lower.contains(
        x,
    ) by {
        let i = choose|i: int| 0 <= i < g.slots[s].lower.len() && g.slots[s].lower[i] == x;
        assert(d.graph.slots[s].lower[i] == x);
    }
    assert forall|s: int, x: int|
        0 <= s < g.slots.len() && #[trigger] g.slots[s].upper.contains(x) implies d.graph.slots[s].upper.contains(
        x,
    ) by {
        let i = choose|i: int| 0 <= i < g.slots[s].upper.len() && g.slots[s].upper[i] == x;
        assert(d.graph.slots[s].upper[i] == x);
    }
}


/// What is left to do after a step: the rest, and on top of it what the step spawned.
pub open spec fn after_step(g: Graph, todo: Seq<Edge>) -> Seq<Edge> {
    todo.drop_last() + g.discharge(todo.last()).spawned.reverse()
}

/// All that a step spawns is left to do after it.
pub proof fn lemma_spawned_pending(g: Graph, todo: Seq<Edge>, k: int)
    requires
        todo.len() > 0,
        0 <= k < g.discharge(todo.last()).spawned.len(),
    ensures
        after_step(g, todo).contains(g.discharge(todo.last()).spawned[k]),
{
    let spawned = g.discharge(todo.last()).spawned;
    let next = after_step(g, todo);
    assert(next[todo.len() - 1 + (spawned.len() - 1 - k)] == spawned[k]);
}

/// After a step without conflict its obligation is settled, given what is left to do.
pub proof fn lemma_discharged_settled(g: Graph, todo: Seq<Edge>)
    requires
        g.wf(),
        g.has_edges(todo),
        todo.len() > 0,
        g.discharge(todo.last()).conflict is None,
    ensures
        g.discharge(todo.last()).graph.settled(after_step(g, todo), todo.last()),
{
    let e = todo.last();
    let d = g.discharge(e);
    let next = after_step(g, todo);
    assert(g.has_edge(todo[todo.len() - 1]));
    match (g.values[e.v], g.uses[e.u]) {
        (ValueNode::Var { slot: s }, UseNode::Var { slot: t }) => {
            let g1 = g.record_upper(s, e.u);
            assert(g.slots[s].upper.push(e.u).last() == e.u);
            assert(g1.slots[t].lower.push(e.v).last() == e.v);
            assert(d.graph.slots[s].upper == g1.slots[s].upper);
        },
        (ValueNode::Var { slot: s }, _) => {
            assert(g.slots[s].upper.push(e.u).last() == e.u);
        },
        (_, UseNode::Var { slot: t }) => {
            assert(g.slots[t].lower.push(e.v).last() == e.v);
        },
        (ValueNode::Func { params, result }, UseNode::FuncUse { args, result: expects }) => {
            let parts = func_edges(params, result, args, expects);
            assert forall|k: int| 0 <= k <= params.len() implies d.graph.settled(
                next,
                #[trigger] parts[k],
            ) by {
                lemma_spawned_pending(g, todo, k);
                lemma_parts_lower(g, e, k);
            }
        },
        _ => {},
    }
}

/// What was settled before a step without conflict is settled after it.
pub proof fn lemma_step_settled(g: Graph, todo: Seq<Edge>, e: Edge)
    requires
        g.wf(),
        g.has_edges(todo),
        todo.len() > 0,
        g.discharge(todo.last()).conflict is None,
        g.has_edge(e),
        g.settled(todo, e),
    ensures
        g.discharge(todo.last()).graph.settled(after_step(g, todo), e),
    decreases height(g.values, g.uses, e),
{
    let d = g.discharge(todo.last());
    let next = after_step(g, todo);
    lemma_discharge_below(g, todo.last());
    if todo.contains(e) {
        let i = choose|i: int| 0 <= i < todo.len() && todo[i] == e;
        if i == todo.len() - 1 {
            lemma_discharged_settled(g, todo);
        } else {
            assert(next[i] == e);
        }
    } else {
        match (g.values[e.v], g.uses[e.u]) {
            (ValueNode::Func { params, result }, UseNode::FuncUse { args, result: expects }) => {
                let parts = func_edges(params, result, args, expects);
                assert forall|k: int| 0 <= k <= params.len() implies d.graph.settled(
                    next,
                    #[trigger] parts[k],
                ) by {
                    lemma_parts_lower(g, e, k);
                    lemma_step_settled(g, todo, parts[k]);
                }
            },
            _ => {},
        }
    }
}

/// A step without conflict keeps the graph closed, given what is left to do.
pub proof fn lemma_step_closed(g: Graph, todo: Seq<Edge>)
    requires
        g.wf(),
        g.has_edges(todo),
        todo.len() > 0,
        g.discharge(todo.last()).conflict is None,
        g.closed_upto(todo),
    ensures
        g.discharge(todo.last()).graph.closed_upto(after_step(g, todo)),
{
    let e = todo.last();
    let d = g.discharge(e);
    let h = d.graph;
    let next = after_step(g, todo);
    lemma_discharge_below(g, e);
    assert forall|s: int, i: int, j: int|
        0 <= s < h.slots.len() && 0 <= i < h.slots[s].lower.len() && 0 <= j
            < h.slots[s].upper.len() implies h.settled(
        next,
        Edge { v: #[trigger] h.slots[s].lower[i], u: #[trigger] h.slots[s].upper[j] },
    ) by {
        let pair = Edge { v: h.slots[s].lower[i], u: h.slots[s].upper[j] };
        let before = g.slots[s];
        if i < before.lower.len() && j < before.upper.len() {
            lemma_step_settled(g, todo, pair);
        } else if i < before.lower.len() {
            // the upper bound is the new one
            lemma_spawned_pending(g, todo, i);
        } else if j < before.upper.len() {
            // the lower bound is the new one
            let k = d.spawned.len() - before.upper.len() + j;
            lemma_spawned_pending(g, todo, k);
        } else {
            lemma_discharged_settled(g, todo);
        }
    }
}


/// What lies below a graph lies below all that the graph lies below.
pub proof fn lemma_below_trans(g: Graph, h: Graph, k: Graph)
    requires
        g.below(h),
        h.below(k),
    ensures
        g.below(k),
{
}

/// A step without conflict, in one place: the graph stays well formed and
/// grows, what is left to do lies in it, and the measure of the flow went down.
pub proof fn lemma_step(g: Graph, todo: Seq<Edge>)
    requires
        g.wf(),
        g.has_edges(todo),
        todo.len() > 0,
        g.discharge(todo.last()).conflict is None,
    ensures
        ({
            let h = g.discharge(todo.last()).graph;
            let next = after_step(g, todo);
            &&& h.wf()
            &&& h.values == g.values
            &&& h.uses == g.uses
            &&& g.below(h)
            &&& h.has_edges(next)
            &&& g.run(todo) == h.run(next)
            &&& h.room() < g.room() || (h.room() == g.room() && load(h.values, h.uses, next)
                < load(g.values, g.uses, todo))
        }),
{
    let e = todo.last();
    let d = g.discharge(e);
    let next = after_step(g, todo);
    lemma_discharge_wf(g, e);
    lemma_discharge_decreases(g, todo);
    lemma_discharge_below(g, e);
    assert forall|i: int| 0 <= i < next.len() implies d.graph.has_edge(#[trigger] next[i]) by {
        if i < todo.len() - 1 {
            assert(g.has_edge(todo[i]));
        } else {
            assert(d.graph.has_edge(d.spawned[d.spawned.len() - 1 - (i - (todo.len() - 1))]));
        }
    }
}

/// A flow keeps the graph well formed and only adds bounds.
pub proof fn lemma_run_wf(g: Graph, todo: Seq<Edge>)
    requires
        g.wf(),
        g.has_edges(todo),
    ensures
        g.run(todo).graph.wf(),
        g.below(g.run(todo).graph),
    decreases g.room(), load(g.values, g.uses, todo),
{
    if todo.len() > 0 && g.discharge(todo.last()).conflict is None {
        lemma_step(g, todo);
        let h = g.discharge(todo.last()).graph;
        lemma_run_wf(h, after_step(g, todo));
        lemma_below_trans(g, h, g.run(todo).graph);
    }
}

/// What was settled, given what was to do, is satisfied when all is done.
pub proof fn lemma_run_settles(g: Graph, todo: Seq<Edge>, e: Edge)
    requires
        g.wf(),
        g.has_edges(todo),
        g.has_edge(e),
        g.settled(todo, e),
        g.run(todo).error is None,
    ensures
        g.run(todo).graph.satisfied(e),
    decreases g.room(), load(g.values, g.uses, todo),
{
    if todo.len() == 0 {
        assert(todo =~= Seq::<Edge>::empty());
    } else {
        lemma_step(g, todo);
        lemma_step_settled(g, todo, e);
        lemma_run_settles(g.discharge(todo.last()).graph, after_step(g, todo), e);
    }
}

/// A graph that was closed, given what was to do, is closed when all is done.
pub proof fn lemma_run_closed(g: Graph, todo: Seq<Edge>)
    requires
        g.wf(),
        g.has_edges(todo),
        g.closed_upto(todo),
        g.run(todo).error is None,
    ensures
        g.run(todo).graph.closed(),
    decreases g.room(), load(g.values, g.uses, todo),
{
    if todo.len() == 0 {
        assert(todo =~= Seq::<Edge>::empty());
    } else {
        lemma_step(g, todo);
        lemma_step_closed(g, todo);
        lemma_run_closed(g.discharge(todo.last()).graph, after_step(g, todo));
    }
}

/// Where some closed graph above satisfies all that is to do, the flow
/// meets no conflict and ends below that graph.
pub proof fn lemma_run_below(g: Graph, todo: Seq<Edge>, k: Graph)
    requires
        g.wf(),
        g.has_edges(todo),
        g.below(k),
        k.wf(),
        k.closed(),
        forall|i: int| 0 <= i < todo.len() ==> k.satisfied(#[trigger] todo[i]),
    ensures
        g.run(todo).error is None,
        g.run(todo).graph.below(k),
    decreases g.room(), load(g.values, g.uses, todo),
{
    if todo.len() > 0 {
        let e = todo.last();
        let d = g.discharge(e);
        let next = after_step(g, todo);
        lemma_step(g, todo);
        assert(d.graph.below(k)) by {
            lemma_discharge_below(g, e);
            assert forall|s: int, x: int|
                0 <= s < d.graph.slots.len() && #[trigger] d.graph.slots[s].lower.contains(
                    x,
                ) implies k.slots[s].lower.contains(x) by {
                if !g.slots[s].lower.contains(x) {
                    let i = choose|i: int|
                        0 <= i < d.graph.slots[s].lower.len() && d.graph.slots[s].lower[i] == x;
                    if i < g.slots[s].lower.len() {
                        assert(g.slots[s].lower[i] == x);
                    }
                }
            }
            assert forall|s: int, x: int|
                0 <= s < d.graph.slots.len() && #[trigger] d.graph.slots[s].upper.contains(
                    x,
                ) implies k.slots[s].upper.contains(x) by {
                if !g.slots[s].upper.contains(x) {
                    let i = choose|i: int|
                        0 <= i < d.graph.slots[s].upper.len() && d.graph.slots[s].upper[i] == x;
                    if i < g.slots[s].upper.len() {
                        assert(g.slots[s].upper[i] == x);
                    }
                }
            }
        }
        assert forall|i: int| 0 <= i < next.len() implies k.satisfied(#[trigger] next[i]) by {
            if i < todo.len() - 1 {
                assert(next[i] == todo[i]);
            } else {
                let j = d.spawned.len() - 1 - (i - (todo.len() - 1));
                lemma_spawned_satisfied(g, e, k, j);
            }
        }
        lemma_run_below(d.graph, next, k);
    }
}

/// In a closed graph above that satisfies an obligation, all that the
/// obligation spawns is satisfied too.
pub proof fn lemma_spawned_satisfied(g: Graph, e: Edge, k: Graph, j: int)
    requires
        g.wf(),
        g.has_edge(e),
        g.below(k),
        k.wf(),
        k.closed(),
        k.satisfied(e),
        0 <= j < g.discharge(e).spawned.len(),
    ensures
        k.satisfied(g.discharge(e).spawned[j]),
{
    let d = g.discharge(e);
    let part = d.spawned[j];
    match (g.values[e.v], g.uses[e.u]) {
        (ValueNode::Var { slot: s }, UseNode::Var { slot: t }) => {
            let up = g.upper_spawn(s, e.u);
            if j < up.len() {
                assert(g.slots[s].lower.contains(g.slots[s].lower[j]));
                lemma_bound_pair_satisfied(k, s, g.slots[s].lower[j], e.u);
            } else {
                assert(g.slots[t].upper.contains(g.slots[t].upper[j - up.len()]));
                lemma_bound_pair_satisfied(k, t, e.v, g.slots[t].upper[j - up.len()]);
            }
        },
        (ValueNode::Var { slot: s }, _) => {
            assert(g.slots[s].lower.contains(g.slots[s].lower[j]));
            lemma_bound_pair_satisfied(k, s, g.slots[s].lower[j], e.u);
        },
        (_, UseNode::Var { slot: t }) => {
            assert(g.slots[t].upper.contains(g.slots[t].upper[j]));
            lemma_bound_pair_satisfied(k, t, e.v, g.slots[t].upper[j]);
        },
        (ValueNode::Func { params, result }, UseNode::FuncUse { args, result: expects }) => {
            assert(part == func_edges(params, result, args, expects)[j]);
        },
        _ => {},
    }
}

/// In a closed graph a lower bound of a variable is acceptable to an upper bound of it.
pub proof fn lemma_bound_pair_satisfied(k: Graph, s: int, x: int, y: int)
    requires
        k.closed(),
        0 <= s < k.slots.len(),
        k.slots[s].lower.contains(x),
        k.slots[s].upper.contains(y),
    ensures
        k.satisfied(Edge { v: x, u: y }),
{
}

/// Where all that is to do is satisfied already, the flow changes nothing and succeeds.
pub proof fn lemma_run_noop(g: Graph, todo: Seq<Edge>)
    requires
        g.wf(),
        g.has_edges(todo),
        forall|i: int| 0 <= i < todo.len() ==> g.satisfied(#[trigger] todo[i]),
    ensures
        g.run(todo) == (Outcome { graph: g, error: None }),
    decreases load(g.values, g.uses, todo),
{
    if todo.len() > 0 {
        let e = todo.last();
        let d = g.discharge(e);
        let next = after_step(g, todo);
        lemma_step(g, todo);
        assert forall|i: int| 0 <= i < next.len() implies g.satisfied(#[trigger] next[i]) by {
            if i < todo.len() - 1 {
                assert(next[i] == todo[i]);
            } else {
                let j = d.spawned.len() - 1 - (i - (todo.len() - 1));
                match (g.values[e.v], g.uses[e.u]) {
                    (
                        ValueNode::Func { params, result },
                        UseNode::FuncUse { args, result: expects },
                    ) => {
                        assert(d.spawned[j] == func_edges(params, result, args, expects)[j]);
                    },
                    _ => {},
                }
            }
        }
        lemma_run_noop(g, next);
    }
}


impl Graph {
    /// `other` is this graph with nodes and variables appended: every node and
    /// every slot of this graph stands in `other` as it stands here.
    pub open spec fn kept_in(self, other: Graph) -> bool {
        &&& self.values.len() <= other.values.len()
        &&& self.uses.len() <= other.uses.len()
        &&& self.slots.len() <= other.slots.len()
        &&& forall|i: int| 0 <= i < self.values.len() ==> #[trigger] other.values[i] == self.values[i]
        &&& forall|j: int| 0 <= j < self.uses.len() ==> #[trigger] other.uses[j] == self.uses[j]
        &&& forall|s: int| 0 <= s < self.slots.len() ==> #[trigger] other.slots[s] == self.slots[s]
    }
}

/// What is settled stays settled when nodes and variables are appended.
pub proof fn lemma_settled_kept(g: Graph, h: Graph, p: Seq<Edge>, e: Edge)
    requires
        g.wf(),
        h.wf(),
        g.kept_in(h),
        g.has_edge(e),
        g.settled(p, e),
    ensures
        h.settled(p, e),
    decreases height(g.values, g.uses, e),
{
    if !p.contains(e) {
        match (g.values[e.v], g.uses[e.u]) {
            (ValueNode::Func { params, result }, UseNode::FuncUse { args, result: expects }) => {
                let parts = func_edges(params, result, args, expects);
                assert forall|k: int| 0 <= k <= params.len() implies h.settled(
                    p,
                    #[trigger] parts[k],
                ) by {
                    lemma_parts_lower(g, e, k);
                    lemma_settled_kept(g, h, p, parts[k]);
                }
            },
            _ => {},
        }
    }
}

/// A closed graph stays closed when nodes and variables without bounds are appended.
pub proof fn lemma_closed_kept(g: Graph, h: Graph)
    requires
        g.wf(),
        h.wf(),
        g.kept_in(h),
        g.closed(),
        forall|s: int|
            g.slots.len() <= s < h.slots.len() ==> (#[trigger] h.slots[s]).lower.len() == 0
                && h.slots[s].upper.len() == 0,
    ensures
        h.closed(),
{
    assert forall|s: int, i: int, j: int|
        0 <= s < h.slots.len() && 0 <= i < h.slots[s].lower.len() && 0 <= j
            < h.slots[s].upper.len() implies h.settled(
        Seq::empty(),
        Edge { v: #[trigger] h.slots[s].lower[i], u: #[trigger] h.slots[s].upper[j] },
    ) by {
        if s < g.slots.len() {
            let pair = Edge { v: g.slots[s].lower[i], u: g.slots[s].upper[j] };
            lemma_settled_kept(g, h, Seq::empty(), pair);
        }
    }
}

} // verus!
