//! Conflicts are found late: a type variable without bounds on one side
//! takes any bound on the other. Only where a concrete value has flowed into
//! a variable and the variable flows into a concrete use do two types meet.

use vstd::prelude::*;
use crate::typechecker::closure::{after_step, lemma_step};
use crate::typechecker::graph::{load, Edge, Graph, ValueNode};

verus! {

impl Graph {
    /// The use `m` is the consumer half of a variable that flows into
    /// nothing, but into itself at most.
    pub open spec fn open_use(self, m: int) -> bool {
        &&& self.has_use(m)
        &&& self.uses[m] is Var
        &&& forall|j: int|
            0 <= j < self.slots[self.uses[m]->slot].upper.len() ==> #[trigger] self.slots[self.uses[m]->slot].upper[j]
                == m
    }

    /// The value `p` is the producer half of a variable into which nothing
    /// has flowed, but itself at most.
    pub open spec fn open_value(self, p: int) -> bool {
        &&& self.has_value(p)
        &&& self.values[p] is Var
        &&& forall|i: int|
            0 <= i < self.slots[self.values[p]->slot].lower.len() ==> #[trigger] self.slots[self.values[p]->slot].lower[i]
                == p
    }
}

/// Obligations towards a variable that flows into nothing are all met.
pub proof fn lemma_run_into_open(g: Graph, todo: Seq<Edge>, m: int)
    requires
        g.wf(),
        g.has_edges(todo),
        g.open_use(m),
        forall|i: int| 0 <= i < todo.len() ==> (#[trigger] todo[i]).u == m,
    ensures
        g.run(todo).error is None,
        g.run(todo).graph.open_use(m),
    decreases g.room(), load(g.values, g.uses, todo),
{
    if todo.len() > 0 {
        let e = todo.last();
        let d = g.discharge(e);
        let next = after_step(g, todo);
        let t = g.uses[m]->slot;
        lemma_step(g, todo);
        assert(d.graph.open_use(m)) by {
            assert forall|j: int| 0 <= j < d.graph.slots[t].upper.len() implies #[trigger] d.graph.slots[t].upper[j]
                == m by {
                if j < g.slots[t].upper.len() {
                    assert(g.slots[t].upper[j] == m);
                }
            }
        }
        assert forall|i: int| 0 <= i < next.len() implies (#[trigger] next[i]).u == m by {
            if i < todo.len() - 1 {
                assert(next[i] == todo[i]);
            } else {
                let k = d.spawned.len() - 1 - (i - (todo.len() - 1));
                match g.values[e.v] {
                    ValueNode::Var { slot: s } => {
                        let up = g.upper_spawn(s, m);
                        if k >= up.len() {
                            assert(d.spawned[k].u == g.slots[t].upper[k - up.len()]);
                        }
                    },
                    _ => {
                        assert(d.spawned[k].u == g.slots[t].upper[k]);
                    },
                }
            }
        }
        lemma_run_into_open(d.graph, next, m);
    }
}

/// Obligations of a variable into which nothing has flowed are all met.
pub proof fn lemma_run_from_open(g: Graph, todo: Seq<Edge>, p: int)
    requires
        g.wf(),
        g.has_edges(todo),
        g.open_value(p),
        forall|i: int| 0 <= i < todo.len() ==> (#[trigger] todo[i]).v == p,
    ensures
        g.run(todo).error is None,
        g.run(todo).graph.open_value(p),
    decreases g.room(), load(g.values, g.uses, todo),
{
    if todo.len() > 0 {
        let e = todo.last();
        let d = g.discharge(e);
        let next = after_step(g, todo);
        let s = g.values[p]->slot;
        lemma_step(g, todo);
        assert(d.graph.open_value(p)) by {
            assert forall|i: int| 0 <= i < d.graph.slots[s].lower.len() implies #[trigger] d.graph.slots[s].lower[i]
                == p by {
                if i < g.slots[s].lower.len() {
                    assert(g.slots[s].lower[i] == p);
                }
            }
        }
        assert forall|i: int| 0 <= i < next.len() implies (#[trigger] next[i]).v == p by {
            if i < todo.len() - 1 {
                assert(next[i] == todo[i]);
            } else {
                let k = d.spawned.len() - 1 - (i - (todo.len() - 1));
                let up = g.upper_spawn(s, e.u);
                if k < up.len() {
                    assert(d.spawned[k].v == g.slots[s].lower[k]);
                }
            }
        }
        lemma_run_from_open(d.graph, next, p);
    }
}

/// Whatever flows into a variable that flows into nothing is accepted.
pub proof fn law_open_variable_accepts(g: Graph, v: int, m: int)
    requires
        g.wf(),
        g.has_value(v),
        g.open_use(m),
    ensures
        g.flow(v, m).error is None,
        g.flow(v, m).graph.open_use(m),
{
    let todo = seq![Edge { v, u: m }];
    lemma_run_into_open(g, todo, m);
}

/// A variable into which nothing has flowed is accepted wherever it flows.
pub proof fn law_open_variable_is_accepted(g: Graph, p: int, u: int)
    requires
        g.wf(),
        g.open_value(p),
        g.has_use(u),
    ensures
        g.flow(p, u).error is None,
        g.flow(p, u).graph.open_value(p),
{
    let todo = seq![Edge { v: p, u }];
    lemma_run_from_open(g, todo, p);
}

} // verus!
