//! Growing the graph: a node or a variable more keeps it well formed.

use vstd::prelude::*;
use crate::typechecker::graph::{ranked, ranking, Graph, UseNode, ValueNode};

verus! {

impl Graph {
    /// The value node `n` refers only to nodes and slots of this graph.
    pub open spec fn admits_value(self, n: ValueNode) -> bool {
        match n {
            ValueNode::Func { params, result } => {
                &&& self.has_value(result)
                &&& forall|k: int| 0 <= k < params.len() ==> self.has_use(#[trigger] params[k])
            },
            ValueNode::Var { slot } => 0 <= slot < self.slots.len(),
            _ => true,
        }
    }

    /// The use node `n` refers only to nodes and slots of this graph.
    pub open spec fn admits_use(self, n: UseNode) -> bool {
        match n {
            UseNode::FuncUse { args, result } => {
                &&& self.has_use(result)
                &&& forall|k: int| 0 <= k < args.len() ==> self.has_value(#[trigger] args[k])
            },
            UseNode::Var { slot } => 0 <= slot < self.slots.len(),
            _ => true,
        }
    }
}

/// A value node that refers only to what is there can be appended.
pub proof fn lemma_push_value_wf(g: Graph, n: ValueNode)
    requires
        g.wf(),
        g.admits_value(n),
    ensures
        g.push_value(n).wf(),
{
    let h = g.push_value(n);
    let r = ranking(g.values, g.uses);
    let rv = r.0.push(g.values.len() + g.uses.len());
    assert(ranked(h.values, h.uses, rv, r.1)) by {
        assert forall|i: int| 0 <= i < h.values.len() implies (
        #[trigger] h.values[i] matches ValueNode::Func { params, result } ==> {
            &&& 0 <= result < h.values.len()
            &&& rv[result] < rv[i]
            &&& forall|k: int|
                0 <= k < params.len() ==> 0 <= #[trigger] params[k] < h.uses.len()
                    && r.1[params[k]] < rv[i]
        }) by {
            if i < g.values.len() {
                assert(h.values[i] == g.values[i]);
            }
        }
        assert forall|j: int| 0 <= j < h.uses.len() implies (#[trigger] h.uses[j] matches UseNode::FuncUse {
            args,
            result,
        } ==> {
            &&& 0 <= result < h.uses.len()
            &&& r.1[result] < r.1[j]
            &&& forall|k: int|
                0 <= k < args.len() ==> 0 <= #[trigger] args[k] < h.values.len() && rv[args[k]]
                    < r.1[j]
        }) by {
            assert(h.uses[j] == g.uses[j]);
        }
    }
    assert(ranked(h.values, h.uses, (rv, r.1).0, (rv, r.1).1));
    assert forall|i: int| 0 <= i < h.values.len() implies (#[trigger] h.values[i] matches ValueNode::Var {
        slot,
    } ==> 0 <= slot < h.slots.len()) by {
        if i < g.values.len() {
            assert(h.values[i] == g.values[i]);
        }
    }
    assert forall|s: int| 0 <= s < h.slots.len() implies h.bounds_ok(#[trigger] h.slots[s]) by {
        assert(g.bounds_ok(g.slots[s]));
    }
}

/// A use node that refers only to what is there can be appended.
pub proof fn lemma_push_use_wf(g: Graph, n: UseNode)
    requires
        g.wf(),
        g.admits_use(n),
    ensures
        g.push_use(n).wf(),
{
    let h = g.push_use(n);
    let r = ranking(g.values, g.uses);
    let ru = r.1.push(g.values.len() + g.uses.len());
    assert(ranked(h.values, h.uses, r.0, ru)) by {
        assert forall|j: int| 0 <= j < h.uses.len() implies (#[trigger] h.uses[j] matches UseNode::FuncUse {
            args,
            result,
        } ==> {
            &&& 0 <= result < h.uses.len()
            &&& ru[result] < ru[j]
            &&& forall|k: int|
                0 <= k < args.len() ==> 0 <= #[trigger] args[k] < h.values.len() && r.0[args[k]]
                    < ru[j]
        }) by {
            if j < g.uses.len() {
                assert(h.uses[j] == g.uses[j]);
            }
        }
        assert forall|i: int| 0 <= i < h.values.len() implies (
        #[trigger] h.values[i] matches ValueNode::Func { params, result } ==> {
            &&& 0 <= result < h.values.len()
            &&& r.0[result] < r.0[i]
            &&& forall|k: int|
                0 <= k < params.len() ==> 0 <= #[trigger] params[k] < h.uses.len()
                    && ru[params[k]] < r.0[i]
        }) by {
            assert(h.values[i] == g.values[i]);
        }
    }
    assert(ranked(h.values, h.uses, (r.0, ru).0, (r.0, ru).1));
    assert forall|j: int| 0 <= j < h.uses.len() implies (#[trigger] h.uses[j] matches UseNode::Var {
        slot,
    } ==> 0 <= slot < h.slots.len()) by {
        if j < g.uses.len() {
            assert(h.uses[j] == g.uses[j]);
        }
    }
    assert forall|s: int| 0 <= s < h.slots.len() implies h.bounds_ok(#[trigger] h.slots[s]) by {
        assert(g.bounds_ok(g.slots[s]));
    }
}

/// A fresh variable can be appended.
pub proof fn lemma_push_var_wf(g: Graph)
    requires
        g.wf(),
    ensures
        g.push_var().wf(),
{
    let h = g.push_var();
    let slot = g.slots.len() as int;
    let g1 = Graph { slots: h.slots, ..g };
    assert(g1.wf()) by {
        assert forall|s: int| 0 <= s < g1.slots.len() implies g1.bounds_ok(
            #[trigger] g1.slots[s],
        ) by {
            if s < g.slots.len() {
                assert(g.bounds_ok(g.slots[s]));
            }
        }
        assert forall|i: int| 0 <= i < g1.values.len() implies (#[trigger] g1.values[i] matches ValueNode::Var {
            slot,
        } ==> 0 <= slot < g1.slots.len()) by {
            assert(g1.values[i] == g.values[i]);
        }
        assert forall|j: int| 0 <= j < g1.uses.len() implies (#[trigger] g1.uses[j] matches UseNode::Var {
            slot,
        } ==> 0 <= slot < g1.slots.len()) by {
            assert(g1.uses[j] == g.uses[j]);
        }
    }
    lemma_push_value_wf(g1, ValueNode::Var { slot });
    let g2 = g1.push_value(ValueNode::Var { slot });
    lemma_push_use_wf(g2, UseNode::Var { slot });
}

/// The graph without nodes is well formed.
pub proof fn lemma_empty_wf()
    ensures
        Graph::empty().wf(),
{
    let g = Graph::empty();
    let r = (Seq::<nat>::empty(), Seq::<nat>::empty());
    assert(ranked(g.values, g.uses, r.0, r.1));
}

} // verus!
