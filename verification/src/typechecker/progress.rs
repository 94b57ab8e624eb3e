//! Why a flow ends: every step that meets no conflict uses up room in the
//! slots, or leaves the room as it is and lessens the load of what is still to do.

use vstd::prelude::*;
use vstd::seq_lib::lemma_seq_contains_after_push;
use crate::typechecker::graph::{
    absent, func_edges, load, parts_weight, room_of, weight, well_founded, Bounds, Edge, Graph,
    UseNode, ValueNode,
};

verus! {

/// A new element that lies at or above `n` does not change what is absent below `n`.
pub proof fn lemma_absent_beyond(s: Seq<int>, x: int, n: nat)
    requires
        x >= n,
    ensures
        absent(s.push(x), n) == absent(s, n),
    decreases n,
{
    if n > 0 {
        lemma_absent_beyond(s, x, (n - 1) as nat);
        lemma_seq_contains_after_push(s, x, n - 1);
    }
}

/// A new element below `n` is no longer absent.
pub proof fn lemma_absent_push(s: Seq<int>, x: int, n: nat)
    requires
        0 <= x < n,
        !s.contains(x),
    ensures
        absent(s.push(x), n) + 1 == absent(s, n),
    decreases n,
{
    lemma_seq_contains_after_push(s, x, n - 1);
    if x == n - 1 {
        lemma_absent_beyond(s, x, (n - 1) as nat);
    } else {
        lemma_absent_push(s, x, (n - 1) as nat);
    }
}

/// The room of the slots when one of them is replaced.
pub proof fn lemma_room_update(slots: Seq<Bounds>, s: int, b: Bounds, nv: nat, nu: nat)
    requires
        0 <= s < slots.len(),
    ensures
        room_of(slots.update(s, b), nv, nu) + absent(slots[s].lower, nv) + absent(
            slots[s].upper,
            nu,
        ) == room_of(slots, nv, nu) + absent(b.lower, nv) + absent(b.upper, nu),
    decreases slots.len(),
{
    let after = slots.update(s, b);
    if s == slots.len() - 1 {
        assert(after.drop_last() =~= slots.drop_last());
    } else {
        lemma_room_update(slots.drop_last(), s, b, nv, nu);
        assert(after.drop_last() =~= slots.drop_last().update(s, b));
    }
}

/// The load of two lists, one after the other.
pub proof fn lemma_load_concat(
    values: Seq<ValueNode>,
    uses: Seq<UseNode>,
    a: Seq<Edge>,
    b: Seq<Edge>,
)
    ensures
        load(values, uses, a + b) == load(values, uses, a) + load(values, uses, b),
    decreases b.len(),
{
    if b.len() == 0 {
        assert(a + b =~= a);
    } else {
        lemma_load_concat(values, uses, a, b.drop_last());
        assert((a + b).drop_last() =~= a + b.drop_last());
    }
}

/// The load does not depend on the order.
pub proof fn lemma_load_reverse(values: Seq<ValueNode>, uses: Seq<UseNode>, a: Seq<Edge>)
    ensures
        load(values, uses, a.reverse()) == load(values, uses, a),
    decreases a.len(),
{
    if a.len() > 0 {
        let head = seq![a.last()];
        lemma_load_reverse(values, uses, a.drop_last());
        lemma_load_concat(values, uses, head, a.drop_last().reverse());
        assert(a.reverse() =~= head + a.drop_last().reverse());
        assert(load(values, uses, head.drop_last()) == 0);
    } else {
        assert(a.reverse() =~= a);
    }
}

/// The weight of the first `k` parts is the load of the list of them.
pub proof fn lemma_parts_weight(values: Seq<ValueNode>, uses: Seq<UseNode>, e: Edge, k: nat)
    requires
        well_founded(values, uses),
        0 <= e.v < values.len(),
        0 <= e.u < uses.len(),
        values[e.v] is Func,
        uses[e.u] is FuncUse,
        values[e.v]->params.len() == uses[e.u]->args.len(),
        k <= values[e.v]->params.len() + 1,
    ensures
        parts_weight(values, uses, e, k) == load(
            values,
            uses,
            func_edges(
                values[e.v]->params,
                values[e.v]->Func_result,
                uses[e.u]->args,
                uses[e.u]->FuncUse_result,
            ).take(k as int),
        ),
    decreases k,
{
    let parts = func_edges(
        values[e.v]->params,
        values[e.v]->Func_result,
        uses[e.u]->args,
        uses[e.u]->FuncUse_result,
    );
    if k > 0 {
        lemma_parts_weight(values, uses, e, (k - 1) as nat);
        assert(parts.take(k as int).drop_last() =~= parts.take(k - 1));
    }
}

/// A step keeps the graph well formed and its nodes as they are, and
/// spawns obligations between nodes of the graph only.
pub proof fn lemma_discharge_wf(g: Graph, e: Edge)
    requires
        g.wf(),
        g.has_edge(e),
    ensures
        ({
            let d = g.discharge(e);
            &&& d.graph.wf()
            &&& d.graph.values == g.values
            &&& d.graph.uses == g.uses
            &&& d.graph.slots.len() == g.slots.len()
            &&& d.graph.has_edges(d.spawned)
        }),
{
    match (g.values[e.v], g.uses[e.u]) {
        (ValueNode::Var { slot: s }, UseNode::Var { slot: t }) => {
            let g1 = g.record_upper(s, e.u);
            lemma_record_upper_wf(g, s, e.u);
            lemma_record_lower_wf(g1, t, e.v);
        },
        (ValueNode::Var { slot: s }, _) => {
            lemma_record_upper_wf(g, s, e.u);
        },
        (_, UseNode::Var { slot: t }) => {
            lemma_record_lower_wf(g, t, e.v);
        },
        _ => {},
    }
}

/// Recording an upper bound keeps the graph well formed.
pub proof fn lemma_record_upper_wf(g: Graph, s: int, u: int)
    requires
        g.wf(),
        0 <= s < g.slots.len(),
        g.has_use(u),
    ensures
        g.record_upper(s, u).wf(),
        g.record_upper(s, u).values == g.values,
        g.record_upper(s, u).uses == g.uses,
        g.record_upper(s, u).slots.len() == g.slots.len(),
{
    let h = g.record_upper(s, u);
    assert forall|k: int| 0 <= k < h.slots.len() implies h.bounds_ok(#[trigger] h.slots[k]) by {
        assert(g.bounds_ok(g.slots[k]));
    }
}

/// Recording a lower bound keeps the graph well formed.
pub proof fn lemma_record_lower_wf(g: Graph, s: int, v: int)
    requires
        g.wf(),
        0 <= s < g.slots.len(),
        g.has_value(v),
    ensures
        g.record_lower(s, v).wf(),
        g.record_lower(s, v).values == g.values,
        g.record_lower(s, v).uses == g.uses,
        g.record_lower(s, v).slots.len() == g.slots.len(),
{
    let h = g.record_lower(s, v);
    assert forall|k: int| 0 <= k < h.slots.len() implies h.bounds_ok(#[trigger] h.slots[k]) by {
        assert(g.bounds_ok(g.slots[k]));
    }
}

/// Recording an upper bound leaves no more room, and less where the bound is new.
pub proof fn lemma_record_upper_room(g: Graph, s: int, u: int)
    requires
        g.wf(),
        0 <= s < g.slots.len(),
        g.has_use(u),
    ensures
        g.slots[s].upper.contains(u) ==> g.record_upper(s, u) == g,
        !g.slots[s].upper.contains(u) ==> g.record_upper(s, u).room() + 1 == g.room(),
{
    if !g.slots[s].upper.contains(u) {
        let b = Bounds { lower: g.slots[s].lower, upper: g.slots[s].upper.push(u) };
        lemma_room_update(g.slots, s, b, g.values.len(), g.uses.len());
        lemma_absent_push(g.slots[s].upper, u, g.uses.len());
    }
}

/// Recording a lower bound leaves no more room, and less where the bound is new.
pub proof fn lemma_record_lower_room(g: Graph, s: int, v: int)
    requires
        g.wf(),
        0 <= s < g.slots.len(),
        g.has_value(v),
    ensures
        g.slots[s].lower.contains(v) ==> g.record_lower(s, v) == g,
        !g.slots[s].lower.contains(v) ==> g.record_lower(s, v).room() + 1 == g.room(),
{
    if !g.slots[s].lower.contains(v) {
        let b = Bounds { lower: g.slots[s].lower.push(v), upper: g.slots[s].upper };
        lemma_room_update(g.slots, s, b, g.values.len(), g.uses.len());
        lemma_absent_push(g.slots[s].lower, v, g.values.len());
    }
}

/// A step that meets no conflict leaves less room, or the same room and less load.
pub proof fn lemma_discharge_decreases(g: Graph, todo: Seq<Edge>)
    requires
        g.wf(),
        g.has_edges(todo),
        todo.len() > 0,
        g.discharge(todo.last()).conflict is None,
    ensures
        ({
            let d = g.discharge(todo.last());
            let next = todo.drop_last() + d.spawned.reverse();
            &&& d.graph.values == g.values
            &&& d.graph.uses == g.uses
            &&& d.graph.room() <= g.room()
            &&& d.graph.room() == g.room() ==> load(g.values, g.uses, next) < load(
                g.values,
                g.uses,
                todo,
            )
        }),
{
    let e = todo.last();
    let d = g.discharge(e);
    let rest = todo.drop_last();
    lemma_discharge_wf(g, e);
    lemma_load_concat(g.values, g.uses, rest, d.spawned.reverse());
    lemma_load_reverse(g.values, g.uses, d.spawned);
    match (g.values[e.v], g.uses[e.u]) {
        (ValueNode::Var { slot: s }, UseNode::Var { slot: t }) => {
            let g1 = g.record_upper(s, e.u);
            lemma_record_upper_wf(g, s, e.u);
            lemma_record_upper_room(g, s, e.u);
            lemma_record_lower_room(g1, t, e.v);
            if g.slots[s].upper.contains(e.u) && g.slots[t].lower.contains(e.v) {
                assert(d.spawned =~= Seq::<Edge>::empty());
            }
        },
        (ValueNode::Var { slot: s }, _) => {
            lemma_record_upper_room(g, s, e.u);
        },
        (_, UseNode::Var { slot: t }) => {
            lemma_record_lower_room(g, t, e.v);
        },
        (ValueNode::Func { params, result }, UseNode::FuncUse { args, result: expects }) => {
            lemma_parts_weight(g.values, g.uses, e, params.len() + 1);
            let parts = func_edges(params, result, args, expects);
            assert(parts.take(params.len() as int + 1) =~= parts);
        },
        _ => {},
    }
}

} // verus!
