//! The constraint graph engine: two arenas of typing nodes, the bounds of the
//! type variables, and `flow`, the one way to assert a constraint.

use vstd::prelude::*;
use crate::error::{TypeError, TypeKind};
use crate::typechecker::arena::lemma_empty_wf;
use crate::typechecker::graph::{func_edges, load, Bounds, Edge, Graph, Outcome, UseNode, ValueNode};
use crate::typechecker::laws::{
    law_flow_closes, law_flow_of_satisfied, law_flow_only_adds_bounds, law_flow_satisfies,
    law_flow_twice,
};
use crate::typechecker::progress::{lemma_discharge_decreases, lemma_discharge_wf};
use crate::typechecker::soundness::{lemma_use_kept, lemma_value_kept, lemma_var_kept};

verus! {

/// A handle to a producer node: what an expression's type is.
#[derive(Copy, Clone, Debug)]
pub struct Value(usize);

/// A handle to a consumer node: what a context requires.
#[derive(Copy, Clone, Debug)]
pub struct Use(usize);

impl View for Value {
    type V = int;

    /// The node's index in the arena of values.
    closed spec fn view(&self) -> int {
        self.0 as int
    }
}

impl View for Use {
    type V = int;

    /// The node's index in the arena of uses.
    closed spec fn view(&self) -> int {
        self.0 as int
    }
}

/// The indices of a list of value handles.
pub open spec fn value_ids(s: Seq<Value>) -> Seq<int> {
    Seq::new(s.len(), |i: int| s[i]@)
}

/// The indices of a list of use handles.
pub open spec fn use_ids(s: Seq<Use>) -> Seq<int> {
    Seq::new(s.len(), |i: int| s[i]@)
}

enum ValueData {
    Bool,
    Integer,
    Unit,
    Func { params: Vec<Use>, result: Value },
    Var { slot: usize },
}

enum UseData {
    BoolUse,
    IntegerUse,
    UnitUse,
    FuncUse { args: Vec<Value>, result: Use },
    Var { slot: usize },
}

struct SlotData {
    lower: Vec<Value>,
    upper: Vec<Use>,
}

impl ValueData {
    spec fn model(self) -> ValueNode {
        match self {
            ValueData::Bool => ValueNode::Bool,
            ValueData::Integer => ValueNode::Integer,
            ValueData::Unit => ValueNode::Unit,
            ValueData::Func { params, result } => ValueNode::Func {
                params: use_ids(params@),
                result: result@,
            },
            ValueData::Var { slot } => ValueNode::Var { slot: slot as int },
        }
    }
}

impl UseData {
    spec fn model(self) -> UseNode {
        match self {
            UseData::BoolUse => UseNode::BoolUse,
            UseData::IntegerUse => UseNode::IntegerUse,
            UseData::UnitUse => UseNode::UnitUse,
            UseData::FuncUse { args, result } => UseNode::FuncUse {
                args: value_ids(args@),
                result: result@,
            },
            UseData::Var { slot } => UseNode::Var { slot: slot as int },
        }
    }
}

impl ValueData {
    fn kind(&self) -> (k: TypeKind)
        requires
            !(self is Var),
        ensures
            k == self.model().kind(),
    {
        match self {
            ValueData::Bool => TypeKind::Bool,
            ValueData::Integer => TypeKind::Integer,
            ValueData::Unit => TypeKind::Unit,
            _ => TypeKind::Function,
        }
    }
}

impl UseData {
    fn kind(&self) -> (k: TypeKind)
        requires
            !(self is Var),
        ensures
            k == self.model().kind(),
    {
        match self {
            UseData::BoolUse => TypeKind::Bool,
            UseData::IntegerUse => TypeKind::Integer,
            UseData::UnitUse => TypeKind::Unit,
            _ => TypeKind::Function,
        }
    }
}

impl SlotData {
    spec fn model(self) -> Bounds {
        Bounds { lower: value_ids(self.lower@), upper: use_ids(self.upper@) }
    }
}

/// The obligations that a list of handle pairs stands for.
spec fn edges_of(s: Seq<(Value, Use)>) -> Seq<Edge> {
    Seq::new(s.len(), |i: int| Edge { v: s[i].0@, u: s[i].1@ })
}

/// The constraint graph of one module check.
pub struct TypeCheckerCore {
    values: Vec<ValueData>,
    uses: Vec<UseData>,
    slots: Vec<SlotData>,
}

impl View for TypeCheckerCore {
    type V = Graph;

    closed spec fn view(&self) -> Graph {
        Graph {
            values: Seq::new(self.values@.len(), |i: int| self.values@[i].model()),
            uses: Seq::new(self.uses@.len(), |i: int| self.uses@[i].model()),
            slots: Seq::new(self.slots@.len(), |i: int| self.slots@[i].model()),
        }
    }
}

impl Outcome {
    /// The outcome as the caller of a flow sees it.
    pub open spec fn result(self) -> Result<(), TypeError> {
        match self.error {
            None => Ok(()),
            Some(e) => Err(e),
        }
    }
}

/// The graph without the bound that the step `step` recorded: the newest
/// upper bound of a slot, where the step's mark is set, else the newest lower bound.
spec fn unrecorded(g: Graph, step: (bool, usize)) -> Graph {
    let s = step.1 as int;
    if step.0 {
        Graph {
            slots: g.slots.update(
                s,
                Bounds { lower: g.slots[s].lower, upper: g.slots[s].upper.drop_last() },
            ),
            ..g
        }
    } else {
        Graph {
            slots: g.slots.update(
                s,
                Bounds { lower: g.slots[s].lower.drop_last(), upper: g.slots[s].upper },
            ),
            ..g
        }
    }
}

/// The steps of `trail` can be taken back from `g`, the last one first:
/// each names a slot that still holds a bound on the side that it names.
spec fn can_undo(g: Graph, trail: Seq<(bool, usize)>) -> bool
    decreases trail.len(),
{
    trail.len() == 0 || {
        let step = trail.last();
        &&& step.1 < g.slots.len()
        &&& if step.0 {
            g.slots[step.1 as int].upper.len() > 0
        } else {
            g.slots[step.1 as int].lower.len() > 0
        }
        &&& can_undo(unrecorded(g, step), trail.drop_last())
    }
}

/// The graph with the steps of `trail` taken back, the last one first.
spec fn undone(g: Graph, trail: Seq<(bool, usize)>) -> Graph
    decreases trail.len(),
{
    if trail.len() == 0 {
        g
    } else {
        undone(unrecorded(g, trail.last()), trail.drop_last())
    }
}

/// A step more on the trail is a step more to take back.
proof fn lemma_trail_push(before: Graph, after: Graph, trail: Seq<(bool, usize)>, step: (bool, usize))
    requires
        unrecorded(after, step) == before,
        step.1 < after.slots.len(),
        if step.0 {
            after.slots[step.1 as int].upper.len() > 0
        } else {
            after.slots[step.1 as int].lower.len() > 0
        },
    ensures
        can_undo(before, trail) ==> can_undo(after, trail.push(step)),
        undone(after, trail.push(step)) == undone(before, trail),
{
    assert(trail.push(step).drop_last() =~= trail);
    assert(trail.push(step).last() == step);
}

fn has_value(list: &Vec<Value>, v: Value) -> (b: bool)
    ensures
        b == value_ids(list@).contains(v@),
{
    let mut i: usize = 0;
    while i < list.len()
        invariant
            i <= list.len(),
            forall|k: int| 0 <= k < i ==> value_ids(list@)[k] != v@,
        decreases list.len() - i,
    {
        if list[i].0 == v.0 {
            assert(value_ids(list@)[i as int] == v@);
            return true;
        }
        i += 1;
    }
    false
}

fn has_use(list: &Vec<Use>, u: Use) -> (b: bool)
    ensures
        b == use_ids(list@).contains(u@),
{
    let mut i: usize = 0;
    while i < list.len()
        invariant
            i <= list.len(),
            forall|k: int| 0 <= k < i ==> use_ids(list@)[k] != u@,
        decreases list.len() - i,
    {
        if list[i].0 == u.0 {
            assert(use_ids(list@)[i as int] == u@);
            return true;
        }
        i += 1;
    }
    false
}

impl TypeCheckerCore {
    /// An engine without nodes.
    pub fn new() -> (engine: TypeCheckerCore)
        ensures
            engine@ == Graph::empty(),
            engine@.wf(),
            engine@.closed(),
    {
        let engine = TypeCheckerCore { values: Vec::new(), uses: Vec::new(), slots: Vec::new() };
        proof {
            lemma_empty_wf();
            assert(engine@.values =~= Graph::empty().values);
            assert(engine@.uses =~= Graph::empty().uses);
            assert(engine@.slots =~= Graph::empty().slots);
        }
        engine
    }

    fn push_value(&mut self, data: ValueData) -> (v: Value)
        ensures
            final(self)@ == old(self)@.push_value(data.model()),
            v@ == old(self)@.values.len(),
    {
        let v = Value(self.values.len());
        self.values.push(data);
        proof {
            assert(self@.values =~= old(self)@.values.push(data.model()));
        }
        v
    }

    fn push_use(&mut self, data: UseData) -> (u: Use)
        ensures
            final(self)@ == old(self)@.push_use(data.model()),
            u@ == old(self)@.uses.len(),
    {
        let u = Use(self.uses.len());
        self.uses.push(data);
        proof {
            assert(self@.uses =~= old(self)@.uses.push(data.model()));
        }
        u
    }

    /// A fresh type variable without bounds: its producer half and its consumer half.
    pub fn var(&mut self) -> (pair: (Value, Use))
        ensures
            final(self)@ == old(self)@.push_var(),
            pair.0@ == old(self)@.values.len(),
            pair.1@ == old(self)@.uses.len(),
            old(self)@.wf() ==> final(self)@.wf(),
            old(self)@.wf() && old(self)@.closed() ==> final(self)@.closed(),
    {
        let slot = self.slots.len();
        self.slots.push(SlotData { lower: Vec::new(), upper: Vec::new() });
        let v = Value(self.values.len());
        self.values.push(ValueData::Var { slot });
        let u = Use(self.uses.len());
        self.uses.push(UseData::Var { slot });
        proof {
            let g = old(self)@;
            assert(self@.values =~= g.push_var().values);
            assert(self@.uses =~= g.push_var().uses);
            assert(self@.slots =~= g.push_var().slots) by {
                assert(value_ids(Seq::<Value>::empty()) =~= Seq::<int>::empty());
                assert(use_ids(Seq::<Use>::empty()) =~= Seq::<int>::empty());
            }
            if g.wf() {
                lemma_var_kept(g);
            }
        }
        (v, u)
    }

    /// A value of type `Bool`.
    pub fn bool(&mut self) -> (v: Value)
        ensures
            final(self)@ == old(self)@.push_value(ValueNode::Bool),
            v@ == old(self)@.values.len(),
            old(self)@.wf() ==> final(self)@.wf(),
            old(self)@.wf() && old(self)@.closed() ==> final(self)@.closed(),
    {
        proof {
            if old(self)@.wf() {
                lemma_value_kept(old(self)@, ValueNode::Bool);
            }
        }
        self.push_value(ValueData::Bool)
    }

    /// A use that requires `Bool`.
    pub fn bool_use(&mut self) -> (u: Use)
        ensures
            final(self)@ == old(self)@.push_use(UseNode::BoolUse),
            u@ == old(self)@.uses.len(),
            old(self)@.wf() ==> final(self)@.wf(),
            old(self)@.wf() && old(self)@.closed() ==> final(self)@.closed(),
    {
        proof {
            if old(self)@.wf() {
                lemma_use_kept(old(self)@, UseNode::BoolUse);
            }
        }
        self.push_use(UseData::BoolUse)
    }

    /// A value of type `Integer`.
    pub fn integer(&mut self) -> (v: Value)
        ensures
            final(self)@ == old(self)@.push_value(ValueNode::Integer),
            v@ == old(self)@.values.len(),
            old(self)@.wf() ==> final(self)@.wf(),
            old(self)@.wf() && old(self)@.closed() ==> final(self)@.closed(),
    {
        proof {
            if old(self)@.wf() {
                lemma_value_kept(old(self)@, ValueNode::Integer);
            }
        }
        self.push_value(ValueData::Integer)
    }

    /// A use that requires `Integer`.
    pub fn integer_use(&mut self) -> (u: Use)
        ensures
            final(self)@ == old(self)@.push_use(UseNode::IntegerUse),
            u@ == old(self)@.uses.len(),
            old(self)@.wf() ==> final(self)@.wf(),
            old(self)@.wf() && old(self)@.closed() ==> final(self)@.closed(),
    {
        proof {
            if old(self)@.wf() {
                lemma_use_kept(old(self)@, UseNode::IntegerUse);
            }
        }
        self.push_use(UseData::IntegerUse)
    }

    /// The value of an expression that has none: an empty block, a block that
    /// ends with a separator, a `let`.
    pub fn unit(&mut self) -> (v: Value)
        ensures
            final(self)@ == old(self)@.push_value(ValueNode::Unit),
            v@ == old(self)@.values.len(),
            old(self)@.wf() ==> final(self)@.wf(),
            old(self)@.wf() && old(self)@.closed() ==> final(self)@.closed(),
    {
        proof {
            if old(self)@.wf() {
                lemma_value_kept(old(self)@, ValueNode::Unit);
            }
        }
        self.push_value(ValueData::Unit)
    }

    /// A use that requires `Unit`.
    pub fn unit_use(&mut self) -> (u: Use)
        ensures
            final(self)@ == old(self)@.push_use(UseNode::UnitUse),
            u@ == old(self)@.uses.len(),
            old(self)@.wf() ==> final(self)@.wf(),
            old(self)@.wf() && old(self)@.closed() ==> final(self)@.closed(),
    {
        proof {
            if old(self)@.wf() {
                lemma_use_kept(old(self)@, UseNode::UnitUse);
            }
        }
        self.push_use(UseData::UnitUse)
    }

    /// A function value: `args` is what it requires of its arguments, in
    /// order, `ret` what it produces.
    pub fn func(&mut self, args: Vec<Use>, ret: Value) -> (v: Value)
        ensures
            final(self)@ == old(self)@.push_value(
                ValueNode::Func { params: use_ids(args@), result: ret@ },
            ),
            v@ == old(self)@.values.len(),
            old(self)@.wf() && old(self)@.admits_value(
                ValueNode::Func { params: use_ids(args@), result: ret@ },
            ) ==> final(self)@.wf() && (old(self)@.closed() ==> final(self)@.closed()),
    {
        proof {
            let n = ValueNode::Func { params: use_ids(args@), result: ret@ };
            if old(self)@.wf() && old(self)@.admits_value(n) {
                lemma_value_kept(old(self)@, n);
            }
        }
        self.push_value(ValueData::Func { params: args, result: ret })
    }

    /// The use that a call makes of its callee: `args` is what the caller
    /// supplies, in order, `ret` what it expects back.
    pub fn func_use(&mut self, args: Vec<Value>, ret: Use) -> (u: Use)
        ensures
            final(self)@ == old(self)@.push_use(
                UseNode::FuncUse { args: value_ids(args@), result: ret@ },
            ),
            u@ == old(self)@.uses.len(),
            old(self)@.wf() && old(self)@.admits_use(
                UseNode::FuncUse { args: value_ids(args@), result: ret@ },
            ) ==> final(self)@.wf() && (old(self)@.closed() ==> final(self)@.closed()),
    {
        proof {
            let n = UseNode::FuncUse { args: value_ids(args@), result: ret@ };
            if old(self)@.wf() && old(self)@.admits_use(n) {
                lemma_use_kept(old(self)@, n);
            }
        }
        self.push_use(UseData::FuncUse { args, result: ret })
    }

    /// Puts the obligations of a new lower bound `v` of `slot` on `todo`, the first on top.
    fn spawn_for_lower(slot: &SlotData, v: Value, todo: &mut Vec<(Value, Use)>)
        ensures
            edges_of(final(todo)@) == edges_of(old(todo)@) + Seq::new(
                slot.model().upper.len(),
                |i: int| Edge { v: v@, u: slot.model().upper[i] },
            ).reverse(),
    {
        let ghost base = todo@;
        let n = slot.upper.len();
        let mut i = n;
        while i > 0
            invariant
                i <= n,
                n == slot.upper.len(),
                todo@.len() == base.len() + (n - i),
                forall|k: int| 0 <= k < base.len() ==> todo@[k] == base[k],
                forall|k: int|
                    0 <= k < n - i ==> #[trigger] todo@[base.len() + k] == (
                        v,
                        slot.upper@[n - 1 - k],
                    ),
            decreases i,
        {
            i -= 1;
            todo.push((v, slot.upper[i]));
        }
        proof {
            let spawned = Seq::new(
                slot.model().upper.len(),
                |i: int| Edge { v: v@, u: slot.model().upper[i] },
            );
            assert forall|k: int| 0 <= k < n implies edges_of(todo@)[base.len() + k]
                == spawned.reverse()[k] by {
                assert(todo@[base.len() + k] == (v, slot.upper@[n - 1 - k]));
            }
        }
    }

    /// Puts the obligations of a new upper bound `u` of `slot` on `todo`, the first on top.
    fn spawn_for_upper(slot: &SlotData, u: Use, todo: &mut Vec<(Value, Use)>)
        ensures
            edges_of(final(todo)@) == edges_of(old(todo)@) + Seq::new(
                slot.model().lower.len(),
                |i: int| Edge { v: slot.model().lower[i], u: u@ },
            ).reverse(),
    {
        let ghost base = todo@;
        let n = slot.lower.len();
        let mut i = n;
        while i > 0
            invariant
                i <= n,
                n == slot.lower.len(),
                todo@.len() == base.len() + (n - i),
                forall|k: int| 0 <= k < base.len() ==> todo@[k] == base[k],
                forall|k: int|
                    0 <= k < n - i ==> #[trigger] todo@[base.len() + k] == (
                        slot.lower@[n - 1 - k],
                        u,
                    ),
            decreases i,
        {
            i -= 1;
            todo.push((slot.lower[i], u));
        }
        proof {
            let spawned = Seq::new(
                slot.model().lower.len(),
                |i: int| Edge { v: slot.model().lower[i], u: u@ },
            );
            assert forall|k: int| 0 <= k < n implies edges_of(todo@)[base.len() + k]
                == spawned.reverse()[k] by {
                assert(todo@[base.len() + k] == (slot.lower@[n - 1 - k], u));
            }
        }
    }

    /// Puts the parts of a function meeting a call of its arity on `todo`, the first on top.
    fn spawn_parts(
        params: &Vec<Use>,
        result: Value,
        args: &Vec<Value>,
        expects: Use,
        todo: &mut Vec<(Value, Use)>,
    )
        requires
            params.len() == args.len(),
        ensures
            edges_of(final(todo)@) == edges_of(old(todo)@) + func_edges(
                use_ids(params@),
                result@,
                value_ids(args@),
                expects@,
            ).reverse(),
    {
        let ghost base = todo@;
        let n = params.len();
        todo.push((result, expects));
        let mut i = n;
        while i > 0
            invariant
                i <= n,
                n == params.len(),
                n == args.len(),
                todo@.len() == base.len() + 1 + (n - i),
                forall|k: int| 0 <= k < base.len() ==> todo@[k] == base[k],
                todo@[base.len() as int] == (result, expects),
                forall|k: int|
                    0 <= k < n - i ==> #[trigger] todo@[base.len() + 1 + k] == (
                        args@[n - 1 - k],
                        params@[n - 1 - k],
                    ),
            decreases i,
        {
            i -= 1;
            todo.push((args[i], params[i]));
        }
        proof {
            let parts = func_edges(use_ids(params@), result@, value_ids(args@), expects@);
            assert forall|k: int| 0 <= k < n + 1 implies edges_of(todo@)[base.len() + k]
                == parts.reverse()[k] by {
                if k > 0 {
                    assert(todo@[base.len() + 1 + (k - 1)] == (args@[n - k], params@[n - k]));
                }
            }
        }
    }

    /// Records `u` as the newest upper bound of slot `s`, and the step on `trail`.
    fn record_upper(&mut self, s: usize, u: Use, trail: &mut Vec<(bool, usize)>)
        requires
            s < old(self)@.slots.len(),
            !old(self)@.slots[s as int].upper.contains(u@),
        ensures
            final(self)@ == old(self)@.record_upper(s as int, u@),
            final(trail)@ == old(trail)@.push((true, s)),
            can_undo(old(self)@, old(trail)@) ==> can_undo(final(self)@, final(trail)@),
            undone(final(self)@, final(trail)@) == undone(old(self)@, old(trail)@),
    {
        self.slots[s].upper.push(u);
        trail.push((true, s));
        proof {
            let g = old(self)@;
            let h = g.record_upper(s as int, u@);
            assert(self@.slots =~= h.slots) by {
                assert forall|k: int| 0 <= k < self.slots@.len() implies self.slots@[k].model()
                    == h.slots[k] by {
                    assert(self.slots@[k].model().lower =~= h.slots[k].lower);
                    assert(self.slots@[k].model().upper =~= h.slots[k].upper);
                }
            }
            assert(self@.values =~= h.values);
            assert(self@.uses =~= h.uses);
            assert(unrecorded(h, (true, s)).slots =~= g.slots) by {
                assert(h.slots[s as int].upper.drop_last() =~= g.slots[s as int].upper);
            }
            lemma_trail_push(g, h, old(trail)@, (true, s));
        }
    }

    /// Records `v` as the newest lower bound of slot `s`, and the step on `trail`.
    fn record_lower(&mut self, s: usize, v: Value, trail: &mut Vec<(bool, usize)>)
        requires
            s < old(self)@.slots.len(),
            !old(self)@.slots[s as int].lower.contains(v@),
        ensures
            final(self)@ == old(self)@.record_lower(s as int, v@),
            final(trail)@ == old(trail)@.push((false, s)),
            can_undo(old(self)@, old(trail)@) ==> can_undo(final(self)@, final(trail)@),
            undone(final(self)@, final(trail)@) == undone(old(self)@, old(trail)@),
    {
        self.slots[s].lower.push(v);
        trail.push((false, s));
        proof {
            let g = old(self)@;
            let h = g.record_lower(s as int, v@);
            assert(self@.slots =~= h.slots) by {
                assert forall|k: int| 0 <= k < self.slots@.len() implies self.slots@[k].model()
                    == h.slots[k] by {
                    assert(self.slots@[k].model().lower =~= h.slots[k].lower);
                    assert(self.slots@[k].model().upper =~= h.slots[k].upper);
                }
            }
            assert(self@.values =~= h.values);
            assert(self@.uses =~= h.uses);
            assert(unrecorded(h, (false, s)).slots =~= g.slots) by {
                assert(h.slots[s as int].lower.drop_last() =~= g.slots[s as int].lower);
            }
            lemma_trail_push(g, h, old(trail)@, (false, s));
        }
    }

    /// Takes back the bounds that the steps of `trail` recorded, the last one first.
    fn undo(&mut self, trail: &mut Vec<(bool, usize)>)
        requires
            can_undo(old(self)@, old(trail)@),
        ensures
            final(self)@ == undone(old(self)@, old(trail)@),
    {
        while trail.len() > 0
            invariant
                can_undo(self@, trail@),
                undone(self@, trail@) == undone(old(self)@, old(trail)@),
            decreases trail.len(),
        {
            let ghost g = self@;
            let ghost steps = trail@;
            let (upper, s) = trail.pop().unwrap();
            assert(steps.last() == (upper, s));
            assert(steps.drop_last() =~= trail@);
            if upper {
                self.slots[s].upper.pop();
            } else {
                self.slots[s].lower.pop();
            }
            proof {
                let h = unrecorded(g, (upper, s));
                assert(self@.slots =~= h.slots) by {
                    assert forall|k: int| 0 <= k < self.slots@.len() implies self.slots@[k].model()
                        == h.slots[k] by {
                        assert(self.slots@[k].model().lower =~= h.slots[k].lower);
                        assert(self.slots@[k].model().upper =~= h.slots[k].upper);
                    }
                }
                assert(self@.values =~= h.values);
                assert(self@.uses =~= h.uses);
            }
        }
    }

    /// One step of a flow: discharges the obligation that `v` be acceptable to
    /// `u`, puts what it spawns on `todo`, the first on top, and what it
    /// records on `trail`.
    fn discharge(
        &mut self,
        v: Value,
        u: Use,
        todo: &mut Vec<(Value, Use)>,
        trail: &mut Vec<(bool, usize)>,
    ) -> (conflict: Option<TypeError>)
        requires
            old(self)@.wf(),
            old(self)@.has_edge(Edge { v: v@, u: u@ }),
        ensures
            ({
                let d = old(self)@.discharge(Edge { v: v@, u: u@ });
                &&& conflict == d.conflict
                &&& final(self)@ == d.graph
                &&& edges_of(final(todo)@) == edges_of(old(todo)@) + d.spawned.reverse()
            }),
            can_undo(old(self)@, old(trail)@) ==> can_undo(final(self)@, final(trail)@),
            undone(final(self)@, final(trail)@) == undone(old(self)@, old(trail)@),
    {
        let ghost g = self@;
        let ghost e = Edge { v: v@, u: u@ };
        let value_slot: Option<usize> = match &self.values[v.0] {
            ValueData::Var { slot } => Some(*slot),
            _ => None,
        };
        let use_slot: Option<usize> = match &self.uses[u.0] {
            UseData::Var { slot } => Some(*slot),
            _ => None,
        };
        if value_slot.is_some() || use_slot.is_some() {
            let fresh_upper = match value_slot {
                Some(s) => {
                    !has_use(&self.slots[s].upper, u)
                },
                None => false,
            };
            let fresh_lower = match use_slot {
                Some(t) => {
                    !has_value(&self.slots[t].lower, v)
                },
                None => false,
            };
            if fresh_lower {
                let t = use_slot.unwrap();
                Self::spawn_for_lower(&self.slots[t], v, todo);
            }
            if fresh_upper {
                let s = value_slot.unwrap();
                Self::spawn_for_upper(&self.slots[s], u, todo);
            }
            if fresh_upper {
                let s = value_slot.unwrap();
                self.record_upper(s, u, trail);
            }
            if fresh_lower {
                let t = use_slot.unwrap();
                self.record_lower(t, v, trail);
            }
            assert(self@ == g.discharge(e).graph);
            None
        } else {
            match (&self.values[v.0], &self.uses[u.0]) {
                (ValueData::Bool, UseData::BoolUse) => {
                    None
                },
                (ValueData::Integer, UseData::IntegerUse) => {
                    None
                },
                (ValueData::Unit, UseData::UnitUse) => {
                    None
                },
                (
                    ValueData::Func { params, result },
                    UseData::FuncUse { args, result: expects },
                ) => {
                    if params.len() == args.len() {
                        Self::spawn_parts(params, *result, args, *expects, todo);
                        None
                    } else {
                        Some(
                            TypeError::ArityMismatch {
                                expected: params.len(),
                                found: args.len(),
                            },
                        )
                    }
                },
                (value, usage) => {
                    Some(TypeError::TypeMismatch { expected: usage.kind(), found: value.kind() })
                },
            }
        }
    }

    /// Asserts that `lhs` must be usable wherever `rhs` is required, and all
    /// that follows from it through the bounds of the type variables.
    ///
    /// Fails where two concrete types meet that do not fit, with the first
    /// such conflict, and then leaves the graph as it was before. The same
    /// flow made again ends as this one and leaves the graph that this one
    /// leaves: one that has succeeded succeeds again and records nothing
    /// more, one that has failed fails again with the same conflict.
    pub fn flow(&mut self, lhs: Value, rhs: Use) -> (r: Result<(), TypeError>)
        requires
            old(self)@.wf(),
            old(self)@.has_value(lhs@),
            old(self)@.has_use(rhs@),
        ensures
            final(self)@ == old(self)@.flow(lhs@, rhs@).graph,
            r == old(self)@.flow(lhs@, rhs@).result(),
            final(self)@.wf(),
            old(self)@.below(final(self)@),
            r is Err ==> final(self)@ == old(self)@,
            r is Ok ==> final(self)@.satisfied(Edge { v: lhs@, u: rhs@ }),
            old(self)@.closed() ==> final(self)@.closed(),
            old(self)@.closed() && old(self)@.satisfied(Edge { v: lhs@, u: rhs@ }) ==> r is Ok
                && final(self)@ == old(self)@,
            final(self)@.flow(lhs@, rhs@) == old(self)@.flow(lhs@, rhs@),
    {
        let mut todo: Vec<(Value, Use)> = Vec::new();
        let mut trail: Vec<(bool, usize)> = Vec::new();
        todo.push((lhs, rhs));
        proof {
            let g = old(self)@;
            law_flow_only_adds_bounds(g, lhs@, rhs@);
            law_flow_twice(g, lhs@, rhs@);
            if g.satisfied(Edge { v: lhs@, u: rhs@ }) {
                law_flow_of_satisfied(g, lhs@, rhs@);
            }
            if g.flow(lhs@, rhs@).error is None {
                law_flow_satisfies(g, lhs@, rhs@);
                if g.closed() {
                    law_flow_closes(g, lhs@, rhs@);
                }
            }
        }
        while todo.len() > 0
            invariant
                self@.wf(),
                self@.has_edges(edges_of(todo@)),
                self@.run(edges_of(todo@)) == old(self)@.run(
                    seq![Edge { v: lhs@, u: rhs@ }],
                ),
                can_undo(self@, trail@),
                undone(self@, trail@) == old(self)@,
                old(self)@.flow(lhs@, rhs@).graph.wf(),
                old(self)@.below(old(self)@.flow(lhs@, rhs@).graph),
                old(self)@.flow(lhs@, rhs@).graph.flow(lhs@, rhs@) == old(self)@.flow(lhs@, rhs@),
                old(self)@.flow(lhs@, rhs@).error is None ==> old(self)@.flow(
                    lhs@,
                    rhs@,
                ).graph.satisfied(Edge { v: lhs@, u: rhs@ }),
                old(self)@.flow(lhs@, rhs@).error is None && old(self)@.closed() ==> old(
                    self,
                )@.flow(lhs@, rhs@).graph.closed(),
                old(self)@.satisfied(Edge { v: lhs@, u: rhs@ }) ==> old(self)@.flow(lhs@, rhs@)
                    == (Outcome { graph: old(self)@, error: None }),
            decreases self@.room(), load(self@.values, self@.uses, edges_of(todo@)),
        {
            let ghost g = self@;
            let ghost before = edges_of(todo@);
            let (v, u) = todo.pop().unwrap();
            proof {
                let e = Edge { v: v@, u: u@ };
                assert(before.drop_last() =~= edges_of(todo@));
                lemma_discharge_wf(g, e);
                if g.discharge(e).conflict is None {
                    lemma_discharge_decreases(g, before);
                }
            }
            match self.discharge(v, u, &mut todo, &mut trail) {
                Some(conflict) => {
                    self.undo(&mut trail);
                    return Err(conflict);
                },
                None => {
                    proof {
                        let d = g.discharge(Edge { v: v@, u: u@ });
                        assert forall|i: int| 0 <= i < edges_of(todo@).len() implies self@.has_edge(
                            #[trigger] edges_of(todo@)[i],
                        ) by {
                            if i < before.len() - 1 {
                                assert(g.has_edge(before[i]));
                            } else {
                                assert(d.graph.has_edge(
                                    d.spawned[d.spawned.len() - 1 - (i - (before.len() - 1))],
                                ));
                            }
                        }
                    }
                },
            }
        }
        Ok(())
    }
}

} // verus!
