//! The constraint graph as a mathematical object.
//!
//! A graph holds two arenas of nodes, producers ("values") and consumers
//! ("uses"), and one pair of bound lists per type variable. Everything the
//! engine does is defined here on this model; the executable engine is proved
//! to compute exactly what the model says.

use vstd::prelude::*;
use crate::error::{TypeError, TypeKind};
use crate::typechecker::progress::lemma_discharge_decreases;

verus! {

/// What an expression's type is.
pub enum ValueNode {
    Bool,
    Integer,
    Unit,
    /// A function: what it requires of each argument, and what it produces.
    Func { params: Seq<int>, result: int },
    /// The producer half of a type variable.
    Var { slot: int },
}

/// What a context requires.
pub enum UseNode {
    BoolUse,
    IntegerUse,
    UnitUse,
    /// A call: what the caller supplies, and what it expects back.
    FuncUse { args: Seq<int>, result: int },
    /// The consumer half of a type variable.
    Var { slot: int },
}

/// The bounds of one type variable, each in the order of recording.
pub struct Bounds {
    /// Values that flow into the variable.
    pub lower: Seq<int>,
    /// Uses that the variable flows into.
    pub upper: Seq<int>,
}

/// The obligation that value `v` be acceptable to use `u`.
pub struct Edge {
    pub v: int,
    pub u: int,
}

/// A constraint graph. A node is known by its index in its arena, a type
/// variable by the index of its slot.
pub struct Graph {
    /// The arena of producer nodes.
    pub values: Seq<ValueNode>,
    /// The arena of consumer nodes.
    pub uses: Seq<UseNode>,
    /// The bounds of the type variables.
    pub slots: Seq<Bounds>,
}

impl ValueNode {
    /// The constructor of a concrete value.
    pub open spec fn kind(self) -> TypeKind
        recommends
            !(self is Var),
    {
        match self {
            ValueNode::Bool => TypeKind::Bool,
            ValueNode::Integer => TypeKind::Integer,
            ValueNode::Unit => TypeKind::Unit,
            ValueNode::Func { .. } => TypeKind::Function,
            ValueNode::Var { .. } => arbitrary(),
        }
    }
}

impl UseNode {
    /// The constructor that a concrete use asks for.
    pub open spec fn kind(self) -> TypeKind
        recommends
            !(self is Var),
    {
        match self {
            UseNode::BoolUse => TypeKind::Bool,
            UseNode::IntegerUse => TypeKind::Integer,
            UseNode::UnitUse => TypeKind::Unit,
            UseNode::FuncUse { .. } => TypeKind::Function,
            UseNode::Var { .. } => arbitrary(),
        }
    }
}

/// Ranks `rv` of the values and `ru` of the uses under which every function
/// node stands above each node that it refers to. Nodes are only ever
/// appended, and a node can refer only to nodes that exist when it is made,
/// so the moment of creation is such a rank.
pub open spec fn ranked(
    values: Seq<ValueNode>,
    uses: Seq<UseNode>,
    rv: Seq<nat>,
    ru: Seq<nat>,
) -> bool {
    &&& rv.len() == values.len()
    &&& ru.len() == uses.len()
    &&& forall|i: int| 0 <= i < rv.len() ==> #[trigger] rv[i] < values.len() + uses.len()
    &&& forall|j: int| 0 <= j < ru.len() ==> #[trigger] ru[j] < values.len() + uses.len()
    &&& forall|i: int|
        0 <= i < values.len() ==> (#[trigger] values[i] matches ValueNode::Func { params, result }
            ==> {
            &&& 0 <= result < values.len()
            &&& rv[result] < rv[i]
            &&& forall|k: int|
                0 <= k < params.len() ==> 0 <= #[trigger] params[k] < uses.len() && ru[params[k]]
                    < rv[i]
        })
    &&& forall|j: int|
        0 <= j < uses.len() ==> (#[trigger] uses[j] matches UseNode::FuncUse { args, result } ==> {
            &&& 0 <= result < uses.len()
            &&& ru[result] < ru[j]
            &&& forall|k: int|
                0 <= k < args.len() ==> 0 <= #[trigger] args[k] < values.len() && rv[args[k]]
                    < ru[j]
        })
}

/// The nodes refer only to nodes made before them: no function type contains itself
/// but through a variable.
pub open spec fn well_founded(values: Seq<ValueNode>, uses: Seq<UseNode>) -> bool {
    exists|r: (Seq<nat>, Seq<nat>)| ranked(values, uses, r.0, r.1)
}

/// Some ranks under which the nodes are [`ranked`].
pub open spec fn ranking(values: Seq<ValueNode>, uses: Seq<UseNode>) -> (Seq<nat>, Seq<nat>) {
    choose|r: (Seq<nat>, Seq<nat>)| ranked(values, uses, r.0, r.1)
}

/// The rank of an obligation: that of its value plus that of its use.
pub open spec fn height(values: Seq<ValueNode>, uses: Seq<UseNode>, e: Edge) -> nat {
    let r = ranking(values, uses);
    r.0[e.v] + r.1[e.u]
}

/// The number of parameters of a function value, 0 for any other value.
pub open spec fn arity(n: ValueNode) -> nat {
    match n {
        ValueNode::Func { params, .. } => params.len(),
        _ => 0,
    }
}

/// The obligations into which a function value meeting a call of the same
/// arity falls apart: each argument against its parameter (the direction
/// turns round), then the result against what the caller expects.
pub open spec fn func_edges(params: Seq<int>, result: int, args: Seq<int>, expects: int) -> Seq<
    Edge,
> {
    Seq::new(params.len(), |i: int| Edge { v: args[i], u: params[i] }).push(
        Edge { v: result, u: expects },
    )
}

/// How many obligations the discharge of `e` sets off at most while no
/// variable is touched: 1 for `e` itself, and for a function meeting a call
/// of its arity the weights of the parts.
pub open spec fn weight(values: Seq<ValueNode>, uses: Seq<UseNode>, e: Edge) -> nat
    decreases height(values, uses, e), arity(values[e.v]) + 2,
    when well_founded(values, uses) && 0 <= e.v < values.len() && 0 <= e.u < uses.len()
{
    match (values[e.v], uses[e.u]) {
        (ValueNode::Func { params, result }, UseNode::FuncUse { args, result: expects }) => {
            if params.len() == args.len() {
                1 + parts_weight(values, uses, e, params.len() + 1)
            } else {
                1
            }
        },
        _ => 1,
    }
}

/// The weights of the first `k` parts of `e`, a function meeting a call of its arity.
pub open spec fn parts_weight(values: Seq<ValueNode>, uses: Seq<UseNode>, e: Edge, k: nat) -> nat
    decreases height(values, uses, e), k,
    when well_founded(values, uses) && 0 <= e.v < values.len() && 0 <= e.u < uses.len() && (
    values[e.v] matches ValueNode::Func { params, result } && uses[e.u] matches UseNode::FuncUse {
        args,
        result: expects,
    } && params.len() == args.len() && k <= params.len() + 1)
{
    if k == 0 {
        0
    } else {
        let parts = func_edges(
            values[e.v]->params,
            values[e.v]->Func_result,
            uses[e.u]->args,
            uses[e.u]->FuncUse_result,
        );
        parts_weight(values, uses, e, (k - 1) as nat) + weight(values, uses, parts[k - 1])
    }
}

/// The weights of the obligations in `todo`, summed.
pub open spec fn load(values: Seq<ValueNode>, uses: Seq<UseNode>, todo: Seq<Edge>) -> nat
    decreases todo.len(),
{
    if todo.len() == 0 {
        0
    } else {
        load(values, uses, todo.drop_last()) + weight(values, uses, todo.last())
    }
}

/// How many of the numbers below `n` do not occur in `s`.
pub open spec fn absent(s: Seq<int>, n: nat) -> nat
    decreases n,
{
    if n == 0 {
        0
    } else {
        absent(s, (n - 1) as nat) + if s.contains(n - 1) {
            0nat
        } else {
            1nat
        }
    }
}

/// How many bounds the slots can still take: for each slot the values that
/// are not among its lower bounds and the uses that are not among its upper bounds.
pub open spec fn room_of(slots: Seq<Bounds>, nv: nat, nu: nat) -> nat
    decreases slots.len(),
{
    if slots.len() == 0 {
        0
    } else {
        room_of(slots.drop_last(), nv, nu) + absent(slots.last().lower, nv) + absent(
            slots.last().upper,
            nu,
        )
    }
}


/// What the discharge of one obligation does.
pub struct Discharge {
    /// The graph with what was recorded.
    pub graph: Graph,
    /// The obligations that follow, in the order in which they are to be discharged.
    pub spawned: Seq<Edge>,
    /// Set where two concrete types met that do not fit.
    pub conflict: Option<TypeError>,
}

/// How a flow ended.
pub struct Outcome {
    /// The graph as the flow left it.
    pub graph: Graph,
    /// The first conflict that was met, if any.
    pub error: Option<TypeError>,
}

impl Graph {
    /// The graph without nodes.
    pub open spec fn empty() -> Graph {
        Graph { values: Seq::empty(), uses: Seq::empty(), slots: Seq::empty() }
    }

    /// `v` is the index of a value node.
    pub open spec fn has_value(self, v: int) -> bool {
        0 <= v < self.values.len()
    }

    /// `u` is the index of a use node.
    pub open spec fn has_use(self, u: int) -> bool {
        0 <= u < self.uses.len()
    }

    /// `e` is an obligation between nodes of this graph.
    pub open spec fn has_edge(self, e: Edge) -> bool {
        self.has_value(e.v) && self.has_use(e.u)
    }

    /// All of `todo` are obligations between nodes of this graph.
    pub open spec fn has_edges(self, todo: Seq<Edge>) -> bool {
        forall|i: int| 0 <= i < todo.len() ==> self.has_edge(#[trigger] todo[i])
    }

    /// The bounds hold nodes of this graph, none of them twice.
    pub open spec fn bounds_ok(self, b: Bounds) -> bool {
        &&& b.lower.no_duplicates()
        &&& b.upper.no_duplicates()
        &&& forall|i: int| 0 <= i < b.lower.len() ==> self.has_value(#[trigger] b.lower[i])
        &&& forall|i: int| 0 <= i < b.upper.len() ==> self.has_use(#[trigger] b.upper[i])
    }

    /// Every reference in the graph leads to a node or slot of the graph, function
    /// nodes refer only to older nodes, and no bound is recorded twice.
    pub open spec fn wf(self) -> bool {
        &&& well_founded(self.values, self.uses)
        &&& forall|i: int|
            0 <= i < self.values.len() ==> (#[trigger] self.values[i] matches ValueNode::Var {
                slot,
            } ==> 0 <= slot < self.slots.len())
        &&& forall|j: int|
            0 <= j < self.uses.len() ==> (#[trigger] self.uses[j] matches UseNode::Var { slot }
                ==> 0 <= slot < self.slots.len())
        &&& forall|s: int| 0 <= s < self.slots.len() ==> self.bounds_ok(#[trigger] self.slots[s])
    }

    /// The graph with one more value node.
    pub open spec fn push_value(self, n: ValueNode) -> Graph {
        Graph { values: self.values.push(n), ..self }
    }

    /// The graph with one more use node.
    pub open spec fn push_use(self, n: UseNode) -> Graph {
        Graph { uses: self.uses.push(n), ..self }
    }

    /// The graph with one more type variable: a slot without bounds, and the
    /// variable's two halves as the newest value and the newest use.
    pub open spec fn push_var(self) -> Graph {
        Graph {
            values: self.values.push(ValueNode::Var { slot: self.slots.len() as int }),
            uses: self.uses.push(UseNode::Var { slot: self.slots.len() as int }),
            slots: self.slots.push(Bounds { lower: Seq::empty(), upper: Seq::empty() }),
        }
    }

    /// The graph with `u` among the upper bounds of slot `s`.
    pub open spec fn record_upper(self, s: int, u: int) -> Graph {
        if self.slots[s].upper.contains(u) {
            self
        } else {
            Graph {
                slots: self.slots.update(
                    s,
                    Bounds { lower: self.slots[s].lower, upper: self.slots[s].upper.push(u) },
                ),
                ..self
            }
        }
    }

    /// The graph with `v` among the lower bounds of slot `s`.
    pub open spec fn record_lower(self, s: int, v: int) -> Graph {
        if self.slots[s].lower.contains(v) {
            self
        } else {
            Graph {
                slots: self.slots.update(
                    s,
                    Bounds { lower: self.slots[s].lower.push(v), upper: self.slots[s].upper },
                ),
                ..self
            }
        }
    }

    /// What a new upper bound `u` of slot `s` asks for: every value that flows
    /// into the variable must be acceptable to `u`. Nothing, if `u` is an upper bound already.
    pub open spec fn upper_spawn(self, s: int, u: int) -> Seq<Edge> {
        if self.slots[s].upper.contains(u) {
            Seq::empty()
        } else {
            Seq::new(self.slots[s].lower.len(), |i: int| Edge { v: self.slots[s].lower[i], u })
        }
    }

    /// What a new lower bound `v` of slot `s` asks for: `v` must be acceptable to
    /// every use that the variable flows into. Nothing, if `v` is a lower bound already.
    pub open spec fn lower_spawn(self, s: int, v: int) -> Seq<Edge> {
        if self.slots[s].lower.contains(v) {
            Seq::empty()
        } else {
            Seq::new(self.slots[s].upper.len(), |i: int| Edge { v, u: self.slots[s].upper[i] })
        }
    }

    /// One step of a flow: what the obligation `e` comes to.
    ///
    /// - A variable on either side records the other side as its bound and
    ///   spawns the obligations against the bounds that it had on its opposite
    ///   side; a bound that is already recorded changes and spawns nothing.
    /// - `Bool`, `Integer` and `Unit` are acceptable to their own use.
    /// - A function meeting a call falls apart into [`func_edges`], unless
    ///   the numbers of parameters and arguments differ.
    /// - Any other two concrete types are a mismatch.
    pub open spec fn discharge(self, e: Edge) -> Discharge {
        match (self.values[e.v], self.uses[e.u]) {
            (ValueNode::Var { slot: s }, UseNode::Var { slot: t }) => Discharge {
                graph: self.record_upper(s, e.u).record_lower(t, e.v),
                spawned: self.upper_spawn(s, e.u) + self.lower_spawn(t, e.v),
                conflict: None,
            },
            (ValueNode::Var { slot: s }, _) => Discharge {
                graph: self.record_upper(s, e.u),
                spawned: self.upper_spawn(s, e.u),
                conflict: None,
            },
            (_, UseNode::Var { slot: t }) => Discharge {
                graph: self.record_lower(t, e.v),
                spawned: self.lower_spawn(t, e.v),
                conflict: None,
            },
            (ValueNode::Bool, UseNode::BoolUse) => Discharge {
                graph: self,
                spawned: Seq::empty(),
                conflict: None,
            },
            (ValueNode::Integer, UseNode::IntegerUse) => Discharge {
                graph: self,
                spawned: Seq::empty(),
                conflict: None,
            },
            (ValueNode::Unit, UseNode::UnitUse) => Discharge {
                graph: self,
                spawned: Seq::empty(),
                conflict: None,
            },
            (ValueNode::Func { params, result }, UseNode::FuncUse { args, result: expects }) => {
                if params.len() == args.len() {
                    Discharge {
                        graph: self,
                        spawned: func_edges(params, result, args, expects),
                        conflict: None,
                    }
                } else {
                    Discharge {
                        graph: self,
                        spawned: Seq::empty(),
                        conflict: Some(
                            TypeError::ArityMismatch {
                                expected: params.len() as usize,
                                found: args.len() as usize,
                            },
                        ),
                    }
                }
            },
            (value, usage) => Discharge {
                graph: self,
                spawned: Seq::empty(),
                conflict: Some(
                    TypeError::TypeMismatch { expected: usage.kind(), found: value.kind() },
                ),
            },
        }
    }

    /// How many bounds the slots can still take.
    pub open spec fn room(self) -> nat {
        room_of(self.slots, self.values.len(), self.uses.len())
    }

    /// Discharges the obligations in `todo`, the last one first, each with all
    /// that it spawns before the one below it, until none is left or two
    /// concrete types conflict. Gives the graph with all that was recorded
    /// on the way, and the first conflict if there was one.
    pub open spec fn run(self, todo: Seq<Edge>) -> Outcome
        decreases self.room(), load(self.values, self.uses, todo),
        when self.wf() && self.has_edges(todo)
    {
        if todo.len() == 0 {
            Outcome { graph: self, error: None }
        } else {
            let d = self.discharge(todo.last());
            if d.conflict is Some {
                Outcome { graph: self, error: d.conflict }
            } else {
                proof {
                    lemma_discharge_decreases(self, todo);
                }
                d.graph.run(todo.drop_last() + d.spawned.reverse())
            }
        }
    }

    /// Asserts that value `v` must be acceptable wherever use `u` is required,
    /// with all that follows from it.
    ///
    /// A flow that meets a conflict leaves the graph as it found it: a
    /// bound is recorded for good only when all that follows from it has been
    /// discharged. So the graph holds what follows from the flows that have
    /// succeeded and nothing else, and a flow that has failed fails again,
    /// with the same conflict, whenever it is made again.
    pub open spec fn flow(self, v: int, u: int) -> Outcome {
        let done = self.run(seq![Edge { v, u }]);
        if done.error is Some {
            Outcome { graph: self, error: done.error }
        } else {
            done
        }
    }
}

} // verus!
