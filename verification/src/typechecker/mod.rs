//! The type checker: a constraint graph engine, a scope resolver that drives
//! it, and one entry point that checks a module.
//!
//! - [`graph`] defines the constraint graph and what a flow does to it;
//!   [`progress`] shows that every flow ends, [`arena`] that the graph can grow.
//! - [`engine`] is the executable engine, [`frontend`] the executable
//!   resolver; [`typing`] holds the typing rules that the resolver follows.
//! - [`closure`], [`laws`] and [`lazy`] say what a flow achieves: it yields
//!   the least closed graph, fails only where the constraints cannot be met,
//!   and meets a conflict only where concrete types stand on both sides.
//! - [`soundness`], [`scoping`] and [`expressions`] say what holds of the
//!   typing rules: what they keep, what a scope sees, what an expression is.

pub mod arena;
pub mod closure;
pub mod engine;
pub mod expressions;
pub mod frontend;
pub mod graph;
pub mod laws;
pub mod lazy;
pub mod progress;
pub mod scoping;
pub mod soundness;
pub mod typing;

use vstd::prelude::*;
use crate::ast::ModuleAst;
use crate::error::CompileError;
use crate::typechecker::engine::TypeCheckerCore;
use crate::typechecker::frontend::{agrees_unit, Bindings};
use crate::typechecker::soundness::scope_ok;
use crate::typechecker::graph::Graph;
use crate::typechecker::typing::Env;

verus! {

/// The checker of one module: an engine and the module's scope.
pub struct TypeChecker<'a> {
    core: TypeCheckerCore,
    bindings: Bindings<'a>,
}

impl<'a> TypeChecker<'a> {
    /// The constraint graph as it stands.
    pub closed spec fn graph(&self) -> Graph {
        self.core@
    }

    /// What the names of the module's scope resolve to.
    pub closed spec fn scope(&self) -> Env {
        self.bindings@
    }

    /// The graph is well formed and every name in scope resolves to a value of it.
    pub open spec fn wf(&self) -> bool {
        self.graph().wf() && scope_ok(self.graph(), self.scope())
    }

    /// A checker with an empty graph and an empty scope.
    pub fn new() -> (checker: Self)
        ensures
            checker.graph() == Graph::empty(),
            checker.scope() == Map::<Seq<char>, int>::empty(),
            checker.wf(),
            checker.graph().closed(),
    {
        Self { core: TypeCheckerCore::new(), bindings: Bindings::new_module_scope() }
    }

    /// Checks a module: succeeds where the typing rules find no fault in
    /// it, and fails with the first fault that they find. A closed graph
    /// stays closed either way; where the check succeeds, the constraints of
    /// the module can all be met together.
    pub fn check_module(&mut self, module: &ModuleAst) -> (r: Result<(), CompileError>)
        requires
            old(self).wf(),
        ensures
            final(self).wf(),
            old(self).graph().closed() ==> final(self).graph().closed(),
            final(self).graph() == typing::check_module(
                old(self).graph(),
                old(self).scope(),
                *module,
            ).graph,
            final(self).scope() == typing::check_module(
                old(self).graph(),
                old(self).scope(),
                *module,
            ).env,
            agrees_unit(
                r,
                typing::check_module(old(self).graph(), old(self).scope(), *module).error,
            ),
    {
        frontend::check_module(&mut self.core, &mut self.bindings, module)
    }
}

} // verus!
