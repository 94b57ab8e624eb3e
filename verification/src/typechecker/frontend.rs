//! The scope resolver: walks the syntax tree, keeps the chain of scopes, and
//! drives the constraint graph engine.

use vstd::prelude::*;
use vstd::hash_map::StringHashMap;
use crate::ast::{BlockAst, ExprAst, FunctionArgAst, FunctionAst, IdentAst, ModuleAst, StatementAst};
use crate::error::{CompileError, ErrorView, TypeError, TypeKind};
use crate::typechecker::engine::{use_ids, value_ids, TypeCheckerCore, Use, Value};

use crate::typechecker::soundness::{
    grown, law_checked_module_is_consistent, lemma_block_kept, lemma_expr_kept,
    lemma_exprs_kept, lemma_function_kept, lemma_merge_kept, lemma_parameter_binds, scope_ok,
};
use crate::typechecker::typing;
use crate::typechecker::typing::{lemma_exprs_stop, lemma_statements_stop, Env};

verus! {

/// A scope: the names that it binds itself, and the scope around it.
///
/// A scope never changes the scope around it. A name bound twice resolves to
/// the later binding.
pub struct Bindings<'a> {
    parent: Option<&'a Bindings<'a>>,
    symbols: StringHashMap<Value>,
}

/// What the names of `symbols` resolve to.
pub open spec fn bound(symbols: Map<Seq<char>, Value>) -> Env {
    Map::new(|name: Seq<char>| symbols.contains_key(name), |name: Seq<char>| symbols[name]@)
}

impl<'a> View for Bindings<'a> {
    type V = Env;

    /// What the names resolve to, through this scope and all around it: a
    /// name that this scope binds itself as this scope binds it, any other
    /// as the scope around resolves it.
    closed spec fn view(&self) -> Env
        decreases self,
    {
        match self.parent {
            None => bound(self.symbols@),
            Some(p) => p@.union_prefer_right(bound(self.symbols@)),
        }
    }
}

impl<'a> Bindings<'a> {
    /// The scope of a module, around which there is none. It binds nothing.
    pub fn new_module_scope() -> (scope: Bindings<'a>)
        ensures
            scope@ == Map::<Seq<char>, int>::empty(),
    {
        let scope = Bindings { parent: None, symbols: StringHashMap::new() };
        assert(scope@ =~= Map::<Seq<char>, int>::empty());
        scope
    }

    /// A scope inside this one, which binds nothing itself.
    pub fn push(&self) -> (child: Bindings<'_>)
        ensures
            child@ == self@,
    {
        let child = Bindings { parent: Some(self), symbols: StringHashMap::new() };
        assert(child@ =~= self@);
        child
    }

    /// Binds `k` to `v` in this scope.
    pub fn insert(&mut self, k: IdentAst, v: Value)
        ensures
            final(self)@ == old(self)@.insert(k@, v@),
    {
        self.symbols.insert(k.name, v);
        proof {
            let local = bound(old(self).symbols@);
            assert(bound(self.symbols@) =~= local.insert(k@, v@));
            match self.parent {
                None => {},
                Some(p) => {
                    assert(p@.union_prefer_right(local.insert(k@, v@)) =~= p@.union_prefer_right(
                        local,
                    ).insert(k@, v@));
                },
            }
        }
    }

    /// What `name` is bound to, in this scope or else in the nearest around it that binds it.
    pub fn resolve(&self, name: &IdentAst) -> (found: Option<Value>)
        ensures
            match found {
                Some(v) => self@.contains_key(name@) && self@[name@] == v@,
                None => !self@.contains_key(name@),
            },
        decreases self,
    {
        match self.symbols.get(name.as_str()) {
            Some(v) => {
                proof {
                    let local = bound(self.symbols@);
                    assert(local.dom().contains(name@));
                    match self.parent {
                        None => {},
                        Some(p) => {
                            assert(p@.union_prefer_right(local).dom().contains(name@));
                            assert(p@.union_prefer_right(local)[name@] == local[name@]);
                        },
                    }
                }
                Some(*v)
            },
            None => match self.parent {
                Some(p) => {
                    proof {
                        let local = bound(self.symbols@);
                        assert(!local.dom().contains(name@));
                        assert(p@.union_prefer_right(local).dom().contains(name@)
                            == p@.dom().contains(name@));
                        assert(p@.dom().contains(name@) ==> p@.union_prefer_right(local)[name@]
                            == p@[name@]);
                    }
                    p.resolve(name)
                },
                None => None,
            },
        }
    }
}

/// The executable result says what the rules say.
pub open spec fn agrees(r: Result<Value, CompileError>, m: Result<int, ErrorView>) -> bool {
    match r {
        Ok(v) => m == Ok::<int, ErrorView>(v@),
        Err(e) => m == Err::<int, ErrorView>(e@),
    }
}

/// The executable result says what the rules say.
pub open spec fn agrees_list(r: Result<Vec<Value>, CompileError>, m: Result<Seq<int>, ErrorView>) -> bool {
    match r {
        Ok(vs) => m == Ok::<Seq<int>, ErrorView>(value_ids(vs@)),
        Err(e) => m == Err::<Seq<int>, ErrorView>(e@),
    }
}

/// The executable result says what the rules say.
pub open spec fn agrees_unit(r: Result<(), CompileError>, m: Option<ErrorView>) -> bool {
    match r {
        Ok(_) => m is None,
        Err(e) => m == Some(e@),
    }
}

/// Requires the base type `kind` of `v`.
fn require(engine: &mut TypeCheckerCore, v: Value, kind: TypeKind) -> (r: Result<(), TypeError>)
    requires
        old(engine)@.wf(),
        old(engine)@.has_value(v@),
    ensures
        final(engine)@ == typing::require(old(engine)@, v@, kind).graph,
        r == typing::require(old(engine)@, v@, kind).result(),
        final(engine)@.wf(),
        final(engine)@.values == old(engine)@.values,
        grown(old(engine)@, final(engine)@),
{
    let u = match kind {
        TypeKind::Integer => engine.integer_use(),
        TypeKind::Bool => engine.bool_use(),
        _ => engine.unit_use(),
    };
    engine.flow(v, u)
}

/// Holds `v` to the declared type `declared`.
fn constrain(engine: &mut TypeCheckerCore, v: Value, declared: &IdentAst) -> (r: Result<
    (),
    TypeError,
>)
    requires
        old(engine)@.wf(),
        old(engine)@.has_value(v@),
    ensures
        final(engine)@ == typing::constrain(old(engine)@, v@, declared@).graph,
        r == typing::constrain(old(engine)@, v@, declared@).result(),
        final(engine)@.wf(),
        final(engine)@.values == old(engine)@.values,
        grown(old(engine)@, final(engine)@),
{
    if declared.name == String::from_str("Integer") {
        require(engine, v, TypeKind::Integer)
    } else if declared.name == String::from_str("Bool") {
        require(engine, v, TypeKind::Bool)
    } else {
        Ok(())
    }
}

/// Checks an expression in the scope `bindings`, and returns its value.
pub fn check_expr(engine: &mut TypeCheckerCore, bindings: &mut Bindings, expr: &ExprAst) -> (r:
    Result<Value, CompileError>)
    requires
        old(engine)@.wf(),
        scope_ok(old(engine)@, old(bindings)@),
    ensures
        final(engine)@ == typing::check_expr(old(engine)@, old(bindings)@, *expr).graph,
        final(bindings)@ == typing::check_expr(old(engine)@, old(bindings)@, *expr).env,
        agrees(r, typing::check_expr(old(engine)@, old(bindings)@, *expr).result),
        final(engine)@.wf(),
        scope_ok(final(engine)@, final(bindings)@),
        grown(old(engine)@, final(engine)@),
        r matches Ok(v) ==> final(engine)@.has_value(v@),
        old(engine)@.closed() ==> final(engine)@.closed(),
    decreases expr,
{
    proof {
        lemma_expr_kept(old(engine)@, old(bindings)@, *expr);
    }
    match expr {
        ExprAst::Boolean(_) => Ok(engine.bool()),
        ExprAst::Integer(_) => Ok(engine.integer()),
        ExprAst::Variable(name) => match bindings.resolve(name) {
            Some(v) => Ok(v),
            None => Err(CompileError::UnboundNameError(name.as_string())),
        },
        ExprAst::FunctionCall { name, args } => {
            let func_type = match bindings.resolve(name) {
                Some(v) => v,
                None => {
                    return Err(CompileError::UnboundNameError(name.as_string()));
                },
            };
            let arg_types = match check_exprs(engine, bindings, args) {
                Ok(values) => values,
                Err(e) => {
                    return Err(e);
                },
            };
            let (ret_type, ret_bound) = engine.var();
            let bound = engine.func_use(arg_types, ret_bound);
            match engine.flow(func_type, bound) {
                Ok(()) => Ok(ret_type),
                Err(e) => Err(CompileError::TypeError(e)),
            }
        },
        ExprAst::Assignment { name, maybe_type, expr } => {
            let var_type = match check_expr(engine, bindings, expr) {
                Ok(v) => v,
                Err(e) => {
                    return Err(e);
                },
            };
            bindings.insert(name.clone(), var_type);
            Ok(engine.unit())
        },
        ExprAst::Binary { lhs, op, rhs } => {
            let left = match check_expr(engine, bindings, lhs) {
                Ok(v) => v,
                Err(e) => {
                    return Err(e);
                },
            };
            let right = match check_expr(engine, bindings, rhs) {
                Ok(v) => v,
                Err(e) => {
                    return Err(e);
                },
            };
            match require(engine, left, TypeKind::Integer) {
                Ok(()) => {},
                Err(e) => {
                    return Err(CompileError::TypeError(e));
                },
            }
            match require(engine, right, TypeKind::Integer) {
                Ok(()) => {},
                Err(e) => {
                    return Err(CompileError::TypeError(e));
                },
            }
            Ok(engine.integer())
        },
        ExprAst::If { cond_expr, then_expr, else_expr } => {
            let cond_type = match check_expr(engine, bindings, cond_expr) {
                Ok(v) => v,
                Err(e) => {
                    return Err(e);
                },
            };
            match require(engine, cond_type, TypeKind::Bool) {
                Ok(()) => {},
                Err(e) => {
                    return Err(CompileError::TypeError(e));
                },
            }
            let then_type = {
                let mut scope = bindings.push();
                match check_block(engine, &mut scope, then_expr) {
                    Ok(v) => v,
                    Err(e) => {
                        return Err(e);
                    },
                }
            };
            let else_type = {
                let mut scope = bindings.push();
                match check_block(engine, &mut scope, else_expr) {
                    Ok(v) => v,
                    Err(e) => {
                        return Err(e);
                    },
                }
            };
            proof {
                lemma_merge_kept(engine@, then_type@, else_type@);
            }
            let (merged, merged_bound) = engine.var();
            match engine.flow(then_type, merged_bound) {
                Ok(()) => {},
                Err(_) => {
                    assert(false);
                },
            }
            match engine.flow(else_type, merged_bound) {
                Ok(()) => {},
                Err(_) => {
                    assert(false);
                },
            }
            Ok(merged)
        },
    }
}

/// Checks expressions one after the other, and returns their values.
pub fn check_exprs(
    engine: &mut TypeCheckerCore,
    bindings: &mut Bindings,
    exprs: &Vec<Box<ExprAst>>,
) -> (r: Result<Vec<Value>, CompileError>)
    requires
        old(engine)@.wf(),
        scope_ok(old(engine)@, old(bindings)@),
    ensures
        final(engine)@ == typing::check_exprs(old(engine)@, old(bindings)@, exprs@).graph,
        final(bindings)@ == typing::check_exprs(old(engine)@, old(bindings)@, exprs@).env,
        agrees_list(r, typing::check_exprs(old(engine)@, old(bindings)@, exprs@).result),
        final(engine)@.wf(),
        scope_ok(final(engine)@, final(bindings)@),
        grown(old(engine)@, final(engine)@),
        r matches Ok(vs) ==> vs@.len() == exprs@.len() && forall|k: int|
            0 <= k < vs@.len() ==> final(engine)@.has_value(#[trigger] vs@[k]@),
        old(engine)@.closed() ==> final(engine)@.closed(),
    decreases exprs,
{
    proof {
        lemma_exprs_kept(old(engine)@, old(bindings)@, exprs@);
    }
    let mut values: Vec<Value> = Vec::new();
    let mut i: usize = 0;
    proof {
        assert(exprs@.take(0) =~= Seq::<Box<ExprAst>>::empty());
        assert(value_ids(values@) =~= Seq::<int>::empty());
    }
    while i < exprs.len()
        invariant
            i <= exprs.len(),
            engine@.wf(),
            scope_ok(engine@, bindings@),
            grown(old(engine)@, engine@),
            old(engine)@.closed() ==> engine@.closed(),
            values@.len() == i,
            forall|k: int| 0 <= k < values@.len() ==> engine@.has_value(#[trigger] values@[k]@),
            typing::check_exprs(old(engine)@, old(bindings)@, exprs@.take(i as int)) == (
            typing::CheckedList {
                graph: engine@,
                env: bindings@,
                result: Ok(value_ids(values@)),
            }),
        decreases exprs.len() - i,
    {
        proof {
            assert(exprs@.take(i + 1).drop_last() =~= exprs@.take(i as int));
            assert(exprs@.take(i + 1).last() == exprs@[i as int]);
        }
        let ghost before = values@;
        match check_expr(engine, bindings, &exprs[i]) {
            Ok(v) => {
                values.push(v);
                proof {
                    assert(value_ids(values@) =~= value_ids(before).push(v@));
                }
            },
            Err(e) => {
                proof {
                    lemma_exprs_stop(old(engine)@, old(bindings)@, exprs@, i + 1);
                }
                return Err(e);
            },
        }
        i += 1;
    }
    proof {
        assert(exprs@.take(i as int) =~= exprs@);
    }
    Ok(values)
}

/// Checks a block in the scope `bindings`, which is the block's own, and returns its value.
pub fn check_block(engine: &mut TypeCheckerCore, bindings: &mut Bindings, block: &BlockAst) -> (r:
    Result<Value, CompileError>)
    requires
        old(engine)@.wf(),
        scope_ok(old(engine)@, old(bindings)@),
    ensures
        final(engine)@ == typing::check_block(old(engine)@, old(bindings)@, *block).graph,
        final(bindings)@ == typing::check_block(old(engine)@, old(bindings)@, *block).env,
        agrees(r, typing::check_block(old(engine)@, old(bindings)@, *block).result),
        final(engine)@.wf(),
        scope_ok(final(engine)@, final(bindings)@),
        grown(old(engine)@, final(engine)@),
        r matches Ok(v) ==> final(engine)@.has_value(v@),
        old(engine)@.closed() ==> final(engine)@.closed(),
    decreases block,
{
    proof {
        lemma_block_kept(old(engine)@, old(bindings)@, *block);
    }
    let values = match check_exprs(engine, bindings, &block.exprs) {
        Ok(values) => values,
        Err(e) => {
            return Err(e);
        },
    };
    if values.len() == 0 || block.trailing_semi {
        Ok(engine.unit())
    } else {
        Ok(values[values.len() - 1])
    }
}

/// Binds the parameters of a function in `bindings`, the scope of its body,
/// and returns what the function requires of its arguments.
fn bind_params(engine: &mut TypeCheckerCore, bindings: &mut Bindings, args: &Vec<FunctionArgAst>) -> (params:
    Vec<Use>)
    requires
        old(engine)@.wf(),
        scope_ok(old(engine)@, old(bindings)@),
    ensures
        final(engine)@ == typing::bind_params(old(engine)@, old(bindings)@, args@).graph,
        final(bindings)@ == typing::bind_params(old(engine)@, old(bindings)@, args@).env,
        use_ids(params@) == typing::bind_params(old(engine)@, old(bindings)@, args@).params,
        forall|k: int| 0 <= k < params@.len() ==> final(engine)@.has_use(#[trigger] params@[k]@),
        final(engine)@.wf(),
        scope_ok(final(engine)@, final(bindings)@),
        grown(old(engine)@, final(engine)@),
{
    let mut arg_bounds: Vec<Use> = Vec::new();
    let mut i: usize = 0;
    proof {
        assert(args@.take(0) =~= Seq::<FunctionArgAst>::empty());
        assert(use_ids(arg_bounds@) =~= Seq::<int>::empty());
    }
    while i < args.len()
        invariant
            i <= args.len(),
            engine@.wf(),
            scope_ok(engine@, bindings@),
            grown(old(engine)@, engine@),
            forall|k: int|
                0 <= k < arg_bounds@.len() ==> engine@.has_use(#[trigger] arg_bounds@[k]@),
            typing::bind_params(old(engine)@, old(bindings)@, args@.take(i as int)) == (
            typing::Bound { graph: engine@, env: bindings@, params: use_ids(arg_bounds@) }),
        decreases args.len() - i,
    {
        proof {
            assert(args@.take(i + 1).drop_last() =~= args@.take(i as int));
            assert(args@.take(i + 1).last() == args@[i as int]);
            lemma_parameter_binds(engine@, args@[i as int].arg_type@);
        }
        let ghost before = arg_bounds@;
        let arg = &args[i];
        let (arg_type, arg_bound) = engine.var();
        bindings.insert(arg.name.clone(), arg_type);
        arg_bounds.push(arg_bound);
        proof {
            assert(use_ids(arg_bounds@) =~= use_ids(before).push(arg_bound@));
        }
        match constrain(engine, arg_type, &arg.arg_type) {
            Ok(()) => {},
            Err(_) => {
                assert(false);
            },
        }
        i += 1;
    }
    proof {
        assert(args@.take(i as int) =~= args@);
    }
    arg_bounds
}

/// Checks a function declaration that stands in the scope `bindings`.
pub fn check_function(engine: &mut TypeCheckerCore, bindings: &mut Bindings, func: &FunctionAst) -> (r:
    Result<(), CompileError>)
    requires
        old(engine)@.wf(),
        scope_ok(old(engine)@, old(bindings)@),
    ensures
        final(engine)@ == typing::check_function(old(engine)@, old(bindings)@, *func).graph,
        final(bindings)@ == typing::check_function(old(engine)@, old(bindings)@, *func).env,
        agrees_unit(r, typing::check_function(old(engine)@, old(bindings)@, *func).error),
        final(engine)@.wf(),
        scope_ok(final(engine)@, final(bindings)@),
        grown(old(engine)@, final(engine)@),
        old(engine)@.closed() ==> final(engine)@.closed(),
{
    proof {
        lemma_function_kept(old(engine)@, old(bindings)@, *func);
    }
    let (arg_bounds, body_type) = {
        let mut local_bindings = bindings.push();
        let arg_bounds = bind_params(engine, &mut local_bindings, &func.fn_args);
        let body_type = match check_block(engine, &mut local_bindings, &func.block) {
            Ok(v) => v,
            Err(e) => {
                return Err(e);
            },
        };
        match constrain(engine, body_type, &func.return_type) {
            Ok(()) => {},
            Err(e) => {
                return Err(CompileError::TypeError(e));
            },
        }
        (arg_bounds, body_type)
    };
    let declared = engine.func(arg_bounds, body_type);
    bindings.insert(func.name.clone(), declared);
    Ok(())
}

/// Checks a module whose scope is `bindings`: its functions in order, each
/// in scope for those after it. Stops at the first failure.
pub fn check_module(
    engine: &mut TypeCheckerCore,
    bindings: &mut Bindings,
    module_ast: &ModuleAst,
) -> (r: Result<(), CompileError>)
    requires
        old(engine)@.wf(),
        scope_ok(old(engine)@, old(bindings)@),
    ensures
        final(engine)@ == typing::check_module(old(engine)@, old(bindings)@, *module_ast).graph,
        final(bindings)@ == typing::check_module(old(engine)@, old(bindings)@, *module_ast).env,
        agrees_unit(r, typing::check_module(old(engine)@, old(bindings)@, *module_ast).error),
        final(engine)@.wf(),
        scope_ok(final(engine)@, final(bindings)@),
        grown(old(engine)@, final(engine)@),
        old(engine)@.closed() ==> final(engine)@.closed(),
{
    let mut i: usize = 0;
    proof {
        assert(module_ast.statements@.take(0) =~= Seq::<StatementAst>::empty());
    }
    while i < module_ast.statements.len()
        invariant
            i <= module_ast.statements.len(),
            old(engine)@.wf(),
            scope_ok(old(engine)@, old(bindings)@),
            engine@.wf(),
            scope_ok(engine@, bindings@),
            typing::check_statements(
                old(engine)@,
                old(bindings)@,
                module_ast.statements@.take(i as int),
            ) == (typing::Declared { graph: engine@, env: bindings@, error: None }),
        decreases module_ast.statements.len() - i,
    {
        proof {
            assert(module_ast.statements@.take(i + 1).drop_last() =~= module_ast.statements@.take(
                i as int,
            ));
            assert(module_ast.statements@.take(i + 1).last() == module_ast.statements@[i as int]);
        }
        match &module_ast.statements[i] {
            StatementAst::Function(func) => {
                match check_function(engine, bindings, func) {
                    Ok(()) => {},
                    Err(e) => {
                        proof {
                            lemma_statements_stop(
                                old(engine)@,
                                old(bindings)@,
                                module_ast.statements@,
                                i + 1,
                            );
                            law_checked_module_is_consistent(
                                old(engine)@,
                                old(bindings)@,
                                *module_ast,
                            );
                        }
                        return Err(e);
                    },
                }
            },
        }
        i += 1;
    }
    proof {
        assert(module_ast.statements@.take(i as int) =~= module_ast.statements@);
        law_checked_module_is_consistent(old(engine)@, old(bindings)@, *module_ast);
    }
    Ok(())
}

} // verus!
