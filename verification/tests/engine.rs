use espresso::error::{TypeError, TypeKind};
use espresso::typechecker::engine::TypeCheckerCore;

fn mismatch(expected: TypeKind, found: TypeKind) -> Result<(), TypeError> {
    Err(TypeError::TypeMismatch { expected, found })
}

#[test]
fn base_types_flow_into_their_own_use() {
    let mut engine = TypeCheckerCore::new();
    let b = engine.bool();
    let bu = engine.bool_use();
    let i = engine.integer();
    let iu = engine.integer_use();
    let n = engine.unit();
    let nu = engine.unit_use();
    assert_eq!(engine.flow(b, bu), Ok(()));
    assert_eq!(engine.flow(i, iu), Ok(()));
    assert_eq!(engine.flow(n, nu), Ok(()));
}

#[test]
fn integer_does_not_flow_into_bool_use() {
    let mut engine = TypeCheckerCore::new();
    let i = engine.integer();
    let bu = engine.bool_use();
    assert_eq!(engine.flow(i, bu), mismatch(TypeKind::Bool, TypeKind::Integer));
}

#[test]
fn bool_does_not_flow_into_integer_use() {
    let mut engine = TypeCheckerCore::new();
    let b = engine.bool();
    let iu = engine.integer_use();
    assert_eq!(engine.flow(b, iu), mismatch(TypeKind::Integer, TypeKind::Bool));
}

#[test]
fn unit_flows_only_into_unit_use() {
    let mut engine = TypeCheckerCore::new();
    let n = engine.unit();
    let bu = engine.bool_use();
    let b = engine.bool();
    let nu = engine.unit_use();
    assert_eq!(engine.flow(n, bu), mismatch(TypeKind::Bool, TypeKind::Unit));
    assert_eq!(engine.flow(b, nu), mismatch(TypeKind::Unit, TypeKind::Bool));
}

#[test]
fn base_type_and_function_do_not_mix() {
    let mut engine = TypeCheckerCore::new();
    let b = engine.bool();
    let i = engine.integer();
    let iu = engine.integer_use();
    let f = engine.func(vec![iu], i);
    let call = engine.func_use(vec![i], iu);
    assert_eq!(engine.flow(b, call), mismatch(TypeKind::Function, TypeKind::Bool));
    assert_eq!(engine.flow(f, iu), mismatch(TypeKind::Integer, TypeKind::Function));
}

#[test]
fn variable_without_bounds_never_fails() {
    let mut engine = TypeCheckerCore::new();
    let (v, u) = engine.var();
    let b = engine.bool();
    let iu = engine.integer_use();
    // only one side is constrained at a time
    assert_eq!(engine.flow(b, u), Ok(()));
    let (w, _) = engine.var();
    assert_eq!(engine.flow(w, iu), Ok(()));
    let _ = v;
}

#[test]
fn variable_passes_a_mismatch_on() {
    let mut engine = TypeCheckerCore::new();
    let (v, u) = engine.var();
    let b = engine.bool();
    let iu = engine.integer_use();
    assert_eq!(engine.flow(b, u), Ok(()));
    assert_eq!(engine.flow(v, iu), mismatch(TypeKind::Integer, TypeKind::Bool));
}

#[test]
fn variable_passes_a_mismatch_on_whichever_side_comes_first() {
    let mut engine = TypeCheckerCore::new();
    let (v, u) = engine.var();
    let b = engine.bool();
    let iu = engine.integer_use();
    assert_eq!(engine.flow(v, iu), Ok(()));
    assert_eq!(engine.flow(b, u), mismatch(TypeKind::Integer, TypeKind::Bool));
}

#[test]
fn chain_of_variables_passes_a_mismatch_on() {
    let mut engine = TypeCheckerCore::new();
    let (v1, u1) = engine.var();
    let (v2, u2) = engine.var();
    let (v3, u3) = engine.var();
    let b = engine.bool();
    let iu = engine.integer_use();
    assert_eq!(engine.flow(v1, u2), Ok(()));
    assert_eq!(engine.flow(v2, u3), Ok(()));
    assert_eq!(engine.flow(v3, iu), Ok(()));
    assert_eq!(engine.flow(b, u1), mismatch(TypeKind::Integer, TypeKind::Bool));
}

#[test]
fn arity_mismatch_names_declared_and_supplied() {
    let mut engine = TypeCheckerCore::new();
    let i = engine.integer();
    let iu = engine.integer_use();
    let iu2 = engine.integer_use();
    let f = engine.func(vec![iu, iu2], i);
    let call = engine.func_use(vec![i], iu);
    assert_eq!(engine.flow(f, call), Err(TypeError::ArityMismatch { expected: 2, found: 1 }));
}

#[test]
fn arity_mismatch_comes_whatever_the_arguments() {
    let mut engine = TypeCheckerCore::new();
    let i = engine.integer();
    let b = engine.bool();
    let iu = engine.integer_use();
    let f = engine.func(vec![iu], i);
    let call = engine.func_use(vec![b, b, b], iu);
    assert_eq!(engine.flow(f, call), Err(TypeError::ArityMismatch { expected: 1, found: 3 }));
    let nullary = engine.func(vec![], i);
    assert_eq!(
        engine.flow(nullary, call),
        Err(TypeError::ArityMismatch { expected: 0, found: 3 })
    );
}

#[test]
fn function_flows_into_a_fitting_call() {
    let mut engine = TypeCheckerCore::new();
    let i = engine.integer();
    let b = engine.bool();
    let iu = engine.integer_use();
    let bu = engine.bool_use();
    let f = engine.func(vec![iu, bu], b);
    let call = engine.func_use(vec![i, b], bu);
    assert_eq!(engine.flow(f, call), Ok(()));
}

#[test]
fn first_failing_argument_is_reported() {
    let mut engine = TypeCheckerCore::new();
    let i = engine.integer();
    let b = engine.bool();
    let n = engine.unit();
    let iu = engine.integer_use();
    let f = engine.func(vec![iu, iu], i);
    // both arguments are wrong, the first one is reported
    let call = engine.func_use(vec![b, n], iu);
    assert_eq!(engine.flow(f, call), mismatch(TypeKind::Integer, TypeKind::Bool));
    let call = engine.func_use(vec![n, b], iu);
    assert_eq!(engine.flow(f, call), mismatch(TypeKind::Integer, TypeKind::Unit));
}

#[test]
fn arguments_are_checked_before_the_result() {
    let mut engine = TypeCheckerCore::new();
    let i = engine.integer();
    let n = engine.unit();
    let iu = engine.integer_use();
    let bu = engine.bool_use();
    let f = engine.func(vec![iu], i);
    let call = engine.func_use(vec![n], bu);
    assert_eq!(engine.flow(f, call), mismatch(TypeKind::Integer, TypeKind::Unit));
}

#[test]
fn result_is_covariant() {
    let mut engine = TypeCheckerCore::new();
    let i = engine.integer();
    let iu = engine.integer_use();
    let bu = engine.bool_use();
    let f = engine.func(vec![iu], i);
    let call = engine.func_use(vec![i], bu);
    assert_eq!(engine.flow(f, call), mismatch(TypeKind::Bool, TypeKind::Integer));
}

#[test]
fn parameter_is_contravariant_integer_required() {
    // the function requires an integer; one call supplies a variable that
    // holds a bool, the other a variable that holds an integer
    let mut engine = TypeCheckerCore::new();
    let i = engine.integer();
    let b = engine.bool();
    let iu = engine.integer_use();
    let f = engine.func(vec![iu], i);

    let (holds_bool, into_bool) = engine.var();
    assert_eq!(engine.flow(b, into_bool), Ok(()));
    let (_, r1) = engine.var();
    let bad = engine.func_use(vec![holds_bool], r1);
    assert_eq!(engine.flow(f, bad), mismatch(TypeKind::Integer, TypeKind::Bool));

    let (holds_int, into_int) = engine.var();
    assert_eq!(engine.flow(i, into_int), Ok(()));
    let (_, r2) = engine.var();
    let good = engine.func_use(vec![holds_int], r2);
    assert_eq!(engine.flow(f, good), Ok(()));
}

#[test]
fn parameter_is_contravariant_bool_required() {
    let mut engine = TypeCheckerCore::new();
    let i = engine.integer();
    let b = engine.bool();
    let bu = engine.bool_use();
    let f = engine.func(vec![bu], b);

    let (holds_int, into_int) = engine.var();
    assert_eq!(engine.flow(i, into_int), Ok(()));
    let (_, r1) = engine.var();
    let bad = engine.func_use(vec![holds_int], r1);
    assert_eq!(engine.flow(f, bad), mismatch(TypeKind::Bool, TypeKind::Integer));

    let (holds_bool, into_bool) = engine.var();
    assert_eq!(engine.flow(b, into_bool), Ok(()));
    let (_, r2) = engine.var();
    let good = engine.func_use(vec![holds_bool], r2);
    assert_eq!(engine.flow(f, good), Ok(()));
}

#[test]
fn consistent_cycle_of_three_variables_ends() {
    let mut engine = TypeCheckerCore::new();
    let (v1, u1) = engine.var();
    let (v2, u2) = engine.var();
    let (v3, u3) = engine.var();
    assert_eq!(engine.flow(v1, u2), Ok(()));
    assert_eq!(engine.flow(v2, u3), Ok(()));
    assert_eq!(engine.flow(v3, u1), Ok(()));
    let i = engine.integer();
    let iu = engine.integer_use();
    assert_eq!(engine.flow(i, u2), Ok(()));
    assert_eq!(engine.flow(v3, iu), Ok(()));
    assert_eq!(engine.flow(v1, iu), Ok(()));
}

#[test]
fn mismatch_anywhere_in_a_cycle_is_found() {
    for entry in 0..3 {
        for exit in 0..3 {
            let mut engine = TypeCheckerCore::new();
            let vars = [engine.var(), engine.var(), engine.var()];
            assert_eq!(engine.flow(vars[0].0, vars[1].1), Ok(()));
            assert_eq!(engine.flow(vars[1].0, vars[2].1), Ok(()));
            assert_eq!(engine.flow(vars[2].0, vars[0].1), Ok(()));
            let b = engine.bool();
            let iu = engine.integer_use();
            assert_eq!(engine.flow(b, vars[entry].1), Ok(()));
            assert_eq!(
                engine.flow(vars[exit].0, iu),
                mismatch(TypeKind::Integer, TypeKind::Bool)
            );
        }
    }
}

#[test]
fn variable_flowing_into_itself_ends() {
    let mut engine = TypeCheckerCore::new();
    let (v, u) = engine.var();
    assert_eq!(engine.flow(v, u), Ok(()));
    assert_eq!(engine.flow(v, u), Ok(()));
    let b = engine.bool();
    let bu = engine.bool_use();
    assert_eq!(engine.flow(b, u), Ok(()));
    assert_eq!(engine.flow(v, bu), Ok(()));
}

#[test]
fn recursive_function_type_checks() {
    // f = fn(f) -> Integer, called with itself: the variable is call target and argument
    let mut engine = TypeCheckerCore::new();
    let (f, f_bound) = engine.var();
    let (r, r_bound) = engine.var();
    let call = engine.func_use(vec![f], r_bound);
    assert_eq!(engine.flow(f, call), Ok(()));
    let (p, p_bound) = engine.var();
    let i = engine.integer();
    let def = engine.func(vec![p_bound], i);
    assert_eq!(engine.flow(def, f_bound), Ok(()));
    let iu = engine.integer_use();
    assert_eq!(engine.flow(r, iu), Ok(()));
    // the parameter holds the function itself: it is no bool
    let bu = engine.bool_use();
    assert_eq!(engine.flow(p, bu), mismatch(TypeKind::Bool, TypeKind::Function));
}

#[test]
fn recursive_function_type_with_a_mismatch_fails() {
    let mut engine = TypeCheckerCore::new();
    let (f, f_bound) = engine.var();
    let (_, r_bound) = engine.var();
    let call = engine.func_use(vec![f], r_bound);
    assert_eq!(engine.flow(f, call), Ok(()));
    // a definition that requires an integer where it is handed itself
    let iu = engine.integer_use();
    let i = engine.integer();
    let def = engine.func(vec![iu], i);
    assert_eq!(engine.flow(def, f_bound), mismatch(TypeKind::Integer, TypeKind::Function));
}

#[test]
fn flow_twice_is_flow_once() {
    let mut engine = TypeCheckerCore::new();
    let (v, u) = engine.var();
    let i = engine.integer();
    let iu = engine.integer_use();
    assert_eq!(engine.flow(i, u), Ok(()));
    assert_eq!(engine.flow(i, u), Ok(()));
    assert_eq!(engine.flow(v, iu), Ok(()));
    assert_eq!(engine.flow(v, iu), Ok(()));
    let bu = engine.bool_use();
    assert_eq!(engine.flow(i, bu), mismatch(TypeKind::Bool, TypeKind::Integer));
    assert_eq!(engine.flow(i, bu), mismatch(TypeKind::Bool, TypeKind::Integer));
}

#[test]
fn flow_of_functions_twice_is_flow_once() {
    let mut engine = TypeCheckerCore::new();
    let (x, x_bound) = engine.var();
    let f = engine.func(vec![x_bound], x);
    let i = engine.integer();
    let (r, r_bound) = engine.var();
    let call = engine.func_use(vec![i], r_bound);
    for _ in 0..100 {
        assert_eq!(engine.flow(f, call), Ok(()));
    }
    let iu = engine.integer_use();
    assert_eq!(engine.flow(r, iu), Ok(()));
    let bu = engine.bool_use();
    assert_eq!(engine.flow(r, bu), mismatch(TypeKind::Bool, TypeKind::Integer));
}

#[test]
fn failed_flow_fails_again_with_the_same_conflict() {
    let mut engine = TypeCheckerCore::new();
    let (v, u) = engine.var();
    let i = engine.integer();
    assert_eq!(engine.flow(i, u), Ok(()));
    let bu = engine.bool_use();
    assert_eq!(engine.flow(v, bu), mismatch(TypeKind::Bool, TypeKind::Integer));
    assert_eq!(engine.flow(v, bu), mismatch(TypeKind::Bool, TypeKind::Integer));
    assert_eq!(engine.flow(v, bu), mismatch(TypeKind::Bool, TypeKind::Integer));
}

#[test]
fn failed_flow_of_functions_fails_again_with_the_same_conflict() {
    // the first argument records a bound before the second one meets the
    // conflict; made again, the flow meets the same conflict and no other
    let mut engine = TypeCheckerCore::new();
    let (x, into_x) = engine.var();
    let bu = engine.bool_use();
    assert_eq!(engine.flow(x, bu), Ok(()));
    let i = engine.integer();
    let nu = engine.unit_use();
    let f = engine.func(vec![nu, into_x], i);
    let (_, r) = engine.var();
    let call = engine.func_use(vec![x, i], r);
    for _ in 0..3 {
        assert_eq!(engine.flow(f, call), mismatch(TypeKind::Bool, TypeKind::Integer));
    }
}

#[test]
fn failed_flow_takes_back_what_it_recorded() {
    // an integer has flowed into the variable; that the variable be a unit
    // fails, and is not held against what flows into the variable later
    let mut engine = TypeCheckerCore::new();
    let (v, u) = engine.var();
    let i = engine.integer();
    assert_eq!(engine.flow(i, u), Ok(()));
    let nu = engine.unit_use();
    assert_eq!(engine.flow(v, nu), mismatch(TypeKind::Unit, TypeKind::Integer));
    let b = engine.bool();
    assert_eq!(engine.flow(b, u), Ok(()));
    let iu = engine.integer_use();
    assert_eq!(engine.flow(v, iu), mismatch(TypeKind::Integer, TypeKind::Bool));
}

#[test]
fn mismatch_of_concrete_types_changes_nothing() {
    let mut engine = TypeCheckerCore::new();
    let b = engine.bool();
    let iu = engine.integer_use();
    let bu = engine.bool_use();
    for _ in 0..3 {
        assert_eq!(engine.flow(b, iu), mismatch(TypeKind::Integer, TypeKind::Bool));
    }
    assert_eq!(engine.flow(b, bu), Ok(()));
}
