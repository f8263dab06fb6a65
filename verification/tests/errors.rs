//! Configuration errors are surfaced, never masked: an ill-typed
//! comparison or mutation aborts planning or execution with an error
//! and leaves the planner exactly as it was.

use bae::condition::Condition;
use bae::effect::Effect;
use bae::engine::Planner;
use bae::props::PropertyStore;
use bae::task::{OperatorStatus, TaskTree};
use bae::value::Value;

fn s(x: &str) -> String {
    x.to_string()
}

fn planned_ops(p: &Planner) -> Vec<u64> {
    p.plan().operators_left.iter().map(|n| n.entity).collect()
}

/// A select must not plan around a misconfigured branch: a numeric
/// comparison on a key that holds a string aborts the whole re-plan
/// with an error, instead of silently skipping to the next branch.
#[test]
fn ill_typed_condition_aborts_planning() {
    let mut t = TaskTree::new();
    let a = t.operator(1);
    t.add_condition(a, Condition::gt(s("name"), 5));
    let b = t.operator(2);
    t.select(vec![a, b]);
    let mut p = Planner::new(0, t, PropertyStore::new());
    p.set_prop(&s("name"), Value::Str(s("rex")));
    assert!(p.update_plan().is_err());
    // nothing was installed, and nothing ran around the error
    assert_eq!(planned_ops(&p), Vec::<u64>::new());
    assert!(p.update_empty_plan().is_err());
}

/// A cross-variant equality met during planning is an error too, and a
/// running plan is left untouched by the failed re-plan.
#[test]
fn ill_typed_planning_keeps_running_plan() {
    let mut t = TaskTree::new();
    let a = t.operator(1);
    t.add_condition(a, Condition::eq(s("mode"), Value::Str(s("go"))));
    t.sequence(vec![a]);
    let mut p = Planner::new(0, t, PropertyStore::new());
    p.set_prop(&s("mode"), Value::Str(s("go")));
    p.update_plan().expect("planning is well-typed here");
    assert_eq!(planned_ops(&p), vec![1]);

    // the key changes variant: re-planning now errs, and the installed
    // plan stays exactly as it was
    p.set_prop(&s("mode"), Value::Num(1));
    assert!(p.update_plan().is_err());
    assert_eq!(planned_ops(&p), vec![1]);
}

/// An ill-typed head condition at run time is surfaced before the
/// operator runs, with the plan left in place — not treated as a mere
/// unmet condition.
#[test]
fn ill_typed_condition_aborts_execution() {
    let mut t = TaskTree::new();
    let a = t.operator(1);
    t.add_condition(a, Condition::eq(s("mode"), Value::Str(s("go"))));
    t.sequence(vec![a]);
    let mut p = Planner::new(0, t, PropertyStore::new());
    p.set_prop(&s("mode"), Value::Str(s("go")));
    p.update_plan().expect("planning is well-typed here");
    assert_eq!(planned_ops(&p), vec![1]);

    p.set_prop(&s("mode"), Value::Num(1));
    assert!(p.execute_start().is_err());
    assert_eq!(planned_ops(&p), vec![1]);
}

/// An ill-typed effect of a completed operator is surfaced, with the
/// plan and the live store untouched — the store is never left
/// half-written.
#[test]
fn ill_typed_effect_aborts_execution() {
    let mut t = TaskTree::new();
    let a = t.operator(1);
    t.add_effect(a, Effect::set(s("first"), Value::Bool(true)));
    t.add_effect(a, Effect::toggle(s("flag")));
    t.sequence(vec![a]);
    let mut p = Planner::new(0, t, PropertyStore::new());
    p.set_prop(&s("flag"), Value::Bool(false));
    p.update_plan().expect("planning is well-typed here");
    assert_eq!(planned_ops(&p), vec![1]);

    // the toggled key changes variant before the operator completes
    p.set_prop(&s("flag"), Value::Num(1));
    let started = p.execute_start().expect("conditions are well-typed here");
    assert!(started.is_some());
    assert!(p.execute_finish(OperatorStatus::Success).is_err());
    // neither the step nor any prefix of its effects reached the store
    assert_eq!(planned_ops(&p), vec![1]);
    assert!(p.get_prop(&s("first")).is_none());
    assert!(p.get_prop(&s("flag")).unwrap().eq_value(&Value::Num(1)));
}

/// An ill-typed effect already errs while decomposition simulates it,
/// so a misconfigured plan is never installed at all.
#[test]
fn ill_typed_effect_aborts_planning() {
    let mut t = TaskTree::new();
    let a = t.operator(1);
    t.add_effect(a, Effect::inc(s("label"), 1));
    let b = t.operator(2);
    t.sequence(vec![a, b]);
    let mut p = Planner::new(0, t, PropertyStore::new());
    p.set_prop(&s("label"), Value::Str(s("seven")));
    assert!(p.update_plan().is_err());
    assert_eq!(planned_ops(&p), Vec::<u64>::new());
}
