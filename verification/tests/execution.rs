//! Tick-by-tick execution: running operators, aborting on unmet
//! conditions, and re-planning.

use bae::condition::Condition;
use bae::effect::Effect;
use bae::engine::Planner;
use bae::props::PropertyStore;
use bae::task::{OperatorStatus, TaskTree};
use bae::value::Value;

fn s(x: &str) -> String {
    x.to_string()
}

/// Builds the planner and computes the first plan, as attaching a tree
/// does; nothing has run yet.
fn test_app(tree: TaskTree) -> Planner {
    let mut p = Planner::new(0, tree, PropertyStore::new());
    p.update_plan().expect("planning is well-typed here");
    p
}

/// One tick: re-plan an empty plan, then run the head operator — every
/// operator here reports `Success` — returning which one ran.
fn tick(p: &mut Planner, names: &[(u64, &'static str)]) -> Option<&'static str> {
    p.update_empty_plan().expect("planning is well-typed here");
    match p.execute_start().expect("conditions are well-typed here") {
        Some(input) => {
            let name = names
                .iter()
                .find(|(id, _)| *id == input.operator)
                .expect("unknown operator")
                .1;
            p.execute_finish(OperatorStatus::Success).expect("effects are well-typed here");
            Some(name)
        },
        None => None,
    }
}

#[test]
fn runs_plan() {
    let names = [(1, "a")];
    let mut t = TaskTree::new();
    t.operator(1);
    let mut p = test_app(t);
    assert_eq!(tick(&mut p, &names), Some("a"));
}

#[test]
fn runs_plan_with_condition() {
    let names = [(1, "a"), (2, "b")];
    let mut t = TaskTree::new();
    let a = t.operator(1);
    t.add_condition(a, Condition::eq(s("use_a"), Value::Bool(true)));
    let b = t.operator(2);
    t.select(vec![a, b]);
    let mut p = test_app(t);
    assert_eq!(tick(&mut p, &names), Some("b"));
}

#[test]
fn skips_plan_only_effect() {
    let names = [(1, "a"), (2, "b")];
    let mut t = TaskTree::new();
    let a = t.operator(1);
    t.add_effect(a, Effect::set(s("use_b"), Value::Bool(true)).plan_only());
    let b = t.operator(2);
    t.add_condition(b, Condition::eq(s("use_b"), Value::Bool(true)));
    t.sequence(vec![a, b]);
    let mut p = test_app(t);
    // plan
    assert_eq!(tick(&mut p, &names), Some("a"));
    // try to run b, but use_b was never actually set, so abort the plan
    assert_eq!(tick(&mut p, &names), None);
    // replan the same plan
    assert_eq!(tick(&mut p, &names), Some("a"));
}

#[test]
fn runs_plan_then_replans_with_new_effects() {
    let names = [(1, "a"), (2, "b")];
    let mut t = TaskTree::new();
    let a = t.operator(1);
    t.add_condition(a, Condition::eq(s("use_b"), Value::Bool(false)));
    t.add_effect(a, Effect::set(s("use_b"), Value::Bool(true)));
    let b = t.operator(2);
    t.select(vec![a, b]);
    let mut p = test_app(t);
    // plan
    assert_eq!(tick(&mut p, &names), Some("a"));
    // replan
    assert_eq!(tick(&mut p, &names), Some("b"));
    // replan to the same plan
    assert_eq!(tick(&mut p, &names), Some("b"));
}

#[test]
fn replans_on_invalid_conditions() {
    let names = [(1, "a"), (2, "b"), (3, "c")];
    let mut t = TaskTree::new();
    let a = t.operator(1);
    let b = t.operator(2);
    t.add_condition(b, Condition::eq(s("disabled"), Value::Bool(false)));
    let left = t.sequence(vec![a, b]);
    let c = t.operator(3);
    t.select(vec![left, c]);
    let mut p = test_app(t);
    // plan
    assert_eq!(tick(&mut p, &names), Some("a"));
    p.set_prop(&s("disabled"), Value::Bool(true));
    // abort plan
    assert_eq!(tick(&mut p, &names), None);
    // replan
    assert_eq!(tick(&mut p, &names), Some("c"));
}

#[test]
fn ignores_disabled_behavior() {
    let names = [(1, "a"), (2, "b")];
    let mut t = TaskTree::new();
    let a = t.operator(1);
    t.add_condition(a, Condition::eq(s("use_b"), Value::Bool(false)));
    t.add_effect(a, Effect::set(s("use_b"), Value::Bool(true)));
    let b = t.operator(2);
    t.select(vec![a, b]);
    let mut p = test_app(t);
    // plan
    assert_eq!(tick(&mut p, &names), Some("a"));
    // while the behavior is disabled the host does not tick it, so no
    // operator runs and the planner is left exactly as it is
    // enable the behavior again and replan
    assert_eq!(tick(&mut p, &names), Some("b"));
}
