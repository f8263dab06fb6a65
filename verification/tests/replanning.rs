//! The re-plan protocol: priority non-regression, idempotent re-plans,
//! plan-only effects at run time, effect stacking, and recovery from
//! operator failure.

use bae::condition::Condition;
use bae::effect::Effect;
use bae::engine::Planner;
use bae::props::PropertyStore;
use bae::task::{OperatorStatus, TaskTree};
use bae::value::Value;

fn s(x: &str) -> String {
    x.to_string()
}

fn planned_ops(p: &Planner) -> Vec<u64> {
    p.plan().operators_left.iter().map(|n| n.entity).collect()
}

/// Runs the head operator, which reports the given status.
fn run_head(p: &mut Planner, status: OperatorStatus) -> Option<u64> {
    match p.execute_start().expect("conditions are well-typed here") {
        Some(input) => {
            p.execute_finish(status).expect("effects are well-typed here");
            Some(input.operator)
        },
        None => None,
    }
}

/// Once a select has committed to a branch, a re-plan may not fall
/// further down the select while that plan is still running: the
/// lower-priority alternative is rejected and the running plan keeps
/// its progress.
#[test]
fn priority_keeps_running_branch() {
    let mut t = TaskTree::new();
    let a1 = t.operator(1);
    t.add_condition(a1, Condition::eq(s("flag"), Value::Bool(true)));
    let a2 = t.operator(2);
    let branch = t.sequence(vec![a1, a2]);
    let b = t.operator(3);
    t.select(vec![branch, b]);
    let mut p = Planner::new(0, t, PropertyStore::new());
    p.set_prop(&s("flag"), Value::Bool(true));
    p.update_plan().expect("planning is well-typed here");
    assert_eq!(planned_ops(&p), vec![1, 2]);

    // run the first step; the plan is mid-flight
    assert_eq!(run_head(&mut p, OperatorStatus::Success), Some(1));
    assert_eq!(planned_ops(&p), vec![2]);

    // the world changes so that only the later, lower-priority branch
    // could be planned now; the running plan must not be replaced
    p.set_prop(&s("flag"), Value::Bool(false));
    let replaced = p.update_plan().expect("planning is well-typed here");
    assert!(replaced.is_none());
    assert_eq!(planned_ops(&p), vec![2]);

    // the running plan finishes undisturbed
    assert_eq!(run_head(&mut p, OperatorStatus::Success), Some(2));

    // once it has emptied, the next re-plan may take the other branch
    p.update_empty_plan().expect("planning is well-typed here");
    assert_eq!(planned_ops(&p), vec![3]);
}

/// Re-planning with an unchanged world state and tree finds the same
/// plan and keeps the running one, front of queue and all.
#[test]
fn replan_unchanged_keeps_progress() {
    let mut t = TaskTree::new();
    let a = t.operator(1);
    t.add_condition(a, Condition::always_false());
    let b = t.operator(2);
    let c = t.operator(3);
    let branch = t.sequence(vec![b, c]);
    t.select(vec![a, branch]);
    let mut p = Planner::new(0, t, PropertyStore::new());
    p.update_plan().expect("planning is well-typed here");
    assert_eq!(planned_ops(&p), vec![2, 3]);

    // an immediate re-plan changes nothing and announces nothing
    assert!(p.update_plan().expect("planning is well-typed here").is_none());
    assert_eq!(planned_ops(&p), vec![2, 3]);

    // half-way through, a re-plan still recognises its own plan
    assert_eq!(run_head(&mut p, OperatorStatus::Success), Some(2));
    assert!(p.update_plan().expect("planning is well-typed here").is_none());
    assert_eq!(planned_ops(&p), vec![3]);
}

/// An effect flagged plan-only influences planning but never reaches
/// the live store when the operator completes.
#[test]
fn plan_only_effect_invisible_at_runtime() {
    let mut t = TaskTree::new();
    let a = t.operator(1);
    t.add_effect(a, Effect::set(s("ghostly"), Value::Bool(true)).plan_only());
    t.add_effect(a, Effect::set(s("real"), Value::Bool(true)));
    t.sequence(vec![a]);
    let mut p = Planner::new(0, t, PropertyStore::new());
    p.update_plan().expect("planning is well-typed here");
    assert_eq!(run_head(&mut p, OperatorStatus::Success), Some(1));
    assert!(p.get_prop(&s("ghostly")).is_none());
    assert!(p.get_prop(&s("real")).unwrap().eq_value(&Value::Bool(true)));
}

/// Effects are applied in attachment order, step by step: later writes
/// win, untouched keys keep their values.
#[test]
fn effect_stacking_order() {
    let mut t = TaskTree::new();
    let a = t.operator(1);
    t.add_effect(a, Effect::set(s("x"), Value::Num(1)));
    t.add_effect(a, Effect::set(s("y"), Value::Num(1)));
    let b = t.operator(2);
    t.add_effect(b, Effect::set(s("x"), Value::Num(2)));
    t.sequence(vec![a, b]);
    let mut p = Planner::new(0, t, PropertyStore::new());
    p.update_plan().expect("planning is well-typed here");
    assert_eq!(run_head(&mut p, OperatorStatus::Success), Some(1));
    assert_eq!(run_head(&mut p, OperatorStatus::Success), Some(2));
    assert!(p.get_prop(&s("x")).unwrap().eq_value(&Value::Num(2)));
    assert!(p.get_prop(&s("y")).unwrap().eq_value(&Value::Num(1)));
}

/// One effect can also stack on another within a single step.
#[test]
fn effect_stacking_within_step() {
    let mut t = TaskTree::new();
    let a = t.operator(1);
    t.add_effect(a, Effect::set(s("n"), Value::Num(3)));
    t.add_effect(a, Effect::inc(s("n"), 4));
    t.sequence(vec![a]);
    let mut p = Planner::new(0, t, PropertyStore::new());
    p.update_plan().expect("planning is well-typed here");
    assert_eq!(run_head(&mut p, OperatorStatus::Success), Some(1));
    assert!(p.get_prop(&s("n")).unwrap().eq_value(&Value::Num(7)));
}

/// A failing operator discards the whole remaining plan, and the very
/// next tick decomposes afresh.
#[test]
fn failed_operator_replans() {
    let mut t = TaskTree::new();
    let a = t.operator(1);
    let b = t.operator(2);
    t.sequence(vec![a, b]);
    let mut p = Planner::new(0, t, PropertyStore::new());
    p.update_plan().expect("planning is well-typed here");
    assert_eq!(planned_ops(&p), vec![1, 2]);

    assert_eq!(run_head(&mut p, OperatorStatus::Failure), Some(1));
    assert_eq!(planned_ops(&p), Vec::<u64>::new());

    // the very next tick re-plans and starts over
    let replaced = p.update_empty_plan().expect("planning is well-typed here");
    assert!(replaced.is_some());
    assert_eq!(planned_ops(&p), vec![1, 2]);
    assert_eq!(run_head(&mut p, OperatorStatus::Success), Some(1));
}

/// An ongoing operator freezes the plan: nothing is popped, nothing
/// re-planned, and the same operator is offered again next tick.
#[test]
fn ongoing_operator_keeps_step() {
    let mut t = TaskTree::new();
    let a = t.operator(1);
    let b = t.operator(2);
    t.sequence(vec![a, b]);
    let mut p = Planner::new(0, t, PropertyStore::new());
    p.update_plan().expect("planning is well-typed here");
    assert_eq!(run_head(&mut p, OperatorStatus::Ongoing), Some(1));
    assert_eq!(planned_ops(&p), vec![1, 2]);
    assert_eq!(run_head(&mut p, OperatorStatus::Ongoing), Some(1));
    assert_eq!(run_head(&mut p, OperatorStatus::Success), Some(1));
    assert_eq!(planned_ops(&p), vec![2]);
}

/// Replacing a plan hands the previous one back for diagnostics.
#[test]
fn replace_notification_carries_old_plan() {
    let mut t = TaskTree::new();
    let a = t.operator(1);
    t.add_condition(a, Condition::eq(s("go"), Value::Bool(true)));
    let b = t.operator(2);
    t.select(vec![a, b]);
    let mut p = Planner::new(5, t, PropertyStore::new());
    let first = p.update_plan().expect("planning is well-typed here").expect("first plan installed");
    assert_eq!(first.entity, 5);
    assert_eq!(first.old.operators_left.len(), 0);
    assert_eq!(planned_ops(&p), vec![2]);

    // the preferred branch opens up: the higher-priority plan replaces
    // the running one wholesale, and the old plan comes back
    p.set_prop(&s("go"), Value::Bool(true));
    let second = p.update_plan().expect("planning is well-typed here").expect("plan replaced");
    assert_eq!(second.old.operators_left.len(), 1);
    assert_eq!(second.old.operators_left[0].entity, 2);
    assert_eq!(planned_ops(&p), vec![1]);
}

/// Clearing a plan forgets its priority record, so the next re-plan may
/// pick any branch again.
#[test]
fn cleared_plan_forgets_priority() {
    let mut t = TaskTree::new();
    let a = t.operator(1);
    t.add_condition(a, Condition::eq(s("broken"), Value::Bool(false)));
    let b = t.operator(2);
    t.select(vec![a, b]);
    let mut p = Planner::new(0, t, PropertyStore::new());
    p.update_plan().expect("planning is well-typed here");
    assert_eq!(planned_ops(&p), vec![1]);

    // the head fails at run time: the plan empties
    assert_eq!(run_head(&mut p, OperatorStatus::Failure), Some(1));
    // with the record gone, the re-plan may fall to the second branch
    p.set_prop(&s("broken"), Value::Bool(true));
    p.update_empty_plan().expect("planning is well-typed here");
    assert_eq!(planned_ops(&p), vec![2]);
}

/// The root's own conditions gate planning: unmet, they install an
/// empty plan without announcing a replacement.
#[test]
fn root_condition_gates_planning() {
    let mut t = TaskTree::new();
    let a = t.operator(1);
    let root = t.sequence(vec![a]);
    t.add_condition(root, Condition::eq(s("awake"), Value::Bool(true)));
    let mut p = Planner::new(0, t, PropertyStore::new());
    assert!(p.update_plan().expect("planning is well-typed here").is_none());
    assert_eq!(planned_ops(&p), Vec::<u64>::new());

    p.set_prop(&s("awake"), Value::Bool(true));
    assert!(p.update_plan().expect("planning is well-typed here").is_some());
    assert_eq!(planned_ops(&p), vec![1]);
}
