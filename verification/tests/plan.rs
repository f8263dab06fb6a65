//! Plans produced by decomposing task trees of operators, sequences and
//! selects, with conditions and effects.

use bae::condition::Condition;
use bae::effect::Effect;
use bae::engine::Planner;
use bae::props::PropertyStore;
use bae::task::TaskTree;
use bae::value::Value;

fn s(x: &str) -> String {
    x.to_string()
}

fn planner(tree: TaskTree) -> Planner {
    let mut p = Planner::new(0, tree, PropertyStore::new());
    p.update_plan().expect("planning is well-typed here");
    p
}

fn planned_ops(p: &Planner) -> Vec<u64> {
    p.plan().operators_left.iter().map(|n| n.entity).collect()
}

fn assert_plan(tree: TaskTree, expected: Vec<u64>) {
    let p = planner(tree);
    assert_eq!(planned_ops(&p), expected);
}

#[test]
fn plan_behavior_operator() {
    let mut t = TaskTree::new();
    t.operator(1);
    assert_plan(t, vec![1]);
}

#[test]
fn plan_sequence_single() {
    let mut t = TaskTree::new();
    let a = t.operator(1);
    t.sequence(vec![a]);
    assert_plan(t, vec![1]);
}

#[test]
fn sequence_single_fail() {
    let mut t = TaskTree::new();
    let a = t.operator(1);
    t.add_condition(a, Condition::always_false());
    t.sequence(vec![a]);
    assert_plan(t, vec![]);
}

#[test]
fn plan_sequence_multi() {
    let mut t = TaskTree::new();
    let a = t.operator(1);
    let b = t.operator(2);
    t.sequence(vec![a, b]);
    assert_plan(t, vec![1, 2]);
}

#[test]
fn sequence_multi_fail() {
    let mut t = TaskTree::new();
    let a = t.operator(1);
    let b = t.operator(2);
    t.add_condition(b, Condition::always_false());
    t.sequence(vec![a, b]);
    assert_plan(t, vec![]);
}

#[test]
fn sequence_empty() {
    let mut t = TaskTree::new();
    t.sequence(vec![]);
    assert_plan(t, vec![]);
}

#[test]
fn plan_sequence_nested_1() {
    let mut t = TaskTree::new();
    let a = t.operator(1);
    let b = t.operator(2);
    let inner = t.sequence(vec![a, b]);
    let c = t.operator(3);
    t.sequence(vec![inner, c]);
    assert_plan(t, vec![1, 2, 3]);
}

#[test]
fn plan_sequence_nested_2() {
    let mut t = TaskTree::new();
    let a = t.operator(1);
    let b = t.operator(2);
    let c = t.operator(3);
    let inner = t.sequence(vec![b, c]);
    t.sequence(vec![a, inner]);
    assert_plan(t, vec![1, 2, 3]);
}

#[test]
fn plan_sequence_nested_3() {
    let mut t = TaskTree::new();
    let a = t.operator(1);
    let b = t.operator(2);
    let left = t.sequence(vec![a, b]);
    let c = t.operator(3);
    let d = t.operator(4);
    let right = t.sequence(vec![c, d]);
    t.sequence(vec![left, right]);
    assert_plan(t, vec![1, 2, 3, 4]);
}

#[test]
fn sequence_nested_fail() {
    let mut t = TaskTree::new();
    let a = t.operator(1);
    let b = t.operator(2);
    t.add_condition(b, Condition::always_false());
    let left = t.sequence(vec![a, b]);
    let c = t.operator(3);
    let d = t.operator(4);
    let right = t.sequence(vec![c, d]);
    t.sequence(vec![left, right]);
    assert_plan(t, vec![]);
}

#[test]
fn sequence_disabled_by_effects() {
    let mut t = TaskTree::new();
    let a = t.operator(1);
    t.add_effect(a, Effect::set(s("disabled"), Value::Bool(true)));
    let b = t.operator(2);
    t.add_condition(b, Condition::eq(s("disabled"), Value::Bool(false)));
    t.sequence(vec![a, b]);
    assert_plan(t, vec![]);
}

#[test]
fn sequence_enabled_by_effects() {
    let mut t = TaskTree::new();
    let a = t.operator(1);
    t.add_effect(a, Effect::set(s("enabled"), Value::Bool(true)));
    let b = t.operator(2);
    t.add_condition(b, Condition::eq(s("enabled"), Value::Bool(true)));
    t.sequence(vec![a, b]);
    assert_plan(t, vec![1, 2]);
}

#[test]
fn plan_select_single() {
    let mut t = TaskTree::new();
    let a = t.operator(1);
    t.select(vec![a]);
    assert_plan(t, vec![1]);
}

#[test]
fn plan_select_first() {
    let mut t = TaskTree::new();
    let a = t.operator(1);
    let b = t.operator(2);
    t.select(vec![a, b]);
    assert_plan(t, vec![1]);
}

#[test]
fn select_empty() {
    let mut t = TaskTree::new();
    t.select(vec![]);
    assert_plan(t, vec![]);
}

#[test]
fn plan_select_first_conditional() {
    let mut t = TaskTree::new();
    let a = t.operator(1);
    t.add_condition(a, Condition::always_true());
    let b = t.operator(2);
    t.select(vec![a, b]);
    assert_plan(t, vec![1]);
}

#[test]
fn plan_select_second() {
    let mut t = TaskTree::new();
    let a = t.operator(1);
    t.add_condition(a, Condition::always_false());
    let b = t.operator(2);
    t.select(vec![a, b]);
    assert_plan(t, vec![2]);
}

#[test]
fn plan_select_second_conditional() {
    let mut t = TaskTree::new();
    let a = t.operator(1);
    t.add_condition(a, Condition::always_false());
    let b = t.operator(2);
    t.add_condition(b, Condition::always_true());
    t.select(vec![a, b]);
    assert_plan(t, vec![2]);
}

#[test]
fn select_nested() {
    let mut t = TaskTree::new();
    let a = t.operator(1);
    t.add_condition(a, Condition::always_false());
    let b = t.operator(2);
    t.add_condition(b, Condition::always_false());
    let c = t.operator(3);
    let inner = t.select(vec![b, c]);
    t.select(vec![a, inner]);
    assert_plan(t, vec![3]);
}

#[test]
fn sequence_and_select() {
    let mut t = TaskTree::new();
    let a = t.operator(1);
    let b = t.operator(2);
    t.add_condition(b, Condition::always_false());
    let left = t.sequence(vec![a, b]);
    let c = t.operator(3);
    t.add_condition(c, Condition::always_false());
    let d = t.operator(4);
    let e = t.operator(5);
    let de = t.sequence(vec![d, e]);
    let inner = t.select(vec![c, de]);
    t.select(vec![left, inner]);
    assert_plan(t, vec![4, 5]);
}

#[test]
fn effect_not_disabled_by_invalid_branch() {
    let mut t = TaskTree::new();
    let a = t.operator(1);
    t.add_effect(a, Effect::set(s("disabled"), Value::Bool(true)));
    let b = t.operator(2);
    t.add_condition(b, Condition::always_false());
    let left = t.sequence(vec![a, b]);
    let c = t.operator(3);
    t.add_condition(c, Condition::always_false());
    let d = t.operator(4);
    t.add_condition(d, Condition::eq(s("disabled"), Value::Bool(false)));
    let e = t.operator(5);
    let de = t.sequence(vec![d, e]);
    let inner = t.select(vec![c, de]);
    t.select(vec![left, inner]);
    assert_plan(t, vec![4, 5]);
}
