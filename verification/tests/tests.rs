//! Plans of named roots: the same decompositions driven through the
//! re-plan request.

use bae::condition::Condition;
use bae::engine::{Planner, UpdatePlan};
use bae::props::PropertyStore;
use bae::task::TaskTree;

fn planned_ops(p: &Planner) -> Vec<u64> {
    p.plan().operators_left.iter().map(|n| n.entity).collect()
}

fn assert_plan(tree: TaskTree, expected: Vec<u64>) {
    let mut p = Planner::new(7, tree, PropertyStore::new());
    p.handle_update(&UpdatePlan::new(7)).expect("planning is well-typed here");
    assert_eq!(planned_ops(&p), expected);
}

#[test]
fn tests_behavior_operator() {
    let mut t = TaskTree::new();
    t.operator(1);
    assert_plan(t, vec![1]);
}

#[test]
fn tests_sequence_single() {
    let mut t = TaskTree::new();
    let a = t.operator(1);
    t.sequence(vec![a]);
    assert_plan(t, vec![1]);
}

#[test]
fn tests_sequence_multi() {
    let mut t = TaskTree::new();
    let a = t.operator(1);
    let b = t.operator(2);
    t.sequence(vec![a, b]);
    assert_plan(t, vec![1, 2]);
}

#[test]
fn tests_sequence_nested_1() {
    let mut t = TaskTree::new();
    let a = t.operator(1);
    let b = t.operator(2);
    let inner = t.sequence(vec![a, b]);
    let c = t.operator(3);
    t.sequence(vec![inner, c]);
    assert_plan(t, vec![1, 2, 3]);
}

#[test]
fn tests_sequence_nested_2() {
    let mut t = TaskTree::new();
    let a = t.operator(1);
    let b = t.operator(2);
    let c = t.operator(3);
    let inner = t.sequence(vec![b, c]);
    t.sequence(vec![a, inner]);
    assert_plan(t, vec![1, 2, 3]);
}

#[test]
fn tests_sequence_nested_3() {
    let mut t = TaskTree::new();
    let a = t.operator(1);
    let b = t.operator(2);
    let left = t.sequence(vec![a, b]);
    let c = t.operator(3);
    let d = t.operator(4);
    let right = t.sequence(vec![c, d]);
    t.sequence(vec![left, right]);
    assert_plan(t, vec![1, 2, 3, 4]);
}

#[test]
fn tests_select_single() {
    let mut t = TaskTree::new();
    let a = t.operator(1);
    t.select(vec![a]);
    assert_plan(t, vec![1]);
}

#[test]
fn tests_select_first() {
    let mut t = TaskTree::new();
    let a = t.operator(1);
    let b = t.operator(2);
    t.select(vec![a, b]);
    assert_plan(t, vec![1]);
}

#[test]
fn tests_select_first_conditional() {
    let mut t = TaskTree::new();
    let a = t.operator(1);
    t.add_condition(a, Condition::always_true());
    let b = t.operator(2);
    t.select(vec![a, b]);
    assert_plan(t, vec![1]);
}

#[test]
fn tests_select_second() {
    let mut t = TaskTree::new();
    let a = t.operator(1);
    t.add_condition(a, Condition::always_false());
    let b = t.operator(2);
    t.select(vec![a, b]);
    assert_plan(t, vec![2]);
}

#[test]
fn tests_select_second_conditional() {
    let mut t = TaskTree::new();
    let a = t.operator(1);
    t.add_condition(a, Condition::always_false());
    let b = t.operator(2);
    t.add_condition(b, Condition::always_true());
    t.select(vec![a, b]);
    assert_plan(t, vec![2]);
}
