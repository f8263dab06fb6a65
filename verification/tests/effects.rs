//! The effects each plan step carries after decomposition.

use bae::condition::Condition;
use bae::effect::Effect;
use bae::engine::Planner;
use bae::props::PropertyStore;
use bae::task::TaskTree;
use bae::value::Value;

fn s(x: &str) -> String {
    x.to_string()
}

fn planner(tree: TaskTree) -> Planner {
    let mut p = Planner::new(0, tree, PropertyStore::new());
    p.update_plan().expect("planning is well-typed here");
    p
}

/// Checks that each planned step carries effects that write exactly the
/// expected properties, in order.
fn assert_effects(tree: TaskTree, expected: Vec<Vec<(&str, Value)>>) {
    let p = planner(tree);
    let steps = &p.plan().operators_left;
    assert_eq!(
        steps.len(),
        expected.len(),
        "wrong number of steps: {:?}",
        steps.iter().map(|n| n.entity).collect::<Vec<_>>()
    );
    for (i, step_expected) in expected.iter().enumerate() {
        let effects = &steps[i].effects;
        assert_eq!(effects.len(), step_expected.len(), "step {}", i);
        for (j, (name, value)) in step_expected.iter().enumerate() {
            let mut store = PropertyStore::new();
            effects[j].try_apply(&mut store).expect("effect is well-typed here");
            let got = store.get(&s(name)).expect("effect wrote another key");
            assert!(got.is_same_variant(value) && got.eq_value(value), "step {} effect {}", i, j);
        }
    }
}

#[test]
fn behavior_operator_has_no_effects() {
    let mut t = TaskTree::new();
    t.operator(1);
    assert_effects(t, vec![vec![]]);
}

#[test]
fn behavior_operator_applies_effects() {
    let mut t = TaskTree::new();
    let a = t.operator(1);
    t.add_effect(a, Effect::set(s("foo"), Value::Bool(true)));
    assert_effects(t, vec![vec![("foo", Value::Bool(true))]]);
}

#[test]
fn empty_plan_has_no_effects() {
    let mut t = TaskTree::new();
    let a = t.operator(1);
    t.add_condition(a, Condition::always_false());
    t.add_effect(a, Effect::set(s("foo"), Value::Bool(true)));
    assert_effects(t, vec![]);
}

#[test]
fn empty_plan_from_sequence_has_no_effects() {
    let mut t = TaskTree::new();
    t.sequence(vec![]);
    assert_effects(t, vec![]);
}

#[test]
fn sequence_effects() {
    let mut t = TaskTree::new();
    let a = t.operator(1);
    t.add_effect(a, Effect::set(s("foo"), Value::Bool(true)));
    let b = t.operator(2);
    t.add_effect(b, Effect::set(s("bar"), Value::Bool(true)));
    let c = t.operator(3);
    t.add_effect(c, Effect::set(s("baz"), Value::Bool(true)));
    t.sequence(vec![a, b, c]);
    assert_effects(
        t,
        vec![
            vec![("foo", Value::Bool(true))],
            vec![("bar", Value::Bool(true))],
            vec![("baz", Value::Bool(true))],
        ],
    );
}

#[test]
fn sequence_effects_overwriting() {
    let mut t = TaskTree::new();
    let a = t.operator(1);
    t.add_effect(a, Effect::set(s("foo"), Value::Bool(true)));
    let b = t.operator(2);
    t.add_effect(b, Effect::set(s("foo"), Value::Str(s("1"))));
    let c = t.operator(3);
    t.add_effect(c, Effect::set(s("foo"), Value::Num(2)));
    t.sequence(vec![a, b, c]);
    assert_effects(
        t,
        vec![
            vec![("foo", Value::Bool(true))],
            vec![("foo", Value::Str(s("1")))],
            vec![("foo", Value::Num(2))],
        ],
    );
}

#[test]
fn sequence_effects_stacked() {
    let mut t = TaskTree::new();
    let a = t.operator(1);
    t.add_effect(a, Effect::set(s("a"), Value::Bool(true)));
    t.add_effect(a, Effect::set(s("b"), Value::Bool(true)));
    let b = t.operator(2);
    t.add_effect(b, Effect::set(s("c"), Value::Bool(true)));
    t.add_effect(b, Effect::set(s("d"), Value::Bool(true)));
    let c = t.operator(3);
    t.add_effect(c, Effect::set(s("e"), Value::Bool(true)));
    t.add_effect(c, Effect::set(s("f"), Value::Bool(true)));
    t.sequence(vec![a, b, c]);
    assert_effects(
        t,
        vec![
            vec![("a", Value::Bool(true)), ("b", Value::Bool(true))],
            vec![("c", Value::Bool(true)), ("d", Value::Bool(true))],
            vec![("e", Value::Bool(true)), ("f", Value::Bool(true))],
        ],
    );
}

#[test]
fn select_effects() {
    let mut t = TaskTree::new();
    let a = t.operator(1);
    t.add_condition(a, Condition::always_false());
    t.add_effect(a, Effect::set(s("foo"), Value::Bool(true)));
    let b = t.operator(2);
    t.add_effect(b, Effect::set(s("bar"), Value::Bool(true)));
    let c = t.operator(3);
    t.add_effect(c, Effect::set(s("baz"), Value::Bool(true)));
    t.select(vec![a, b, c]);
    assert_effects(t, vec![vec![("bar", Value::Bool(true))]]);
}

#[test]
fn select_effects_undoes_invalid_effects() {
    let mut t = TaskTree::new();
    let a = t.operator(1);
    t.add_effect(a, Effect::set(s("foo"), Value::Bool(true)));
    let b = t.operator(2);
    t.add_condition(b, Condition::always_false());
    t.add_effect(b, Effect::set(s("bar"), Value::Bool(true)));
    let left = t.sequence(vec![a, b]);
    let c = t.operator(3);
    t.add_condition(c, Condition::always_false());
    t.add_effect(c, Effect::set(s("baz"), Value::Bool(true)));
    let d = t.operator(4);
    t.add_effect(d, Effect::set(s("quux"), Value::Bool(true)));
    t.select(vec![left, c, d]);
    assert_effects(t, vec![vec![("quux", Value::Bool(true))]]);
}
