//! The property store, value comparisons, condition evaluation and
//! effect application.

use bae::condition::Condition;
use bae::effect::Effect;
use bae::props::PropertyStore;
use bae::value::Value;

fn s(x: &str) -> String {
    x.to_string()
}

fn num_at(store: &PropertyStore, name: &str) -> i64 {
    match store.get(&s(name)) {
        Some(Value::Num(n)) => *n,
        other => panic!("expected a number, got {:?}", other.is_some()),
    }
}

#[test]
fn store_set_get_overwrite() {
    let mut store = PropertyStore::new();
    assert!(store.get(&s("x")).is_none());
    store.set(&s("x"), Value::Num(1));
    assert!(store.get(&s("x")).unwrap().eq_value(&Value::Num(1)));
    store.set(&s("x"), Value::Str(s("one")));
    assert!(store.get(&s("x")).unwrap().eq_value(&Value::Str(s("one"))));
    store.set(&s("y"), Value::Bool(true));
    assert!(store.get(&s("x")).unwrap().eq_value(&Value::Str(s("one"))));
    assert!(store.get(&s("y")).unwrap().eq_value(&Value::Bool(true)));
}

#[test]
fn value_equality_is_per_variant() {
    assert!(Value::Num(3).eq_value(&Value::Num(3)));
    assert!(!Value::Num(3).eq_value(&Value::Num(4)));
    assert!(Value::Str(s("a")).eq_value(&Value::Str(s("a"))));
    assert!(!Value::Str(s("a")).eq_value(&Value::Str(s("b"))));
    // values of different variants cannot be compared at all
    assert!(!Value::Num(1).is_same_variant(&Value::Bool(true)));
    assert!(!Value::Str(s("1")).is_same_variant(&Value::Num(1)));
    assert!(Value::Bool(false).is_same_variant(&Value::Bool(true)));
}

#[test]
fn condition_comparisons() {
    let mut store = PropertyStore::new();
    store.set(&s("hp"), Value::Num(10));
    store.set(&s("name"), Value::Str(s("rex")));
    assert!(Condition::eq(s("hp"), Value::Num(10)).is_fullfilled(&store));
    assert!(Condition::ne(s("hp"), Value::Num(9)).is_fullfilled(&store));
    assert!(!Condition::ne(s("hp"), Value::Num(10)).is_fullfilled(&store));
    assert!(Condition::gt(s("hp"), 9).is_fullfilled(&store));
    assert!(!Condition::gt(s("hp"), 10).is_fullfilled(&store));
    assert!(Condition::gte(s("hp"), 10).is_fullfilled(&store));
    assert!(Condition::lt(s("hp"), 11).is_fullfilled(&store));
    assert!(Condition::lte(s("hp"), 10).is_fullfilled(&store));
    assert!(Condition::in_range(s("hp"), 0, 10).is_fullfilled(&store));
    assert!(!Condition::in_range(s("hp"), 11, 20).is_fullfilled(&store));
    assert!(Condition::eq(s("name"), Value::Str(s("rex"))).is_fullfilled(&store));
    assert!(Condition::always_true().is_fullfilled(&store));
    assert!(!Condition::always_false().is_fullfilled(&store));
}

#[test]
fn condition_missing_key_reads_as_false() {
    let store = PropertyStore::new();
    // a missing key reads as the default Bool(false)
    assert!(Condition::eq(s("flag"), Value::Bool(false)).is_fullfilled(&store));
    assert!(!Condition::eq(s("flag"), Value::Bool(true)).is_fullfilled(&store));
    // absence is not a type error: comparing a missing key against
    // another variant is simply not satisfied
    assert!(!Condition::eq(s("flag"), Value::Num(0)).is_fullfilled(&store));
    assert!(!Condition::gt(s("flag"), -1).is_fullfilled(&store));
    assert!(!Condition::in_range(s("flag"), -1, 1).is_fullfilled(&store));
    assert!(!Condition::ne(s("flag"), Value::Num(1)).is_fullfilled(&store));
}

#[test]
fn condition_cross_variant_is_an_error() {
    let mut store = PropertyStore::new();
    store.set(&s("x"), Value::Str(s("5")));
    // comparing a stored value across variants is a caller error and is
    // surfaced, never read as a mere unmet condition
    assert!(Condition::eq(s("x"), Value::Num(5)).evaluate(&store).is_err());
    assert!(Condition::ne(s("x"), Value::Num(5)).evaluate(&store).is_err());
    assert!(Condition::gt(s("x"), 0).evaluate(&store).is_err());
    assert!(Condition::in_range(s("x"), 0, 9).evaluate(&store).is_err());
    // a same-variant comparison on the same store stays fine
    assert_eq!(
        Condition::eq(s("x"), Value::Str(s("5"))).evaluate(&store),
        Ok(true)
    );
}

#[test]
fn effect_set_and_toggle() {
    let mut store = PropertyStore::new();
    Effect::set(s("x"), Value::Num(5)).apply(&mut store);
    assert_eq!(num_at(&store, "x"), 5);
    Effect::set(s("b"), Value::Bool(false)).apply(&mut store);
    Effect::toggle(s("b")).apply(&mut store);
    assert!(store.get(&s("b")).unwrap().eq_value(&Value::Bool(true)));
    Effect::toggle(s("b")).apply(&mut store);
    assert!(store.get(&s("b")).unwrap().eq_value(&Value::Bool(false)));
    // toggling a missing key or a number is a caller error, surfaced
    // and leaving the store untouched
    assert!(Effect::toggle(s("missing")).try_apply(&mut store).is_err());
    assert!(store.get(&s("missing")).is_none());
    assert!(Effect::toggle(s("x")).try_apply(&mut store).is_err());
    assert_eq!(num_at(&store, "x"), 5);
}

#[test]
fn effect_arithmetic() {
    let mut store = PropertyStore::new();
    // a missing key counts as zero
    Effect::inc(s("n"), 10).apply(&mut store);
    assert_eq!(num_at(&store, "n"), 10);
    Effect::dec(s("n"), 3).apply(&mut store);
    assert_eq!(num_at(&store, "n"), 7);
    Effect::mul(s("n"), 6).apply(&mut store);
    assert_eq!(num_at(&store, "n"), 42);
    Effect::div(s("n"), 5).apply(&mut store);
    assert_eq!(num_at(&store, "n"), 8);
    Effect::modulo(s("n"), 3).apply(&mut store);
    assert_eq!(num_at(&store, "n"), 2);
    Effect::pow(s("n"), 10).apply(&mut store);
    assert_eq!(num_at(&store, "n"), 1024);
}

#[test]
fn effect_arithmetic_edge_cases() {
    let mut store = PropertyStore::new();
    store.set(&s("n"), Value::Num(9));
    // division and remainder by zero leave the store unchanged
    Effect::div(s("n"), 0).apply(&mut store);
    assert_eq!(num_at(&store, "n"), 9);
    Effect::modulo(s("n"), 0).apply(&mut store);
    assert_eq!(num_at(&store, "n"), 9);
    // arithmetic on a non-number is a caller error, surfaced and
    // leaving the store untouched
    store.set(&s("t"), Value::Str(s("nine")));
    assert!(Effect::inc(s("t"), 1).try_apply(&mut store).is_err());
    assert!(store.get(&s("t")).unwrap().eq_value(&Value::Str(s("nine"))));
    // overflow wraps
    store.set(&s("m"), Value::Num(i64::MAX));
    Effect::inc(s("m"), 1).apply(&mut store);
    assert_eq!(num_at(&store, "m"), i64::MIN);
    // an exponent of zero yields one
    store.set(&s("p"), Value::Num(7));
    Effect::pow(s("p"), 0).apply(&mut store);
    assert_eq!(num_at(&store, "p"), 1);
}

#[test]
fn effect_plan_only_flag() {
    let e = Effect::set(s("x"), Value::Num(1));
    assert!(!e.plan_only);
    let e = e.plan_only();
    assert!(e.plan_only);
    // apply itself ignores the flag; skipping is the runtime's decision
    let mut store = PropertyStore::new();
    e.apply(&mut store);
    assert_eq!(num_at(&store, "x"), 1);
}
