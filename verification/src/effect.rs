//! Effects: mutations of the world state.
//!
//! An effect rewrites one named property. An arithmetic effect counts
//! a missing key as the number zero, and division or remainder that
//! would be undefined leaves the store unchanged. Aiming an arithmetic
//! effect at a key that holds no number, or a toggle at one that holds
//! no boolean, is a caller error: application surfaces it as a
//! [`ConfigurationError`] instead of writing anything.
//!
//! An effect flagged `plan_only` is applied to the simulated state during
//! decomposition but is skipped when a completed operator's effects are
//! applied to the live store.

use vstd::prelude::*;

use crate::error::ConfigurationError;
use crate::props::PropertyStore;
use crate::value::{Value, ValueView};

verus! {

/// Mathematical image of an [`EffectOp`].
pub enum EffectOpView {
    Assign { name: Seq<char>, value: ValueView },
    Toggle { name: Seq<char> },
    Increment { name: Seq<char>, amount: i64 },
    Decrement { name: Seq<char>, amount: i64 },
    Multiply { name: Seq<char>, amount: i64 },
    Divide { name: Seq<char>, amount: i64 },
    Power { name: Seq<char>, exponent: u32 },
    Modulo { name: Seq<char>, amount: i64 },
}

/// The mutation an effect performs on one named property.
#[derive(Debug)]
pub enum EffectOp {
    Assign { name: String, value: Value },
    Toggle { name: String },
    Increment { name: String, amount: i64 },
    Decrement { name: String, amount: i64 },
    Multiply { name: String, amount: i64 },
    Divide { name: String, amount: i64 },
    Power { name: String, exponent: u32 },
    Modulo { name: String, amount: i64 },
}

impl View for EffectOp {
    type V = EffectOpView;

    open spec fn view(&self) -> EffectOpView {
        match self {
            EffectOp::Assign { name, value } => (EffectOpView::Assign { name: name@, value: value@ }),
            EffectOp::Toggle { name } => (EffectOpView::Toggle { name: name@ }),
            EffectOp::Increment { name, amount } => (EffectOpView::Increment {
                name: name@,
                amount: *amount,
            }),
            EffectOp::Decrement { name, amount } => (EffectOpView::Decrement {
                name: name@,
                amount: *amount,
            }),
            EffectOp::Multiply { name, amount } => (EffectOpView::Multiply {
                name: name@,
                amount: *amount,
            }),
            EffectOp::Divide { name, amount } => (EffectOpView::Divide {
                name: name@,
                amount: *amount,
            }),
            EffectOp::Power { name, exponent } => (EffectOpView::Power {
                name: name@,
                exponent: *exponent,
            }),
            EffectOp::Modulo { name, amount } => (EffectOpView::Modulo {
                name: name@,
                amount: *amount,
            }),
        }
    }
}

impl Clone for EffectOp {
    fn clone(&self) -> (res: Self)
        ensures
            res@ == self@,
    {
        match self {
            EffectOp::Assign { name, value } => EffectOp::Assign {
                name: name.clone(),
                value: value.clone(),
            },
            EffectOp::Toggle { name } => EffectOp::Toggle { name: name.clone() },
            EffectOp::Increment { name, amount } => EffectOp::Increment {
                name: name.clone(),
                amount: *amount,
            },
            EffectOp::Decrement { name, amount } => EffectOp::Decrement {
                name: name.clone(),
                amount: *amount,
            },
            EffectOp::Multiply { name, amount } => EffectOp::Multiply {
                name: name.clone(),
                amount: *amount,
            },
            EffectOp::Divide { name, amount } => EffectOp::Divide {
                name: name.clone(),
                amount: *amount,
            },
            EffectOp::Power { name, exponent } => EffectOp::Power {
                name: name.clone(),
                exponent: *exponent,
            },
            EffectOp::Modulo { name, amount } => EffectOp::Modulo {
                name: name.clone(),
                amount: *amount,
            },
        }
    }
}

/// Mathematical image of an [`Effect`].
pub struct EffectView {
    pub op: EffectOpView,
    pub plan_only: bool,
}

/// A world-state mutation, optionally flagged as visible to planning
/// only.
#[derive(Debug)]
pub struct Effect {
    pub op: EffectOp,
    /// When set, the effect influences decomposition-time simulation but
    /// is never applied to the live store at run time.
    pub plan_only: bool,
}

impl View for Effect {
    type V = EffectView;

    open spec fn view(&self) -> EffectView {
        EffectView { op: self.op@, plan_only: self.plan_only }
    }
}

impl Clone for Effect {
    fn clone(&self) -> (res: Self)
        ensures
            res@ == self@,
    {
        Effect { op: self.op.clone(), plan_only: self.plan_only }
    }
}

/// The number an arithmetic effect starts from: the stored number,
/// zero for a missing key, and nothing — a configuration error — for a
/// key of another variant.
pub open spec fn arith_target(m: Map<Seq<char>, ValueView>, name: Seq<char>) -> Option<i64> {
    if !m.contains_key(name) {
        Some(0)
    } else {
        match m[name] {
            ValueView::Num(n) => Some(n),
            _ => None,
        }
    }
}

/// Wrapping integer power.
pub open spec fn wrap_pow(base: i64, exponent: nat) -> i64
    decreases exponent,
{
    if exponent == 0 {
        1
    } else {
        i64::wrapping_mul(wrap_pow(base, (exponent - 1) as nat), base)
    }
}

/// The store an effect leaves behind, or `None` for a configuration
/// error: toggling a key that is missing or holds no boolean, or
/// arithmetic on a key that holds no number. `plan_only` plays no role
/// here: whether an effect is applied at all is the caller's decision.
pub open spec fn apply_op(op: EffectOpView, m: Map<Seq<char>, ValueView>) -> Option<
    Map<Seq<char>, ValueView>,
> {
    match op {
        EffectOpView::Assign { name, value } => Some(m.insert(name, value)),
        EffectOpView::Toggle { name } => if m.contains_key(name) {
            match m[name] {
                ValueView::Bool(b) => Some(m.insert(name, ValueView::Bool(!b))),
                _ => None,
            }
        } else {
            None
        },
        EffectOpView::Increment { name, amount } => match arith_target(m, name) {
            Some(n) => Some(m.insert(name, ValueView::Num(i64::wrapping_add(n, amount)))),
            None => None,
        },
        EffectOpView::Decrement { name, amount } => match arith_target(m, name) {
            Some(n) => Some(m.insert(name, ValueView::Num(i64::wrapping_sub(n, amount)))),
            None => None,
        },
        EffectOpView::Multiply { name, amount } => match arith_target(m, name) {
            Some(n) => Some(m.insert(name, ValueView::Num(i64::wrapping_mul(n, amount)))),
            None => None,
        },
        EffectOpView::Divide { name, amount } => match arith_target(m, name) {
            Some(n) => match i64::checked_div(n, amount) {
                Some(q) => Some(m.insert(name, ValueView::Num(q))),
                None => Some(m),
            },
            None => None,
        },
        EffectOpView::Power { name, exponent } => match arith_target(m, name) {
            Some(n) => Some(m.insert(name, ValueView::Num(wrap_pow(n, exponent as nat)))),
            None => None,
        },
        EffectOpView::Modulo { name, amount } => match arith_target(m, name) {
            Some(n) => match i64::checked_rem(n, amount) {
                Some(q) => Some(m.insert(name, ValueView::Num(q))),
                None => Some(m),
            },
            None => None,
        },
    }
}

/// Left-to-right application of a sequence of effects, stopping at the
/// first configuration error.
pub open spec fn apply_effects(es: Seq<EffectView>, m: Map<Seq<char>, ValueView>) -> Option<
    Map<Seq<char>, ValueView>,
>
    decreases es.len(),
{
    if es.len() == 0 {
        Some(m)
    } else {
        match apply_op(es[0].op, m) {
            Some(m2) => apply_effects(es.skip(1), m2),
            None => None,
        }
    }
}

/// Left-to-right application of the effects that are not `plan_only`:
/// what reaches the live store after an operator completes. A skipped
/// plan-only effect is never evaluated, so it can raise no error.
pub open spec fn apply_runtime_effects(es: Seq<EffectView>, m: Map<Seq<char>, ValueView>) -> Option<
    Map<Seq<char>, ValueView>,
>
    decreases es.len(),
{
    if es.len() == 0 {
        Some(m)
    } else if es[0].plan_only {
        apply_runtime_effects(es.skip(1), m)
    } else {
        match apply_op(es[0].op, m) {
            Some(m2) => apply_runtime_effects(es.skip(1), m2),
            None => None,
        }
    }
}

/// The views of a sequence of effects.
pub open spec fn effect_views(s: Seq<Effect>) -> Seq<EffectView> {
    s.map_values(|e: Effect| e@)
}

/// Copies a vector of effects.
pub fn clone_effects(v: &Vec<Effect>) -> (r: Vec<Effect>)
    ensures
        effect_views(r@) == effect_views(v@),
{
    let n = v.len();
    let mut r: Vec<Effect> = Vec::new();
    let mut i: usize = 0;
    while i < n
        invariant
            n == v.len(),
            i <= n,
            r@.len() == i,
            forall|j: int| 0 <= j < i ==> r@[j]@ == v@[j]@,
        decreases n - i,
    {
        r.push(v[i].clone());
        i += 1;
    }
    proof {
        assert(effect_views(r@) =~= effect_views(v@));
    }
    r
}

/// Applies a whole vector of effects to a store, left to right,
/// regardless of `plan_only` flags — the simulation step of
/// decomposition. On an error the store holds the error-free prefix;
/// decomposition then discards it.
pub fn try_apply_all(es: &Vec<Effect>, props: &mut PropertyStore) -> (r: Result<
    (),
    ConfigurationError,
>)
    requires
        old(props).wf(),
    ensures
        final(props).wf(),
        match r {
            Ok(_) => apply_effects(effect_views(es@), old(props)@) == Some(final(props)@),
            Err(_) => apply_effects(effect_views(es@), old(props)@) is None,
        },
{
    proof {
        assert(effect_views(es@).skip(0) =~= effect_views(es@));
    }
    let n = es.len();
    let mut i: usize = 0;
    while i < n
        invariant
            props.wf(),
            n == es.len(),
            i <= n,
            apply_effects(effect_views(es@), old(props)@) == apply_effects(
                effect_views(es@).skip(i as int),
                props@,
            ),
        decreases n - i,
    {
        proof {
            lemma_apply_effects_step(effect_views(es@), i as int, props@);
            assert(effect_views(es@)[i as int] == es@[i as int]@);
        }
        match es[i].try_apply(props) {
            Ok(_) => {},
            Err(e) => {
                return Err(e);
            },
        }
        i += 1;
    }
    Ok(())
}

proof fn lemma_apply_effects_step(es: Seq<EffectView>, i: int, m: Map<Seq<char>, ValueView>)
    requires
        0 <= i < es.len(),
    ensures
        apply_effects(es.skip(i), m) == match apply_op(es[i].op, m) {
            Some(m2) => apply_effects(es.skip(i + 1), m2),
            None => None,
        },
{
    assert(es.skip(i)[0] == es[i]);
    assert(es.skip(i).skip(1) =~= es.skip(i + 1));
}

/// Applies the effects of a completed step to the live store, skipping
/// those flagged `plan_only`. On an error the store holds the
/// error-free prefix; the engine applies to a copy first, so its live
/// store is never left half-written.
pub fn try_apply_runtime(es: &Vec<Effect>, props: &mut PropertyStore) -> (r: Result<
    (),
    ConfigurationError,
>)
    requires
        old(props).wf(),
    ensures
        final(props).wf(),
        match r {
            Ok(_) => apply_runtime_effects(effect_views(es@), old(props)@) == Some(final(props)@),
            Err(_) => apply_runtime_effects(effect_views(es@), old(props)@) is None,
        },
{
    proof {
        assert(effect_views(es@).skip(0) =~= effect_views(es@));
    }
    let n = es.len();
    let mut i: usize = 0;
    while i < n
        invariant
            props.wf(),
            n == es.len(),
            i <= n,
            apply_runtime_effects(effect_views(es@), old(props)@) == apply_runtime_effects(
                effect_views(es@).skip(i as int),
                props@,
            ),
        decreases n - i,
    {
        proof {
            lemma_apply_runtime_step(effect_views(es@), i as int, props@);
            assert(effect_views(es@)[i as int] == es@[i as int]@);
        }
        if !es[i].plan_only {
            match es[i].try_apply(props) {
                Ok(_) => {},
                Err(e) => {
                    return Err(e);
                },
            }
        }
        i += 1;
    }
    Ok(())
}

proof fn lemma_apply_runtime_step(es: Seq<EffectView>, i: int, m: Map<Seq<char>, ValueView>)
    requires
        0 <= i < es.len(),
    ensures
        apply_runtime_effects(es.skip(i), m) == if es[i].plan_only {
            apply_runtime_effects(es.skip(i + 1), m)
        } else {
            match apply_op(es[i].op, m) {
                Some(m2) => apply_runtime_effects(es.skip(i + 1), m2),
                None => None,
            }
        },
{
    assert(es.skip(i)[0] == es[i]);
    assert(es.skip(i).skip(1) =~= es.skip(i + 1));
}

/// Effects that are all `plan_only` leave the live store untouched —
/// and, being skipped unevaluated, can raise no error.
pub proof fn lemma_plan_only_effects_invisible(es: Seq<EffectView>, m: Map<Seq<char>, ValueView>)
    requires
        forall|i: int| 0 <= i < es.len() ==> es[i].plan_only,
    ensures
        apply_runtime_effects(es, m) == Some(m),
    decreases es.len(),
{
    if es.len() > 0 {
        lemma_plan_only_effects_invisible(es.skip(1), m);
    }
}

impl Effect {
    /// Creates an effect from its mutation, not flagged `plan_only`.
    pub fn new(op: EffectOp) -> (r: Effect)
        ensures
            r@.op == op@,
            !r@.plan_only,
    {
        Effect { op, plan_only: false }
    }

    /// Flags the effect as visible to planning only.
    pub fn plan_only(self) -> (r: Effect)
        ensures
            r@.op == self@.op,
            r@.plan_only,
    {
        Effect { op: self.op, plan_only: true }
    }

    /// Sets `name` to `value`.
    pub fn set(name: String, value: Value) -> (r: Effect)
        ensures
            r@.op == (EffectOpView::Assign { name: name@, value: value@ }),
            !r@.plan_only,
    {
        Effect::new(EffectOp::Assign { name, value })
    }

    /// Toggles the boolean at `name`; a missing key, or one that holds
    /// no boolean, is a configuration error at application time.
    pub fn toggle(name: String) -> (r: Effect)
        ensures
            r@.op == (EffectOpView::Toggle { name: name@ }),
            !r@.plan_only,
    {
        Effect::new(EffectOp::Toggle { name })
    }

    /// Adds `amount` to the number at `name`, wrapping on overflow.
    pub fn inc(name: String, amount: i64) -> (r: Effect)
        ensures
            r@.op == (EffectOpView::Increment { name: name@, amount }),
            !r@.plan_only,
    {
        Effect::new(EffectOp::Increment { name, amount })
    }

    /// Subtracts `amount` from the number at `name`, wrapping on
    /// overflow.
    pub fn dec(name: String, amount: i64) -> (r: Effect)
        ensures
            r@.op == (EffectOpView::Decrement { name: name@, amount }),
            !r@.plan_only,
    {
        Effect::new(EffectOp::Decrement { name, amount })
    }

    /// Multiplies the number at `name` by `amount`, wrapping on overflow.
    pub fn mul(name: String, amount: i64) -> (r: Effect)
        ensures
            r@.op == (EffectOpView::Multiply { name: name@, amount }),
            !r@.plan_only,
    {
        Effect::new(EffectOp::Multiply { name, amount })
    }

    /// Divides the number at `name` by `amount`; division by zero or an
    /// overflowing quotient leaves the store unchanged.
    pub fn div(name: String, amount: i64) -> (r: Effect)
        ensures
            r@.op == (EffectOpView::Divide { name: name@, amount }),
            !r@.plan_only,
    {
        Effect::new(EffectOp::Divide { name, amount })
    }

    /// Raises the number at `name` to `exponent`, wrapping on overflow.
    pub fn pow(name: String, exponent: u32) -> (r: Effect)
        ensures
            r@.op == (EffectOpView::Power { name: name@, exponent }),
            !r@.plan_only,
    {
        Effect::new(EffectOp::Power { name, exponent })
    }

    /// Replaces the number at `name` by its remainder modulo `amount`; a
    /// zero `amount` or an overflowing remainder leaves the store
    /// unchanged.
    pub fn modulo(name: String, amount: i64) -> (r: Effect)
        ensures
            r@.op == (EffectOpView::Modulo { name: name@, amount }),
            !r@.plan_only,
    {
        Effect::new(EffectOp::Modulo { name, amount })
    }

    /// Applies the mutation to a store, regardless of the `plan_only`
    /// flag — the caller decides whether the effect is applied at all.
    /// An ill-typed target comes back as the configuration error and
    /// leaves the store untouched.
    pub fn try_apply(&self, props: &mut PropertyStore) -> (r: Result<(), ConfigurationError>)
        requires
            old(props).wf(),
        ensures
            final(props).wf(),
            match r {
                Ok(_) => apply_op(self@.op, old(props)@) == Some(final(props)@),
                Err(_) => apply_op(self@.op, old(props)@) is None && final(props)@ == old(
                    props,
                )@,
            },
    {
        match &self.op {
            EffectOp::Assign { name, value } => {
                props.set(name, value.clone());
                Ok(())
            },
            EffectOp::Toggle { name } => {
                let cur: bool = match props.get(name) {
                    Some(v) => match v {
                        Value::Bool(b) => *b,
                        _ => {
                            return Err(ConfigurationError);
                        },
                    },
                    None => {
                        return Err(ConfigurationError);
                    },
                };
                props.set(name, Value::Bool(!cur));
                Ok(())
            },
            EffectOp::Increment { name, amount } => {
                let a = *amount;
                match Self::arith_base(props, name) {
                    Ok(n) => {
                        props.set(name, Value::Num(n.wrapping_add(a)));
                        Ok(())
                    },
                    Err(e) => Err(e),
                }
            },
            EffectOp::Decrement { name, amount } => {
                let a = *amount;
                match Self::arith_base(props, name) {
                    Ok(n) => {
                        props.set(name, Value::Num(n.wrapping_sub(a)));
                        Ok(())
                    },
                    Err(e) => Err(e),
                }
            },
            EffectOp::Multiply { name, amount } => {
                let a = *amount;
                match Self::arith_base(props, name) {
                    Ok(n) => {
                        props.set(name, Value::Num(n.wrapping_mul(a)));
                        Ok(())
                    },
                    Err(e) => Err(e),
                }
            },
            EffectOp::Divide { name, amount } => {
                let a = *amount;
                match Self::arith_base(props, name) {
                    Ok(n) => {
                        match n.checked_div(a) {
                            Some(q) => props.set(name, Value::Num(q)),
                            None => (),
                        }
                        Ok(())
                    },
                    Err(e) => Err(e),
                }
            },
            EffectOp::Power { name, exponent } => {
                let e = *exponent;
                match Self::arith_base(props, name) {
                    Ok(n) => {
                        let mut acc: i64 = 1;
                        let mut i: u32 = 0;
                        while i < e
                            invariant
                                i <= e,
                                acc == wrap_pow(n, i as nat),
                            decreases e - i,
                        {
                            acc = acc.wrapping_mul(n);
                            i += 1;
                        }
                        props.set(name, Value::Num(acc));
                        Ok(())
                    },
                    Err(e) => Err(e),
                }
            },
            EffectOp::Modulo { name, amount } => {
                let a = *amount;
                match Self::arith_base(props, name) {
                    Ok(n) => {
                        match n.checked_rem(a) {
                            Some(q) => props.set(name, Value::Num(q)),
                            None => (),
                        }
                        Ok(())
                    },
                    Err(e) => Err(e),
                }
            },
        }
    }

    /// Applies a mutation known to be well-typed for the store; an
    /// input on which application would be a configuration error is a
    /// caller error, excluded here.
    pub fn apply(&self, props: &mut PropertyStore)
        requires
            old(props).wf(),
            apply_op(self@.op, old(props)@) is Some,
        ensures
            final(props).wf(),
            apply_op(self@.op, old(props)@) == Some(final(props)@),
    {
        match self.try_apply(props) {
            Ok(_) => {},
            Err(_) => {
                proof {
                    assert(false);
                }
            },
        }
    }

    /// Reads the number an arithmetic effect starts from; a key of
    /// another variant is the configuration error.
    fn arith_base(props: &PropertyStore, name: &String) -> (r: Result<i64, ConfigurationError>)
        requires
            props.wf(),
        ensures
            match r {
                Ok(n) => arith_target(props@, name@) == Some(n),
                Err(_) => arith_target(props@, name@) is None,
            },
    {
        match props.get(name) {
            Some(v) => match v.as_num() {
                Some(n) => Ok(n),
                None => Err(ConfigurationError),
            },
            None => Ok(0),
        }
    }
}

} // verus!
