//! Conditions: pure predicates over the world state.
//!
//! A condition is a primitive comparison between a named property and a
//! fixed operand. A missing key reads as the default value `Bool(false)`.
//! Comparing a stored value across variants is a caller error: it is
//! surfaced as a [`ConfigurationError`], never masked as an unmet
//! condition. Evaluation never mutates the store.
//!
//! A predicate the host computes itself has no variant here: the host
//! evaluates it, writes the outcome into the store as a boolean
//! property, and gates the task on an equality over that property.

use vstd::prelude::*;

use crate::error::ConfigurationError;
use crate::props::PropertyStore;
use crate::value::{num_of, same_variant, Value, ValueView};

verus! {

/// Mathematical image of a [`Condition`].
pub enum ConditionView {
    AlwaysTrue,
    AlwaysFalse,
    Equals { name: Seq<char>, value: ValueView },
    NotEquals { name: Seq<char>, value: ValueView },
    Greater { name: Seq<char>, value: i64 },
    GreaterOrEqual { name: Seq<char>, value: i64 },
    Less { name: Seq<char>, value: i64 },
    LessOrEqual { name: Seq<char>, value: i64 },
    InRange { name: Seq<char>, lo: i64, hi: i64 },
}

/// A predicate over the [`PropertyStore`], built from primitive
/// comparisons on one named property.
#[derive(Debug)]
pub enum Condition {
    AlwaysTrue,
    AlwaysFalse,
    Equals { name: String, value: Value },
    NotEquals { name: String, value: Value },
    Greater { name: String, value: i64 },
    GreaterOrEqual { name: String, value: i64 },
    Less { name: String, value: i64 },
    LessOrEqual { name: String, value: i64 },
    InRange { name: String, lo: i64, hi: i64 },
}

impl View for Condition {
    type V = ConditionView;

    open spec fn view(&self) -> ConditionView {
        match self {
            Condition::AlwaysTrue => ConditionView::AlwaysTrue,
            Condition::AlwaysFalse => ConditionView::AlwaysFalse,
            Condition::Equals { name, value } => (ConditionView::Equals {
                name: name@,
                value: value@,
            }),
            Condition::NotEquals { name, value } => (ConditionView::NotEquals {
                name: name@,
                value: value@,
            }),
            Condition::Greater { name, value } => (ConditionView::Greater {
                name: name@,
                value: *value,
            }),
            Condition::GreaterOrEqual { name, value } => (ConditionView::GreaterOrEqual {
                name: name@,
                value: *value,
            }),
            Condition::Less { name, value } => (ConditionView::Less {
                name: name@,
                value: *value,
            }),
            Condition::LessOrEqual { name, value } => (ConditionView::LessOrEqual {
                name: name@,
                value: *value,
            }),
            Condition::InRange { name, lo, hi } => (ConditionView::InRange {
                name: name@,
                lo: *lo,
                hi: *hi,
            }),
        }
    }
}

impl Clone for Condition {
    fn clone(&self) -> (res: Self)
        ensures
            res@ == self@,
    {
        match self {
            Condition::AlwaysTrue => Condition::AlwaysTrue,
            Condition::AlwaysFalse => Condition::AlwaysFalse,
            Condition::Equals { name, value } => Condition::Equals {
                name: name.clone(),
                value: value.clone(),
            },
            Condition::NotEquals { name, value } => Condition::NotEquals {
                name: name.clone(),
                value: value.clone(),
            },
            Condition::Greater { name, value } => Condition::Greater {
                name: name.clone(),
                value: *value,
            },
            Condition::GreaterOrEqual { name, value } => Condition::GreaterOrEqual {
                name: name.clone(),
                value: *value,
            },
            Condition::Less { name, value } => Condition::Less {
                name: name.clone(),
                value: *value,
            },
            Condition::LessOrEqual { name, value } => Condition::LessOrEqual {
                name: name.clone(),
                value: *value,
            },
            Condition::InRange { name, lo, hi } => Condition::InRange {
                name: name.clone(),
                lo: *lo,
                hi: *hi,
            },
        }
    }
}

/// Three-valued evaluation of one condition. `None` is a configuration
/// error: the condition compares a stored value against an operand of
/// another variant, or asks for a number where none is stored. A
/// missing key is not an error: an equality reads it as the default
/// `Bool(false)`, and a numeric comparison of it is simply not
/// satisfied.
pub open spec fn condition_eval(c: ConditionView, m: Map<Seq<char>, ValueView>) -> Option<bool> {
    match c {
        ConditionView::AlwaysTrue => Some(true),
        ConditionView::AlwaysFalse => Some(false),
        ConditionView::Equals { name, value } => if !m.contains_key(name) {
            Some(ValueView::Bool(false) == value)
        } else if same_variant(m[name], value) {
            Some(m[name] == value)
        } else {
            None
        },
        ConditionView::NotEquals { name, value } => if !m.contains_key(name) {
            Some(value == ValueView::Bool(true))
        } else if same_variant(m[name], value) {
            Some(m[name] != value)
        } else {
            None
        },
        ConditionView::Greater { name, value } => eval_numeric(m, name, |n: i64| n > value),
        ConditionView::GreaterOrEqual { name, value } => eval_numeric(m, name, |n: i64| n >= value),
        ConditionView::Less { name, value } => eval_numeric(m, name, |n: i64| n < value),
        ConditionView::LessOrEqual { name, value } => eval_numeric(m, name, |n: i64| n <= value),
        ConditionView::InRange { name, lo, hi } => eval_numeric(
            m,
            name,
            |n: i64| lo <= n && n <= hi,
        ),
    }
}

/// A numeric comparison reads the number at `name`: a missing key is
/// not satisfied, a key of another variant is a configuration error.
pub open spec fn eval_numeric(
    m: Map<Seq<char>, ValueView>,
    name: Seq<char>,
    cmp: spec_fn(i64) -> bool,
) -> Option<bool> {
    if !m.contains_key(name) {
        Some(false)
    } else {
        match num_of(m[name]) {
            Some(n) => Some(cmp(n)),
            None => None,
        }
    }
}

/// Sequential evaluation of a condition list, left to right, stopping
/// at the first condition that is not satisfied — a later ill-typed
/// condition is then never reached, exactly as at evaluation time.
/// `None` is a configuration error.
pub open spec fn conds_eval(cs: Seq<ConditionView>, m: Map<Seq<char>, ValueView>) -> Option<bool>
    decreases cs.len(),
{
    if cs.len() == 0 {
        Some(true)
    } else {
        match condition_eval(cs[0], m) {
            None => None,
            Some(false) => Some(false),
            Some(true) => conds_eval(cs.skip(1), m),
        }
    }
}

/// A list that carries the condition that never holds is never
/// satisfied: its evaluation is `Some(false)`, or a configuration error
/// met on the way to it.
pub proof fn lemma_always_false_never_satisfied(
    cs: Seq<ConditionView>,
    m: Map<Seq<char>, ValueView>,
    k: int,
)
    requires
        0 <= k < cs.len(),
        cs[k] == ConditionView::AlwaysFalse,
    ensures
        conds_eval(cs, m) != Some(true),
    decreases cs.len(),
{
    if k > 0 {
        match condition_eval(cs[0], m) {
            Some(true) => {
                assert(cs.skip(1)[k - 1] == cs[k]);
                lemma_always_false_never_satisfied(cs.skip(1), m, k - 1);
            },
            _ => {},
        }
    }
}

/// The views of a sequence of conditions.
pub open spec fn cond_views(s: Seq<Condition>) -> Seq<ConditionView> {
    s.map_values(|c: Condition| c@)
}

/// Copies a vector of conditions.
pub fn clone_conditions(v: &Vec<Condition>) -> (r: Vec<Condition>)
    ensures
        cond_views(r@) == cond_views(v@),
{
    let n = v.len();
    let mut r: Vec<Condition> = Vec::new();
    let mut i: usize = 0;
    while i < n
        invariant
            n == v.len(),
            i <= n,
            r@.len() == i,
            forall|j: int| 0 <= j < i ==> r@[j]@ == v@[j]@,
        decreases n - i,
    {
        r.push(v[i].clone());
        i += 1;
    }
    proof {
        assert(cond_views(r@) =~= cond_views(v@));
    }
    r
}

/// Concatenates two vectors of conditions into a fresh one.
pub fn concat_conditions(a: &Vec<Condition>, b: &Vec<Condition>) -> (r: Vec<Condition>)
    ensures
        cond_views(r@) == cond_views(a@) + cond_views(b@),
{
    let mut r = clone_conditions(a);
    proof {
        assert(cond_views(r@).len() == r@.len());
        assert(cond_views(a@).len() == a@.len());
        assert forall|j: int| 0 <= j < a@.len() implies r@[j]@ == a@[j]@ by {
            assert(cond_views(r@)[j] == cond_views(a@)[j]);
        }
    }
    let n = b.len();
    let mut i: usize = 0;
    while i < n
        invariant
            n == b.len(),
            i <= n,
            r@.len() == a@.len() + i,
            forall|j: int| 0 <= j < a@.len() ==> r@[j]@ == a@[j]@,
            forall|j: int| 0 <= j < i ==> r@[a@.len() + j]@ == b@[j]@,
        decreases n - i,
    {
        r.push(b[i].clone());
        i += 1;
    }
    proof {
        assert(cond_views(r@) =~= cond_views(a@) + cond_views(b@));
    }
    r
}

/// Evaluates a whole vector of conditions against a store, left to
/// right, stopping at the first that is not satisfied; an ill-typed
/// comparison is surfaced, never masked as an unmet condition.
pub fn eval_conditions(cs: &Vec<Condition>, props: &PropertyStore) -> (r: Result<
    bool,
    ConfigurationError,
>)
    requires
        props.wf(),
    ensures
        match r {
            Ok(b) => conds_eval(cond_views(cs@), props@) == Some(b),
            Err(_) => conds_eval(cond_views(cs@), props@) is None,
        },
{
    proof {
        assert(cond_views(cs@).skip(0) =~= cond_views(cs@));
    }
    let n = cs.len();
    let mut i: usize = 0;
    while i < n
        invariant
            props.wf(),
            n == cs.len(),
            i <= n,
            conds_eval(cond_views(cs@), props@) == conds_eval(
                cond_views(cs@).skip(i as int),
                props@,
            ),
        decreases n - i,
    {
        proof {
            lemma_conds_eval_step(cond_views(cs@), i as int, props@);
            assert(cond_views(cs@)[i as int] == cs@[i as int]@);
        }
        match cs[i].evaluate(props) {
            Err(e) => {
                return Err(e);
            },
            Ok(false) => {
                return Ok(false);
            },
            Ok(true) => {},
        }
        i += 1;
    }
    Ok(true)
}

proof fn lemma_conds_eval_step(cs: Seq<ConditionView>, i: int, m: Map<Seq<char>, ValueView>)
    requires
        0 <= i < cs.len(),
    ensures
        conds_eval(cs.skip(i), m) == match condition_eval(cs[i], m) {
            None => None::<bool>,
            Some(false) => Some(false),
            Some(true) => conds_eval(cs.skip(i + 1), m),
        },
{
    assert(cs.skip(i)[0] == cs[i]);
    assert(cs.skip(i).skip(1) =~= cs.skip(i + 1));
}

impl Condition {
    /// Evaluates the condition against a store, without mutating it; an
    /// ill-typed comparison comes back as the configuration error.
    pub fn evaluate(&self, props: &PropertyStore) -> (r: Result<bool, ConfigurationError>)
        requires
            props.wf(),
        ensures
            match r {
                Ok(b) => condition_eval(self@, props@) == Some(b),
                Err(_) => condition_eval(self@, props@) is None,
            },
    {
        match self {
            Condition::AlwaysTrue => Ok(true),
            Condition::AlwaysFalse => Ok(false),
            Condition::Equals { name, value } => match props.get(name) {
                Some(v) => {
                    if v.is_same_variant(value) {
                        Ok(v.eq_value(value))
                    } else {
                        Err(ConfigurationError)
                    }
                },
                None => match value {
                    Value::Bool(b) => Ok(!*b),
                    _ => Ok(false),
                },
            },
            Condition::NotEquals { name, value } => match props.get(name) {
                Some(v) => {
                    if v.is_same_variant(value) {
                        Ok(!v.eq_value(value))
                    } else {
                        Err(ConfigurationError)
                    }
                },
                None => match value {
                    Value::Bool(b) => Ok(*b),
                    _ => Ok(false),
                },
            },
            Condition::Greater { name, value } => match Self::read_num(props, name) {
                Ok(Some(n)) => Ok(n > *value),
                Ok(None) => Ok(false),
                Err(e) => Err(e),
            },
            Condition::GreaterOrEqual { name, value } => match Self::read_num(props, name) {
                Ok(Some(n)) => Ok(n >= *value),
                Ok(None) => Ok(false),
                Err(e) => Err(e),
            },
            Condition::Less { name, value } => match Self::read_num(props, name) {
                Ok(Some(n)) => Ok(n < *value),
                Ok(None) => Ok(false),
                Err(e) => Err(e),
            },
            Condition::LessOrEqual { name, value } => match Self::read_num(props, name) {
                Ok(Some(n)) => Ok(n <= *value),
                Ok(None) => Ok(false),
                Err(e) => Err(e),
            },
            Condition::InRange { name, lo, hi } => match Self::read_num(props, name) {
                Ok(Some(n)) => Ok(*lo <= n && n <= *hi),
                Ok(None) => Ok(false),
                Err(e) => Err(e),
            },
        }
    }

    /// Evaluates a condition known to be well-typed for the store; an
    /// input on which evaluation would be a configuration error is a
    /// caller error, excluded here.
    pub fn is_fullfilled(&self, props: &PropertyStore) -> (r: bool)
        requires
            props.wf(),
            condition_eval(self@, props@) is Some,
        ensures
            condition_eval(self@, props@) == Some(r),
    {
        match self.evaluate(props) {
            Ok(b) => b,
            Err(_) => {
                proof {
                    assert(false);
                }
                false
            },
        }
    }

    /// The number a numeric comparison reads for `name`: nothing for a
    /// missing key, an error for a key of another variant.
    fn read_num(props: &PropertyStore, name: &String) -> (r: Result<Option<i64>, ConfigurationError>)
        requires
            props.wf(),
        ensures
            match r {
                Ok(Some(n)) => props@.contains_key(name@) && num_of(props@[name@]) == Some(n),
                Ok(None) => !props@.contains_key(name@),
                Err(_) => props@.contains_key(name@) && num_of(props@[name@]) is None,
            },
    {
        match props.get(name) {
            Some(v) => match v.as_num() {
                Some(n) => Ok(Some(n)),
                None => Err(ConfigurationError),
            },
            None => Ok(None),
        }
    }

    /// Condition that always holds.
    pub fn always_true() -> (r: Condition)
        ensures
            r@ == ConditionView::AlwaysTrue,
    {
        Condition::AlwaysTrue
    }

    /// Condition that never holds.
    pub fn always_false() -> (r: Condition)
        ensures
            r@ == ConditionView::AlwaysFalse,
    {
        Condition::AlwaysFalse
    }

    /// The property `name` equals `value`.
    pub fn eq(name: String, value: Value) -> (r: Condition)
        ensures
            r@ == (ConditionView::Equals { name: name@, value: value@ }),
    {
        Condition::Equals { name, value }
    }

    /// The property `name` is of the same variant as `value` and differs
    /// from it.
    pub fn ne(name: String, value: Value) -> (r: Condition)
        ensures
            r@ == (ConditionView::NotEquals { name: name@, value: value@ }),
    {
        Condition::NotEquals { name, value }
    }

    /// The property `name` is a number greater than `value`.
    pub fn gt(name: String, value: i64) -> (r: Condition)
        ensures
            r@ == (ConditionView::Greater { name: name@, value }),
    {
        Condition::Greater { name, value }
    }

    /// The property `name` is a number greater than or equal to `value`.
    pub fn gte(name: String, value: i64) -> (r: Condition)
        ensures
            r@ == (ConditionView::GreaterOrEqual { name: name@, value }),
    {
        Condition::GreaterOrEqual { name, value }
    }

    /// The property `name` is a number less than `value`.
    pub fn lt(name: String, value: i64) -> (r: Condition)
        ensures
            r@ == (ConditionView::Less { name: name@, value }),
    {
        Condition::Less { name, value }
    }

    /// The property `name` is a number less than or equal to `value`.
    pub fn lte(name: String, value: i64) -> (r: Condition)
        ensures
            r@ == (ConditionView::LessOrEqual { name: name@, value }),
    {
        Condition::LessOrEqual { name, value }
    }

    /// The property `name` is a number within `lo..=hi`.
    pub fn in_range(name: String, lo: i64, hi: i64) -> (r: Condition)
        ensures
            r@ == (ConditionView::InRange { name: name@, lo, hi }),
    {
        Condition::InRange { name, lo, hi }
    }
}

} // verus!
