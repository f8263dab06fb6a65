//! Typed values stored in a [`PropertyStore`](crate::props::PropertyStore).
//!
//! A value is a number, a boolean or a string. Comparisons are only
//! defined between values of the same variant: comparing across
//! variants is a caller error, which condition evaluation surfaces as
//! a configuration error.

use vstd::prelude::*;

verus! {

/// Mathematical image of a [`Value`]: the string is seen as its
/// character sequence.
pub enum ValueView {
    Num(i64),
    Bool(bool),
    Str(Seq<char>),
}

/// A typed value of the world state: a number, a boolean or a string.
#[derive(Debug)]
pub enum Value {
    Num(i64),
    Bool(bool),
    Str(String),
}

impl View for Value {
    type V = ValueView;

    open spec fn view(&self) -> ValueView {
        match self {
            Value::Num(n) => ValueView::Num(*n),
            Value::Bool(b) => ValueView::Bool(*b),
            Value::Str(s) => ValueView::Str(s@),
        }
    }
}

impl Clone for Value {
    fn clone(&self) -> (res: Self)
        ensures
            res@ == self@,
    {
        match self {
            Value::Num(n) => Value::Num(*n),
            Value::Bool(b) => Value::Bool(*b),
            Value::Str(s) => Value::Str(s.clone()),
        }
    }
}

/// Whether two value views are of the same variant.
pub open spec fn same_variant(a: ValueView, b: ValueView) -> bool {
    match (a, b) {
        (ValueView::Num(_), ValueView::Num(_)) => true,
        (ValueView::Bool(_), ValueView::Bool(_)) => true,
        (ValueView::Str(_), ValueView::Str(_)) => true,
        _ => false,
    }
}

/// The number held by a value view, if it holds one.
pub open spec fn num_of(v: ValueView) -> Option<i64> {
    match v {
        ValueView::Num(n) => Some(n),
        _ => None,
    }
}

impl Value {
    /// Equality of two values of the same variant. Comparing across
    /// variants is a caller error and is excluded here; a comparison
    /// that may be ill-typed goes through
    /// [`Condition::evaluate`](crate::condition::Condition::evaluate),
    /// which surfaces it as a configuration error.
    pub fn eq_value(&self, other: &Value) -> (r: bool)
        requires
            same_variant(self@, other@),
        ensures
            r == (self@ == other@),
    {
        match (self, other) {
            (Value::Num(a), Value::Num(b)) => *a == *b,
            (Value::Bool(a), Value::Bool(b)) => *a == *b,
            (Value::Str(a), Value::Str(b)) => *a == *b,
            _ => false,
        }
    }

    /// Whether the two values are of the same variant, and may therefore
    /// be compared.
    pub fn is_same_variant(&self, other: &Value) -> (r: bool)
        ensures
            r == same_variant(self@, other@),
    {
        match (self, other) {
            (Value::Num(_), Value::Num(_)) => true,
            (Value::Bool(_), Value::Bool(_)) => true,
            (Value::Str(_), Value::Str(_)) => true,
            _ => false,
        }
    }

    /// The number held by this value, if it is numeric.
    pub fn as_num(&self) -> (r: Option<i64>)
        ensures
            r == num_of(self@),
    {
        match self {
            Value::Num(n) => Some(*n),
            _ => None,
        }
    }
}

} // verus!
