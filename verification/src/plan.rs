//! The output of decomposition: an ordered queue of plan steps.
//!
//! A step references one operator together with the conditions it must
//! still satisfy at run time and the effects to apply once it completes.
//! The plan also keeps the full operator list it was created with, so a
//! re-plan that finds the very same plan can be recognised and the
//! running plan kept, and the priority record that produced it.

use vstd::prelude::*;

use crate::condition::{cond_views, Condition, ConditionView};
use crate::effect::{effect_views, Effect, EffectView};
use crate::mtr::Mtr;

verus! {

/// Mathematical image of a [`TaskNode`].
pub struct StepView {
    pub entity: u64,
    pub conditions: Seq<ConditionView>,
    pub effects: Seq<EffectView>,
}

/// One step of a plan: an operator, the conditions checked before it
/// runs, and the effects applied after it succeeds.
#[derive(Debug)]
pub struct TaskNode {
    /// Identity of the operator to run.
    pub entity: u64,
    /// Conditions that must hold, against the live store, for the step
    /// to run. The first step of a compound decomposition also carries
    /// the conditions inherited from further up the tree.
    pub conditions: Vec<Condition>,
    /// Effects applied to the live store when the operator succeeds; the
    /// last step of a compound decomposition also carries effects
    /// inherited from further up the tree.
    pub effects: Vec<Effect>,
}

impl View for TaskNode {
    type V = StepView;

    open spec fn view(&self) -> StepView {
        StepView {
            entity: self.entity,
            conditions: cond_views(self.conditions@),
            effects: effect_views(self.effects@),
        }
    }
}

impl Clone for TaskNode {
    fn clone(&self) -> (res: Self)
        ensures
            res@ == self@,
    {
        TaskNode {
            entity: self.entity,
            conditions: crate::condition::clone_conditions(&self.conditions),
            effects: crate::effect::clone_effects(&self.effects),
        }
    }
}

/// The views of a sequence of plan steps.
pub open spec fn step_views(s: Seq<TaskNode>) -> Seq<StepView> {
    s.map_values(|n: TaskNode| n@)
}

/// Mathematical image of a [`Plan`].
pub struct PlanView {
    pub operators_left: Seq<StepView>,
    pub operators_total: Seq<u64>,
    pub mtr: Option<Seq<usize>>,
}

/// The empty plan: nothing to run, no priority record. Installing it
/// makes the next tick request a re-plan.
pub open spec fn empty_plan() -> PlanView {
    PlanView { operators_left: Seq::empty(), operators_total: Seq::empty(), mtr: None }
}

/// A full plan of operator steps to execute in order. When it is empty —
/// freshly created, cleared, exhausted, or aborted by a failure — the
/// planner recomputes it on the next tick.
#[derive(Debug)]
pub struct Plan {
    /// The steps still to execute; the front is executed next.
    pub operators_left: Vec<TaskNode>,
    /// The operators of every step the plan was created with.
    pub operators_total: Vec<u64>,
    /// The priority record of the decomposition that produced the plan.
    pub mtr: Mtr,
}

impl View for Plan {
    type V = PlanView;

    open spec fn view(&self) -> PlanView {
        PlanView {
            operators_left: step_views(self.operators_left@),
            operators_total: self.operators_total@,
            mtr: self.mtr@,
        }
    }
}

/// Copies a vector of plan steps.
pub fn clone_steps(v: &Vec<TaskNode>) -> (r: Vec<TaskNode>)
    ensures
        step_views(r@) == step_views(v@),
{
    let n = v.len();
    let mut r: Vec<TaskNode> = Vec::new();
    let mut i: usize = 0;
    while i < n
        invariant
            n == v.len(),
            i <= n,
            r@.len() == i,
            forall|j: int| 0 <= j < i ==> r@[j]@ == v@[j]@,
        decreases n - i,
    {
        r.push(v[i].clone());
        i += 1;
    }
    proof {
        assert(step_views(r@) =~= step_views(v@));
    }
    r
}

fn copy_u64_vec(v: &Vec<u64>) -> (r: Vec<u64>)
    ensures
        r@ == v@,
{
    let n = v.len();
    let mut r: Vec<u64> = Vec::new();
    let mut i: usize = 0;
    while i < n
        invariant
            n == v.len(),
            i <= n,
            r@ == v@.subrange(0, i as int),
        decreases n - i,
    {
        r.push(v[i]);
        proof {
            assert(r@ =~= v@.subrange(0, i + 1 as int));
        }
        i += 1;
    }
    proof {
        assert(r@ =~= v@);
    }
    r
}

impl Clone for Plan {
    fn clone(&self) -> (res: Self)
        ensures
            res@ == self@,
    {
        Plan {
            operators_left: clone_steps(&self.operators_left),
            operators_total: copy_u64_vec(&self.operators_total),
            mtr: self.mtr.clone(),
        }
    }
}

impl Plan {
    /// Creates a new empty plan. Installing it triggers a re-plan at the
    /// next tick.
    pub fn new() -> (r: Plan)
        ensures
            r@ == empty_plan(),
    {
        let r = Plan { operators_left: Vec::new(), operators_total: Vec::new(), mtr: Mtr::none() };
        proof {
            assert(step_views(Seq::<TaskNode>::empty()) =~= Seq::<StepView>::empty());
            assert(r@.operators_total =~= Seq::<u64>::empty());
        }
        r
    }

    /// Replaces the plan with a new empty one, triggering a re-plan at
    /// the next tick.
    pub fn clear(&mut self)
        ensures
            final(self)@ == empty_plan(),
    {
        *self = Plan::new();
    }

    /// Whether nothing is left to execute.
    pub fn is_empty(&self) -> (r: bool)
        ensures
            r == (self@.operators_left.len() == 0),
    {
        self.operators_left.len() == 0
    }
}

} // verus!
