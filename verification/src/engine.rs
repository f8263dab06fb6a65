//! The planner: one task tree, one live world state, one plan.
//!
//! Re-planning ([`Planner::update_plan`]) snapshots the live store,
//! decomposes the root against it, and installs the result — unless the
//! decomposition was rejected for ranking after the running plan, or
//! found exactly the plan already running, in which case the running
//! plan and its progress are kept untouched.
//!
//! Execution runs one step per tick, in three parts the host drives:
//! [`Planner::update_empty_plan`] re-plans when the plan is empty,
//! [`Planner::execute_start`] validates the head step's conditions and
//! names the operator to run, and [`Planner::execute_finish`] takes the
//! operator's status — popping the step and applying its effects on
//! success, leaving everything untouched while it is ongoing, or
//! discarding the plan on failure so the next tick re-plans.

use vstd::prelude::*;

use crate::condition::{clone_conditions, conds_eval, eval_conditions};
use crate::decompose::{
    attach_effects, attach_to_back, decompose, decompose_spec, DecomposeInput, DecomposeOutcome,
    DecomposeResult,
};
use crate::effect::{apply_runtime_effects, try_apply_runtime};
use crate::error::ConfigurationError;
use crate::mtr::Mtr;
use crate::plan::{empty_plan, step_views, Plan, PlanView, StepView, TaskNode};
use crate::props::PropertyStore;
use crate::task::{OperatorInput, OperatorStatus, TaskKind, TaskTree, TaskView};
use crate::value::{Value, ValueView};

verus! {

/// Request to rebuild the plan of the planner named by `entity`; the
/// host queues one whenever the world may have changed.
pub struct UpdatePlan {
    /// The planner whose plan should be updated.
    pub entity: u64,
}

impl UpdatePlan {
    /// Creates a re-plan request for the given planner.
    pub fn new(entity: u64) -> (r: UpdatePlan)
        ensures
            r.entity == entity,
    {
        UpdatePlan { entity }
    }
}

/// Notification that a planner's plan was replaced; `old` is the plan
/// that was running before.
pub struct ReplacePlan {
    /// The planner whose plan was replaced.
    pub entity: u64,
    /// The previous plan, for diagnostics.
    pub old: Plan,
}

/// The operators of a step sequence, in order.
pub open spec fn ops_of(steps: Seq<StepView>) -> Seq<u64> {
    steps.map_values(|s: StepView| s.entity)
}

/// What re-planning yields for a tree, a world-state snapshot and the
/// currently installed plan: the plan installed afterwards, whether the
/// replacement is announced, and whether a configuration error was met
/// instead — in which case the installed plan is left exactly as it
/// was, and the error is surfaced to the caller, never swallowed.
///
/// The root's own conditions gate everything: unmet, they silently
/// install the empty plan. A bare operator root trivially becomes a
/// one-step plan. Otherwise the root is decomposed against the
/// installed plan's priority record; success installs the new plan —
/// unless it is exactly the running one, which is then kept with its
/// progress — failure installs the empty plan, and rejection keeps the
/// running plan untouched.
pub open spec fn replan(tree: Seq<TaskView>, st: Map<Seq<char>, ValueView>, old: PlanView) -> (
    PlanView,
    bool,
    bool,
) {
    let root = tree.len() - 1;
    match conds_eval(tree[root].conditions, st) {
        None => (old, false, true),
        Some(false) => (empty_plan(), false, false),
        Some(true) => match tree[root].kind {
            TaskKind::Operator { operator } => {
                let step = StepView {
                    entity: operator,
                    conditions: tree[root].conditions,
                    effects: Seq::empty(),
                };
                let steps = attach_effects(seq![step], tree[root].effects);
                (
                    PlanView {
                        operators_left: steps,
                        operators_total: seq![operator],
                        mtr: None,
                    },
                    true,
                    false,
                )
            },
            _ => {
                match decompose_spec(tree, root, st, tree[root].conditions, old.mtr) {
                    DecomposeOutcome::Success { state: _, steps, mtr } => {
                        if old.mtr == Some(mtr) && old.operators_total == ops_of(steps) {
                            (old, false, false)
                        } else {
                            (
                                PlanView {
                                    operators_left: attach_effects(steps, tree[root].effects),
                                    operators_total: ops_of(steps),
                                    mtr: Some(mtr),
                                },
                                true,
                                false,
                            )
                        }
                    },
                    DecomposeOutcome::Failure => (empty_plan(), true, false),
                    DecomposeOutcome::Rejection => (old, false, false),
                    DecomposeOutcome::Error => (old, false, true),
                }
            },
        },
    }
}

/// Mathematical image of a [`Planner`].
pub struct PlannerView {
    pub entity: u64,
    pub tree: Seq<TaskView>,
    pub store: Map<Seq<char>, ValueView>,
    pub plan: PlanView,
}

/// One planning root: its identity for the host, its task tree, its
/// live world state and its current plan.
pub struct Planner {
    entity: u64,
    tree: TaskTree,
    store: PropertyStore,
    plan: Plan,
}

impl View for Planner {
    type V = PlannerView;

    closed spec fn view(&self) -> PlannerView {
        PlannerView { entity: self.entity, tree: self.tree@, store: self.store@, plan: self.plan@ }
    }
}

fn ops_match(total: &Vec<u64>, steps: &Vec<TaskNode>) -> (r: bool)
    ensures
        r == (total@ == ops_of(step_views(steps@))),
{
    if total.len() != steps.len() {
        proof {
            assert(ops_of(step_views(steps@)).len() == steps@.len());
        }
        return false;
    }
    let n = total.len();
    let mut i: usize = 0;
    while i < n
        invariant
            n == total.len() == steps.len(),
            i <= n,
            forall|j: int| 0 <= j < i ==> total@[j] == ops_of(step_views(steps@))[j],
        decreases n - i,
    {
        proof {
            assert(ops_of(step_views(steps@))[i as int] == steps@[i as int]@.entity);
        }
        if total[i] != steps[i].entity {
            return false;
        }
        i += 1;
    }
    proof {
        assert(total@ =~= ops_of(step_views(steps@)));
    }
    true
}

fn ops_of_exec(steps: &Vec<TaskNode>) -> (r: Vec<u64>)
    ensures
        r@ == ops_of(step_views(steps@)),
{
    let n = steps.len();
    let mut r: Vec<u64> = Vec::new();
    let mut i: usize = 0;
    while i < n
        invariant
            n == steps.len(),
            i <= n,
            r@.len() == i,
            forall|j: int| 0 <= j < i ==> r@[j] == steps@[j]@.entity,
        decreases n - i,
    {
        r.push(steps[i].entity);
        i += 1;
    }
    proof {
        assert(r@ =~= ops_of(step_views(steps@)));
    }
    r
}

impl Planner {
    /// The tree is rooted and in bottom-up order, and the store keeps
    /// its keys unique.
    pub closed spec fn wf(&self) -> bool {
        &&& self.tree.wf()
        &&& self.tree@.len() > 0
        &&& self.store.wf()
    }

    /// Creates a planner over a tree and an initial world state, with an
    /// empty plan; the first tick will plan.
    pub fn new(entity: u64, tree: TaskTree, store: PropertyStore) -> (r: Planner)
        requires
            tree.wf(),
            tree@.len() > 0,
            store.wf(),
        ensures
            r.wf(),
            r@.entity == entity,
            r@.tree == tree@,
            r@.store == store@,
            r@.plan == empty_plan(),
    {
        Planner { entity, tree, store, plan: Plan::new() }
    }

    /// The planner's identity for the host.
    pub fn entity(&self) -> (r: u64)
        ensures
            r == self@.entity,
    {
        self.entity
    }

    /// The current plan.
    pub fn plan(&self) -> (r: &Plan)
        ensures
            r@ == self@.plan,
    {
        &self.plan
    }

    /// Reads a property of the live world state.
    pub fn get_prop(&self, name: &String) -> (r: Option<&Value>)
        requires
            self.wf(),
        ensures
            match r {
                Some(v) => self@.store.contains_key(name@) && v@ == self@.store[name@],
                None => !self@.store.contains_key(name@),
            },
    {
        self.store.get(name)
    }

    /// Writes a property of the live world state. The plan is not
    /// touched; queue an [`UpdatePlan`] to react to the change.
    pub fn set_prop(&mut self, name: &String, value: Value)
        requires
            old(self).wf(),
        ensures
            final(self).wf(),
            final(self)@.entity == old(self)@.entity,
            final(self)@.tree == old(self)@.tree,
            final(self)@.plan == old(self)@.plan,
            final(self)@.store == old(self)@.store.insert(name@, value@),
    {
        self.store.set(name, value);
    }

    /// Rebuilds the plan as [`replan`] says: the result is installed,
    /// and the previous plan returned, exactly when the replacement is
    /// announced; a rejected or identical decomposition leaves the
    /// running plan and its progress untouched. An ill-typed condition
    /// or effect met while planning comes back as the configuration
    /// error, with nothing installed.
    pub fn update_plan(&mut self) -> (r: Result<Option<ReplacePlan>, ConfigurationError>)
        requires
            old(self).wf(),
        ensures
            final(self).wf(),
            final(self)@.entity == old(self)@.entity,
            final(self)@.tree == old(self)@.tree,
            final(self)@.store == old(self)@.store,
            final(self)@.plan == replan(old(self)@.tree, old(self)@.store, old(self)@.plan).0,
            (r is Err) == replan(old(self)@.tree, old(self)@.store, old(self)@.plan).2,
            r matches Ok(o) ==> (o is Some) == replan(
                old(self)@.tree,
                old(self)@.store,
                old(self)@.plan,
            ).1,
            r matches Ok(Some(rp)) ==> rp.entity == old(self)@.entity && rp.old@ == old(
                self,
            )@.plan,
    {
        let root = self.tree.len() - 1;
        let world_state = self.store.clone();
        let root_conds = self.tree.conditions_of(root);
        match eval_conditions(root_conds, &world_state) {
            Err(e) => {
                return Err(e);
            },
            Ok(false) => {
                self.plan = Plan::new();
                return Ok(None);
            },
            Ok(true) => {},
        }
        match self.tree.node_kind(root) {
            TaskKind::Operator { operator } => {
                let step = TaskNode {
                    entity: operator,
                    conditions: clone_conditions(root_conds),
                    effects: Vec::new(),
                };
                let mut steps: Vec<TaskNode> = Vec::new();
                steps.push(step);
                proof {
                    assert(crate::effect::effect_views(Seq::<crate::effect::Effect>::empty())
                        =~= Seq::<crate::effect::EffectView>::empty());
                    assert(step_views(steps@) =~= seq![
                        StepView {
                            entity: operator,
                            conditions: old(self)@.tree[old(self)@.tree.len() - 1].conditions,
                            effects: Seq::empty(),
                        },
                    ]);
                }
                attach_to_back(&mut steps, self.tree.effects_of(root));
                let mut total: Vec<u64> = Vec::new();
                total.push(operator);
                let old_plan = self.plan.clone();
                self.plan = Plan { operators_left: steps, operators_total: total, mtr: Mtr::none() };
                proof {
                    assert(self.plan@.operators_total =~= seq![operator]);
                }
                Ok(Some(ReplacePlan { entity: self.entity, old: old_plan }))
            },
            _ => {
                let input = DecomposeInput {
                    world_state,
                    previous_mtr: self.plan.mtr.clone(),
                    conditions: clone_conditions(root_conds),
                };
                let result = decompose(&self.tree, root, input);
                match result {
                    DecomposeResult::Success { plan: new_plan, world_state: _ } => {
                        let mut new_plan = new_plan;
                        if self.plan.mtr.eq_mtr(&new_plan.mtr) && ops_match(
                            &self.plan.operators_total,
                            &new_plan.operators_left,
                        ) {
                            return Ok(None);
                        }
                        let ghost steps_before = step_views(new_plan.operators_left@);
                        attach_to_back(&mut new_plan.operators_left, self.tree.effects_of(root));
                        proof {
                            lemma_attach_keeps_ops(
                                steps_before,
                                old(self)@.tree[old(self)@.tree.len() - 1].effects,
                            );
                        }
                        new_plan.operators_total = ops_of_exec(&new_plan.operators_left);
                        let old_plan = self.plan.clone();
                        self.plan = new_plan;
                        Ok(Some(ReplacePlan { entity: self.entity, old: old_plan }))
                    },
                    DecomposeResult::Failure => {
                        let old_plan = self.plan.clone();
                        self.plan = Plan::new();
                        Ok(Some(ReplacePlan { entity: self.entity, old: old_plan }))
                    },
                    DecomposeResult::Rejection => Ok(None),
                    DecomposeResult::Error(e) => Err(e),
                }
            },
        }
    }

    /// Handles a re-plan request: a request for another planner does
    /// nothing.
    pub fn handle_update(&mut self, update: &UpdatePlan) -> (r: Result<
        Option<ReplacePlan>,
        ConfigurationError,
    >)
        requires
            old(self).wf(),
        ensures
            final(self).wf(),
            update.entity != old(self)@.entity ==> final(self)@ == old(self)@ && (r matches Ok(o)
                && o is None),
            update.entity == old(self)@.entity ==> {
                &&& final(self)@.entity == old(self)@.entity
                &&& final(self)@.tree == old(self)@.tree
                &&& final(self)@.store == old(self)@.store
                &&& final(self)@.plan == replan(
                    old(self)@.tree,
                    old(self)@.store,
                    old(self)@.plan,
                ).0
                &&& (r is Err) == replan(old(self)@.tree, old(self)@.store, old(self)@.plan).2
                &&& (r matches Ok(o) ==> (o is Some) == replan(
                    old(self)@.tree,
                    old(self)@.store,
                    old(self)@.plan,
                ).1)
            },
    {
        if update.entity == self.entity {
            self.update_plan()
        } else {
            Ok(None)
        }
    }

    /// Start of a tick: re-plans if and only if the plan is empty, as
    /// the re-plan protocol says; otherwise does nothing.
    pub fn update_empty_plan(&mut self) -> (r: Result<Option<ReplacePlan>, ConfigurationError>)
        requires
            old(self).wf(),
        ensures
            final(self).wf(),
            final(self)@.entity == old(self)@.entity,
            final(self)@.tree == old(self)@.tree,
            final(self)@.store == old(self)@.store,
            old(self)@.plan.operators_left.len() == 0 ==> {
                &&& final(self)@.plan == replan(
                    old(self)@.tree,
                    old(self)@.store,
                    old(self)@.plan,
                ).0
                &&& (r is Err) == replan(old(self)@.tree, old(self)@.store, old(self)@.plan).2
                &&& (r matches Ok(o) ==> (o is Some) == replan(
                    old(self)@.tree,
                    old(self)@.store,
                    old(self)@.plan,
                ).1)
            },
            old(self)@.plan.operators_left.len() > 0 ==> final(self)@ == old(self)@ && (r matches
            Ok(o) && o is None),
    {
        if self.plan.is_empty() {
            self.update_plan()
        } else {
            Ok(None)
        }
    }

    /// Middle of a tick: if a step is pending and its conditions hold
    /// against the live store, names the operator the host must now
    /// run; if its conditions fail, the plan is discarded — the step is
    /// treated as failed without running its operator — and the next
    /// tick re-plans. An ill-typed condition comes back as the
    /// configuration error, with plan and store untouched.
    pub fn execute_start(&mut self) -> (r: Result<Option<OperatorInput>, ConfigurationError>)
        requires
            old(self).wf(),
        ensures
            final(self).wf(),
            final(self)@.entity == old(self)@.entity,
            final(self)@.tree == old(self)@.tree,
            final(self)@.store == old(self)@.store,
            ({
                let p = old(self)@.plan;
                if p.operators_left.len() == 0 {
                    r matches Ok(o) && o is None && final(self)@.plan == p
                } else {
                    match conds_eval(p.operators_left[0].conditions, old(self)@.store) {
                        None => r is Err && final(self)@.plan == p,
                        Some(true) => r == Ok::<_, ConfigurationError>(
                            Some(
                                OperatorInput {
                                    entity: old(self)@.entity,
                                    operator: p.operators_left[0].entity,
                                },
                            ),
                        ) && final(self)@.plan == p,
                        Some(false) => r matches Ok(o) && o is None && final(self)@.plan
                            == empty_plan(),
                    }
                }
            }),
    {
        if self.plan.operators_left.len() == 0 {
            return Ok(None);
        }
        proof {
            assert(step_views(self.plan.operators_left@)[0] == self.plan.operators_left@[0]@);
        }
        match eval_conditions(&self.plan.operators_left[0].conditions, &self.store) {
            Err(e) => Err(e),
            Ok(true) => Ok(
                Some(
                    OperatorInput {
                        entity: self.entity,
                        operator: self.plan.operators_left[0].entity,
                    },
                ),
            ),
            Ok(false) => {
                self.plan.clear();
                Ok(None)
            },
        }
    }

    /// End of a tick, given what the operator returned. `Success` pops
    /// the step and applies its effects — except those flagged
    /// plan-only — to the live store, in attachment order; a plan that
    /// thereby empties is reset so the next tick re-plans afresh.
    /// `Ongoing` leaves everything untouched. `Failure` discards the
    /// whole plan, and the next tick re-plans. Without a pending step
    /// nothing happens. An ill-typed effect comes back as the
    /// configuration error, with plan and store untouched: the effects
    /// are applied to a copy of the store first, so the live store is
    /// never left half-written.
    pub fn execute_finish(&mut self, status: OperatorStatus) -> (r: Result<
        (),
        ConfigurationError,
    >)
        requires
            old(self).wf(),
        ensures
            final(self).wf(),
            final(self)@.entity == old(self)@.entity,
            final(self)@.tree == old(self)@.tree,
            ({
                let p = old(self)@.plan;
                if p.operators_left.len() == 0 {
                    final(self)@ == old(self)@ && r is Ok
                } else {
                    match status {
                        OperatorStatus::Success => {
                            match apply_runtime_effects(
                                p.operators_left[0].effects,
                                old(self)@.store,
                            ) {
                                Some(m2) => {
                                    &&& r is Ok
                                    &&& final(self)@.store == m2
                                    &&& final(self)@.plan == if p.operators_left.len() == 1 {
                                        empty_plan()
                                    } else {
                                        PlanView {
                                            operators_left: p.operators_left.skip(1),
                                            operators_total: p.operators_total,
                                            mtr: p.mtr,
                                        }
                                    }
                                },
                                None => r is Err && final(self)@ == old(self)@,
                            }
                        },
                        OperatorStatus::Ongoing => final(self)@ == old(self)@ && r is Ok,
                        OperatorStatus::Failure => final(self)@.store == old(self)@.store
                            && final(self)@.plan == empty_plan() && r is Ok,
                    }
                }
            }),
    {
        if self.plan.operators_left.len() == 0 {
            return Ok(());
        }
        match status {
            OperatorStatus::Success => {
                proof {
                    assert(step_views(self.plan.operators_left@)[0]
                        == self.plan.operators_left@[0]@);
                }
                let mut scratch = self.store.clone();
                match try_apply_runtime(&self.plan.operators_left[0].effects, &mut scratch) {
                    Err(e) => {
                        return Err(e);
                    },
                    Ok(_) => {},
                }
                self.store = scratch;
                let step = self.plan.operators_left.remove(0);
                proof {
                    assert(step_views(self.plan.operators_left@) =~= step_views(
                        old(self).plan.operators_left@,
                    ).skip(1));
                }
                if self.plan.operators_left.len() == 0 {
                    self.plan = Plan::new();
                }
                Ok(())
            },
            OperatorStatus::Ongoing => Ok(()),
            OperatorStatus::Failure => {
                self.plan.clear();
                Ok(())
            },
        }
    }
}

proof fn lemma_attach_keeps_ops(steps: Seq<StepView>, es: Seq<crate::effect::EffectView>)
    ensures
        ops_of(attach_effects(steps, es)) == ops_of(steps),
{
    assert(ops_of(attach_effects(steps, es)) =~= ops_of(steps));
}

} // verus!
