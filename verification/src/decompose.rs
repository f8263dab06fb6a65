//! The decomposition engine: expands a compound task into a plan.
//!
//! Decomposition walks the tree depth first and left to right, threading
//! a simulated world state, the conditions inherited from enclosing
//! nodes, and the `Select` decisions made so far. A `Sequence` needs
//! every child and fails as a whole; a `Select` takes the first child
//! that works. Before a `Select` tries a child it compares the would-be
//! priority vector with the one of the running plan, and gives the whole
//! attempt up — `Rejection` — as soon as it would commit to something
//! ranked after the running plan. An ill-typed condition or effect met
//! anywhere on the way aborts the whole attempt with `Error`: planning
//! never works around a misconfigured node.
//!
//! The executable entry point is [`decompose`]; the recursive spec
//! functions [`decompose_node`], [`decompose_select_from`] and
//! [`decompose_sequence_from`] say exactly what it returns.

use vstd::prelude::*;

use crate::condition::{
    concat_conditions, cond_views, conds_eval, eval_conditions, Condition, ConditionView,
};
use crate::effect::{apply_effects, effect_views, try_apply_all, Effect, EffectView};
use crate::error::ConfigurationError;
use crate::mtr::{mtr_rejects, Mtr};
use crate::plan::{clone_steps, step_views, Plan, StepView, TaskNode};
use crate::props::PropertyStore;
use crate::task::{tree_wf, TaskKind, TaskTree, TaskView};
use crate::value::ValueView;

verus! {

/// What one decomposition attempt came to.
pub enum DecomposeOutcome {
    /// A plan was found: the appended steps, the simulated world state
    /// after them, and the priority vector of the decisions taken.
    Success { state: Map<Seq<char>, ValueView>, steps: Seq<StepView>, mtr: Seq<usize> },
    /// A plan exists but would rank after the running plan; the attempt
    /// is abandoned so the running plan stays.
    Rejection,
    /// No plan exists under this node for the given state.
    Failure,
    /// An ill-typed condition or effect was met while planning: a
    /// configuration error, surfaced to the caller and never treated as
    /// a mere failure to plan.
    Error,
}

/// Appends effects to the last step of a step sequence; without steps
/// there is nothing to carry them, and nothing happens.
pub open spec fn attach_effects(steps: Seq<StepView>, es: Seq<EffectView>) -> Seq<StepView> {
    if steps.len() == 0 {
        steps
    } else {
        steps.update(
            steps.len() - 1,
            StepView { effects: steps.last().effects + es, ..steps.last() },
        )
    }
}

/// Decomposes the compound node `idx`. Called on an operator node it
/// fails: a bare operator root is handled by the re-plan protocol, not
/// here.
pub open spec fn decompose_node(
    tree: Seq<TaskView>,
    prev: Option<Seq<usize>>,
    idx: int,
    st: Map<Seq<char>, ValueView>,
    inh: Seq<ConditionView>,
    steps: Seq<StepView>,
    acc: Seq<usize>,
) -> DecomposeOutcome
    decreases idx, tree[idx].children.len() + 1,
    when tree_wf(tree) && 0 <= idx < tree.len()
{
    match tree[idx].kind {
        TaskKind::Operator { .. } => DecomposeOutcome::Failure,
        TaskKind::Select => decompose_select_from(tree, prev, idx, 0, st, inh, steps, acc),
        TaskKind::Sequence => decompose_sequence_from(
            tree,
            prev,
            idx,
            0,
            st,
            inh,
            steps,
            acc,
            false,
        ),
    }
}

/// Walks the children of the `Select` node `idx` from position `pos` on
/// and takes the first that can be decomposed. Skipping a child costs
/// nothing; a child ranked after the running plan rejects the whole
/// attempt.
pub open spec fn decompose_select_from(
    tree: Seq<TaskView>,
    prev: Option<Seq<usize>>,
    idx: int,
    pos: int,
    st: Map<Seq<char>, ValueView>,
    inh: Seq<ConditionView>,
    steps: Seq<StepView>,
    acc: Seq<usize>,
) -> DecomposeOutcome
    decreases idx, tree[idx].children.len() - pos,
    when tree_wf(tree) && 0 <= idx < tree.len() && 0 <= pos <= tree[idx].children.len()
{
    let children = tree[idx].children;
    if pos >= children.len() {
        DecomposeOutcome::Failure
    } else {
        let c = children[pos] as int;
        let cand = acc.push(pos as usize);
        if mtr_rejects(prev, cand) {
            DecomposeOutcome::Rejection
        } else {
            match conds_eval(tree[c].conditions, st) {
                None => DecomposeOutcome::Error,
                Some(false) => decompose_select_from(tree, prev, idx, pos + 1, st, inh, steps, acc),
                Some(true) => match tree[c].kind {
                    TaskKind::Operator { operator } => {
                        let step = StepView {
                            entity: operator,
                            conditions: inh + tree[c].conditions,
                            effects: Seq::empty(),
                        };
                        match apply_effects(tree[c].effects, st) {
                            None => DecomposeOutcome::Error,
                            Some(st2) => DecomposeOutcome::Success {
                                state: st2,
                                steps: attach_effects(steps.push(step), tree[c].effects),
                                mtr: cand,
                            },
                        }
                    },
                    _ => {
                        match decompose_node(
                            tree,
                            prev,
                            c,
                            st,
                            inh + tree[c].conditions,
                            steps,
                            cand,
                        ) {
                            DecomposeOutcome::Success { state, steps: s2, mtr } => match
                                apply_effects(tree[c].effects, state) {
                                None => DecomposeOutcome::Error,
                                Some(st3) => DecomposeOutcome::Success {
                                    state: st3,
                                    steps: attach_effects(s2, tree[c].effects),
                                    mtr,
                                },
                            },
                            DecomposeOutcome::Rejection => DecomposeOutcome::Rejection,
                            DecomposeOutcome::Error => DecomposeOutcome::Error,
                            DecomposeOutcome::Failure => decompose_select_from(
                                tree,
                                prev,
                                idx,
                                pos + 1,
                                st,
                                inh,
                                steps,
                                acc,
                            ),
                        }
                    },
                },
            }
        }
    }
}

/// Walks the children of the `Sequence` node `idx` from position `pos`
/// on; every child must contribute, in order, and each sees the
/// simulated state its predecessors left. Only the first contributing
/// child carries the inherited conditions; `found` records whether one
/// has contributed yet.
pub open spec fn decompose_sequence_from(
    tree: Seq<TaskView>,
    prev: Option<Seq<usize>>,
    idx: int,
    pos: int,
    st: Map<Seq<char>, ValueView>,
    inh: Seq<ConditionView>,
    steps: Seq<StepView>,
    acc: Seq<usize>,
    found: bool,
) -> DecomposeOutcome
    decreases idx, tree[idx].children.len() - pos,
    when tree_wf(tree) && 0 <= idx < tree.len() && 0 <= pos <= tree[idx].children.len()
{
    let children = tree[idx].children;
    if pos >= children.len() {
        if found {
            DecomposeOutcome::Success { state: st, steps, mtr: acc }
        } else {
            DecomposeOutcome::Failure
        }
    } else {
        let c = children[pos] as int;
        match conds_eval(tree[c].conditions, st) {
            None => DecomposeOutcome::Error,
            Some(false) => DecomposeOutcome::Failure,
            Some(true) => {
                let myconds = if !found {
                    inh + tree[c].conditions
                } else {
                    tree[c].conditions
                };
                match tree[c].kind {
                    TaskKind::Operator { operator } => {
                        let step = StepView {
                            entity: operator,
                            conditions: myconds,
                            effects: Seq::empty(),
                        };
                        match apply_effects(tree[c].effects, st) {
                            None => DecomposeOutcome::Error,
                            Some(st2) => decompose_sequence_from(
                                tree,
                                prev,
                                idx,
                                pos + 1,
                                st2,
                                inh,
                                attach_effects(steps.push(step), tree[c].effects),
                                acc,
                                true,
                            ),
                        }
                    },
                    _ => {
                        match decompose_node(tree, prev, c, st, myconds, steps, acc) {
                            DecomposeOutcome::Success { state, steps: s2, mtr } => match
                                apply_effects(tree[c].effects, state) {
                                None => DecomposeOutcome::Error,
                                Some(st3) => decompose_sequence_from(
                                    tree,
                                    prev,
                                    idx,
                                    pos + 1,
                                    st3,
                                    inh,
                                    attach_effects(s2, tree[c].effects),
                                    mtr,
                                    true,
                                ),
                            },
                            DecomposeOutcome::Rejection => DecomposeOutcome::Rejection,
                            DecomposeOutcome::Error => DecomposeOutcome::Error,
                            DecomposeOutcome::Failure => DecomposeOutcome::Failure,
                        }
                    },
                }
            },
        }
    }
}

/// What [`decompose`] computes: the decomposition of `task` with fresh
/// step and decision accumulators.
pub open spec fn decompose_spec(
    tree: Seq<TaskView>,
    task: int,
    st: Map<Seq<char>, ValueView>,
    inh: Seq<ConditionView>,
    prev: Option<Seq<usize>>,
) -> DecomposeOutcome {
    decompose_node(tree, prev, task, st, inh, Seq::empty(), Seq::empty())
}

/// Appends the given effects to the last step, matching
/// [`attach_effects`].
#[verifier::loop_isolation(false)]
pub(crate) fn attach_to_back(steps: &mut Vec<TaskNode>, es: &Vec<Effect>)
    ensures
        step_views(final(steps)@) == attach_effects(step_views(old(steps)@), effect_views(es@)),
{
    match steps.pop() {
        None => {
            proof {
                assert(step_views(final(steps)@) =~= attach_effects(
                    step_views(old(steps)@),
                    effect_views(es@),
                ));
            }
        },
        Some(last) => {
            let mut last = last;
            let n = es.len();
            let mut i: usize = 0;
            while i < n
                invariant
                    n == es.len(),
                    i <= n,
                    last.entity == old(steps)@.last().entity,
                    cond_views(last.conditions@) == old(steps)@.last()@.conditions,
                    effect_views(last.effects@) == old(steps)@.last()@.effects + effect_views(
                        es@,
                    ).subrange(0, i as int),
                decreases n - i,
            {
                let ghost before = last.effects@;
                last.effects.push(es[i].clone());
                proof {
                    assert(effect_views(es@)[i as int] == es@[i as int]@);
                    assert(effect_views(last.effects@) =~= effect_views(before).push(
                        effect_views(es@)[i as int],
                    ));
                    assert(effect_views(es@).subrange(0, i + 1 as int) =~= effect_views(
                        es@,
                    ).subrange(0, i as int).push(effect_views(es@)[i as int]));
                    assert(effect_views(last.effects@) =~= old(steps)@.last()@.effects
                        + effect_views(es@).subrange(0, i + 1 as int));
                }
                i += 1;
            }
            steps.push(last);
            proof {
                assert(effect_views(es@).subrange(0, es@.len() as int) =~= effect_views(es@));
                assert(step_views(final(steps)@) =~= attach_effects(
                    step_views(old(steps)@),
                    effect_views(es@),
                ));
            }
        },
    }
}

fn copy_usize_vec(v: &Vec<usize>) -> (r: Vec<usize>)
    ensures
        r@ == v@,
{
    let mut r: Vec<usize> = Vec::new();
    let n = v.len();
    let mut i: usize = 0;
    while i < n
        invariant
            n == v.len(),
            i <= n,
            r@ == v@.subrange(0, i as int),
        decreases n - i,
    {
        r.push(v[i]);
        proof {
            assert(r@ =~= v@.subrange(0, i + 1 as int));
        }
        i += 1;
    }
    proof {
        assert(r@ =~= v@);
    }
    r
}

/// Working form of an outcome during recursion.
enum Run {
    Succ { state: PropertyStore, steps: Vec<TaskNode>, mtr: Vec<usize> },
    Rej,
    Fail,
    Bad,
}

spec fn run_matches(r: Run, o: DecomposeOutcome) -> bool {
    match r {
        Run::Succ { state, steps, mtr } => o matches DecomposeOutcome::Success {
            state: ost,
            steps: osteps,
            mtr: omtr,
        } && state@ == ost && state.wf() && step_views(steps@) == osteps && mtr@ == omtr,
        Run::Rej => o is Rejection,
        Run::Fail => o is Failure,
        Run::Bad => o is Error,
    }
}

#[verifier::loop_isolation(false)]
fn run_node(
    tree: &TaskTree,
    prev: &Mtr,
    idx: usize,
    st: PropertyStore,
    inh: &Vec<Condition>,
    steps: Vec<TaskNode>,
    acc: Vec<usize>,
) -> (r: Run)
    requires
        tree.wf(),
        idx < tree@.len(),
        st.wf(),
    ensures
        run_matches(
            r,
            decompose_node(
                tree@,
                prev@,
                idx as int,
                st@,
                cond_views(inh@),
                step_views(steps@),
                acc@,
            ),
        ),
    decreases idx,
{
    let ghost target = decompose_node(
        tree@,
        prev@,
        idx as int,
        st@,
        cond_views(inh@),
        step_views(steps@),
        acc@,
    );
    match tree.node_kind(idx) {
        TaskKind::Operator { .. } => Run::Fail,
        TaskKind::Select => {
            let n = tree.child_count(idx);
            let mut pos: usize = 0;
            while pos < n
                invariant
                    tree.wf(),
                    idx < tree@.len(),
                    st.wf(),
                    n == tree@[idx as int].children.len(),
                    pos <= n,
                    tree@[idx as int].kind == TaskKind::Select,
                    target == decompose_select_from(
                        tree@,
                        prev@,
                        idx as int,
                        pos as int,
                        st@,
                        cond_views(inh@),
                        step_views(steps@),
                        acc@,
                    ),
                decreases n - pos,
            {
                let c = tree.child(idx, pos);
                let mut cand = copy_usize_vec(&acc);
                cand.push(pos);
                if prev.rejects(&cand) {
                    return Run::Rej;
                }
                let cconds = tree.conditions_of(c);
                let passed = match eval_conditions(cconds, &st) {
                    Err(_) => {
                        return Run::Bad;
                    },
                    Ok(b) => b,
                };
                if passed {
                    match tree.node_kind(c) {
                        TaskKind::Operator { operator } => {
                            let step = TaskNode {
                                entity: operator,
                                conditions: concat_conditions(inh, cconds),
                                effects: Vec::new(),
                            };
                            let mut steps2 = steps;
                            steps2.push(step);
                            proof {
                                assert(cond_views(Seq::<Condition>::empty())
                                    =~= Seq::<ConditionView>::empty());
                                assert(effect_views(Seq::<Effect>::empty())
                                    =~= Seq::<EffectView>::empty());
                                assert(step_views(steps2@) =~= step_views(steps@).push(
                                    StepView {
                                        entity: operator,
                                        conditions: cond_views(inh@) + tree@[c as int].conditions,
                                        effects: Seq::empty(),
                                    },
                                ));
                            }
                            let ceffs = tree.effects_of(c);
                            attach_to_back(&mut steps2, ceffs);
                            let mut st2 = st;
                            match try_apply_all(ceffs, &mut st2) {
                                Err(_) => {
                                    return Run::Bad;
                                },
                                Ok(_) => {},
                            }
                            return Run::Succ { state: st2, steps: steps2, mtr: cand };
                        },
                        _ => {
                            let sub = run_node(
                                tree,
                                prev,
                                c,
                                st.clone(),
                                &concat_conditions(inh, cconds),
                                clone_steps(&steps),
                                cand,
                            );
                            match sub {
                                Run::Rej => {
                                    return Run::Rej;
                                },
                                Run::Bad => {
                                    return Run::Bad;
                                },
                                Run::Fail => {},
                                Run::Succ { state, steps: s2, mtr } => {
                                    let mut st2 = state;
                                    let mut steps2 = s2;
                                    let ceffs = tree.effects_of(c);
                                    match try_apply_all(ceffs, &mut st2) {
                                        Err(_) => {
                                            return Run::Bad;
                                        },
                                        Ok(_) => {},
                                    }
                                    attach_to_back(&mut steps2, ceffs);
                                    return Run::Succ { state: st2, steps: steps2, mtr };
                                },
                            }
                        },
                    }
                }
                pos += 1;
            }
            Run::Fail
        },
        TaskKind::Sequence => {
            let ghost st0 = st@;
            let ghost steps0 = step_views(steps@);
            let ghost acc0 = acc@;
            let n = tree.child_count(idx);
            let mut st = st;
            let mut steps = steps;
            let mut acc = acc;
            let mut found = false;
            let mut pos: usize = 0;
            while pos < n
                invariant
                    tree.wf(),
                    idx < tree@.len(),
                    st.wf(),
                    n == tree@[idx as int].children.len(),
                    pos <= n,
                    tree@[idx as int].kind == TaskKind::Sequence,
                    target == decompose_sequence_from(
                        tree@,
                        prev@,
                        idx as int,
                        pos as int,
                        st@,
                        cond_views(inh@),
                        step_views(steps@),
                        acc@,
                        found,
                    ),
                decreases n - pos,
            {
                let ghost st_in = st@;
                let ghost steps_in = step_views(steps@);
                let ghost acc_in = acc@;
                let ghost found_in = found;
                let ghost c_spec = tree@[idx as int].children[pos as int] as int;
                let ghost myconds_spec = if !found {
                    cond_views(inh@) + tree@[c_spec].conditions
                } else {
                    tree@[c_spec].conditions
                };
                let c = tree.child(idx, pos);
                let cconds = tree.conditions_of(c);
                match eval_conditions(cconds, &st) {
                    Err(_) => {
                        return Run::Bad;
                    },
                    Ok(false) => {
                        return Run::Fail;
                    },
                    Ok(true) => {},
                }
                let myconds = if !found {
                    concat_conditions(inh, cconds)
                } else {
                    crate::condition::clone_conditions(cconds)
                };
                proof {
                    assert(cond_views(myconds@) == myconds_spec);
                }
                match tree.node_kind(c) {
                    TaskKind::Operator { operator } => {
                        let ghost stepv = StepView {
                            entity: operator,
                            conditions: myconds_spec,
                            effects: Seq::empty(),
                        };
                        let step = TaskNode {
                            entity: operator,
                            conditions: myconds,
                            effects: Vec::new(),
                        };
                        proof {
                            assert(effect_views(Seq::<Effect>::empty())
                                =~= Seq::<EffectView>::empty());
                            assert(step@ == stepv);
                        }
                        steps.push(step);
                        proof {
                            assert(step_views(steps@) =~= steps_in.push(stepv));
                        }
                        let ceffs = tree.effects_of(c);
                        attach_to_back(&mut steps, ceffs);
                        match try_apply_all(ceffs, &mut st) {
                            Err(_) => {
                                return Run::Bad;
                            },
                            Ok(_) => {},
                        }
                        found = true;
                        proof {
                            assert(decompose_sequence_from(
                                tree@,
                                prev@,
                                idx as int,
                                pos as int,
                                st_in,
                                cond_views(inh@),
                                steps_in,
                                acc_in,
                                found_in,
                            ) == decompose_sequence_from(
                                tree@,
                                prev@,
                                idx as int,
                                pos + 1 as int,
                                st@,
                                cond_views(inh@),
                                step_views(steps@),
                                acc@,
                                true,
                            ));
                        }
                    },
                    _ => {
                        let sub = run_node(tree, prev, c, st, &myconds, steps, acc);
                        match sub {
                            Run::Rej => {
                                return Run::Rej;
                            },
                            Run::Fail => {
                                return Run::Fail;
                            },
                            Run::Bad => {
                                return Run::Bad;
                            },
                            Run::Succ { state, steps: s2, mtr } => {
                                st = state;
                                steps = s2;
                                acc = mtr;
                                let ghost sub_state = st@;
                                let ghost sub_steps = step_views(steps@);
                                let ceffs = tree.effects_of(c);
                                match try_apply_all(ceffs, &mut st) {
                                    Err(_) => {
                                        return Run::Bad;
                                    },
                                    Ok(_) => {},
                                }
                                attach_to_back(&mut steps, ceffs);
                                found = true;
                                proof {
                                    assert(decompose_node(
                                        tree@,
                                        prev@,
                                        c_spec,
                                        st_in,
                                        myconds_spec,
                                        steps_in,
                                        acc_in,
                                    ) == (DecomposeOutcome::Success {
                                        state: sub_state,
                                        steps: sub_steps,
                                        mtr: acc@,
                                    }));
                                    assert(decompose_sequence_from(
                                        tree@,
                                        prev@,
                                        idx as int,
                                        pos as int,
                                        st_in,
                                        cond_views(inh@),
                                        steps_in,
                                        acc_in,
                                        found_in,
                                    ) == decompose_sequence_from(
                                        tree@,
                                        prev@,
                                        idx as int,
                                        pos + 1 as int,
                                        st@,
                                        cond_views(inh@),
                                        step_views(steps@),
                                        acc@,
                                        true,
                                    ));
                                }
                            },
                        }
                    },
                }
                pos += 1;
            }
            if found {
                Run::Succ { state: st, steps, mtr: acc }
            } else {
                Run::Fail
            }
        },
    }
}

/// What a decomposition call is given: the simulated world state to
/// plan against, the priority record of the running plan, and the
/// conditions inherited from the root.
pub struct DecomposeInput {
    /// Snapshot of the world state the decomposition simulates against.
    pub world_state: PropertyStore,
    /// The priority record of the currently installed plan; a record of
    /// `None` rejects nothing.
    pub previous_mtr: Mtr,
    /// Conditions the first emitted step must carry.
    pub conditions: Vec<Condition>,
}

/// The result of a decomposition attempt.
pub enum DecomposeResult {
    /// A plan was found; `plan` holds the steps and the priority record,
    /// and `world_state` the simulated state after them. The full
    /// operator list (`operators_total`) is filled in when the plan is
    /// installed.
    Success { plan: Plan, world_state: PropertyStore },
    /// A plan exists but would rank after the running one.
    Rejection,
    /// No plan exists for this state.
    Failure,
    /// An ill-typed condition or effect was met while planning: a
    /// configuration error, surfaced to the caller.
    Error(ConfigurationError),
}

/// Decomposes the task `task` of `tree`.
pub fn decompose(tree: &TaskTree, task: usize, input: DecomposeInput) -> (r: DecomposeResult)
    requires
        tree.wf(),
        task < tree@.len(),
        input.world_state.wf(),
    ensures
        ({
            let o = decompose_spec(
                tree@,
                task as int,
                input.world_state@,
                cond_views(input.conditions@),
                input.previous_mtr@,
            );
            match r {
                DecomposeResult::Success { plan, world_state } => o matches (
                DecomposeOutcome::Success { state, steps, mtr }) && world_state@ == state
                    && world_state.wf() && plan@.operators_left == steps && plan@.mtr == Some(mtr)
                    && plan@.operators_total == Seq::<u64>::empty(),
                DecomposeResult::Rejection => o is Rejection,
                DecomposeResult::Failure => o is Failure,
                DecomposeResult::Error(_) => o is Error,
            }
        }),
{
    proof {
        assert(step_views(Seq::<TaskNode>::empty()) =~= Seq::<StepView>::empty());
    }
    let sub = run_node(
        tree,
        &input.previous_mtr,
        task,
        input.world_state,
        &input.conditions,
        Vec::new(),
        Vec::new(),
    );
    match sub {
        Run::Succ { state, steps, mtr } => DecomposeResult::Success {
            plan: Plan {
                operators_left: steps,
                operators_total: Vec::new(),
                mtr: Mtr::from_choices(mtr),
            },
            world_state: state,
        },
        Run::Rej => DecomposeResult::Rejection,
        Run::Fail => DecomposeResult::Failure,
        Run::Bad => DecomposeResult::Error(ConfigurationError),
    }
}

} // verus!
