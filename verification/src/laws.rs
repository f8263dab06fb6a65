//! Proved laws of decomposition and re-planning.
//!
//! The public proof functions here state, and Verus checks, the
//! behavioural guarantees of the planner that go beyond single function
//! contracts: a sequence with an unsatisfiable child never plans, a
//! select commits to its first workable child, a re-plan never installs
//! a plan ranked after the running one, and re-planning an unchanged
//! world is idempotent and keeps the running plan's progress.

use vstd::prelude::*;

use crate::condition::{conds_eval, lemma_always_false_never_satisfied, ConditionView};
use crate::decompose::{
    decompose_node, decompose_select_from, decompose_sequence_from, decompose_spec,
    DecomposeOutcome,
};
use crate::effect::apply_effects;
use crate::mtr::{
    dominated, is_prefix, lemma_dominated_extend, lemma_lex_le_refl, lemma_prefix_lex_le,
    lemma_push_dominated, lex_le, mtr_rejects,
};
use crate::plan::{empty_plan, PlanView, StepView};
use crate::task::{tree_wf, TaskKind, TaskView};
use crate::value::ValueView;

verus! {

// ---------------------------------------------------------------------
// Basic shape facts about decomposition.
// ---------------------------------------------------------------------
/// Without a previous priority record nothing is ever rejected.
pub proof fn lemma_no_rejection_node(
    tree: Seq<TaskView>,
    idx: int,
    st: Map<Seq<char>, ValueView>,
    inh: Seq<ConditionView>,
    steps: Seq<StepView>,
    acc: Seq<usize>,
)
    requires
        tree_wf(tree),
        0 <= idx < tree.len(),
    ensures
        !(decompose_node(tree, None, idx, st, inh, steps, acc) is Rejection),
    decreases idx, tree[idx].children.len() + 1,
{
    match tree[idx].kind {
        TaskKind::Operator { .. } => {},
        TaskKind::Select => {
            lemma_no_rejection_select(tree, idx, 0, st, inh, steps, acc);
        },
        TaskKind::Sequence => {
            lemma_no_rejection_sequence(tree, idx, 0, st, inh, steps, acc, false);
        },
    }
}

proof fn lemma_no_rejection_select(
    tree: Seq<TaskView>,
    idx: int,
    pos: int,
    st: Map<Seq<char>, ValueView>,
    inh: Seq<ConditionView>,
    steps: Seq<StepView>,
    acc: Seq<usize>,
)
    requires
        tree_wf(tree),
        0 <= idx < tree.len(),
        0 <= pos <= tree[idx].children.len(),
    ensures
        !(decompose_select_from(tree, None, idx, pos, st, inh, steps, acc) is Rejection),
    decreases idx, tree[idx].children.len() - pos,
{
    let children = tree[idx].children;
    if pos < children.len() {
        let c = children[pos] as int;
        match conds_eval(tree[c].conditions, st) {
            None => {},
            Some(false) => {
                lemma_no_rejection_select(tree, idx, pos + 1, st, inh, steps, acc);
            },
            Some(true) => {
                match tree[c].kind {
                    TaskKind::Operator { .. } => {},
                    _ => {
                        lemma_no_rejection_node(
                            tree,
                            c,
                            st,
                            inh + tree[c].conditions,
                            steps,
                            acc.push(pos as usize),
                        );
                        match decompose_node(
                            tree,
                            None,
                            c,
                            st,
                            inh + tree[c].conditions,
                            steps,
                            acc.push(pos as usize),
                        ) {
                            DecomposeOutcome::Failure => {
                                lemma_no_rejection_select(tree, idx, pos + 1, st, inh, steps, acc);
                            },
                            _ => {},
                        }
                    },
                }
            },
        }
    }
}

proof fn lemma_no_rejection_sequence(
    tree: Seq<TaskView>,
    idx: int,
    pos: int,
    st: Map<Seq<char>, ValueView>,
    inh: Seq<ConditionView>,
    steps: Seq<StepView>,
    acc: Seq<usize>,
    found: bool,
)
    requires
        tree_wf(tree),
        0 <= idx < tree.len(),
        0 <= pos <= tree[idx].children.len(),
    ensures
        !(decompose_sequence_from(tree, None, idx, pos, st, inh, steps, acc, found) is Rejection),
    decreases idx, tree[idx].children.len() - pos,
{
    let children = tree[idx].children;
    if pos < children.len() {
        let c = children[pos] as int;
        match conds_eval(tree[c].conditions, st) {
            None => {},
            Some(false) => {},
            Some(true) => {
                let myconds = if !found {
                    inh + tree[c].conditions
                } else {
                    tree[c].conditions
                };
                match tree[c].kind {
                    TaskKind::Operator { operator } => {
                        let step = StepView {
                            entity: operator,
                            conditions: myconds,
                            effects: Seq::empty(),
                        };
                        match apply_effects(tree[c].effects, st) {
                            None => {},
                            Some(st2) => {
                                lemma_no_rejection_sequence(
                                    tree,
                                    idx,
                                    pos + 1,
                                    st2,
                                    inh,
                                    crate::decompose::attach_effects(
                                        steps.push(step),
                                        tree[c].effects,
                                    ),
                                    acc,
                                    true,
                                );
                            },
                        }
                    },
                    _ => {
                        lemma_no_rejection_node(tree, c, st, myconds, steps, acc);
                        match decompose_node(tree, None, c, st, myconds, steps, acc) {
                            DecomposeOutcome::Success { state, steps: s2, mtr } => {
                                match apply_effects(tree[c].effects, state) {
                                    None => {},
                                    Some(st3) => {
                                        lemma_no_rejection_sequence(
                                            tree,
                                            idx,
                                            pos + 1,
                                            st3,
                                            inh,
                                            crate::decompose::attach_effects(s2, tree[c].effects),
                                            mtr,
                                            true,
                                        );
                                    },
                                }
                            },
                            _ => {},
                        }
                    },
                }
            },
        }
    }
}

/// A successful decomposition only ever extends the decision vector it
/// was started with.
pub proof fn lemma_mtr_extends_node(
    tree: Seq<TaskView>,
    prev: Option<Seq<usize>>,
    idx: int,
    st: Map<Seq<char>, ValueView>,
    inh: Seq<ConditionView>,
    steps: Seq<StepView>,
    acc: Seq<usize>,
)
    requires
        tree_wf(tree),
        0 <= idx < tree.len(),
    ensures
        decompose_node(tree, prev, idx, st, inh, steps, acc) matches DecomposeOutcome::Success {
            mtr,
            ..
        } ==> is_prefix(acc, mtr),
    decreases idx, tree[idx].children.len() + 1,
{
    match tree[idx].kind {
        TaskKind::Operator { .. } => {},
        TaskKind::Select => {
            lemma_mtr_extends_select(tree, prev, idx, 0, st, inh, steps, acc);
        },
        TaskKind::Sequence => {
            lemma_lex_le_refl(acc);
            lemma_mtr_extends_sequence(tree, prev, idx, 0, st, inh, steps, acc, false);
        },
    }
}

proof fn lemma_is_prefix_refl(a: Seq<usize>)
    ensures
        is_prefix(a, a),
{
    assert(a =~= a.subrange(0, a.len() as int));
}

proof fn lemma_is_prefix_trans(a: Seq<usize>, b: Seq<usize>, c: Seq<usize>)
    requires
        is_prefix(a, b),
        is_prefix(b, c),
    ensures
        is_prefix(a, c),
{
    assert forall|i: int| 0 <= i < a.len() implies a[i] == c[i] by {
        assert(a[i] == b.subrange(0, a.len() as int)[i]);
        assert(b[i] == c.subrange(0, b.len() as int)[i]);
    }
    assert(a =~= c.subrange(0, a.len() as int));
}

proof fn lemma_is_prefix_push(a: Seq<usize>, x: usize)
    ensures
        is_prefix(a, a.push(x)),
{
    assert(a =~= a.push(x).subrange(0, a.len() as int));
}

proof fn lemma_mtr_extends_select(
    tree: Seq<TaskView>,
    prev: Option<Seq<usize>>,
    idx: int,
    pos: int,
    st: Map<Seq<char>, ValueView>,
    inh: Seq<ConditionView>,
    steps: Seq<StepView>,
    acc: Seq<usize>,
)
    requires
        tree_wf(tree),
        0 <= idx < tree.len(),
        0 <= pos <= tree[idx].children.len(),
    ensures
        decompose_select_from(
            tree,
            prev,
            idx,
            pos,
            st,
            inh,
            steps,
            acc,
        ) matches DecomposeOutcome::Success { mtr, .. } ==> is_prefix(acc, mtr) && mtr.len()
            > acc.len() && mtr[acc.len() as int] >= pos,
    decreases idx, tree[idx].children.len() - pos,
{
    let children = tree[idx].children;
    if pos < children.len() {
        let c = children[pos] as int;
        let cand = acc.push(pos as usize);
        if !mtr_rejects(prev, cand) {
            match conds_eval(tree[c].conditions, st) {
                None => {},
                Some(false) => {
                    lemma_mtr_extends_select(tree, prev, idx, pos + 1, st, inh, steps, acc);
                },
                Some(true) => {
                    match tree[c].kind {
                        TaskKind::Operator { .. } => {
                            lemma_is_prefix_push(acc, pos as usize);
                        },
                        _ => {
                            lemma_mtr_extends_node(
                                tree,
                                prev,
                                c,
                                st,
                                inh + tree[c].conditions,
                                steps,
                                cand,
                            );
                            match decompose_node(
                                tree,
                                prev,
                                c,
                                st,
                                inh + tree[c].conditions,
                                steps,
                                cand,
                            ) {
                                DecomposeOutcome::Success { mtr, .. } => {
                                    lemma_is_prefix_push(acc, pos as usize);
                                    lemma_is_prefix_trans(acc, cand, mtr);
                                    assert(cand[acc.len() as int] == mtr.subrange(
                                        0,
                                        cand.len() as int,
                                    )[acc.len() as int]);
                                    assert(mtr[acc.len() as int] == pos);
                                },
                                DecomposeOutcome::Failure => {
                                    lemma_mtr_extends_select(
                                        tree,
                                        prev,
                                        idx,
                                        pos + 1,
                                        st,
                                        inh,
                                        steps,
                                        acc,
                                    );
                                },
                                _ => {},
                            }
                        },
                    }
                },
            }
        }
    }
}

proof fn lemma_mtr_extends_sequence(
    tree: Seq<TaskView>,
    prev: Option<Seq<usize>>,
    idx: int,
    pos: int,
    st: Map<Seq<char>, ValueView>,
    inh: Seq<ConditionView>,
    steps: Seq<StepView>,
    acc: Seq<usize>,
    found: bool,
)
    requires
        tree_wf(tree),
        0 <= idx < tree.len(),
        0 <= pos <= tree[idx].children.len(),
    ensures
        decompose_sequence_from(
            tree,
            prev,
            idx,
            pos,
            st,
            inh,
            steps,
            acc,
            found,
        ) matches DecomposeOutcome::Success { mtr, .. } ==> is_prefix(acc, mtr),
    decreases idx, tree[idx].children.len() - pos,
{
    let children = tree[idx].children;
    if pos >= children.len() {
        lemma_is_prefix_refl(acc);
    } else {
        let c = children[pos] as int;
        match conds_eval(tree[c].conditions, st) {
            None => {},
            Some(false) => {},
            Some(true) => {
                let myconds = if !found {
                    inh + tree[c].conditions
                } else {
                    tree[c].conditions
                };
                match tree[c].kind {
                    TaskKind::Operator { operator } => {
                        let step = StepView {
                            entity: operator,
                            conditions: myconds,
                            effects: Seq::empty(),
                        };
                        match apply_effects(tree[c].effects, st) {
                            None => {},
                            Some(st2) => {
                                lemma_mtr_extends_sequence(
                                    tree,
                                    prev,
                                    idx,
                                    pos + 1,
                                    st2,
                                    inh,
                                    crate::decompose::attach_effects(
                                        steps.push(step),
                                        tree[c].effects,
                                    ),
                                    acc,
                                    true,
                                );
                            },
                        }
                    },
                    _ => {
                        lemma_mtr_extends_node(tree, prev, c, st, myconds, steps, acc);
                        match decompose_node(tree, prev, c, st, myconds, steps, acc) {
                            DecomposeOutcome::Success { state, steps: s2, mtr } => {
                                match apply_effects(tree[c].effects, state) {
                                    None => {},
                                    Some(st3) => {
                                        lemma_mtr_extends_sequence(
                                            tree,
                                            prev,
                                            idx,
                                            pos + 1,
                                            st3,
                                            inh,
                                            crate::decompose::attach_effects(s2, tree[c].effects),
                                            mtr,
                                            true,
                                        );
                                        match decompose_sequence_from(
                                            tree,
                                            prev,
                                            idx,
                                            pos + 1,
                                            st3,
                                            inh,
                                            crate::decompose::attach_effects(s2, tree[c].effects),
                                            mtr,
                                            true,
                                        ) {
                                            DecomposeOutcome::Success { mtr: m2, .. } => {
                                                lemma_is_prefix_trans(acc, mtr, m2);
                                            },
                                            _ => {},
                                        }
                                    },
                                }
                            },
                            _ => {},
                        }
                    },
                }
            },
        }
    }
}

// ---------------------------------------------------------------------
// Sequence atomicity.
// ---------------------------------------------------------------------
/// A `Sequence` among whose children one carries the condition that
/// never holds cannot decompose: planning it fails outright — or
/// surfaces a configuration error met on the way — whatever the world
/// state. A sequence is all-or-nothing at plan-build time.
pub proof fn lemma_sequence_atomicity(
    tree: Seq<TaskView>,
    idx: int,
    st: Map<Seq<char>, ValueView>,
    inh: Seq<ConditionView>,
    steps: Seq<StepView>,
    acc: Seq<usize>,
    k: int,
)
    requires
        tree_wf(tree),
        0 <= idx < tree.len(),
        tree[idx].kind == TaskKind::Sequence,
        0 <= k < tree[idx].children.len(),
        tree[tree[idx].children[k] as int].conditions.contains(ConditionView::AlwaysFalse),
    ensures
        decompose_node(tree, None, idx, st, inh, steps, acc) is Failure || decompose_node(
            tree,
            None,
            idx,
            st,
            inh,
            steps,
            acc,
        ) is Error,
{
    lemma_sequence_atomicity_from(tree, idx, 0, k, st, inh, steps, acc, false);
}

proof fn lemma_sequence_atomicity_from(
    tree: Seq<TaskView>,
    idx: int,
    pos: int,
    k: int,
    st: Map<Seq<char>, ValueView>,
    inh: Seq<ConditionView>,
    steps: Seq<StepView>,
    acc: Seq<usize>,
    found: bool,
)
    requires
        tree_wf(tree),
        0 <= idx < tree.len(),
        0 <= pos <= k < tree[idx].children.len(),
        tree[tree[idx].children[k] as int].conditions.contains(ConditionView::AlwaysFalse),
    ensures
        decompose_sequence_from(tree, None, idx, pos, st, inh, steps, acc, found) is Failure
            || decompose_sequence_from(tree, None, idx, pos, st, inh, steps, acc, found) is Error,
    decreases k - pos,
{
    let children = tree[idx].children;
    let c = children[pos] as int;
    match conds_eval(tree[c].conditions, st) {
        None => {},
        Some(false) => {},
        Some(true) => {
            if pos == k {
                let i = choose|i: int|
                    0 <= i < tree[c].conditions.len() && tree[c].conditions[i]
                        == ConditionView::AlwaysFalse;
                lemma_always_false_never_satisfied(tree[c].conditions, st, i);
                assert(false);
            } else {
                let myconds = if !found {
                    inh + tree[c].conditions
                } else {
                    tree[c].conditions
                };
                match tree[c].kind {
                    TaskKind::Operator { operator } => {
                        let step = StepView {
                            entity: operator,
                            conditions: myconds,
                            effects: Seq::empty(),
                        };
                        match apply_effects(tree[c].effects, st) {
                            None => {},
                            Some(st2) => {
                                lemma_sequence_atomicity_from(
                                    tree,
                                    idx,
                                    pos + 1,
                                    k,
                                    st2,
                                    inh,
                                    crate::decompose::attach_effects(
                                        steps.push(step),
                                        tree[c].effects,
                                    ),
                                    acc,
                                    true,
                                );
                            },
                        }
                    },
                    _ => {
                        lemma_no_rejection_node(tree, c, st, myconds, steps, acc);
                        match decompose_node(tree, None, c, st, myconds, steps, acc) {
                            DecomposeOutcome::Success { state, steps: s2, mtr } => {
                                match apply_effects(tree[c].effects, state) {
                                    None => {},
                                    Some(st3) => {
                                        lemma_sequence_atomicity_from(
                                            tree,
                                            idx,
                                            pos + 1,
                                            k,
                                            st3,
                                            inh,
                                            crate::decompose::attach_effects(s2, tree[c].effects),
                                            mtr,
                                            true,
                                        );
                                    },
                                }
                            },
                            _ => {},
                        }
                    },
                }
            }
        },
    }
}

/// At the re-plan level: when the root is such a sequence and nothing is
/// running (the installed plan carries no priority record), re-planning
/// installs the empty plan — or surfaces a configuration error and
/// installs nothing at all.
pub proof fn lemma_sequence_atomicity_replan(
    tree: Seq<TaskView>,
    st: Map<Seq<char>, ValueView>,
    old: PlanView,
    k: int,
)
    requires
        tree_wf(tree),
        tree.len() > 0,
        tree[tree.len() - 1].kind == TaskKind::Sequence,
        0 <= k < tree[tree.len() - 1].children.len(),
        tree[tree[tree.len() - 1].children[k] as int].conditions.contains(
            ConditionView::AlwaysFalse,
        ),
        old.mtr is None,
    ensures
        crate::engine::replan(tree, st, old).0 == empty_plan() || crate::engine::replan(
            tree,
            st,
            old,
        ).2,
{
    let root = tree.len() - 1;
    match conds_eval(tree[root].conditions, st) {
        None => {},
        Some(false) => {},
        Some(true) => {
            lemma_sequence_atomicity(
                tree,
                root,
                st,
                tree[root].conditions,
                Seq::empty(),
                Seq::empty(),
                k,
            );
        },
    }
}

// ---------------------------------------------------------------------
// Select takes its first workable child.
// ---------------------------------------------------------------------
/// Whether the `pos`-th child of the `Select` node `idx` is passed over
/// when tried without a running plan: its conditions evaluate cleanly
/// to unmet, or they hold and it is a compound that fails to decompose.
/// A child whose evaluation errs is not passed over — it aborts the
/// whole decomposition.
pub open spec fn select_child_skipped(
    tree: Seq<TaskView>,
    idx: int,
    pos: int,
    st: Map<Seq<char>, ValueView>,
    inh: Seq<ConditionView>,
    steps: Seq<StepView>,
    acc: Seq<usize>,
) -> bool {
    let c = tree[idx].children[pos] as int;
    conds_eval(tree[c].conditions, st) == Some(false) || (conds_eval(tree[c].conditions, st)
        == Some(true) && !(tree[c].kind matches TaskKind::Operator { .. }) && decompose_node(
        tree,
        None,
        c,
        st,
        inh + tree[c].conditions,
        steps,
        acc.push(pos as usize),
    ) is Failure)
}

/// First-match: without a running plan, a `Select` decomposes exactly as
/// the walk that starts at its first child that is not passed over —
/// everything before is skipped without a trace.
pub proof fn lemma_select_first_match(
    tree: Seq<TaskView>,
    idx: int,
    st: Map<Seq<char>, ValueView>,
    inh: Seq<ConditionView>,
    steps: Seq<StepView>,
    acc: Seq<usize>,
    j: int,
)
    requires
        tree_wf(tree),
        0 <= idx < tree.len(),
        tree[idx].kind == TaskKind::Select,
        0 <= j <= tree[idx].children.len(),
        forall|k: int| 0 <= k < j ==> select_child_skipped(tree, idx, k, st, inh, steps, acc),
    ensures
        decompose_node(tree, None, idx, st, inh, steps, acc) == decompose_select_from(
            tree,
            None,
            idx,
            j,
            st,
            inh,
            steps,
            acc,
        ),
{
    lemma_select_skips_to(tree, idx, 0, j, st, inh, steps, acc);
}

proof fn lemma_select_skips_to(
    tree: Seq<TaskView>,
    idx: int,
    pos: int,
    j: int,
    st: Map<Seq<char>, ValueView>,
    inh: Seq<ConditionView>,
    steps: Seq<StepView>,
    acc: Seq<usize>,
)
    requires
        tree_wf(tree),
        0 <= idx < tree.len(),
        0 <= pos <= j <= tree[idx].children.len(),
        forall|k: int| pos <= k < j ==> select_child_skipped(tree, idx, k, st, inh, steps, acc),
    ensures
        decompose_select_from(tree, None, idx, pos, st, inh, steps, acc)
            == decompose_select_from(tree, None, idx, j, st, inh, steps, acc),
    decreases j - pos,
{
    if pos < j {
        assert(select_child_skipped(tree, idx, pos, st, inh, steps, acc));
        lemma_select_skips_to(tree, idx, pos + 1, j, st, inh, steps, acc);
    }
}

// ---------------------------------------------------------------------
// Priority non-regression.
// ---------------------------------------------------------------------
/// Against the record `p` of a running plan, a decomposition can only
/// succeed with a record ranked at or before `p`: the planner never
/// trades the running plan for a lower-priority one.
pub proof fn lemma_priority_non_regression_node(
    tree: Seq<TaskView>,
    p: Seq<usize>,
    idx: int,
    st: Map<Seq<char>, ValueView>,
    inh: Seq<ConditionView>,
    steps: Seq<StepView>,
    acc: Seq<usize>,
)
    requires
        tree_wf(tree),
        0 <= idx < tree.len(),
        lex_le(acc, p),
    ensures
        decompose_node(tree, Some(p), idx, st, inh, steps, acc) matches DecomposeOutcome::Success {
            mtr,
            ..
        } ==> lex_le(mtr, p),
    decreases idx, tree[idx].children.len() + 1,
{
    match tree[idx].kind {
        TaskKind::Operator { .. } => {},
        TaskKind::Select => {
            lemma_priority_non_regression_select(tree, p, idx, 0, st, inh, steps, acc);
        },
        TaskKind::Sequence => {
            lemma_priority_non_regression_sequence(tree, p, idx, 0, st, inh, steps, acc, false);
        },
    }
}

proof fn lemma_priority_non_regression_select(
    tree: Seq<TaskView>,
    p: Seq<usize>,
    idx: int,
    pos: int,
    st: Map<Seq<char>, ValueView>,
    inh: Seq<ConditionView>,
    steps: Seq<StepView>,
    acc: Seq<usize>,
)
    requires
        tree_wf(tree),
        0 <= idx < tree.len(),
        0 <= pos <= tree[idx].children.len(),
        lex_le(acc, p),
    ensures
        decompose_select_from(
            tree,
            Some(p),
            idx,
            pos,
            st,
            inh,
            steps,
            acc,
        ) matches DecomposeOutcome::Success { mtr, .. } ==> lex_le(mtr, p),
    decreases idx, tree[idx].children.len() - pos,
{
    let children = tree[idx].children;
    if pos < children.len() {
        let c = children[pos] as int;
        let cand = acc.push(pos as usize);
        if !mtr_rejects(Some(p), cand) {
            match conds_eval(tree[c].conditions, st) {
                None => {},
                Some(false) => {
                    lemma_priority_non_regression_select(
                        tree,
                        p,
                        idx,
                        pos + 1,
                        st,
                        inh,
                        steps,
                        acc,
                    );
                },
                Some(true) => {
                    match tree[c].kind {
                        TaskKind::Operator { .. } => {},
                        _ => {
                            lemma_priority_non_regression_node(
                                tree,
                                p,
                                c,
                                st,
                                inh + tree[c].conditions,
                                steps,
                                cand,
                            );
                            match decompose_node(
                                tree,
                                Some(p),
                                c,
                                st,
                                inh + tree[c].conditions,
                                steps,
                                cand,
                            ) {
                                DecomposeOutcome::Failure => {
                                    lemma_priority_non_regression_select(
                                        tree,
                                        p,
                                        idx,
                                        pos + 1,
                                        st,
                                        inh,
                                        steps,
                                        acc,
                                    );
                                },
                                _ => {},
                            }
                        },
                    }
                },
            }
        }
    }
}

proof fn lemma_priority_non_regression_sequence(
    tree: Seq<TaskView>,
    p: Seq<usize>,
    idx: int,
    pos: int,
    st: Map<Seq<char>, ValueView>,
    inh: Seq<ConditionView>,
    steps: Seq<StepView>,
    acc: Seq<usize>,
    found: bool,
)
    requires
        tree_wf(tree),
        0 <= idx < tree.len(),
        0 <= pos <= tree[idx].children.len(),
        lex_le(acc, p),
    ensures
        decompose_sequence_from(
            tree,
            Some(p),
            idx,
            pos,
            st,
            inh,
            steps,
            acc,
            found,
        ) matches DecomposeOutcome::Success { mtr, .. } ==> lex_le(mtr, p),
    decreases idx, tree[idx].children.len() - pos,
{
    let children = tree[idx].children;
    if pos < children.len() {
        let c = children[pos] as int;
        match conds_eval(tree[c].conditions, st) {
            None => {},
            Some(false) => {},
            Some(true) => {
                let myconds = if !found {
                    inh + tree[c].conditions
                } else {
                    tree[c].conditions
                };
                match tree[c].kind {
                    TaskKind::Operator { operator } => {
                        let step = StepView {
                            entity: operator,
                            conditions: myconds,
                            effects: Seq::empty(),
                        };
                        match apply_effects(tree[c].effects, st) {
                            None => {},
                            Some(st2) => {
                                lemma_priority_non_regression_sequence(
                                    tree,
                                    p,
                                    idx,
                                    pos + 1,
                                    st2,
                                    inh,
                                    crate::decompose::attach_effects(
                                        steps.push(step),
                                        tree[c].effects,
                                    ),
                                    acc,
                                    true,
                                );
                            },
                        }
                    },
                    _ => {
                        lemma_priority_non_regression_node(tree, p, c, st, myconds, steps, acc);
                        match decompose_node(tree, Some(p), c, st, myconds, steps, acc) {
                            DecomposeOutcome::Success { state, steps: s2, mtr } => {
                                match apply_effects(tree[c].effects, state) {
                                    None => {},
                                    Some(st3) => {
                                        lemma_priority_non_regression_sequence(
                                            tree,
                                            p,
                                            idx,
                                            pos + 1,
                                            st3,
                                            inh,
                                            crate::decompose::attach_effects(s2, tree[c].effects),
                                            mtr,
                                            true,
                                        );
                                    },
                                }
                            },
                            _ => {},
                        }
                    },
                }
            },
        }
    }
}

/// At the re-plan level: while a plan with priority record `p` is
/// installed, whatever re-planning installs carries a record ranked at
/// or before `p` — in particular, at the first decision where the
/// records differ, the new plan committed to an earlier branch.
pub proof fn lemma_replan_priority(
    tree: Seq<TaskView>,
    st: Map<Seq<char>, ValueView>,
    old: PlanView,
    p: Seq<usize>,
)
    requires
        tree_wf(tree),
        tree.len() > 0,
        old.mtr == Some(p),
    ensures
        crate::engine::replan(tree, st, old).0.mtr matches Some(q) ==> lex_le(q, p),
{
    let root = tree.len() - 1;
    match conds_eval(tree[root].conditions, st) {
        None => {
            lemma_lex_le_refl(p);
        },
        Some(false) => {},
        Some(true) => {
            match tree[root].kind {
                TaskKind::Operator { .. } => {},
                _ => {
                    lemma_lex_le_refl(p);
                    assert(is_prefix(Seq::<usize>::empty(), p)) by {
                        assert(Seq::<usize>::empty() =~= p.subrange(0, 0));
                    }
                    lemma_priority_non_regression_node(
                        tree,
                        p,
                        root,
                        st,
                        tree[root].conditions,
                        Seq::empty(),
                        Seq::empty(),
                    );
                },
            }
        },
    }
}

// ---------------------------------------------------------------------
// When the previous record is immaterial.
// ---------------------------------------------------------------------
/// Once the running decision vector has fallen strictly below `p`, the
/// record `p` can no longer reject anything: decomposition proceeds as
/// if there were no running plan at all.
proof fn lemma_dominated_ignores_previous_node(
    tree: Seq<TaskView>,
    p: Seq<usize>,
    idx: int,
    st: Map<Seq<char>, ValueView>,
    inh: Seq<ConditionView>,
    steps: Seq<StepView>,
    acc: Seq<usize>,
)
    requires
        tree_wf(tree),
        0 <= idx < tree.len(),
        dominated(acc, p),
    ensures
        decompose_node(tree, Some(p), idx, st, inh, steps, acc) == decompose_node(
            tree,
            None,
            idx,
            st,
            inh,
            steps,
            acc,
        ),
    decreases idx, tree[idx].children.len() + 1,
{
    match tree[idx].kind {
        TaskKind::Operator { .. } => {},
        TaskKind::Select => {
            lemma_dominated_ignores_previous_select(tree, p, idx, 0, st, inh, steps, acc);
        },
        TaskKind::Sequence => {
            lemma_dominated_ignores_previous_sequence(tree, p, idx, 0, st, inh, steps, acc, false);
        },
    }
}

proof fn lemma_dominated_ignores_previous_select(
    tree: Seq<TaskView>,
    p: Seq<usize>,
    idx: int,
    pos: int,
    st: Map<Seq<char>, ValueView>,
    inh: Seq<ConditionView>,
    steps: Seq<StepView>,
    acc: Seq<usize>,
)
    requires
        tree_wf(tree),
        0 <= idx < tree.len(),
        0 <= pos <= tree[idx].children.len(),
        dominated(acc, p),
    ensures
        decompose_select_from(tree, Some(p), idx, pos, st, inh, steps, acc)
            == decompose_select_from(tree, None, idx, pos, st, inh, steps, acc),
    decreases idx, tree[idx].children.len() - pos,
{
    let children = tree[idx].children;
    if pos < children.len() {
        let c = children[pos] as int;
        let cand = acc.push(pos as usize);
        lemma_is_prefix_push(acc, pos as usize);
        lemma_dominated_extend(acc, p, cand);
        match conds_eval(tree[c].conditions, st) {
            None => {},
            Some(false) => {
                lemma_dominated_ignores_previous_select(tree, p, idx, pos + 1, st, inh, steps, acc);
            },
            Some(true) => {
                match tree[c].kind {
                    TaskKind::Operator { .. } => {},
                    _ => {
                        lemma_dominated_ignores_previous_node(
                            tree,
                            p,
                            c,
                            st,
                            inh + tree[c].conditions,
                            steps,
                            cand,
                        );
                        match decompose_node(
                            tree,
                            None,
                            c,
                            st,
                            inh + tree[c].conditions,
                            steps,
                            cand,
                        ) {
                            DecomposeOutcome::Failure => {
                                lemma_dominated_ignores_previous_select(
                                    tree,
                                    p,
                                    idx,
                                    pos + 1,
                                    st,
                                    inh,
                                    steps,
                                    acc,
                                );
                            },
                            _ => {},
                        }
                    },
                }
            },
        }
    }
}

proof fn lemma_dominated_ignores_previous_sequence(
    tree: Seq<TaskView>,
    p: Seq<usize>,
    idx: int,
    pos: int,
    st: Map<Seq<char>, ValueView>,
    inh: Seq<ConditionView>,
    steps: Seq<StepView>,
    acc: Seq<usize>,
    found: bool,
)
    requires
        tree_wf(tree),
        0 <= idx < tree.len(),
        0 <= pos <= tree[idx].children.len(),
        dominated(acc, p),
    ensures
        decompose_sequence_from(tree, Some(p), idx, pos, st, inh, steps, acc, found)
            == decompose_sequence_from(tree, None, idx, pos, st, inh, steps, acc, found),
    decreases idx, tree[idx].children.len() - pos,
{
    let children = tree[idx].children;
    if pos < children.len() {
        let c = children[pos] as int;
        match conds_eval(tree[c].conditions, st) {
            None => {},
            Some(false) => {},
            Some(true) => {
                let myconds = if !found {
                    inh + tree[c].conditions
                } else {
                    tree[c].conditions
                };
                match tree[c].kind {
                    TaskKind::Operator { operator } => {
                        let step = StepView {
                            entity: operator,
                            conditions: myconds,
                            effects: Seq::empty(),
                        };
                        match apply_effects(tree[c].effects, st) {
                            None => {},
                            Some(st2) => {
                                lemma_dominated_ignores_previous_sequence(
                                    tree,
                                    p,
                                    idx,
                                    pos + 1,
                                    st2,
                                    inh,
                                    crate::decompose::attach_effects(
                                        steps.push(step),
                                        tree[c].effects,
                                    ),
                                    acc,
                                    true,
                                );
                            },
                        }
                    },
                    _ => {
                        lemma_dominated_ignores_previous_node(tree, p, c, st, myconds, steps, acc);
                        lemma_mtr_extends_node(tree, None, c, st, myconds, steps, acc);
                        match decompose_node(tree, None, c, st, myconds, steps, acc) {
                            DecomposeOutcome::Success { state, steps: s2, mtr } => {
                                lemma_dominated_extend(acc, p, mtr);
                                match apply_effects(tree[c].effects, state) {
                                    None => {},
                                    Some(st3) => {
                                        lemma_dominated_ignores_previous_sequence(
                                            tree,
                                            p,
                                            idx,
                                            pos + 1,
                                            st3,
                                            inh,
                                            crate::decompose::attach_effects(s2, tree[c].effects),
                                            mtr,
                                            true,
                                        );
                                    },
                                }
                            },
                            _ => {},
                        }
                    },
                }
            },
        }
    }
}

/// A decomposition that was not rejected never consulted the running
/// record: it comes out the same without one.
proof fn lemma_unrejected_ignores_previous_node(
    tree: Seq<TaskView>,
    p: Seq<usize>,
    idx: int,
    st: Map<Seq<char>, ValueView>,
    inh: Seq<ConditionView>,
    steps: Seq<StepView>,
    acc: Seq<usize>,
)
    requires
        tree_wf(tree),
        0 <= idx < tree.len(),
        !(decompose_node(tree, Some(p), idx, st, inh, steps, acc) is Rejection),
    ensures
        decompose_node(tree, Some(p), idx, st, inh, steps, acc) == decompose_node(
            tree,
            None,
            idx,
            st,
            inh,
            steps,
            acc,
        ),
    decreases idx, tree[idx].children.len() + 1,
{
    match tree[idx].kind {
        TaskKind::Operator { .. } => {},
        TaskKind::Select => {
            lemma_unrejected_ignores_previous_select(tree, p, idx, 0, st, inh, steps, acc);
        },
        TaskKind::Sequence => {
            lemma_unrejected_ignores_previous_sequence(tree, p, idx, 0, st, inh, steps, acc, false);
        },
    }
}

proof fn lemma_unrejected_ignores_previous_select(
    tree: Seq<TaskView>,
    p: Seq<usize>,
    idx: int,
    pos: int,
    st: Map<Seq<char>, ValueView>,
    inh: Seq<ConditionView>,
    steps: Seq<StepView>,
    acc: Seq<usize>,
)
    requires
        tree_wf(tree),
        0 <= idx < tree.len(),
        0 <= pos <= tree[idx].children.len(),
        !(decompose_select_from(tree, Some(p), idx, pos, st, inh, steps, acc) is Rejection),
    ensures
        decompose_select_from(tree, Some(p), idx, pos, st, inh, steps, acc)
            == decompose_select_from(tree, None, idx, pos, st, inh, steps, acc),
    decreases idx, tree[idx].children.len() - pos,
{
    let children = tree[idx].children;
    if pos < children.len() {
        let c = children[pos] as int;
        let cand = acc.push(pos as usize);
        assert(!mtr_rejects(Some(p), cand));
        match conds_eval(tree[c].conditions, st) {
            None => {},
            Some(false) => {
                lemma_unrejected_ignores_previous_select(
                    tree,
                    p,
                    idx,
                    pos + 1,
                    st,
                    inh,
                    steps,
                    acc,
                );
            },
            Some(true) => {
                match tree[c].kind {
                    TaskKind::Operator { .. } => {},
                    _ => {
                        assert(!(decompose_node(
                            tree,
                            Some(p),
                            c,
                            st,
                            inh + tree[c].conditions,
                            steps,
                            cand,
                        ) is Rejection));
                        lemma_unrejected_ignores_previous_node(
                            tree,
                            p,
                            c,
                            st,
                            inh + tree[c].conditions,
                            steps,
                            cand,
                        );
                        match decompose_node(
                            tree,
                            None,
                            c,
                            st,
                            inh + tree[c].conditions,
                            steps,
                            cand,
                        ) {
                            DecomposeOutcome::Failure => {
                                lemma_unrejected_ignores_previous_select(
                                    tree,
                                    p,
                                    idx,
                                    pos + 1,
                                    st,
                                    inh,
                                    steps,
                                    acc,
                                );
                            },
                            _ => {},
                        }
                    },
                }
            },
        }
    }
}

proof fn lemma_unrejected_ignores_previous_sequence(
    tree: Seq<TaskView>,
    p: Seq<usize>,
    idx: int,
    pos: int,
    st: Map<Seq<char>, ValueView>,
    inh: Seq<ConditionView>,
    steps: Seq<StepView>,
    acc: Seq<usize>,
    found: bool,
)
    requires
        tree_wf(tree),
        0 <= idx < tree.len(),
        0 <= pos <= tree[idx].children.len(),
        !(decompose_sequence_from(tree, Some(p), idx, pos, st, inh, steps, acc, found)
            is Rejection),
    ensures
        decompose_sequence_from(tree, Some(p), idx, pos, st, inh, steps, acc, found)
            == decompose_sequence_from(tree, None, idx, pos, st, inh, steps, acc, found),
    decreases idx, tree[idx].children.len() - pos,
{
    let children = tree[idx].children;
    if pos < children.len() {
        let c = children[pos] as int;
        match conds_eval(tree[c].conditions, st) {
            None => {},
            Some(false) => {},
            Some(true) => {
                let myconds = if !found {
                    inh + tree[c].conditions
                } else {
                    tree[c].conditions
                };
                match tree[c].kind {
                    TaskKind::Operator { operator } => {
                        let step = StepView {
                            entity: operator,
                            conditions: myconds,
                            effects: Seq::empty(),
                        };
                        match apply_effects(tree[c].effects, st) {
                            None => {},
                            Some(st2) => {
                                lemma_unrejected_ignores_previous_sequence(
                                    tree,
                                    p,
                                    idx,
                                    pos + 1,
                                    st2,
                                    inh,
                                    crate::decompose::attach_effects(
                                        steps.push(step),
                                        tree[c].effects,
                                    ),
                                    acc,
                                    true,
                                );
                            },
                        }
                    },
                    _ => {
                        assert(!(decompose_node(tree, Some(p), c, st, myconds, steps, acc)
                            is Rejection));
                        lemma_unrejected_ignores_previous_node(tree, p, c, st, myconds, steps, acc);
                        match decompose_node(tree, None, c, st, myconds, steps, acc) {
                            DecomposeOutcome::Success { state, steps: s2, mtr } => {
                                match apply_effects(tree[c].effects, state) {
                                    None => {},
                                    Some(st3) => {
                                        lemma_unrejected_ignores_previous_sequence(
                                            tree,
                                            p,
                                            idx,
                                            pos + 1,
                                            st3,
                                            inh,
                                            crate::decompose::attach_effects(s2, tree[c].effects),
                                            mtr,
                                            true,
                                        );
                                    },
                                }
                            },
                            _ => {},
                        }
                    },
                }
            },
        }
    }
}

// ---------------------------------------------------------------------
// Re-running against a record the found plan already satisfies.
// ---------------------------------------------------------------------
/// A decomposition that succeeds without a running record also succeeds,
/// with the very same result, against any record `p` ranked at or after
/// its own vector: the checks it now faces all pass.
proof fn lemma_rerun_node(
    tree: Seq<TaskView>,
    p: Seq<usize>,
    idx: int,
    st: Map<Seq<char>, ValueView>,
    inh: Seq<ConditionView>,
    steps: Seq<StepView>,
    acc: Seq<usize>,
)
    requires
        tree_wf(tree),
        0 <= idx < tree.len(),
        decompose_node(tree, None, idx, st, inh, steps, acc) matches DecomposeOutcome::Success {
            mtr,
            ..
        } && is_prefix(acc, mtr) && lex_le(mtr, p),
    ensures
        decompose_node(tree, Some(p), idx, st, inh, steps, acc) == decompose_node(
            tree,
            None,
            idx,
            st,
            inh,
            steps,
            acc,
        ),
    decreases idx, tree[idx].children.len() + 1,
{
    match tree[idx].kind {
        TaskKind::Operator { .. } => {},
        TaskKind::Select => {
            lemma_rerun_select(tree, p, idx, 0, st, inh, steps, acc);
        },
        TaskKind::Sequence => {
            lemma_rerun_sequence(tree, p, idx, 0, st, inh, steps, acc, false);
        },
    }
}

proof fn lemma_rerun_select(
    tree: Seq<TaskView>,
    p: Seq<usize>,
    idx: int,
    pos: int,
    st: Map<Seq<char>, ValueView>,
    inh: Seq<ConditionView>,
    steps: Seq<StepView>,
    acc: Seq<usize>,
)
    requires
        tree_wf(tree),
        0 <= idx < tree.len(),
        0 <= pos <= tree[idx].children.len(),
        decompose_select_from(
            tree,
            None,
            idx,
            pos,
            st,
            inh,
            steps,
            acc,
        ) matches DecomposeOutcome::Success { mtr, .. } && is_prefix(acc, mtr) && lex_le(mtr, p),
    ensures
        decompose_select_from(tree, Some(p), idx, pos, st, inh, steps, acc)
            == decompose_select_from(tree, None, idx, pos, st, inh, steps, acc),
    decreases idx, tree[idx].children.len() - pos,
{
    let children = tree[idx].children;
    let m = decompose_select_from(tree, None, idx, pos, st, inh, steps, acc)->Success_mtr;
    if pos < children.len() {
        let c = children[pos] as int;
        let cand = acc.push(pos as usize);
        lemma_mtr_extends_select(tree, None, idx, pos, st, inh, steps, acc);
        match conds_eval(tree[c].conditions, st) {
            None => {},
            Some(false) => {
                lemma_mtr_extends_select(tree, None, idx, pos + 1, st, inh, steps, acc);
                assert(m[acc.len() as int] >= pos + 1);
                lemma_push_dominated(acc, m, p, pos as usize);
                lemma_rerun_select(tree, p, idx, pos + 1, st, inh, steps, acc);
            },
            Some(true) => {
                match tree[c].kind {
                    TaskKind::Operator { .. } => {
                        match apply_effects(tree[c].effects, st) {
                            None => {},
                            Some(st2) => {
                                assert(!mtr_rejects(Some(p), cand));
                            },
                        }
                    },
                    _ => {
                        lemma_no_rejection_node(
                            tree,
                            c,
                            st,
                            inh + tree[c].conditions,
                            steps,
                            cand,
                        );
                        match decompose_node(
                            tree,
                            None,
                            c,
                            st,
                            inh + tree[c].conditions,
                            steps,
                            cand,
                        ) {
                            DecomposeOutcome::Success { state, mtr: cm, .. } => {
                                match apply_effects(tree[c].effects, state) {
                                    None => {},
                                    Some(st3) => {
                                        lemma_mtr_extends_node(
                                            tree,
                                            None,
                                            c,
                                            st,
                                            inh + tree[c].conditions,
                                            steps,
                                            cand,
                                        );
                                        lemma_prefix_lex_le(cand, m, p);
                                        assert(!mtr_rejects(Some(p), cand));
                                        lemma_rerun_node(
                                            tree,
                                            p,
                                            c,
                                            st,
                                            inh + tree[c].conditions,
                                            steps,
                                            cand,
                                        );
                                    },
                                }
                            },
                            DecomposeOutcome::Failure => {
                                lemma_mtr_extends_select(
                                    tree,
                                    None,
                                    idx,
                                    pos + 1,
                                    st,
                                    inh,
                                    steps,
                                    acc,
                                );
                                assert(m[acc.len() as int] >= pos + 1);
                                lemma_push_dominated(acc, m, p, pos as usize);
                                lemma_dominated_ignores_previous_node(
                                    tree,
                                    p,
                                    c,
                                    st,
                                    inh + tree[c].conditions,
                                    steps,
                                    cand,
                                );
                                assert(!mtr_rejects(Some(p), cand));
                                lemma_rerun_select(tree, p, idx, pos + 1, st, inh, steps, acc);
                            },
                            _ => {},
                        }
                    },
                }
            },
        }
    }
}

proof fn lemma_rerun_sequence(
    tree: Seq<TaskView>,
    p: Seq<usize>,
    idx: int,
    pos: int,
    st: Map<Seq<char>, ValueView>,
    inh: Seq<ConditionView>,
    steps: Seq<StepView>,
    acc: Seq<usize>,
    found: bool,
)
    requires
        tree_wf(tree),
        0 <= idx < tree.len(),
        0 <= pos <= tree[idx].children.len(),
        decompose_sequence_from(
            tree,
            None,
            idx,
            pos,
            st,
            inh,
            steps,
            acc,
            found,
        ) matches DecomposeOutcome::Success { mtr, .. } && is_prefix(acc, mtr) && lex_le(mtr, p),
    ensures
        decompose_sequence_from(tree, Some(p), idx, pos, st, inh, steps, acc, found)
            == decompose_sequence_from(tree, None, idx, pos, st, inh, steps, acc, found),
    decreases idx, tree[idx].children.len() - pos,
{
    let children = tree[idx].children;
    let m = decompose_sequence_from(tree, None, idx, pos, st, inh, steps, acc, found)->Success_mtr;
    if pos < children.len() {
        let c = children[pos] as int;
        match conds_eval(tree[c].conditions, st) {
            None => {},
            Some(false) => {},
            Some(true) => {
                let myconds = if !found {
                    inh + tree[c].conditions
                } else {
                    tree[c].conditions
                };
                match tree[c].kind {
                    TaskKind::Operator { operator } => {
                        let step = StepView {
                            entity: operator,
                            conditions: myconds,
                            effects: Seq::empty(),
                        };
                        match apply_effects(tree[c].effects, st) {
                            None => {},
                            Some(st2) => {
                                lemma_rerun_sequence(
                                    tree,
                                    p,
                                    idx,
                                    pos + 1,
                                    st2,
                                    inh,
                                    crate::decompose::attach_effects(
                                        steps.push(step),
                                        tree[c].effects,
                                    ),
                                    acc,
                                    true,
                                );
                            },
                        }
                    },
                    _ => {
                        lemma_no_rejection_node(tree, c, st, myconds, steps, acc);
                        match decompose_node(tree, None, c, st, myconds, steps, acc) {
                            DecomposeOutcome::Success { state, steps: s2, mtr } => {
                                match apply_effects(tree[c].effects, state) {
                                    None => {},
                                    Some(st3) => {
                                        lemma_mtr_extends_node(
                                            tree,
                                            None,
                                            c,
                                            st,
                                            myconds,
                                            steps,
                                            acc,
                                        );
                                        lemma_mtr_extends_sequence(
                                            tree,
                                            None,
                                            idx,
                                            pos + 1,
                                            st3,
                                            inh,
                                            crate::decompose::attach_effects(s2, tree[c].effects),
                                            mtr,
                                            true,
                                        );
                                        lemma_prefix_lex_le(mtr, m, p);
                                        lemma_rerun_node(tree, p, c, st, myconds, steps, acc);
                                        lemma_rerun_sequence(
                                            tree,
                                            p,
                                            idx,
                                            pos + 1,
                                            st3,
                                            inh,
                                            crate::decompose::attach_effects(s2, tree[c].effects),
                                            mtr,
                                            true,
                                        );
                                    },
                                }
                            },
                            _ => {},
                        }
                    },
                }
            },
        }
    }
}

// ---------------------------------------------------------------------
// Idempotent re-plan.
// ---------------------------------------------------------------------
/// Re-planning with an unchanged world state and tree is idempotent:
/// whatever one re-plan installs, a second re-plan leaves in place. And
/// once a compound root has decomposed successfully, the second re-plan
/// recognises the installed plan as its own result and keeps it without
/// announcing a replacement — an already-running, still-valid plan is
/// never restarted from its first step.
pub proof fn lemma_replan_idempotent(
    tree: Seq<TaskView>,
    st: Map<Seq<char>, ValueView>,
    p0: PlanView,
)
    requires
        tree_wf(tree),
        tree.len() > 0,
    ensures
        crate::engine::replan(tree, st, crate::engine::replan(tree, st, p0).0).0
            == crate::engine::replan(tree, st, p0).0,
        (!(tree[tree.len() - 1].kind matches TaskKind::Operator { .. }) && conds_eval(
            tree[tree.len() - 1].conditions,
            st,
        ) == Some(true) && decompose_spec(
            tree,
            tree.len() - 1,
            st,
            tree[tree.len() - 1].conditions,
            p0.mtr,
        ) is Success) ==> !crate::engine::replan(
            tree,
            st,
            crate::engine::replan(tree, st, p0).0,
        ).1,
{
    let root = tree.len() - 1;
    let p1 = crate::engine::replan(tree, st, p0).0;
    match conds_eval(tree[root].conditions, st) {
        None => {
            assert(p1 == p0);
        },
        Some(false) => {},
        Some(true) => {
            match tree[root].kind {
                TaskKind::Operator { .. } => {},
                _ => {
                    let o = decompose_spec(tree, root, st, tree[root].conditions, p0.mtr);
                    match o {
                        DecomposeOutcome::Success { state, steps, mtr } => {
                            lemma_decompose_success_stable(tree, st, p0.mtr, state, steps, mtr);
                            if p0.mtr == Some(mtr) && p0.operators_total == crate::engine::ops_of(
                                steps,
                            ) {
                                // kept: the second re-plan sees the identical
                                // situation and keeps again
                                assert(p1 == p0);
                            } else {
                                assert(p1.mtr == Some(mtr));
                                assert(p1.operators_total == crate::engine::ops_of(steps));
                                assert(decompose_spec(
                                    tree,
                                    root,
                                    st,
                                    tree[root].conditions,
                                    p1.mtr,
                                ) == o);
                            }
                        },
                        DecomposeOutcome::Failure => {
                            assert(p1 == empty_plan());
                            match p0.mtr {
                                Some(q) => {
                                    lemma_unrejected_ignores_previous_node(
                                        tree,
                                        q,
                                        root,
                                        st,
                                        tree[root].conditions,
                                        Seq::empty(),
                                        Seq::empty(),
                                    );
                                },
                                None => {},
                            }
                            assert(decompose_spec(tree, root, st, tree[root].conditions, None)
                                is Failure);
                        },
                        DecomposeOutcome::Rejection => {
                            assert(p1 == p0);
                        },
                        DecomposeOutcome::Error => {
                            assert(p1 == p0);
                        },
                    }
                },
            }
        },
    }
}

/// A successful decomposition, rerun against its own record, returns
/// itself.
proof fn lemma_decompose_success_stable(
    tree: Seq<TaskView>,
    st: Map<Seq<char>, ValueView>,
    prev: Option<Seq<usize>>,
    state: Map<Seq<char>, ValueView>,
    steps: Seq<StepView>,
    mtr: Seq<usize>,
)
    requires
        tree_wf(tree),
        tree.len() > 0,
        decompose_spec(tree, tree.len() - 1, st, tree[tree.len() - 1].conditions, prev)
            == (DecomposeOutcome::Success { state, steps, mtr }),
    ensures
        decompose_spec(tree, tree.len() - 1, st, tree[tree.len() - 1].conditions, Some(mtr))
            == (DecomposeOutcome::Success { state, steps, mtr }),
{
    let root = tree.len() - 1;
    let inh = tree[root].conditions;
    match prev {
        Some(q) => {
            lemma_unrejected_ignores_previous_node(
                tree,
                q,
                root,
                st,
                inh,
                Seq::empty(),
                Seq::empty(),
            );
        },
        None => {},
    }
    assert(decompose_node(tree, None, root, st, inh, Seq::empty(), Seq::empty())
        == (DecomposeOutcome::Success { state, steps, mtr }));
    lemma_mtr_extends_node(tree, None, root, st, inh, Seq::empty(), Seq::empty());
    lemma_lex_le_refl(mtr);
    lemma_rerun_node(tree, mtr, root, st, inh, Seq::empty(), Seq::empty());
}

} // verus!
