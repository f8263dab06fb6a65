//! The task tree: an arena of nodes a planner decomposes.
//!
//! A node is either a leaf operator or a compound `Select` / `Sequence`
//! with an ordered list of children, and every node may carry conditions
//! and effects. Nodes live in an arena and refer to their children by
//! index; the builder only accepts children that already exist, so every
//! child index is smaller than its parent's and the structure is a tree
//! by construction — a node can never be both an operator and a
//! compound.

use vstd::prelude::*;

use crate::condition::{cond_views, Condition, ConditionView};
use crate::effect::{effect_views, Effect, EffectView};

verus! {

/// What a task node is: a leaf operator, a first-fit alternative, or an
/// all-required chain.
#[derive(Clone, Copy, PartialEq, Eq, Structural, Debug)]
pub enum TaskKind {
    /// A leaf task wrapping one executable operator, named by the handle
    /// the host registered for it.
    Operator { operator: u64 },
    /// Decomposes into the first child that can be decomposed.
    Select,
    /// Decomposes into all children, or fails as a whole.
    Sequence,
}

/// Mathematical image of a [`Task`].
pub struct TaskView {
    pub kind: TaskKind,
    pub children: Seq<usize>,
    pub conditions: Seq<ConditionView>,
    pub effects: Seq<EffectView>,
}

/// One node of the task tree.
pub struct Task {
    kind: TaskKind,
    children: Vec<usize>,
    conditions: Vec<Condition>,
    effects: Vec<Effect>,
}

impl View for Task {
    type V = TaskView;

    closed spec fn view(&self) -> TaskView {
        TaskView {
            kind: self.kind,
            children: self.children@,
            conditions: cond_views(self.conditions@),
            effects: effect_views(self.effects@),
        }
    }
}

/// Every child index is smaller than its parent's index: the arena is in
/// bottom-up order and the child relation cannot cycle. Child lists are
/// machine-sized, as every list built from a vector is.
pub open spec fn tree_wf(tree: Seq<TaskView>) -> bool {
    &&& forall|i: int| 0 <= i < tree.len() ==> (#[trigger] tree[i]).children.len() <= usize::MAX
    &&& forall|i: int, j: int|
        0 <= i < tree.len() && 0 <= j < tree[i].children.len() ==> (#[trigger] tree[i].children[j])
            < i
}

/// The task tree of one planner. Nodes are added leaves first; the node
/// added last is the root.
pub struct TaskTree {
    nodes: Vec<Task>,
}

impl View for TaskTree {
    type V = Seq<TaskView>;

    closed spec fn view(&self) -> Seq<TaskView> {
        self.nodes@.map_values(|t: Task| t@)
    }
}

impl TaskTree {
    /// The arena is in bottom-up order.
    pub open spec fn wf(&self) -> bool {
        tree_wf(self@)
    }

    /// Index of the root: the node added last.
    pub open spec fn root(&self) -> int {
        self@.len() - 1
    }

    /// Creates an empty tree. It has no root yet; add at least one node.
    pub fn new() -> (r: TaskTree)
        ensures
            r@ == Seq::<TaskView>::empty(),
            r.wf(),
    {
        let r = TaskTree { nodes: Vec::new() };
        proof {
            assert(r@ =~= Seq::<TaskView>::empty());
        }
        r
    }

    /// How many nodes the tree holds.
    pub fn len(&self) -> (r: usize)
        ensures
            r == self@.len(),
    {
        self.nodes.len()
    }

    fn push_node(&mut self, node: Task) -> (idx: usize)
        ensures
            final(self)@ == old(self)@.push(node@),
            idx == old(self)@.len(),
            old(self).wf() && (forall|j: int|
                0 <= j < node@.children.len() ==> (#[trigger] node@.children[j])
                    < old(self)@.len()) ==> final(self).wf(),
    {
        let idx = self.nodes.len();
        proof {
            assert(node.children.len() <= usize::MAX);
        }
        self.nodes.push(node);
        proof {
            assert(final(self)@ =~= old(self)@.push(node@));
            if old(self).wf() && (forall|j: int|
                0 <= j < node@.children.len() ==> (#[trigger] node@.children[j]) < old(
                    self,
                )@.len()) {
                assert forall|i: int|
                    0 <= i < final(self)@.len() implies (#[trigger] final(self)@[i]).children.len()
                    <= usize::MAX by {
                    if i < old(self)@.len() {
                        assert(final(self)@[i] == old(self)@[i]);
                    } else {
                        assert(final(self)@[i] == node@);
                    }
                }
                assert forall|i: int, j: int|
                    0 <= i < final(self)@.len() && 0 <= j < final(self)@[i].children.len() implies (
                #[trigger] final(self)@[i].children[j]) < i by {
                    if i < old(self)@.len() {
                        assert(final(self)@[i] == old(self)@[i]);
                    } else {
                        assert(final(self)@[i] == node@);
                    }
                }
            }
        }
        idx
    }

    /// Adds a leaf operator node and returns its index.
    pub fn operator(&mut self, operator: u64) -> (idx: usize)
        ensures
            final(self)@ == old(self)@.push(
                TaskView {
                    kind: TaskKind::Operator { operator },
                    children: Seq::empty(),
                    conditions: Seq::empty(),
                    effects: Seq::empty(),
                },
            ),
            idx == old(self)@.len(),
            old(self).wf() ==> final(self).wf(),
    {
        let node = Task {
            kind: TaskKind::Operator { operator },
            children: Vec::new(),
            conditions: Vec::new(),
            effects: Vec::new(),
        };
        proof {
            assert(cond_views(Seq::<Condition>::empty()) =~= Seq::<ConditionView>::empty());
            assert(effect_views(Seq::<Effect>::empty()) =~= Seq::<EffectView>::empty());
        }
        self.push_node(node)
    }

    /// Adds a `Select` node over existing children, in declared order,
    /// and returns its index.
    pub fn select(&mut self, children: Vec<usize>) -> (idx: usize)
        requires
            forall|j: int|
                0 <= j < children@.len() ==> (#[trigger] children@[j]) < old(self)@.len(),
        ensures
            final(self)@ == old(self)@.push(
                TaskView {
                    kind: TaskKind::Select,
                    children: children@,
                    conditions: Seq::empty(),
                    effects: Seq::empty(),
                },
            ),
            idx == old(self)@.len(),
            old(self).wf() ==> final(self).wf(),
    {
        let node = Task {
            kind: TaskKind::Select,
            children,
            conditions: Vec::new(),
            effects: Vec::new(),
        };
        proof {
            assert(cond_views(Seq::<Condition>::empty()) =~= Seq::<ConditionView>::empty());
            assert(effect_views(Seq::<Effect>::empty()) =~= Seq::<EffectView>::empty());
        }
        self.push_node(node)
    }

    /// Adds a `Sequence` node over existing children, in declared order,
    /// and returns its index.
    pub fn sequence(&mut self, children: Vec<usize>) -> (idx: usize)
        requires
            forall|j: int|
                0 <= j < children@.len() ==> (#[trigger] children@[j]) < old(self)@.len(),
        ensures
            final(self)@ == old(self)@.push(
                TaskView {
                    kind: TaskKind::Sequence,
                    children: children@,
                    conditions: Seq::empty(),
                    effects: Seq::empty(),
                },
            ),
            idx == old(self)@.len(),
            old(self).wf() ==> final(self).wf(),
    {
        let node = Task {
            kind: TaskKind::Sequence,
            children,
            conditions: Vec::new(),
            effects: Vec::new(),
        };
        proof {
            assert(cond_views(Seq::<Condition>::empty()) =~= Seq::<ConditionView>::empty());
            assert(effect_views(Seq::<Effect>::empty()) =~= Seq::<EffectView>::empty());
        }
        self.push_node(node)
    }

    /// The kind of a node.
    pub fn node_kind(&self, i: usize) -> (r: TaskKind)
        requires
            i < self@.len(),
        ensures
            r == self@[i as int].kind,
    {
        self.nodes[i].kind
    }

    /// How many children a node has.
    pub fn child_count(&self, i: usize) -> (r: usize)
        requires
            i < self@.len(),
        ensures
            r == self@[i as int].children.len(),
    {
        self.nodes[i].children.len()
    }

    /// The `j`-th child of a node.
    pub fn child(&self, i: usize, j: usize) -> (r: usize)
        requires
            i < self@.len(),
            j < self@[i as int].children.len(),
        ensures
            r == self@[i as int].children[j as int],
    {
        self.nodes[i].children[j]
    }

    /// The conditions attached to a node.
    pub fn conditions_of(&self, i: usize) -> (r: &Vec<Condition>)
        requires
            i < self@.len(),
        ensures
            cond_views(r@) == self@[i as int].conditions,
    {
        &self.nodes[i].conditions
    }

    /// The effects attached to a node.
    pub fn effects_of(&self, i: usize) -> (r: &Vec<Effect>)
        requires
            i < self@.len(),
        ensures
            effect_views(r@) == self@[i as int].effects,
    {
        &self.nodes[i].effects
    }

    /// Attaches a condition to an existing node.
    pub fn add_condition(&mut self, task: usize, c: Condition)
        requires
            task < old(self)@.len(),
        ensures
            final(self)@ == old(self)@.update(
                task as int,
                TaskView {
                    conditions: old(self)@[task as int].conditions.push(c@),
                    ..old(self)@[task as int]
                },
            ),
            old(self).wf() ==> final(self).wf(),
    {
        let mut node = self.nodes.remove(task);
        node.conditions.push(c);
        proof {
            assert(cond_views(node.conditions@) =~= old(self)@[task as int].conditions.push(c@));
        }
        self.nodes.insert(task, node);
        proof {
            assert(final(self)@ =~= old(self)@.update(
                task as int,
                TaskView {
                    conditions: old(self)@[task as int].conditions.push(c@),
                    ..old(self)@[task as int]
                },
            ));
            if old(self).wf() {
                assert forall|i: int|
                    0 <= i < final(self)@.len() implies (#[trigger] final(self)@[i]).children.len()
                    <= usize::MAX by {
                    assert(final(self)@[i].children == old(self)@[i].children);
                }
                assert forall|i: int, j: int|
                    0 <= i < final(self)@.len() && 0 <= j < final(self)@[i].children.len() implies (
                #[trigger] final(self)@[i].children[j]) < i by {
                    assert(final(self)@[i].children == old(self)@[i].children);
                }
            }
        }
    }

    /// Attaches an effect to an existing node.
    pub fn add_effect(&mut self, task: usize, e: Effect)
        requires
            task < old(self)@.len(),
        ensures
            final(self)@ == old(self)@.update(
                task as int,
                TaskView {
                    effects: old(self)@[task as int].effects.push(e@),
                    ..old(self)@[task as int]
                },
            ),
            old(self).wf() ==> final(self).wf(),
    {
        let mut node = self.nodes.remove(task);
        node.effects.push(e);
        proof {
            assert(effect_views(node.effects@) =~= old(self)@[task as int].effects.push(e@));
        }
        self.nodes.insert(task, node);
        proof {
            assert(final(self)@ =~= old(self)@.update(
                task as int,
                TaskView {
                    effects: old(self)@[task as int].effects.push(e@),
                    ..old(self)@[task as int]
                },
            ));
            if old(self).wf() {
                assert forall|i: int|
                    0 <= i < final(self)@.len() implies (#[trigger] final(self)@[i]).children.len()
                    <= usize::MAX by {
                    assert(final(self)@[i].children == old(self)@[i].children);
                }
                assert forall|i: int, j: int|
                    0 <= i < final(self)@.len() && 0 <= j < final(self)@[i].children.len() implies (
                #[trigger] final(self)@[i].children[j]) < i by {
                    assert(final(self)@[i].children == old(self)@[i].children);
                }
            }
        }
    }
}

/// Identification passed to the host when an operator must be run.
#[derive(Debug, Clone, Copy, PartialEq, Eq, Structural)]
pub struct OperatorInput {
    /// The planner whose plan is executing.
    pub entity: u64,
    /// The operator to run.
    pub operator: u64,
}

/// Outcome reported by the host after running one operator.
#[derive(Debug, Clone, Copy, PartialEq, Eq, Structural)]
pub enum OperatorStatus {
    /// The operator completed; the plan advances to its next step.
    Success,
    /// The operator is still working; the plan stays on the current
    /// step, and nothing else happens this tick.
    Ongoing,
    /// The operator failed; the plan is discarded and rebuilt.
    Failure,
}

} // verus!
