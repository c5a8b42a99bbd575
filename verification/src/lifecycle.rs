//! The lifecycle every node of a run passes through, and the two rules the
//! reclamation scheme must uphold across the whole run.
//!
//! A node is allocated by a push, reachable while some chain links to it,
//! retired once a pop or splice unlinks it, and freed by the first
//! reclamation pass that finds it retired with no guard over it. The ledger
//! here follows each node — numbered by allocation order — through those
//! states together with the number of guards currently covering it, and its
//! contracts pin down the two safety rules: a node under a guard is never
//! freed, and a freed node never changes state again, so no node is freed
//! twice.

use vstd::pervasive::VecAdditionalExecFns;
use vstd::prelude::*;

verus! {

/// Where a node stands between allocation and deallocation.
#[derive(Clone, Copy, PartialEq, Eq, Structural, Debug)]
pub enum NodeState {
    /// Linked into some chain; must not be freed.
    Reachable,
    /// Unlinked and handed to the registry; freed once unguarded.
    Retired,
    /// Deallocated; nothing may revive or free it again.
    Freed,
}

/// The run-long ledger: one state and one guard count per allocated node.
#[derive(Debug)]
pub struct Lifecycle {
    states: Vec<NodeState>,
    guards: Vec<usize>,
}

impl Lifecycle {
    /// The state of each node, indexed by allocation order.
    pub closed spec fn states_view(self) -> Seq<NodeState> {
        self.states@
    }

    /// How many guards currently cover each node.
    pub closed spec fn guards_view(self) -> Seq<usize> {
        self.guards@
    }

    #[verifier::type_invariant]
    spec fn wf(self) -> bool {
        &&& self.states@.len() == self.guards@.len()
        &&& forall|id: int|
            0 <= id < self.guards@.len() && self.guards@[id] > 0 ==> self.states@[id]
                != NodeState::Freed
    }

    /// A run in which nothing has been allocated yet.
    pub fn new() -> (l: Self)
        ensures
            l.states_view() == Seq::<NodeState>::empty(),
            l.guards_view() == Seq::<usize>::empty(),
    {
        Lifecycle { states: Vec::new(), guards: Vec::new() }
    }

    /// How many nodes the run has allocated so far.
    pub fn allocated(&self) -> (n: usize)
        ensures
            n == self.states_view().len(),
    {
        proof {
            use_type_invariant(self);
        }
        self.states.len()
    }

    /// A push allocates the next node: it starts reachable and unguarded.
    pub fn allocate(&mut self) -> (id: usize)
        ensures
            final(self).states_view() == old(self).states_view().push(NodeState::Reachable),
            final(self).guards_view() == old(self).guards_view().push(0),
            id == old(self).states_view().len(),
    {
        proof {
            use_type_invariant(&*self);
        }
        let mut taken: Lifecycle = Lifecycle { states: Vec::new(), guards: Vec::new() };
        std::mem::swap(&mut taken, self);
        let Lifecycle { mut states, mut guards } = taken;
        let id = states.len();
        states.push(NodeState::Reachable);
        guards.push(0);
        *self = Lifecycle { states, guards };
        id
    }

    /// The state the node numbered `id` is in.
    pub fn state_of(&self, id: usize) -> (s: NodeState)
        requires
            id < self.states_view().len(),
        ensures
            s == self.states_view()[id as int],
    {
        self.states[id]
    }

    /// True while at least one guard covers the node; a guarded node is
    /// never in the freed state.
    pub fn is_guarded(&self, id: usize) -> (g: bool)
        requires
            id < self.states_view().len(),
        ensures
            g == (self.guards_view()[id as int] > 0),
            g ==> self.states_view()[id as int] != NodeState::Freed,
    {
        proof {
            use_type_invariant(self);
        }
        self.guards[id] > 0
    }

    /// A stabilized protection takes effect: one more guard covers the node.
    /// The protection protocol only ever stabilizes on a node that is not
    /// freed, and the count must have room to grow.
    pub fn guard(&mut self, id: usize)
        requires
            id < old(self).states_view().len(),
            old(self).states_view()[id as int] != NodeState::Freed,
            old(self).guards_view()[id as int] < usize::MAX,
        ensures
            final(self).states_view() == old(self).states_view(),
            final(self).guards_view() == old(self).guards_view().update(
                id as int,
                (old(self).guards_view()[id as int] + 1) as usize,
            ),
    {
        proof {
            use_type_invariant(&*self);
        }
        let mut taken: Lifecycle = Lifecycle { states: Vec::new(), guards: Vec::new() };
        std::mem::swap(&mut taken, self);
        let Lifecycle { states, mut guards } = taken;
        let count = guards[id];
        guards.set(id, count + 1);
        *self = Lifecycle { states, guards };
    }

    /// Dropping a guard or an entry handle withdraws one cover from the
    /// node.
    pub fn unguard(&mut self, id: usize)
        requires
            id < old(self).states_view().len(),
            old(self).guards_view()[id as int] > 0,
        ensures
            final(self).states_view() == old(self).states_view(),
            final(self).guards_view() == old(self).guards_view().update(
                id as int,
                (old(self).guards_view()[id as int] - 1) as usize,
            ),
    {
        proof {
            use_type_invariant(&*self);
        }
        let mut taken: Lifecycle = Lifecycle { states: Vec::new(), guards: Vec::new() };
        std::mem::swap(&mut taken, self);
        let Lifecycle { states, mut guards } = taken;
        let count = guards[id];
        guards.set(id, count - 1);
        *self = Lifecycle { states, guards };
    }

    /// A pop or splice unlinks the node from its chain and hands it over for
    /// reclamation. Only a reachable node can be unlinked, so no node is
    /// retired twice.
    pub fn unlink(&mut self, id: usize)
        requires
            id < old(self).states_view().len(),
            old(self).states_view()[id as int] == NodeState::Reachable,
        ensures
            final(self).states_view() == old(self).states_view().update(
                id as int,
                NodeState::Retired,
            ),
            final(self).guards_view() == old(self).guards_view(),
    {
        proof {
            use_type_invariant(&*self);
        }
        let mut taken: Lifecycle = Lifecycle { states: Vec::new(), guards: Vec::new() };
        std::mem::swap(&mut taken, self);
        let Lifecycle { mut states, guards } = taken;
        states.set(id, NodeState::Retired);
        *self = Lifecycle { states, guards };
    }

    /// One reclamation pass: every node retired and unguarded is freed, and
    /// nothing else moves. A node under a guard keeps its state, whatever
    /// other threads pop or splice; a node already freed stays freed. The
    /// freed ids come back strictly increasing, so the pass frees no node
    /// twice.
    pub fn reclaim(&mut self) -> (freed: Vec<usize>)
        ensures
            final(self).guards_view() == old(self).guards_view(),
            final(self).states_view().len() == old(self).states_view().len(),
            forall|id: int|
                0 <= id < old(self).states_view().len() ==> final(self).states_view()[id] == (
                if old(self).states_view()[id] == NodeState::Retired && old(self).guards_view()[id]
                    == 0 {
                    NodeState::Freed
                } else {
                    old(self).states_view()[id]
                }),
            forall|id: int|
                0 <= id < old(self).states_view().len() ==> ((old(self).states_view()[id]
                    == NodeState::Retired && old(self).guards_view()[id] == 0) <==> freed@.contains(
                    id as usize,
                )),
            forall|k: int, l: int| 0 <= k < l < freed@.len() ==> freed@[k] < freed@[l],
    {
        proof {
            use_type_invariant(&*self);
        }
        let mut taken: Lifecycle = Lifecycle { states: Vec::new(), guards: Vec::new() };
        std::mem::swap(&mut taken, self);
        let Lifecycle { states, guards } = taken;
        let ghost old_states = states@;
        let ghost old_guards = guards@;
        let mut new_states: Vec<NodeState> = Vec::new();
        let mut freed: Vec<usize> = Vec::new();
        let mut id: usize = 0;
        let n = states.len();
        while id < n
            invariant
                n == old_states.len(),
                old_guards.len() == old_states.len(),
                id <= n,
                states@ == old_states,
                guards@ == old_guards,
                new_states@.len() == id,
                forall|j: int|
                    0 <= j < id ==> new_states@[j] == (if old_states[j] == NodeState::Retired
                        && old_guards[j] == 0 {
                        NodeState::Freed
                    } else {
                        old_states[j]
                    }),
                forall|j: int|
                    0 <= j < id ==> ((old_states[j] == NodeState::Retired && old_guards[j] == 0)
                        <==> freed@.contains(j as usize)),
                forall|k: int| 0 <= k < freed@.len() ==> (freed@[k] as int) < id,
                forall|k: int, l: int| 0 <= k < l < freed@.len() ==> freed@[k] < freed@[l],
            decreases n - id,
        {
            let state = states[id];
            let guard_count = guards[id];
            let ghost fprev = freed@;
            if state == NodeState::Retired && guard_count == 0 {
                new_states.push(NodeState::Freed);
                freed.push(id);
                proof {
                    assert(freed@ == fprev.push(id));
                    assert(freed@[fprev.len() as int] == id);
                    assert(freed@.contains(id));
                    assert forall|j: int|
                        0 <= j < id + 1 implies ((old_states[j] == NodeState::Retired
                        && old_guards[j] == 0) <==> freed@.contains(j as usize)) by {
                        if j < id {
                            if fprev.contains(j as usize) {
                                let w = choose|w: int|
                                    0 <= w < fprev.len() && fprev[w] == (j as usize);
                                assert(freed@[w] == (j as usize));
                            }
                            if freed@.contains(j as usize) {
                                let w = choose|w: int|
                                    0 <= w < freed@.len() && freed@[w] == (j as usize);
                                if w < fprev.len() {
                                    assert(fprev[w] == (j as usize));
                                } else {
                                    assert(freed@[w] == id);
                                }
                            }
                        }
                    }
                }
            } else {
                new_states.push(state);
                proof {
                    assert forall|j: int|
                        0 <= j < id + 1 implies ((old_states[j] == NodeState::Retired
                        && old_guards[j] == 0) <==> freed@.contains(j as usize)) by {
                        if j == id && freed@.contains(id) {
                            let w = choose|w: int| 0 <= w < freed@.len() && freed@[w] == id;
                            assert((freed@[w] as int) < id);
                        }
                    }
                }
            }
            id = id + 1;
        }
        *self = Lifecycle { states: new_states, guards };
        freed
    }
}

/// After a pass over a quiet run — every guard dropped — no node stays
/// retired: together with the pass's own contract, nothing unreachable
/// outlives the pass, so a run that unlinks everything and lets its guards
/// go leaks no node.
pub proof fn lemma_quiet_pass_leaves_nothing_retired(
    before: Seq<NodeState>,
    guards: Seq<usize>,
    after: Seq<NodeState>,
)
    requires
        before.len() == after.len(),
        guards.len() == before.len(),
        forall|id: int| 0 <= id < guards.len() ==> guards[id] == 0,
        forall|id: int|
            0 <= id < before.len() ==> after[id] == (if before[id] == NodeState::Retired
                && guards[id] == 0 {
                NodeState::Freed
            } else {
                before[id]
            }),
    ensures
        forall|id: int| 0 <= id < after.len() ==> after[id] != NodeState::Retired,
{
}

} // verus!
