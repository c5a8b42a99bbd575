//! The abstract operations a driving harness replays against a stack, and
//! the conservation law for runs built from pushes and pops.

use vstd::prelude::*;

verus! {

/// One abstract operation on a stack, as replayed by a randomized harness:
/// push a value, pop, pop then push a derived value, splice a batch of
/// values in, or peek at the top.
#[derive(Clone, Debug)]
pub enum Operation<T> {
    Push { item: T },
    Pop,
    PopPush,
    Append { items: Vec<T> },
    Peek,
}

impl<T> Operation<T> {
    /// True of the two operations the conservation law ranges over.
    pub open spec fn is_push_or_pop(self) -> bool {
        self is Push || self is Pop
    }
}

/// The visible sequence after one push or pop on a stack showing `s`: a push
/// prepends its value, a pop removes the front when there is one. The other
/// operations are left for the harness and do not step this law.
pub open spec fn push_pop_step<T>(s: Seq<T>, op: Operation<T>) -> Seq<T> {
    match op {
        Operation::Push { item } => seq![item] + s,
        Operation::Pop => if s.len() > 0 {
            s.drop_first()
        } else {
            s
        },
        _ => s,
    }
}

/// The visible sequence after running every operation of `ops`, in order,
/// on a stack showing `s`.
pub open spec fn run_view<T>(s: Seq<T>, ops: Seq<Operation<T>>) -> Seq<T>
    decreases ops.len(),
{
    if ops.len() == 0 {
        s
    } else {
        run_view(push_pop_step(s, ops[0]), ops.drop_first())
    }
}

/// The number of operations of `ops` that push a value.
pub open spec fn push_count<T>(ops: Seq<Operation<T>>) -> nat
    decreases ops.len(),
{
    if ops.len() == 0 {
        0
    } else {
        (if ops[0] is Push {
            1nat
        } else {
            0nat
        }) + push_count(ops.drop_first())
    }
}

/// The number of values handed out by the pops of a run over `ops` starting
/// from `s`; a pop of an empty stack hands out nothing.
pub open spec fn popped_count<T>(s: Seq<T>, ops: Seq<Operation<T>>) -> nat
    decreases ops.len(),
{
    if ops.len() == 0 {
        0
    } else {
        (if ops[0] is Pop && s.len() > 0 {
            1nat
        } else {
            0nat
        }) + popped_count(push_pop_step(s, ops[0]), ops.drop_first())
    }
}

/// Conservation: over any ordering of pushes and pops — however an
/// interleaving of concurrent callers serialized them — the values popped
/// plus the values still visible afterwards account exactly for the values
/// present at the start plus the values pushed. No value is lost and none is
/// duplicated.
pub proof fn lemma_push_pop_conservation<T>(s: Seq<T>, ops: Seq<Operation<T>>)
    requires
        forall|i: int| 0 <= i < ops.len() ==> (#[trigger] ops[i]).is_push_or_pop(),
    ensures
        s.len() + push_count(ops) == popped_count(s, ops) + run_view(s, ops).len(),
    decreases ops.len(),
{
    if ops.len() > 0 {
        let rest = ops.drop_first();
        assert forall|i: int| 0 <= i < rest.len() implies (#[trigger] rest[i]).is_push_or_pop() by {
            assert(rest[i] == ops[i + 1]);
        }
        assert(ops[0].is_push_or_pop());
        lemma_push_pop_conservation(push_pop_step(s, ops[0]), rest);
    }
}

} // verus!
