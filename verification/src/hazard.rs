//! The hazard registry: the ledger that safe memory reclamation keeps.
//!
//! A thread that wants to dereference a shared node first publishes the
//! node's address into a protection slot; a node unlinked from the chain is
//! not freed at once but retired, and a reclamation pass frees exactly the
//! retired addresses that no slot protects. The registry here works on plain
//! addresses, so the rules that make deferred reclamation sound can be stated
//! and proved: a protected address is never freed, and each retired address
//! leaves the ledger exactly once — freed in the first pass that finds it
//! unprotected.
//!
//! The registry is an explicit value handed to its users, not a hidden
//! process-wide singleton: callers decide whether one registry serves every
//! stack of a value family or each stack gets its own. Either way the rules
//! proved here hold of each registry separately.

use vstd::pervasive::VecAdditionalExecFns;
use vstd::prelude::*;

verus! {

/// The predicate a reclamation pass frees by: the addresses `prot` does not
/// protect.
pub open spec fn reclaimable(prot: Set<usize>) -> spec_fn(usize) -> bool {
    |a: usize| !prot.contains(a)
}

/// The predicate a reclamation pass defers by: the addresses `prot` still
/// protects.
pub open spec fn still_protected(prot: Set<usize>) -> spec_fn(usize) -> bool {
    |a: usize| prot.contains(a)
}

/// True when some slot of `slots` currently publishes `addr`.
pub open spec fn seq_protects(slots: Seq<Option<usize>>, addr: usize) -> bool {
    exists|i: int| 0 <= i < slots.len() && slots[i] == Some(addr)
}

/// The registry of protections and retirements shared by every user of a
/// stack: protection slots that threads publish addresses into, and the list
/// of addresses retired but not yet reclaimed.
pub struct Domain {
    slots: Vec<Option<usize>>,
    retired: Vec<usize>,
}

impl Domain {
    /// The protection slots; `Some(a)` is a published claim that address `a`
    /// is about to be dereferenced and must not be freed.
    pub closed spec fn slots_view(self) -> Seq<Option<usize>> {
        self.slots@
    }

    /// The retired addresses awaiting reclamation, oldest first.
    pub closed spec fn retired_view(self) -> Seq<usize> {
        self.retired@
    }

    /// The set of addresses some slot currently protects.
    pub open spec fn protected(self) -> Set<usize> {
        Set::new(|a: usize| seq_protects(self.slots_view(), a))
    }

    #[verifier::type_invariant]
    spec fn wf(self) -> bool {
        forall|i: int, j: int|
            0 <= i < j < self.retired@.len() ==> self.retired@[i] != self.retired@[j]
    }

    /// A registry with no slots and nothing retired.
    pub fn new() -> (d: Self)
        ensures
            d.slots_view() == Seq::<Option<usize>>::empty(),
            d.retired_view() == Seq::<usize>::empty(),
    {
        Domain { slots: Vec::new(), retired: Vec::new() }
    }

    /// Opens a fresh protection slot, protecting nothing yet, and returns its
    /// index.
    pub fn hazard(&mut self) -> (slot: usize)
        ensures
            final(self).slots_view() == old(self).slots_view().push(None),
            final(self).retired_view() == old(self).retired_view(),
            slot == old(self).slots_view().len(),
    {
        proof {
            use_type_invariant(&*self);
        }
        let mut taken: Domain = Domain { slots: Vec::new(), retired: Vec::new() };
        std::mem::swap(&mut taken, self);
        let Domain { mut slots, retired } = taken;
        let slot = slots.len();
        slots.push(None);
        *self = Domain { slots, retired };
        slot
    }

    /// Publishes `addr` into `slot`: from here until the slot changes, no
    /// reclamation pass will free `addr`.
    pub fn protect(&mut self, slot: usize, addr: usize)
        requires
            slot < old(self).slots_view().len(),
        ensures
            final(self).slots_view() == old(self).slots_view().update(slot as int, Some(addr)),
            final(self).retired_view() == old(self).retired_view(),
    {
        proof {
            use_type_invariant(&*self);
        }
        let mut taken: Domain = Domain { slots: Vec::new(), retired: Vec::new() };
        std::mem::swap(&mut taken, self);
        let Domain { mut slots, retired } = taken;
        slots.set(slot, Some(addr));
        *self = Domain { slots, retired };
    }

    /// Empties `slot`, withdrawing whatever claim it published.
    pub fn release(&mut self, slot: usize)
        requires
            slot < old(self).slots_view().len(),
        ensures
            final(self).slots_view() == old(self).slots_view().update(slot as int, None),
            final(self).retired_view() == old(self).retired_view(),
    {
        proof {
            use_type_invariant(&*self);
        }
        let mut taken: Domain = Domain { slots: Vec::new(), retired: Vec::new() };
        std::mem::swap(&mut taken, self);
        let Domain { mut slots, retired } = taken;
        slots.set(slot, None);
        *self = Domain { slots, retired };
    }

    /// One round of the protection protocol. The caller read `observed` from
    /// a shared slot, publishes it here, then re-reads the shared slot and
    /// hands the re-read in as `current`. The candidate is stable — safe to
    /// dereference until the slot changes — exactly when the re-read still
    /// shows it; otherwise the caller must repeat the round with `current`.
    pub fn try_protect(&mut self, slot: usize, observed: usize, current: usize) -> (stable: bool)
        requires
            slot < old(self).slots_view().len(),
        ensures
            final(self).slots_view() == old(self).slots_view().update(slot as int, Some(observed)),
            final(self).retired_view() == old(self).retired_view(),
            stable == (observed == current),
    {
        self.protect(slot, observed);
        observed == current
    }

    /// How many addresses sit retired, awaiting a reclamation pass.
    pub fn retired_count(&self) -> (n: usize)
        ensures
            n == self.retired_view().len(),
    {
        self.retired.len()
    }

    /// True exactly when some slot currently protects `addr`.
    pub fn is_protected(&self, addr: usize) -> (b: bool)
        ensures
            b == self.protected().contains(addr),
    {
        addr_protected(&self.slots, addr)
    }

    /// Hands `addr` to the registry for eventual reclamation: the node at
    /// `addr` is unlinked from every chain, but a thread that raced to
    /// protect it may still be reading it. An address is retired at most once
    /// before it is reclaimed; retiring it again would free it twice.
    pub fn retire(&mut self, addr: usize)
        requires
            !old(self).retired_view().contains(addr),
        ensures
            final(self).slots_view() == old(self).slots_view(),
            final(self).retired_view() == old(self).retired_view().push(addr),
    {
        proof {
            use_type_invariant(&*self);
        }
        let mut taken: Domain = Domain { slots: Vec::new(), retired: Vec::new() };
        std::mem::swap(&mut taken, self);
        let Domain { slots, mut retired } = taken;
        retired.push(addr);
        *self = Domain { slots, retired };
    }

    /// Frees every retired address that no slot protects and returns them;
    /// the addresses still protected stay retired for a later pass. The
    /// protections themselves are untouched.
    pub fn eager_reclaim(&mut self) -> (freed: Vec<usize>)
        ensures
            final(self).slots_view() == old(self).slots_view(),
            freed@ == old(self).retired_view().filter(reclaimable(old(self).protected())),
            final(self).retired_view() == old(self).retired_view().filter(
                still_protected(old(self).protected()),
            ),
    {
        proof {
            use_type_invariant(&*self);
        }
        let mut taken: Domain = Domain { slots: Vec::new(), retired: Vec::new() };
        std::mem::swap(&mut taken, self);
        let Domain { slots, retired } = taken;
        let ghost all = retired@;
        let mut freed: Vec<usize> = Vec::new();
        let mut kept: Vec<usize> = Vec::new();
        let mut i: usize = 0;
        let n = retired.len();
        while i < n
            invariant
                n == all.len(),
                i <= n,
                retired@ == all,
                slots@ == old(self).slots_view(),
                freed@ == all.take(i as int).filter(reclaimable(old(self).protected())),
                kept@ == all.take(i as int).filter(still_protected(old(self).protected())),
            decreases n - i,
        {
            let a = retired[i];
            proof {
                all.lemma_take_succ_push(i as int);
                all.take(i as int).lemma_filter_push(a, reclaimable(old(self).protected()));
                all.take(i as int).lemma_filter_push(a, still_protected(old(self).protected()));
            }
            if addr_protected(&slots, a) {
                kept.push(a);
            } else {
                freed.push(a);
            }
            i = i + 1;
        }
        proof {
            assert(all.take(n as int) =~= all);
            lemma_filter_keeps_distinct(all, still_protected(old(self).protected()));
        }
        *self = Domain { slots, retired: kept };
        freed
    }
}

/// True exactly when some slot of `slots` publishes `addr`.
fn addr_protected(slots: &Vec<Option<usize>>, addr: usize) -> (b: bool)
    ensures
        b == seq_protects(slots@, addr),
{
    let n = slots.len();
    let mut i: usize = 0;
    while i < n
        invariant
            n == slots@.len(),
            i <= n,
            forall|j: int| 0 <= j < i ==> slots@[j] != Some(addr),
        decreases n - i,
    {
        if let Some(a) = slots[i] {
            if a == addr {
                proof {
                    assert(slots@[i as int] == Some(addr));
                }
                return true;
            }
        }
        i = i + 1;
    }
    false
}

/// Filtering a sequence of pairwise distinct elements leaves pairwise
/// distinct elements, all of them drawn from the original sequence.
proof fn lemma_filter_keeps_distinct(s: Seq<usize>, pred: spec_fn(usize) -> bool)
    requires
        forall|i: int, j: int| 0 <= i < j < s.len() ==> s[i] != s[j],
    ensures
        forall|i: int, j: int|
            0 <= i < j < s.filter(pred).len() ==> s.filter(pred)[i] != s.filter(pred)[j],
        forall|k: int| 0 <= k < s.filter(pred).len() ==> s.contains(#[trigger] s.filter(pred)[k]),
    decreases s.len(),
{
    reveal(Seq::filter);
    if s.len() != 0 {
        let d = s.drop_last();
        assert forall|i: int, j: int| 0 <= i < j < d.len() implies d[i] != d[j] by {
            assert(d[i] == s[i]);
            assert(d[j] == s[j]);
        }
        lemma_filter_keeps_distinct(d, pred);
        let f = d.filter(pred);
        assert forall|k: int| 0 <= k < f.len() implies s.contains(f[k]) by {
            assert(d.contains(f[k]));
            let w = choose|w: int| 0 <= w < d.len() && d[w] == f[k];
            assert(s[w] == f[k]);
        }
        if pred(s.last()) {
            assert(s.filter(pred) == f.push(s.last()));
            assert forall|k: int| 0 <= k < f.len() implies f[k] != s.last() by {
                assert(d.contains(f[k]));
                let w = choose|w: int| 0 <= w < d.len() && d[w] == f[k];
                assert(s[w] == f[k]);
                assert(s[w] != s[s.len() - 1]);
            }
            assert forall|k: int| 0 <= k < s.filter(pred).len() implies s.contains(
                #[trigger] s.filter(pred)[k],
            ) by {
                if k < f.len() {
                    assert(s.filter(pred)[k] == f[k]);
                } else {
                    assert(s.filter(pred)[k] == s.last());
                    assert(s.contains(s[s.len() - 1]));
                }
            }
        } else {
            assert(s.filter(pred) == f);
        }
    }
}

/// No reclamation pass frees a protected address: what `prot` protects is
/// absent from the freed addresses of a pass over any retirement list.
pub proof fn lemma_protected_never_freed(retired: Seq<usize>, prot: Set<usize>, addr: usize)
    requires
        prot.contains(addr),
    ensures
        !retired.filter(reclaimable(prot)).contains(addr),
{
    if retired.filter(reclaimable(prot)).contains(addr) {
        retired.lemma_filter_contains_rev(reclaimable(prot), addr);
        assert(reclaimable(prot)(addr));
    }
}

/// One reclamation pass partitions the retirement list: every retired
/// address is either freed by the pass or stays retired, and never both, so
/// no address can be freed twice by one pass.
pub proof fn lemma_reclaim_partition(retired: Seq<usize>, prot: Set<usize>, addr: usize)
    ensures
        retired.contains(addr) <==> (retired.filter(reclaimable(prot)).contains(addr)
            || retired.filter(still_protected(prot)).contains(addr)),
        !(retired.filter(reclaimable(prot)).contains(addr) && retired.filter(
            still_protected(prot),
        ).contains(addr)),
{
    let free = reclaimable(prot);
    let keep = still_protected(prot);
    if retired.contains(addr) {
        let w = choose|w: int| 0 <= w < retired.len() && retired[w] == addr;
        if prot.contains(addr) {
            retired.lemma_filter_contains(keep, w);
        } else {
            retired.lemma_filter_contains(free, w);
        }
    }
    if retired.filter(free).contains(addr) {
        retired.lemma_filter_contains_rev(free, addr);
    }
    if retired.filter(keep).contains(addr) {
        retired.lemma_filter_contains_rev(keep, addr);
    }
}

} // verus!
