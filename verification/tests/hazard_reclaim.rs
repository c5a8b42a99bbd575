use unlink::Domain;
use unlink::Stack;

#[test]
fn test_hazard() {
    // The three nodes of the stack live, bottom to top, at addresses 1, 2
    // and 3 in the registry's terms; a later push allocates address 4. The
    // counter counts nodes freed, as a drop-counting element type would.
    let mut stack = Stack::new();
    let mut domain = Domain::new();
    let mut counter: usize = 0;

    let mut fresh = Stack::new();
    fresh.push(0);
    fresh.push(2);
    fresh.push(3);
    stack.extend(&mut fresh);

    // peek: protect the head before reading it.
    let top_slot = domain.hazard();
    assert!(domain.try_protect(top_slot, 3, 3));
    let top = *stack.peek().unwrap();

    // pop: protect the head, unlink it, retire it, then reclaim eagerly.
    let owned_slot = domain.hazard();
    assert!(domain.try_protect(owned_slot, 3, 3));
    let owned = stack.pop().unwrap();
    domain.retire(3);
    counter += domain.eager_reclaim().len();

    assert_eq!(top, *owned.value());

    // Dropping the owned entry releases its protection; the peek guard
    // still protects the node, so reclaiming frees nothing.
    drop(owned);
    domain.release(owned_slot);
    counter += domain.eager_reclaim().len();

    assert_eq!(counter, 0);

    assert!(top != -1);

    // Releasing the last guard frees nothing by itself.
    domain.release(top_slot);

    assert_eq!(counter, 0);

    // The next pass finds the retired node unprotected and frees it.
    counter += domain.eager_reclaim().len();

    assert_eq!(counter, 1);

    // pop of the node at address 2: its own guard keeps it alive through
    // the pass that its pop runs.
    let slot_a2 = domain.hazard();
    assert!(domain.try_protect(slot_a2, 2, 2));
    let popped = stack.pop();
    domain.retire(2);
    counter += domain.eager_reclaim().len();
    drop(popped);
    domain.release(slot_a2);

    assert_eq!(counter, 1);

    // pop of the node at address 1: its pass frees address 2, now
    // unprotected, and defers address 1.
    let slot_a1 = domain.hazard();
    assert!(domain.try_protect(slot_a1, 1, 1));
    let popped = stack.pop();
    domain.retire(1);
    counter += domain.eager_reclaim().len();
    drop(popped);
    domain.release(slot_a1);

    assert_eq!(counter, 2);

    stack.push(0);

    assert_eq!(counter, 2);

    // pop of the fresh node at address 4: its pass frees address 1.
    let slot_a4 = domain.hazard();
    assert!(domain.try_protect(slot_a4, 4, 4));
    let popped = stack.pop();
    domain.retire(4);
    counter += domain.eager_reclaim().len();
    drop(popped);
    domain.release(slot_a4);

    assert_eq!(counter, 3);
}

#[test]
fn protected_address_is_never_freed() {
    let mut domain = Domain::new();
    let slot = domain.hazard();
    assert!(domain.try_protect(slot, 77, 77));
    assert!(domain.is_protected(77));

    domain.retire(77);
    let freed = domain.eager_reclaim();
    assert!(freed.is_empty());
    assert_eq!(domain.retired_count(), 1);

    domain.release(slot);
    assert!(!domain.is_protected(77));
    let freed = domain.eager_reclaim();
    assert_eq!(freed, vec![77]);
    assert_eq!(domain.retired_count(), 0);
}

#[test]
fn reclaim_partitions_the_retirement_list() {
    let mut domain = Domain::new();
    let slot = domain.hazard();
    domain.retire(10);
    domain.retire(20);
    domain.retire(30);
    assert!(domain.try_protect(slot, 20, 20));

    let freed = domain.eager_reclaim();
    assert_eq!(freed, vec![10, 30]);
    assert_eq!(domain.retired_count(), 1);

    // A second pass with the protection still up frees nothing more.
    let freed = domain.eager_reclaim();
    assert!(freed.is_empty());
    assert_eq!(domain.retired_count(), 1);

    domain.release(slot);
    let freed = domain.eager_reclaim();
    assert_eq!(freed, vec![20]);
    assert_eq!(domain.retired_count(), 0);
}

#[test]
fn try_protect_repeats_until_the_read_stabilizes() {
    let mut domain = Domain::new();
    let slot = domain.hazard();

    // The shared slot moved between the read and the publication: retry.
    assert!(!domain.try_protect(slot, 5, 9));
    // The repeated round published the fresh value and the re-read agrees.
    assert!(domain.try_protect(slot, 9, 9));
    assert!(domain.is_protected(9));
    assert!(!domain.is_protected(5));
}

#[test]
fn separate_slots_protect_independently() {
    let mut domain = Domain::new();
    let first = domain.hazard();
    let second = domain.hazard();
    assert!(domain.try_protect(first, 1, 1));
    assert!(domain.try_protect(second, 2, 2));
    assert!(domain.is_protected(1));
    assert!(domain.is_protected(2));

    domain.release(first);
    assert!(!domain.is_protected(1));
    assert!(domain.is_protected(2));
}
