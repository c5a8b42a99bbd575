use unlink::Stack;

fn drain(stack: Stack<i32>) -> Vec<i32> {
    let mut it = stack.into_iter();
    let mut out = Vec::new();
    while let Some(v) = it.next() {
        out.push(v);
    }
    out
}

#[test]
fn test_new_node() {
    let mut stack = Stack::new();
    stack.push(1);
}

#[test]
fn test_push_front() {
    let mut list = Stack::new();

    list.push(1);

    assert_eq!(list.len(), 1);
}

#[test]
fn test_push_pop_sync() {
    let mut list = Stack::new();

    for i in 0..10 {
        for _ in 0..100 {
            if rand::random::<u8>() % 3 != 0 {
                list.push(i);
            } else {
                list.pop();
            }
        }
    }

    let mut it = list.into_iter();
    while let Some(e) = it.next() {
        println!("{}", e);
    }
}

#[test]
fn test_extend() {
    let expected = vec![2, 3, 7, 2, 0, 0, 3, 4, 2, 5];

    let mut stack = Stack::new();

    expected[expected.len() / 2..]
        .iter()
        .rev()
        .for_each(|&e| stack.push(e));

    let mut other = Stack::new();

    expected[..expected.len() / 2]
        .iter()
        .rev()
        .for_each(|&e| other.push(e));

    stack.extend(&mut other);

    let actual: Vec<i32> = drain(stack);

    assert_eq!(expected, actual);
}

#[test]
fn pop_and_peek_empty() {
    let mut stack: Stack<i32> = Stack::new();
    assert!(stack.peek().is_none());
    assert!(stack.pop().is_none());
    assert_eq!(stack.len(), 0);
}

#[test]
fn lifo_order_and_len_reaches_zero() {
    let pushed = vec![4, 8, 15, 16, 23, 42];
    let mut stack = Stack::new();
    for &v in &pushed {
        stack.push(v);
    }
    assert_eq!(stack.len(), pushed.len());

    let mut popped = Vec::new();
    while let Some(entry) = stack.pop() {
        popped.push(entry.into_value());
    }

    let mut reversed = pushed.clone();
    reversed.reverse();
    assert_eq!(popped, reversed);
    assert_eq!(stack.len(), 0);
}

#[test]
fn push_pop_conservation() {
    let mut stack = Stack::new();
    let mut pushed: usize = 0;
    let mut popped: usize = 0;

    for round in 0..50 {
        for v in 0..round {
            stack.push(v);
            pushed += 1;
        }
        for _ in 0..(round / 2 + 1) {
            if stack.pop().is_some() {
                popped += 1;
            }
        }
    }

    let mut remaining: usize = 0;
    let mut i: usize = 0;
    while stack.get(i).is_some() {
        remaining += 1;
        i += 1;
    }
    assert_eq!(remaining, stack.len());
    assert_eq!(popped + remaining, pushed);
}

#[test]
fn extend_splices_in_front_and_source_stays_usable() {
    let mut dest = Stack::from_iter(vec![3, 2, 1, 0]);
    let mut source = Stack::from_iter(vec![9, 8]);

    dest.extend(&mut source);

    assert_eq!(source.len(), 0);
    assert!(source.pop().is_none());
    source.push(7);
    assert_eq!(source.len(), 1);
    assert_eq!(source.peek(), Some(&7));

    assert_eq!(drain(dest), vec![8, 9, 0, 1, 2, 3]);
}

#[test]
fn extend_with_empty_source_is_a_no_op() {
    let mut dest = Stack::from_iter(vec![1, 2]);
    let mut source = Stack::new();
    dest.extend(&mut source);
    assert_eq!(drain(dest), vec![2, 1]);
}

#[test]
fn extend_onto_empty_destination() {
    let mut dest = Stack::new();
    let mut source = Stack::from_iter(vec![1, 2]);
    dest.extend(&mut source);
    assert_eq!(source.len(), 0);
    assert_eq!(drain(dest), vec![2, 1]);
}

#[test]
fn scenario_push_pop_peek_extend_iterate() {
    let mut stack = Stack::new();
    stack.push(1);
    stack.push(2);
    stack.push(3);

    assert_eq!(stack.pop().map(|e| e.into_value()), Some(3));
    assert_eq!(stack.peek(), Some(&2));
    assert_eq!(stack.pop().map(|e| e.into_value()), Some(2));

    let mut fresh = Stack::new();
    fresh.push(8);
    fresh.push(9);
    stack.extend(&mut fresh);

    assert_eq!(stack.get(0), Some(&9));
    assert_eq!(stack.get(1), Some(&8));
    assert_eq!(stack.get(2), Some(&1));
    assert_eq!(stack.get(3), None);

    assert_eq!(drain(stack), vec![9, 8, 1]);
}

#[test]
fn consuming_iteration_yields_each_position_once() {
    let values = vec![5, 5, 6, 7, 5];
    let mut stack = Stack::new();
    for &v in &values {
        stack.push(v);
    }
    let drained = drain(stack);
    assert_eq!(drained.len(), values.len());
    let mut reversed = values.clone();
    reversed.reverse();
    assert_eq!(drained, reversed);
}

#[test]
fn non_consuming_iteration_observes_without_removing() {
    let stack = Stack::from_iter(vec![1, 2, 3]);

    let mut it = stack.iter();
    assert_eq!(it.next(), Some(&3));
    assert_eq!(it.next(), Some(&2));
    assert_eq!(it.next(), Some(&1));
    assert_eq!(it.next(), None);
    assert_eq!(it.next(), None);

    assert_eq!(stack.len(), 3);
    assert_eq!(stack.peek(), Some(&3));
}

#[test]
fn from_iter_puts_last_value_on_top() {
    let stack = Stack::from_iter(vec![1, 2, 3]);
    assert_eq!(drain(stack), vec![3, 2, 1]);
}

#[test]
fn entry_exposes_the_popped_value() {
    let mut stack = Stack::new();
    stack.push(11);
    let entry = stack.pop().unwrap();
    assert_eq!(*entry.value(), 11);
    assert_eq!(entry.into_value(), 11);
}
