use unlink::Operation;
use unlink::Stack;

fn apply(stack: &mut Stack<i64>, op: Operation<i64>) {
    match op {
        Operation::Push { item } => stack.push(item),
        Operation::Pop => {
            stack.pop();
        }
        Operation::PopPush => {
            if let Some(entry) = stack.pop() {
                let v = entry.into_value();
                stack.push(v.wrapping_mul(v));
            }
        }
        Operation::Append { items } => {
            let mut other = Stack::from_iter(items);
            stack.extend(&mut other);
        }
        Operation::Peek => {
            let _ = stack.peek();
        }
    }
}

#[test]
fn replay_random_operations_without_failure() {
    let mut stack = Stack::new();
    for _ in 0..2000 {
        let op = match rand::random::<u8>() % 5 {
            0 => Operation::Push {
                item: rand::random::<i64>() % 1000,
            },
            1 => Operation::Pop,
            2 => Operation::PopPush,
            3 => Operation::Append {
                items: vec![rand::random::<i64>() % 100, 7, 9],
            },
            _ => Operation::Peek,
        };
        apply(&mut stack, op);
    }

    // A full iteration still reaches exactly the values the length reports.
    let total = stack.len();
    let mut seen: usize = 0;
    while stack.get(seen).is_some() {
        seen += 1;
    }
    assert_eq!(seen, total);
}
