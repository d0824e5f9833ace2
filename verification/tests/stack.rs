use concepts::stack::GlobalStack;

#[test]
fn stack_lifo_order() {
    let stack: GlobalStack<i32> = GlobalStack::new();
    stack.push(1);
    stack.push(2);
    stack.push(3);
    assert_eq!(Some(3), stack.pop());
    assert_eq!(Some(2), stack.pop());
    assert_eq!(Some(1), stack.pop());
    assert_eq!(None, stack.pop());
}

#[test]
fn pop_on_empty_yields_none() {
    let stack: GlobalStack<String> = GlobalStack::new();
    assert_eq!(None, stack.pop());
}

#[test]
fn cloned_handle_shares_the_sequence() {
    let a: GlobalStack<String> = GlobalStack::new();
    let b = a.clone();

    a.push("x".to_owned());
    assert_eq!(Some("x".to_owned()), b.pop());

    b.push("y".to_owned());
    b.push("z".to_owned());
    assert_eq!(Some("z".to_owned()), a.pop());
    assert_eq!(Some("y".to_owned()), a.pop());
    assert_eq!(None, a.pop());
    assert_eq!(None, b.pop());
}

#[test]
fn peek_leaves_the_top_in_place() {
    let stack: GlobalStack<i32> = GlobalStack::new();
    assert_eq!(None, stack.peek());
    stack.push(5);
    stack.push(8);
    assert_eq!(Some(8), stack.peek());
    assert_eq!(Some(8), stack.peek());
    assert_eq!(Some(8), stack.pop());
    assert_eq!(Some(5), stack.peek());
}

#[test]
fn distinct_pushes_all_present() {
    let stack: GlobalStack<i32> = GlobalStack::new();
    for i in 0..10 {
        stack.push(i);
    }
    let mut results = vec![];
    loop {
        match stack.pop() {
            Some(v) => results.push(v),
            None => break,
        }
    }
    results.sort();
    assert_eq!(results, vec![0, 1, 2, 3, 4, 5, 6, 7, 8, 9]);
}
