use std::sync::Arc;
use rual::{Perspective, Stack, StackError, View, WorkStealViews};

#[test]
fn test_dual_views() {
    let stack = Arc::new(Stack::<i64>::new(Perspective::LIFO));

    stack.push(1).unwrap();
    stack.push(2).unwrap();
    stack.push(3).unwrap();

    let lifo = View::lifo(Arc::clone(&stack));
    let fifo = View::fifo(Arc::clone(&stack));

    assert_eq!(lifo.peek().unwrap(), 3);
    assert_eq!(fifo.peek().unwrap(), 1);

    assert_eq!(fifo.pop().unwrap(), 1);
    assert_eq!(fifo.peek().unwrap(), 2);
    assert_eq!(lifo.peek().unwrap(), 3);
}

#[test]
fn test_work_steal_pattern() {
    let stack = Arc::new(Stack::<i64>::new(Perspective::LIFO));
    let views = WorkStealViews::new(stack);

    views.owner.push(1).unwrap();
    views.owner.push(2).unwrap();
    views.owner.push(3).unwrap();

    assert_eq!(views.owner.pop().unwrap(), 3);
    assert_eq!(views.thief.pop().unwrap(), 1);
    assert_eq!(views.owner.pop().unwrap(), 2);

    assert!(views.owner.pop().is_err());
    assert!(views.thief.pop().is_err());
}

#[test]
fn view_restores_stack_perspective() {
    let stack = Arc::new(Stack::<i64>::new(Perspective::FIFO));
    stack.push(1).unwrap();
    stack.push(2).unwrap();
    let lifo = View::lifo(Arc::clone(&stack));
    assert_eq!(lifo.perspective(), Perspective::LIFO);
    assert_eq!(lifo.pop(), Ok(2));
    assert_eq!(stack.perspective(), Perspective::FIFO);
    assert_eq!(lifo.len(), 1);
    assert!(!lifo.is_empty());
}

#[test]
fn key_access_through_non_hash_view_fails() {
    let stack = Arc::new(Stack::<i64>::new(Perspective::Hash));
    stack.push_keyed("a", 1).unwrap();
    let fifo = View::fifo(Arc::clone(&stack));
    assert_eq!(fifo.pop_key("a"), Err(StackError::KeyNotFound));
    assert_eq!(fifo.peek_key("a"), Err(StackError::KeyNotFound));
    let hash = View::hash(Arc::clone(&stack));
    assert_eq!(hash.peek_key("a"), Ok(1));
    assert_eq!(hash.pop_key("a"), Ok(1));
    assert_eq!(hash.peek_key("a"), Err(StackError::KeyNotFound));
}

#[test]
fn indexed_view_reads_positions() {
    let stack = Arc::new(Stack::<i64>::new(Perspective::LIFO));
    for x in [10, 20, 30] {
        stack.push(x).unwrap();
    }
    let indexed = View::indexed(Arc::clone(&stack));
    assert_eq!(indexed.peek_at(0), Ok(10));
    assert_eq!(indexed.peek(), Err(StackError::IndexOutOfBounds));
    assert_eq!(indexed.pop_at(1), Ok(20));
    let copy = indexed.clone();
    assert_eq!(copy.peek_at(1), Ok(30));
    assert_eq!(Arc::strong_count(copy.stack()), 3);
}
