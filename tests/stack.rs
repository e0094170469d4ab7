use rual::{Perspective, Stack, StackError};

#[test]
fn test_lifo_basic() {
    let stack: Stack<i64> = Stack::new(Perspective::LIFO);
    stack.push(1).unwrap();
    stack.push(2).unwrap();
    stack.push(3).unwrap();

    assert_eq!(stack.len(), 3);
    assert_eq!(stack.pop().unwrap(), 3);
    assert_eq!(stack.pop().unwrap(), 2);
    assert_eq!(stack.pop().unwrap(), 1);
    assert!(stack.pop().is_err());
}

#[test]
fn test_fifo_basic() {
    let stack: Stack<i64> = Stack::new(Perspective::FIFO);
    stack.push(1).unwrap();
    stack.push(2).unwrap();
    stack.push(3).unwrap();

    assert_eq!(stack.pop().unwrap(), 1);
    assert_eq!(stack.pop().unwrap(), 2);
    assert_eq!(stack.pop().unwrap(), 3);
}

#[test]
fn test_indexed() {
    let stack: Stack<i64> = Stack::new(Perspective::Indexed);
    stack.push(10).unwrap();
    stack.push(20).unwrap();
    stack.push(30).unwrap();

    assert_eq!(stack.peek_at(0).unwrap(), 10);
    assert_eq!(stack.peek_at(1).unwrap(), 20);
    assert_eq!(stack.peek_at(2).unwrap(), 30);

    assert_eq!(stack.pop_at(1).unwrap(), 20);
    assert_eq!(stack.peek_at(1).unwrap(), 30);
}

#[test]
fn test_hash() {
    let stack: Stack<i64> = Stack::new(Perspective::Hash);
    stack.push_keyed("a", 10).unwrap();
    stack.push_keyed("b", 20).unwrap();
    stack.push_keyed("c", 30).unwrap();

    assert_eq!(stack.peek_key("b").unwrap(), 20);
    assert_eq!(stack.pop_key("b").unwrap(), 20);
    assert!(stack.peek_key("b").is_err());
}

#[test]
fn test_freeze() {
    let stack: Stack<i64> = Stack::new(Perspective::LIFO);
    stack.push(1).unwrap();
    stack.freeze();

    assert!(stack.push(2).is_err());
    assert!(stack.pop().is_err());
    assert_eq!(stack.peek().unwrap(), 1);
}

#[test]
fn test_capacity() {
    let stack: Stack<i64> = Stack::with_capacity(Perspective::LIFO, 2);
    stack.push(1).unwrap();
    stack.push(2).unwrap();
    assert!(stack.push(3).is_err());

    stack.pop().unwrap();
    stack.push(3).unwrap();
}

#[test]
fn test_raw_access() {
    let stack: Stack<i64> = Stack::new(Perspective::LIFO);
    stack.push(10).unwrap();
    stack.push(20).unwrap();

    {
        let mut guard = stack.lock();
        assert_eq!(guard.pop_raw().unwrap(), 20);
        guard.push_raw(30).unwrap();
    }

    assert_eq!(stack.pop().unwrap(), 30);
    assert_eq!(stack.pop().unwrap(), 10);
}

#[test]
fn test_slice_access() {
    let stack: Stack<i64> = Stack::new(Perspective::Indexed);
    stack.push(1).unwrap();
    stack.push(2).unwrap();
    stack.push(3).unwrap();

    let guard = stack.lock();
    let slice = guard.as_slice();
    assert_eq!(slice, &[1, 2, 3]);
}

#[test]
fn lifo_extra_pop_is_empty_error() {
    let stack: Stack<i64> = Stack::new(Perspective::LIFO);
    for x in [5, 6, 7, 8] {
        stack.push(x).unwrap();
    }
    let popped: Vec<i64> = (0..4).map(|_| stack.pop().unwrap()).collect();
    assert_eq!(popped, vec![8, 7, 6, 5]);
    assert_eq!(stack.pop(), Err(StackError::Empty));
}

#[test]
fn fifo_order_kept_across_compaction() {
    let stack: Stack<i64> = Stack::new(Perspective::FIFO);
    for x in 0..300 {
        stack.push(x).unwrap();
    }
    for x in 0..250 {
        assert_eq!(stack.pop().unwrap(), x);
    }
    assert_eq!(stack.len(), 50);
    for x in 250..300 {
        assert_eq!(stack.pop().unwrap(), x);
    }
    assert_eq!(stack.pop(), Err(StackError::Empty));
}

#[test]
fn freeze_errors_are_frozen() {
    let stack: Stack<i64> = Stack::new(Perspective::LIFO);
    stack.push(1).unwrap();
    stack.freeze();
    assert!(stack.is_frozen());
    assert_eq!(stack.push(2), Err(StackError::Frozen));
    assert_eq!(stack.pop(), Err(StackError::Frozen));
    assert_eq!(stack.peek(), Ok(1));
}

#[test]
fn capacity_error_is_full() {
    let stack: Stack<i64> = Stack::with_capacity(Perspective::LIFO, 2);
    assert_eq!(stack.capacity(), 2);
    stack.push(1).unwrap();
    stack.push(2).unwrap();
    assert_eq!(stack.push(3), Err(StackError::Full));
    assert_eq!(stack.push_keyed("k", 3), Err(StackError::Full));
    assert_eq!(stack.pop(), Ok(2));
    assert_eq!(stack.push(3), Ok(()));
    assert_eq!(stack.pop(), Ok(3));
}

#[test]
fn hash_requires_keys() {
    let stack: Stack<i64> = Stack::new(Perspective::Hash);
    assert_eq!(stack.push(1), Err(StackError::KeyRequired));
    stack.push_keyed("a", 1).unwrap();
    assert_eq!(stack.pop(), Err(StackError::KeyRequired));
    assert_eq!(stack.peek(), Err(StackError::KeyRequired));
    assert_eq!(stack.pop_at(0), Err(StackError::KeyRequired));
    assert_eq!(stack.pop_key("zz"), Err(StackError::KeyNotFound));
}

#[test]
fn hash_overwrites_existing_key_in_place() {
    let stack: Stack<i64> = Stack::new(Perspective::Hash);
    stack.push_keyed("a", 1).unwrap();
    stack.push_keyed("a", 2).unwrap();
    assert_eq!(stack.len(), 1);
    assert_eq!(stack.peek_key("a"), Ok(2));
}

#[test]
fn hash_delete_leaves_tombstone() {
    let stack: Stack<i64> = Stack::new(Perspective::Hash);
    stack.push_keyed("a", 10).unwrap();
    stack.push_keyed("b", 20).unwrap();
    assert_eq!(stack.pop_key("a"), Ok(10));
    assert_eq!(stack.len(), 2);
    assert_eq!(stack.peek_key("a"), Err(StackError::KeyNotFound));
    stack.set_perspective(Perspective::LIFO);
    assert_eq!(stack.pop(), Ok(20));
    assert_eq!(stack.pop(), Ok(10));
}

#[test]
fn switching_to_hash_labels_slots_by_position() {
    let stack: Stack<i64> = Stack::new(Perspective::LIFO);
    stack.push(100).unwrap();
    stack.push(200).unwrap();
    stack.push_keyed("named", 300).unwrap();
    stack.set_perspective(Perspective::Hash);
    assert_eq!(stack.perspective(), Perspective::Hash);
    assert_eq!(stack.peek_key("0"), Ok(100));
    assert_eq!(stack.peek_key("1"), Ok(200));
    assert_eq!(stack.peek_key("named"), Ok(300));
    assert_eq!(stack.peek_key("2"), Err(StackError::KeyNotFound));
}

#[test]
fn indexed_default_pop_and_peek_differ() {
    let stack: Stack<i64> = Stack::new(Perspective::Indexed);
    stack.push(1).unwrap();
    stack.push(2).unwrap();
    assert_eq!(stack.peek(), Err(StackError::IndexOutOfBounds));
    assert_eq!(stack.pop(), Ok(2));
    assert_eq!(stack.peek_at(5), Err(StackError::IndexOutOfBounds));
    assert_eq!(stack.pop_at(5), Err(StackError::IndexOutOfBounds));
}

#[test]
fn offsets_by_perspective() {
    let stack: Stack<i64> = Stack::new(Perspective::LIFO);
    for x in [1, 2, 3, 4] {
        stack.push(x).unwrap();
    }
    assert_eq!(stack.peek_at(1), Ok(3));
    assert_eq!(stack.pop_at(1), Ok(3));
    assert_eq!(stack.pop_at(9), Err(StackError::IndexOutOfBounds));
    assert_eq!(stack.pop_key("x"), Err(StackError::KeyNotFound));
    stack.set_perspective(Perspective::FIFO);
    assert_eq!(stack.peek_at(1), Ok(2));
    assert_eq!(stack.pop_at(1), Ok(2));
    assert_eq!(stack.pop(), Ok(1));
    assert_eq!(stack.pop(), Ok(4));
    assert_eq!(stack.pop(), Err(StackError::Empty));
    assert_eq!(stack.peek(), Err(StackError::Empty));
}

#[test]
fn close_does_not_block_pushes() {
    let stack: Stack<i64> = Stack::new(Perspective::LIFO);
    assert!(!stack.is_closed());
    stack.close();
    assert!(stack.is_closed());
    assert_eq!(stack.push(1), Ok(()));
    assert_eq!(stack.pop(), Ok(1));
}

#[test]
fn clear_empties_the_stack() {
    let stack: Stack<i64> = Stack::new(Perspective::FIFO);
    stack.push(1).unwrap();
    stack.push(2).unwrap();
    stack.pop().unwrap();
    stack.clear();
    assert!(stack.is_empty());
    assert_eq!(stack.len(), 0);
    stack.push(3).unwrap();
    assert_eq!(stack.pop(), Ok(3));
}

#[test]
fn guard_index_and_key_access() {
    let stack: Stack<i64> = Stack::new(Perspective::Indexed);
    stack.push(1).unwrap();
    {
        let mut guard = stack.lock();
        guard.set_at_raw(3, 9).unwrap();
        assert_eq!(guard.len(), 4);
        assert_eq!(guard.as_slice(), &[1, 9, 9, 9]);
        assert_eq!(guard.get_at_raw(0), Some(&1));
        assert_eq!(guard.get_at_raw(4), None);
        assert_eq!(guard.set_raw("k", 5), Err(StackError::KeyRequired));
    }
    assert_eq!(stack.len(), 4);
    stack.set_perspective(Perspective::Hash);
    {
        let mut guard = stack.lock();
        guard.set_raw("k", 5).unwrap();
        assert_eq!(guard.get_raw("k"), Some(&5));
        guard.set_raw("k", 6).unwrap();
        assert_eq!(guard.get_raw("k"), Some(&6));
        assert_eq!(guard.get_raw("missing"), None);
        assert!(!guard.is_empty());
    }
    assert_eq!(stack.peek_key("k"), Ok(6));
}

#[test]
fn guard_pop_raw_fifo_and_empty() {
    let stack: Stack<i64> = Stack::new(Perspective::FIFO);
    stack.push(1).unwrap();
    stack.push(2).unwrap();
    {
        let mut guard = stack.lock();
        assert_eq!(guard.pop_raw(), Ok(1));
        assert_eq!(guard.pop_raw(), Ok(2));
        assert_eq!(guard.pop_raw(), Err(StackError::Empty));
    }
    stack.freeze();
    let mut guard = stack.lock();
    assert_eq!(guard.push_raw(3), Err(StackError::Frozen));
}

#[test]
fn error_messages() {
    assert_eq!(StackError::Empty.message(), "stack empty");
    assert_eq!(StackError::KeyRequired.message(), "hash perspective requires key");
    assert_eq!(StackError::Cancelled.message(), "operation cancelled");
}

#[test]
fn keyed_push_onto_dead_slot_label_appends() {
    let stack: Stack<i64> = Stack::new(Perspective::FIFO);
    stack.push(1).unwrap();
    stack.push(2).unwrap();
    assert_eq!(stack.pop(), Ok(1));
    stack.set_perspective(Perspective::Hash);
    assert_eq!(stack.pop_key("0"), Err(StackError::IndexOutOfBounds));
    assert_eq!(stack.peek_key("0"), Err(StackError::IndexOutOfBounds));
    assert_eq!(stack.peek_key("1"), Ok(2));
    assert_eq!(stack.push_keyed("0", 5), Ok(()));
    assert_eq!(stack.len(), 2);
    assert_eq!(stack.peek_key("0"), Ok(5));
    assert_eq!(stack.pop_key("0"), Ok(5));
}
