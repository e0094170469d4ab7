use rual::worksteal::{cursor_size, pop_outcome, push_allowed, steal_outcome};
use rual::{Task, WSDeque, WSStack};

#[test]
fn test_wsdeque_basic() {
    let deque = WSDeque::new(16);

    deque.push(Task::new(1, vec![1]));
    deque.push(Task::new(2, vec![2]));
    deque.push(Task::new(3, vec![3]));

    assert_eq!(deque.pop().unwrap().id, 3);
    assert_eq!(deque.pop().unwrap().id, 2);
    assert_eq!(deque.pop().unwrap().id, 1);
    assert!(deque.pop().is_none());
}

#[test]
fn test_wsdeque_steal() {
    let deque = WSDeque::new(16);

    deque.push(Task::new(1, vec![]));
    deque.push(Task::new(2, vec![]));
    deque.push(Task::new(3, vec![]));

    assert_eq!(deque.steal().unwrap().id, 1);

    assert_eq!(deque.pop().unwrap().id, 3);
    assert_eq!(deque.pop().unwrap().id, 2);
}

#[test]
fn test_wsstack_basic() {
    let stack = WSStack::new();

    stack.push(Task::new(1, vec![1]));
    stack.push(Task::new(2, vec![2]));
    stack.push(Task::new(3, vec![3]));

    assert_eq!(stack.pop().unwrap().id, 3);
    assert_eq!(stack.steal().unwrap().id, 1);
    assert_eq!(stack.pop().unwrap().id, 2);
    assert!(stack.pop().is_none());
}

#[test]
fn wsdeque_full_and_zero_capacity() {
    let deque = WSDeque::new(2);
    assert!(deque.push(Task::new(1, vec![])));
    assert!(deque.push(Task::new(2, vec![])));
    assert!(!deque.push(Task::new(3, vec![])));
    assert_eq!(deque.len(), 2);
    let empty = WSDeque::new(0);
    assert!(!empty.push(Task::new(1, vec![])));
    assert!(empty.pop().is_none());
    assert!(empty.steal().is_none());
    assert!(empty.is_empty());
}

#[test]
fn wsdeque_sequential_drain_delivers_each_task_once() {
    let deque = WSDeque::new(64);
    for i in 0..40 {
        assert!(deque.push(Task::new(i, vec![])));
    }
    let mut seen = Vec::new();
    let mut turn = 0;
    loop {
        let next = if turn % 3 == 0 { deque.steal() } else { deque.pop() };
        match next {
            Some(t) => seen.push(t.id),
            None => break,
        }
        turn += 1;
    }
    seen.sort();
    assert_eq!(seen, (0..40).collect::<Vec<i64>>());
}

#[test]
fn wsstack_drain_delivers_each_task_once() {
    let stack = WSStack::with_capacity(0);
    for i in 0..30 {
        assert!(stack.push(Task::new(i, vec![i as u8])));
    }
    assert_eq!(stack.len(), 30);
    let mut seen = Vec::new();
    let mut turn = 0;
    loop {
        let next = if turn % 2 == 0 { stack.steal() } else { stack.pop() };
        match next {
            Some(t) => {
                assert_eq!(t.data, vec![t.id as u8]);
                seen.push(t.id)
            }
            None => break,
        }
        turn += 1;
    }
    seen.sort();
    assert_eq!(seen, (0..30).collect::<Vec<i64>>());
    assert!(stack.is_empty());
}

#[test]
fn wsstack_close_refuses_pushes() {
    let stack = WSStack::new();
    assert!(!stack.is_closed());
    stack.close();
    assert!(stack.is_closed());
    assert!(!stack.push(Task::new(1, vec![])));
}

#[test]
fn task_encoding_is_big_endian_id_then_payload() {
    let task = Task::new(0x0102030405060708, vec![9, 10]);
    assert_eq!(task.to_bytes(), vec![1, 2, 3, 4, 5, 6, 7, 8, 9, 10]);
    let negative = Task::new(-2, vec![]);
    assert_eq!(negative.to_bytes(), vec![0xff, 0xff, 0xff, 0xff, 0xff, 0xff, 0xff, 0xfe]);
}

#[test]
fn task_round_trip_and_short_input() {
    let task = Task::new(-123456789, vec![7, 8, 9]);
    let back = Task::from_bytes(&task.to_bytes()).unwrap();
    assert_eq!(back.id, -123456789);
    assert_eq!(back.data, vec![7, 8, 9]);
    assert!(Task::from_bytes(&[1, 2, 3, 4, 5, 6, 7]).is_none());
    let bare = Task::from_bytes(&[0, 0, 0, 0, 0, 0, 0, 5]).unwrap();
    assert_eq!(bare.id, 5);
    assert!(bare.data.is_empty());
}

#[test]
fn deque_decisions_on_cursor_values() {
    assert!(push_allowed(3, 0, 4));
    assert!(!push_allowed(4, 0, 4));
    assert!(!push_allowed(0, 1, 4));
    assert!(!push_allowed(0, 0, 0));
    assert_eq!(pop_outcome(0, 2, false, Some(Task::new(7, vec![]))).unwrap().id, 7);
    assert!(pop_outcome(2, 2, false, Some(Task::new(7, vec![]))).is_none());
    assert_eq!(pop_outcome(2, 2, true, Some(Task::new(7, vec![]))).unwrap().id, 7);
    assert!(pop_outcome(3, 2, true, Some(Task::new(7, vec![]))).is_none());
    assert_eq!(steal_outcome(0, 1, true, Some(Task::new(8, vec![]))).unwrap().id, 8);
    assert!(steal_outcome(0, 1, false, Some(Task::new(8, vec![]))).is_none());
    assert!(steal_outcome(1, 1, true, Some(Task::new(8, vec![]))).is_none());
    assert_eq!(cursor_size(5, 2), 3);
    assert_eq!(cursor_size(2, 5), 0);
    assert_eq!(cursor_size(i64::MAX, i64::MIN), usize::MAX);
}
