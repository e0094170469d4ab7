use rual::{IntStack, Memory, StackMode, StackSelector, StackType, StringStack, load, store};
use rual::calc::int_stack::{peek_r, pop_r, push_r};

fn int_stack(values: &[i32]) -> IntStack {
    let mut s = IntStack::new();
    for v in values {
        s.push(*v);
    }
    s
}

fn drain(s: &mut IntStack) -> Vec<i32> {
    s.set_mode(StackMode::FIFO);
    let mut out = Vec::new();
    while let Some(v) = s.pop() {
        out.push(v);
    }
    out
}

#[test]
fn int_stack_lifo_and_fifo_pops() {
    let mut s = int_stack(&[1, 2, 3]);
    assert_eq!(s.peek(), Some(&3));
    assert_eq!(s.pop(), Some(3));
    s.set_mode(StackMode::FIFO);
    assert_eq!(s.peek(), Some(&1));
    assert_eq!(s.pop(), Some(1));
    assert_eq!(s.depth(), 1);
    assert!(s.drop());
    assert!(!s.drop());
    assert_eq!(s.pop(), None);
}

#[test]
fn int_stack_arithmetic() {
    let mut s = int_stack(&[7, 3]);
    assert!(s.sub());
    assert_eq!(s.pop(), Some(4));
    let mut s = int_stack(&[7, 3]);
    assert!(s.add());
    assert_eq!(s.pop(), Some(10));
    let mut s = int_stack(&[7, 3]);
    assert!(s.mul());
    assert_eq!(s.pop(), Some(21));
    let mut s = int_stack(&[-7, 2]);
    assert!(s.div());
    assert_eq!(s.pop(), Some(-3));
    let mut s = int_stack(&[7, 0]);
    assert!(!s.div());
    assert_eq!(drain(&mut s), vec![7, 0]);
    let mut s = int_stack(&[1]);
    assert!(!s.add());
    assert_eq!(s.depth(), 1);
}

#[test]
fn int_stack_fifo_operands_come_from_the_front() {
    let mut s = int_stack(&[10, 4, 1]);
    s.set_mode(StackMode::FIFO);
    assert!(s.sub());
    assert_eq!(drain(&mut s), vec![1, -6]);
}

#[test]
fn int_stack_bitwise() {
    let mut s = int_stack(&[0b1100, 0b1010]);
    assert!(s.and());
    assert_eq!(s.pop(), Some(0b1000));
    let mut s = int_stack(&[0b1100, 0b1010]);
    assert!(s.or());
    assert_eq!(s.pop(), Some(0b1110));
    let mut s = int_stack(&[0b1100, 0b1010]);
    assert!(s.xor());
    assert_eq!(s.pop(), Some(0b0110));
    let mut s = int_stack(&[3, 4]);
    assert!(s.shl());
    assert_eq!(s.pop(), Some(48));
    let mut s = int_stack(&[-16, 2]);
    assert!(s.shr());
    assert_eq!(s.pop(), Some(-4));
}

#[test]
fn int_stack_shuffles() {
    let mut s = int_stack(&[1, 2]);
    assert!(s.tuck());
    assert_eq!(drain(&mut s), vec![2, 1, 2]);
    let mut s = int_stack(&[1, 2, 3]);
    assert!(s.pick(2));
    assert_eq!(drain(&mut s), vec![1, 2, 3, 1]);
    let mut s = int_stack(&[1, 2, 3]);
    assert!(!s.pick(3));
    assert!(s.roll(2));
    assert_eq!(drain(&mut s), vec![2, 3, 1]);
    let mut s = int_stack(&[1, 2, 3, 4]);
    assert!(s.over2());
    assert_eq!(drain(&mut s), vec![1, 2, 3, 4, 1, 2]);
    let mut s = int_stack(&[1, 2, 3, 4]);
    assert!(s.swap2());
    assert_eq!(drain(&mut s), vec![3, 4, 1, 2]);
    let mut s = int_stack(&[1, 2, 3, 4]);
    assert!(s.drop2());
    assert_eq!(drain(&mut s), vec![1, 2]);
    let mut s = int_stack(&[1, 2, 3]);
    assert!(s.swap());
    assert!(s.dup());
    assert_eq!(drain(&mut s), vec![1, 3, 2, 2]);
    let mut s = int_stack(&[1, 2, 3]);
    s.flip();
    assert_eq!(drain(&mut s), vec![3, 2, 1]);
    let mut s = int_stack(&[1, 2, 3]);
    assert!(!s.over2());
    assert!(!s.swap2());
}

#[test]
fn int_stack_memory() {
    let mut memory = Memory::new();
    let mut s = int_stack(&[99, 5]);
    assert!(s.store(&mut memory));
    assert_eq!(s.depth(), 0);
    assert_eq!(load(&memory, 5), Some(99));
    s.push(5);
    assert!(s.load(&memory));
    assert_eq!(s.pop(), Some(99));
    s.push(6);
    assert!(!s.load(&memory));
    assert_eq!(s.depth(), 0);
    store(&mut memory, 5, 1);
    assert_eq!(load(&memory, 5), Some(1));
}

#[test]
fn return_stack_moves() {
    let mut data = int_stack(&[1, 2]);
    let mut ret = IntStack::new();
    assert!(push_r(&mut data, &mut ret));
    assert_eq!(data.depth(), 1);
    assert!(peek_r(&mut data, &ret));
    assert!(pop_r(&mut data, &mut ret));
    assert!(!pop_r(&mut data, &mut ret));
    assert!(!peek_r(&mut data, &ret));
    assert_eq!(drain(&mut data), vec![1, 2, 2]);
}

#[test]
fn mode_and_type_names() {
    assert_eq!(StackMode::from_str("LIFO"), Some(StackMode::LIFO));
    assert_eq!(StackMode::from_str("Fifo"), Some(StackMode::FIFO));
    assert_eq!(StackMode::from_str("queue"), None);
    assert_eq!(StackMode::FIFO.to_str(), "fifo");
    assert_eq!(StackType::from_str("STR"), Some(StackType::Str));
    assert_eq!(StackType::from_str("spawn"), Some(StackType::Spawn));
    assert_eq!(StackType::from_str("bytes"), None);
    assert_eq!(StackType::Float.to_str(), "float");
    let sel = StackSelector::new("main", StackType::Int);
    assert_eq!(sel.name, "main");
    assert_eq!(sel.stack_type, StackType::Int);
}

#[test]
fn string_stack_operations() {
    let mut s = StringStack::new();
    s.push("foo".to_string());
    s.push("bar".to_string());
    assert!(s.add());
    assert_eq!(s.peek(), Some(&"foobar".to_string()));
    s.push("hello!!!".to_string());
    assert!(s.sub("!"));
    assert_eq!(s.pop(), Some("hello".to_string()));
    s.push("ab".to_string());
    assert!(s.mul(3));
    assert_eq!(s.pop(), Some("ababab".to_string()));
    s.push("zz".to_string());
    assert!(s.mul(0));
    assert_eq!(s.pop(), Some(String::new()));
    s.push("a,b,,c".to_string());
    assert!(s.div(","));
    assert_eq!(s.pop(), Some("a b  c".to_string()));
    assert_eq!(s.depth(), 1);
    assert!(s.dup());
    assert!(s.swap());
    s.flip();
    s.set_mode(StackMode::FIFO);
    assert_eq!(s.pop(), Some("foobar".to_string()));
    assert!(s.drop());
    assert!(!s.add());
    assert!(!s.sub("x"));
    assert!(!s.mul(2));
    assert!(!s.div(" "));
}
