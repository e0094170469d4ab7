use rual::{Value, ValueType};

fn same(a: &Value, b: &Value) -> bool {
    match (a, b) {
        (Value::Nil, Value::Nil) => true,
        (Value::Int(x), Value::Int(y)) => x == y,
        (Value::Float(x), Value::Float(y)) => f64::from_bits(*x) == f64::from_bits(*y),
        (Value::String(x), Value::String(y)) => x == y,
        (Value::Bool(x), Value::Bool(y)) => x == y,
        (Value::Error(x), Value::Error(y)) => x == y,
        _ => false,
    }
}

#[test]
fn test_serialisation() {
    let values = vec![
        Value::Nil,
        Value::Int(42),
        Value::Int(-123456789),
        Value::Float(3.14159f64.to_bits()),
        Value::String("hello".to_string()),
        Value::Bool(true),
        Value::Bool(false),
        Value::Error("ERR: test".to_string()),
    ];

    for v in values {
        let bytes = v.to_bytes();
        let restored = Value::from_bytes(&bytes);
        assert!(same(&v, &restored));
    }
}

#[test]
fn value_encoding_layout() {
    assert_eq!(Value::Nil.to_bytes(), vec![0]);
    assert_eq!(Value::Int(1).to_bytes(), vec![1, 1, 0, 0, 0, 0, 0, 0, 0]);
    assert_eq!(Value::Int(-1).to_bytes(), vec![1, 255, 255, 255, 255, 255, 255, 255, 255]);
    assert_eq!(Value::Float(1.0f64.to_bits()).to_bytes(), vec![2, 0, 0, 0, 0, 0, 0, 0xf0, 0x3f]);
    assert_eq!(Value::String("hé".to_string()).to_bytes(), vec![3, 3, 0, 0, 0, b'h', 0xc3, 0xa9]);
    assert_eq!(Value::Bool(true).to_bytes(), vec![4, 1]);
    assert_eq!(Value::Error("x".to_string()).to_bytes(), vec![5, 1, 0, 0, 0, b'x']);
    assert_eq!(Value::array(vec![Value::Int(1)]).to_bytes(), vec![0]);
    assert_eq!(Value::codeblock(vec!["a".to_string()], vec![1]).to_bytes(), vec![0]);
}

#[test]
fn value_decoding_of_short_or_unknown_input_is_nil() {
    assert!(Value::from_bytes(&[]).is_nil());
    assert!(Value::from_bytes(&[1, 2, 3]).is_nil());
    assert!(Value::from_bytes(&[3, 10, 0, 0, 0, b'a']).is_nil());
    assert!(Value::from_bytes(&[4]).is_nil());
    assert!(Value::from_bytes(&[9, 1, 2]).is_nil());
    assert!(same(&Value::from_bytes(&[4, 7]), &Value::Bool(true)));
    assert!(same(&Value::from_bytes(&[3, 2, 0, 0, 0, 0xff, b'a']), &Value::String("\u{fffd}a".to_string())));
}

#[test]
fn value_kinds_and_constructors() {
    assert_eq!(Value::integer(3).value_type(), ValueType::Int);
    assert_eq!(Value::float_bits(0).value_type(), ValueType::Float);
    assert_eq!(Value::string("s".to_string()).value_type(), ValueType::String);
    assert_eq!(Value::bool(false).value_type(), ValueType::Bool);
    assert!(same(&Value::error("E1", "bad"), &Value::Error("E1: bad".to_string())));
    assert!(Value::error("E1", "bad").is_error());
    assert!(Value::integer(3).is_numeric());
    assert!(Value::float_bits(0).is_numeric());
    assert!(!Value::Nil.is_numeric());
    let arr = Value::array(vec![Value::Int(1), Value::Nil]);
    assert!(arr.is_array());
    assert_eq!(arr.as_array().unwrap().len(), 2);
    assert!(Value::Nil.as_array().is_none());
    let cb = Value::codeblock(vec!["x".to_string()], vec![1, 2]);
    assert!(cb.is_codeblock());
    assert_eq!(cb.as_codeblock().unwrap().body, vec![1, 2]);
    assert_eq!(ValueType::Error.tag(), 5);
    assert_eq!(ValueType::Array.tag(), 7);
}

#[test]
fn value_copies_are_deep() {
    let arr = Value::array(vec![Value::Int(1), Value::String("a".to_string())]);
    let copy = arr.clone();
    let items = copy.as_array().unwrap();
    assert_eq!(items.len(), 2);
    assert!(same(&items[1], &Value::String("a".to_string())));
}

#[test]
fn value_conversions_and_default() {
    assert!(Value::default().is_nil());
    assert!(same(&Value::from(5i64), &Value::Int(5)));
    assert!(same(&Value::from(true), &Value::Bool(true)));
    assert!(same(&Value::from("x".to_string()), &Value::String("x".to_string())));
}
