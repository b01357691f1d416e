use gosvm::value::{Value, ValueType, Value64, COPYABLE_END};

#[test]
fn compact_encoding_round_trips() {
    let vals = [
        Value::Bool(true),
        Value::Bool(false),
        Value::Int(-1),
        Value::Int(i64::MIN),
        Value::Int8(-128),
        Value::Int16(-300),
        Value::Int32(7),
        Value::Int64(i64::MAX),
        Value::Uint(u64::MAX),
        Value::Uint8(255),
        Value::Uint16(0),
        Value::Uint32(4_000_000_000),
        Value::Uint64(1),
        Value::Float32(1.5f32.to_bits()),
        Value::Float64(2.5f64.to_bits()),
        Value::Complex64(1.0f32.to_bits(), 2.0f32.to_bits()),
    ];
    for v in vals.iter() {
        let t = v.get_type();
        let c = Value64::from_v128(v);
        assert_eq!(c.into_v128(t), *v);
    }
}

#[test]
fn bool_and_int_shortcuts() {
    let b = Value64::from_bool(true);
    assert_eq!(b.get_bool(), true);
    let i = Value64::from_int(-7);
    assert_eq!(i.get_int(), -7);
    assert_eq!(Value::Int(5).get_int(), 5);
}

#[test]
fn copyable_boundary_splits_the_tag_order() {
    // the copyable prefix, in order, up to the boundary
    assert!(ValueType::Bool.code() <= COPYABLE_END);
    assert!(ValueType::Int.code() <= COPYABLE_END);
    assert!(ValueType::Uint64.code() <= COPYABLE_END);
    assert!(ValueType::Float64.code() <= COPYABLE_END);
    assert_eq!(ValueType::Complex64.code(), COPYABLE_END);
    // the reference category lies beyond it
    assert!(ValueType::Complex128.code() > COPYABLE_END);
    assert!(ValueType::Str.code() > COPYABLE_END);
    assert!(ValueType::Nil.code() > COPYABLE_END);
    assert!(ValueType::Bool.copyable());
    assert!(!ValueType::Slice.copyable());
    assert_eq!(Value::Nil.get_type(), ValueType::Nil);
    assert_eq!(Value::Slice(3).get_type(), ValueType::Slice);
}
