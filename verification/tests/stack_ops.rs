use gosvm::fault::Fault;
use gosvm::objects::Objects;
use gosvm::stack::{Stack, PackageVal, STACK_LIMIT};
use gosvm::value::{Value, ValueType, Value64};

#[test]
fn test_stack() {
    let mut objs = Objects::new();
    let mut s = Stack::new();
    s.push(Value::Int(1)).unwrap();

    s.push(Value::new_str("11".to_string(), &mut objs)).unwrap();
    let v2 = Value::new_str("aa".to_string(), &mut objs);
    s.set(0, v2.clone());
}

#[test]
fn push_add_pop_int() {
    let mut objs = Objects::new();
    let mut s = Stack::new();
    s.push(Value::Int(3)).unwrap();
    s.push(Value::Int(4)).unwrap();
    s.add(ValueType::Int, &mut objs).unwrap();
    assert_eq!(s.pop_with_type(ValueType::Int), Value::Int(7));
    assert_eq!(s.len(), 0);
}

#[test]
fn add_wraps_at_width() {
    let mut objs = Objects::new();
    let mut s = Stack::new();
    // 8-bit unsigned wraps at 256
    s.push(Value::Uint8(200)).unwrap();
    s.push(Value::Uint8(100)).unwrap();
    s.add(ValueType::Uint8, &mut objs).unwrap();
    assert_eq!(s.pop_with_type(ValueType::Uint8), Value::Uint8(44));
    // 8-bit signed wraps into the negative half
    s.push(Value::Int8(100)).unwrap();
    s.push(Value::Int8(100)).unwrap();
    s.add(ValueType::Int8, &mut objs).unwrap();
    assert_eq!(s.pop_with_type(ValueType::Int8), Value::Int8(-56));
    // 64-bit signed wraps at two to the 64
    s.push(Value::Int(i64::MAX)).unwrap();
    s.push(Value::Int(1)).unwrap();
    s.add(ValueType::Int, &mut objs).unwrap();
    assert_eq!(s.pop_int(), i64::MIN);
}

#[test]
fn sub_mul_quo_rem_exact() {
    let mut s = Stack::new();
    s.push(Value::Int(10)).unwrap();
    s.push(Value::Int(4)).unwrap();
    s.sub(ValueType::Int).unwrap();
    assert_eq!(s.pop_int(), 6);

    s.push(Value::Int32(-7)).unwrap();
    s.push(Value::Int32(2)).unwrap();
    s.quo(ValueType::Int32).unwrap();
    assert_eq!(s.pop_with_type(ValueType::Int32), Value::Int32(-3));

    s.push(Value::Int32(-7)).unwrap();
    s.push(Value::Int32(2)).unwrap();
    s.rem(ValueType::Int32).unwrap();
    assert_eq!(s.pop_with_type(ValueType::Int32), Value::Int32(-1));

    // the most negative dividend by minus one wraps to itself
    s.push(Value::Int64(i64::MIN)).unwrap();
    s.push(Value::Int64(-1)).unwrap();
    s.quo(ValueType::Int64).unwrap();
    assert_eq!(s.pop_with_type(ValueType::Int64), Value::Int64(i64::MIN));

    s.push(Value::Int16(-12)).unwrap();
    s.push(Value::Int16(5)).unwrap();
    s.mul(ValueType::Int16).unwrap();
    assert_eq!(s.pop_with_type(ValueType::Int16), Value::Int16(-60));
}

#[test]
fn quo_by_zero_faults() {
    let mut s = Stack::new();
    s.push(Value::Int(1)).unwrap();
    s.push(Value::Int(0)).unwrap();
    assert_eq!(s.quo(ValueType::Int), Err(Fault::DivideByZero));
    // nothing moved
    assert_eq!(s.len(), 2);
    assert_eq!(s.rem(ValueType::Int), Err(Fault::DivideByZero));
}

#[test]
fn bitwise_and_shifts() {
    let mut s = Stack::new();
    s.push(Value::Uint8(0b1100)).unwrap();
    s.push(Value::Uint8(0b1010)).unwrap();
    s.and(ValueType::Uint8).unwrap();
    assert_eq!(s.pop_with_type(ValueType::Uint8), Value::Uint8(0b1000));

    s.push(Value::Uint8(0b1100)).unwrap();
    s.push(Value::Uint8(0b1010)).unwrap();
    s.or(ValueType::Uint8).unwrap();
    assert_eq!(s.pop_with_type(ValueType::Uint8), Value::Uint8(0b1110));

    s.push(Value::Uint8(0b1100)).unwrap();
    s.push(Value::Uint8(0b1010)).unwrap();
    s.xor(ValueType::Uint8).unwrap();
    assert_eq!(s.pop_with_type(ValueType::Uint8), Value::Uint8(0b0110));

    s.push(Value::Uint8(0b1100)).unwrap();
    s.push(Value::Uint8(0b1010)).unwrap();
    s.and_not(ValueType::Uint8).unwrap();
    assert_eq!(s.pop_with_type(ValueType::Uint8), Value::Uint8(0b0100));

    s.push(Value::Uint8(3)).unwrap();
    s.push(Value::Uint8(6)).unwrap();
    s.shl(ValueType::Uint8).unwrap();
    assert_eq!(s.pop_with_type(ValueType::Uint8), Value::Uint8(192));

    // shifting everything out gives zero
    s.push(Value::Uint8(3)).unwrap();
    s.push(Value::Uint8(9)).unwrap();
    s.shl(ValueType::Uint8).unwrap();
    assert_eq!(s.pop_with_type(ValueType::Uint8), Value::Uint8(0));

    // arithmetic right shift keeps the sign
    s.push(Value::Int8(-16)).unwrap();
    s.push(Value::Int8(2)).unwrap();
    s.shr(ValueType::Int8).unwrap();
    assert_eq!(s.pop_with_type(ValueType::Int8), Value::Int8(-4));

    s.push(Value::Int8(-1)).unwrap();
    s.push(Value::Int8(20)).unwrap();
    s.shr(ValueType::Int8).unwrap();
    assert_eq!(s.pop_with_type(ValueType::Int8), Value::Int8(-1));

    // a negative shift count is unsupported
    s.push(Value::Int8(1)).unwrap();
    s.push(Value::Int8(-1)).unwrap();
    assert_eq!(s.shl(ValueType::Int8), Err(Fault::UnsupportedOperation));
    s.pop_discard_n(2);
    assert_eq!(s.len(), 0);
}

#[test]
fn unary_ops_exact() {
    let mut s = Stack::new();
    s.push(Value::Int8(-128)).unwrap();
    s.unary_negate(ValueType::Int8).unwrap();
    assert_eq!(s.pop_with_type(ValueType::Int8), Value::Int8(-128));

    s.push(Value::Int(5)).unwrap();
    s.unary_negate(ValueType::Int).unwrap();
    assert_eq!(s.pop_int(), -5);

    s.push(Value::Uint8(0b0101)).unwrap();
    s.unary_xor(ValueType::Uint8).unwrap();
    assert_eq!(s.pop_with_type(ValueType::Uint8), Value::Uint8(0b1111_1010));

    s.push(Value::Int(3)).unwrap();
    s.unary_xor(ValueType::Int).unwrap();
    assert_eq!(s.pop_int(), -4);

    s.push_bool(true).unwrap();
    s.logical_not(ValueType::Bool).unwrap();
    assert_eq!(s.pop_bool(), false);

    // logical not is only for booleans
    s.push(Value::Int(1)).unwrap();
    assert_eq!(s.logical_not(ValueType::Int), Err(Fault::TypeMismatch));
    s.pop_discard();
}

#[test]
fn arithmetic_on_float_tags_faults() {
    let mut objs = Objects::new();
    let mut s = Stack::new();
    s.push(Value::Float64(1.5f64.to_bits())).unwrap();
    s.push(Value::Float64(2.5f64.to_bits())).unwrap();
    assert_eq!(s.add(ValueType::Float64, &mut objs), Err(Fault::TypeMismatch));
    assert_eq!(s.len(), 2);
    assert_eq!(s.sub(ValueType::Float64), Err(Fault::TypeMismatch));
}

#[test]
fn stack_discipline_round_trip() {
    let mut objs = Objects::new();
    let mut s = Stack::new();
    let sl = Value::with_slice_val(vec![Value::Int(9)], &mut objs);
    let vals = [
        Value::Int(1),
        Value::Bool(true),
        sl,
        Value::Uint16(700),
        Value::Nil,
    ];
    let tags = [
        ValueType::Int,
        ValueType::Bool,
        ValueType::Slice,
        ValueType::Uint16,
        ValueType::Nil,
    ];
    for v in vals.iter() {
        s.push(*v).unwrap();
    }
    for i in (0..vals.len()).rev() {
        assert_eq!(s.pop_with_type(tags[i]), vals[i]);
    }
    assert_eq!(s.len(), 0);
}

#[test]
fn push_family_and_access() {
    let mut s = Stack::new();
    s.push_int(41).unwrap();
    s.push_bool(false).unwrap();
    s.push_nil().unwrap();
    assert_eq!(s.len(), 3);
    assert_eq!(s.get_with_type(0, ValueType::Int), Value::Int(41));
    assert_eq!(s.get_with_type(2, ValueType::Nil), Value::Nil);

    s.push_from_index(0, ValueType::Int).unwrap();
    assert_eq!(s.pop_int(), 41);

    s.set_with_type(0, Value64::from_int(9), ValueType::Int);
    assert_eq!(s.get_with_type(0, ValueType::Int), Value::Int(9));

    s.set(0, Value::Bool(true));
    s.pop_discard_n(2);
    assert_eq!(s.pop_bool(), true);
}

#[test]
fn overflow_is_a_recoverable_fault() {
    let mut s = Stack::new();
    for i in 0..STACK_LIMIT {
        s.push_int(i as i64).unwrap();
    }
    assert_eq!(s.push_int(0), Err(Fault::StackOverflow));
    assert_eq!(s.len(), STACK_LIMIT);
    // the stack is still usable
    assert_eq!(s.pop_int(), (STACK_LIMIT - 1) as i64);
}

#[test]
fn append_and_split_off() {
    let mut s = Stack::new();
    s.push_int(1).unwrap();
    let mut incoming = vec![Value::Int(2), Value::Int(3), Value::Int(4)];
    s.append(&mut incoming).unwrap();
    assert!(incoming.is_empty());
    assert_eq!(s.len(), 4);

    let tail = s.split_off_with_type(2, ValueType::Int);
    assert_eq!(tail, vec![Value::Int(3), Value::Int(4)]);
    assert_eq!(s.len(), 2);
    assert_eq!(s.pop_int(), 2);
    assert_eq!(s.pop_int(), 1);
}

#[test]
fn truncate_retracts_cursor() {
    let mut s = Stack::new();
    for i in 0..5 {
        s.push_int(i).unwrap();
    }
    s.truncate(2);
    assert_eq!(s.len(), 2);
    assert_eq!(s.pop_int(), 1);
}

#[test]
fn offset_signed_displacement() {
    assert_eq!(Stack::offset(10, -3), 7);
    assert_eq!(Stack::offset(10, 3), 13);
    assert_eq!(Stack::offset(10, 0), 10);
}

#[test]
fn init_pkg_vars_fills_in_push_order() {
    let mut s = Stack::new();
    let mut pkg = PackageVal::new();
    // variable slots pre-filled with their types' zero values
    pkg.add_var(Value::Int(0));
    pkg.add_var(Value::Bool(false));
    pkg.add_var(Value::Int(0));
    s.push_int(7).unwrap();
    s.push_bool(true).unwrap();
    s.push_int(9).unwrap();
    s.init_pkg_vars(&mut pkg, 3);
    assert_eq!(s.len(), 0);
    assert_eq!(pkg.var(0), Value::Int(7));
    assert_eq!(pkg.var(1), Value::Bool(true));
    assert_eq!(pkg.var(2), Value::Int(9));
}

#[test]
fn pack_variadic_collects_tail() {
    let mut objs = Objects::new();
    let mut s = Stack::new();
    s.push_bool(true).unwrap();
    s.push_bool(false).unwrap();
    s.push_int(10).unwrap();
    s.push_int(11).unwrap();
    s.push_int(12).unwrap();
    s.pack_variadic(2, ValueType::Int, &mut objs);
    // the cursor lands just above the start slot
    assert_eq!(s.len(), 3);
    let sv = s.pop_with_type(ValueType::Slice);
    match sv {
        gosvm::value::Value::Slice(k) => {
            // the composite holds the packed run, in stack order
            assert_eq!(objs.slice_get(k, 0), Ok(Value::Int(10)));
            assert_eq!(objs.slice_get(k, 1), Ok(Value::Int(11)));
            assert_eq!(objs.slice_get(k, 2), Ok(Value::Int(12)));
            assert_eq!(objs.slice_get(k, 3), Err(Fault::Bounds));
        },
        _ => panic!("expected a slice"),
    }
    // a start at the cursor changes nothing
    let before = s.len();
    s.pack_variadic(before, ValueType::Int, &mut objs);
    assert_eq!(s.len(), before);
}
