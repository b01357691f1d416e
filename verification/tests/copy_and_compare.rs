use gosvm::fault::Fault;
use gosvm::objects::Objects;
use gosvm::stack::Stack;
use gosvm::value::{Value, ValueType};
use gosvm::arith::Opcode;

#[test]
fn alias_semantics_share_the_key() {
    let mut objs = Objects::new();
    let mut s = Stack::new();
    let sl = Value::with_slice_val(vec![Value::Int(1), Value::Int(2)], &mut objs);
    s.push(sl).unwrap();
    s.push_nil().unwrap();
    // plain assignment of a slice: both slots now alias one payload
    s.store_copy_semantic(1, 0, ValueType::Slice, &mut objs).unwrap();
    let a = s.get_with_type(0, ValueType::Slice);
    let b = s.get_with_type(1, ValueType::Slice);
    assert_eq!(a, b);
    let k = match a {
        Value::Slice(k) => k,
        _ => panic!("expected a slice"),
    };
    // a mutation through one alias is visible through the other
    objs.set_slice_elem(k, 0, Value::Int(99)).unwrap();
    match b {
        Value::Slice(k2) => assert_eq!(objs.slice_get(k2, 0), Ok(Value::Int(99))),
        _ => panic!("expected a slice"),
    }
}

#[test]
fn value_semantics_get_a_fresh_key() {
    let mut objs = Objects::new();
    let mut s = Stack::new();
    let arr = Value::new_array(vec![Value::Int(1), Value::Int(2)], &mut objs);
    s.push(arr).unwrap();
    s.push_nil().unwrap();
    s.store_copy_semantic(1, 0, ValueType::Array, &mut objs).unwrap();
    let k1 = match s.get_with_type(0, ValueType::Array) {
        Value::Array(k) => k,
        _ => panic!("expected an array"),
    };
    let k2 = match s.get_with_type(1, ValueType::Array) {
        Value::Array(k) => k,
        _ => panic!("expected an array"),
    };
    assert_ne!(k1, k2);
    assert_eq!(objs.array_get(k2, 0), Ok(Value::Int(1)));
    // mutating the copy does not affect the source, nor the other way round
    objs.set_array_elem(k2, 0, Value::Int(77)).unwrap();
    assert_eq!(objs.array_get(k1, 0), Ok(Value::Int(1)));
    objs.set_array_elem(k1, 1, Value::Int(88)).unwrap();
    assert_eq!(objs.array_get(k2, 1), Ok(Value::Int(2)));
}

#[test]
fn struct_copy_is_independent() {
    let mut objs = Objects::new();
    let mut s = Stack::new();
    let st = Value::new_struct(vec![Value::Bool(true)], &mut objs);
    s.push(st).unwrap();
    s.push_nil().unwrap();
    s.store_copy_semantic(1, 0, ValueType::Struct, &mut objs).unwrap();
    let k1 = match s.get_with_type(0, ValueType::Struct) {
        Value::Struct(k) => k,
        _ => panic!("expected a struct"),
    };
    let k2 = match s.get_with_type(1, ValueType::Struct) {
        Value::Struct(k) => k,
        _ => panic!("expected a struct"),
    };
    assert_ne!(k1, k2);
    objs.set_struct_field(k1, 0, Value::Bool(false)).unwrap();
    assert_eq!(objs.struct_get(k2, 0), Ok(Value::Bool(true)));
}

#[test]
fn string_concat_allocates_a_new_buffer() {
    let mut objs = Objects::new();
    let mut s = Stack::new();
    let a = Value::new_str("11".to_string(), &mut objs);
    let b = Value::new_str("aa".to_string(), &mut objs);
    s.push(a).unwrap();
    s.push(b).unwrap();
    s.add(ValueType::Str, &mut objs).unwrap();
    let c = s.pop_with_type(ValueType::Str);
    let expected = Value::new_str("11aa".to_string(), &mut objs);
    // compare the two buffers through the verified equality
    s.push(c).unwrap();
    s.push(expected).unwrap();
    s.compare_eql(ValueType::Str, &objs).unwrap();
    assert_eq!(s.pop_bool(), true);
    // the operands were not touched
    s.push(a).unwrap();
    s.push(Value::new_str("11".to_string(), &mut objs)).unwrap();
    s.compare_eql(ValueType::Str, &objs).unwrap();
    assert_eq!(s.pop_bool(), true);
}

#[test]
fn scalar_comparisons() {
    let objs = Objects::new();
    let mut s = Stack::new();
    s.push(Value::Int(-3)).unwrap();
    s.push(Value::Int(2)).unwrap();
    s.compare_lss(ValueType::Int, &objs).unwrap();
    assert_eq!(s.pop_bool(), true);

    s.push(Value::Uint8(250)).unwrap();
    s.push(Value::Uint8(9)).unwrap();
    s.compare_gtr(ValueType::Uint8, &objs).unwrap();
    assert_eq!(s.pop_bool(), true);

    s.push(Value::Int(5)).unwrap();
    s.push(Value::Int(5)).unwrap();
    s.compare_leq(ValueType::Int, &objs).unwrap();
    assert_eq!(s.pop_bool(), true);

    s.push(Value::Int(5)).unwrap();
    s.push(Value::Int(6)).unwrap();
    s.compare_geq(ValueType::Int, &objs).unwrap();
    assert_eq!(s.pop_bool(), false);

    s.push(Value::Bool(true)).unwrap();
    s.push(Value::Bool(true)).unwrap();
    s.compare_eql(ValueType::Bool, &objs).unwrap();
    assert_eq!(s.pop_bool(), true);

    // booleans have no order
    s.push(Value::Bool(true)).unwrap();
    s.push(Value::Bool(false)).unwrap();
    assert_eq!(s.compare_lss(ValueType::Bool, &objs), Err(Fault::TypeMismatch));
    s.pop_discard_n(2);
}

#[test]
fn string_ordering_is_bytewise() {
    let mut objs = Objects::new();
    let mut s = Stack::new();
    let a = Value::new_str("abc".to_string(), &mut objs);
    let b = Value::new_str("abd".to_string(), &mut objs);
    s.push(a).unwrap();
    s.push(b).unwrap();
    s.compare_lss(ValueType::Str, &objs).unwrap();
    assert_eq!(s.pop_bool(), true);

    let c = Value::new_str("ab".to_string(), &mut objs);
    s.push(a).unwrap();
    s.push(c).unwrap();
    s.compare_gtr(ValueType::Str, &objs).unwrap();
    assert_eq!(s.pop_bool(), true);

    s.push(a).unwrap();
    s.push(a).unwrap();
    s.compare_geq(ValueType::Str, &objs).unwrap();
    assert_eq!(s.pop_bool(), true);
}

#[test]
fn structural_equality_descends() {
    let mut objs = Objects::new();
    let mut s = Stack::new();
    let inner1 = Value::new_str("x".to_string(), &mut objs);
    let inner2 = Value::new_str("x".to_string(), &mut objs);
    let st1 = Value::new_struct(vec![Value::Int(1), inner1], &mut objs);
    let st2 = Value::new_struct(vec![Value::Int(1), inner2], &mut objs);
    s.push(st1).unwrap();
    s.push(st2).unwrap();
    s.compare_eql(ValueType::Struct, &objs).unwrap();
    assert_eq!(s.pop_bool(), true);

    let st3 = Value::new_struct(vec![Value::Int(2), inner1], &mut objs);
    s.push(st1).unwrap();
    s.push(st3).unwrap();
    s.compare_neq(ValueType::Struct, &objs).unwrap();
    assert_eq!(s.pop_bool(), true);
}

#[test]
fn pointers_compare_by_identity_and_slices_not_at_all() {
    let mut objs = Objects::new();
    let mut s = Stack::new();
    let p1 = Value::new_pointer(Value::Int(1), &mut objs);
    let p2 = Value::new_pointer(Value::Int(1), &mut objs);
    s.push(p1).unwrap();
    s.push(p2).unwrap();
    s.compare_eql(ValueType::Pointer, &objs).unwrap();
    assert_eq!(s.pop_bool(), false);
    s.push(p1).unwrap();
    s.push(p1).unwrap();
    s.compare_eql(ValueType::Pointer, &objs).unwrap();
    assert_eq!(s.pop_bool(), true);

    let sl = Value::with_slice_val(vec![], &mut objs);
    s.push(sl).unwrap();
    s.push(sl).unwrap();
    assert_eq!(
        s.compare_eql(ValueType::Slice, &objs),
        Err(Fault::UnsupportedOperation)
    );
    s.pop_discard_n(2);
}

#[test]
fn store_with_op_fused_assignment() {
    let mut objs = Objects::new();
    let mut s = Stack::new();
    s.push_int(10).unwrap();
    s.push_int(32).unwrap();
    s.store_with_op(0, 1, Opcode::Add, ValueType::Int, &mut objs).unwrap();
    assert_eq!(s.get_with_type(0, ValueType::Int), Value::Int(42));
    assert_eq!(s.len(), 2);

    // strings compound-assign by concatenation
    let a = Value::new_str("go".to_string(), &mut objs);
    let b = Value::new_str("od".to_string(), &mut objs);
    s.set(0, a);
    s.set(1, b);
    s.store_with_op(0, 1, Opcode::Add, ValueType::Str, &mut objs).unwrap();
    let c = s.get_with_type(0, ValueType::Str);
    s.push(c).unwrap();
    s.push(Value::new_str("good".to_string(), &mut objs)).unwrap();
    s.compare_eql(ValueType::Str, &objs).unwrap();
    assert_eq!(s.pop_bool(), true);

    // anything but addition is refused on strings
    assert_eq!(
        s.store_with_op(0, 1, Opcode::Sub, ValueType::Str, &mut objs),
        Err(Fault::TypeMismatch)
    );
}

#[test]
fn store_val_assigns_outside_the_stack() {
    let mut objs = Objects::new();
    let mut s = Stack::new();
    s.push_int(5).unwrap();
    s.push_int(6).unwrap();

    // a negative displacement reads a stack slot with copy semantics
    let mut target = Value::Nil;
    s.store_val(&mut target, -2, ValueType::Int, &mut objs).unwrap();
    assert_eq!(target, Value::Int(5));

    // a non-negative operand encodes a compound-assignment opcode
    let mut acc = Value::Int(100);
    s.store_val(&mut acc, 0, ValueType::Int, &mut objs).unwrap();
    assert_eq!(acc, Value::Int(106));

    // an out-of-range code is rejected, never reinterpreted
    let mut t2 = Value::Int(0);
    assert_eq!(
        s.store_val(&mut t2, 99, ValueType::Int, &mut objs),
        Err(Fault::TypeMismatch)
    );
    assert_eq!(t2, Value::Int(0));
}
