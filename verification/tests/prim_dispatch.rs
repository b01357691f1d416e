use gosvm::fault::Fault;
use gosvm::objects::Objects;
use gosvm::prim_ops::{self, PrimOps};
use gosvm::value::Value;

#[test]
fn prim_add_and_sub() {
    let objs = Objects::new();
    let mut stack = vec![Value::Int(3), Value::Int(4)];
    PrimOps::Add.call(&mut stack, &objs).unwrap();
    assert_eq!(stack, vec![Value::Int(7)]);

    let mut stack = vec![Value::Int(10), Value::Int(4)];
    PrimOps::Sub.call(&mut stack, &objs).unwrap();
    assert_eq!(stack, vec![Value::Int(6)]);

    // an operand tag the operation does not support is a fault, never a
    // placeholder result
    let mut stack = vec![Value::Int(1), Value::Bool(true)];
    assert_eq!(prim_ops::add(&mut stack), Err(Fault::TypeMismatch));
    assert_eq!(stack, vec![Value::Int(1), Value::Bool(true)]);

    let mut stack = vec![Value::Int8(1), Value::Int8(2)];
    assert_eq!(prim_ops::sub(&mut stack), Err(Fault::TypeMismatch));

    // floating-point payloads are carried as bits only: arithmetic faults
    let mut stack = vec![
        Value::Float64(1.5f64.to_bits()),
        Value::Float64(2.5f64.to_bits()),
    ];
    assert_eq!(prim_ops::add(&mut stack), Err(Fault::TypeMismatch));
    assert_eq!(stack.len(), 2);
}

#[test]
fn index_within_bounds_pushes_element() {
    let mut objs = Objects::new();
    let sl = Value::with_slice_val(
        vec![Value::Int(10), Value::Int(20), Value::Int(30)],
        &mut objs,
    );
    let mut stack = vec![sl, Value::Int(1)];
    prim_ops::index(&mut stack, &objs).unwrap();
    assert_eq!(stack, vec![Value::Int(20)]);
}

#[test]
fn index_out_of_bounds_faults() {
    let mut objs = Objects::new();
    let sl = Value::with_slice_val(
        vec![Value::Int(10), Value::Int(20), Value::Int(30)],
        &mut objs,
    );
    // index equal to the length
    let mut stack = vec![sl, Value::Int(5)];
    assert_eq!(prim_ops::index(&mut stack, &objs), Err(Fault::Bounds));
    assert_eq!(stack.len(), 2);
    // negative index
    let mut stack = vec![sl, Value::Int(-1)];
    assert_eq!(prim_ops::index(&mut stack, &objs), Err(Fault::Bounds));
    // exactly the length
    let mut stack = vec![sl, Value::Int(3)];
    assert_eq!(prim_ops::index(&mut stack, &objs), Err(Fault::Bounds));
}

#[test]
fn index_map_miss_yields_zero_value() {
    let mut objs = Objects::new();
    let m = objs.new_map(Value::Int(0));
    let mk = match m {
        Value::GoMap(k) => k,
        _ => panic!("expected a map"),
    };
    let key_y = Value::new_str("y".to_string(), &mut objs);
    objs.map_insert(mk, key_y, Value::Int(7)).unwrap();

    // key "x" is absent: the element type's zero value comes back
    let key_x = Value::new_str("x".to_string(), &mut objs);
    let mut stack = vec![m, key_x];
    prim_ops::index(&mut stack, &objs).unwrap();
    assert_eq!(stack, vec![Value::Int(0)]);

    // a present key yields its element
    let key_y2 = Value::new_str("y".to_string(), &mut objs);
    let mut stack = vec![m, key_y2];
    prim_ops::index(&mut stack, &objs).unwrap();
    assert_eq!(stack, vec![Value::Int(7)]);
}

#[test]
fn index_ok_distinguishes_presence() {
    let mut objs = Objects::new();
    let m = objs.new_map(Value::Int(0));
    let mk = match m {
        Value::GoMap(k) => k,
        _ => panic!("expected a map"),
    };
    objs.map_insert(mk, Value::Int(1), Value::Int(11)).unwrap();

    let mut stack = vec![m, Value::Int(1)];
    prim_ops::index_ok(&mut stack, &objs).unwrap();
    assert_eq!(stack, vec![Value::Int(11), Value::Bool(true)]);

    let mut stack = vec![m, Value::Int(2)];
    prim_ops::index_ok(&mut stack, &objs).unwrap();
    assert_eq!(stack, vec![Value::Int(0), Value::Bool(false)]);
}

#[test]
fn newest_binding_wins() {
    let mut objs = Objects::new();
    let m = objs.new_map(Value::Nil);
    let mk = match m {
        Value::GoMap(k) => k,
        _ => panic!("expected a map"),
    };
    objs.map_insert(mk, Value::Int(1), Value::Int(11)).unwrap();
    objs.map_insert(mk, Value::Int(1), Value::Int(22)).unwrap();
    assert_eq!(objs.map_get(mk, Value::Int(1)), Ok((Value::Int(22), true)));
}

#[test]
fn index_on_a_non_indexable_category_faults() {
    let objs = Objects::new();
    let mut stack = vec![Value::Int(1), Value::Int(0)];
    assert_eq!(
        prim_ops::index(&mut stack, &objs),
        Err(Fault::UnsupportedOperation)
    );
    let mut stack = vec![Value::Nil, Value::Int(0)];
    assert_eq!(
        prim_ops::index(&mut stack, &objs),
        Err(Fault::UnsupportedOperation)
    );
}

#[test]
fn opcode_conversion_is_checked() {
    assert_eq!(PrimOps::from_index(0), Some(PrimOps::Add));
    assert_eq!(PrimOps::from_index(1), Some(PrimOps::Sub));
    assert_eq!(PrimOps::from_index(10), Some(PrimOps::Index));
    assert_eq!(PrimOps::from_index(11), Some(PrimOps::IndexOk));
    assert_eq!(PrimOps::from_index(2), None);
    assert_eq!(PrimOps::from_index(-1), None);
    assert_eq!(PrimOps::Index.index(), 10);
}

#[test]
fn call_dispatches_index() {
    let mut objs = Objects::new();
    let sl = Value::with_slice_val(vec![Value::Bool(true)], &mut objs);
    let mut stack = vec![sl, Value::Int(0)];
    PrimOps::Index.call(&mut stack, &objs).unwrap();
    assert_eq!(stack, vec![Value::Bool(true)]);
}
