//! Primitive opcode dispatch over a plain evaluation stack: a flat numeric
//! opcode space naming addition, subtraction and container indexing, decoded
//! by a checked conversion and executed against the top of the stack.

use vstd::prelude::*;
use crate::fault::Fault;
use crate::value::{Value, ValueType, bits_ok, encode};
use crate::arith::{Opcode, OpIndex, binop_vals, binop_bits};
use crate::value::Value64;
use crate::objects::{Objects, map_find_spec, eq_fuel};

verus! {

/// The primitive operations of the flat opcode space.
#[derive(Clone, Copy, Debug, PartialEq, Eq, Structural)]
pub enum PrimOps {
    Add,
    Sub,
    /// Container indexing: sequential with a bounds check, associative with a
    /// zero value on a miss.
    Index,
    /// The two-result form of associative indexing: the element and a
    /// found-flag, so presence stays distinguishable.
    IndexOk,
}

/// The primitive operation a numeric code stands for, if any.
pub open spec fn prim_from_index(i: int) -> Option<PrimOps> {
    if i == 0 {
        Some(PrimOps::Add)
    } else if i == 1 {
        Some(PrimOps::Sub)
    } else if i == 10 {
        Some(PrimOps::Index)
    } else if i == 11 {
        Some(PrimOps::IndexOk)
    } else {
        None
    }
}

/// The result the two-operand arithmetic primitives leave in place of their
/// operands: native wrapping arithmetic on two `Int` values. Any other
/// pairing is an operand tag the operation does not support — a defect in the
/// upstream code generator — and raises a `TypeMismatch` fault rather than
/// yielding a placeholder.
pub open spec fn prim_binary_result(op: Opcode, a: Value, b: Value) -> Result<Value, Fault> {
    match (a, b) {
        (Value::Int(_), Value::Int(_)) => Ok(binop_vals(op, ValueType::Int, a, b)->Ok_0),
        _ => Err(Fault::TypeMismatch),
    }
}

/// The element the `Index` primitive pushes, or the fault it raises: a
/// bounds-checked read on a sequential composite, a key lookup yielding the
/// element type's zero value on a miss for an associative one, and a fault on
/// any non-indexable category.
pub open spec fn index_result(val: Value, ind: Value, objs: Objects) -> Result<Value, Fault> {
    match val {
        Value::Slice(k) => if k < objs.slices@.len() {
            match ind {
                Value::Int(i) => if 0 <= i < objs.slices@[k as int]@.len() {
                    Ok(objs.slices@[k as int]@[i as int])
                } else {
                    Err(Fault::Bounds)
                },
                _ => Err(Fault::TypeMismatch),
            }
        } else {
            Err(Fault::TypeMismatch)
        },
        Value::GoMap(k) => if k < objs.maps@.len() {
            match map_find_spec(objs.maps@[k as int].entries@, ind, objs, eq_fuel(objs)) {
                Ok(Some(v)) => Ok(v),
                Ok(None) => Ok(objs.maps@[k as int].zero),
                Err(f) => Err(f),
            }
        } else {
            Err(Fault::TypeMismatch)
        },
        _ => Err(Fault::UnsupportedOperation),
    }
}

/// The element and found-flag the `IndexOk` primitive pushes, or the fault it
/// raises; only an associative composite supports the presence check.
pub open spec fn index_ok_result(val: Value, ind: Value, objs: Objects) -> Result<
    (Value, bool),
    Fault,
> {
    match val {
        Value::GoMap(k) => if k < objs.maps@.len() {
            match map_find_spec(objs.maps@[k as int].entries@, ind, objs, eq_fuel(objs)) {
                Ok(Some(v)) => Ok((v, true)),
                Ok(None) => Ok((objs.maps@[k as int].zero, false)),
                Err(f) => Err(f),
            }
        } else {
            Err(Fault::TypeMismatch)
        },
        _ => Err(Fault::UnsupportedOperation),
    }
}

/// Wrapping `Int` arithmetic over two canonical `Int` values.
fn int_binary(x: i64, y: i64, op: Opcode) -> (r: Value)
    requires
        op == Opcode::Add || op == Opcode::Sub,
    ensures
        Ok::<Value, Fault>(r) == binop_vals(op, ValueType::Int, Value::Int(x), Value::Int(y)),
{
    let va = Value64::from_int(x);
    let vb = Value64::from_int(y);
    match Value64::binary_op(&va, &vb, ValueType::Int, op) {
        Ok(v) => v.into_v128(ValueType::Int),
        Err(_) => Value::Nil,
    }
}

/// Replace the two top values by the wrapping sum of two `Int`s; any other
/// operand pairing is a type mismatch fault.
pub fn add(stack: &mut Vec<Value>) -> (r: Result<(), Fault>)
    requires
        old(stack)@.len() >= 2,
    ensures
        match prim_binary_result(Opcode::Add, old(stack)@[old(stack)@.len() - 2], old(stack)@[old(
            stack,
        )@.len() - 1]) {
            Ok(c) => r == Ok::<(), Fault>(()) && final(stack)@ == old(stack)@.drop_last().update(
                old(stack)@.len() - 2,
                c,
            ),
            Err(f) => r == Err::<(), Fault>(f) && final(stack)@ == old(stack)@,
        },
{
    prim_binary(stack, Opcode::Add)
}

/// Replace the two top values by the wrapping difference of two `Int`s; any
/// other operand pairing is a type mismatch fault.
pub fn sub(stack: &mut Vec<Value>) -> (r: Result<(), Fault>)
    requires
        old(stack)@.len() >= 2,
    ensures
        match prim_binary_result(Opcode::Sub, old(stack)@[old(stack)@.len() - 2], old(stack)@[old(
            stack,
        )@.len() - 1]) {
            Ok(c) => r == Ok::<(), Fault>(()) && final(stack)@ == old(stack)@.drop_last().update(
                old(stack)@.len() - 2,
                c,
            ),
            Err(f) => r == Err::<(), Fault>(f) && final(stack)@ == old(stack)@,
        },
{
    prim_binary(stack, Opcode::Sub)
}

/// The shared step of the arithmetic primitives.
fn prim_binary(stack: &mut Vec<Value>, op: Opcode) -> (r: Result<(), Fault>)
    requires
        old(stack)@.len() >= 2,
        op == Opcode::Add || op == Opcode::Sub,
    ensures
        match prim_binary_result(op, old(stack)@[old(stack)@.len() - 2], old(stack)@[old(
            stack,
        )@.len() - 1]) {
            Ok(c) => r == Ok::<(), Fault>(()) && final(stack)@ == old(stack)@.drop_last().update(
                old(stack)@.len() - 2,
                c,
            ),
            Err(f) => r == Err::<(), Fault>(f) && final(stack)@ == old(stack)@,
        },
{
    let n = stack.len();
    let a = stack[n - 2];
    let b = stack[n - 1];
    let c = match (a, b) {
        (Value::Int(x), Value::Int(y)) => int_binary(x, y, op),
        _ => {
            return Err(Fault::TypeMismatch);
        },
    };
    stack[n - 2] = c;
    let _ = stack.pop();
    proof {
        assert(stack@ =~= old(stack)@.drop_last().update(old(stack)@.len() - 2, c));
    }
    Ok(())
}

/// Pop an index and a container: for a sequential composite push the element
/// under a bounds check, never a default; for an associative one push the
/// found element or the element type's zero value on a miss.
pub fn index(stack: &mut Vec<Value>, objs: &Objects) -> (r: Result<(), Fault>)
    requires
        old(stack)@.len() >= 2,
    ensures
        match index_result(old(stack)@[old(stack)@.len() - 2], old(stack)@[old(stack)@.len() - 1],
            *objs) {
            Ok(c) => r == Ok::<(), Fault>(()) && final(stack)@ == old(stack)@.drop_last().update(
                old(stack)@.len() - 2,
                c,
            ),
            Err(f) => r == Err::<(), Fault>(f) && final(stack)@ == old(stack)@,
        },
{
    let n = stack.len();
    let val = stack[n - 2];
    let ind = stack[n - 1];
    let c = match val {
        Value::Slice(k) => {
            if k < objs.slices.len() {
                match ind {
                    Value::Int(i) => {
                        if i >= 0 && (i as u64) < objs.slices[k].len() as u64 {
                            objs.slices[k][i as usize]
                        } else {
                            return Err(Fault::Bounds);
                        }
                    },
                    _ => {
                        return Err(Fault::TypeMismatch);
                    },
                }
            } else {
                return Err(Fault::TypeMismatch);
            }
        },
        Value::GoMap(k) => {
            match objs.map_get(k, ind) {
                Ok((v, _)) => v,
                Err(f) => {
                    return Err(f);
                },
            }
        },
        _ => {
            return Err(Fault::UnsupportedOperation);
        },
    };
    stack[n - 2] = c;
    let _ = stack.pop();
    proof {
        assert(stack@ =~= old(stack)@.drop_last().update(old(stack)@.len() - 2, c));
    }
    Ok(())
}

/// The two-result indexing form: replace the container and key on top of the
/// stack by the element (or the zero value) and a boolean presence flag.
pub fn index_ok(stack: &mut Vec<Value>, objs: &Objects) -> (r: Result<(), Fault>)
    requires
        old(stack)@.len() >= 2,
    ensures
        match index_ok_result(old(stack)@[old(stack)@.len() - 2], old(stack)@[old(stack)@.len()
            - 1], *objs) {
            Ok((v, found)) => r == Ok::<(), Fault>(()) && final(stack)@ == old(stack)@.update(
                old(stack)@.len() - 2,
                v,
            ).update(old(stack)@.len() - 1, Value::Bool(found)),
            Err(f) => r == Err::<(), Fault>(f) && final(stack)@ == old(stack)@,
        },
{
    let n = stack.len();
    let val = stack[n - 2];
    let ind = stack[n - 1];
    match val {
        Value::GoMap(k) => {
            match objs.map_get(k, ind) {
                Ok((v, found)) => {
                    stack[n - 2] = v;
                    stack[n - 1] = Value::Bool(found);
                    Ok(())
                },
                Err(f) => Err(f),
            }
        },
        _ => Err(Fault::UnsupportedOperation),
    }
}

impl PrimOps {
    /// Checked conversion from a numeric operand to a primitive operation:
    /// an out-of-range code is rejected rather than reinterpreted.
    pub fn from_index(i: OpIndex) -> (r: Option<PrimOps>)
        ensures
            r == prim_from_index(i as int),
    {
        match i {
            0 => Some(PrimOps::Add),
            1 => Some(PrimOps::Sub),
            10 => Some(PrimOps::Index),
            11 => Some(PrimOps::IndexOk),
            _ => None,
        }
    }

    /// The numeric code of this primitive operation.
    pub fn index(&self) -> (r: OpIndex)
        ensures
            prim_from_index(r as int) == Some(*self),
    {
        match self {
            PrimOps::Add => 0,
            PrimOps::Sub => 1,
            PrimOps::Index => 10,
            PrimOps::IndexOk => 11,
        }
    }

    /// Execute this primitive operation against the top of the stack.
    pub fn call(&self, stack: &mut Vec<Value>, objs: &Objects) -> (r: Result<(), Fault>)
        requires
            old(stack)@.len() >= 2,
        ensures
            match *self {
                PrimOps::Add => match prim_binary_result(Opcode::Add, old(stack)@[old(
                    stack,
                )@.len() - 2], old(stack)@[old(stack)@.len() - 1]) {
                    Ok(c) => r == Ok::<(), Fault>(()) && final(stack)@ == old(
                        stack,
                    )@.drop_last().update(old(stack)@.len() - 2, c),
                    Err(f) => r == Err::<(), Fault>(f) && final(stack)@ == old(stack)@,
                },
                PrimOps::Sub => match prim_binary_result(Opcode::Sub, old(stack)@[old(
                    stack,
                )@.len() - 2], old(stack)@[old(stack)@.len() - 1]) {
                    Ok(c) => r == Ok::<(), Fault>(()) && final(stack)@ == old(
                        stack,
                    )@.drop_last().update(old(stack)@.len() - 2, c),
                    Err(f) => r == Err::<(), Fault>(f) && final(stack)@ == old(stack)@,
                },
                PrimOps::Index => match index_result(old(stack)@[old(stack)@.len() - 2], old(
                    stack,
                )@[old(stack)@.len() - 1], *objs) {
                    Ok(c) => r == Ok::<(), Fault>(()) && final(stack)@ == old(
                        stack,
                    )@.drop_last().update(old(stack)@.len() - 2, c),
                    Err(f) => r == Err::<(), Fault>(f) && final(stack)@ == old(stack)@,
                },
                PrimOps::IndexOk => match index_ok_result(old(stack)@[old(stack)@.len() - 2], old(
                    stack,
                )@[old(stack)@.len() - 1], *objs) {
                    Ok((v, found)) => r == Ok::<(), Fault>(()) && final(stack)@ == old(
                        stack,
                    )@.update(old(stack)@.len() - 2, v).update(
                        old(stack)@.len() - 1,
                        Value::Bool(found),
                    ),
                    Err(f) => r == Err::<(), Fault>(f) && final(stack)@ == old(stack)@,
                },
            },
    {
        match self {
            PrimOps::Add => crate::prim_ops::add(stack),
            PrimOps::Sub => crate::prim_ops::sub(stack),
            PrimOps::Index => crate::prim_ops::index(stack, objs),
            PrimOps::IndexOk => crate::prim_ops::index_ok(stack, objs),
        }
    }
}

} // verus!
