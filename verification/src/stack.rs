//! The execution stack: a single-cursor stack of slots unifying compact
//! scalar storage and full canonical values, with push/pop, random access for
//! call-frame locals, fused compound assignment, copy-semantics assignment,
//! and variadic packing.
//!
//! Each slot is a discriminated union: a copyable tag with its one-word
//! compact encoding (the dense fast path of the hot interpreter loop), or a
//! full canonical value for the reference category. One stack belongs to one
//! thread of execution. Capacity is bounded; running out surfaces as a
//! recoverable `StackOverflow` fault, never an abort.

use vstd::prelude::*;
use crate::fault::Fault;
use crate::value::{
    Value, ValueType, Value64, is_copyable, bits_ok, encode, decode, lemma_decode_encode,
    lemma_encode_decode, lemma_encode_ok,
};
use crate::arith::{Opcode, OpIndex, Rel, binop_vals, opcode_from_index};
use crate::objects::{
    Objects, objs_same, copy_result, copy_effect, concat_result, concat_effect, cmp_vals,
    value_eq, bytes_lt_from,
};

verus! {

/// The number of slots a stack holds at most.
pub const STACK_LIMIT: usize = 10240;

/// One stack slot: a copyable tag with its compact one-word encoding, or a
/// full canonical value of the reference category.
#[derive(Clone, Copy, Debug, PartialEq, Eq, Structural)]
enum Slot {
    Scalar(ValueType, Value64),
    Ref(Value),
}

/// A slot is well formed when its representation matches its category: a
/// scalar slot holds a copyable tag with canonical bits, a reference slot a
/// value of a non-copyable tag.
spec fn slot_ok(s: Slot) -> bool {
    match s {
        Slot::Scalar(t, v) => is_copyable(t) && bits_ok(t, v.bits),
        Slot::Ref(v) => !is_copyable(v.typ()),
    }
}

/// The canonical value a slot holds.
spec fn slot_val(s: Slot) -> Value {
    match s {
        Slot::Scalar(t, v) => decode(t, v.bits),
        Slot::Ref(v) => v,
    }
}

/// A well-formed slot determines its representation from its value.
proof fn lemma_slot_inv(s: Slot)
    requires
        slot_ok(s),
    ensures
        is_copyable(slot_val(s).typ()) ==> (s matches Slot::Scalar(t, v) && t == slot_val(s).typ()
            && v.bits == encode(slot_val(s))),
        !is_copyable(slot_val(s).typ()) ==> s == Slot::Ref(slot_val(s)),
{
    match s {
        Slot::Scalar(t, v) => {
            lemma_encode_decode(t, v.bits);
        },
        Slot::Ref(_) => {},
    }
}

/// The evaluation/call stack of one thread of execution.
///
/// Its view is the sequence of canonical values below the cursor, oldest
/// first; slots at or above the cursor are inert.
pub struct Stack {
    slots: Vec<Slot>,
    cursor: usize,
    limit: usize,
}

impl View for Stack {
    type V = Seq<Value>;

    closed spec fn view(&self) -> Seq<Value> {
        self.slots@.take(self.cursor as int).map(|i: int, s: Slot| slot_val(s))
    }
}

impl Stack {
    /// The stack's structural invariant: the cursor stays within both the
    /// slot storage and the capacity, and every live slot is well formed.
    pub closed spec fn wf(&self) -> bool {
        &&& self.cursor <= self.slots@.len()
        &&& self.cursor <= self.limit
        &&& forall|i: int| 0 <= i < self.cursor ==> slot_ok(#[trigger] self.slots@[i])
    }

    /// The number of slots this stack can hold.
    pub closed spec fn capacity(&self) -> nat {
        self.limit as nat
    }

    /// A well-formed stack holds as many values as its cursor counts, within
    /// capacity.
    proof fn lemma_view_len(&self)
        requires
            self.wf(),
        ensures
            self@.len() == self.cursor,
            self@.len() <= self.capacity(),
    {
    }

    /// An empty stack with the default capacity.
    pub fn new() -> (r: Stack)
        ensures
            r.wf(),
            r@ == Seq::<Value>::empty(),
            r.capacity() == STACK_LIMIT,
    {
        let r = Stack { slots: Vec::new(), cursor: 0, limit: STACK_LIMIT };
        proof {
            assert(r@ =~= Seq::<Value>::empty());
        }
        r
    }

    /// The number of live slots: the cursor.
    pub fn len(&self) -> (n: usize)
        requires
            self.wf(),
        ensures
            n == self@.len(),
    {
        proof {
            self.lemma_view_len();
        }
        self.cursor
    }

    /// Write `s` at the cursor and advance it; the slot must be well formed.
    fn push_slot(&mut self, s: Slot) -> (r: Result<(), Fault>)
        requires
            old(self).wf(),
            slot_ok(s),
        ensures
            final(self).wf(),
            final(self).capacity() == old(self).capacity(),
            old(self)@.len() < old(self).capacity() ==> r == Ok::<(), Fault>(()) && final(self)@
                == old(self)@.push(slot_val(s)),
            old(self)@.len() >= old(self).capacity() ==> r == Err::<(), Fault>(
                Fault::StackOverflow,
            ) && final(self)@ == old(self)@,
    {
        proof {
            self.lemma_view_len();
        }
        if self.cursor >= self.limit {
            return Err(Fault::StackOverflow);
        }
        if self.cursor == self.slots.len() {
            self.slots.push(s);
        } else {
            self.slots[self.cursor] = s;
        }
        self.cursor = self.cursor + 1;
        proof {
            assert(self@ =~= old(self)@.push(slot_val(s)));
        }
        Ok(())
    }

    /// The slot representation of a canonical value: compact for a copyable
    /// tag, full for the reference category.
    fn slot_of(val: Value) -> (s: Slot)
        ensures
            slot_ok(s),
            slot_val(s) == val,
    {
        let t = val.get_type();
        if t.copyable() {
            proof {
                lemma_encode_ok(val);
                lemma_decode_encode(val);
            }
            Slot::Scalar(t, Value64::from_v128(&val))
        } else {
            Slot::Ref(val)
        }
    }

    /// Push a canonical value: classify by tag, encode compactly if
    /// copyable, and advance the cursor. Fails closed with a recoverable
    /// `StackOverflow` fault when capacity would be exceeded.
    pub fn push(&mut self, val: Value) -> (r: Result<(), Fault>)
        requires
            old(self).wf(),
        ensures
            final(self).wf(),
            final(self).capacity() == old(self).capacity(),
            old(self)@.len() < old(self).capacity() ==> r == Ok::<(), Fault>(()) && final(self)@
                == old(self)@.push(val),
            old(self)@.len() >= old(self).capacity() ==> r == Err::<(), Fault>(
                Fault::StackOverflow,
            ) && final(self)@ == old(self)@,
    {
        let s = Self::slot_of(val);
        self.push_slot(s)
    }

    /// Push the nil value.
    pub fn push_nil(&mut self) -> (r: Result<(), Fault>)
        requires
            old(self).wf(),
        ensures
            final(self).wf(),
            final(self).capacity() == old(self).capacity(),
            old(self)@.len() < old(self).capacity() ==> r == Ok::<(), Fault>(()) && final(self)@
                == old(self)@.push(Value::Nil),
            old(self)@.len() >= old(self).capacity() ==> r == Err::<(), Fault>(
                Fault::StackOverflow,
            ) && final(self)@ == old(self)@,
    {
        self.push_slot(Slot::Ref(Value::Nil))
    }

    /// Push a boolean through the compact encoding.
    pub fn push_bool(&mut self, b: bool) -> (r: Result<(), Fault>)
        requires
            old(self).wf(),
        ensures
            final(self).wf(),
            final(self).capacity() == old(self).capacity(),
            old(self)@.len() < old(self).capacity() ==> r == Ok::<(), Fault>(()) && final(self)@
                == old(self)@.push(Value::Bool(b)),
            old(self)@.len() >= old(self).capacity() ==> r == Err::<(), Fault>(
                Fault::StackOverflow,
            ) && final(self)@ == old(self)@,
    {
        self.push_slot(Slot::Scalar(ValueType::Bool, Value64::from_bool(b)))
    }

    /// Push an `Int` through the compact encoding.
    pub fn push_int(&mut self, i: i64) -> (r: Result<(), Fault>)
        requires
            old(self).wf(),
        ensures
            final(self).wf(),
            final(self).capacity() == old(self).capacity(),
            old(self)@.len() < old(self).capacity() ==> r == Ok::<(), Fault>(()) && final(self)@
                == old(self)@.push(Value::Int(i)),
            old(self)@.len() >= old(self).capacity() ==> r == Err::<(), Fault>(
                Fault::StackOverflow,
            ) && final(self)@ == old(self)@,
    {
        proof {
            lemma_decode_encode(Value::Int(i));
        }
        self.push_slot(Slot::Scalar(ValueType::Int, Value64::from_int(i)))
    }

    /// Push a copy of the slot at an absolute index, of tag `t`.
    pub fn push_from_index(&mut self, index: usize, t: ValueType) -> (r: Result<(), Fault>)
        requires
            old(self).wf(),
            index < old(self)@.len(),
            old(self)@[index as int].typ() == t,
        ensures
            final(self).wf(),
            final(self).capacity() == old(self).capacity(),
            old(self)@.len() < old(self).capacity() ==> r == Ok::<(), Fault>(()) && final(self)@
                == old(self)@.push(old(self)@[index as int]),
            old(self)@.len() >= old(self).capacity() ==> r == Err::<(), Fault>(
                Fault::StackOverflow,
            ) && final(self)@ == old(self)@,
    {
        let v = self.get_with_type(index, t);
        self.push(v)
    }

    /// Retract the cursor by one, discarding the top value.
    pub fn pop_discard(&mut self)
        requires
            old(self).wf(),
            old(self)@.len() >= 1,
        ensures
            final(self).wf(),
            final(self).capacity() == old(self).capacity(),
            final(self)@ == old(self)@.drop_last(),
    {
        proof {
            self.lemma_view_len();
        }
        self.cursor = self.cursor - 1;
        proof {
            assert(self@ =~= old(self)@.drop_last());
        }
    }

    /// Retract the cursor by `n`, discarding the topmost `n` values.
    pub fn pop_discard_n(&mut self, n: usize)
        requires
            old(self).wf(),
            n <= old(self)@.len(),
        ensures
            final(self).wf(),
            final(self).capacity() == old(self).capacity(),
            final(self)@ == old(self)@.take(old(self)@.len() - n),
    {
        proof {
            self.lemma_view_len();
        }
        self.cursor = self.cursor - n;
        proof {
            assert(self@ =~= old(self)@.take(old(self)@.len() - n));
        }
    }

    /// Pop the top value, which must carry tag `t`: read it back from the
    /// matching representation and, for a reference slot, overwrite the
    /// vacated slot with a placeholder so no stale alias can be read again.
    pub fn pop_with_type(&mut self, t: ValueType) -> (r: Value)
        requires
            old(self).wf(),
            old(self)@.len() >= 1,
            old(self)@.last().typ() == t,
        ensures
            final(self).wf(),
            final(self).capacity() == old(self).capacity(),
            r == old(self)@.last(),
            final(self)@ == old(self)@.drop_last(),
    {
        proof {
            self.lemma_view_len();
        }
        let c = self.cursor - 1;
        let s = self.slots[c];
        proof {
            assert(slot_val(s) == self@.last());
            lemma_slot_inv(s);
        }
        let ret = match s {
            Slot::Scalar(_, v) => v.into_v128(t),
            Slot::Ref(v) => {
                self.slots[c] = Slot::Ref(Value::Nil);
                v
            },
        };
        self.cursor = c;
        proof {
            assert(self@ =~= old(self)@.drop_last());
        }
        ret
    }

    /// Pop the top value, which must be a boolean.
    pub fn pop_bool(&mut self) -> (r: bool)
        requires
            old(self).wf(),
            old(self)@.len() >= 1,
            old(self)@.last().typ() == ValueType::Bool,
        ensures
            final(self).wf(),
            final(self).capacity() == old(self).capacity(),
            Value::Bool(r) == old(self)@.last(),
            final(self)@ == old(self)@.drop_last(),
    {
        let v = self.pop_with_type(ValueType::Bool);
        match v {
            Value::Bool(b) => b,
            _ => false,
        }
    }

    /// Pop the top value, which must be an `Int`.
    pub fn pop_int(&mut self) -> (r: i64)
        requires
            old(self).wf(),
            old(self)@.len() >= 1,
            old(self)@.last().typ() == ValueType::Int,
        ensures
            final(self).wf(),
            final(self).capacity() == old(self).capacity(),
            Value::Int(r) == old(self)@.last(),
            final(self)@ == old(self)@.drop_last(),
    {
        let v = self.pop_with_type(ValueType::Int);
        match v {
            Value::Int(i) => i,
            _ => 0,
        }
    }

    /// Read the value of tag `t` at an absolute index below the cursor.
    pub fn get_with_type(&self, index: usize, t: ValueType) -> (r: Value)
        requires
            self.wf(),
            index < self@.len(),
            self@[index as int].typ() == t,
        ensures
            r == self@[index as int],
    {
        proof {
            self.lemma_view_len();
        }
        let s = self.slots[index];
        proof {
            assert(slot_val(s) == self@[index as int]);
            lemma_slot_inv(s);
        }
        match s {
            Slot::Scalar(_, v) => v.into_v128(t),
            Slot::Ref(v) => v,
        }
    }

    /// Overwrite the slot at an absolute index below the cursor with a
    /// canonical value, reclassifying the slot by the value's own tag.
    pub fn set(&mut self, index: usize, val: Value)
        requires
            old(self).wf(),
            index < old(self)@.len(),
        ensures
            final(self).wf(),
            final(self).capacity() == old(self).capacity(),
            final(self)@ == old(self)@.update(index as int, val),
    {
        proof {
            self.lemma_view_len();
        }
        let s = Self::slot_of(val);
        self.slots[index] = s;
        proof {
            assert(self@ =~= old(self)@.update(index as int, val));
        }
    }

    /// Overwrite the slot at an absolute index with a compact encoding of
    /// copyable tag `t`.
    pub fn set_with_type(&mut self, index: usize, val: Value64, t: ValueType)
        requires
            old(self).wf(),
            index < old(self)@.len(),
            is_copyable(t),
            bits_ok(t, val.bits),
        ensures
            final(self).wf(),
            final(self).capacity() == old(self).capacity(),
            final(self)@ == old(self)@.update(index as int, decode(t, val.bits)),
    {
        proof {
            self.lemma_view_len();
        }
        self.slots[index] = Slot::Scalar(t, val);
        proof {
            assert(self@ =~= old(self)@.update(index as int, decode(t, val.bits)));
        }
    }

    /// Retract the cursor to `len`, discarding everything above it.
    pub fn truncate(&mut self, len: usize)
        requires
            old(self).wf(),
            len <= old(self)@.len(),
        ensures
            final(self).wf(),
            final(self).capacity() == old(self).capacity(),
            final(self)@ == old(self)@.take(len as int),
    {
        proof {
            self.lemma_view_len();
        }
        self.cursor = len;
        proof {
            assert(self@ =~= old(self)@.take(len as int));
        }
    }

    /// Compute an absolute slot index from a signed displacement against a
    /// base, typically the cursor.
    pub fn offset(base: usize, offset: OpIndex) -> (r: usize)
        requires
            0 <= base + offset <= usize::MAX,
        ensures
            r == base + offset,
    {
        if offset >= 0 {
            base + (offset as usize)
        } else {
            base - ((-(offset as i64)) as usize)
        }
    }

    /// Push every value of `vec` in order, draining it. When the result
    /// would not fit, nothing moves and the overflow fault is returned.
    pub fn append(&mut self, vec: &mut Vec<Value>) -> (r: Result<(), Fault>)
        requires
            old(self).wf(),
        ensures
            final(self).wf(),
            final(self).capacity() == old(self).capacity(),
            old(self)@.len() + old(vec)@.len() <= old(self).capacity() ==> r == Ok::<(), Fault>(())
                && final(self)@ == old(self)@ + old(vec)@ && final(vec)@ == Seq::<Value>::empty(),
            old(self)@.len() + old(vec)@.len() > old(self).capacity() ==> r == Err::<(), Fault>(
                Fault::StackOverflow,
            ) && final(self)@ == old(self)@ && final(vec)@ == old(vec)@,
    {
        proof {
            self.lemma_view_len();
        }
        if vec.len() > self.limit - self.cursor {
            return Err(Fault::StackOverflow);
        }
        let n = vec.len();
        let mut i: usize = 0;
        while i < n
            invariant
                i <= n,
                n == vec@.len(),
                self.wf(),
                self.capacity() == old(self).capacity(),
                self@.len() == old(self)@.len() + i,
                self@.len() + (n - i) <= self.capacity(),
                self@ =~= old(self)@ + vec@.take(i as int),
                vec@ == old(vec)@,
            decreases n - i,
        {
            let v = vec[i];
            let _ = self.push(v);
            proof {
                assert(old(self)@ + vec@.take(i + 1) =~= (old(self)@ + vec@.take(i as int)).push(
                    vec@[i as int],
                ));
            }
            i = i + 1;
        }
        vec.clear();
        proof {
            assert(old(self)@ + old(vec)@.take(n as int) =~= old(self)@ + old(vec)@);
        }
        Ok(())
    }

    /// Move the run of slots from `index` to the cursor, all of tag `t`, out
    /// into a vector, retracting the cursor to `index`.
    pub fn split_off_with_type(&mut self, index: usize, t: ValueType) -> (r: Vec<Value>)
        requires
            old(self).wf(),
            index <= old(self)@.len(),
            forall|j: int| index <= j < old(self)@.len() ==> (#[trigger] old(self)@[j]).typ() == t,
        ensures
            final(self).wf(),
            final(self).capacity() == old(self).capacity(),
            r@ == old(self)@.subrange(index as int, old(self)@.len() as int),
            final(self)@ == old(self)@.take(index as int),
    {
        let n = self.len();
        let mut out: Vec<Value> = Vec::new();
        let mut i: usize = index;
        while i < n
            invariant
                index <= i <= n,
                n == self@.len(),
                self.wf(),
                *self == *old(self),
                forall|j: int| index <= j < self@.len() ==> (#[trigger] self@[j]).typ() == t,
                out@ =~= self@.subrange(index as int, i as int),
            decreases n - i,
        {
            let v = self.get_with_type(i, t);
            out.push(v);
            proof {
                assert(self@.subrange(index as int, i + 1) =~= self@.subrange(
                    index as int,
                    i as int,
                ).push(self@[i as int]));
            }
            i = i + 1;
        }
        self.truncate(index);
        out
    }

    /// The fused binary arithmetic step shared by the scalar operations:
    /// combine the two top slots under `op` and `t`, write the result into
    /// the lower slot, and retract the cursor by one. On a fault nothing
    /// moves.
    fn bin_arith(&mut self, op: Opcode, t: ValueType) -> (r: Result<(), Fault>)
        requires
            old(self).wf(),
            old(self)@.len() >= 2,
            old(self)@[old(self)@.len() - 2].typ() == t,
            old(self)@[old(self)@.len() - 1].typ() == t,
        ensures
            final(self).wf(),
            final(self).capacity() == old(self).capacity(),
            match binop_vals(op, t, old(self)@[old(self)@.len() - 2], old(self)@[old(self)@.len()
                - 1]) {
                Ok(c) => r == Ok::<(), Fault>(()) && final(self)@ == old(self)@.drop_last().update(
                    old(self)@.len() - 2,
                    c,
                ),
                Err(f) => r == Err::<(), Fault>(f) && final(self)@ == old(self)@,
            },
    {
        proof {
            self.lemma_view_len();
        }
        let n = self.cursor;
        let sa = self.slots[n - 2];
        let sb = self.slots[n - 1];
        proof {
            assert(slot_val(sa) == self@[self@.len() - 2]);
            assert(slot_val(sb) == self@[self@.len() - 1]);
            lemma_slot_inv(sa);
            lemma_slot_inv(sb);
        }
        match (sa, sb) {
            (Slot::Scalar(_, va), Slot::Scalar(_, vb)) => {
                match Value64::binary_op(&va, &vb, t, op) {
                    Ok(v) => {
                        self.slots[n - 2] = Slot::Scalar(t, v);
                        self.cursor = n - 1;
                        proof {
                            assert(self@ =~= old(self)@.drop_last().update(
                                old(self)@.len() - 2,
                                decode(t, v.bits),
                            ));
                        }
                        Ok(())
                    },
                    Err(f) => Err(f),
                }
            },
            _ => Err(Fault::TypeMismatch),
        }
    }

    /// Add the two top values of tag `t`: wrapping scalar addition for the
    /// copyable tags, string concatenation through the object store for
    /// strings; any other tag is a mismatch.
    pub fn add(&mut self, t: ValueType, objs: &mut Objects) -> (r: Result<(), Fault>)
        requires
            old(self).wf(),
            old(self)@.len() >= 2,
            old(self)@[old(self)@.len() - 2].typ() == t,
            old(self)@[old(self)@.len() - 1].typ() == t,
        ensures
            final(self).wf(),
            final(self).capacity() == old(self).capacity(),
            is_copyable(t) ==> objs_same(*old(objs), *final(objs)) && match binop_vals(
                Opcode::Add,
                t,
                old(self)@[old(self)@.len() - 2],
                old(self)@[old(self)@.len() - 1],
            ) {
                Ok(c) => r == Ok::<(), Fault>(()) && final(self)@ == old(self)@.drop_last().update(
                    old(self)@.len() - 2,
                    c,
                ),
                Err(f) => r == Err::<(), Fault>(f) && final(self)@ == old(self)@,
            },
            !is_copyable(t) ==> concat_effect(
                old(self)@[old(self)@.len() - 2],
                old(self)@[old(self)@.len() - 1],
                *old(objs),
                *final(objs),
            ) && match concat_result(
                old(self)@[old(self)@.len() - 2],
                old(self)@[old(self)@.len() - 1],
                *old(objs),
            ) {
                Ok(c) => r == Ok::<(), Fault>(()) && final(self)@ == old(self)@.drop_last().update(
                    old(self)@.len() - 2,
                    c,
                ),
                Err(f) => r == Err::<(), Fault>(f) && final(self)@ == old(self)@,
            },
    {
        if t.copyable() {
            self.bin_arith(Opcode::Add, t)
        } else {
            let n = self.len();
            let a = self.get_with_type(n - 2, t);
            let b = self.get_with_type(n - 1, t);
            match Value::add_str(&a, &b, objs) {
                Ok(c) => {
                    self.pop_discard();
                    self.set(n - 2, c);
                    Ok(())
                },
                Err(f) => Err(f),
            }
        }
    }

    /// Subtract the top value from the one below it, both of tag `t`.
    pub fn sub(&mut self, t: ValueType) -> (r: Result<(), Fault>)
        requires
            old(self).wf(),
            old(self)@.len() >= 2,
            old(self)@[old(self)@.len() - 2].typ() == t,
            old(self)@[old(self)@.len() - 1].typ() == t,
        ensures
            final(self).wf(),
            final(self).capacity() == old(self).capacity(),
            match binop_vals(Opcode::Sub, t, old(self)@[old(self)@.len() - 2], old(self)@[old(self)@.len() - 1]) {
                Ok(c) => r == Ok::<(), Fault>(()) && final(self)@ == old(self)@.drop_last().update(
                    old(self)@.len() - 2,
                    c,
                ),
                Err(f) => r == Err::<(), Fault>(f) && final(self)@ == old(self)@,
            },
    {
        self.bin_arith(Opcode::Sub, t)
    }

    /// Multiply the two top values of tag `t`.
    pub fn mul(&mut self, t: ValueType) -> (r: Result<(), Fault>)
        requires
            old(self).wf(),
            old(self)@.len() >= 2,
            old(self)@[old(self)@.len() - 2].typ() == t,
            old(self)@[old(self)@.len() - 1].typ() == t,
        ensures
            final(self).wf(),
            final(self).capacity() == old(self).capacity(),
            match binop_vals(Opcode::Mul, t, old(self)@[old(self)@.len() - 2], old(self)@[old(self)@.len() - 1]) {
                Ok(c) => r == Ok::<(), Fault>(()) && final(self)@ == old(self)@.drop_last().update(
                    old(self)@.len() - 2,
                    c,
                ),
                Err(f) => r == Err::<(), Fault>(f) && final(self)@ == old(self)@,
            },
    {
        self.bin_arith(Opcode::Mul, t)
    }

    /// Divide the value below the top by the top, both of tag `t`,
    /// truncating toward zero; division by zero is a fault.
    pub fn quo(&mut self, t: ValueType) -> (r: Result<(), Fault>)
        requires
            old(self).wf(),
            old(self)@.len() >= 2,
            old(self)@[old(self)@.len() - 2].typ() == t,
            old(self)@[old(self)@.len() - 1].typ() == t,
        ensures
            final(self).wf(),
            final(self).capacity() == old(self).capacity(),
            match binop_vals(Opcode::Quo, t, old(self)@[old(self)@.len() - 2], old(self)@[old(self)@.len() - 1]) {
                Ok(c) => r == Ok::<(), Fault>(()) && final(self)@ == old(self)@.drop_last().update(
                    old(self)@.len() - 2,
                    c,
                ),
                Err(f) => r == Err::<(), Fault>(f) && final(self)@ == old(self)@,
            },
    {
        self.bin_arith(Opcode::Quo, t)
    }

    /// The remainder of the value below the top by the top, both of tag `t`,
    /// with the dividend's sign; a zero divisor is a fault.
    pub fn rem(&mut self, t: ValueType) -> (r: Result<(), Fault>)
        requires
            old(self).wf(),
            old(self)@.len() >= 2,
            old(self)@[old(self)@.len() - 2].typ() == t,
            old(self)@[old(self)@.len() - 1].typ() == t,
        ensures
            final(self).wf(),
            final(self).capacity() == old(self).capacity(),
            match binop_vals(Opcode::Rem, t, old(self)@[old(self)@.len() - 2], old(self)@[old(self)@.len() - 1]) {
                Ok(c) => r == Ok::<(), Fault>(()) && final(self)@ == old(self)@.drop_last().update(
                    old(self)@.len() - 2,
                    c,
                ),
                Err(f) => r == Err::<(), Fault>(f) && final(self)@ == old(self)@,
            },
    {
        self.bin_arith(Opcode::Rem, t)
    }

    /// Bitwise conjunction of the two top values of tag `t`.
    pub fn and(&mut self, t: ValueType) -> (r: Result<(), Fault>)
        requires
            old(self).wf(),
            old(self)@.len() >= 2,
            old(self)@[old(self)@.len() - 2].typ() == t,
            old(self)@[old(self)@.len() - 1].typ() == t,
        ensures
            final(self).wf(),
            final(self).capacity() == old(self).capacity(),
            match binop_vals(Opcode::And, t, old(self)@[old(self)@.len() - 2], old(self)@[old(self)@.len() - 1]) {
                Ok(c) => r == Ok::<(), Fault>(()) && final(self)@ == old(self)@.drop_last().update(
                    old(self)@.len() - 2,
                    c,
                ),
                Err(f) => r == Err::<(), Fault>(f) && final(self)@ == old(self)@,
            },
    {
        self.bin_arith(Opcode::And, t)
    }

    /// Bitwise disjunction of the two top values of tag `t`.
    pub fn or(&mut self, t: ValueType) -> (r: Result<(), Fault>)
        requires
            old(self).wf(),
            old(self)@.len() >= 2,
            old(self)@[old(self)@.len() - 2].typ() == t,
            old(self)@[old(self)@.len() - 1].typ() == t,
        ensures
            final(self).wf(),
            final(self).capacity() == old(self).capacity(),
            match binop_vals(Opcode::Or, t, old(self)@[old(self)@.len() - 2], old(self)@[old(self)@.len() - 1]) {
                Ok(c) => r == Ok::<(), Fault>(()) && final(self)@ == old(self)@.drop_last().update(
                    old(self)@.len() - 2,
                    c,
                ),
                Err(f) => r == Err::<(), Fault>(f) && final(self)@ == old(self)@,
            },
    {
        self.bin_arith(Opcode::Or, t)
    }

    /// Bitwise exclusive disjunction of the two top values of tag `t`.
    pub fn xor(&mut self, t: ValueType) -> (r: Result<(), Fault>)
        requires
            old(self).wf(),
            old(self)@.len() >= 2,
            old(self)@[old(self)@.len() - 2].typ() == t,
            old(self)@[old(self)@.len() - 1].typ() == t,
        ensures
            final(self).wf(),
            final(self).capacity() == old(self).capacity(),
            match binop_vals(Opcode::Xor, t, old(self)@[old(self)@.len() - 2], old(self)@[old(self)@.len() - 1]) {
                Ok(c) => r == Ok::<(), Fault>(()) && final(self)@ == old(self)@.drop_last().update(
                    old(self)@.len() - 2,
                    c,
                ),
                Err(f) => r == Err::<(), Fault>(f) && final(self)@ == old(self)@,
            },
    {
        self.bin_arith(Opcode::Xor, t)
    }

    /// Shift the value below the top left by the top count, both of tag `t`;
    /// a negative count is unsupported, an overlong one shifts everything
    /// out.
    pub fn shl(&mut self, t: ValueType) -> (r: Result<(), Fault>)
        requires
            old(self).wf(),
            old(self)@.len() >= 2,
            old(self)@[old(self)@.len() - 2].typ() == t,
            old(self)@[old(self)@.len() - 1].typ() == t,
        ensures
            final(self).wf(),
            final(self).capacity() == old(self).capacity(),
            match binop_vals(Opcode::Shl, t, old(self)@[old(self)@.len() - 2], old(self)@[old(self)@.len() - 1]) {
                Ok(c) => r == Ok::<(), Fault>(()) && final(self)@ == old(self)@.drop_last().update(
                    old(self)@.len() - 2,
                    c,
                ),
                Err(f) => r == Err::<(), Fault>(f) && final(self)@ == old(self)@,
            },
    {
        self.bin_arith(Opcode::Shl, t)
    }

    /// Shift the value below the top right by the top count, both of tag
    /// `t`: arithmetically for signed tags, logically for unsigned ones.
    pub fn shr(&mut self, t: ValueType) -> (r: Result<(), Fault>)
        requires
            old(self).wf(),
            old(self)@.len() >= 2,
            old(self)@[old(self)@.len() - 2].typ() == t,
            old(self)@[old(self)@.len() - 1].typ() == t,
        ensures
            final(self).wf(),
            final(self).capacity() == old(self).capacity(),
            match binop_vals(Opcode::Shr, t, old(self)@[old(self)@.len() - 2], old(self)@[old(self)@.len() - 1]) {
                Ok(c) => r == Ok::<(), Fault>(()) && final(self)@ == old(self)@.drop_last().update(
                    old(self)@.len() - 2,
                    c,
                ),
                Err(f) => r == Err::<(), Fault>(f) && final(self)@ == old(self)@,
            },
    {
        self.bin_arith(Opcode::Shr, t)
    }

    /// Bit clear: conjoin the value below the top with the top's complement,
    /// both of tag `t`.
    pub fn and_not(&mut self, t: ValueType) -> (r: Result<(), Fault>)
        requires
            old(self).wf(),
            old(self)@.len() >= 2,
            old(self)@[old(self)@.len() - 2].typ() == t,
            old(self)@[old(self)@.len() - 1].typ() == t,
        ensures
            final(self).wf(),
            final(self).capacity() == old(self).capacity(),
            match binop_vals(Opcode::AndNot, t, old(self)@[old(self)@.len() - 2], old(self)@[old(self)@.len() - 1]) {
                Ok(c) => r == Ok::<(), Fault>(()) && final(self)@ == old(self)@.drop_last().update(
                    old(self)@.len() - 2,
                    c,
                ),
                Err(f) => r == Err::<(), Fault>(f) && final(self)@ == old(self)@,
            },
    {
        self.bin_arith(Opcode::AndNot, t)
    }

    /// Negate the top value of tag `t` in place, wrapping at the tag's
    /// width.
    pub fn unary_negate(&mut self, t: ValueType) -> (r: Result<(), Fault>)
        requires
            old(self).wf(),
            old(self)@.len() >= 1,
            old(self)@.last().typ() == t,
        ensures
            final(self).wf(),
            final(self).capacity() == old(self).capacity(),
            match crate::arith::unary_neg_bits(t, encode(old(self)@.last())) {
                Ok(bits) => r == Ok::<(), Fault>(()) && final(self)@ == old(self)@.update(
                    old(self)@.len() - 1,
                    decode(t, bits),
                ),
                Err(f) => r == Err::<(), Fault>(f) && final(self)@ == old(self)@,
            },
    {
        proof {
            self.lemma_view_len();
        }
        let n = self.cursor;
        let s = self.slots[n - 1];
        proof {
            assert(slot_val(s) == self@.last());
            lemma_slot_inv(s);
        }
        match s {
            Slot::Scalar(_, v) => {
                let mut vv = v;
                match vv.unary_negate(t) {
                    Ok(()) => {
                        self.slots[n - 1] = Slot::Scalar(t, vv);
                        proof {
                            assert(self@ =~= old(self)@.update(
                                old(self)@.len() - 1,
                                decode(t, vv.bits),
                            ));
                        }
                        Ok(())
                    },
                    Err(f) => Err(f),
                }
            },
            _ => Err(Fault::TypeMismatch),
        }
    }

    /// Replace the top value of tag `t` by its bitwise complement in place.
    pub fn unary_xor(&mut self, t: ValueType) -> (r: Result<(), Fault>)
        requires
            old(self).wf(),
            old(self)@.len() >= 1,
            old(self)@.last().typ() == t,
        ensures
            final(self).wf(),
            final(self).capacity() == old(self).capacity(),
            match crate::arith::unary_xor_bits(t, encode(old(self)@.last())) {
                Ok(bits) => r == Ok::<(), Fault>(()) && final(self)@ == old(self)@.update(
                    old(self)@.len() - 1,
                    decode(t, bits),
                ),
                Err(f) => r == Err::<(), Fault>(f) && final(self)@ == old(self)@,
            },
    {
        proof {
            self.lemma_view_len();
        }
        let n = self.cursor;
        let s = self.slots[n - 1];
        proof {
            assert(slot_val(s) == self@.last());
            lemma_slot_inv(s);
        }
        match s {
            Slot::Scalar(_, v) => {
                let mut vv = v;
                match vv.unary_xor(t) {
                    Ok(()) => {
                        self.slots[n - 1] = Slot::Scalar(t, vv);
                        proof {
                            assert(self@ =~= old(self)@.update(
                                old(self)@.len() - 1,
                                decode(t, vv.bits),
                            ));
                        }
                        Ok(())
                    },
                    Err(f) => Err(f),
                }
            },
            _ => Err(Fault::TypeMismatch),
        }
    }

    /// Logically negate the top value, which must be a boolean, in place.
    pub fn logical_not(&mut self, t: ValueType) -> (r: Result<(), Fault>)
        requires
            old(self).wf(),
            old(self)@.len() >= 1,
            old(self)@.last().typ() == t,
        ensures
            final(self).wf(),
            final(self).capacity() == old(self).capacity(),
            match crate::arith::unary_not_bits(t, encode(old(self)@.last())) {
                Ok(bits) => r == Ok::<(), Fault>(()) && final(self)@ == old(self)@.update(
                    old(self)@.len() - 1,
                    decode(t, bits),
                ),
                Err(f) => r == Err::<(), Fault>(f) && final(self)@ == old(self)@,
            },
    {
        proof {
            self.lemma_view_len();
        }
        let n = self.cursor;
        let s = self.slots[n - 1];
        proof {
            assert(slot_val(s) == self@.last());
            lemma_slot_inv(s);
        }
        match s {
            Slot::Scalar(_, v) => {
                let mut vv = v;
                match vv.unary_not(t) {
                    Ok(()) => {
                        self.slots[n - 1] = Slot::Scalar(t, vv);
                        proof {
                            assert(self@ =~= old(self)@.update(
                                old(self)@.len() - 1,
                                decode(t, vv.bits),
                            ));
                        }
                        Ok(())
                    },
                    Err(f) => Err(f),
                }
            },
            _ => Err(Fault::TypeMismatch),
        }
    }

    /// The shared comparison step: relate the two top values of tag `t`, pop
    /// them, and push the boolean outcome. On a fault nothing moves.
    fn compare_rel(&mut self, rel: Rel, t: ValueType, objs: &Objects) -> (r: Result<(), Fault>)
        requires
            old(self).wf(),
            old(self)@.len() >= 2,
            old(self)@[old(self)@.len() - 2].typ() == t,
            old(self)@[old(self)@.len() - 1].typ() == t,
        ensures
            final(self).wf(),
            final(self).capacity() == old(self).capacity(),
            match cmp_vals(rel, t, old(self)@[old(self)@.len() - 2], old(self)@[old(self)@.len()
                - 1], *objs) {
                Ok(x) => r == Ok::<(), Fault>(()) && final(self)@ == old(self)@.drop_last().update(
                    old(self)@.len() - 2,
                    Value::Bool(x),
                ),
                Err(f) => r == Err::<(), Fault>(f) && final(self)@ == old(self)@,
            },
    {
        proof {
            self.lemma_view_len();
        }
        let n = self.cursor;
        let outcome: Result<bool, Fault> = if t.copyable() {
            let sa = self.slots[n - 2];
            let sb = self.slots[n - 1];
            proof {
                assert(slot_val(sa) == self@[self@.len() - 2]);
                assert(slot_val(sb) == self@[self@.len() - 1]);
                lemma_slot_inv(sa);
                lemma_slot_inv(sb);
            }
            match (sa, sb) {
                (Slot::Scalar(_, va), Slot::Scalar(_, vb)) => Value64::compare(&va, &vb, t, rel),
                _ => Err(Fault::TypeMismatch),
            }
        } else {
            let a = self.get_with_type(n - 2, t);
            let b = self.get_with_type(n - 1, t);
            match rel {
                Rel::Eql => value_eq(&a, &b, objs, objs.fuel()),
                Rel::Neq => match value_eq(&a, &b, objs, objs.fuel()) {
                    Ok(x) => Ok(!x),
                    Err(f) => Err(f),
                },
                _ => {
                    match (a, b) {
                        (Value::Str(k1), Value::Str(k2)) => {
                            if k1 < objs.strs.len() && k2 < objs.strs.len() {
                                let sa = &objs.strs[k1];
                                let sb = &objs.strs[k2];
                                proof {
                                    assert(sa@.skip(0) =~= sa@);
                                    assert(sb@.skip(0) =~= sb@);
                                }
                                Ok(
                                    match rel {
                                        Rel::Lss => bytes_lt_from(sa, sb, 0),
                                        Rel::Gtr => bytes_lt_from(sb, sa, 0),
                                        Rel::Leq => !bytes_lt_from(sb, sa, 0),
                                        _ => !bytes_lt_from(sa, sb, 0),
                                    },
                                )
                            } else {
                                Err(Fault::TypeMismatch)
                            }
                        },
                        _ => Err(Fault::UnsupportedOperation),
                    }
                },
            }
        };
        match outcome {
            Ok(x) => {
                self.set(n - 2, Value::Bool(x));
                self.pop_discard();
                proof {
                    assert(final(self)@ =~= old(self)@.drop_last().update(
                        old(self)@.len() - 2,
                        Value::Bool(x),
                    ));
                }
                Ok(())
            },
            Err(f) => Err(f),
        }
    }

    /// Pop the two top values of tag `t` and push whether they are equal.
    pub fn compare_eql(&mut self, t: ValueType, objs: &Objects) -> (r: Result<(), Fault>)
        requires
            old(self).wf(),
            old(self)@.len() >= 2,
            old(self)@[old(self)@.len() - 2].typ() == t,
            old(self)@[old(self)@.len() - 1].typ() == t,
        ensures
            final(self).wf(),
            final(self).capacity() == old(self).capacity(),
            match cmp_vals(Rel::Eql, t, old(self)@[old(self)@.len() - 2], old(self)@[old(self)@.len() - 1], *objs) {
                Ok(x) => r == Ok::<(), Fault>(()) && final(self)@ == old(self)@.drop_last().update(
                    old(self)@.len() - 2,
                    Value::Bool(x),
                ),
                Err(f) => r == Err::<(), Fault>(f) && final(self)@ == old(self)@,
            },
    {
        self.compare_rel(Rel::Eql, t, objs)
    }

    /// Pop the two top values of tag `t` and push whether they differ.
    pub fn compare_neq(&mut self, t: ValueType, objs: &Objects) -> (r: Result<(), Fault>)
        requires
            old(self).wf(),
            old(self)@.len() >= 2,
            old(self)@[old(self)@.len() - 2].typ() == t,
            old(self)@[old(self)@.len() - 1].typ() == t,
        ensures
            final(self).wf(),
            final(self).capacity() == old(self).capacity(),
            match cmp_vals(Rel::Neq, t, old(self)@[old(self)@.len() - 2], old(self)@[old(self)@.len() - 1], *objs) {
                Ok(x) => r == Ok::<(), Fault>(()) && final(self)@ == old(self)@.drop_last().update(
                    old(self)@.len() - 2,
                    Value::Bool(x),
                ),
                Err(f) => r == Err::<(), Fault>(f) && final(self)@ == old(self)@,
            },
    {
        self.compare_rel(Rel::Neq, t, objs)
    }

    /// Pop the two top values of tag `t` and push whether the lower is
    /// strictly below the upper.
    pub fn compare_lss(&mut self, t: ValueType, objs: &Objects) -> (r: Result<(), Fault>)
        requires
            old(self).wf(),
            old(self)@.len() >= 2,
            old(self)@[old(self)@.len() - 2].typ() == t,
            old(self)@[old(self)@.len() - 1].typ() == t,
        ensures
            final(self).wf(),
            final(self).capacity() == old(self).capacity(),
            match cmp_vals(Rel::Lss, t, old(self)@[old(self)@.len() - 2], old(self)@[old(self)@.len() - 1], *objs) {
                Ok(x) => r == Ok::<(), Fault>(()) && final(self)@ == old(self)@.drop_last().update(
                    old(self)@.len() - 2,
                    Value::Bool(x),
                ),
                Err(f) => r == Err::<(), Fault>(f) && final(self)@ == old(self)@,
            },
    {
        self.compare_rel(Rel::Lss, t, objs)
    }

    /// Pop the two top values of tag `t` and push whether the lower is
    /// strictly above the upper.
    pub fn compare_gtr(&mut self, t: ValueType, objs: &Objects) -> (r: Result<(), Fault>)
        requires
            old(self).wf(),
            old(self)@.len() >= 2,
            old(self)@[old(self)@.len() - 2].typ() == t,
            old(self)@[old(self)@.len() - 1].typ() == t,
        ensures
            final(self).wf(),
            final(self).capacity() == old(self).capacity(),
            match cmp_vals(Rel::Gtr, t, old(self)@[old(self)@.len() - 2], old(self)@[old(self)@.len() - 1], *objs) {
                Ok(x) => r == Ok::<(), Fault>(()) && final(self)@ == old(self)@.drop_last().update(
                    old(self)@.len() - 2,
                    Value::Bool(x),
                ),
                Err(f) => r == Err::<(), Fault>(f) && final(self)@ == old(self)@,
            },
    {
        self.compare_rel(Rel::Gtr, t, objs)
    }

    /// Pop the two top values of tag `t` and push whether the lower is at
    /// most the upper.
    pub fn compare_leq(&mut self, t: ValueType, objs: &Objects) -> (r: Result<(), Fault>)
        requires
            old(self).wf(),
            old(self)@.len() >= 2,
            old(self)@[old(self)@.len() - 2].typ() == t,
            old(self)@[old(self)@.len() - 1].typ() == t,
        ensures
            final(self).wf(),
            final(self).capacity() == old(self).capacity(),
            match cmp_vals(Rel::Leq, t, old(self)@[old(self)@.len() - 2], old(self)@[old(self)@.len() - 1], *objs) {
                Ok(x) => r == Ok::<(), Fault>(()) && final(self)@ == old(self)@.drop_last().update(
                    old(self)@.len() - 2,
                    Value::Bool(x),
                ),
                Err(f) => r == Err::<(), Fault>(f) && final(self)@ == old(self)@,
            },
    {
        self.compare_rel(Rel::Leq, t, objs)
    }

    /// Pop the two top values of tag `t` and push whether the lower is at
    /// least the upper.
    pub fn compare_geq(&mut self, t: ValueType, objs: &Objects) -> (r: Result<(), Fault>)
        requires
            old(self).wf(),
            old(self)@.len() >= 2,
            old(self)@[old(self)@.len() - 2].typ() == t,
            old(self)@[old(self)@.len() - 1].typ() == t,
        ensures
            final(self).wf(),
            final(self).capacity() == old(self).capacity(),
            match cmp_vals(Rel::Geq, t, old(self)@[old(self)@.len() - 2], old(self)@[old(self)@.len() - 1], *objs) {
                Ok(x) => r == Ok::<(), Fault>(()) && final(self)@ == old(self)@.drop_last().update(
                    old(self)@.len() - 2,
                    Value::Bool(x),
                ),
                Err(f) => r == Err::<(), Fault>(f) && final(self)@ == old(self)@,
            },
    {
        self.compare_rel(Rel::Geq, t, objs)
    }

    /// Plain assignment between two stack slots honoring the tag's copy
    /// semantics: aliasing for the reference-sharing tags, a duplicated
    /// payload under a fresh key for arrays and structs.
    pub fn store_copy_semantic(&mut self, li: usize, ri: usize, t: ValueType, objs: &mut Objects)
        -> (r: Result<(), Fault>)
        requires
            old(self).wf(),
            li < old(self)@.len(),
            ri < old(self)@.len(),
            old(self)@[li as int].typ() == t,
            old(self)@[ri as int].typ() == t,
        ensures
            final(self).wf(),
            final(self).capacity() == old(self).capacity(),
            copy_effect(old(self)@[ri as int], *old(objs), *final(objs)),
            match copy_result(old(self)@[ri as int], *old(objs)) {
                Ok(c) => r == Ok::<(), Fault>(()) && final(self)@ == old(self)@.update(
                    li as int,
                    c,
                ),
                Err(f) => r == Err::<(), Fault>(f) && final(self)@ == old(self)@,
            },
    {
        let v = self.get_with_type(ri, t);
        match v.copy_semantic(objs) {
            Ok(c) => {
                self.set(li, c);
                Ok(())
            },
            Err(f) => Err(f),
        }
    }

    /// Fused compound assignment: combine the slots at `li` and `ri` under
    /// `op` and `t` directly, writing the result back into slot `li` with no
    /// intervening push or pop.
    pub fn store_with_op(&mut self, li: usize, ri: usize, op: Opcode, t: ValueType,
        objs: &mut Objects) -> (r: Result<(), Fault>)
        requires
            old(self).wf(),
            li < old(self)@.len(),
            ri < old(self)@.len(),
            old(self)@[li as int].typ() == t,
            old(self)@[ri as int].typ() == t,
        ensures
            final(self).wf(),
            final(self).capacity() == old(self).capacity(),
            is_copyable(t) ==> objs_same(*old(objs), *final(objs)) && match binop_vals(
                op,
                t,
                old(self)@[li as int],
                old(self)@[ri as int],
            ) {
                Ok(c) => r == Ok::<(), Fault>(()) && final(self)@ == old(self)@.update(
                    li as int,
                    c,
                ),
                Err(f) => r == Err::<(), Fault>(f) && final(self)@ == old(self)@,
            },
            !is_copyable(t) && op == Opcode::Add ==> concat_effect(
                old(self)@[li as int],
                old(self)@[ri as int],
                *old(objs),
                *final(objs),
            ) && match concat_result(old(self)@[li as int], old(self)@[ri as int], *old(objs)) {
                Ok(c) => r == Ok::<(), Fault>(()) && final(self)@ == old(self)@.update(
                    li as int,
                    c,
                ),
                Err(f) => r == Err::<(), Fault>(f) && final(self)@ == old(self)@,
            },
            !is_copyable(t) && op != Opcode::Add ==> r == Err::<(), Fault>(Fault::TypeMismatch)
                && final(self)@ == old(self)@ && objs_same(*old(objs), *final(objs)),
    {
        proof {
            self.lemma_view_len();
        }
        if t.copyable() {
            let sa = self.slots[li];
            let sb = self.slots[ri];
            proof {
                assert(slot_val(sa) == self@[li as int]);
                assert(slot_val(sb) == self@[ri as int]);
                lemma_slot_inv(sa);
                lemma_slot_inv(sb);
            }
            match (sa, sb) {
                (Slot::Scalar(_, va), Slot::Scalar(_, vb)) => {
                    match Value64::binary_op(&va, &vb, t, op) {
                        Ok(v) => {
                            self.slots[li] = Slot::Scalar(t, v);
                            proof {
                                assert(self@ =~= old(self)@.update(li as int, decode(t, v.bits)));
                            }
                            Ok(())
                        },
                        Err(f) => Err(f),
                    }
                },
                _ => Err(Fault::TypeMismatch),
            }
        } else if matches!(op, Opcode::Add) {
            let a = self.get_with_type(li, t);
            let b = self.get_with_type(ri, t);
            match Value::add_str(&a, &b, objs) {
                Ok(c) => {
                    self.set(li, c);
                    Ok(())
                },
                Err(f) => Err(f),
            }
        } else {
            Err(Fault::TypeMismatch)
        }
    }

    /// Assign into a storage location outside the stack: from the slot at a
    /// negative displacement with copy semantics, or — when `r_index` encodes
    /// an opcode — by combining the target with the top of the stack.
    pub fn store_val(&self, target: &mut Value, r_index: OpIndex, t: ValueType,
        objs: &mut Objects) -> (r: Result<(), Fault>)
        requires
            self.wf(),
            r_index < 0 ==> 0 <= self@.len() + r_index < self@.len() && self@[self@.len()
                + r_index].typ() == t,
            r_index >= 0 ==> self@.len() >= 1 && self@.last().typ() == t && old(target).typ() == t,
        ensures
            r_index < 0 ==> copy_effect(self@[self@.len() + r_index], *old(objs), *final(objs))
                && match copy_result(self@[self@.len() + r_index], *old(objs)) {
                Ok(c) => r == Ok::<(), Fault>(()) && *final(target) == c,
                Err(f) => r == Err::<(), Fault>(f) && *final(target) == *old(target),
            },
            r_index >= 0 ==> match opcode_from_index(r_index as int) {
                None => r == Err::<(), Fault>(Fault::TypeMismatch) && *final(target) == *old(target) && objs_same(*old(objs), *final(objs)),
                Some(op) => {
                    if is_copyable(t) {
                        objs_same(*old(objs), *final(objs)) && match binop_vals(
                            op,
                            t,
                            *old(target),
                            self@.last(),
                        ) {
                            Ok(c) => r == Ok::<(), Fault>(()) && *final(target) == c,
                            Err(f) => r == Err::<(), Fault>(f) && *final(target) == *old(target),
                        }
                    } else if op == Opcode::Add {
                        concat_effect(*old(target), self@.last(), *old(objs), *final(objs))
                            && match concat_result(*old(target), self@.last(), *old(objs)) {
                            Ok(c) => r == Ok::<(), Fault>(()) && *final(target) == c,
                            Err(f) => r == Err::<(), Fault>(f) && *final(target) == *old(target),
                        }
                    } else {
                        r == Err::<(), Fault>(Fault::TypeMismatch) && *final(target) == *old(target) && objs_same(*old(objs), *final(objs))
                    }
                },
            },
    {
        proof {
            self.lemma_view_len();
        }
        if r_index < 0 {
            let rhs = Stack::offset(self.len(), r_index);
            let v = self.get_with_type(rhs, t);
            match v.copy_semantic(objs) {
                Ok(c) => {
                    *target = c;
                    Ok(())
                },
                Err(f) => Err(f),
            }
        } else {
            match Opcode::from_index(r_index) {
                None => Err(Fault::TypeMismatch),
                Some(op) => {
                    let ri = self.len() - 1;
                    if t.copyable() {
                        proof {
                            lemma_encode_ok(*target);
                            lemma_decode_encode(*target);
                        }
                        let a = Value64::from_v128(target);
                        let bv = self.get_with_type(ri, t);
                        proof {
                            lemma_encode_ok(bv);
                        }
                        let b = Value64::from_v128(&bv);
                        match Value64::binary_op(&a, &b, t, op) {
                            Ok(v) => {
                                *target = v.into_v128(t);
                                Ok(())
                            },
                            Err(f) => Err(f),
                        }
                    } else if matches!(op, Opcode::Add) {
                        let b = self.get_with_type(ri, t);
                        match Value::add_str(target, &b, objs) {
                            Ok(c) => {
                                *target = c;
                                Ok(())
                            },
                            Err(f) => Err(f),
                        }
                    } else {
                        Err(Fault::TypeMismatch)
                    }
                },
            }
        }
    }

    /// Marshal the run of slots from `index` to the cursor, all of tag `t`,
    /// into a freshly allocated sequence composite, retract the cursor, and
    /// push the new composite as a single slot. A start at or above the
    /// cursor changes nothing.
    pub fn pack_variadic(&mut self, index: usize, t: ValueType, objs: &mut Objects)
        requires
            old(self).wf(),
            forall|j: int| index <= j < old(self)@.len() ==> (#[trigger] old(self)@[j]).typ() == t,
        ensures
            final(self).wf(),
            final(self).capacity() == old(self).capacity(),
            index < old(self)@.len() ==> final(self)@ == old(self)@.take(index as int).push(
                Value::Slice(old(objs).slices@.len() as usize),
            ) && final(objs).slices@ == old(objs).slices@.push(final(objs).slices@.last()) && final(objs).slices@.last()@ == old(self)@.subrange(index as int, old(self)@.len() as int) && final(objs).strs@ == old(objs).strs@ && final(objs).arrays@ == old(objs).arrays@ && final(objs).structs@ == old(objs).structs@ && final(objs).closures@ == old(objs).closures@
                && final(objs).boxed@ == old(objs).boxed@ && final(objs).ifaces@ == old(objs).ifaces@ && final(objs).named@ == old(objs).named@ && final(objs).maps@ == old(objs).maps@,
            index >= old(self)@.len() ==> final(self)@ == old(self)@ && objs_same(
                *old(objs),
                *final(objs),
            ),
    {
        proof {
            self.lemma_view_len();
        }
        if index < self.len() {
            let v = self.split_off_with_type(index, t);
            let sv = Value::with_slice_val(v, objs);
            let _ = self.push(sv);
        }
    }
}

/// The package-level variable table of one compiled package, whose slots are
/// created at their types' zero values and filled by initializer code.
pub struct PackageVal {
    vars: Vec<Value>,
}

impl View for PackageVal {
    type V = Seq<Value>;

    closed spec fn view(&self) -> Seq<Value> {
        self.vars@
    }
}

impl PackageVal {
    /// An empty variable table.
    pub fn new() -> (r: PackageVal)
        ensures
            r@ == Seq::<Value>::empty(),
    {
        PackageVal { vars: Vec::new() }
    }

    /// Append one variable slot, typically holding its type's zero value.
    pub fn add_var(&mut self, v: Value)
        ensures
            final(self)@ == old(self)@.push(v),
    {
        self.vars.push(v);
    }

    /// The value of variable `i`.
    pub fn var(&self, i: usize) -> (r: Value)
        requires
            i < self@.len(),
        ensures
            r == self@[i as int],
    {
        self.vars[i]
    }

    /// Overwrite variable `i`.
    pub fn set_var(&mut self, i: usize, v: Value)
        requires
            i < old(self)@.len(),
        ensures
            final(self)@ == old(self)@.update(i as int, v),
    {
        self.vars[i] = v;
    }

    /// The number of variables.
    pub fn len(&self) -> (n: usize)
        ensures
            n == self@.len(),
    {
        self.vars.len()
    }
}

impl Stack {
    /// Pop the topmost `count` values into the package's first `count`
    /// variables: the top of the stack fills the last of them, so the
    /// variables end up in push order. Each popped value must carry the tag
    /// of the zero value waiting in its variable slot.
    pub fn init_pkg_vars(&mut self, pkg: &mut PackageVal, count: usize)
        requires
            old(self).wf(),
            count <= old(self)@.len(),
            count <= old(pkg)@.len(),
            forall|j: int| 0 <= j < count ==> (#[trigger] old(pkg)@[j]).typ() == old(self)@[old(self)@.len() - count + j].typ(),
        ensures
            final(self).wf(),
            final(self).capacity() == old(self).capacity(),
            final(self)@ == old(self)@.take(old(self)@.len() - count),
            final(pkg)@.len() == old(pkg)@.len(),
            forall|j: int| 0 <= j < count ==> final(pkg)@[j] == old(self)@[old(self)@.len() - count
                + j],
            forall|j: int| count <= j < old(pkg)@.len() ==> final(pkg)@[j] == old(pkg)@[j],
    {
        proof {
            self.lemma_view_len();
        }
        let ghost n0 = old(self)@.len();
        let mut i: usize = 0;
        while i < count
            invariant
                i <= count,
                self.wf(),
                self.capacity() == old(self).capacity(),
                count <= n0 == old(self)@.len(),
                count <= old(pkg)@.len(),
                self@ =~= old(self)@.take(n0 - i),
                pkg@.len() == old(pkg)@.len(),
                forall|j: int| count - i <= j < count ==> pkg@[j] == old(self)@[n0 - count + j],
                forall|j: int|
                    (0 <= j < count - i || count <= j < old(pkg)@.len()) ==> pkg@[j] == old(pkg)@[j],
                forall|j: int| 0 <= j < count ==> (#[trigger] old(pkg)@[j]).typ() == old(self)@[n0
                    - count + j].typ(),
            decreases count - i,
        {
            let var_index = count - 1 - i;
            let t = pkg.var(var_index).get_type();
            proof {
                assert(self@.last() == old(self)@[n0 - i - 1]);
                assert(pkg@[var_index as int] == old(pkg)@[var_index as int]);
            }
            let v = self.pop_with_type(t);
            pkg.set_var(var_index, v);
            proof {
                assert(self@ =~= old(self)@.take(n0 - i - 1));
            }
            i = i + 1;
        }
    }
}

} // verus!
