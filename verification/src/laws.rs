//! The laws the execution core obeys, stated over the same spec functions and
//! views that the executable functions' contracts use, and proved once and
//! for all.

use vstd::prelude::*;
use vstd::arithmetic::div_mod::lemma_mod_division_less_than_divisor;
use crate::fault::Fault;
use crate::value::{
    Value, ValueType, is_int_tag, t_mod, encode, decode, lemma_encode_val, lemma_decode_val,
};
use crate::arith::{Opcode, binop_bits, binop_vals, wrap};
use crate::objects::{Objects, objs_same, copy_result, copy_effect};

verus! {

/// Law: for every integer tag `t` and values `a`, `b` of that tag, pushing
/// `a`, pushing `b`, adding under `t` and popping with `t` hands back exactly
/// the tag's native wrapping sum — an 8-bit tag wraps at 256, a 64-bit one at
/// two to the 64 — and leaves the stack as it was.
///
/// `push` appends to the view, `Stack::add` replaces the two top entries by
/// `binop_vals(Opcode::Add, ..)`, and `pop_with_type` returns the view's last
/// entry; this lemma ties those three contract forms together and pins the
/// added value to `wrap(t, a + b)`.
pub proof fn lemma_push_add_pop(t: ValueType, a: Value, b: Value, v0: Seq<Value>)
    requires
        is_int_tag(t),
        a.typ() == t,
        b.typ() == t,
    ensures
        ({
            let v2 = v0.push(a).push(b);
            let sum = binop_vals(Opcode::Add, t, a, b);
            &&& sum matches Ok(c) && c.typ() == t && c.as_int() == wrap(
                t,
                a.as_int() + b.as_int(),
            )
            &&& v2.drop_last().update(v2.len() - 2, sum->Ok_0) == v0.push(sum->Ok_0)
            &&& v0.push(sum->Ok_0).last() == sum->Ok_0
            &&& v0.push(sum->Ok_0).drop_last() == v0
        }),
{
    let v2 = v0.push(a).push(b);
    lemma_encode_val(a);
    lemma_encode_val(b);
    let m = t_mod(t);
    let bits = ((a.as_int() + b.as_int()) % m) as u64;
    lemma_mod_division_less_than_divisor(a.as_int() + b.as_int(), m);
    assert(binop_bits(Opcode::Add, t, encode(a), encode(b)) == Ok::<u64, Fault>(bits));
    lemma_decode_val(t, bits);
    let c = decode(t, bits);
    assert(c.as_int() == wrap(t, a.as_int() + b.as_int()));
    assert(v2.drop_last().update(v2.len() - 2, c) =~= v0.push(c));
    assert(v0.push(c).drop_last() =~= v0);
}

/// Law: push/pop is a stack discipline. After the values of `xs` are pushed
/// in order onto a stack holding `v0`, the pops come back in reverse order:
/// with `i + 1` of them still on the stack, the next pop returns `xs[i]` and
/// leaves `v0` with the first `i` of them.
///
/// `push` makes the view `v0 + xs.take(i + 1)` step by step, and
/// `pop_with_type` returns the view's last entry and drops it; this holds for
/// the copyable and the reference category alike, since both contracts speak
/// of the same view.
pub proof fn lemma_stack_discipline(v0: Seq<Value>, xs: Seq<Value>, i: int)
    requires
        0 <= i < xs.len(),
    ensures
        (v0 + xs.take(i + 1)) == (v0 + xs.take(i)).push(xs[i]),
        (v0 + xs.take(i + 1)).last() == xs[i],
        (v0 + xs.take(i + 1)).drop_last() == v0 + xs.take(i),
{
    assert(v0 + xs.take(i + 1) =~= (v0 + xs.take(i)).push(xs[i]));
    assert((v0 + xs.take(i + 1)).drop_last() =~= v0 + xs.take(i));
}

/// The view and the values handed back by `n` successive single pops, in pop
/// order: each pop returns the view's last entry and drops it, exactly as
/// `pop_with_type`'s contract says of one pop.
pub open spec fn pop_n(v: Seq<Value>, n: nat) -> (Seq<Value>, Seq<Value>)
    decreases n,
{
    if n == 0 {
        (v, Seq::<Value>::empty())
    } else {
        let (rest, outs) = pop_n(v.drop_last(), (n - 1) as nat);
        (rest, Seq::<Value>::empty().push(v.last()) + outs)
    }
}

/// Law: push/pop is a stack discipline, for any number of values. Pushing
/// the values of `xs` in order onto a stack holding `v0` and then popping as
/// many times returns exactly the pushed values, newest first, and leaves the
/// stack holding `v0` again — for the copyable and the reference category
/// alike, since push and pop speak of one shared view.
pub proof fn lemma_stack_discipline_n(v0: Seq<Value>, xs: Seq<Value>)
    ensures
        pop_n(v0 + xs, xs.len()) == (v0, xs.reverse()),
    decreases xs.len(),
{
    if xs.len() == 0 {
        assert(v0 + xs =~= v0);
        assert(xs.reverse() =~= Seq::<Value>::empty());
    } else {
        assert((v0 + xs).drop_last() =~= v0 + xs.drop_last());
        lemma_stack_discipline_n(v0, xs.drop_last());
        assert(xs.reverse() =~= Seq::<Value>::empty().push(xs.last()) + xs.drop_last().reverse());
    }
}

/// Law (alias semantics): for the alias-semantics tags — slice, map,
/// pointer, interface, closure, and the shared string buffer — a
/// copy-semantics assignment hands back the value itself: both aliases carry
/// the same store key, so a mutation through either is visible through the
/// other; the store itself is untouched.
pub proof fn lemma_copy_alias_semantics(v: Value, o: Objects, n: Objects)
    requires
        v.typ() == ValueType::Slice || v.typ() == ValueType::GoMap || v.typ()
            == ValueType::Pointer || v.typ() == ValueType::Interface || v.typ()
            == ValueType::Closure || v.typ() == ValueType::Str,
        copy_effect(v, o, n),
    ensures
        copy_result(v, o) == Ok::<Value, Fault>(v),
        objs_same(o, n),
{
}

/// Law (value semantics): for an array or struct with a live key, a
/// copy-semantics assignment hands back a fresh key, distinct from the
/// source's, naming an equal payload; the source payload is untouched, and
/// overwriting either payload afterwards leaves the other exactly as it was.
pub proof fn lemma_copy_value_semantics(v: Value, o: Objects, n: Objects)
    requires
        copy_effect(v, o, n),
        (v matches Value::Array(k) && k < o.arrays@.len()) || (v matches Value::Struct(k) && k
            < o.structs@.len()),
    ensures
        v matches Value::Array(k) ==> {
            let k2 = o.arrays@.len() as int;
            &&& copy_result(v, o) == Ok::<Value, Fault>(Value::Array(k2 as usize))
            &&& k2 != k
            &&& n.arrays@[k2]@ == o.arrays@[k as int]@
            &&& n.arrays@[k as int] == o.arrays@[k as int]
            &&& forall|p: Vec<Value>| n.arrays@.update(k2, p)[k as int] == o.arrays@[k as int]
            &&& forall|p: Vec<Value>| n.arrays@.update(k as int, p)[k2] == n.arrays@[k2]
        },
        v matches Value::Struct(k) ==> {
            let k2 = o.structs@.len() as int;
            &&& copy_result(v, o) == Ok::<Value, Fault>(Value::Struct(k2 as usize))
            &&& k2 != k
            &&& n.structs@[k2]@ == o.structs@[k as int]@
            &&& n.structs@[k as int] == o.structs@[k as int]
            &&& forall|p: Vec<Value>| n.structs@.update(k2, p)[k as int] == o.structs@[k as int]
            &&& forall|p: Vec<Value>| n.structs@.update(k as int, p)[k2] == n.structs@[k2]
        },
{
}

} // verus!
