//! The object store: a key-indexed arena holding every heap-resident
//! composite payload (string buffers, sequence storage, field vectors,
//! associative containers, boxed targets, capture sets).
//!
//! Canonical values hold only small integer keys; the store exclusively owns
//! the payload data, so several values may alias one payload without raw
//! pointers. Keys are handed out on construction and are never reused or
//! reclaimed, so a key stays valid as long as any alias holds it. A dangling
//! key — one a well-formed program can never fabricate — is answered with a
//! `TypeMismatch` fault rather than a wrong payload.

use vstd::prelude::*;
use vstd::string::StringSliceAdditionalSpecFns;
use vstd::string::StrSliceExecFns;
use crate::fault::Fault;
use crate::value::{Value, ValueType, is_copyable, encode};
use crate::arith::{Rel, cmp_bits};

verus! {

/// One key/element pair of an associative payload.
#[derive(Clone, Copy, Debug, PartialEq, Eq, Structural)]
pub struct MapEntry {
    pub key: Value,
    pub val: Value,
}

/// An associative payload: its element type's zero value, and its entries.
///
/// Entries are append-only and the newest binding of a key wins, so an
/// insertion never moves older entries.
#[derive(Debug)]
pub struct MapObj {
    /// The zero value of the map's element type, returned on a missed read.
    pub zero: Value,
    pub entries: Vec<MapEntry>,
}

/// The arena of composite payloads, one growable table per category.
#[derive(Debug)]
pub struct Objects {
    /// Immutable shared byte buffers backing string values.
    pub strs: Vec<Vec<u8>>,
    /// Sequence payloads of value-semantics arrays.
    pub arrays: Vec<Vec<Value>>,
    /// Field vectors of value-semantics structs.
    pub structs: Vec<Vec<Value>>,
    /// Sequence payloads of alias-semantics slices.
    pub slices: Vec<Vec<Value>>,
    /// Capture sets of closures.
    pub closures: Vec<Vec<Value>>,
    /// Boxed targets of pointers.
    pub boxed: Vec<Value>,
    /// Boxed underlying values of interfaces.
    pub ifaces: Vec<Value>,
    /// Boxed underlying values of named-type wrappers.
    pub named: Vec<Value>,
    /// Associative payloads of maps.
    pub maps: Vec<MapObj>,
}

/// Two stores hold the same payloads.
pub open spec fn objs_same(a: Objects, b: Objects) -> bool {
    &&& a.strs@ == b.strs@
    &&& a.arrays@ == b.arrays@
    &&& a.structs@ == b.structs@
    &&& a.slices@ == b.slices@
    &&& a.closures@ == b.closures@
    &&& a.boxed@ == b.boxed@
    &&& a.ifaces@ == b.ifaces@
    &&& a.named@ == b.named@
    &&& a.maps@ == b.maps@
}

/// The fuel that bounds structural-equality recursion: more than the number
/// of payloads a descent without a cycle could ever visit.
pub open spec fn eq_fuel(objs: Objects) -> nat {
    objs.arrays@.len() + objs.structs@.len() + objs.named@.len() + 1
}

/// Whether structural equality holds between two values, under the source
/// language's comparability rules, or the fault the comparison raises.
///
/// Scalars compare by payload; strings lexically by their shared buffers;
/// pointers, interfaces and metadata by key identity; arrays and structs
/// structurally, element by element; a named wrapper by its underlying value.
/// Values of different tags are unequal. Slices, maps, closures, and
/// floating-point or complex payloads are not comparable; exhausted fuel
/// (a cyclic descent no source program can build) is likewise unsupported.
pub open spec fn value_eq_spec(a: Value, b: Value, objs: Objects, fuel: nat) -> Result<
    bool,
    Fault,
>
    decreases fuel, 0int, 0int,
{
    match (a, b) {
        (Value::Bool(x), Value::Bool(y)) => Ok(x == y),
        (Value::Int(x), Value::Int(y)) => Ok(x == y),
        (Value::Int8(x), Value::Int8(y)) => Ok(x == y),
        (Value::Int16(x), Value::Int16(y)) => Ok(x == y),
        (Value::Int32(x), Value::Int32(y)) => Ok(x == y),
        (Value::Int64(x), Value::Int64(y)) => Ok(x == y),
        (Value::Uint(x), Value::Uint(y)) => Ok(x == y),
        (Value::Uint8(x), Value::Uint8(y)) => Ok(x == y),
        (Value::Uint16(x), Value::Uint16(y)) => Ok(x == y),
        (Value::Uint32(x), Value::Uint32(y)) => Ok(x == y),
        (Value::Uint64(x), Value::Uint64(y)) => Ok(x == y),
        (Value::Float32(_), Value::Float32(_)) => Err(Fault::UnsupportedOperation),
        (Value::Float64(_), Value::Float64(_)) => Err(Fault::UnsupportedOperation),
        (Value::Complex64(_, _), Value::Complex64(_, _)) => Err(Fault::UnsupportedOperation),
        (Value::Complex128(_, _), Value::Complex128(_, _)) => Err(Fault::UnsupportedOperation),
        (Value::Str(k1), Value::Str(k2)) => if k1 < objs.strs@.len() && k2 < objs.strs@.len() {
            Ok(objs.strs@[k1 as int]@ == objs.strs@[k2 as int]@)
        } else {
            Err(Fault::TypeMismatch)
        },
        (Value::Pointer(k1), Value::Pointer(k2)) => Ok(k1 == k2),
        (Value::Interface(k1), Value::Interface(k2)) => Ok(k1 == k2),
        (Value::Metadata(k1), Value::Metadata(k2)) => Ok(k1 == k2),
        (Value::Array(k1), Value::Array(k2)) => if fuel == 0 {
            Err(Fault::UnsupportedOperation)
        } else if k1 < objs.arrays@.len() && k2 < objs.arrays@.len() {
            values_eq_list(
                objs.arrays@[k1 as int]@,
                objs.arrays@[k2 as int]@,
                objs,
                (fuel - 1) as nat,
            )
        } else {
            Err(Fault::TypeMismatch)
        },
        (Value::Struct(k1), Value::Struct(k2)) => if fuel == 0 {
            Err(Fault::UnsupportedOperation)
        } else if k1 < objs.structs@.len() && k2 < objs.structs@.len() {
            values_eq_list(
                objs.structs@[k1 as int]@,
                objs.structs@[k2 as int]@,
                objs,
                (fuel - 1) as nat,
            )
        } else {
            Err(Fault::TypeMismatch)
        },
        (Value::Named(k1), Value::Named(k2)) => if fuel == 0 {
            Err(Fault::UnsupportedOperation)
        } else if k1 < objs.named@.len() && k2 < objs.named@.len() {
            value_eq_spec(
                objs.named@[k1 as int],
                objs.named@[k2 as int],
                objs,
                (fuel - 1) as nat,
            )
        } else {
            Err(Fault::TypeMismatch)
        },
        (Value::Slice(_), Value::Slice(_)) => Err(Fault::UnsupportedOperation),
        (Value::GoMap(_), Value::GoMap(_)) => Err(Fault::UnsupportedOperation),
        (Value::Closure(_), Value::Closure(_)) => Err(Fault::UnsupportedOperation),
        (Value::Nil, Value::Nil) => Ok(true),
        _ => Ok(false),
    }
}

/// Elementwise structural equality of two payload sequences.
pub open spec fn values_eq_list(xs: Seq<Value>, ys: Seq<Value>, objs: Objects, fuel: nat) -> Result<
    bool,
    Fault,
>
    decreases fuel, 1int, xs.len(),
{
    if xs.len() != ys.len() {
        Ok(false)
    } else if xs.len() == 0 {
        Ok(true)
    } else {
        match value_eq_spec(xs[0], ys[0], objs, fuel) {
            Err(f) => Err(f),
            Ok(false) => Ok(false),
            Ok(true) => values_eq_list(xs.drop_first(), ys.drop_first(), objs, fuel),
        }
    }
}

/// Structural equality of two values against a store, bounded by `fuel`.
pub fn value_eq(a: &Value, b: &Value, objs: &Objects, fuel: u128) -> (r: Result<bool, Fault>)
    ensures
        r == value_eq_spec(*a, *b, *objs, fuel as nat),
    decreases fuel, 0int, 0int,
{
    match (a, b) {
        (Value::Bool(x), Value::Bool(y)) => Ok(x == y),
        (Value::Int(x), Value::Int(y)) => Ok(x == y),
        (Value::Int8(x), Value::Int8(y)) => Ok(x == y),
        (Value::Int16(x), Value::Int16(y)) => Ok(x == y),
        (Value::Int32(x), Value::Int32(y)) => Ok(x == y),
        (Value::Int64(x), Value::Int64(y)) => Ok(x == y),
        (Value::Uint(x), Value::Uint(y)) => Ok(x == y),
        (Value::Uint8(x), Value::Uint8(y)) => Ok(x == y),
        (Value::Uint16(x), Value::Uint16(y)) => Ok(x == y),
        (Value::Uint32(x), Value::Uint32(y)) => Ok(x == y),
        (Value::Uint64(x), Value::Uint64(y)) => Ok(x == y),
        (Value::Float32(_), Value::Float32(_)) => Err(Fault::UnsupportedOperation),
        (Value::Float64(_), Value::Float64(_)) => Err(Fault::UnsupportedOperation),
        (Value::Complex64(_, _), Value::Complex64(_, _)) => Err(Fault::UnsupportedOperation),
        (Value::Complex128(_, _), Value::Complex128(_, _)) => Err(Fault::UnsupportedOperation),
        (Value::Str(k1), Value::Str(k2)) => if *k1 < objs.strs.len() && *k2 < objs.strs.len() {
            Ok(bytes_eq(&objs.strs[*k1], &objs.strs[*k2]))
        } else {
            Err(Fault::TypeMismatch)
        },
        (Value::Pointer(k1), Value::Pointer(k2)) => Ok(k1 == k2),
        (Value::Interface(k1), Value::Interface(k2)) => Ok(k1 == k2),
        (Value::Metadata(k1), Value::Metadata(k2)) => Ok(k1 == k2),
        (Value::Array(k1), Value::Array(k2)) => if fuel == 0 {
            Err(Fault::UnsupportedOperation)
        } else if *k1 < objs.arrays.len() && *k2 < objs.arrays.len() {
            proof {
                assert(objs.arrays@[*k1 as int]@.skip(0) =~= objs.arrays@[*k1 as int]@);
                assert(objs.arrays@[*k2 as int]@.skip(0) =~= objs.arrays@[*k2 as int]@);
            }
            values_eq_from(&objs.arrays[*k1], &objs.arrays[*k2], 0, objs, fuel - 1)
        } else {
            Err(Fault::TypeMismatch)
        },
        (Value::Struct(k1), Value::Struct(k2)) => if fuel == 0 {
            Err(Fault::UnsupportedOperation)
        } else if *k1 < objs.structs.len() && *k2 < objs.structs.len() {
            proof {
                assert(objs.structs@[*k1 as int]@.skip(0) =~= objs.structs@[*k1 as int]@);
                assert(objs.structs@[*k2 as int]@.skip(0) =~= objs.structs@[*k2 as int]@);
            }
            values_eq_from(&objs.structs[*k1], &objs.structs[*k2], 0, objs, fuel - 1)
        } else {
            Err(Fault::TypeMismatch)
        },
        (Value::Named(k1), Value::Named(k2)) => if fuel == 0 {
            Err(Fault::UnsupportedOperation)
        } else if *k1 < objs.named.len() && *k2 < objs.named.len() {
            let x = objs.named[*k1];
            let y = objs.named[*k2];
            value_eq(&x, &y, objs, fuel - 1)
        } else {
            Err(Fault::TypeMismatch)
        },
        (Value::Slice(_), Value::Slice(_)) => Err(Fault::UnsupportedOperation),
        (Value::GoMap(_), Value::GoMap(_)) => Err(Fault::UnsupportedOperation),
        (Value::Closure(_), Value::Closure(_)) => Err(Fault::UnsupportedOperation),
        (Value::Nil, Value::Nil) => Ok(true),
        _ => Ok(false),
    }
}

/// Elementwise structural equality of two payload vectors, from slot `i` on.
fn values_eq_from(xs: &Vec<Value>, ys: &Vec<Value>, i: usize, objs: &Objects, fuel: u128) -> (r:
    Result<bool, Fault>)
    requires
        i <= xs@.len(),
        i <= ys@.len(),
    ensures
        r == values_eq_list(xs@.skip(i as int), ys@.skip(i as int), *objs, fuel as nat),
    decreases fuel, 1int, xs@.len() - i,
{
    if xs.len() - i != ys.len() - i {
        Ok(false)
    } else if i == xs.len() {
        Ok(true)
    } else {
        proof {
            assert(xs@.skip(i as int).drop_first() =~= xs@.skip(i as int + 1));
            assert(ys@.skip(i as int).drop_first() =~= ys@.skip(i as int + 1));
        }
        match value_eq(&xs[i], &ys[i], objs, fuel) {
            Err(f) => Err(f),
            Ok(false) => Ok(false),
            Ok(true) => values_eq_from(xs, ys, i + 1, objs, fuel),
        }
    }
}

/// Lexicographic (bytewise) order on string buffers.
pub open spec fn bytes_lt(a: Seq<u8>, b: Seq<u8>) -> bool
    decreases a.len(),
{
    if b.len() == 0 {
        false
    } else if a.len() == 0 {
        true
    } else if a[0] != b[0] {
        a[0] < b[0]
    } else {
        bytes_lt(a.drop_first(), b.drop_first())
    }
}

/// Whether two byte buffers hold the same bytes.
pub fn bytes_eq(a: &Vec<u8>, b: &Vec<u8>) -> (r: bool)
    ensures
        r == (a@ == b@),
{
    if a.len() != b.len() {
        proof {
            assert(a@ != b@);
        }
        return false;
    }
    let n = a.len();
    let mut i: usize = 0;
    while i < n
        invariant
            i <= n,
            n == a@.len() == b@.len(),
            forall|j: int| 0 <= j < i ==> a@[j] == b@[j],
        decreases n - i,
    {
        if a[i] != b[i] {
            return false;
        }
        i = i + 1;
    }
    proof {
        assert(a@ =~= b@);
    }
    true
}

/// Whether buffer `a` is lexicographically below buffer `b`, from slot `i`.
pub fn bytes_lt_from(a: &Vec<u8>, b: &Vec<u8>, i: usize) -> (r: bool)
    requires
        i <= a@.len(),
        i <= b@.len(),
    ensures
        r == bytes_lt(a@.skip(i as int), b@.skip(i as int)),
    decreases a@.len() - i,
{
    if i == b.len() {
        false
    } else if i == a.len() {
        true
    } else if a[i] != b[i] {
        a[i] < b[i]
    } else {
        proof {
            assert(a@.skip(i as int).drop_first() =~= a@.skip(i as int + 1));
            assert(b@.skip(i as int).drop_first() =~= b@.skip(i as int + 1));
        }
        bytes_lt_from(a, b, i + 1)
    }
}

/// The element bound to `key` in an entry list, newest binding first, or the
/// fault its key comparisons raise.
pub open spec fn map_find_spec(
    entries: Seq<MapEntry>,
    key: Value,
    objs: Objects,
    fuel: nat,
) -> Result<Option<Value>, Fault>
    decreases entries.len(),
{
    if entries.len() == 0 {
        Ok(None)
    } else {
        match value_eq_spec(entries.last().key, key, objs, fuel) {
            Err(f) => Err(f),
            Ok(true) => Ok(Some(entries.last().val)),
            Ok(false) => map_find_spec(entries.drop_last(), key, objs, fuel),
        }
    }
}

/// Copy an element vector, slot by slot.
fn clone_values(v: &Vec<Value>) -> (r: Vec<Value>)
    ensures
        r@ == v@,
{
    let mut out: Vec<Value> = Vec::new();
    let n = v.len();
    let mut i: usize = 0;
    while i < n
        invariant
            i <= n,
            n == v@.len(),
            out@ =~= v@.take(i as int),
        decreases n - i,
    {
        out.push(v[i]);
        proof {
            assert(out@ =~= v@.take(i as int + 1));
        }
        i = i + 1;
    }
    proof {
        assert(v@.take(n as int) =~= v@);
    }
    out
}

/// Append the bytes of `src` onto `dst`.
fn append_bytes(dst: &mut Vec<u8>, src: &Vec<u8>)
    ensures
        final(dst)@ == old(dst)@ + src@,
{
    let n = src.len();
    let mut i: usize = 0;
    while i < n
        invariant
            i <= n,
            n == src@.len(),
            dst@ =~= old(dst)@ + src@.take(i as int),
        decreases n - i,
    {
        dst.push(src[i]);
        proof {
            assert(old(dst)@ + src@.take(i as int + 1) =~= (old(dst)@ + src@.take(i as int)).push(
                src@[i as int],
            ));
        }
        i = i + 1;
    }
    proof {
        assert(old(dst)@ + src@.take(n as int) =~= old(dst)@ + src@);
    }
}

impl Objects {
    /// An empty object store.
    pub fn new() -> (r: Objects)
        ensures
            r.strs@.len() == 0,
            r.arrays@.len() == 0,
            r.structs@.len() == 0,
            r.slices@.len() == 0,
            r.closures@.len() == 0,
            r.boxed@.len() == 0,
            r.ifaces@.len() == 0,
            r.named@.len() == 0,
            r.maps@.len() == 0,
    {
        Objects {
            strs: Vec::new(),
            arrays: Vec::new(),
            structs: Vec::new(),
            slices: Vec::new(),
            closures: Vec::new(),
            boxed: Vec::new(),
            ifaces: Vec::new(),
            named: Vec::new(),
            maps: Vec::new(),
        }
    }

    /// The fuel bound for structural-equality descents over this store.
    pub fn fuel(&self) -> (f: u128)
        ensures
            f as nat == eq_fuel(*self),
    {
        self.arrays.len() as u128 + self.structs.len() as u128 + self.named.len() as u128 + 1
    }

    /// Read element `i` of the sequence payload under slice key `k`.
    pub fn slice_get(&self, k: usize, i: usize) -> (r: Result<Value, Fault>)
        ensures
            r == (if k < self.slices@.len() {
                if i < self.slices@[k as int]@.len() {
                    Ok::<Value, Fault>(self.slices@[k as int]@[i as int])
                } else {
                    Err::<Value, Fault>(Fault::Bounds)
                }
            } else {
                Err::<Value, Fault>(Fault::TypeMismatch)
            }),
    {
        if k < self.slices.len() {
            let payload = &self.slices[k];
            if i < payload.len() {
                Ok(payload[i])
            } else {
                Err(Fault::Bounds)
            }
        } else {
            Err(Fault::TypeMismatch)
        }
    }

    /// Write element `i` of the sequence payload under slice key `k`.
    pub fn set_slice_elem(&mut self, k: usize, i: usize, v: Value) -> (r: Result<(), Fault>)
        ensures
            if k < old(self).slices@.len() {
                if i < old(self).slices@[k as int]@.len() {
                    r == Ok::<(), Fault>(()) && final(self).slices@ == old(self).slices@.update(
                        k as int,
                        final(self).slices@[k as int],
                    ) && final(self).slices@[k as int]@ == old(self).slices@[k as int]@.update(
                        i as int,
                        v,
                    )
                } else {
                    r == Err::<(), Fault>(Fault::Bounds) && objs_same(*old(self), *final(self))
                }
            } else {
                r == Err::<(), Fault>(Fault::TypeMismatch) && objs_same(*old(self), *final(self))
            },
            final(self).strs@ == old(self).strs@,
            final(self).arrays@ == old(self).arrays@,
            final(self).structs@ == old(self).structs@,
            final(self).closures@ == old(self).closures@,
            final(self).boxed@ == old(self).boxed@,
            final(self).ifaces@ == old(self).ifaces@,
            final(self).named@ == old(self).named@,
            final(self).maps@ == old(self).maps@,
            final(self).slices@.len() == old(self).slices@.len(),
    {
        if k < self.slices.len() {
            if i < self.slices[k].len() {
                self.slices[k][i] = v;
                Ok(())
            } else {
                Err(Fault::Bounds)
            }
        } else {
            Err(Fault::TypeMismatch)
        }
    }

    /// Read element `i` of the sequence payload under array key `k`.
    pub fn array_get(&self, k: usize, i: usize) -> (r: Result<Value, Fault>)
        ensures
            r == (if k < self.arrays@.len() {
                if i < self.arrays@[k as int]@.len() {
                    Ok::<Value, Fault>(self.arrays@[k as int]@[i as int])
                } else {
                    Err::<Value, Fault>(Fault::Bounds)
                }
            } else {
                Err::<Value, Fault>(Fault::TypeMismatch)
            }),
    {
        if k < self.arrays.len() {
            let payload = &self.arrays[k];
            if i < payload.len() {
                Ok(payload[i])
            } else {
                Err(Fault::Bounds)
            }
        } else {
            Err(Fault::TypeMismatch)
        }
    }

    /// Write element `i` of the sequence payload under array key `k`.
    pub fn set_array_elem(&mut self, k: usize, i: usize, v: Value) -> (r: Result<(), Fault>)
        ensures
            if k < old(self).arrays@.len() {
                if i < old(self).arrays@[k as int]@.len() {
                    r == Ok::<(), Fault>(()) && final(self).arrays@ == old(self).arrays@.update(
                        k as int,
                        final(self).arrays@[k as int],
                    ) && final(self).arrays@[k as int]@ == old(self).arrays@[k as int]@.update(
                        i as int,
                        v,
                    )
                } else {
                    r == Err::<(), Fault>(Fault::Bounds) && objs_same(*old(self), *final(self))
                }
            } else {
                r == Err::<(), Fault>(Fault::TypeMismatch) && objs_same(*old(self), *final(self))
            },
            final(self).strs@ == old(self).strs@,
            final(self).structs@ == old(self).structs@,
            final(self).slices@ == old(self).slices@,
            final(self).closures@ == old(self).closures@,
            final(self).boxed@ == old(self).boxed@,
            final(self).ifaces@ == old(self).ifaces@,
            final(self).named@ == old(self).named@,
            final(self).maps@ == old(self).maps@,
            final(self).arrays@.len() == old(self).arrays@.len(),
    {
        if k < self.arrays.len() {
            if i < self.arrays[k].len() {
                self.arrays[k][i] = v;
                Ok(())
            } else {
                Err(Fault::Bounds)
            }
        } else {
            Err(Fault::TypeMismatch)
        }
    }

    /// Read field `i` of the field vector under struct key `k`.
    pub fn struct_get(&self, k: usize, i: usize) -> (r: Result<Value, Fault>)
        ensures
            r == (if k < self.structs@.len() {
                if i < self.structs@[k as int]@.len() {
                    Ok::<Value, Fault>(self.structs@[k as int]@[i as int])
                } else {
                    Err::<Value, Fault>(Fault::Bounds)
                }
            } else {
                Err::<Value, Fault>(Fault::TypeMismatch)
            }),
    {
        if k < self.structs.len() {
            let payload = &self.structs[k];
            if i < payload.len() {
                Ok(payload[i])
            } else {
                Err(Fault::Bounds)
            }
        } else {
            Err(Fault::TypeMismatch)
        }
    }

    /// Write field `i` of the field vector under struct key `k`.
    pub fn set_struct_field(&mut self, k: usize, i: usize, v: Value) -> (r: Result<(), Fault>)
        ensures
            if k < old(self).structs@.len() {
                if i < old(self).structs@[k as int]@.len() {
                    r == Ok::<(), Fault>(()) && final(self).structs@ == old(self).structs@.update(
                        k as int,
                        final(self).structs@[k as int],
                    ) && final(self).structs@[k as int]@ == old(self).structs@[k as int]@.update(
                        i as int,
                        v,
                    )
                } else {
                    r == Err::<(), Fault>(Fault::Bounds) && objs_same(*old(self), *final(self))
                }
            } else {
                r == Err::<(), Fault>(Fault::TypeMismatch) && objs_same(*old(self), *final(self))
            },
            final(self).strs@ == old(self).strs@,
            final(self).arrays@ == old(self).arrays@,
            final(self).slices@ == old(self).slices@,
            final(self).closures@ == old(self).closures@,
            final(self).boxed@ == old(self).boxed@,
            final(self).ifaces@ == old(self).ifaces@,
            final(self).named@ == old(self).named@,
            final(self).maps@ == old(self).maps@,
            final(self).structs@.len() == old(self).structs@.len(),
    {
        if k < self.structs.len() {
            if i < self.structs[k].len() {
                self.structs[k][i] = v;
                Ok(())
            } else {
                Err(Fault::Bounds)
            }
        } else {
            Err(Fault::TypeMismatch)
        }
    }

    /// Allocate an associative payload with the element type's zero value;
    /// the new map value aliases it.
    pub fn new_map(&mut self, zero: Value) -> (r: Value)
        ensures
            r == Value::GoMap(old(self).maps@.len() as usize),
            final(self).maps@.len() == old(self).maps@.len() + 1,
            final(self).maps@ == old(self).maps@.push(final(self).maps@.last()),
            final(self).maps@.last().zero == zero,
            final(self).maps@.last().entries@ == Seq::<MapEntry>::empty(),
            final(self).strs@ == old(self).strs@,
            final(self).arrays@ == old(self).arrays@,
            final(self).structs@ == old(self).structs@,
            final(self).slices@ == old(self).slices@,
            final(self).closures@ == old(self).closures@,
            final(self).boxed@ == old(self).boxed@,
            final(self).ifaces@ == old(self).ifaces@,
            final(self).named@ == old(self).named@,
    {
        let k = self.maps.len();
        self.maps.push(MapObj { zero, entries: Vec::new() });
        Value::GoMap(k)
    }

    /// Bind `key` to `val` in the associative payload under map key `k`.
    /// The newest binding of a key wins on lookup.
    pub fn map_insert(&mut self, k: usize, key: Value, val: Value) -> (r: Result<(), Fault>)
        ensures
            if k < old(self).maps@.len() {
                r == Ok::<(), Fault>(()) && final(self).maps@ == old(self).maps@.update(
                    k as int,
                    final(self).maps@[k as int],
                ) && final(self).maps@[k as int].zero == old(self).maps@[k as int].zero && final(self).maps@[k as int].entries@ == old(self).maps@[k as int].entries@.push(
                    MapEntry { key, val },
                )
            } else {
                r == Err::<(), Fault>(Fault::TypeMismatch) && objs_same(*old(self), *final(self))
            },
            final(self).strs@ == old(self).strs@,
            final(self).arrays@ == old(self).arrays@,
            final(self).structs@ == old(self).structs@,
            final(self).slices@ == old(self).slices@,
            final(self).closures@ == old(self).closures@,
            final(self).boxed@ == old(self).boxed@,
            final(self).ifaces@ == old(self).ifaces@,
            final(self).named@ == old(self).named@,
            final(self).maps@.len() == old(self).maps@.len(),
    {
        if k < self.maps.len() {
            self.maps[k].entries.push(MapEntry { key, val });
            Ok(())
        } else {
            Err(Fault::TypeMismatch)
        }
    }

    /// Look `key` up in the associative payload under map key `k`: the bound
    /// element and `true`, or the map's zero value and `false` on a miss.
    pub fn map_get(&self, k: usize, key: Value) -> (r: Result<(Value, bool), Fault>)
        ensures
            if k < self.maps@.len() {
                match map_find_spec(self.maps@[k as int].entries@, key, *self, eq_fuel(*self)) {
                    Ok(Some(v)) => r == Ok::<(Value, bool), Fault>((v, true)),
                    Ok(None) => r == Ok::<(Value, bool), Fault>(
                        (self.maps@[k as int].zero, false),
                    ),
                    Err(f) => r == Err::<(Value, bool), Fault>(f),
                }
            } else {
                r == Err::<(Value, bool), Fault>(Fault::TypeMismatch)
            },
    {
        if k >= self.maps.len() {
            return Err(Fault::TypeMismatch);
        }
        let fuel = self.fuel();
        let zero = self.maps[k].zero;
        let mut i: usize = self.maps[k].entries.len();
        proof {
            assert(self.maps@[k as int].entries@.take(i as int) =~= self.maps@[
                k as int
            ].entries@);
        }
        while i > 0
            invariant
                i <= self.maps@[k as int].entries@.len(),
                k < self.maps@.len(),
                map_find_spec(
                    self.maps@[k as int].entries@,
                    key,
                    *self,
                    eq_fuel(*self),
                ) == map_find_spec(
                    self.maps@[k as int].entries@.take(i as int),
                    key,
                    *self,
                    eq_fuel(*self),
                ),
                fuel as nat == eq_fuel(*self),
                zero == self.maps@[k as int].zero,
            decreases i,
        {
            let e = self.maps[k].entries[i - 1];
            proof {
                assert(self.maps@[k as int].entries@.take(i as int).last() == e);
                assert(self.maps@[k as int].entries@.take(i as int).drop_last() =~= self.maps@[
                    k as int
                ].entries@.take(i as int - 1));
            }
            match value_eq(&e.key, &key, self, fuel) {
                Err(f) => {
                    return Err(f);
                },
                Ok(true) => {
                    return Ok((e.val, true));
                },
                Ok(false) => {
                    i = i - 1;
                },
            }
        }
        proof {
            assert(self.maps@[k as int].entries@.take(0) =~= Seq::<MapEntry>::empty());
        }
        Ok((zero, false))
    }
}

impl Value {
    /// Allocate an immutable shared buffer holding the string's bytes; the
    /// new string value aliases it.
    pub fn new_str(s: String, objs: &mut Objects) -> (r: Value)
        ensures
            r == Value::Str(old(objs).strs@.len() as usize),
            final(objs).strs@.len() == old(objs).strs@.len() + 1,
            final(objs).strs@ == old(objs).strs@.push(final(objs).strs@.last()),
            final(objs).strs@.last()@ == vstd::utf8::encode_utf8(s@),
            final(objs).arrays@ == old(objs).arrays@,
            final(objs).structs@ == old(objs).structs@,
            final(objs).slices@ == old(objs).slices@,
            final(objs).closures@ == old(objs).closures@,
            final(objs).boxed@ == old(objs).boxed@,
            final(objs).ifaces@ == old(objs).ifaces@,
            final(objs).named@ == old(objs).named@,
            final(objs).maps@ == old(objs).maps@,
    {
        let bytes = s.as_str().as_bytes_vec();
        let k = objs.strs.len();
        objs.strs.push(bytes);
        Value::Str(k)
    }

    /// Allocate a string buffer directly from bytes; the new string value
    /// aliases it.
    pub fn str_from_bytes(bytes: Vec<u8>, objs: &mut Objects) -> (r: Value)
        ensures
            r == Value::Str(old(objs).strs@.len() as usize),
            final(objs).strs@ == old(objs).strs@.push(bytes),
            final(objs).arrays@ == old(objs).arrays@,
            final(objs).structs@ == old(objs).structs@,
            final(objs).slices@ == old(objs).slices@,
            final(objs).closures@ == old(objs).closures@,
            final(objs).boxed@ == old(objs).boxed@,
            final(objs).ifaces@ == old(objs).ifaces@,
            final(objs).named@ == old(objs).named@,
            final(objs).maps@ == old(objs).maps@,
    {
        let k = objs.strs.len();
        objs.strs.push(bytes);
        Value::Str(k)
    }

    /// Allocate a sequence payload in the store; the new slice value aliases
    /// it.
    pub fn with_slice_val(v: Vec<Value>, objs: &mut Objects) -> (r: Value)
        ensures
            r == Value::Slice(old(objs).slices@.len() as usize),
            final(objs).slices@ == old(objs).slices@.push(v),
            final(objs).strs@ == old(objs).strs@,
            final(objs).arrays@ == old(objs).arrays@,
            final(objs).structs@ == old(objs).structs@,
            final(objs).closures@ == old(objs).closures@,
            final(objs).boxed@ == old(objs).boxed@,
            final(objs).ifaces@ == old(objs).ifaces@,
            final(objs).named@ == old(objs).named@,
            final(objs).maps@ == old(objs).maps@,
    {
        let k = objs.slices.len();
        objs.slices.push(v);
        Value::Slice(k)
    }

    /// Allocate a value-semantics sequence payload; the new array value owns
    /// it.
    pub fn new_array(v: Vec<Value>, objs: &mut Objects) -> (r: Value)
        ensures
            r == Value::Array(old(objs).arrays@.len() as usize),
            final(objs).arrays@ == old(objs).arrays@.push(v),
            final(objs).strs@ == old(objs).strs@,
            final(objs).structs@ == old(objs).structs@,
            final(objs).slices@ == old(objs).slices@,
            final(objs).closures@ == old(objs).closures@,
            final(objs).boxed@ == old(objs).boxed@,
            final(objs).ifaces@ == old(objs).ifaces@,
            final(objs).named@ == old(objs).named@,
            final(objs).maps@ == old(objs).maps@,
    {
        let k = objs.arrays.len();
        objs.arrays.push(v);
        Value::Array(k)
    }

    /// Allocate a value-semantics field vector; the new struct value owns it.
    pub fn new_struct(v: Vec<Value>, objs: &mut Objects) -> (r: Value)
        ensures
            r == Value::Struct(old(objs).structs@.len() as usize),
            final(objs).structs@ == old(objs).structs@.push(v),
            final(objs).strs@ == old(objs).strs@,
            final(objs).arrays@ == old(objs).arrays@,
            final(objs).slices@ == old(objs).slices@,
            final(objs).closures@ == old(objs).closures@,
            final(objs).boxed@ == old(objs).boxed@,
            final(objs).ifaces@ == old(objs).ifaces@,
            final(objs).named@ == old(objs).named@,
            final(objs).maps@ == old(objs).maps@,
    {
        let k = objs.structs.len();
        objs.structs.push(v);
        Value::Struct(k)
    }

    /// Box a target value; the new pointer value aliases the box.
    pub fn new_pointer(target: Value, objs: &mut Objects) -> (r: Value)
        ensures
            r == Value::Pointer(old(objs).boxed@.len() as usize),
            final(objs).boxed@ == old(objs).boxed@.push(target),
            final(objs).strs@ == old(objs).strs@,
            final(objs).arrays@ == old(objs).arrays@,
            final(objs).structs@ == old(objs).structs@,
            final(objs).slices@ == old(objs).slices@,
            final(objs).closures@ == old(objs).closures@,
            final(objs).ifaces@ == old(objs).ifaces@,
            final(objs).named@ == old(objs).named@,
            final(objs).maps@ == old(objs).maps@,
    {
        let k = objs.boxed.len();
        objs.boxed.push(target);
        Value::Pointer(k)
    }

    /// Apply the tag's copy semantics to this value against the store: a
    /// shallow aliasing copy (the same value, sharing any key) for scalars
    /// and the alias-semantics tags, a duplicate of the arena payload under a
    /// fresh key for arrays and structs.
    pub fn copy_semantic(&self, objs: &mut Objects) -> (r: Result<Value, Fault>)
        ensures
            r == copy_result(*self, *old(objs)),
            copy_effect(*self, *old(objs), *final(objs)),
    {
        match self {
            Value::Array(k) => {
                if *k < objs.arrays.len() {
                    let payload = clone_values(&objs.arrays[*k]);
                    let k2 = objs.arrays.len();
                    objs.arrays.push(payload);
                    Ok(Value::Array(k2))
                } else {
                    Err(Fault::TypeMismatch)
                }
            },
            Value::Struct(k) => {
                if *k < objs.structs.len() {
                    let payload = clone_values(&objs.structs[*k]);
                    let k2 = objs.structs.len();
                    objs.structs.push(payload);
                    Ok(Value::Struct(k2))
                } else {
                    Err(Fault::TypeMismatch)
                }
            },
            _ => Ok(*self),
        }
    }

    /// Concatenate two string buffers into a newly allocated buffer; neither
    /// operand is touched.
    pub fn add_str(a: &Value, b: &Value, objs: &mut Objects) -> (r: Result<Value, Fault>)
        ensures
            r == concat_result(*a, *b, *old(objs)),
            concat_effect(*a, *b, *old(objs), *final(objs)),
    {
        match (a, b) {
            (Value::Str(k1), Value::Str(k2)) => {
                if *k1 < objs.strs.len() && *k2 < objs.strs.len() {
                    let mut out: Vec<u8> = Vec::new();
                    append_bytes(&mut out, &objs.strs[*k1]);
                    append_bytes(&mut out, &objs.strs[*k2]);
                    proof {
                        assert(out@ =~= objs.strs@[*k1 as int]@ + objs.strs@[*k2 as int]@);
                    }
                    let k = objs.strs.len();
                    objs.strs.push(out);
                    Ok(Value::Str(k))
                } else {
                    Err(Fault::TypeMismatch)
                }
            },
            _ => Err(Fault::TypeMismatch),
        }
    }
}

/// The value a copy-semantics assignment hands back: scalars and
/// alias-semantics tags yield the value itself (sharing any key); arrays and
/// structs yield a fresh key naming the duplicated payload; a dangling key is
/// a fault.
pub open spec fn copy_result(v: Value, objs: Objects) -> Result<Value, Fault> {
    match v {
        Value::Array(k) => if k < objs.arrays@.len() {
            Ok(Value::Array(objs.arrays@.len() as usize))
        } else {
            Err(Fault::TypeMismatch)
        },
        Value::Struct(k) => if k < objs.structs@.len() {
            Ok(Value::Struct(objs.structs@.len() as usize))
        } else {
            Err(Fault::TypeMismatch)
        },
        _ => Ok(v),
    }
}

/// How a copy-semantics assignment changes the store: a duplicated payload
/// appended under a fresh key for a valid array or struct, nothing otherwise.
pub open spec fn copy_effect(v: Value, o: Objects, n: Objects) -> bool {
    match v {
        Value::Array(k) => if k < o.arrays@.len() {
            &&& n.arrays@ == o.arrays@.push(n.arrays@.last())
            &&& n.arrays@.last()@ == o.arrays@[k as int]@
            &&& n.strs@ == o.strs@
            &&& n.structs@ == o.structs@
            &&& n.slices@ == o.slices@
            &&& n.closures@ == o.closures@
            &&& n.boxed@ == o.boxed@
            &&& n.ifaces@ == o.ifaces@
            &&& n.named@ == o.named@
            &&& n.maps@ == o.maps@
        } else {
            objs_same(o, n)
        },
        Value::Struct(k) => if k < o.structs@.len() {
            &&& n.structs@ == o.structs@.push(n.structs@.last())
            &&& n.structs@.last()@ == o.structs@[k as int]@
            &&& n.strs@ == o.strs@
            &&& n.arrays@ == o.arrays@
            &&& n.slices@ == o.slices@
            &&& n.closures@ == o.closures@
            &&& n.boxed@ == o.boxed@
            &&& n.ifaces@ == o.ifaces@
            &&& n.named@ == o.named@
            &&& n.maps@ == o.maps@
        } else {
            objs_same(o, n)
        },
        _ => objs_same(o, n),
    }
}

/// The value a string concatenation hands back: a fresh key naming the new
/// buffer; anything but two valid string operands is a fault.
pub open spec fn concat_result(a: Value, b: Value, objs: Objects) -> Result<Value, Fault> {
    match (a, b) {
        (Value::Str(k1), Value::Str(k2)) => if k1 < objs.strs@.len() && k2 < objs.strs@.len() {
            Ok(Value::Str(objs.strs@.len() as usize))
        } else {
            Err(Fault::TypeMismatch)
        },
        _ => Err(Fault::TypeMismatch),
    }
}

/// How a string concatenation changes the store: one appended buffer holding
/// the two operands' bytes in order, nothing otherwise.
pub open spec fn concat_effect(a: Value, b: Value, o: Objects, n: Objects) -> bool {
    match (a, b) {
        (Value::Str(k1), Value::Str(k2)) => if k1 < o.strs@.len() && k2 < o.strs@.len() {
            &&& n.strs@ == o.strs@.push(n.strs@.last())
            &&& n.strs@.last()@ == o.strs@[k1 as int]@ + o.strs@[k2 as int]@
            &&& n.arrays@ == o.arrays@
            &&& n.structs@ == o.structs@
            &&& n.slices@ == o.slices@
            &&& n.closures@ == o.closures@
            &&& n.boxed@ == o.boxed@
            &&& n.ifaces@ == o.ifaces@
            &&& n.named@ == o.named@
            &&& n.maps@ == o.maps@
        } else {
            objs_same(o, n)
        },
        _ => objs_same(o, n),
    }
}

/// The boolean a comparison of two canonical values produces, or the fault it
/// raises: scalar tags compare over their compact encodings; equality on
/// reference tags follows [`value_eq_spec`]; order exists on strings alone,
/// bytewise.
pub open spec fn cmp_vals(
    rel: Rel,
    t: ValueType,
    a: Value,
    b: Value,
    objs: Objects,
) -> Result<bool, Fault> {
    if is_copyable(t) {
        cmp_bits(rel, t, encode(a), encode(b))
    } else {
        match rel {
            Rel::Eql => value_eq_spec(a, b, objs, eq_fuel(objs)),
            Rel::Neq => match value_eq_spec(a, b, objs, eq_fuel(objs)) {
                Ok(x) => Ok(!x),
                Err(f) => Err(f),
            },
            _ => match (a, b) {
                (Value::Str(k1), Value::Str(k2)) => if k1 < objs.strs@.len() && k2
                    < objs.strs@.len() {
                    let sa = objs.strs@[k1 as int]@;
                    let sb = objs.strs@[k2 as int]@;
                    Ok(match rel {
                        Rel::Lss => bytes_lt(sa, sb),
                        Rel::Gtr => bytes_lt(sb, sa),
                        Rel::Leq => !bytes_lt(sb, sa),
                        _ => !bytes_lt(sa, sb),
                    })
                } else {
                    Err(Fault::TypeMismatch)
                },
                _ => Err(Fault::UnsupportedOperation),
            },
        }
    }
}

} // verus!
