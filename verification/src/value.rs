//! The tagged runtime value model: the ordered type-tag enumeration with its
//! copyable/reference boundary, the canonical tagged value, and the compact
//! one-word scalar encoding used in the hot stack array.

use vstd::prelude::*;

verus! {

/// The runtime type tag of a value.
///
/// The ordering (see [`tag_code`]) is significant: the contiguous prefix up
/// to [`COPYABLE_END`] holds the tags whose payload is fixed-width and
/// trivially duplicable; every later tag is of reference category, with a
/// composite payload or non-trivial copy semantics.
#[derive(Clone, Copy, Debug, PartialEq, Eq, Structural)]
pub enum ValueType {
    Bool,
    Int,
    Int8,
    Int16,
    Int32,
    Int64,
    Uint,
    Uint8,
    Uint16,
    Uint32,
    Uint64,
    Float32,
    Float64,
    Complex64,
    Complex128,
    Str,
    Array,
    Struct,
    Pointer,
    Closure,
    Slice,
    GoMap,
    Interface,
    Named,
    Metadata,
    Nil,
}

/// The numeric code of the last copyable tag; a tag is copyable exactly when
/// its code is at most this boundary.
pub const COPYABLE_END: u8 = 13;

/// The numeric code giving each tag its place in the ordered enumeration.
pub open spec fn tag_code(t: ValueType) -> u8 {
    match t {
        ValueType::Bool => 0,
        ValueType::Int => 1,
        ValueType::Int8 => 2,
        ValueType::Int16 => 3,
        ValueType::Int32 => 4,
        ValueType::Int64 => 5,
        ValueType::Uint => 6,
        ValueType::Uint8 => 7,
        ValueType::Uint16 => 8,
        ValueType::Uint32 => 9,
        ValueType::Uint64 => 10,
        ValueType::Float32 => 11,
        ValueType::Float64 => 12,
        ValueType::Complex64 => 13,
        ValueType::Complex128 => 14,
        ValueType::Str => 15,
        ValueType::Array => 16,
        ValueType::Struct => 17,
        ValueType::Pointer => 18,
        ValueType::Closure => 19,
        ValueType::Slice => 20,
        ValueType::GoMap => 21,
        ValueType::Interface => 22,
        ValueType::Named => 23,
        ValueType::Metadata => 24,
        ValueType::Nil => 25,
    }
}

/// A tag is copyable when it lies in the prefix ending at [`COPYABLE_END`].
pub open spec fn is_copyable(t: ValueType) -> bool {
    tag_code(t) <= COPYABLE_END
}

/// The integer tags: signed and unsigned, of every supported width.
pub open spec fn is_int_tag(t: ValueType) -> bool {
    match t {
        ValueType::Int | ValueType::Int8 | ValueType::Int16 | ValueType::Int32
        | ValueType::Int64 | ValueType::Uint | ValueType::Uint8 | ValueType::Uint16
        | ValueType::Uint32 | ValueType::Uint64 => true,
        _ => false,
    }
}

/// The signed integer tags.
pub open spec fn is_signed_tag(t: ValueType) -> bool {
    match t {
        ValueType::Int | ValueType::Int8 | ValueType::Int16 | ValueType::Int32
        | ValueType::Int64 => true,
        _ => false,
    }
}

/// The modulus of an integer tag: two to the power of the tag's bit width.
/// `Int` and `Uint` are 64 bits wide.
pub open spec fn t_mod(t: ValueType) -> int {
    match t {
        ValueType::Int | ValueType::Int64 | ValueType::Uint | ValueType::Uint64
            => 0x1_0000_0000_0000_0000,
        ValueType::Int8 | ValueType::Uint8 => 0x100,
        ValueType::Int16 | ValueType::Uint16 => 0x1_0000,
        ValueType::Int32 | ValueType::Uint32 => 0x1_0000_0000,
        _ => 1,
    }
}

/// The bit width of an integer tag.
pub open spec fn t_width(t: ValueType) -> nat {
    match t {
        ValueType::Int | ValueType::Int64 | ValueType::Uint | ValueType::Uint64 => 64,
        ValueType::Int8 | ValueType::Uint8 => 8,
        ValueType::Int16 | ValueType::Uint16 => 16,
        ValueType::Int32 | ValueType::Uint32 => 32,
        _ => 0,
    }
}

/// The mathematical integer an integer tag reads from a compact bit pattern:
/// the pattern itself for unsigned tags, its two's-complement reading for
/// signed ones.
pub open spec fn tag_val(t: ValueType, bits: u64) -> int {
    if is_signed_tag(t) && bits >= t_mod(t) / 2 {
        bits - t_mod(t)
    } else {
        bits as int
    }
}

/// Whether a compact bit pattern is canonical for a copyable tag: within the
/// tag's width, and at most 1 for booleans.
pub open spec fn bits_ok(t: ValueType, bits: u64) -> bool {
    if is_int_tag(t) {
        bits < t_mod(t)
    } else {
        match t {
            ValueType::Bool => bits <= 1,
            ValueType::Float32 => bits < 0x1_0000_0000,
            ValueType::Float64 => true,
            ValueType::Complex64 => true,
            _ => false,
        }
    }
}

/// The canonical tagged runtime value.
///
/// Copyable tags carry their scalar payload inline; floating-point and
/// complex payloads are carried as raw bit patterns, since this core performs
/// no floating-point computation itself. Reference-category tags carry a key
/// into the [`crate::objects::Objects`] store (shared by every alias), except
/// `Complex128`, whose two-word payload is carried inline and copied by
/// value, and `Nil`, which has no payload.
#[derive(Clone, Copy, Debug, PartialEq, Eq, Structural)]
pub enum Value {
    Bool(bool),
    Int(i64),
    Int8(i8),
    Int16(i16),
    Int32(i32),
    Int64(i64),
    Uint(u64),
    Uint8(u8),
    Uint16(u16),
    Uint32(u32),
    Uint64(u64),
    /// IEEE 754 single-precision payload, as raw bits.
    Float32(u32),
    /// IEEE 754 double-precision payload, as raw bits.
    Float64(u64),
    /// Real and imaginary single-precision payloads, as raw bits.
    Complex64(u32, u32),
    /// Real and imaginary double-precision payloads, as raw bits.
    Complex128(u64, u64),
    /// Key of an immutable shared byte buffer in the object store.
    Str(usize),
    /// Key of a sequence payload copied by value on assignment.
    Array(usize),
    /// Key of a field vector copied by value on assignment.
    Struct(usize),
    /// Key of a boxed target value; aliases share the key.
    Pointer(usize),
    /// Key of a capture vector; aliases share the key.
    Closure(usize),
    /// Key of a sequence payload; aliases share the key.
    Slice(usize),
    /// Key of an associative payload; aliases share the key.
    GoMap(usize),
    /// Key of a boxed underlying value; aliases share the key.
    Interface(usize),
    /// Key of a boxed underlying value of a named-type wrapper.
    Named(usize),
    /// Key of a runtime type descriptor held by an external catalog.
    Metadata(usize),
    Nil,
}

impl Value {
    /// The tag of this value.
    pub open spec fn typ(self) -> ValueType {
        match self {
            Value::Bool(_) => ValueType::Bool,
            Value::Int(_) => ValueType::Int,
            Value::Int8(_) => ValueType::Int8,
            Value::Int16(_) => ValueType::Int16,
            Value::Int32(_) => ValueType::Int32,
            Value::Int64(_) => ValueType::Int64,
            Value::Uint(_) => ValueType::Uint,
            Value::Uint8(_) => ValueType::Uint8,
            Value::Uint16(_) => ValueType::Uint16,
            Value::Uint32(_) => ValueType::Uint32,
            Value::Uint64(_) => ValueType::Uint64,
            Value::Float32(_) => ValueType::Float32,
            Value::Float64(_) => ValueType::Float64,
            Value::Complex64(_, _) => ValueType::Complex64,
            Value::Complex128(_, _) => ValueType::Complex128,
            Value::Str(_) => ValueType::Str,
            Value::Array(_) => ValueType::Array,
            Value::Struct(_) => ValueType::Struct,
            Value::Pointer(_) => ValueType::Pointer,
            Value::Closure(_) => ValueType::Closure,
            Value::Slice(_) => ValueType::Slice,
            Value::GoMap(_) => ValueType::GoMap,
            Value::Interface(_) => ValueType::Interface,
            Value::Named(_) => ValueType::Named,
            Value::Metadata(_) => ValueType::Metadata,
            Value::Nil => ValueType::Nil,
        }
    }

    /// The mathematical integer carried by a value of an integer tag.
    pub open spec fn as_int(self) -> int {
        match self {
            Value::Int(x) => x as int,
            Value::Int8(x) => x as int,
            Value::Int16(x) => x as int,
            Value::Int32(x) => x as int,
            Value::Int64(x) => x as int,
            Value::Uint(x) => x as int,
            Value::Uint8(x) => x as int,
            Value::Uint16(x) => x as int,
            Value::Uint32(x) => x as int,
            Value::Uint64(x) => x as int,
            _ => 0,
        }
    }

    /// The runtime type tag of this value.
    pub fn get_type(&self) -> (t: ValueType)
        ensures
            t == self.typ(),
    {
        match self {
            Value::Bool(_) => ValueType::Bool,
            Value::Int(_) => ValueType::Int,
            Value::Int8(_) => ValueType::Int8,
            Value::Int16(_) => ValueType::Int16,
            Value::Int32(_) => ValueType::Int32,
            Value::Int64(_) => ValueType::Int64,
            Value::Uint(_) => ValueType::Uint,
            Value::Uint8(_) => ValueType::Uint8,
            Value::Uint16(_) => ValueType::Uint16,
            Value::Uint32(_) => ValueType::Uint32,
            Value::Uint64(_) => ValueType::Uint64,
            Value::Float32(_) => ValueType::Float32,
            Value::Float64(_) => ValueType::Float64,
            Value::Complex64(_, _) => ValueType::Complex64,
            Value::Complex128(_, _) => ValueType::Complex128,
            Value::Str(_) => ValueType::Str,
            Value::Array(_) => ValueType::Array,
            Value::Struct(_) => ValueType::Struct,
            Value::Pointer(_) => ValueType::Pointer,
            Value::Closure(_) => ValueType::Closure,
            Value::Slice(_) => ValueType::Slice,
            Value::GoMap(_) => ValueType::GoMap,
            Value::Interface(_) => ValueType::Interface,
            Value::Named(_) => ValueType::Named,
            Value::Metadata(_) => ValueType::Metadata,
            Value::Nil => ValueType::Nil,
        }
    }

    /// The integer payload of a value of tag `Int`.
    pub fn get_int(&self) -> (r: i64)
        requires
            self.typ() == ValueType::Int,
        ensures
            r as int == self.as_int(),
    {
        match self {
            Value::Int(x) => *x,
            _ => 0,
        }
    }
}

/// The compact scalar encoding of a copyable value, as one machine word.
pub open spec fn encode(v: Value) -> u64 {
    match v {
        Value::Bool(b) => if b { 1u64 } else { 0u64 },
        Value::Int(x) => (if x >= 0 { x as int } else { x + 0x1_0000_0000_0000_0000 }) as u64,
        Value::Int8(x) => (if x >= 0 { x as int } else { x + 0x100 }) as u64,
        Value::Int16(x) => (if x >= 0 { x as int } else { x + 0x1_0000 }) as u64,
        Value::Int32(x) => (if x >= 0 { x as int } else { x + 0x1_0000_0000 }) as u64,
        Value::Int64(x) => (if x >= 0 { x as int } else { x + 0x1_0000_0000_0000_0000 }) as u64,
        Value::Uint(x) => x,
        Value::Uint8(x) => x as u64,
        Value::Uint16(x) => x as u64,
        Value::Uint32(x) => x as u64,
        Value::Uint64(x) => x,
        Value::Float32(b) => b as u64,
        Value::Float64(b) => b,
        Value::Complex64(re, im) => (re + im * 0x1_0000_0000) as u64,
        _ => 0,
    }
}

/// The canonical value a copyable tag reads back from a compact bit pattern.
pub open spec fn decode(t: ValueType, bits: u64) -> Value {
    match t {
        ValueType::Bool => Value::Bool(bits != 0),
        ValueType::Int => Value::Int(tag_val(t, bits) as i64),
        ValueType::Int8 => Value::Int8(tag_val(t, bits) as i8),
        ValueType::Int16 => Value::Int16(tag_val(t, bits) as i16),
        ValueType::Int32 => Value::Int32(tag_val(t, bits) as i32),
        ValueType::Int64 => Value::Int64(tag_val(t, bits) as i64),
        ValueType::Uint => Value::Uint(bits),
        ValueType::Uint8 => Value::Uint8(bits as u8),
        ValueType::Uint16 => Value::Uint16(bits as u16),
        ValueType::Uint32 => Value::Uint32(bits as u32),
        ValueType::Uint64 => Value::Uint64(bits),
        ValueType::Float32 => Value::Float32(bits as u32),
        ValueType::Float64 => Value::Float64(bits),
        ValueType::Complex64 => Value::Complex64(
            (bits % 0x1_0000_0000) as u32,
            (bits / 0x1_0000_0000) as u32,
        ),
        _ => Value::Nil,
    }
}

/// Encoding a copyable value always yields canonical bits.
pub proof fn lemma_encode_ok(v: Value)
    requires
        is_copyable(v.typ()),
    ensures
        bits_ok(v.typ(), encode(v)),
{
}

/// Decoding is the inverse of encoding: the compact form loses nothing.
pub proof fn lemma_decode_encode(v: Value)
    requires
        is_copyable(v.typ()),
    ensures
        decode(v.typ(), encode(v)) == v,
{
}

/// Encoding is the inverse of decoding on canonical bits.
pub proof fn lemma_encode_decode(t: ValueType, bits: u64)
    requires
        is_copyable(t),
        bits_ok(t, bits),
    ensures
        encode(decode(t, bits)) == bits,
        decode(t, bits).typ() == t,
{
}

/// Decoding reads back exactly the tag's two's-complement value.
pub proof fn lemma_decode_val(t: ValueType, bits: u64)
    requires
        is_int_tag(t),
        bits_ok(t, bits),
    ensures
        decode(t, bits).as_int() == tag_val(t, bits),
        decode(t, bits).typ() == t,
{
}

impl ValueType {
    /// The numeric code of this tag in the ordered enumeration.
    pub fn code(&self) -> (c: u8)
        ensures
            c == tag_code(*self),
    {
        match self {
            ValueType::Bool => 0,
            ValueType::Int => 1,
            ValueType::Int8 => 2,
            ValueType::Int16 => 3,
            ValueType::Int32 => 4,
            ValueType::Int64 => 5,
            ValueType::Uint => 6,
            ValueType::Uint8 => 7,
            ValueType::Uint16 => 8,
            ValueType::Uint32 => 9,
            ValueType::Uint64 => 10,
            ValueType::Float32 => 11,
            ValueType::Float64 => 12,
            ValueType::Complex64 => 13,
            ValueType::Complex128 => 14,
            ValueType::Str => 15,
            ValueType::Array => 16,
            ValueType::Struct => 17,
            ValueType::Pointer => 18,
            ValueType::Closure => 19,
            ValueType::Slice => 20,
            ValueType::GoMap => 21,
            ValueType::Interface => 22,
            ValueType::Named => 23,
            ValueType::Metadata => 24,
            ValueType::Nil => 25,
        }
    }

    /// Whether this tag lies in the copyable prefix of the enumeration.
    pub fn copyable(&self) -> (b: bool)
        ensures
            b == is_copyable(*self),
    {
        self.code() <= COPYABLE_END
    }
}

/// A copyable value in its compact one-word form. It carries no tag of its
/// own: the consumer tracks the tag alongside it.
#[derive(Clone, Copy, Debug, PartialEq, Eq, Structural)]
pub struct Value64 {
    pub bits: u64,
}

impl Value64 {
    /// Compact a canonical copyable value into its one-word encoding.
    pub fn from_v128(val: &Value) -> (r: Value64)
        requires
            is_copyable(val.typ()),
        ensures
            r.bits == encode(*val),
    {
        let bits: u64 = match val {
            Value::Bool(b) => if *b { 1 } else { 0 },
            Value::Int(x) => Self::enc_i64(*x, 0x1_0000_0000_0000_0000),
            Value::Int8(x) => Self::enc_i64(*x as i64, 0x100),
            Value::Int16(x) => Self::enc_i64(*x as i64, 0x1_0000),
            Value::Int32(x) => Self::enc_i64(*x as i64, 0x1_0000_0000),
            Value::Int64(x) => Self::enc_i64(*x, 0x1_0000_0000_0000_0000),
            Value::Uint(x) => *x,
            Value::Uint8(x) => *x as u64,
            Value::Uint16(x) => *x as u64,
            Value::Uint32(x) => *x as u64,
            Value::Uint64(x) => *x,
            Value::Float32(b) => *b as u64,
            Value::Float64(b) => *b,
            Value::Complex64(re, im) => *re as u64 + (*im as u64) * 0x1_0000_0000,
            _ => 0,
        };
        Value64 { bits }
    }

    /// Two's-complement encoding of a signed payload into `[0, m)`.
    pub(crate) fn enc_i64(x: i64, m: u128) -> (r: u64)
        requires
            m == 0x100 || m == 0x1_0000 || m == 0x1_0000_0000 || m == 0x1_0000_0000_0000_0000,
            -(m as int) / 2 <= x < m as int / 2,
        ensures
            r == (if x >= 0 { x as int } else { x + m }) as u64,
    {
        if x >= 0 {
            x as u64
        } else {
            ((x as i128 + m as i128) as u128) as u64
        }
    }

    /// Read the canonical value of tag `t` back from the compact encoding.
    pub fn into_v128(&self, t: ValueType) -> (r: Value)
        requires
            is_copyable(t),
            bits_ok(t, self.bits),
        ensures
            r == decode(t, self.bits),
    {
        let bits = self.bits;
        match t {
            ValueType::Bool => Value::Bool(bits != 0),
            ValueType::Int => Value::Int(Self::dec_i64(bits, 0x1_0000_0000_0000_0000)),
            ValueType::Int8 => Value::Int8(Self::dec_i64(bits, 0x100) as i8),
            ValueType::Int16 => Value::Int16(Self::dec_i64(bits, 0x1_0000) as i16),
            ValueType::Int32 => Value::Int32(Self::dec_i64(bits, 0x1_0000_0000) as i32),
            ValueType::Int64 => Value::Int64(Self::dec_i64(bits, 0x1_0000_0000_0000_0000)),
            ValueType::Uint => Value::Uint(bits),
            ValueType::Uint8 => Value::Uint8(bits as u8),
            ValueType::Uint16 => Value::Uint16(bits as u16),
            ValueType::Uint32 => Value::Uint32(bits as u32),
            ValueType::Uint64 => Value::Uint64(bits),
            ValueType::Float32 => Value::Float32(bits as u32),
            ValueType::Float64 => Value::Float64(bits),
            ValueType::Complex64 => Value::Complex64(
                (bits % 0x1_0000_0000) as u32,
                (bits / 0x1_0000_0000) as u32,
            ),
            _ => Value::Nil,
        }
    }

    /// Two's-complement reading of a bit pattern canonical for modulus `m`.
    pub(crate) fn dec_i64(bits: u64, m: u128) -> (r: i64)
        requires
            m == 0x100 || m == 0x1_0000 || m == 0x1_0000_0000 || m == 0x1_0000_0000_0000_0000,
            bits < m,
        ensures
            r as int == if bits >= m / 2 { bits - m } else { bits as int },
    {
        if (bits as u128) < m / 2 {
            bits as i64
        } else {
            (bits as i128 - m as i128) as i64
        }
    }

    /// The compact encoding of a boolean.
    pub fn from_bool(b: bool) -> (r: Value64)
        ensures
            r.bits == encode(Value::Bool(b)),
            bits_ok(ValueType::Bool, r.bits),
    {
        Value64 { bits: if b { 1 } else { 0 } }
    }

    /// The compact encoding of a value of tag `Int`.
    pub fn from_int(i: i64) -> (r: Value64)
        ensures
            r.bits == encode(Value::Int(i)),
            bits_ok(ValueType::Int, r.bits),
    {
        Value64 { bits: Self::enc_i64(i, 0x1_0000_0000_0000_0000) }
    }

    /// The boolean a canonical `Bool` pattern encodes.
    pub fn get_bool(&self) -> (b: bool)
        requires
            bits_ok(ValueType::Bool, self.bits),
        ensures
            Value::Bool(b) == decode(ValueType::Bool, self.bits),
    {
        self.bits != 0
    }

    /// The integer a canonical `Int` pattern encodes.
    pub fn get_int(&self) -> (i: i64)
        requires
            bits_ok(ValueType::Int, self.bits),
        ensures
            Value::Int(i) == decode(ValueType::Int, self.bits),
    {
        Self::dec_i64(self.bits, 0x1_0000_0000_0000_0000)
    }
}

/// An integer-tagged value encodes to canonical bits that read back as its
/// own mathematical value.
pub proof fn lemma_encode_val(v: Value)
    requires
        is_int_tag(v.typ()),
    ensures
        bits_ok(v.typ(), encode(v)),
        tag_val(v.typ(), encode(v)) == v.as_int(),
{
}

/// The zero value of a tag: false, zero of the right width, zero bits for the
/// floating-point and complex payloads. A composite's zero value depends on
/// its metadata shape, which an external catalog owns, so every
/// reference-category tag's default here is nil.
pub open spec fn zero_of(t: ValueType) -> Value {
    match t {
        ValueType::Bool => Value::Bool(false),
        ValueType::Int => Value::Int(0),
        ValueType::Int8 => Value::Int8(0),
        ValueType::Int16 => Value::Int16(0),
        ValueType::Int32 => Value::Int32(0),
        ValueType::Int64 => Value::Int64(0),
        ValueType::Uint => Value::Uint(0),
        ValueType::Uint8 => Value::Uint8(0),
        ValueType::Uint16 => Value::Uint16(0),
        ValueType::Uint32 => Value::Uint32(0),
        ValueType::Uint64 => Value::Uint64(0),
        ValueType::Float32 => Value::Float32(0),
        ValueType::Float64 => Value::Float64(0),
        ValueType::Complex64 => Value::Complex64(0, 0),
        ValueType::Complex128 => Value::Complex128(0, 0),
        _ => Value::Nil,
    }
}

impl Value {
    /// The zero value used when storage must be initialized without a source
    /// value.
    pub fn zero_value(t: ValueType) -> (r: Value)
        ensures
            r == zero_of(t),
    {
        match t {
            ValueType::Bool => Value::Bool(false),
            ValueType::Int => Value::Int(0),
            ValueType::Int8 => Value::Int8(0),
            ValueType::Int16 => Value::Int16(0),
            ValueType::Int32 => Value::Int32(0),
            ValueType::Int64 => Value::Int64(0),
            ValueType::Uint => Value::Uint(0),
            ValueType::Uint8 => Value::Uint8(0),
            ValueType::Uint16 => Value::Uint16(0),
            ValueType::Uint32 => Value::Uint32(0),
            ValueType::Uint64 => Value::Uint64(0),
            ValueType::Float32 => Value::Float32(0),
            ValueType::Float64 => Value::Float64(0),
            ValueType::Complex64 => Value::Complex64(0, 0),
            ValueType::Complex128 => Value::Complex128(0, 0),
            _ => Value::Nil,
        }
    }
}

} // verus!
