//! Scalar binary arithmetic, unary operations and ordering/equality
//! comparisons over the compact encoding, keyed by the value-type tag.
//!
//! Every integer operation wraps exactly as the tag's native two's-complement
//! arithmetic does; division and remainder truncate toward zero and fault on
//! a zero divisor. Floating-point and complex tags are carried as raw bits
//! only, so an arithmetic or comparison request on them is answered with a
//! `TypeMismatch` fault rather than a wrong result.

use vstd::prelude::*;
use vstd::arithmetic::div_mod::{
    lemma_fundamental_div_mod, lemma_fundamental_div_mod_converse, lemma_add_mod_noop,
    lemma_sub_mod_noop, lemma_mod_add_multiples_vanish, lemma_mod_multiples_vanish,
    lemma_mul_mod_noop_general, lemma_mul_mod_noop_left, lemma_small_mod,
    lemma_div_nonincreasing, lemma_basic_div,
};
use vstd::arithmetic::mul::{
    lemma_mul_upper_bound,
};
use vstd::arithmetic::mul::{
    lemma_mul_is_associative, lemma_mul_is_commutative, lemma_mul_unary_negation,
    lemma_mul_inequality,
};
use crate::fault::Fault;
use crate::value::{ValueType, Value, Value64, is_int_tag, is_signed_tag, t_mod, t_width, tag_val,
    bits_ok, is_copyable, encode, decode};

verus! {

/// A numeric operand index carried by an instruction.
pub type OpIndex = i32;

/// The primitive binary operations selectable by an instruction.
#[derive(Clone, Copy, Debug, PartialEq, Eq, Structural)]
pub enum Opcode {
    Add,
    Sub,
    Mul,
    Quo,
    Rem,
    And,
    Or,
    Xor,
    AndNot,
    Shl,
    Shr,
}

/// The opcode a numeric code stands for, if any.
pub open spec fn opcode_from_index(i: int) -> Option<Opcode> {
    if i == 0 {
        Some(Opcode::Add)
    } else if i == 1 {
        Some(Opcode::Sub)
    } else if i == 2 {
        Some(Opcode::Mul)
    } else if i == 3 {
        Some(Opcode::Quo)
    } else if i == 4 {
        Some(Opcode::Rem)
    } else if i == 5 {
        Some(Opcode::And)
    } else if i == 6 {
        Some(Opcode::Or)
    } else if i == 7 {
        Some(Opcode::Xor)
    } else if i == 8 {
        Some(Opcode::AndNot)
    } else if i == 9 {
        Some(Opcode::Shl)
    } else if i == 10 {
        Some(Opcode::Shr)
    } else {
        None
    }
}

impl Opcode {
    /// Checked conversion from a numeric operand to an opcode: an
    /// out-of-range code is rejected rather than reinterpreted.
    pub fn from_index(i: OpIndex) -> (r: Option<Opcode>)
        ensures
            r == opcode_from_index(i as int),
    {
        match i {
            0 => Some(Opcode::Add),
            1 => Some(Opcode::Sub),
            2 => Some(Opcode::Mul),
            3 => Some(Opcode::Quo),
            4 => Some(Opcode::Rem),
            5 => Some(Opcode::And),
            6 => Some(Opcode::Or),
            7 => Some(Opcode::Xor),
            8 => Some(Opcode::AndNot),
            9 => Some(Opcode::Shl),
            10 => Some(Opcode::Shr),
            _ => None,
        }
    }
}

/// An ordering or equality relation producing a boolean.
#[derive(Clone, Copy, Debug, PartialEq, Eq, Structural)]
pub enum Rel {
    Eql,
    Neq,
    Lss,
    Gtr,
    Leq,
    Geq,
}

/// Two to the power `n`.
pub open spec fn p2(n: nat) -> int
    decreases n,
{
    if n == 0 {
        1
    } else {
        2 * p2((n - 1) as nat)
    }
}

/// The absolute value of a mathematical integer.
pub open spec fn iabs(x: int) -> int {
    if x >= 0 {
        x
    } else {
        -x
    }
}

/// Go's integer division: the quotient truncated toward zero.
pub open spec fn go_quo(a: int, b: int) -> int {
    if (a >= 0) == (b >= 0) {
        iabs(a) / iabs(b)
    } else {
        -(iabs(a) / iabs(b))
    }
}

/// Go's integer remainder, satisfying `a == go_quo(a, b) * b + go_rem(a, b)`.
pub open spec fn go_rem(a: int, b: int) -> int {
    a - go_quo(a, b) * b
}

/// Powers of two are positive.
pub proof fn lemma_p2_pos(n: nat)
    ensures
        p2(n) >= 1,
    decreases n,
{
    if n > 0 {
        lemma_p2_pos((n - 1) as nat);
    }
}

/// Powers of two of sums multiply.
pub proof fn lemma_p2_adds(a: nat, b: nat)
    ensures
        p2(a + b) == p2(a) * p2(b),
    decreases b,
{
    if b == 0 {
    } else {
        lemma_p2_adds(a, (b - 1) as nat);
        assert(p2(a + b) == 2 * (p2(a) * p2((b - 1) as nat)));
        lemma_mul_is_associative(2, p2(a), p2((b - 1) as nat));
        lemma_mul_is_commutative(2, p2(a));
        lemma_mul_is_associative(p2(a), 2, p2((b - 1) as nat));
    }
}

/// Powers of two are monotone.
pub proof fn lemma_p2_le(a: nat, b: nat)
    requires
        a <= b,
    ensures
        p2(a) <= p2(b),
{
    lemma_p2_adds(a, (b - a) as nat);
    lemma_p2_pos(a);
    lemma_p2_pos((b - a) as nat);
    lemma_mul_inequality(1, p2((b - a) as nat), p2(a));
    lemma_mul_is_commutative(p2(a), p2((b - a) as nat));
}

/// The modulus of an integer tag is two to the power of its width.
pub proof fn lemma_t_mod_p2(t: ValueType)
    requires
        is_int_tag(t),
    ensures
        t_mod(t) == p2(t_width(t)),
{
    reveal_with_fuel(p2, 65);
    assert(p2(8) == 0x100);
    assert(p2(16) == 0x1_0000);
    assert(p2(32) == 0x1_0000_0000);
    assert(p2(64) == 0x1_0000_0000_0000_0000);
}

/// A canonical bit pattern and its two's-complement reading agree modulo the
/// tag's modulus; the pattern is its own remainder.
pub proof fn lemma_val_mod(t: ValueType, x: u64)
    requires
        is_int_tag(t),
        bits_ok(t, x),
    ensures
        tag_val(t, x) % t_mod(t) == (x as int) % t_mod(t),
        (x as int) % t_mod(t) == x as int,
{
    let m = t_mod(t);
    lemma_small_mod(x as nat, m as nat);
    if is_signed_tag(t) && x >= m / 2 {
        lemma_mod_add_multiples_vanish(tag_val(t, x), m);
    }
}

/// The result of a scalar binary operation over compact encodings, or the
/// fault it raises.
///
/// Arithmetic is defined only on the integer tags; a shift by a negative
/// count is unsupported; division or remainder by zero is a fault. Bitwise
/// operations act on the canonical two's-complement patterns.
pub open spec fn binop_bits(op: Opcode, t: ValueType, a: u64, b: u64) -> Result<u64, Fault> {
    if !is_int_tag(t) {
        Err(Fault::TypeMismatch)
    } else {
        let m = t_mod(t);
        let va = tag_val(t, a);
        let vb = tag_val(t, b);
        match op {
            Opcode::Add => Ok((((va + vb) % m) as u64)),
            Opcode::Sub => Ok((((va - vb) % m) as u64)),
            Opcode::Mul => Ok((((va * vb) % m) as u64)),
            Opcode::Quo => if vb == 0 {
                Err(Fault::DivideByZero)
            } else {
                Ok(((go_quo(va, vb) % m) as u64))
            },
            Opcode::Rem => if vb == 0 {
                Err(Fault::DivideByZero)
            } else {
                Ok(((go_rem(va, vb) % m) as u64))
            },
            Opcode::And => Ok(a & b),
            Opcode::Or => Ok(a | b),
            Opcode::Xor => Ok(a ^ b),
            Opcode::AndNot => Ok(a & (!b & ((m - 1) as u64))),
            Opcode::Shl => if vb < 0 {
                Err(Fault::UnsupportedOperation)
            } else {
                Ok((((va * p2(vb as nat)) % m) as u64))
            },
            Opcode::Shr => if vb < 0 {
                Err(Fault::UnsupportedOperation)
            } else {
                Ok((((va / p2(vb as nat)) % m) as u64))
            },
        }
    }
}

/// The result of a unary negation over the compact encoding.
pub open spec fn unary_neg_bits(t: ValueType, a: u64) -> Result<u64, Fault> {
    if is_int_tag(t) {
        Ok((((-tag_val(t, a)) % t_mod(t)) as u64))
    } else {
        Err(Fault::TypeMismatch)
    }
}

/// The result of a bitwise complement over the compact encoding.
pub open spec fn unary_xor_bits(t: ValueType, a: u64) -> Result<u64, Fault> {
    if is_int_tag(t) {
        Ok((((-tag_val(t, a) - 1) % t_mod(t)) as u64))
    } else {
        Err(Fault::TypeMismatch)
    }
}

/// The result of a logical negation over the compact encoding.
pub open spec fn unary_not_bits(t: ValueType, a: u64) -> Result<u64, Fault> {
    if t == ValueType::Bool {
        Ok(if a == 0 { 1u64 } else { 0u64 })
    } else {
        Err(Fault::TypeMismatch)
    }
}

/// The boolean a comparison of two compact encodings produces, or the fault
/// it raises: equality and order on the integer tags' values, equality alone
/// on booleans.
pub open spec fn cmp_bits(r: Rel, t: ValueType, a: u64, b: u64) -> Result<bool, Fault> {
    if is_int_tag(t) {
        let va = tag_val(t, a);
        let vb = tag_val(t, b);
        Ok(match r {
            Rel::Eql => va == vb,
            Rel::Neq => va != vb,
            Rel::Lss => va < vb,
            Rel::Gtr => va > vb,
            Rel::Leq => va <= vb,
            Rel::Geq => va >= vb,
        })
    } else if t == ValueType::Bool && (r == Rel::Eql || r == Rel::Neq) {
        Ok(if r == Rel::Eql {
            a == b
        } else {
            a != b
        })
    } else {
        Err(Fault::TypeMismatch)
    }
}

/// A successful scalar binary operation yields canonical bits for its tag.
pub proof fn lemma_binop_bits_ok(op: Opcode, t: ValueType, a: u64, b: u64)
    requires
        bits_ok(t, a),
        bits_ok(t, b),
        binop_bits(op, t, a, b) is Ok,
    ensures
        bits_ok(t, binop_bits(op, t, a, b)->Ok_0),
{
    let m = t_mod(t);
    let mk = (m - 1) as u64;
    match op {
        Opcode::And => {
            assert(a & b <= mk) by (bit_vector)
                requires
                    a <= mk,
                    b <= mk,
            ;
        },
        Opcode::Or => {
            assert((a | b) <= mk) by (bit_vector)
                requires
                    a <= mk,
                    b <= mk,
                    mk == 0xff || mk == 0xffff || mk == 0xffff_ffff || mk
                        == 0xffff_ffff_ffff_ffff,
            ;
        },
        Opcode::Xor => {
            assert((a ^ b) <= mk) by (bit_vector)
                requires
                    a <= mk,
                    b <= mk,
                    mk == 0xff || mk == 0xffff || mk == 0xffff_ffff || mk
                        == 0xffff_ffff_ffff_ffff,
            ;
        },
        Opcode::AndNot => {
            assert((a & (!b & mk)) <= mk) by (bit_vector)
                requires
                    a <= mk,
            ;
        },
        _ => {},
    }
}

/// Whether a tag is an integer tag.
pub fn int_tag(t: ValueType) -> (b: bool)
    ensures
        b == is_int_tag(t),
{
    matches!(t,
        ValueType::Int | ValueType::Int8 | ValueType::Int16 | ValueType::Int32
        | ValueType::Int64 | ValueType::Uint | ValueType::Uint8 | ValueType::Uint16
        | ValueType::Uint32 | ValueType::Uint64)
}

/// Whether a tag is a signed integer tag.
pub fn signed_tag(t: ValueType) -> (b: bool)
    ensures
        b == is_signed_tag(t),
{
    matches!(t,
        ValueType::Int | ValueType::Int8 | ValueType::Int16 | ValueType::Int32
        | ValueType::Int64)
}

/// The modulus of an integer tag, as a machine value.
fn t_mod_u128(t: ValueType) -> (m: u128)
    requires
        is_int_tag(t),
    ensures
        m as int == t_mod(t),
        m == 0x100 || m == 0x1_0000 || m == 0x1_0000_0000 || m == 0x1_0000_0000_0000_0000,
{
    match t {
        ValueType::Int8 | ValueType::Uint8 => 0x100,
        ValueType::Int16 | ValueType::Uint16 => 0x1_0000,
        ValueType::Int32 | ValueType::Uint32 => 0x1_0000_0000,
        _ => 0x1_0000_0000_0000_0000,
    }
}

/// The all-ones mask of an integer tag, one less than its modulus.
fn t_mask_u64(t: ValueType) -> (x: u64)
    requires
        is_int_tag(t),
    ensures
        x as int == t_mod(t) - 1,
{
    match t {
        ValueType::Int8 | ValueType::Uint8 => 0xff,
        ValueType::Int16 | ValueType::Uint16 => 0xffff,
        ValueType::Int32 | ValueType::Uint32 => 0xffff_ffff,
        _ => 0xffff_ffff_ffff_ffff,
    }
}

/// The bit width of an integer tag, as a machine value.
fn t_width_u64(t: ValueType) -> (w: u64)
    requires
        is_int_tag(t),
    ensures
        w as int == t_width(t),
{
    match t {
        ValueType::Int8 | ValueType::Uint8 => 8,
        ValueType::Int16 | ValueType::Uint16 => 16,
        ValueType::Int32 | ValueType::Uint32 => 32,
        _ => 64,
    }
}

/// The two's-complement value a signed tag reads from canonical bits.
fn val_i64(t: ValueType, bits: u64) -> (v: i64)
    requires
        is_int_tag(t),
        is_signed_tag(t),
        bits_ok(t, bits),
    ensures
        v as int == tag_val(t, bits),
{
    let m = t_mod_u128(t);
    Value64::dec_i64(bits, m)
}

/// The magnitude of a signed machine value.
fn mag_u64(v: i64) -> (mg: u64)
    ensures
        mg as int == iabs(v as int),
{
    if v >= 0 {
        v as u64
    } else {
        (-(v as i128)) as u64
    }
}

/// Two to the power `c`, as a machine value.
#[verifier::rlimit(60)]
fn p2_u64(c: u64) -> (d: u64)
    requires
        c <= 63,
    ensures
        d as int == p2(c as nat),
{
    let mut d: u64 = 1;
    let mut i: u64 = 0;
    while i < c
        invariant
            i <= c <= 63,
            d as int == p2(i as nat),
        decreases c - i,
    {
        proof {
            lemma_p2_le(i as nat, 62);
            reveal_with_fuel(p2, 64);
            assert(p2(62) == 0x4000_0000_0000_0000);
        }
        d = d * 2;
        i = i + 1;
    }
    d
}

/// `(x * 2^c) % m`, by repeated doubling under the modulus.
fn mul_p2_mod(x: u64, c: u64, m: u128) -> (r: u64)
    requires
        2 <= m <= 0x1_0000_0000_0000_0000,
        (x as u128) < m,
        c <= 63,
    ensures
        r as int == ((x as int) * p2(c as nat)) % (m as int),
{
    let mut r: u128 = x as u128;
    let mut i: u64 = 0;
    proof {
        lemma_small_mod(x as nat, m as nat);
    }
    while i < c
        invariant
            i <= c <= 63,
            2 <= m <= 0x1_0000_0000_0000_0000,
            r < m,
            r as int == ((x as int) * p2(i as nat)) % (m as int),
        decreases c - i,
    {
        proof {
            let xi = x as int;
            let mi = m as int;
            let pi = p2(i as nat);
            assert(p2((i + 1) as nat) == 2 * pi);
            lemma_mul_mod_noop_left(xi * pi, 2, mi);
            assert((xi * pi) * 2 == xi * (2 * pi)) by (nonlinear_arith);
            lemma_mul_is_commutative(xi, 2 * pi);
            lemma_mul_is_commutative(2, pi);
        }
        r = (r * 2) % m;
        i = i + 1;
    }
    r as u64
}

/// The truncated remainder agrees with the remainder of the magnitudes,
/// signed by the dividend.
pub proof fn lemma_go_rem_abs(a: int, b: int)
    requires
        b != 0,
    ensures
        go_rem(a, b) == if a >= 0 {
            iabs(a) % iabs(b)
        } else {
            -(iabs(a) % iabs(b))
        },
{
    let ma = iabs(a);
    let mb = iabs(b);
    let q = ma / mb;
    lemma_fundamental_div_mod(ma, mb);
    assert(ma == mb * q + ma % mb);
    lemma_mul_is_commutative(mb, q);
    if a >= 0 && b > 0 {
        assert(go_quo(a, b) * b == q * mb);
    } else if a >= 0 && b < 0 {
        assert(go_quo(a, b) * b == (-q) * (-mb));
        assert((-q) * (-mb) == q * mb) by (nonlinear_arith);
    } else if a < 0 && b > 0 {
        assert(go_quo(a, b) * b == (-q) * mb);
        assert((-q) * mb == -(q * mb)) by (nonlinear_arith);
    } else {
        assert(go_quo(a, b) * b == q * (-mb));
        assert(q * (-mb) == -(q * mb)) by (nonlinear_arith);
    }
}

impl Value64 {
    /// The scalar binary operation `op`, sized and signed by tag `t`, over
    /// two compact encodings.
    #[verifier::rlimit(80)]
    #[verifier::spinoff_prover]
    pub fn binary_op(a: &Value64, b: &Value64, t: ValueType, op: Opcode) -> (r: Result<
        Value64,
        Fault,
    >)
        requires
            bits_ok(t, a.bits),
            bits_ok(t, b.bits),
        ensures
            match binop_bits(op, t, a.bits, b.bits) {
                Ok(bits) => r == Ok::<Value64, Fault>(Value64 { bits }) && bits_ok(t, bits),
                Err(f) => r == Err::<Value64, Fault>(f),
            },
    {
        if !int_tag(t) {
            return Err(Fault::TypeMismatch);
        }
        let m = t_mod_u128(t);
        let ab = a.bits;
        let bb = b.bits;
        let ghost mi = t_mod(t);
        let ghost va = tag_val(t, ab);
        let ghost vb = tag_val(t, bb);
        proof {
            lemma_val_mod(t, ab);
            lemma_val_mod(t, bb);
        }
        let bits: u64 = match op {
            Opcode::Add => {
                let s: u128 = ab as u128 + bb as u128;
                proof {
                    lemma_add_mod_noop(va, vb, mi);
                    lemma_add_mod_noop(ab as int, bb as int, mi);
                }
                (s % m) as u64
            },
            Opcode::Sub => {
                let s: u128 = ab as u128 + m - bb as u128;
                proof {
                    lemma_sub_mod_noop(va, vb, mi);
                    lemma_sub_mod_noop(ab as int, bb as int, mi);
                    lemma_mod_add_multiples_vanish(ab - bb, mi);
                }
                (s % m) as u64
            },
            Opcode::Mul => {
                proof {
                    lemma_mul_upper_bound(
                        ab as int,
                        0xffff_ffff_ffff_ffff,
                        bb as int,
                        0xffff_ffff_ffff_ffff,
                    );
                }
                let p: u128 = ab as u128 * bb as u128;
                proof {
                    lemma_mul_mod_noop_general(va, vb, mi);
                    lemma_mul_mod_noop_general(ab as int, bb as int, mi);
                }
                (p % m) as u64
            },
            Opcode::Quo => {
                if signed_tag(t) {
                    let x = val_i64(t, ab);
                    let y = val_i64(t, bb);
                    if y == 0 {
                        return Err(Fault::DivideByZero);
                    }
                    let ma = mag_u64(x);
                    let mb = mag_u64(y);
                    let q: u64 = ma / mb;
                    proof {
                        lemma_div_nonincreasing(ma as int, mb as int);
                    }
                    if (x < 0) != (y < 0) {
                        proof {
                            lemma_mod_add_multiples_vanish(-(q as int), mi);
                            if q == 0 {
                                lemma_mod_add_multiples_vanish(0, mi);
                                lemma_small_mod(0, mi as nat);
                            } else {
                                lemma_small_mod((mi - q) as nat, mi as nat);
                            }
                        }
                        ((m - q as u128) % m) as u64
                    } else {
                        proof {
                            lemma_small_mod(q as nat, mi as nat);
                        }
                        q
                    }
                } else {
                    if bb == 0 {
                        return Err(Fault::DivideByZero);
                    }
                    let q = ab / bb;
                    proof {
                        lemma_div_nonincreasing(ab as int, bb as int);
                        lemma_small_mod(q as nat, mi as nat);
                    }
                    q
                }
            },
            Opcode::Rem => {
                if signed_tag(t) {
                    let x = val_i64(t, ab);
                    let y = val_i64(t, bb);
                    if y == 0 {
                        return Err(Fault::DivideByZero);
                    }
                    let ma = mag_u64(x);
                    let mb = mag_u64(y);
                    let s: u64 = ma % mb;
                    proof {
                        lemma_go_rem_abs(va, vb);
                    }
                    if x < 0 {
                        proof {
                            lemma_mod_add_multiples_vanish(-(s as int), mi);
                            if s == 0 {
                                lemma_mod_add_multiples_vanish(0, mi);
                                lemma_small_mod(0, mi as nat);
                            } else {
                                lemma_small_mod((mi - s) as nat, mi as nat);
                            }
                        }
                        ((m - s as u128) % m) as u64
                    } else {
                        proof {
                            lemma_small_mod(s as nat, mi as nat);
                        }
                        s
                    }
                } else {
                    if bb == 0 {
                        return Err(Fault::DivideByZero);
                    }
                    let s = ab % bb;
                    proof {
                        lemma_go_rem_abs(va, vb);
                        lemma_small_mod(s as nat, mi as nat);
                    }
                    s
                }
            },
            Opcode::And => ab & bb,
            Opcode::Or => ab | bb,
            Opcode::Xor => ab ^ bb,
            Opcode::AndNot => ab & (!bb & t_mask_u64(t)),
            Opcode::Shl => {
                let c: u64 = if signed_tag(t) {
                    let y = val_i64(t, bb);
                    if y < 0 {
                        return Err(Fault::UnsupportedOperation);
                    }
                    y as u64
                } else {
                    bb
                };
                let w = t_width_u64(t);
                proof {
                    lemma_t_mod_p2(t);
                }
                if c >= w {
                    proof {
                        let k = (c - w) as nat;
                        lemma_p2_adds(t_width(t), k);
                        lemma_p2_pos(k);
                        assert(va * (mi * p2(k)) == mi * (va * p2(k))) by (nonlinear_arith);
                        lemma_mod_multiples_vanish(va * p2(k), 0, mi);
                        lemma_small_mod(0, mi as nat);
                    }
                    0u64
                } else {
                    let r = mul_p2_mod(ab, c, m);
                    proof {
                        lemma_mul_mod_noop_left(va, p2(c as nat), mi);
                        lemma_mul_mod_noop_left(ab as int, p2(c as nat), mi);
                    }
                    r
                }
            },
            Opcode::Shr => {
                let w = t_width_u64(t);
                proof {
                    lemma_t_mod_p2(t);
                }
                if signed_tag(t) {
                    let y = val_i64(t, bb);
                    if y < 0 {
                        return Err(Fault::UnsupportedOperation);
                    }
                    let c = y as u64;
                    let x = val_i64(t, ab);
                    if x >= 0 {
                        if c >= w {
                            proof {
                                lemma_p2_le(t_width(t), c as nat);
                                lemma_basic_div(va, p2(c as nat));
                                lemma_small_mod(0, mi as nat);
                            }
                            0u64
                        } else {
                            let d = p2_u64(c);
                            proof {
                                lemma_p2_pos(c as nat);
                                lemma_div_nonincreasing(va, d as int);
                                lemma_small_mod((va / p2(c as nat)) as nat, mi as nat);
                            }
                            ab / d
                        }
                    } else {
                        if c >= w {
                            proof {
                                lemma_p2_le(t_width(t), c as nat);
                                lemma_p2_pos(c as nat);
                                lemma_fundamental_div_mod_converse(
                                    va,
                                    p2(c as nat),
                                    -1,
                                    va + p2(c as nat),
                                );
                                lemma_mod_add_multiples_vanish(-1, mi);
                                lemma_small_mod((mi - 1) as nat, mi as nat);
                            }
                            t_mask_u64(t)
                        } else {
                            let d = p2_u64(c);
                            let ma = mag_u64(x);
                            proof {
                                lemma_p2_pos(c as nat);
                                // d is at most half the modulus, so the sum fits
                                lemma_p2_adds((t_width(t) - 1) as nat, 1);
                                lemma_p2_le(c as nat, (t_width(t) - 1) as nat);
                                reveal_with_fuel(p2, 3);
                                assert(p2(1) == 2);
                                assert(d as int * 2 <= t_mod(t));
                                assert(ma as int * 2 <= t_mod(t));
                            }
                            let qm: u64 = (ma - 1 + d) / d;
                            proof {
                                let di = d as int;
                                let si = ma + di - 1;
                                lemma_fundamental_div_mod(si, di);
                                lemma_mul_is_commutative(di, si / di);
                                lemma_div_nonincreasing(si, di);
                                assert(qm * di >= ma && qm * di < ma + di);
                                lemma_mul_unary_negation(qm as int, di);
                                lemma_fundamental_div_mod_converse(va, di, -(qm as int), qm * di - ma);
                                lemma_mod_add_multiples_vanish(-(qm as int), mi);
                                lemma_small_mod((mi - qm) as nat, mi as nat);
                            }
                            (m - qm as u128) as u64
                        }
                    }
                } else {
                    let c = bb;
                    if c >= w {
                        proof {
                            lemma_p2_le(t_width(t), c as nat);
                            lemma_basic_div(va, p2(c as nat));
                            lemma_small_mod(0, mi as nat);
                        }
                        0u64
                    } else {
                        let d = p2_u64(c);
                        proof {
                            lemma_p2_pos(c as nat);
                            lemma_div_nonincreasing(va, d as int);
                            lemma_small_mod((va / p2(c as nat)) as nat, mi as nat);
                        }
                        ab / d
                    }
                }
            },
        };
        proof {
            lemma_binop_bits_ok(op, t, ab, bb);
        }
        Ok(Value64 { bits })
    }

    /// Unary negation of a compact encoding, sized by tag `t`.
    pub fn unary_negate(&mut self, t: ValueType) -> (r: Result<(), Fault>)
        requires
            bits_ok(t, old(self).bits),
        ensures
            match unary_neg_bits(t, old(self).bits) {
                Ok(bits) => r == Ok::<(), Fault>(()) && final(self).bits == bits && bits_ok(
                    t,
                    bits,
                ),
                Err(f) => r == Err::<(), Fault>(f) && *final(self) == *old(self),
            },
    {
        if !int_tag(t) {
            return Err(Fault::TypeMismatch);
        }
        let m = t_mod_u128(t);
        let ab = self.bits;
        proof {
            let mi = t_mod(t);
            lemma_val_mod(t, ab);
            lemma_mod_add_multiples_vanish(-(ab as int), mi);
            if ab == 0 {
                lemma_mod_add_multiples_vanish(0, mi);
                lemma_small_mod(0, mi as nat);
            } else {
                lemma_small_mod((mi - ab) as nat, mi as nat);
            }
        }
        self.bits = ((m - self.bits as u128) % m) as u64;
        Ok(())
    }

    /// Bitwise complement of a compact encoding, sized by tag `t`.
    pub fn unary_xor(&mut self, t: ValueType) -> (r: Result<(), Fault>)
        requires
            bits_ok(t, old(self).bits),
        ensures
            match unary_xor_bits(t, old(self).bits) {
                Ok(bits) => r == Ok::<(), Fault>(()) && final(self).bits == bits && bits_ok(
                    t,
                    bits,
                ),
                Err(f) => r == Err::<(), Fault>(f) && *final(self) == *old(self),
            },
    {
        if !int_tag(t) {
            return Err(Fault::TypeMismatch);
        }
        let mask = t_mask_u64(t);
        let ab = self.bits;
        proof {
            let mi = t_mod(t);
            lemma_val_mod(t, ab);
            lemma_mod_add_multiples_vanish(-(ab as int) - 1, mi);
            lemma_small_mod((mi - 1 - ab) as nat, mi as nat);
        }
        self.bits = mask - self.bits;
        Ok(())
    }

    /// Logical negation of a compact boolean encoding.
    pub fn unary_not(&mut self, t: ValueType) -> (r: Result<(), Fault>)
        requires
            bits_ok(t, old(self).bits),
        ensures
            match unary_not_bits(t, old(self).bits) {
                Ok(bits) => r == Ok::<(), Fault>(()) && final(self).bits == bits && bits_ok(
                    t,
                    bits,
                ),
                Err(f) => r == Err::<(), Fault>(f) && *final(self) == *old(self),
            },
    {
        match t {
            ValueType::Bool => {
                self.bits = if self.bits == 0 {
                    1
                } else {
                    0
                };
                Ok(())
            },
            _ => Err(Fault::TypeMismatch),
        }
    }

    /// The comparison `rel`, signed and sized by tag `t`, over two compact
    /// encodings.
    pub fn compare(a: &Value64, b: &Value64, t: ValueType, rel: Rel) -> (r: Result<bool, Fault>)
        requires
            bits_ok(t, a.bits),
            bits_ok(t, b.bits),
        ensures
            r == cmp_bits(rel, t, a.bits, b.bits),
    {
        if int_tag(t) {
            if signed_tag(t) {
                let x = val_i64(t, a.bits);
                let y = val_i64(t, b.bits);
                Ok(match rel {
                    Rel::Eql => x == y,
                    Rel::Neq => x != y,
                    Rel::Lss => x < y,
                    Rel::Gtr => x > y,
                    Rel::Leq => x <= y,
                    Rel::Geq => x >= y,
                })
            } else {
                Ok(match rel {
                    Rel::Eql => a.bits == b.bits,
                    Rel::Neq => a.bits != b.bits,
                    Rel::Lss => a.bits < b.bits,
                    Rel::Gtr => a.bits > b.bits,
                    Rel::Leq => a.bits <= b.bits,
                    Rel::Geq => a.bits >= b.bits,
                })
            }
        } else if matches!(t, ValueType::Bool) && matches!(rel, Rel::Eql | Rel::Neq) {
            Ok(if matches!(rel, Rel::Eql) {
                a.bits == b.bits
            } else {
                a.bits != b.bits
            })
        } else {
            Err(Fault::TypeMismatch)
        }
    }
}

/// The value-level result of a scalar binary operation: the operands'
/// compact encodings are combined and the result decoded back, under the
/// same tag.
pub open spec fn binop_vals(op: Opcode, t: ValueType, a: Value, b: Value) -> Result<Value, Fault> {
    if is_copyable(t) {
        match binop_bits(op, t, encode(a), encode(b)) {
            Ok(bits) => Ok(decode(t, bits)),
            Err(f) => Err(f),
        }
    } else {
        Err(Fault::TypeMismatch)
    }
}

/// The tag's native wrapping of a mathematical integer: reduce modulo the
/// tag's modulus, then read the result back signed or unsigned.
pub open spec fn wrap(t: ValueType, n: int) -> int {
    let m = n % t_mod(t);
    if is_signed_tag(t) && m >= t_mod(t) / 2 {
        m - t_mod(t)
    } else {
        m
    }
}

} // verus!
