//! Execution core of a bytecode virtual machine for a statically typed,
//! garbage-collected, Go-like language: the tagged runtime value model with
//! its compact scalar encoding, the key-indexed object store for composite
//! payloads, the dual-representation evaluation stack, and the primitive
//! opcode dispatch (arithmetic, comparison, container indexing).

use vstd::prelude::*;

pub mod fault;
pub mod value;
pub mod arith;
pub mod objects;
pub mod stack;
pub mod prim_ops;
pub mod laws;

verus! {

} // verus!
