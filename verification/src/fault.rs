//! Faults that abort the current thread of execution and are delivered as
//! structured error values to the surrounding runtime.

use vstd::prelude::*;

verus! {

/// A runtime fault raised by the execution core.
///
/// Every fault aborts the current call and is handed to the surrounding
/// runtime as a value; recovery (or not) is the runtime's decision.
#[derive(Clone, Copy, Debug, PartialEq, Eq, Structural)]
pub enum Fault {
    /// An index outside `[0, length)` on a sequential composite.
    Bounds,
    /// An operand tag (or a dangling object-store key) that the requested
    /// operation does not support: a defect in the upstream code generator.
    TypeMismatch,
    /// A composite category that does not support the requested operation.
    UnsupportedOperation,
    /// Integer division or remainder by zero.
    DivideByZero,
    /// The stack cursor would exceed the stack's capacity.
    StackOverflow,
}

} // verus!
