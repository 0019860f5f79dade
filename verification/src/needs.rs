//! The usage signal handed to every code generation step.

use vstd::prelude::*;

verus! {

/// Tells a code generation step whether its caller wants the produced value
/// on the evaluation stack, or only the side effects.
#[derive(Clone, Copy, Debug, PartialEq, Eq, Structural)]
pub enum Needs {
    /// The value must be left on top of the stack.
    Value,
    /// Only side effects are wanted; nothing may be left on the stack.
    Nothing,
}

impl Needs {
    /// The number of values a step assembled under this signal leaves on the
    /// stack: one when the value is needed, zero otherwise.
    pub open spec fn pushes(self) -> int {
        if self is Value {
            1
        } else {
            0
        }
    }

    /// Whether the value is needed.
    pub fn value(&self) -> (needed: bool)
        ensures
            needed == (*self is Value),
    {
        match self {
            Needs::Value => true,
            Needs::Nothing => false,
        }
    }
}

} // verus!
