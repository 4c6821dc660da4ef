use vstd::prelude::*;

verus! {

/// The failure taxonomy of the runtime. Every fallible operation reports one
/// of these kinds; none of the runtime's verified functions panics.
#[derive(Clone, Copy, Debug, PartialEq, Eq, Structural)]
pub enum RuntimeErrorTy {
    /// An operation touched a dropped or absent (`None`) value.
    NullVar,
    /// An operator was applied to mismatched variants.
    IncompatibleTypes,
    /// A fetch or drop went through a released or unknown heap handle.
    InvalidHandle,
    /// A combination the runtime does not implement, such as boxed
    /// big-integer arithmetic: reported, never a crash.
    UnsupportedOperation,
    /// The `Illegal` opcode, or a failure while decoding a value's bytes.
    InvalidInstruction,
    /// The heap could not make room for a new slot.
    AllocationError,
    /// Jump resolution failed while lowering an instruction stream.
    JitError,
}

/// A structured runtime failure: a kind plus a human-readable message.
#[derive(Debug, Clone)]
pub struct RuntimeError {
    pub ty: RuntimeErrorTy,
    pub message: String,
}

impl RuntimeError {
    /// Builds a failure of the given kind carrying the given message.
    pub fn new(ty: RuntimeErrorTy, message: String) -> (r: RuntimeError)
        ensures
            r.ty == ty,
            r.message@ == message@,
    {
        RuntimeError { ty, message }
    }
}

} // verus!
