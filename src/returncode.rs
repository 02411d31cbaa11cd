use vstd::prelude::*;

verus! {

/// Standard return codes of the kernel's interfaces.
#[derive(Clone, Copy, Debug, PartialEq, Eq, Structural)]
pub enum ReturnCode {
    /// The operation completed.
    SUCCESS,
    /// The device is off.
    EOFF,
    /// A parameter was invalid (for instance, an unknown client handle).
    EINVAL,
    /// No room is left (for instance, the client table is full).
    ENOMEM,
}

} // verus!
