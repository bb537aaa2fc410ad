//! Errors of the USB emulation.
use vstd::prelude::*;

verus! {

#[derive(Debug, Copy, Clone, PartialEq, Eq, Structural)]
pub enum Error {
    /// A system call failed with this error number.
    SysError(i32),
    /// The emulation is in a bad state; it could be illegal guest operations.
    BadState,
    /// An unexpected failure.
    Unknown,
}

} // verus!
