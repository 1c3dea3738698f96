//! What the debugger knows of the target: the state of its core and its
//! registers.
use vstd::prelude::*;

verus! {

/// Why a core is halted.
#[derive(Debug, Clone, Copy, PartialEq, Eq, Structural)]
pub enum HaltReason {
    /// More than one reason.
    Multiple,
    /// A breakpoint, in the code or in the hardware.
    Breakpoint,
    /// An exception.
    Exception,
    /// A data watchpoint.
    Watchpoint,
    /// The end of a single step.
    Step,
    /// A request of the debugger.
    Request,
    /// A request from outside.
    External,
    /// The reason is not known.
    Unknown,
}

/// The state of a core.
#[derive(Debug, Clone, Copy, PartialEq, Eq, Structural)]
pub enum CoreStatus {
    Running,
    Halted(HaltReason),
    LockedUp,
    Sleeping,
    Unknown,
}

impl CoreStatus {
    /// Whether the core is halted.
    pub fn is_halted(&self) -> (yes: bool)
        ensures
            yes == (self is Halted),
    {
        match self {
            CoreStatus::Halted(_) => true,
            _ => false,
        }
    }
}

/// A register of the core: its name and the number by which it is read.
#[derive(Debug)]
pub struct Register {
    pub name: String,
    pub address: u16,
}

/// Which register to read.
#[derive(Debug, Clone, Copy, PartialEq, Eq, Structural)]
pub enum RegisterId {
    /// The register that the core has for its program counter.
    ProgramCounter,
    /// The register that the core has for its stack pointer.
    StackPointer,
    /// The register with this number.
    Address(u16),
}

} // verus!
