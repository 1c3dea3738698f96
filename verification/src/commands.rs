//! The requests that the debugger takes and the answers that it gives.
use vstd::prelude::*;

use std::path::PathBuf;

use crate::breakpoint::{Breakpoint, SourceBreakpoint};
use crate::target::{CoreStatus, HaltReason};
use crate::text::{
    debug_quoted, decimal, decimal_text, is_number_text, joined, law_decimals_read_back,
    number_read, quoted,
};
use crate::variable::{StackFrame, Variable};

verus! {

/// A path to a file. The debugger hands it through.
#[verifier::external_type_specification]
#[verifier::external_body]
pub struct ExPathBuf(PathBuf);

/// `Clone` of `std::path::PathBuf`. Claimed: the copy is the same path.
pub assume_specification[ <PathBuf as Clone>::clone ](path: &PathBuf) -> (copy: PathBuf)
    ensures
        copy == *path,
;

/// What the debugger is asked to do.
#[derive(Debug)]
#[allow(inconsistent_fields)]
pub enum DebugRequest {
    /// End the debugger.
    Exit,
    /// Use another program.
    SetBinary { path: PathBuf },
    /// Use another debug probe.
    SetProbeNumber { number: usize },
    /// Debug another kind of chip.
    SetChip { chip: String },
    /// Use another work directory.
    SetCWD { cwd: String },
    /// Attach to the target.
    Attach { reset: bool, reset_and_halt: bool },
    /// Read the stack.
    Stack,
    /// Disassemble the code at the program counter.
    Code,
    /// Remove all breakpoints.
    ClearAllBreakpoints,
    /// Remove the breakpoint at an address.
    ClearBreakpoint { address: u32 },
    /// Set a breakpoint at an address, or at a line of a source file.
    SetBreakpoint { address: u32, source_file: Option<String> },
    /// Read all registers.
    Registers,
    /// Show a variable of the innermost stack frame.
    Variable { name: String },
    /// Show all variables of the innermost stack frame.
    Variables,
    /// Show the call stack.
    StackTrace,
    /// Read memory.
    Read { address: u32, byte_size: usize },
    /// Reset the target.
    Reset { reset_and_halt: bool },
    /// Write the program to the target.
    Flash { reset_and_halt: bool },
    /// Halt the core.
    Halt,
    /// Tell the state of the core.
    Status,
    /// Let the core run.
    Continue,
    /// Let the core execute one instruction.
    Step,
    /// Replace all breakpoints by those of a source file.
    SetBreakpoints { source_file: String, source_breakpoints: Vec<SourceBreakpoint> },
}

/// What the debugger answers to a request.
#[derive(Debug)]
#[allow(inconsistent_fields)]
pub enum DebugResponse {
    /// The request was not carried out.
    Error { message: String },
    Exit,
    SetBinary,
    SetProbeNumber,
    SetChip,
    SetCWD,
    Attach,
    Stack { stack_pointer: u32, stack: Vec<u32> },
    Code { pc: u32, instructions: Vec<(u32, String)> },
    ClearAllBreakpoints,
    ClearBreakpoint,
    SetBreakpoint,
    Registers { registers: Vec<(String, u32)> },
    Variable { variable: Variable },
    Variables { variables: Vec<Variable> },
    StackTrace { stack_trace: Vec<StackFrame> },
    Read { address: u32, value: Vec<u8> },
    Reset,
    Flash,
    Halt,
    Status { status: CoreStatus, pc: Option<u32> },
    Continue,
    Step,
    SetBreakpoints { breakpoints: Vec<Breakpoint> },
}

/// What the debugger tells without being asked.
#[derive(Debug)]
pub enum DebugEvent {
    /// The core came to a halt.
    Halted { pc: u32, reason: HaltReason, hit_breakpoint_ids: Option<Vec<u32>> },
}

/// What goes between the debugger and its user.
#[derive(Debug)]
pub enum Command {
    Request(DebugRequest),
    Response(DebugResponse),
    Event(DebugEvent),
}

/// The request is answered without a target.
pub open spec fn needs_no_target(request: DebugRequest) -> bool {
    request is Exit || request is SetBinary || request is SetProbeNumber || request is SetChip
        || request is SetCWD
}

/// Why a command failed.
#[derive(Debug)]
pub enum DebugError {
    /// The core runs, and must not.
    CoreNotHalted,
    /// The core is halted, and must not be.
    CoreAlreadyHalted,
    /// All breakpoint units of the hardware are in use.
    NoBreakpointLeft,
    /// There is no breakpoint at the address.
    NoBreakpointAt { address: u32 },
    /// No machine code stands for the line of the source file.
    LocationNotFound,
    /// There is no variable of that name.
    VariableNotFound { name: String },
    /// A value has no part where one is needed.
    MissingChild,
    /// Nobody sends requests any more.
    Disconnected,
    /// The target, the probe or the debug information failed.
    Target { message: String },
}

/// The text for a variable that was not found.
pub open spec fn not_found_text(name: Seq<char>) -> Seq<char> {
    "Variable "@ + quoted(name) + " not found"@
}

/// The text for a variable that was not found.
pub fn not_found_message(name: &String) -> (message: String)
    ensures
        message@ == not_found_text(name@),
{
    joined("Variable ", debug_quoted(name.as_str()).as_str(), " not found")
}

impl DebugError {
    /// The error in words.
    pub open spec fn text(self) -> Seq<char> {
        match self {
            DebugError::CoreNotHalted => "Core must be halted"@,
            DebugError::CoreAlreadyHalted => "Core is already halted"@,
            DebugError::NoBreakpointLeft => "All hardware breakpoints are already set"@,
            DebugError::NoBreakpointAt { address } => "Can't remove hardware breakpoint at "@
                + decimal(address as nat),
            DebugError::LocationNotFound =>
                "Could not file location form source file line number"@,
            DebugError::VariableNotFound { name } => not_found_text(name@),
            DebugError::MissingChild => "Error"@,
            DebugError::Disconnected => "Disconnected"@,
            DebugError::Target { message } => message@,
        }
    }

    /// The error in words.
    pub fn message(&self) -> (message: String)
        ensures
            message@ == self.text(),
    {
        match self {
            DebugError::CoreNotHalted => "Core must be halted".to_owned(),
            DebugError::CoreAlreadyHalted => "Core is already halted".to_owned(),
            DebugError::NoBreakpointLeft => "All hardware breakpoints are already set".to_owned(),
            DebugError::NoBreakpointAt { address } => {
                let mut message = "Can't remove hardware breakpoint at ".to_owned();
                message.append(decimal_text(*address as u64).as_str());
                message
            },
            DebugError::LocationNotFound => {
                "Could not file location form source file line number".to_owned()
            },
            DebugError::VariableNotFound { name } => not_found_message(name),
            DebugError::MissingChild => "Error".to_owned(),
            DebugError::Disconnected => "Disconnected".to_owned(),
            DebugError::Target { message } => message.clone(),
        }
    }
}

/// The text of an error about an address ends with the address in base ten, and
/// one about a variable names it; a failure of the target is told in its own
/// words. The others say each what is wrong.
pub proof fn law_errors_tell_what_they_are_about(error: DebugError)
    ensures
        match error {
            DebugError::NoBreakpointAt { address } => {
                let head = "Can't remove hardware breakpoint at "@;
                let number = error.text().skip(head.len() as int);
                &&& error.text() == head + number
                &&& is_number_text(number, 10)
                &&& number_read(number, 10) == address
            },
            DebugError::VariableNotFound { name } => error.text() == "Variable "@ + quoted(name@)
                + " not found"@,
            DebugError::Target { message } => error.text() == message@,
            DebugError::CoreNotHalted => error.text() == "Core must be halted"@,
            DebugError::CoreAlreadyHalted => error.text() == "Core is already halted"@,
            DebugError::NoBreakpointLeft => error.text()
                == "All hardware breakpoints are already set"@,
            DebugError::LocationNotFound => error.text()
                == "Could not file location form source file line number"@,
            DebugError::MissingChild => error.text() == "Error"@,
            DebugError::Disconnected => error.text() == "Disconnected"@,
        },
{
    if let DebugError::NoBreakpointAt { address } = error {
        law_decimals_read_back(address as nat);
        let head = "Can't remove hardware breakpoint at "@;
        assert(error.text().skip(head.len() as int) =~= decimal(address as nat));
        assert(error.text() =~= head + error.text().skip(head.len() as int));
    }
}

} // verus!
