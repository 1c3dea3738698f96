//! What goes between the debugger and the target: the debugger asks for one
//! operation at a time, and goes on with the reply.
use vstd::prelude::*;

use std::path::PathBuf;

use rust_debug::registers::Registers;

use crate::breakpoint::{Breakpoint, SourceBreakpoint};
use crate::commands::{Command, DebugError};
use crate::evaluator::UnwoundFrame;
use crate::target::{CoreStatus, HaltReason, Register, RegisterId};
use crate::variable::{all_renderable, is_all_renderable};

verus! {

/// An operation on the target.
#[derive(Debug)]
#[allow(inconsistent_fields)]
pub enum Query {
    /// Get access to the core.
    OpenCore,
    /// Tell the state of the core.
    Status,
    /// List the registers of the core.
    ListRegisters,
    /// Read a register.
    ReadRegister { register: RegisterId },
    /// Write the program counter.
    WriteProgramCounter { value: u32 },
    /// Read memory byte by byte.
    ReadBytes { address: u32, length: usize },
    /// Read memory in words of 32 bits.
    ReadWords { address: u32, length: usize },
    /// Tell how many breakpoints the hardware can hold.
    CountBreakpointUnits,
    /// Set a breakpoint in the hardware.
    SetHardwareBreakpoint { address: u32 },
    /// Remove a breakpoint from the hardware.
    ClearHardwareBreakpoint { address: u32 },
    /// Remove all breakpoints from the hardware.
    ClearAllHardwareBreakpoints,
    /// Execute one instruction, and tell the program counter.
    Step,
    /// Let the core run.
    Run,
    /// Halt the core.
    Halt { timeout_ms: u64 },
    /// Reset the core.
    Reset,
    /// Reset the core and halt it.
    ResetAndHalt { timeout_ms: u64 },
    /// Write a program file to the target.
    Flash { file_path: PathBuf },
    /// Unwind the call stack from these register values, and evaluate its
    /// variables.
    Unwind { registers: Registers, cwd: String },
}

impl Query {
    /// What a failure of the operation is reported as, where it is reported as
    /// more than the failure itself.
    pub open spec fn failure_text(self) -> Option<Seq<char>> {
        match self {
            Query::Reset => Some("Failed to reset the core"@),
            Query::ResetAndHalt { .. } => Some("Failed to reset and halt the core"@),
            Query::Flash { .. } => Some("Failed to flash target"@),
            _ => None,
        }
    }

    /// What a failure of the operation is reported as, where it is reported as
    /// more than the failure itself.
    pub fn failure_context(&self) -> (context: Option<&'static str>)
        ensures
            match context {
                Some(context) => self.failure_text() == Some(context@),
                None => self.failure_text() is None,
            },
    {
        match self {
            Query::Reset => Some("Failed to reset the core"),
            Query::ResetAndHalt { .. } => Some("Failed to reset and halt the core"),
            Query::Flash { .. } => Some("Failed to flash target"),
            _ => None,
        }
    }
}

/// What an operation yields.
#[derive(Debug)]
pub enum Reply {
    /// It is done.
    Done,
    /// The state of the core.
    Status(CoreStatus),
    /// A number: the content of a register, a program counter or a count.
    Word(u32),
    /// The content of memory.
    Bytes(Vec<u8>),
    /// The content of memory.
    Words(Vec<u32>),
    /// The registers of the core.
    Registers(Vec<Register>),
    /// The call stack, innermost frame first.
    Frames(Vec<UnwoundFrame>),
}

/// Why the core is to leave the instruction at which it is halted.
#[derive(Debug, Clone, Copy, PartialEq, Eq, Structural)]
pub enum Resumption {
    /// To execute one instruction.
    Step,
    /// To run.
    Continue,
}

/// What the call stack is unwound for.
#[derive(Debug)]
pub enum TracePurpose {
    /// To show a variable.
    Variable { name: String },
    /// To show all variables.
    Variables,
    /// To show the call stack.
    StackTrace,
}

/// Breakpoints of a source file that are being set.
#[derive(Debug)]
pub struct Batch {
    pub source_file: String,
    pub requested: Vec<SourceBreakpoint>,
    /// The answers to the first of those that are requested.
    pub done: Vec<Breakpoint>,
}

/// How to go on after an operation that yields nothing.
#[derive(Debug)]
pub enum AfterDone {
    /// Attaching: the core was reset.
    Attached,
    /// Removing all breakpoints: the hardware has none.
    AllCleared,
    /// Removing a breakpoint: there is access to the core.
    ClearOpened { address: u32 },
    /// Removing a breakpoint: the hardware does not have it any more.
    Cleared { address: u32, known: bool },
    /// Setting a breakpoint: there is access to the core.
    SetOpened { address: u32, source_file: Option<String> },
    /// Setting a breakpoint: the hardware has it.
    BreakpointSet { address: u32 },
    /// Resetting: the core was reset.
    Reset,
    /// Writing the program: it is written.
    Flashed { reset_and_halt: bool },
    /// Writing the program: the core was reset.
    FlashReset,
    /// Halting: the core is halted.
    Halted,
    /// Leaving a breakpoint instruction: the program counter is behind it.
    Skipped { goal: Resumption },
    /// Leaving a breakpoint: the hardware does not have it.
    Lifted { goal: Resumption, address: u32 },
    /// Leaving a breakpoint: the hardware has it again.
    Restored { goal: Resumption },
    /// Continuing: the core runs.
    Running,
    /// Replacing all breakpoints: the hardware has none.
    BatchCleared { batch: Batch },
    /// Replacing all breakpoints: the hardware has the one placed last.
    BatchSet { batch: Batch },
}

/// How to go on once the state of the core is known.
#[derive(Debug)]
pub enum AfterStatus {
    Stack,
    Code,
    Variable { name: String },
    Variables,
    Halt,
    Status,
    Step,
    Continue,
    /// Leaving the current instruction.
    Leave { goal: Resumption },
    /// Continuing: the core was set running.
    Continued,
    /// Looking whether the core came to a halt.
    HaltCheck,
}

/// How to go on once a number is known.
#[derive(Debug)]
#[allow(inconsistent_fields)]
pub enum AfterWord {
    /// Reading the stack: where it starts.
    StackBase,
    /// Reading the stack: where it ends.
    StackPointer { base: u32 },
    /// Disassembling: the program counter.
    CodePc,
    /// Setting a breakpoint: how many the hardware can hold.
    Units { address: u32 },
    /// Replacing all breakpoints: how many the hardware can hold.
    BatchUnits { batch: Batch, address: u64 },
    /// Reading all registers: the next one.
    Register { registers: Vec<Register>, values: Vec<(String, u32)> },
    /// Unwinding: the next register.
    TraceRegister { registers: Vec<Register>, next: usize, purpose: TracePurpose },
    /// Telling the state: the program counter.
    StatusPc { status: CoreStatus },
    /// Leaving a breakpoint: the program counter.
    LeavePc { goal: Resumption },
    /// Leaving a breakpoint: the program counter after the step.
    LiftedStep { goal: Resumption, address: u32 },
    /// Leaving an instruction: the program counter after the step.
    PlainStep { goal: Resumption },
    /// The core came to a halt: the program counter.
    HaltPc { reason: HaltReason },
}

/// How to go on once bytes of the memory are known.
#[derive(Debug)]
pub enum AfterBytes {
    /// Disassembling: the code at the program counter.
    Code { pc: u32 },
    /// Reading memory.
    Read { address: u32, length: usize },
    /// Leaving a breakpoint: the instruction at the program counter.
    Leave { goal: Resumption, pc: u32 },
}

/// How to go on once the registers of the core are listed.
#[derive(Debug)]
pub enum AfterRegisters {
    /// Reading all registers.
    Registers,
    /// Unwinding.
    Trace { purpose: TracePurpose },
}

/// How to go on with a command after an operation.
#[derive(Debug)]
pub enum Pending {
    AfterDone(AfterDone),
    AfterStatus(AfterStatus),
    AfterWord(AfterWord),
    AfterBytes(AfterBytes),
    /// Reading the stack: its content.
    AfterWords { stack_pointer: u32, length: usize },
    AfterRegisters(AfterRegisters),
    /// Unwinding: the call stack.
    AfterFrames(TracePurpose),
}

/// Where a command stands.
#[derive(Debug)]
pub enum Progress {
    /// It needs an operation on the target, and goes on as `then` says.
    Ask { query: Query, then: Pending },
    /// It is carried out.
    Answer(Command),
    /// It is carried out, and there is nothing to tell.
    Nothing,
    /// It failed.
    Fail(DebugError),
}

/// How many bytes of code are disassembled.
pub const CODE_SIZE: usize = 32;

/// How many bytes a breakpoint instruction has.
pub const BREAKPOINT_SIZE: u32 = 2;

/// The code is a breakpoint instruction of Thumb code.
pub open spec fn is_breakpoint_code(code: Seq<u8>) -> bool {
    code[1] == 190 && code[0] == 0
}

impl AfterWord {
    /// The debugger can go on with the number: from the start to the end of
    /// the stack it can count in words.
    pub open spec fn accepts(self, word: u32) -> bool {
        match self {
            AfterWord::StackPointer { base } => base < word || base - word + 4 <= u32::MAX,
            _ => true,
        }
    }
}

impl AfterBytes {
    /// The debugger can go on with the bytes: they are as many as it asked
    /// for, and there is an address behind a breakpoint instruction.
    pub open spec fn accepts(self, bytes: Seq<u8>) -> bool {
        match self {
            AfterBytes::Code { .. } => bytes.len() == CODE_SIZE,
            AfterBytes::Read { length, .. } => bytes.len() == length,
            AfterBytes::Leave { pc, .. } => bytes.len() == BREAKPOINT_SIZE && (is_breakpoint_code(
                bytes,
            ) ==> pc + BREAKPOINT_SIZE <= u32::MAX),
        }
    }
}

impl Pending {
    /// The reply is one to the operation that was asked for, and the debugger
    /// can go on with it.
    pub open spec fn accepts(self, reply: Reply) -> bool {
        match self {
            Pending::AfterDone(_) => reply is Done,
            Pending::AfterStatus(_) => reply is Status,
            Pending::AfterWord(after) => reply matches Reply::Word(word) && after.accepts(word),
            Pending::AfterBytes(after) => reply matches Reply::Bytes(bytes) && after.accepts(
                bytes@,
            ),
            Pending::AfterWords { length, .. } => reply matches Reply::Words(words) && words@.len()
                == length,
            Pending::AfterRegisters(_) => reply is Registers,
            Pending::AfterFrames(_) => reply matches Reply::Frames(frames) && all_renderable(
                frames@,
            ),
        }
    }

    /// Whether the reply is one to the operation that was asked for, and the
    /// debugger can go on with it.
    pub fn is_answered_by(&self, reply: &Reply) -> (yes: bool)
        ensures
            yes == self.accepts(*reply),
    {
        match (self, reply) {
            (Pending::AfterDone(_), Reply::Done) => true,
            (Pending::AfterStatus(_), Reply::Status(_)) => true,
            (Pending::AfterWord(AfterWord::StackPointer { base }), Reply::Word(word)) => *base
                < *word || *base - *word <= 0xffff_fffb,
            (Pending::AfterWord(_), Reply::Word(_)) => true,
            (Pending::AfterBytes(AfterBytes::Code { .. }), Reply::Bytes(bytes)) => bytes.len()
                == CODE_SIZE,
            (Pending::AfterBytes(AfterBytes::Read { length, .. }), Reply::Bytes(bytes)) => {
                bytes.len() == *length
            },
            (Pending::AfterBytes(AfterBytes::Leave { pc, .. }), Reply::Bytes(bytes)) => {
                bytes.len() == 2 && (*pc <= 0xffff_fffd || !(bytes[1] == 190 && bytes[0] == 0))
            },
            (Pending::AfterWords { length, .. }, Reply::Words(words)) => words.len() == *length,
            (Pending::AfterRegisters(_), Reply::Registers(_)) => true,
            (Pending::AfterFrames(_), Reply::Frames(frames)) => is_all_renderable(frames),
            _ => false,
        }
    }
}

} // verus!
