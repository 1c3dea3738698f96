//! The commands that read the target: its state, registers and memory.
use vstd::prelude::*;

use crate::commands::{Command, DebugError, DebugEvent, DebugRequest, DebugResponse};
use crate::debugger::execution::{ask_program_counter, respond};
use crate::debugger::model::{
    after_bytes, after_status, after_word, reads_registers, starts, words_between,
};
use crate::debugger::protocol::{
    AfterBytes, AfterRegisters, AfterStatus, AfterWord, Pending, Progress, Query,
};
use crate::debugger::state::{stands_at, Debugger};
use crate::disassembly::{disassemble, listing_view, short_listing, short_listing_view, shortened};
use crate::target::{CoreStatus, HaltReason, Register, RegisterId};

verus! {

/// Answers the code at `pc`, which was disassembled.
pub fn code_disassembled(pc: u32, listing: Vec<(u64, String)>) -> (progress: Progress)
    ensures
        progress matches Progress::Answer(
            Command::Response(DebugResponse::Code { pc: start, instructions }),
        ) && start == pc && short_listing_view(instructions@) == short_listing(
            listing_view(listing@),
        ),
{
    respond(DebugResponse::Code { pc, instructions: shortened(&listing) })
}

/// Asks for the register that follows those that have been read; once all have
/// been, answers them.
pub fn read_registers(registers: Vec<Register>, values: Vec<(String, u32)>) -> (progress: Progress)
    ensures
        reads_registers(registers, values@, progress),
{
    if values.len() < registers.len() {
        let address = registers[values.len()].address;
        Progress::Ask {
            query: Query::ReadRegister { register: RegisterId::Address(address) },
            then: Pending::AfterWord(AfterWord::Register { registers, values }),
        }
    } else {
        respond(DebugResponse::Registers { registers: values })
    }
}

impl<'a> Debugger<'a> {
    /// Reads the stack, if the core is halted: first where it starts.
    pub fn stack_command(&self, status: CoreStatus) -> (progress: Progress)
        ensures
            after_status(self@, AfterStatus::Stack, status, self@, progress),
    {
        if status.is_halted() {
            Progress::Ask {
                // Register 7 holds the start of the stack.
                query: Query::ReadRegister { register: RegisterId::Address(7) },
                then: Pending::AfterWord(AfterWord::StackBase),
            }
        } else {
            Progress::Fail(DebugError::CoreNotHalted)
        }
    }

    /// Reads the stack from its pointer to its start. There is none where the
    /// pointer is behind the start.
    pub fn stack_between(&self, base: u32, stack_pointer: u32) -> (progress: Progress)
        requires
            (AfterWord::StackPointer { base }).accepts(stack_pointer),
        ensures
            after_word(
                self@,
                AfterWord::StackPointer { base },
                stack_pointer,
                self@,
                progress,
            ),
    {
        if base < stack_pointer {
            return respond(DebugResponse::Stack { stack_pointer, stack: vec![] });
        }
        let length = (((base - stack_pointer) + 4 - 1) / 4) as usize;
        assert(length == words_between(stack_pointer, base));
        Progress::Ask {
            query: Query::ReadWords { address: stack_pointer, length },
            then: Pending::AfterWords { stack_pointer, length },
        }
    }

    /// Disassembles the code at the program counter, if the core is halted.
    pub fn code_command(&self, status: CoreStatus) -> (progress: Progress)
        ensures
            after_status(self@, AfterStatus::Code, status, self@, progress),
    {
        if status.is_halted() {
            ask_program_counter(AfterWord::CodePc)
        } else {
            Progress::Fail(DebugError::CoreNotHalted)
        }
    }

    /// Disassembles the code at `pc`.
    pub fn code_read(&self, pc: u32, code: Vec<u8>) -> (progress: Progress)
        ensures
            after_bytes(self@, AfterBytes::Code { pc }, code, self@, progress),
    {
        code_disassembled(pc, disassemble(&code, pc as u64))
    }

    /// Reads all registers.
    pub fn registers_command(&self) -> (progress: Progress)
        ensures
            starts(self@, DebugRequest::Registers, self@, progress),
    {
        Progress::Ask {
            query: Query::ListRegisters,
            then: Pending::AfterRegisters(AfterRegisters::Registers),
        }
    }

    /// The next register has been read.
    pub fn register_read(
        &self,
        registers: Vec<Register>,
        mut values: Vec<(String, u32)>,
        value: u32,
    ) -> (progress: Progress)
        requires
            values@.len() < registers@.len(),
        ensures
            after_word(
                self@,
                AfterWord::Register { registers, values },
                value,
                self@,
                progress,
            ),
    {
        let name = registers[values.len()].name.clone();
        values.push((name, value));
        read_registers(registers, values)
    }

    /// Reads memory.
    pub fn read_command(&self, address: u32, byte_size: usize) -> (progress: Progress)
        ensures
            starts(self@, DebugRequest::Read { address, byte_size }, self@, progress),
    {
        Progress::Ask {
            query: Query::ReadBytes { address, length: byte_size },
            then: Pending::AfterBytes(AfterBytes::Read { address, length: byte_size }),
        }
    }

    /// Tells the state of the core, with the program counter if it is halted.
    pub fn status_command(&self, status: CoreStatus) -> (progress: Progress)
        ensures
            after_status(self@, AfterStatus::Status, status, self@, progress),
    {
        if status.is_halted() {
            ask_program_counter(AfterWord::StatusPc { status })
        } else {
            respond(DebugResponse::Status { status, pc: None })
        }
    }

    /// Tells that the core came to a halt, once the program counter is known;
    /// nothing where it is not halted.
    pub fn send_halt_event(&mut self, status: CoreStatus) -> (progress: Progress)
        ensures
            after_status(old(self)@, AfterStatus::HaltCheck, status, final(self)@, progress),
    {
        match status {
            CoreStatus::Halted(reason) => {
                self.running = false;
                ask_program_counter(AfterWord::HaltPc { reason })
            },
            _ => Progress::Nothing,
        }
    }

    /// Tells that the core came to a halt at `pc`, and which breakpoint it hit.
    pub fn halted_at(&self, reason: HaltReason, pc: u32) -> (progress: Progress)
        requires
            self@.wf(),
        ensures
            after_word(self@, AfterWord::HaltPc { reason }, pc, self@, progress),
    {
        broadcast use vstd::std_specs::hash::group_hash_axioms;

        let mut hit_breakpoint_ids: Vec<u32> = vec![];
        match self.breakpoints.get(&pc) {
            Some(breakpoint) => {
                assert(stands_at(self@.breakpoints[pc], pc));
                match breakpoint.id {
                    Some(id) => {
                        let id: u32 = #[verifier::truncate] (id as u32);
                        hit_breakpoint_ids.push(id);
                    },
                    None => (),
                }
                assert(hit_breakpoint_ids@ =~= seq![pc]);
            },
            None => (),
        }
        Progress::Answer(
            Command::Event(
                DebugEvent::Halted { pc, reason, hit_breakpoint_ids: Some(hit_breakpoint_ids) },
            ),
        )
    }
}

} // verus!
