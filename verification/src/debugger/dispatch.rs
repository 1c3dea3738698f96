//! Which command a request starts, and how it goes on with each reply.
use vstd::prelude::*;

use crate::commands::{Command, DebugError, DebugRequest, DebugResponse};
use crate::debugger::execution::{ask_status, respond};
use crate::debugger::inspection::read_registers;
use crate::debugger::invariants::{law_replies_keep_the_invariant, law_requests_keep_the_invariant};
use crate::debugger::model::{
    after_bytes, after_done, after_registers, after_status, after_word, fits, remains_fit, resumes,
    serves, starts,
};
use crate::debugger::protocol::{
    AfterBytes, AfterDone, AfterRegisters, AfterStatus, AfterWord, Pending, Progress, Query, Reply,
    BREAKPOINT_SIZE, CODE_SIZE,
};
use crate::debugger::state::Debugger;
use crate::target::{CoreStatus, Register, RegisterId};

verus! {

impl<'a> Debugger<'a> {
    /// Whether the session can take the request.
    pub fn is_serving(&self, request: &DebugRequest) -> (yes: bool)
        ensures
            yes == serves(self@, *request),
    {
        let searching = match request {
            DebugRequest::SetBreakpoint { source_file, .. } => source_file.is_some(),
            DebugRequest::SetBreakpoints { source_breakpoints, .. } => source_breakpoints.len() > 0,
            _ => false,
        };
        !searching || self.debug_info.dwarf.is_searchable()
    }

    /// Starts what the request asks for. A request that needs no target is
    /// handed back.
    pub fn handle_request(&mut self, request: DebugRequest) -> (progress: Progress)
        requires
            old(self)@.wf(),
            serves(old(self)@, request),
        ensures
            starts(old(self)@, request, final(self)@, progress),
            final(self)@.wf(),
            remains_fit(final(self)@, progress),
    {
        let progress = match request {
            DebugRequest::Attach { reset, reset_and_halt } => {
                self.attach_command(reset, reset_and_halt)
            },
            DebugRequest::Stack => ask_status(AfterStatus::Stack),
            DebugRequest::Code => ask_status(AfterStatus::Code),
            DebugRequest::ClearAllBreakpoints => self.clear_all_breakpoints_command(),
            DebugRequest::ClearBreakpoint { address } => Progress::Ask {
                query: Query::OpenCore,
                then: Pending::AfterDone(AfterDone::ClearOpened { address }),
            },
            DebugRequest::SetBreakpoint { address, source_file } => Progress::Ask {
                query: Query::OpenCore,
                then: Pending::AfterDone(AfterDone::SetOpened { address, source_file }),
            },
            DebugRequest::Registers => self.registers_command(),
            DebugRequest::Variable { name } => ask_status(AfterStatus::Variable { name }),
            DebugRequest::Variables => ask_status(AfterStatus::Variables),
            DebugRequest::StackTrace => self.stack_trace_command(),
            DebugRequest::Read { address, byte_size } => self.read_command(address, byte_size),
            DebugRequest::Reset { reset_and_halt } => self.reset_command(reset_and_halt),
            DebugRequest::Flash { reset_and_halt } => self.flash_command(reset_and_halt),
            DebugRequest::Halt => ask_status(AfterStatus::Halt),
            DebugRequest::Status => ask_status(AfterStatus::Status),
            DebugRequest::Continue => ask_status(AfterStatus::Continue),
            DebugRequest::Step => ask_status(AfterStatus::Step),
            DebugRequest::SetBreakpoints { source_file, source_breakpoints } => {
                self.set_breakpoints_command(source_file, source_breakpoints)
            },
            _ => Progress::Answer(Command::Request(request)),
        };
        proof {
            law_requests_keep_the_invariant(old(self)@, request, self@, progress);
        }
        progress
    }

    fn resume_done(&mut self, pending: AfterDone) -> (progress: Progress)
        requires
            fits(old(self)@, Pending::AfterDone(pending)),
        ensures
            after_done(old(self)@, pending, final(self)@, progress),
    {
        match pending {
            AfterDone::Attached => respond(DebugResponse::Attach),
            AfterDone::AllCleared => self.all_breakpoints_cleared(),
            AfterDone::ClearOpened { address } => self.clear_breakpoint_command(address),
            AfterDone::Cleared { address, known } => if known {
                respond(DebugResponse::ClearBreakpoint)
            } else {
                Progress::Fail(DebugError::NoBreakpointAt { address })
            },
            AfterDone::SetOpened { address, source_file } => {
                self.set_breakpoint_command(address, source_file)
            },
            AfterDone::BreakpointSet { address } => self.breakpoint_set(address),
            AfterDone::Reset => self.reset_done(),
            AfterDone::Flashed { reset_and_halt } => self.flash_written(reset_and_halt),
            AfterDone::FlashReset => self.flash_done(),
            AfterDone::Halted => respond(DebugResponse::Halt),
            AfterDone::Skipped { goal } => self.continue_fixed(goal),
            AfterDone::Lifted { goal, address } => Progress::Ask {
                query: Query::Step,
                then: Pending::AfterWord(AfterWord::LiftedStep { goal, address }),
            },
            AfterDone::Restored { goal } => self.continue_fixed(goal),
            AfterDone::Running => self.continue_running(),
            AfterDone::BatchCleared { batch } => self.batch_cleared(batch),
            AfterDone::BatchSet { batch } => self.place_next(batch),
        }
    }

    fn resume_status(&mut self, pending: AfterStatus, status: CoreStatus) -> (progress: Progress)
        ensures
            after_status(old(self)@, pending, status, final(self)@, progress),
    {
        match pending {
            AfterStatus::Stack => self.stack_command(status),
            AfterStatus::Code => self.code_command(status),
            AfterStatus::Variable { name } => self.variable_command(name, status),
            AfterStatus::Variables => self.variables_command(status),
            AfterStatus::Halt => self.halt_command(status),
            AfterStatus::Status => self.status_command(status),
            AfterStatus::Step => self.step_command(status),
            AfterStatus::Continue => self.continue_command(status),
            AfterStatus::Leave { goal } => self.continue_fix(goal, status),
            AfterStatus::Continued => self.continue_done(status),
            AfterStatus::HaltCheck => self.send_halt_event(status),
        }
    }

    fn resume_word(&mut self, pending: AfterWord, word: u32) -> (progress: Progress)
        requires
            old(self)@.wf(),
            fits(old(self)@, Pending::AfterWord(pending)),
            pending.accepts(word),
        ensures
            after_word(old(self)@, pending, word, final(self)@, progress),
    {
        match pending {
            AfterWord::StackBase => Progress::Ask {
                query: Query::ReadRegister { register: RegisterId::StackPointer },
                then: Pending::AfterWord(AfterWord::StackPointer { base: word }),
            },
            AfterWord::StackPointer { base } => self.stack_between(base, word),
            AfterWord::CodePc => Progress::Ask {
                query: Query::ReadBytes { address: word, length: CODE_SIZE },
                then: Pending::AfterBytes(AfterBytes::Code { pc: word }),
            },
            AfterWord::Units { address } => self.set_breakpoint_within(address, word),
            AfterWord::BatchUnits { batch, address } => self.place_within(batch, address, word),
            AfterWord::Register { registers, values } => {
                self.register_read(registers, values, word)
            },
            AfterWord::TraceRegister { registers, next, purpose } => {
                self.read_and_add_registers(registers, next, purpose, word)
            },
            AfterWord::StatusPc { status } => respond(
                DebugResponse::Status { status, pc: Some(word) },
            ),
            AfterWord::LeavePc { goal } => Progress::Ask {
                query: Query::ReadBytes { address: word, length: BREAKPOINT_SIZE as usize },
                then: Pending::AfterBytes(AfterBytes::Leave { goal, pc: word }),
            },
            AfterWord::LiftedStep { goal, address } => Progress::Ask {
                query: Query::SetHardwareBreakpoint { address },
                then: Pending::AfterDone(AfterDone::Restored { goal }),
            },
            AfterWord::PlainStep { goal } => self.continue_fixed(goal),
            AfterWord::HaltPc { reason } => self.halted_at(reason, word),
        }
    }

    fn resume_bytes(&mut self, pending: AfterBytes, bytes: Vec<u8>) -> (progress: Progress)
        requires
            pending.accepts(bytes@),
        ensures
            after_bytes(old(self)@, pending, bytes, final(self)@, progress),
    {
        match pending {
            AfterBytes::Code { pc } => self.code_read(pc, bytes),
            AfterBytes::Read { address, .. } => respond(
                DebugResponse::Read { address, value: bytes },
            ),
            AfterBytes::Leave { goal, pc } => self.continue_fix_code(goal, pc, bytes),
        }
    }

    fn resume_registers(&mut self, pending: AfterRegisters, registers: Vec<Register>) -> (progress:
        Progress)
        ensures
            after_registers(old(self)@, pending, registers, final(self)@, progress),
    {
        match pending {
            AfterRegisters::Registers => read_registers(registers, vec![]),
            AfterRegisters::Trace { purpose } => self.trace_from(registers, 0, purpose),
        }
    }

    /// Goes on with a command once the operation that it needs is done. An
    /// operation that fails ends the command.
    pub fn resume(&mut self, pending: Pending, reply: Result<Reply, String>) -> (progress: Progress)
        requires
            old(self)@.wf(),
            fits(old(self)@, pending),
            reply matches Ok(reply) ==> pending.accepts(reply),
        ensures
            resumes(old(self)@, pending, reply, final(self)@, progress),
            final(self)@.wf(),
            remains_fit(final(self)@, progress),
    {
        let reply = match reply {
            Ok(reply) => reply,
            Err(message) => return Progress::Fail(DebugError::Target { message }),
        };
        let progress = match (pending, reply) {
            (Pending::AfterDone(pending), _) => self.resume_done(pending),
            (Pending::AfterStatus(pending), Reply::Status(status)) => {
                self.resume_status(pending, status)
            },
            (Pending::AfterWord(pending), Reply::Word(word)) => self.resume_word(pending, word),
            (Pending::AfterBytes(pending), Reply::Bytes(bytes)) => {
                self.resume_bytes(pending, bytes)
            },
            (Pending::AfterWords { stack_pointer, .. }, Reply::Words(stack)) => respond(
                DebugResponse::Stack { stack_pointer, stack },
            ),
            (Pending::AfterRegisters(pending), Reply::Registers(registers)) => {
                self.resume_registers(pending, registers)
            },
            (Pending::AfterFrames(purpose), Reply::Frames(frames)) => {
                self.stack_unwound(purpose, frames)
            },
            _ => Progress::Nothing,
        };
        proof {
            law_replies_keep_the_invariant(old(self)@, pending, reply, self@, progress);
        }
        progress
    }
}

} // verus!
