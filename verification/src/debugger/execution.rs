//! The commands that let the core run, halt it or reset it.
use vstd::prelude::*;

use crate::commands::{Command, DebugError, DebugRequest, DebugResponse};
use crate::debugger::model::{after_bytes, after_done, after_status, leaves, reset_query, starts};
use crate::debugger::protocol::{
    AfterBytes, AfterDone, AfterStatus, AfterWord, Pending, Progress, Query, Resumption,
    BREAKPOINT_SIZE,
};
use crate::debugger::state::Debugger;
use crate::target::{CoreStatus, HaltReason, RegisterId};

verus! {

/// Asks for the state of the core.
pub(crate) fn ask_status(then: AfterStatus) -> (progress: Progress)
    ensures
        progress == (Progress::Ask { query: Query::Status, then: Pending::AfterStatus(then) }),
{
    Progress::Ask { query: Query::Status, then: Pending::AfterStatus(then) }
}

/// Asks for the program counter.
pub(crate) fn ask_program_counter(then: AfterWord) -> (progress: Progress)
    ensures
        progress == (Progress::Ask {
            query: Query::ReadRegister { register: RegisterId::ProgramCounter },
            then: Pending::AfterWord(then),
        }),
{
    Progress::Ask {
        query: Query::ReadRegister { register: RegisterId::ProgramCounter },
        then: Pending::AfterWord(then),
    }
}

/// Answers with a response.
pub(crate) fn respond(response: DebugResponse) -> (progress: Progress)
    ensures
        progress == Progress::Answer(Command::Response(response)),
{
    Progress::Answer(Command::Response(response))
}

impl<'a> Debugger<'a> {
    /// Forgets what is known of the halted core and asks for a reset.
    fn reset_core(&mut self, reset_and_halt: bool, then: AfterDone) -> (progress: Progress)
        ensures
            final(self)@ == old(self)@.without_temporaries(),
            progress == (Progress::Ask {
                query: reset_query(reset_and_halt),
                then: Pending::AfterDone(then),
            }),
    {
        self.clear_temporaries();
        let query = if reset_and_halt {
            Query::ResetAndHalt { timeout_ms: 10 }
        } else {
            Query::Reset
        };
        Progress::Ask { query, then: Pending::AfterDone(then) }
    }

    /// Attaches to the target, with a reset where one is asked for.
    pub fn attach_command(&mut self, reset: bool, reset_and_halt: bool) -> (progress: Progress)
        ensures
            starts(
                old(self)@,
                DebugRequest::Attach { reset, reset_and_halt },
                final(self)@,
                progress,
            ),
    {
        if reset_and_halt {
            self.reset_core(true, AfterDone::Attached)
        } else if reset {
            self.reset_core(false, AfterDone::Attached)
        } else {
            respond(DebugResponse::Attach)
        }
    }

    /// Resets the target.
    pub fn reset_command(&mut self, reset_and_halt: bool) -> (progress: Progress)
        ensures
            starts(
                old(self)@,
                DebugRequest::Reset { reset_and_halt },
                final(self)@,
                progress,
            ),
    {
        self.reset_core(reset_and_halt, AfterDone::Reset)
    }

    /// The core was reset: it is taken to run.
    pub fn reset_done(&mut self) -> (progress: Progress)
        ensures
            after_done(old(self)@, AfterDone::Reset, final(self)@, progress),
    {
        self.running = true;
        respond(DebugResponse::Reset)
    }

    /// Writes the program to the target.
    pub fn flash_command(&self, reset_and_halt: bool) -> (progress: Progress)
        ensures
            starts(self@, DebugRequest::Flash { reset_and_halt }, self@, progress),
    {
        Progress::Ask {
            query: Query::Flash { file_path: self.file_path.clone() },
            then: Pending::AfterDone(AfterDone::Flashed { reset_and_halt }),
        }
    }

    /// The program is written: the core is reset.
    pub fn flash_written(&mut self, reset_and_halt: bool) -> (progress: Progress)
        ensures
            after_done(
                old(self)@,
                AfterDone::Flashed { reset_and_halt },
                final(self)@,
                progress,
            ),
    {
        self.reset_core(reset_and_halt, AfterDone::FlashReset)
    }

    /// The core was reset after the program was written: it is taken to run.
    pub fn flash_done(&mut self) -> (progress: Progress)
        ensures
            after_done(old(self)@, AfterDone::FlashReset, final(self)@, progress),
    {
        self.running = true;
        respond(DebugResponse::Flash)
    }

    /// Halts the core, unless it is halted.
    pub fn halt_command(&self, status: CoreStatus) -> (progress: Progress)
        ensures
            after_status(self@, AfterStatus::Halt, status, self@, progress),
    {
        if status.is_halted() {
            Progress::Fail(DebugError::CoreAlreadyHalted)
        } else {
            Progress::Ask {
                query: Query::Halt { timeout_ms: 100 },
                then: Pending::AfterDone(AfterDone::Halted),
            }
        }
    }

    /// Lets the core execute one instruction, if it is halted.
    pub fn step_command(&self, status: CoreStatus) -> (progress: Progress)
        ensures
            after_status(self@, AfterStatus::Step, status, self@, progress),
    {
        if status.is_halted() {
            ask_status(AfterStatus::Leave { goal: Resumption::Step })
        } else {
            respond(
                DebugResponse::Error { message: "Can only step when core is halted".to_owned() },
            )
        }
    }

    /// Lets the core run, if it is halted.
    pub fn continue_command(&self, status: CoreStatus) -> (progress: Progress)
        ensures
            after_status(self@, AfterStatus::Continue, status, self@, progress),
    {
        if status.is_halted() {
            ask_status(AfterStatus::Leave { goal: Resumption::Continue })
        } else {
            respond(DebugResponse::Continue)
        }
    }

    /// The core was set running.
    pub fn continue_running(&mut self) -> (progress: Progress)
        ensures
            after_done(old(self)@, AfterDone::Running, final(self)@, progress),
    {
        self.running = true;
        ask_status(AfterStatus::Continued)
    }

    /// The core runs, and its state has been read.
    pub fn continue_done(&mut self, status: CoreStatus) -> (progress: Progress)
        ensures
            after_status(old(self)@, AfterStatus::Continued, status, final(self)@, progress),
    {
        self.clear_temporaries();
        respond(DebugResponse::Continue)
    }

    /// Leaves the instruction at which the core is halted: by a step, unless a
    /// breakpoint halted it.
    pub fn continue_fix(&self, goal: Resumption, status: CoreStatus) -> (progress: Progress)
        ensures
            after_status(self@, AfterStatus::Leave { goal }, status, self@, progress),
    {
        match status {
            CoreStatus::Halted(HaltReason::Breakpoint) => ask_program_counter(
                AfterWord::LeavePc { goal },
            ),
            _ => Progress::Ask {
                query: Query::Step,
                then: Pending::AfterWord(AfterWord::PlainStep { goal }),
            },
        }
    }

    /// Leaves the breakpoint at `pc`: a breakpoint instruction is skipped, a
    /// breakpoint of the hardware is lifted for the step.
    pub fn continue_fix_code(&self, goal: Resumption, pc: u32, code: Vec<u8>) -> (progress:
        Progress)
        requires
            (AfterBytes::Leave { goal, pc }).accepts(code@),
        ensures
            after_bytes(self@, AfterBytes::Leave { goal, pc }, code, self@, progress),
    {
        broadcast use vstd::std_specs::hash::group_hash_axioms;

        if code[1] == 190 && code[0] == 0 {
            Progress::Ask {
                query: Query::WriteProgramCounter { value: pc + BREAKPOINT_SIZE },
                then: Pending::AfterDone(AfterDone::Skipped { goal }),
            }
        } else if self.breakpoints.contains_key(&pc) {
            Progress::Ask {
                query: Query::ClearHardwareBreakpoint { address: pc },
                then: Pending::AfterDone(AfterDone::Lifted { goal, address: pc }),
            }
        } else {
            Progress::Ask {
                query: Query::Step,
                then: Pending::AfterWord(AfterWord::PlainStep { goal }),
            }
        }
    }

    /// The core has left the instruction.
    pub fn continue_fixed(&mut self, goal: Resumption) -> (progress: Progress)
        ensures
            leaves(old(self)@, goal, final(self)@, progress),
    {
        match goal {
            Resumption::Step => {
                self.running = true;
                self.clear_temporaries();
                respond(DebugResponse::Step)
            },
            Resumption::Continue => Progress::Ask {
                query: Query::Run,
                then: Pending::AfterDone(AfterDone::Running),
            },
        }
    }
}

} // verus!
