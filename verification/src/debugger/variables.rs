//! The commands that show variables and the call stack.
use vstd::prelude::*;

use crate::commands::{not_found_message, DebugError, DebugRequest, DebugResponse};
use crate::debugger::execution::{ask_status, respond};
use crate::debugger::model::{
    after_frames, after_status, after_word, asks_stack_trace, innermost_variables, starts, traces,
};
use crate::debugger::protocol::{
    AfterRegisters, AfterStatus, AfterWord, Pending, Progress, Query, TracePurpose,
};
use crate::debugger::state::Debugger;
use crate::evaluator::UnwoundFrame;
use crate::target::{CoreStatus, Register, RegisterId};
use crate::variable::{
    all_renderable, copied_frames, copied_variables, frame_views, resolve_stack_trace,
    variable_views, Variable,
};

verus! {

/// Asks for the call stack: first for the registers of the core.
pub(crate) fn set_stack_trace(purpose: TracePurpose) -> (progress: Progress)
    ensures
        progress == asks_stack_trace(purpose),
{
    Progress::Ask {
        query: Query::ListRegisters,
        then: Pending::AfterRegisters(AfterRegisters::Trace { purpose }),
    }
}

impl<'a> Debugger<'a> {
    /// Shows a variable of the innermost frame, if the core is halted.
    pub fn variable_command(&self, name: String, status: CoreStatus) -> (progress: Progress)
        ensures
            after_status(self@, AfterStatus::Variable { name }, status, self@, progress),
    {
        if !status.is_halted() {
            return Progress::Fail(DebugError::CoreNotHalted);
        }
        match &self.stack_trace {
            Some(stack_trace) => {
                assert(self@.stack_trace == Some(frame_views(stack_trace@)));
                if stack_trace.len() < 1 {
                    return Progress::Fail(DebugError::VariableNotFound { name });
                }
                assert(frame_views(stack_trace@)[0] == stack_trace@[0]@);
                match stack_trace[0].find_variable(name.as_str()) {
                    Some(variable) => {
                        let variable = variable.clone();
                        respond(DebugResponse::Variable { variable })
                    },
                    None => respond(DebugResponse::Error { message: not_found_message(&name) }),
                }
            },
            None => set_stack_trace(TracePurpose::Variable { name }),
        }
    }

    /// Shows all variables of the innermost frame, if the core is halted.
    pub fn variables_command(&self, status: CoreStatus) -> (progress: Progress)
        ensures
            after_status(self@, AfterStatus::Variables, status, self@, progress),
    {
        if !status.is_halted() {
            return Progress::Fail(DebugError::CoreNotHalted);
        }
        match &self.stack_trace {
            Some(stack_trace) => {
                assert(self@.stack_trace == Some(frame_views(stack_trace@)));
                let variables: Vec<Variable> = if stack_trace.len() == 0 {
                    vec![]
                } else {
                    assert(frame_views(stack_trace@)[0] == stack_trace@[0]@);
                    copied_variables(&stack_trace[0].variables)
                };
                assert(variable_views(variables@) =~= innermost_variables(
                    frame_views(stack_trace@),
                ));
                respond(DebugResponse::Variables { variables })
            },
            None => set_stack_trace(TracePurpose::Variables),
        }
    }

    /// Shows the call stack.
    pub fn stack_trace_command(&self) -> (progress: Progress)
        ensures
            starts(self@, DebugRequest::StackTrace, self@, progress),
    {
        match &self.stack_trace {
            Some(stack_trace) => {
                let stack_trace = copied_frames(stack_trace);
                respond(DebugResponse::StackTrace { stack_trace })
            },
            None => set_stack_trace(TracePurpose::StackTrace),
        }
    }

    /// Asks for register number `next`; once all are known, asks for the call
    /// stack.
    pub fn trace_from(&self, registers: Vec<Register>, next: usize, purpose: TracePurpose) -> (
    progress: Progress)
        ensures
            traces(self@, registers, next as int, purpose, progress),
    {
        if next < registers.len() {
            let address = registers[next].address;
            Progress::Ask {
                query: Query::ReadRegister { register: RegisterId::Address(address) },
                then: Pending::AfterWord(AfterWord::TraceRegister { registers, next, purpose }),
            }
        } else {
            Progress::Ask {
                query: Query::Unwind { registers: self.registers.clone(), cwd: self.cwd.clone() },
                then: Pending::AfterFrames(purpose),
            }
        }
    }

    /// Keeps the value of register number `next`.
    pub fn read_and_add_registers(
        &mut self,
        registers: Vec<Register>,
        next: usize,
        purpose: TracePurpose,
        value: u32,
    ) -> (progress: Progress)
        requires
            next < registers@.len(),
        ensures
            after_word(
                old(self)@,
                AfterWord::TraceRegister { registers, next, purpose },
                value,
                final(self)@,
                progress,
            ),
    {
        self.registers.add_register_value(registers[next].address, value);
        assert(next < registers.len());
        self.trace_from(registers, next + 1, purpose)
    }

    /// Keeps the call stack, and goes on with what it was unwound for.
    pub fn stack_unwound(&mut self, purpose: TracePurpose, frames: Vec<UnwoundFrame>) -> (progress:
        Progress)
        requires
            all_renderable(frames@),
        ensures
            after_frames(old(self)@, purpose, frames@, final(self)@, progress),
    {
        match resolve_stack_trace(frames) {
            Ok(stack_trace) => {
                self.stack_trace = Some(stack_trace);
            },
            Err(error) => return Progress::Fail(error),
        }
        match purpose {
            TracePurpose::Variable { name } => ask_status(AfterStatus::Variable { name }),
            TracePurpose::Variables => ask_status(AfterStatus::Variables),
            TracePurpose::StackTrace => self.stack_trace_command(),
        }
    }
}

} // verus!
