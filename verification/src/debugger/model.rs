//! How a debug session goes: what each request starts, and how it goes on
//! with each reply of the target.
use vstd::prelude::*;

use rust_debug::registers::Registers;

use crate::breakpoint::{Breakpoint, SourceBreakpoint};
use crate::commands::{not_found_text, Command, DebugError, DebugEvent, DebugRequest, DebugResponse};
use crate::debug_information::{breakpoint_location, searchable};
use crate::debugger::protocol::{
    is_breakpoint_code, AfterBytes, AfterDone, AfterRegisters, AfterStatus, AfterWord, Pending,
    Progress, Query, Reply, Resumption, TracePurpose, BREAKPOINT_SIZE, CODE_SIZE,
};
use crate::debugger::state::DebuggerView;
use crate::disassembly::{short_listing, short_listing_view, thumb_instructions};
use crate::evaluator::UnwoundFrame;
use crate::registers::{designated_registers, register_values};
use crate::target::{CoreStatus, HaltReason, Register, RegisterId};
use crate::variable::{
    first_named, frame_views, resolved_trace, variable_views, StackFrameView, VariableView,
};

verus! {

/// The command is answered by a response.
pub open spec fn responds(response: DebugResponse) -> Progress {
    Progress::Answer(Command::Response(response))
}

/// The command needs an operation.
pub open spec fn asks(query: Query, then: Pending) -> Progress {
    Progress::Ask { query, then }
}

/// The command needs the state of the core.
pub open spec fn asks_status(then: AfterStatus) -> Progress {
    asks(Query::Status, Pending::AfterStatus(then))
}

/// The command needs the program counter.
pub open spec fn asks_program_counter(then: AfterWord) -> Progress {
    asks(
        Query::ReadRegister { register: RegisterId::ProgramCounter },
        Pending::AfterWord(then),
    )
}

/// How the core is reset.
pub open spec fn reset_query(reset_and_halt: bool) -> Query {
    if reset_and_halt {
        Query::ResetAndHalt { timeout_ms: 10 }
    } else {
        Query::Reset
    }
}

/// How many words of 32 bits it takes to get from `pointer` to `base`.
pub open spec fn words_between(pointer: u32, base: u32) -> usize {
    ((base - pointer + 3) / 4) as usize
}

// Variables and the call stack

/// The variables of the innermost frame.
pub open spec fn innermost_variables(frames: Seq<StackFrameView>) -> Seq<VariableView> {
    if frames.len() == 0 {
        Seq::empty()
    } else {
        frames[0].variables
    }
}

/// The variable is shown, or the answer is that there is none of that name.
pub open spec fn shows_variable(
    frames: Seq<StackFrameView>,
    name: String,
    progress: Progress,
) -> bool {
    if frames.len() == 0 {
        progress == Progress::Fail(DebugError::VariableNotFound { name })
    } else {
        match first_named(frames[0].variables, name@) {
            Some(found) => progress matches Progress::Answer(
                Command::Response(DebugResponse::Variable { variable }),
            ) && variable@ == found,
            None => progress matches Progress::Answer(
                Command::Response(DebugResponse::Error { message }),
            ) && message@ == not_found_text(name@),
        }
    }
}

/// The variables of the innermost frame are shown.
pub open spec fn shows_variables(frames: Seq<StackFrameView>, progress: Progress) -> bool {
    progress matches Progress::Answer(Command::Response(DebugResponse::Variables { variables }))
        && variable_views(variables@) == innermost_variables(frames)
}

/// The call stack is shown.
pub open spec fn shows_stack_trace(frames: Seq<StackFrameView>, progress: Progress) -> bool {
    progress matches Progress::Answer(Command::Response(DebugResponse::StackTrace { stack_trace }))
        && frame_views(stack_trace@) == frames
}

/// The command needs the call stack.
pub open spec fn asks_stack_trace(purpose: TracePurpose) -> Progress {
    asks(Query::ListRegisters, Pending::AfterRegisters(AfterRegisters::Trace { purpose }))
}

/// The registers from number `next` on are still to be read before the call
/// stack is unwound.
pub open spec fn traces(
    d: DebuggerView,
    registers: Vec<Register>,
    next: int,
    purpose: TracePurpose,
    progress: Progress,
) -> bool {
    if next < registers@.len() {
        progress == asks(
            Query::ReadRegister { register: RegisterId::Address(registers@[next].address) },
            Pending::AfterWord(AfterWord::TraceRegister { registers, next: next as usize, purpose }),
        )
    } else {
        &&& progress matches Progress::Ask { query: Query::Unwind { registers: start, cwd }, then }
        &&& register_values(start) == d.register_values
        &&& designated_registers(start) == d.designated_registers
        &&& cwd@ == d.cwd
        &&& then == Pending::AfterFrames(purpose)
    }
}

/// The register that follows those that have been read is read next; once all
/// have been, they are answered.
pub open spec fn reads_registers(
    registers: Vec<Register>,
    values: Seq<(String, u32)>,
    progress: Progress,
) -> bool {
    if values.len() < registers@.len() {
        &&& progress matches Progress::Ask {
            query,
            then: Pending::AfterWord(AfterWord::Register { registers: all, values: read }),
        }
        &&& query == (Query::ReadRegister {
            register: RegisterId::Address(registers@[values.len() as int].address),
        })
        &&& all == registers
        &&& read@ == values
    } else {
        progress matches Progress::Answer(
            Command::Response(DebugResponse::Registers { registers: read }),
        ) && read@ == values
    }
}

// Breakpoints

/// The breakpoint for a single address.
pub open spec fn address_breakpoint(address: u32) -> Breakpoint {
    Breakpoint::with(Some(address as i64), true, None, None)
}

/// A column as the debug information has it.
pub open spec fn unsigned_column(column: Option<i64>) -> Option<u64> {
    match column {
        Some(c) => Some(c as u64),
        None => None,
    }
}

/// Where the breakpoint belongs: no value where the search failed, and no
/// address where there is none.
pub open spec fn location_of(
    d: DebuggerView,
    source_file: Seq<char>,
    requested: SourceBreakpoint,
) -> Option<Option<u64>> {
    breakpoint_location(
        d.dwarf,
        d.cwd,
        source_file,
        requested.line as u64,
        unsigned_column(requested.column),
    )
}

/// The answer to a breakpoint that belongs nowhere.
pub open spec fn unlocated(requested: SourceBreakpoint) -> Breakpoint {
    Breakpoint::with(None, false, Some(requested.line), requested.column)
}

/// The answer to a breakpoint that belongs at `address`.
pub open spec fn located(
    requested: SourceBreakpoint,
    address: u64,
    verified: bool,
) -> Breakpoint {
    Breakpoint::with(Some(address as i64), verified, Some(requested.line), requested.column)
}

/// The first from number `from` on for which the search fails or finds an
/// address.
pub open spec fn next_located(
    d: DebuggerView,
    source_file: Seq<char>,
    requested: Seq<SourceBreakpoint>,
    from: int,
) -> int
    decreases requested.len() - from,
{
    if from < 0 || from >= requested.len() || location_of(d, source_file, requested[from])
        != Some(None::<u64>) {
        from
    } else {
        next_located(d, source_file, requested, from + 1)
    }
}

/// `done` with the answers to those up to number `to`, which belong nowhere.
pub open spec fn with_unlocated(
    done: Seq<Breakpoint>,
    requested: Seq<SourceBreakpoint>,
    to: int,
) -> Seq<Breakpoint> {
    done + Seq::new((to - done.len()) as nat, |i: int| unlocated(requested[done.len() + i]))
}

/// Those that belong nowhere are answered up to the next that belongs
/// somewhere. For that one the command needs to know how many breakpoints the
/// hardware can hold; where there is none left, all are answered.
pub open spec fn places(
    d: DebuggerView,
    source_file: String,
    requested: Vec<SourceBreakpoint>,
    done: Seq<Breakpoint>,
    progress: Progress,
) -> bool {
    let next = next_located(d, source_file@, requested@, done.len() as int);
    let answered = with_unlocated(done, requested@, next);
    if next >= requested@.len() {
        progress matches Progress::Answer(
            Command::Response(DebugResponse::SetBreakpoints { breakpoints }),
        ) && breakpoints@ == answered
    } else {
        match location_of(d, source_file@, requested@[next]) {
            None => progress matches Progress::Fail(DebugError::Target { .. }),
            Some(None) => false,
            Some(Some(address)) => {
                &&& progress matches Progress::Ask {
                    query: Query::CountBreakpointUnits,
                    then: Pending::AfterWord(AfterWord::BatchUnits { batch, address: found }),
                }
                &&& found == address
                &&& batch.source_file == source_file
                &&& batch.requested == requested
                &&& batch.done@ == answered
            },
        }
    }
}

// Leaving the instruction at which the core is halted

/// The core has left the instruction. To step, that is all; to continue, it
/// is set running.
pub open spec fn leaves(
    d: DebuggerView,
    goal: Resumption,
    after: DebuggerView,
    progress: Progress,
) -> bool {
    match goal {
        Resumption::Step => {
            &&& after == (DebuggerView { running: true, ..d.without_temporaries() })
            &&& progress == responds(DebugResponse::Step)
        },
        Resumption::Continue => {
            &&& after == d
            &&& progress == asks(Query::Run, Pending::AfterDone(AfterDone::Running))
        },
    }
}

// Requests

/// The request looks for lines of a source file.
pub open spec fn searches(request: DebugRequest) -> bool {
    match request {
        DebugRequest::SetBreakpoint { source_file, .. } => source_file is Some,
        DebugRequest::SetBreakpoints { source_breakpoints, .. } => source_breakpoints@.len() > 0,
        _ => false,
    }
}

/// The session can take the request: its debug information can be searched,
/// where the request asks for that.
pub open spec fn serves(d: DebuggerView, request: DebugRequest) -> bool {
    searches(request) ==> searchable(d.dwarf)
}

/// What a request starts.
pub open spec fn starts(
    d: DebuggerView,
    request: DebugRequest,
    after: DebuggerView,
    progress: Progress,
) -> bool {
    match request {
        DebugRequest::Attach { reset, reset_and_halt } => if reset_and_halt || reset {
            &&& after == d.without_temporaries()
            &&& progress == asks(
                reset_query(reset_and_halt),
                Pending::AfterDone(AfterDone::Attached),
            )
        } else {
            &&& after == d
            &&& progress == responds(DebugResponse::Attach)
        },
        DebugRequest::Stack => after == d && progress == asks_status(AfterStatus::Stack),
        DebugRequest::Code => after == d && progress == asks_status(AfterStatus::Code),
        DebugRequest::ClearAllBreakpoints => after == d && progress == asks(
            Query::ClearAllHardwareBreakpoints,
            Pending::AfterDone(AfterDone::AllCleared),
        ),
        DebugRequest::ClearBreakpoint { address } => after == d && progress == asks(
            Query::OpenCore,
            Pending::AfterDone(AfterDone::ClearOpened { address }),
        ),
        DebugRequest::SetBreakpoint { address, source_file } => after == d && progress == asks(
            Query::OpenCore,
            Pending::AfterDone(AfterDone::SetOpened { address, source_file }),
        ),
        DebugRequest::Registers => after == d && progress == asks(
            Query::ListRegisters,
            Pending::AfterRegisters(AfterRegisters::Registers),
        ),
        DebugRequest::Variable { name } => after == d && progress == asks_status(
            AfterStatus::Variable { name },
        ),
        DebugRequest::Variables => after == d && progress == asks_status(AfterStatus::Variables),
        DebugRequest::StackTrace => after == d && match d.stack_trace {
            Some(frames) => shows_stack_trace(frames, progress),
            None => progress == asks_stack_trace(TracePurpose::StackTrace),
        },
        DebugRequest::Read { address, byte_size } => after == d && progress == asks(
            Query::ReadBytes { address, length: byte_size },
            Pending::AfterBytes(AfterBytes::Read { address, length: byte_size }),
        ),
        DebugRequest::Reset { reset_and_halt } => {
            &&& after == d.without_temporaries()
            &&& progress == asks(
                reset_query(reset_and_halt),
                Pending::AfterDone(AfterDone::Reset),
            )
        },
        DebugRequest::Flash { reset_and_halt } => after == d && progress == asks(
            Query::Flash { file_path: d.file_path },
            Pending::AfterDone(AfterDone::Flashed { reset_and_halt }),
        ),
        DebugRequest::Halt => after == d && progress == asks_status(AfterStatus::Halt),
        DebugRequest::Status => after == d && progress == asks_status(AfterStatus::Status),
        DebugRequest::Continue => after == d && progress == asks_status(AfterStatus::Continue),
        DebugRequest::Step => after == d && progress == asks_status(AfterStatus::Step),
        DebugRequest::SetBreakpoints { source_file, source_breakpoints } => {
            &&& after == d
            &&& progress matches Progress::Ask {
                query: Query::ClearAllHardwareBreakpoints,
                then: Pending::AfterDone(AfterDone::BatchCleared { batch }),
            }
            &&& batch.source_file == source_file
            &&& batch.requested == source_breakpoints
            &&& batch.done@ == Seq::<Breakpoint>::empty()
        },
        _ => after == d && progress == Progress::Answer(Command::Request(request)),
    }
}

// Replies

/// How a command goes on after an operation that yields nothing.
pub open spec fn after_done(
    d: DebuggerView,
    pending: AfterDone,
    after: DebuggerView,
    progress: Progress,
) -> bool {
    match pending {
        AfterDone::Attached => after == d && progress == responds(DebugResponse::Attach),
        AfterDone::AllCleared => {
            &&& after == (DebuggerView { breakpoints: Map::empty(), ..d })
            &&& progress == responds(DebugResponse::ClearAllBreakpoints)
        },
        AfterDone::ClearOpened { address } => {
            &&& after == (DebuggerView { breakpoints: d.breakpoints.remove(address), ..d })
            &&& progress == asks(
                Query::ClearHardwareBreakpoint { address },
                Pending::AfterDone(
                    AfterDone::Cleared { address, known: d.breakpoints.contains_key(address) },
                ),
            )
        },
        AfterDone::Cleared { address, known } => after == d && progress == if known {
            responds(DebugResponse::ClearBreakpoint)
        } else {
            Progress::Fail(DebugError::NoBreakpointAt { address })
        },
        AfterDone::SetOpened { address, source_file } => after == d && match source_file {
            None => progress == asks(
                Query::CountBreakpointUnits,
                Pending::AfterWord(AfterWord::Units { address }),
            ),
            Some(path) => match breakpoint_location(
                d.dwarf,
                d.cwd,
                path@,
                address as u64,
                None,
            ) {
                None => progress matches Progress::Fail(DebugError::Target { .. }),
                Some(None) => progress == Progress::Fail(DebugError::LocationNotFound),
                Some(Some(found)) => progress == asks(
                    Query::CountBreakpointUnits,
                    Pending::AfterWord(AfterWord::Units { address: found as u32 }),
                ),
            },
        },
        AfterDone::BreakpointSet { address } => {
            &&& after == (DebuggerView {
                breakpoints: d.breakpoints.insert(address, address_breakpoint(address)),
                ..d
            })
            &&& progress == responds(DebugResponse::SetBreakpoint)
        },
        AfterDone::Reset => {
            &&& after == (DebuggerView { running: true, ..d })
            &&& progress == responds(DebugResponse::Reset)
        },
        AfterDone::Flashed { reset_and_halt } => {
            &&& after == d.without_temporaries()
            &&& progress == asks(
                reset_query(reset_and_halt),
                Pending::AfterDone(AfterDone::FlashReset),
            )
        },
        AfterDone::FlashReset => {
            &&& after == (DebuggerView { running: true, ..d })
            &&& progress == responds(DebugResponse::Flash)
        },
        AfterDone::Halted => after == d && progress == responds(DebugResponse::Halt),
        AfterDone::Skipped { goal } => leaves(d, goal, after, progress),
        AfterDone::Lifted { goal, address } => after == d && progress == asks(
            Query::Step,
            Pending::AfterWord(AfterWord::LiftedStep { goal, address }),
        ),
        AfterDone::Restored { goal } => leaves(d, goal, after, progress),
        AfterDone::Running => {
            &&& after == (DebuggerView { running: true, ..d })
            &&& progress == asks_status(AfterStatus::Continued)
        },
        AfterDone::BatchCleared { batch } => {
            &&& after == (DebuggerView { breakpoints: Map::empty(), ..d })
            &&& places(after, batch.source_file, batch.requested, batch.done@, progress)
        },
        AfterDone::BatchSet { batch } => {
            &&& after == d
            &&& places(d, batch.source_file, batch.requested, batch.done@, progress)
        },
    }
}

/// How a command goes on once the state of the core is known.
pub open spec fn after_status(
    d: DebuggerView,
    pending: AfterStatus,
    status: CoreStatus,
    after: DebuggerView,
    progress: Progress,
) -> bool {
    match pending {
        AfterStatus::Stack => after == d && progress == if status is Halted {
            asks(
                Query::ReadRegister { register: RegisterId::Address(7) },
                Pending::AfterWord(AfterWord::StackBase),
            )
        } else {
            Progress::Fail(DebugError::CoreNotHalted)
        },
        AfterStatus::Code => after == d && progress == if status is Halted {
            asks_program_counter(AfterWord::CodePc)
        } else {
            Progress::Fail(DebugError::CoreNotHalted)
        },
        AfterStatus::Variable { name } => after == d && if status is Halted {
            match d.stack_trace {
                Some(frames) => shows_variable(frames, name, progress),
                None => progress == asks_stack_trace(TracePurpose::Variable { name }),
            }
        } else {
            progress == Progress::Fail(DebugError::CoreNotHalted)
        },
        AfterStatus::Variables => after == d && if status is Halted {
            match d.stack_trace {
                Some(frames) => shows_variables(frames, progress),
                None => progress == asks_stack_trace(TracePurpose::Variables),
            }
        } else {
            progress == Progress::Fail(DebugError::CoreNotHalted)
        },
        AfterStatus::Halt => after == d && progress == if status is Halted {
            Progress::Fail(DebugError::CoreAlreadyHalted)
        } else {
            asks(Query::Halt { timeout_ms: 100 }, Pending::AfterDone(AfterDone::Halted))
        },
        AfterStatus::Status => after == d && progress == if status is Halted {
            asks_program_counter(AfterWord::StatusPc { status })
        } else {
            responds(DebugResponse::Status { status, pc: None })
        },
        AfterStatus::Step => after == d && if status is Halted {
            progress == asks_status(AfterStatus::Leave { goal: Resumption::Step })
        } else {
            progress matches Progress::Answer(
                Command::Response(DebugResponse::Error { message }),
            ) && message@ == "Can only step when core is halted"@
        },
        AfterStatus::Continue => after == d && progress == if status is Halted {
            asks_status(AfterStatus::Leave { goal: Resumption::Continue })
        } else {
            responds(DebugResponse::Continue)
        },
        AfterStatus::Leave { goal } => after == d && progress == if status
            == CoreStatus::Halted(HaltReason::Breakpoint) {
            asks_program_counter(AfterWord::LeavePc { goal })
        } else {
            asks(Query::Step, Pending::AfterWord(AfterWord::PlainStep { goal }))
        },
        AfterStatus::Continued => {
            &&& after == d.without_temporaries()
            &&& progress == responds(DebugResponse::Continue)
        },
        AfterStatus::HaltCheck => match status {
            CoreStatus::Halted(reason) => {
                &&& after == (DebuggerView { running: false, ..d })
                &&& progress == asks_program_counter(AfterWord::HaltPc { reason })
            },
            _ => after == d && progress == Progress::Nothing,
        },
    }
}

/// How a command goes on once a number is known.
pub open spec fn after_word(
    d: DebuggerView,
    pending: AfterWord,
    word: u32,
    after: DebuggerView,
    progress: Progress,
) -> bool {
    match pending {
        AfterWord::StackBase => after == d && progress == asks(
            Query::ReadRegister { register: RegisterId::StackPointer },
            Pending::AfterWord(AfterWord::StackPointer { base: word }),
        ),
        AfterWord::StackPointer { base } => after == d && if base < word {
            progress matches Progress::Answer(
                Command::Response(DebugResponse::Stack { stack_pointer, stack }),
            ) && stack_pointer == word && stack@ == Seq::<u32>::empty()
        } else {
            progress == asks(
                Query::ReadWords { address: word, length: words_between(word, base) },
                Pending::AfterWords {
                    stack_pointer: word,
                    length: words_between(word, base),
                },
            )
        },
        AfterWord::CodePc => after == d && progress == asks(
            Query::ReadBytes { address: word, length: CODE_SIZE },
            Pending::AfterBytes(AfterBytes::Code { pc: word }),
        ),
        AfterWord::Units { address } => after == d && progress == if (d.breakpoints.len() as u32)
            < word {
            asks(
                Query::SetHardwareBreakpoint { address },
                Pending::AfterDone(AfterDone::BreakpointSet { address }),
            )
        } else {
            Progress::Fail(DebugError::NoBreakpointLeft)
        },
        AfterWord::BatchUnits { batch, address } => {
            let asked = batch.requested@[batch.done@.len() as int];
            if d.breakpoints.len() < word {
                let breakpoint = located(asked, address, true);
                &&& after == (DebuggerView {
                    breakpoints: d.breakpoints.insert(address as u32, breakpoint),
                    ..d
                })
                &&& progress matches Progress::Ask {
                    query,
                    then: Pending::AfterDone(AfterDone::BatchSet { batch: grown }),
                }
                &&& query == (Query::SetHardwareBreakpoint { address: address as u32 })
                &&& grown.source_file == batch.source_file
                &&& grown.requested == batch.requested
                &&& grown.done@ == batch.done@.push(breakpoint)
            } else {
                &&& after == d
                &&& places(
                    d,
                    batch.source_file,
                    batch.requested,
                    batch.done@.push(located(asked, address, false)),
                    progress,
                )
            }
        },
        AfterWord::Register { registers, values } => after == d && reads_registers(
            registers,
            values@.push((registers@[values@.len() as int].name, word)),
            progress,
        ),
        AfterWord::TraceRegister { registers, next, purpose } => {
            &&& after == (DebuggerView {
                register_values: d.register_values.insert(registers@[next as int].address, word),
                ..d
            })
            &&& traces(after, registers, next + 1, purpose, progress)
        },
        AfterWord::StatusPc { status } => after == d && progress == responds(
            DebugResponse::Status { status, pc: Some(word) },
        ),
        AfterWord::LeavePc { goal } => after == d && progress == asks(
            Query::ReadBytes { address: word, length: BREAKPOINT_SIZE as usize },
            Pending::AfterBytes(AfterBytes::Leave { goal, pc: word }),
        ),
        AfterWord::LiftedStep { goal, address } => after == d && progress == asks(
            Query::SetHardwareBreakpoint { address },
            Pending::AfterDone(AfterDone::Restored { goal }),
        ),
        AfterWord::PlainStep { goal } => leaves(d, goal, after, progress),
        AfterWord::HaltPc { reason } => {
            &&& after == d
            &&& progress matches Progress::Answer(
                Command::Event(
                    DebugEvent::Halted { pc, reason: why, hit_breakpoint_ids: Some(ids) },
                ),
            )
            &&& pc == word
            &&& why == reason
            &&& ids@ == if d.breakpoints.contains_key(word) {
                seq![word]
            } else {
                Seq::empty()
            }
        },
    }
}

/// How a command goes on once bytes of the memory are known.
pub open spec fn after_bytes(
    d: DebuggerView,
    pending: AfterBytes,
    bytes: Vec<u8>,
    after: DebuggerView,
    progress: Progress,
) -> bool {
    match pending {
        AfterBytes::Code { pc } => {
            &&& after == d
            &&& progress matches Progress::Answer(
                Command::Response(DebugResponse::Code { pc: start, instructions }),
            )
            &&& start == pc
            &&& short_listing_view(instructions@) == short_listing(
                thumb_instructions(bytes@, pc as u64),
            )
        },
        AfterBytes::Read { address, .. } => after == d && progress == responds(
            DebugResponse::Read { address, value: bytes },
        ),
        AfterBytes::Leave { goal, pc } => after == d && progress == if is_breakpoint_code(bytes@) {
            asks(
                Query::WriteProgramCounter { value: (pc + BREAKPOINT_SIZE) as u32 },
                Pending::AfterDone(AfterDone::Skipped { goal }),
            )
        } else if d.breakpoints.contains_key(pc) {
            asks(
                Query::ClearHardwareBreakpoint { address: pc },
                Pending::AfterDone(AfterDone::Lifted { goal, address: pc }),
            )
        } else {
            asks(Query::Step, Pending::AfterWord(AfterWord::PlainStep { goal }))
        },
    }
}

/// How a command goes on once the registers of the core are listed.
pub open spec fn after_registers(
    d: DebuggerView,
    pending: AfterRegisters,
    registers: Vec<Register>,
    after: DebuggerView,
    progress: Progress,
) -> bool {
    match pending {
        AfterRegisters::Registers => after == d && reads_registers(
            registers,
            Seq::empty(),
            progress,
        ),
        AfterRegisters::Trace { purpose } => after == d && traces(
            d,
            registers,
            0,
            purpose,
            progress,
        ),
    }
}

/// How a command goes on once the call stack is unwound.
pub open spec fn after_frames(
    d: DebuggerView,
    purpose: TracePurpose,
    frames: Seq<UnwoundFrame>,
    after: DebuggerView,
    progress: Progress,
) -> bool {
    &&& after == (DebuggerView { stack_trace: Some(resolved_trace(frames)), ..d })
    &&& match purpose {
        TracePurpose::Variable { name } => progress == asks_status(AfterStatus::Variable { name }),
        TracePurpose::Variables => progress == asks_status(AfterStatus::Variables),
        TracePurpose::StackTrace => shows_stack_trace(resolved_trace(frames), progress),
    }
}

/// How a command goes on with a reply.
pub open spec fn goes_on(
    d: DebuggerView,
    pending: Pending,
    reply: Reply,
    after: DebuggerView,
    progress: Progress,
) -> bool {
    match pending {
        Pending::AfterDone(p) => after_done(d, p, after, progress),
        Pending::AfterStatus(p) => after_status(d, p, reply->Status_0, after, progress),
        Pending::AfterWord(p) => after_word(d, p, reply->Word_0, after, progress),
        Pending::AfterBytes(p) => after_bytes(d, p, reply->Bytes_0, after, progress),
        Pending::AfterWords { stack_pointer, .. } => after == d && progress == responds(
            DebugResponse::Stack { stack_pointer, stack: reply->Words_0 },
        ),
        Pending::AfterRegisters(p) => after_registers(d, p, reply->Registers_0, after, progress),
        Pending::AfterFrames(p) => after_frames(d, p, reply->Frames_0@, after, progress),
    }
}

/// A command goes on with a reply; an operation that fails ends the command
/// and changes nothing.
pub open spec fn resumes(
    d: DebuggerView,
    pending: Pending,
    reply: Result<Reply, String>,
    after: DebuggerView,
    progress: Progress,
) -> bool {
    match reply {
        Ok(reply) => goes_on(d, pending, reply, after, progress),
        Err(message) => after == d && progress == Progress::Fail(DebugError::Target { message }),
    }
}

// What holds between the steps of a command

/// The command can be in this state of the session.
pub open spec fn fits(d: DebuggerView, pending: Pending) -> bool {
    match pending {
        Pending::AfterDone(AfterDone::Attached) => d.forgot_the_core(),
        Pending::AfterDone(AfterDone::Reset) => d.forgot_the_core(),
        Pending::AfterDone(AfterDone::FlashReset) => d.forgot_the_core(),
        Pending::AfterStatus(AfterStatus::Continued) => d.running,
        Pending::AfterDone(AfterDone::SetOpened { source_file, .. }) => source_file is Some
            ==> searchable(d.dwarf),
        Pending::AfterDone(AfterDone::BatchCleared { batch }) => {
            &&& batch.done@.len() == 0
            &&& batch.requested@.len() > 0 ==> searchable(d.dwarf)
        },
        Pending::AfterDone(AfterDone::BatchSet { batch }) => {
            &&& batch.done@.len() <= batch.requested@.len()
            &&& batch.requested@.len() > 0 ==> searchable(d.dwarf)
        },
        Pending::AfterDone(AfterDone::Lifted { address, .. }) => d.breakpoints.contains_key(
            address,
        ),
        Pending::AfterWord(AfterWord::LiftedStep { address, .. }) => d.breakpoints.contains_key(
            address,
        ),
        Pending::AfterWord(AfterWord::BatchUnits { batch, .. }) => {
            &&& batch.done@.len() < batch.requested@.len()
            &&& searchable(d.dwarf)
        },
        Pending::AfterWord(AfterWord::Register { registers, values }) => {
            &&& values@.len() < registers@.len()
            &&& forall|i: int|
                0 <= i < values@.len() ==> (#[trigger] values@[i]).0 == registers@[i].name
        },
        Pending::AfterWord(AfterWord::TraceRegister { registers, next, .. }) => next
            < registers@.len(),
        _ => true,
    }
}

/// Where the command needs an operation, it can go on in this state of the
/// session.
pub open spec fn remains_fit(d: DebuggerView, progress: Progress) -> bool {
    progress matches Progress::Ask { then, .. } ==> fits(d, then)
}

} // verus!
