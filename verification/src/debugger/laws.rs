//! What holds of a session across its steps.
use vstd::prelude::*;

use crate::commands::{needs_no_target, Command, DebugError, DebugRequest, DebugResponse};
use crate::debugger::invariants::lemma_next_located;
use crate::debugger::model::{
    after_done, after_frames, after_status, after_word, fits, goes_on, innermost_variables, responds,
    shows_stack_trace, shows_variable, shows_variables, starts, words_between,
};
use crate::debugger::protocol::{
    AfterBytes, AfterDone, AfterRegisters, AfterStatus, AfterWord, Pending, Progress, Query, Reply,
    Resumption, TracePurpose,
};
use crate::debugger::session::{
    checks_halted, follows, leaving, proceeds, Phase, SessionAction, SessionEvent, CHECK_INTERVAL,
};
use crate::debugger::state::DebuggerView;
use crate::evaluator::UnwoundFrame;
use crate::target::CoreStatus;
use crate::variable::{first_named, resolved_trace, variable_views, StackFrameView, VariableView};

verus! {

// Breakpoints of the debugger and of the hardware

/// The breakpoints of the hardware once the operation is done.
pub open spec fn hardware_after(hardware: Set<u32>, query: Query) -> Set<u32> {
    match query {
        Query::SetHardwareBreakpoint { address } => hardware.insert(address),
        Query::ClearHardwareBreakpoint { address } => hardware.remove(address),
        Query::ClearAllHardwareBreakpoints => Set::empty(),
        _ => hardware,
    }
}

/// The breakpoints that the hardware has while a command waits for a reply.
pub open spec fn hardware_while(d: DebuggerView, pending: Pending) -> Set<u32> {
    match pending {
        Pending::AfterDone(AfterDone::AllCleared) => Set::empty(),
        Pending::AfterDone(AfterDone::BatchCleared { .. }) => Set::empty(),
        Pending::AfterDone(AfterDone::BreakpointSet { address }) => d.breakpoints.dom().insert(
            address,
        ),
        Pending::AfterDone(AfterDone::Lifted { address, .. }) => d.breakpoints.dom().remove(
            address,
        ),
        Pending::AfterWord(AfterWord::LiftedStep { address, .. }) => d.breakpoints.dom().remove(
            address,
        ),
        _ => d.breakpoints.dom(),
    }
}

/// The hardware has the breakpoints that it should have once the command has
/// got this far: those of the session, once the command has come to its end.
pub open spec fn hardware_agrees(
    hardware: Set<u32>,
    d: DebuggerView,
    progress: Progress,
) -> bool {
    match progress {
        Progress::Ask { query, then } => hardware_after(hardware, query) == hardware_while(
            d,
            then,
        ),
        _ => hardware == d.breakpoints.dom(),
    }
}

/// The hardware has the breakpoints of the session when a command starts, and
/// the first operation of the command leaves it with those that the command
/// counts on.
pub proof fn law_requests_keep_the_hardware_in_step(
    hardware: Set<u32>,
    d: DebuggerView,
    request: DebugRequest,
    after: DebuggerView,
    progress: Progress,
)
    requires
        hardware == d.breakpoints.dom(),
        starts(d, request, after, progress),
    ensures
        hardware_agrees(hardware, after, progress),
{
}

/// As long as the operations on the target succeed, the hardware has exactly
/// the breakpoints of the session whenever a command comes to its end, also
/// where a breakpoint is lifted to step over it.
pub proof fn law_replies_keep_the_hardware_in_step(
    hardware: Set<u32>,
    d: DebuggerView,
    pending: Pending,
    reply: Reply,
    after: DebuggerView,
    progress: Progress,
)
    requires
        d.wf(),
        fits(d, pending),
        pending.accepts(reply),
        hardware == hardware_while(d, pending),
        goes_on(d, pending, reply, after, progress),
    ensures
        hardware_agrees(hardware, after, progress),
{
    match progress {
        Progress::Ask { query, then } => {
            assert(hardware_after(hardware, query) =~= hardware_while(after, then));
        },
        _ => {
            assert(hardware =~= after.breakpoints.dom());
        },
    }
}

/// Removing a breakpoint undoes setting it: it is answered as removed, and the
/// session is what it was, if it had no breakpoint there before.
pub proof fn law_clearing_undoes_setting(
    d: DebuggerView,
    address: u32,
    with: DebuggerView,
    set: Progress,
    without: DebuggerView,
    clear: Progress,
    end: DebuggerView,
    answer: Progress,
)
    requires
        after_done(d, AfterDone::BreakpointSet { address }, with, set),
        after_done(with, AfterDone::ClearOpened { address }, without, clear),
        clear matches Progress::Ask { then: Pending::AfterDone(then), .. } && after_done(
            without,
            then,
            end,
            answer,
        ),
    ensures
        with.breakpoints.contains_key(address),
        clear->query == (Query::ClearHardwareBreakpoint { address }),
        answer == responds(DebugResponse::ClearBreakpoint),
        !end.breakpoints.contains_key(address),
        !d.breakpoints.contains_key(address) ==> end == d,
{
    if !d.breakpoints.contains_key(address) {
        assert(end.breakpoints =~= d.breakpoints);
    }
}

/// Setting a breakpoint does not take the session beyond what the hardware can
/// hold, unless there is one at every address already.
pub proof fn law_breakpoints_fit_the_hardware(
    d: DebuggerView,
    address: u32,
    units: u32,
    asked: DebuggerView,
    ask: Progress,
    after: DebuggerView,
    answer: Progress,
)
    requires
        d.wf(),
        d.breakpoints.len() <= u32::MAX,
        after_word(d, AfterWord::Units { address }, units, asked, ask),
        ask is Ask,
        after_done(asked, AfterDone::BreakpointSet { address }, after, answer),
    ensures
        after.breakpoints.len() <= units,
{
}

/// Setting the breakpoints of a source file does not take the session beyond
/// what the hardware can hold.
pub proof fn law_batches_fit_the_hardware(
    d: DebuggerView,
    pending: AfterWord,
    units: u32,
    after: DebuggerView,
    progress: Progress,
)
    requires
        d.wf(),
        pending is BatchUnits,
        after_word(d, pending, units, after, progress),
        after.breakpoints != d.breakpoints,
    ensures
        after.breakpoints.len() <= units,
{
}

/// Once all breakpoints are removed, there is none.
pub proof fn law_clearing_all_leaves_none(
    d: DebuggerView,
    after: DebuggerView,
    progress: Progress,
    address: u32,
)
    requires
        after_done(d, AfterDone::AllCleared, after, progress),
    ensures
        !after.breakpoints.contains_key(address),
        progress == responds(DebugResponse::ClearAllBreakpoints),
{
}

// The call stack

/// The call stack is unwound once: asked for again, it is answered from what
/// the session keeps, without an operation on the target.
pub proof fn law_stack_trace_is_kept(
    d: DebuggerView,
    frames: Seq<UnwoundFrame>,
    known: DebuggerView,
    first: Progress,
    after: DebuggerView,
    second: Progress,
)
    requires
        after_frames(d, TracePurpose::StackTrace, frames, known, first),
        starts(known, DebugRequest::StackTrace, after, second),
    ensures
        after == known,
        shows_stack_trace(resolved_trace(frames), first),
        shows_stack_trace(resolved_trace(frames), second),
{
}

/// The reply is the last one of a command that moved the core: by a reset, by
/// a step or by letting it run.
pub open spec fn moved_the_core(pending: Pending, progress: Progress) -> bool {
    ||| pending == Pending::AfterDone(AfterDone::Attached)
    ||| pending == Pending::AfterStatus(AfterStatus::Continued)
    ||| progress == responds(DebugResponse::Reset)
    ||| progress == responds(DebugResponse::Flash)
    ||| progress == responds(DebugResponse::Step)
}

/// When the core has been reset, stepped or set running again, the session
/// knows neither register values nor a call stack of it, and, unless it only
/// attached to it, takes it to run.
pub proof fn law_moving_the_core_forgets_it(
    d: DebuggerView,
    pending: Pending,
    reply: Reply,
    after: DebuggerView,
    progress: Progress,
)
    requires
        fits(d, pending),
        pending.accepts(reply),
        goes_on(d, pending, reply, after, progress),
        moved_the_core(pending, progress),
    ensures
        after.forgot_the_core(),
        after.running || pending == Pending::AfterDone(AfterDone::Attached),
{
}

/// A reset forgets the halted core before it is asked for, and takes the core
/// to run once it is done.
pub proof fn law_reset_forgets_and_runs(
    d: DebuggerView,
    reset_and_halt: bool,
    asked: DebuggerView,
    ask: Progress,
    after: DebuggerView,
    answer: Progress,
)
    requires
        starts(d, DebugRequest::Reset { reset_and_halt }, asked, ask),
        after_done(asked, AfterDone::Reset, after, answer),
    ensures
        ask matches Progress::Ask { then, .. } && then == Pending::AfterDone(AfterDone::Reset),
        after == (DebuggerView { running: true, ..d.without_temporaries() }),
        answer == responds(DebugResponse::Reset),
{
}

/// The variable that is shown is the first of that name among all those that
/// are shown.
pub proof fn law_variable_is_among_the_variables(
    frames: Seq<StackFrameView>,
    name: String,
    one: Progress,
    all: Progress,
)
    requires
        shows_variable(frames, name, one),
        shows_variables(frames, all),
        one matches Progress::Answer(Command::Response(DebugResponse::Variable { .. })),
    ensures
        all matches Progress::Answer(Command::Response(DebugResponse::Variables { variables }))
            && one matches Progress::Answer(Command::Response(DebugResponse::Variable { variable }))
            && first_named(variable_views(variables@), name@) == Some(variable@) && exists|i: int|
            0 <= i < variables@.len() && #[trigger] variable_views(variables@)[i] == variable@,
{
    lemma_first_named_is_element(innermost_variables(frames), name@);
}

proof fn lemma_first_named_is_element(
    variables: Seq<VariableView>,
    name: Seq<char>,
)
    ensures
        first_named(variables, name) matches Some(found) ==> found.name == Some(name) && exists|
            i: int,
        |
            0 <= i < variables.len() && #[trigger] variables[i] == found,
    decreases variables.len(),
{
    if variables.len() > 0 {
        if variables.first().name == Some(name) {
            assert(variables[0] == variables.first());
        } else {
            let rest = variables.drop_first();
            lemma_first_named_is_element(rest, name);
            if first_named(rest, name) is Some {
                let found = first_named(rest, name)->0;
                let i = choose|i: int| 0 <= i < rest.len() && #[trigger] rest[i] == found;
                assert(variables[i + 1] == found);
            }
        }
    }
}

// The stack

/// The words that are read of the stack reach from its pointer to its start,
/// and no word further.
pub proof fn law_stack_is_covered(stack_pointer: u32, base: u32)
    requires
        stack_pointer <= base,
    ensures
        4 * words_between(stack_pointer, base) >= base - stack_pointer,
        4 * words_between(stack_pointer, base) < base - stack_pointer + 4,
{
}

// Requests and answers

/// The command looks whether the core came to a halt.
pub open spec fn is_halt_check(pending: Pending) -> bool {
    match pending {
        Pending::AfterStatus(AfterStatus::HaltCheck) => true,
        Pending::AfterWord(AfterWord::HaltPc { .. }) => true,
        _ => false,
    }
}

/// A command of a request, wherever it stands, does not end in silence or in
/// an event.
pub open spec fn is_for_request(progress: Progress) -> bool {
    match progress {
        Progress::Ask { then, .. } => !is_halt_check(then),
        Progress::Answer(command) => !(command is Event),
        Progress::Nothing => false,
        Progress::Fail(_) => true,
    }
}

/// A request that needs no target is handed back as it is; every other request
/// is answered by a response, needs an operation first, or fails.
pub proof fn law_requests_are_answered_or_handed_back(
    d: DebuggerView,
    request: DebugRequest,
    after: DebuggerView,
    progress: Progress,
)
    requires
        starts(d, request, after, progress),
    ensures
        is_for_request(progress),
        needs_no_target(request) <==> progress == Progress::Answer(Command::Request(request)),
        progress matches Progress::Answer(Command::Request(other)) ==> other == request,
        needs_no_target(request) ==> after == d,
{
}

/// A command that waits for a reply to a request is answered by a response,
/// needs another operation, or fails.
pub proof fn law_replies_lead_to_responses(
    d: DebuggerView,
    pending: Pending,
    reply: Reply,
    after: DebuggerView,
    progress: Progress,
)
    requires
        !is_halt_check(pending),
        pending.accepts(reply),
        goes_on(d, pending, reply, after, progress),
    ensures
        is_for_request(progress),
        progress matches Progress::Answer(command) ==> command is Response,
{
}

/// Which request a command belongs to.
pub enum CommandName {
    Attach,
    Stack,
    Code,
    ClearAllBreakpoints,
    ClearBreakpoint,
    SetBreakpoint,
    Registers,
    Variable,
    Variables,
    StackTrace,
    Read,
    Reset,
    Flash,
    Halt,
    Status,
    Continue,
    Step,
    SetBreakpoints,
}

/// The command that the request starts; none where it needs no target.
pub open spec fn started_by(request: DebugRequest) -> Option<CommandName> {
    match request {
        DebugRequest::Attach { .. } => Some(CommandName::Attach),
        DebugRequest::Stack => Some(CommandName::Stack),
        DebugRequest::Code => Some(CommandName::Code),
        DebugRequest::ClearAllBreakpoints => Some(CommandName::ClearAllBreakpoints),
        DebugRequest::ClearBreakpoint { .. } => Some(CommandName::ClearBreakpoint),
        DebugRequest::SetBreakpoint { .. } => Some(CommandName::SetBreakpoint),
        DebugRequest::Registers => Some(CommandName::Registers),
        DebugRequest::Variable { .. } => Some(CommandName::Variable),
        DebugRequest::Variables => Some(CommandName::Variables),
        DebugRequest::StackTrace => Some(CommandName::StackTrace),
        DebugRequest::Read { .. } => Some(CommandName::Read),
        DebugRequest::Reset { .. } => Some(CommandName::Reset),
        DebugRequest::Flash { .. } => Some(CommandName::Flash),
        DebugRequest::Halt => Some(CommandName::Halt),
        DebugRequest::Status => Some(CommandName::Status),
        DebugRequest::Continue => Some(CommandName::Continue),
        DebugRequest::Step => Some(CommandName::Step),
        DebugRequest::SetBreakpoints { .. } => Some(CommandName::SetBreakpoints),
        _ => None,
    }
}

/// The command that the response answers; none where it is an error or the
/// response to a request that needs no target.
pub open spec fn answered_by(response: DebugResponse) -> Option<CommandName> {
    match response {
        DebugResponse::Attach => Some(CommandName::Attach),
        DebugResponse::Stack { .. } => Some(CommandName::Stack),
        DebugResponse::Code { .. } => Some(CommandName::Code),
        DebugResponse::ClearAllBreakpoints => Some(CommandName::ClearAllBreakpoints),
        DebugResponse::ClearBreakpoint => Some(CommandName::ClearBreakpoint),
        DebugResponse::SetBreakpoint => Some(CommandName::SetBreakpoint),
        DebugResponse::Registers { .. } => Some(CommandName::Registers),
        DebugResponse::Variable { .. } => Some(CommandName::Variable),
        DebugResponse::Variables { .. } => Some(CommandName::Variables),
        DebugResponse::StackTrace { .. } => Some(CommandName::StackTrace),
        DebugResponse::Read { .. } => Some(CommandName::Read),
        DebugResponse::Reset => Some(CommandName::Reset),
        DebugResponse::Flash => Some(CommandName::Flash),
        DebugResponse::Halt => Some(CommandName::Halt),
        DebugResponse::Status { .. } => Some(CommandName::Status),
        DebugResponse::Continue => Some(CommandName::Continue),
        DebugResponse::Step => Some(CommandName::Step),
        DebugResponse::SetBreakpoints { .. } => Some(CommandName::SetBreakpoints),
        _ => None,
    }
}

/// The command that leaves an instruction for that goal.
pub open spec fn resumed_for(goal: Resumption) -> CommandName {
    match goal {
        Resumption::Step => CommandName::Step,
        Resumption::Continue => CommandName::Continue,
    }
}

/// The command that unwinds the call stack for that purpose.
pub open spec fn traced_for(purpose: TracePurpose) -> CommandName {
    match purpose {
        TracePurpose::Variable { .. } => CommandName::Variable,
        TracePurpose::Variables => CommandName::Variables,
        TracePurpose::StackTrace => CommandName::StackTrace,
    }
}

/// The command that waits for a reply; none where the session looks whether the
/// core came to a halt.
pub open spec fn waiting(pending: Pending) -> Option<CommandName> {
    match pending {
        Pending::AfterDone(after) => match after {
            AfterDone::Attached => Some(CommandName::Attach),
            AfterDone::AllCleared => Some(CommandName::ClearAllBreakpoints),
            AfterDone::ClearOpened { .. } => Some(CommandName::ClearBreakpoint),
            AfterDone::Cleared { .. } => Some(CommandName::ClearBreakpoint),
            AfterDone::SetOpened { .. } => Some(CommandName::SetBreakpoint),
            AfterDone::BreakpointSet { .. } => Some(CommandName::SetBreakpoint),
            AfterDone::Reset => Some(CommandName::Reset),
            AfterDone::Flashed { .. } => Some(CommandName::Flash),
            AfterDone::FlashReset => Some(CommandName::Flash),
            AfterDone::Halted => Some(CommandName::Halt),
            AfterDone::Skipped { goal } => Some(resumed_for(goal)),
            AfterDone::Lifted { goal, .. } => Some(resumed_for(goal)),
            AfterDone::Restored { goal } => Some(resumed_for(goal)),
            AfterDone::Running => Some(CommandName::Continue),
            AfterDone::BatchCleared { .. } => Some(CommandName::SetBreakpoints),
            AfterDone::BatchSet { .. } => Some(CommandName::SetBreakpoints),
        },
        Pending::AfterStatus(after) => match after {
            AfterStatus::Stack => Some(CommandName::Stack),
            AfterStatus::Code => Some(CommandName::Code),
            AfterStatus::Variable { .. } => Some(CommandName::Variable),
            AfterStatus::Variables => Some(CommandName::Variables),
            AfterStatus::Halt => Some(CommandName::Halt),
            AfterStatus::Status => Some(CommandName::Status),
            AfterStatus::Step => Some(CommandName::Step),
            AfterStatus::Continue => Some(CommandName::Continue),
            AfterStatus::Leave { goal } => Some(resumed_for(goal)),
            AfterStatus::Continued => Some(CommandName::Continue),
            AfterStatus::HaltCheck => None,
        },
        Pending::AfterWord(after) => match after {
            AfterWord::StackBase => Some(CommandName::Stack),
            AfterWord::StackPointer { .. } => Some(CommandName::Stack),
            AfterWord::CodePc => Some(CommandName::Code),
            AfterWord::Units { .. } => Some(CommandName::SetBreakpoint),
            AfterWord::BatchUnits { .. } => Some(CommandName::SetBreakpoints),
            AfterWord::Register { .. } => Some(CommandName::Registers),
            AfterWord::TraceRegister { purpose, .. } => Some(traced_for(purpose)),
            AfterWord::StatusPc { .. } => Some(CommandName::Status),
            AfterWord::LeavePc { goal } => Some(resumed_for(goal)),
            AfterWord::LiftedStep { goal, .. } => Some(resumed_for(goal)),
            AfterWord::PlainStep { goal } => Some(resumed_for(goal)),
            AfterWord::HaltPc { .. } => None,
        },
        Pending::AfterBytes(after) => match after {
            AfterBytes::Code { .. } => Some(CommandName::Code),
            AfterBytes::Read { .. } => Some(CommandName::Read),
            AfterBytes::Leave { goal, .. } => Some(resumed_for(goal)),
        },
        Pending::AfterWords { .. } => Some(CommandName::Stack),
        Pending::AfterRegisters(after) => match after {
            AfterRegisters::Registers => Some(CommandName::Registers),
            AfterRegisters::Trace { purpose } => Some(traced_for(purpose)),
        },
        Pending::AfterFrames(purpose) => Some(traced_for(purpose)),
    }
}

/// What the command has come to is its own: it still waits, or its answer is
/// the response of its own name. Only the commands that show a variable and
/// that step can also be answered by an error.
pub open spec fn stays_with(name: CommandName, progress: Progress) -> bool {
    match progress {
        Progress::Ask { then, .. } => waiting(then) == Some(name),
        Progress::Answer(Command::Response(DebugResponse::Error { .. })) => name
            == CommandName::Variable || name == CommandName::Step,
        Progress::Answer(Command::Response(response)) => answered_by(response) == Some(name),
        Progress::Answer(_) => false,
        Progress::Nothing => false,
        Progress::Fail(_) => true,
    }
}

/// A request starts the command of its own name.
pub proof fn law_requests_start_their_command(
    d: DebuggerView,
    request: DebugRequest,
    after: DebuggerView,
    progress: Progress,
)
    requires
        starts(d, request, after, progress),
    ensures
        started_by(request) is None <==> needs_no_target(request),
        started_by(request) matches Some(name) ==> stays_with(name, progress),
{
}

/// A command, whatever the target replies, goes on as what it is, and its
/// answer is the response of its own name.
pub proof fn law_commands_are_answered_by_their_response(
    d: DebuggerView,
    pending: Pending,
    reply: Reply,
    after: DebuggerView,
    progress: Progress,
)
    requires
        pending.accepts(reply),
        goes_on(d, pending, reply, after, progress),
    ensures
        waiting(pending) is None <==> is_halt_check(pending),
        waiting(pending) matches Some(name) ==> stays_with(name, progress),
{
    match pending {
        Pending::AfterDone(p) => lemma_done_stays(d, p, after, progress),
        Pending::AfterStatus(p) => lemma_status_stays(d, p, reply->Status_0, after, progress),
        Pending::AfterWord(p) => lemma_word_stays(d, p, reply->Word_0, after, progress),
        _ => {},
    }
}

proof fn lemma_done_stays(
    d: DebuggerView,
    pending: AfterDone,
    after: DebuggerView,
    progress: Progress,
)
    requires
        after_done(d, pending, after, progress),
    ensures
        waiting(Pending::AfterDone(pending)) matches Some(name) && stays_with(name, progress),
{
}

proof fn lemma_status_stays(
    d: DebuggerView,
    pending: AfterStatus,
    status: CoreStatus,
    after: DebuggerView,
    progress: Progress,
)
    requires
        after_status(d, pending, status, after, progress),
    ensures
        waiting(Pending::AfterStatus(pending)) is None <==> pending is HaltCheck,
        waiting(Pending::AfterStatus(pending)) matches Some(name) ==> stays_with(name, progress),
{
}

proof fn lemma_word_stays(
    d: DebuggerView,
    pending: AfterWord,
    word: u32,
    after: DebuggerView,
    progress: Progress,
)
    requires
        after_word(d, pending, word, after, progress),
    ensures
        waiting(Pending::AfterWord(pending)) is None <==> pending is HaltPc,
        waiting(Pending::AfterWord(pending)) matches Some(name) ==> stays_with(name, progress),
{
}

/// How many kinds of operations may still follow after the reply that the
/// command waits for.
pub open spec fn stages_left(d: DebuggerView, pending: Pending) -> nat {
    match pending {
        Pending::AfterDone(after) => match after {
            AfterDone::ClearOpened { .. } => 1,
            AfterDone::SetOpened { .. } => 2,
            AfterDone::Flashed { .. } => 1,
            AfterDone::Skipped { .. } => 3,
            AfterDone::Lifted { .. } => 5,
            AfterDone::Restored { .. } => 3,
            AfterDone::Running => 2,
            AfterDone::BatchCleared { .. } => 1,
            _ => 0,
        },
        Pending::AfterStatus(after) => match after {
            AfterStatus::Stack => 3,
            AfterStatus::Code => 2,
            AfterStatus::Variable { .. } => if d.stack_trace is Some {
                0
            } else {
                4
            },
            AfterStatus::Variables => if d.stack_trace is Some {
                0
            } else {
                4
            },
            AfterStatus::Halt => 1,
            AfterStatus::Status => 1,
            AfterStatus::Step => 9,
            AfterStatus::Continue => 9,
            AfterStatus::Leave { .. } => 8,
            AfterStatus::Continued => 0,
            AfterStatus::HaltCheck => 1,
        },
        Pending::AfterWord(after) => match after {
            AfterWord::StackBase => 2,
            AfterWord::StackPointer { .. } => 1,
            AfterWord::CodePc => 1,
            AfterWord::Units { .. } => 1,
            AfterWord::TraceRegister { .. } => 2,
            AfterWord::LeavePc { .. } => 7,
            AfterWord::LiftedStep { .. } => 4,
            AfterWord::PlainStep { .. } => 3,
            _ => 0,
        },
        Pending::AfterBytes(after) => match after {
            AfterBytes::Leave { .. } => 6,
            _ => 0,
        },
        Pending::AfterWords { .. } => 0,
        Pending::AfterRegisters(after) => match after {
            AfterRegisters::Registers => 1,
            AfterRegisters::Trace { .. } => 3,
        },
        Pending::AfterFrames(_) => 1,
    }
}

/// How often the command may still ask for operations of the same kind.
pub open spec fn repetitions_left(pending: Pending) -> int {
    match pending {
        Pending::AfterWord(AfterWord::Register { registers, values }) => registers@.len()
            - values@.len(),
        Pending::AfterWord(AfterWord::TraceRegister { registers, next, .. }) => registers@.len()
            - next,
        Pending::AfterWord(AfterWord::BatchUnits { batch, .. }) => 2 * (batch.requested@.len()
            - batch.done@.len()),
        Pending::AfterDone(AfterDone::BatchSet { batch }) => 2 * (batch.requested@.len()
            - batch.done@.len()) + 1,
        _ => 0,
    }
}

/// Every command comes to its end: with each reply it has fewer stages left,
/// or equally many and fewer repetitions, and none of these numbers falls below
/// zero.
pub proof fn law_commands_come_to_an_end(
    d: DebuggerView,
    pending: Pending,
    reply: Reply,
    after: DebuggerView,
    progress: Progress,
)
    requires
        fits(d, pending),
        pending.accepts(reply),
        goes_on(d, pending, reply, after, progress),
    ensures
        repetitions_left(pending) >= 0,
        progress matches Progress::Ask { then, .. } ==> {
            ||| stages_left(after, then) < stages_left(d, pending)
            ||| stages_left(after, then) == stages_left(d, pending) && repetitions_left(then)
                < repetitions_left(pending)
        },
{
    match pending {
        Pending::AfterDone(AfterDone::BatchSet { batch }) => {
            lemma_next_located(
                d,
                batch.source_file@,
                batch.requested@,
                batch.done@.len() as int,
            );
        },
        Pending::AfterWord(AfterWord::BatchUnits { batch, .. }) => {
            lemma_next_located(
                d,
                batch.source_file@,
                batch.requested@,
                (batch.done@.len() + 1) as int,
            );
        },
        Pending::AfterWord(AfterWord::TraceRegister { registers, next, .. }) => {
            assert(next < registers.len());
        },
        _ => {},
    }
}

// The course of the session

/// Between two looks at the core lies more than the interval.
pub proof fn law_checks_are_spaced(
    d: DebuggerView,
    first: u64,
    between: DebuggerView,
    one: Progress,
    later: DebuggerView,
    second: u64,
    after: DebuggerView,
    other: Progress,
)
    requires
        checks_halted(d, first, between, one),
        one is Ask,
        later.check_time == between.check_time,
        checks_halted(later, second, after, other),
        other is Ask,
    ensures
        second - first > CHECK_INTERVAL,
{
}

/// A session that is not taken to run is not looked at.
pub proof fn law_halted_core_is_left_alone(
    d: DebuggerView,
    now: u64,
    after: DebuggerView,
    action: SessionAction,
)
    requires
        !d.running,
        proceeds(d, SessionEvent::NothingReceived { now }, after, action),
    ensures
        after == d,
        action == SessionAction::Poll,
{
}

/// A request that a running session cannot serve ends it, but not before all
/// breakpoints are removed from the hardware and forgotten.
pub proof fn law_session_leaves_no_breakpoint(
    d: DebuggerView,
    request: DebugRequest,
    asked: DebuggerView,
    ask: SessionAction,
    reply: Result<Reply, String>,
    after: DebuggerView,
    end: SessionAction,
)
    requires
        needs_no_target(request),
        proceeds(d, SessionEvent::Received(request), asked, ask),
        ask matches SessionAction::Ask { phase, pending, .. } ==> proceeds(
            asked,
            SessionEvent::Replied { phase, pending, reply },
            after,
            end,
        ),
    ensures
        ask == leaving(Ok(request)),
        reply is Ok ==> after == (DebuggerView { breakpoints: Map::empty(), ..d }),
        reply is Ok ==> end == SessionAction::Leave(Ok(request)),
{
    let p = choose|p: Progress|
        starts(d, request, asked, p) && ask == #[trigger] follows(Phase::Serving, p);
    assert(p == Progress::Answer(Command::Request(request)));
}

/// When nobody sends requests any more, the session ends, but not before all
/// breakpoints are removed from the hardware and forgotten.
pub proof fn law_disconnecting_leaves_no_breakpoint(
    d: DebuggerView,
    asked: DebuggerView,
    ask: SessionAction,
    reply: Result<Reply, String>,
    after: DebuggerView,
    end: SessionAction,
)
    requires
        proceeds(d, SessionEvent::Disconnected, asked, ask),
        ask matches SessionAction::Ask { phase, pending, .. } ==> proceeds(
            asked,
            SessionEvent::Replied { phase, pending, reply },
            after,
            end,
        ),
    ensures
        ask == leaving(Err(DebugError::Disconnected)),
        reply is Ok ==> after == (DebuggerView { breakpoints: Map::empty(), ..d }),
        reply is Ok ==> end == SessionAction::Leave(Err(DebugError::Disconnected)),
{
}

} // verus!
