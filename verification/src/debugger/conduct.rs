//! How a session conducts itself: what it tells of its commands, when it looks
//! at the core, how it ends, and which replies of the target it can take.
use vstd::prelude::*;

use crate::commands::{Command, DebugError, DebugEvent, DebugRequest};
use crate::debug_information::searchable;
use crate::debugger::machine::{carries_out, leads_to, lemma_after_operation, Course, Machine};
use crate::debugger::model::{fits, goes_on, serves, starts};
use crate::debugger::protocol::{
    AfterBytes, AfterDone, AfterStatus, AfterWord, Pending, Progress, Query, Reply,
};
use crate::debugger::session::{admits, follows, proceeds, Phase, SessionAction, SessionEvent};
use crate::debugger::state::DebuggerView;
use crate::evaluator::UnwoundFrame;
use crate::target::CoreStatus;
use crate::variable::all_renderable;

verus! {

/// A request that a session has for its handler: it ends the debugger or changes
/// a setting.
pub open spec fn is_for_the_handler(request: DebugRequest) -> bool {
    match request {
        DebugRequest::Exit => true,
        DebugRequest::SetBinary { .. } => true,
        DebugRequest::SetProbeNumber { .. } => true,
        DebugRequest::SetChip { .. } => true,
        DebugRequest::SetCWD { .. } => true,
        _ => false,
    }
}

/// The session does what its command needs, and tells what it has to tell: a
/// response or an event is sent as it is, and an error ends the session.
pub open spec fn passes_on(phase: Phase, progress: Progress, action: SessionAction) -> bool {
    match progress {
        Progress::Ask { query, then } => action == (SessionAction::Ask {
            query,
            phase,
            pending: then,
        }),
        Progress::Answer(command) => action == (SessionAction::Send { command }),
        Progress::Nothing => action == SessionAction::Poll,
        Progress::Fail(error) => action == SessionAction::Leave(Err(error)),
    }
}

/// A request that is not for the handler starts its command, and the session
/// passes on what that needs and tells.
pub proof fn law_requests_are_passed_on(
    d: DebuggerView,
    request: DebugRequest,
    after: DebuggerView,
    action: SessionAction,
)
    requires
        !is_for_the_handler(request),
    ensures
        proceeds(d, SessionEvent::Started(request), after, action) ==> exists|progress: Progress|
            #[trigger] starts(d, request, after, progress) && passes_on(
                Phase::First,
                progress,
                action,
            ),
        proceeds(d, SessionEvent::Received(request), after, action) ==> exists|progress: Progress|
            #[trigger] starts(d, request, after, progress) && passes_on(
                Phase::Serving,
                progress,
                action,
            ),
{
    if proceeds(d, SessionEvent::Started(request), after, action) {
        let p = choose|p: Progress|
            starts(d, request, after, p) && action == #[trigger] follows(Phase::First, p);
        assert(!(p matches Progress::Answer(Command::Request(_))));
        assert(starts(d, request, after, p));
    }
    if proceeds(d, SessionEvent::Received(request), after, action) {
        let p = choose|p: Progress|
            starts(d, request, after, p) && action == #[trigger] follows(Phase::Serving, p);
        assert(!(p matches Progress::Answer(Command::Request(_))));
        assert(starts(d, request, after, p));
    }
}

/// A reply lets the command go on for which the operation was asked, and the
/// session passes on what that needs and tells. An operation that fails ends the
/// session with the message of the failure, and changes nothing.
pub proof fn law_replies_are_passed_on(
    d: DebuggerView,
    phase: Phase,
    pending: Pending,
    reply: Result<Reply, String>,
    after: DebuggerView,
    action: SessionAction,
)
    requires
        !(phase is Leaving),
        proceeds(d, SessionEvent::Replied { phase, pending, reply }, after, action),
    ensures
        match reply {
            Ok(reply) => exists|progress: Progress|
                #[trigger] goes_on(d, pending, reply, after, progress) && passes_on(
                    phase,
                    progress,
                    action,
                ),
            Err(message) => after == d && action == SessionAction::Leave(
                Err(DebugError::Target { message }),
            ),
        },
{
    if let Ok(told) = reply {
        let p = choose|p: Progress|
            goes_on(d, pending, told, after, p) && action == #[trigger] follows(phase, p);
        lemma_replies_start_no_request(d, pending, told, after, p);
        assert(goes_on(d, pending, told, after, p));
    }
}

/// A reply never leads to a request.
proof fn lemma_replies_start_no_request(
    d: DebuggerView,
    pending: Pending,
    reply: Reply,
    after: DebuggerView,
    progress: Progress,
)
    requires
        goes_on(d, pending, reply, after, progress),
    ensures
        !(progress matches Progress::Answer(Command::Request(_))),
{
}

/// A request for the handler ends the session that was just started with it, at
/// once and without changing anything. One that comes in later ends the session
/// once all breakpoints are removed, from the hardware and from the session. The
/// request is handed back as it came.
pub proof fn law_requests_for_the_handler_are_handed_back(
    d: DebuggerView,
    request: DebugRequest,
    after: DebuggerView,
    action: SessionAction,
)
    requires
        is_for_the_handler(request),
    ensures
        proceeds(d, SessionEvent::Started(request), after, action) ==> after == d && action
            == SessionAction::Leave(Ok(request)),
        proceeds(d, SessionEvent::Received(request), after, action) ==> after == d && action == (
        SessionAction::Ask {
            query: Query::ClearAllHardwareBreakpoints,
            phase: Phase::Leaving(Ok(request)),
            pending: Pending::AfterDone(AfterDone::AllCleared),
        }),
{
}

/// When nobody sends requests any more, the session ends once all breakpoints
/// are removed, and tells that it was left.
pub proof fn law_disconnected_sessions_clear_the_hardware(
    d: DebuggerView,
    after: DebuggerView,
    action: SessionAction,
)
    requires
        proceeds(d, SessionEvent::Disconnected, after, action),
    ensures
        after == d,
        action == (SessionAction::Ask {
            query: Query::ClearAllHardwareBreakpoints,
            phase: Phase::Leaving(Err(DebugError::Disconnected)),
            pending: Pending::AfterDone(AfterDone::AllCleared),
        }),
{
}

/// A session that is ending ends as it was going to once the breakpoints are
/// removed, and has none then; where that fails, it ends with the failure.
pub proof fn law_leaving_sessions_end(
    d: DebuggerView,
    result: Result<DebugRequest, DebugError>,
    reply: Result<Reply, String>,
    after: DebuggerView,
    action: SessionAction,
)
    requires
        proceeds(
            d,
            SessionEvent::Replied {
                phase: Phase::Leaving(result),
                pending: Pending::AfterDone(AfterDone::AllCleared),
                reply,
            },
            after,
            action,
        ),
    ensures
        match reply {
            Ok(_) => {
                &&& after == (DebuggerView { breakpoints: Map::empty(), ..d })
                &&& action == SessionAction::Leave(result)
            },
            Err(message) => {
                &&& after == d
                &&& action == SessionAction::Leave(Err(DebugError::Target { message }))
            },
        },
{
}

/// Where no request is there, the session looks at the core if it takes it to
/// run and last looked more than 400 milliseconds ago, and remembers when; else
/// it does nothing.
pub proof fn law_the_core_is_looked_at_when_due(
    d: DebuggerView,
    now: u64,
    after: DebuggerView,
    action: SessionAction,
)
    requires
        proceeds(d, SessionEvent::NothingReceived { now }, after, action),
    ensures
        if d.running && now > d.check_time + 400_000_000 {
            &&& action == (SessionAction::Ask {
                query: Query::Status,
                phase: Phase::Checking,
                pending: Pending::AfterStatus(AfterStatus::HaltCheck),
            })
            &&& after == (DebuggerView { check_time: now, ..d })
        } else {
            action == SessionAction::Poll && after == d
        },
{
}

/// A look at the core tells that it is halted, where it is: with its program
/// counter, the reason, and the breakpoint of the session at which it stands, if
/// there is one. Then the session does not take it to run any more. Where the
/// core is not halted, nothing is told and nothing changes. The target is as it
/// was.
pub proof fn law_halts_are_told(c: Course, n: nat, end: Course)
    requires
        c.progress == (Progress::Ask {
            query: Query::Status,
            then: Pending::AfterStatus(AfterStatus::HaltCheck),
        }),
        leads_to(c, n, end),
    ensures
        end.m == (Machine { done: end.m.done, ..c.m }),
        match c.m.status {
            CoreStatus::Halted(halted_for) => {
                &&& end.d == (DebuggerView { running: false, ..c.d })
                &&& end.progress matches Progress::Answer(
                    Command::Event(
                        DebugEvent::Halted { pc, reason, hit_breakpoint_ids: Some(ids) },
                    ),
                )
                &&& pc == c.m.pc
                &&& reason == halted_for
                &&& ids@.len() == if c.d.breakpoints.contains_key(c.m.pc) {
                    1nat
                } else {
                    0nat
                }
                &&& forall|i: int| 0 <= i < ids@.len() ==> #[trigger] ids@[i] == c.m.pc
            },
            _ => end.d == c.d && end.progress == Progress::Nothing,
        },
{
    let (status, c1) = lemma_after_operation(c, n, end);
    if c.m.status is Halted {
        let (pc, c2) = lemma_after_operation(c1, (n - 1) as nat, end);
    }
}

// Replies

/// The command cannot go on with the reply: the stack would be too long to count
/// it in words, there is no address behind the breakpoint instruction, or a
/// value of the call stack cannot be written.
pub open spec fn cannot_go_on(then: Pending, reply: Reply) -> bool {
    match (then, reply) {
        (Pending::AfterWord(AfterWord::StackPointer { base }), Reply::Word(pointer)) => base
            - pointer > 0xffff_fffb,
        (Pending::AfterBytes(AfterBytes::Leave { pc, .. }), Reply::Bytes(bytes)) => {
            &&& bytes@[0] == 0
            &&& bytes@[1] == 190
            &&& pc > 0xffff_fffd
        },
        (Pending::AfterFrames(_), Reply::Frames(frames)) => exists|i: int, j: int|
            {
                &&& 0 <= i < frames@.len()
                &&& 0 <= j < frames@[i].variables@.len()
                &&& !(#[trigger] frames@[i].variables@[j]).value.renderable()
            },
        _ => false,
    }
}

/// Whatever a target replies to an operation that a command asks for, the command
/// accepts it, unless it cannot go on with it.
pub open spec fn accepts_what_is_replied(progress: Progress) -> bool {
    progress matches Progress::Ask { query, then } ==> forall|
        m: Machine,
        reply: Reply,
        after: Machine,
    |
        #[trigger] carries_out(m, query, reply, after) && !cannot_go_on(then, reply)
            ==> then.accepts(reply)
}

/// Whatever a target replies to the first operation that a request asks for, the
/// command accepts it.
pub proof fn law_first_replies_are_accepted(
    d: DebuggerView,
    request: DebugRequest,
    after: DebuggerView,
    progress: Progress,
)
    requires
        starts(d, request, after, progress),
    ensures
        accepts_what_is_replied(progress),
{
}

/// Frames of which all values can be written are accepted.
proof fn lemma_frames_are_accepted(frames: Seq<UnwoundFrame>)
    requires
        forall|i: int, j: int|
            0 <= i < frames.len() && 0 <= j < frames[i].variables@.len() ==> (
            #[trigger] frames[i].variables@[j]).value.renderable(),
    ensures
        all_renderable(frames),
{
}

/// Whatever a target replies to an operation that a command goes on to ask for,
/// the command accepts it, unless it cannot go on with it.
pub proof fn law_further_replies_are_accepted(
    d: DebuggerView,
    pending: Pending,
    reply: Reply,
    after: DebuggerView,
    progress: Progress,
)
    requires
        pending.accepts(reply),
        goes_on(d, pending, reply, after, progress),
    ensures
        accepts_what_is_replied(progress),
{
    if let Progress::Ask { query, then } = progress {
        assert forall|m: Machine, told: Reply, next: Machine|
            #[trigger] carries_out(m, query, told, next) && !cannot_go_on(
                then,
                told,
            ) implies then.accepts(told) by {
            if let Reply::Frames(frames) = told {
                if then is AfterFrames {
                    lemma_frames_are_accepted(frames@);
                }
            }
        }
    }
}

/// A session can take every request but, where its debug information cannot be
/// searched, those that look for lines of a source file.
pub proof fn law_requests_are_served(d: DebuggerView, request: DebugRequest)
    ensures
        searchable(d.dwarf) ==> serves(d, request),
        !(request is SetBreakpoint) && !(request is SetBreakpoints) ==> serves(d, request),
        request matches DebugRequest::SetBreakpoint { source_file: None, .. } ==> serves(
            d,
            request,
        ),
{
}

/// A session can be told at any time that no request is there or that nobody
/// sends any; it can be told each request that it can take, and each reply that
/// the command accepts for which it waits, as well as a failure.
pub proof fn law_sessions_can_be_told(
    d: DebuggerView,
    request: DebugRequest,
    now: u64,
    phase: Phase,
    pending: Pending,
    reply: Result<Reply, String>,
)
    ensures
        admits(d, SessionEvent::Disconnected),
        admits(d, (SessionEvent::NothingReceived { now })),
        serves(d, request) ==> admits(d, SessionEvent::Started(request)),
        serves(d, request) ==> admits(d, SessionEvent::Received(request)),
        fits(d, pending) && reply is Err ==> admits(
            d,
            (SessionEvent::Replied { phase, pending, reply }),
        ),
        fits(d, pending) && reply is Ok && pending.accepts(reply->Ok_0) ==> admits(
            d,
            (SessionEvent::Replied { phase, pending, reply }),
        ),
{
}

/// Only failures to reset the core or to write the program are reported as more
/// than the failure itself, and each as what failed.
pub proof fn law_failures_of_resets_are_named(query: Query)
    ensures
        query.failure_text() is Some <==> query is Reset || query is ResetAndHalt || query is Flash,
        query is Reset ==> query.failure_text() == Some("Failed to reset the core"@),
        query is ResetAndHalt ==> query.failure_text() == Some(
            "Failed to reset and halt the core"@,
        ),
        query is Flash ==> query.failure_text() == Some("Failed to flash target"@),
{
}

} // verus!
