//! The course of a session: requests come in, answers and events go out, and
//! in between the session looks whether the core came to a halt.
use vstd::prelude::*;

use crate::commands::{Command, DebugError, DebugRequest};
use crate::debugger::execution::ask_status;
use crate::debugger::model::{asks_status, fits, resumes, serves, starts};
use crate::debugger::protocol::{AfterDone, AfterStatus, Pending, Progress, Query, Reply};
use crate::debugger::state::{Debugger, DebuggerView};

verus! {

/// How long, in nanoseconds, a session waits before it looks at the core
/// again.
pub const CHECK_INTERVAL: u64 = 400_000_000;

/// What an operation that a session asks for belongs to.
#[derive(Debug)]
pub enum Phase {
    /// The request that the session was started with.
    First,
    /// A request that came in later.
    Serving,
    /// Looking whether the core came to a halt.
    Checking,
    /// The end of the session.
    Leaving(Result<DebugRequest, DebugError>),
}

/// What a session is told.
#[derive(Debug)]
pub enum SessionEvent {
    /// It is started with this request.
    Started(DebugRequest),
    /// A request came in.
    Received(DebugRequest),
    /// No request is there; the time is `now`, in nanoseconds.
    NothingReceived { now: u64 },
    /// Nobody sends requests any more.
    Disconnected,
    /// The operation that it asked for is done, or failed.
    Replied { phase: Phase, pending: Pending, reply: Result<Reply, String> },
}

/// What a session wants done.
#[derive(Debug)]
pub enum SessionAction {
    /// Carry out an operation, and tell the reply.
    Ask { query: Query, phase: Phase, pending: Pending },
    /// Send the command, then look for a request.
    Send { command: Command },
    /// Look for a request.
    Poll,
    /// End the session: with a request that it cannot serve, or because of an
    /// error.
    Leave(Result<DebugRequest, DebugError>),
}

/// All breakpoints are removed before the session ends.
pub open spec fn leaving(result: Result<DebugRequest, DebugError>) -> SessionAction {
    SessionAction::Ask {
        query: Query::ClearAllHardwareBreakpoints,
        phase: Phase::Leaving(result),
        pending: Pending::AfterDone(AfterDone::AllCleared),
    }
}

/// What follows once a command stands at `progress`.
pub open spec fn follows(phase: Phase, progress: Progress) -> SessionAction {
    match progress {
        Progress::Ask { query, then } => SessionAction::Ask { query, phase, pending: then },
        Progress::Nothing => SessionAction::Poll,
        Progress::Fail(error) => SessionAction::Leave(Err(error)),
        Progress::Answer(command) => match phase {
            Phase::Leaving(result) => SessionAction::Leave(result),
            Phase::First => match command {
                Command::Request(request) => SessionAction::Leave(Ok(request)),
                _ => SessionAction::Send { command },
            },
            _ => match command {
                Command::Request(request) => leaving(Ok(request)),
                _ => SessionAction::Send { command },
            },
        },
    }
}

impl DebuggerView {
    /// It is time to look at the core: it is taken to run, and was last looked
    /// at longer ago than the interval.
    pub open spec fn check_due(self, now: u64) -> bool {
        self.running && now - self.check_time > CHECK_INTERVAL
    }
}

/// Looks at the core if it is time to.
pub open spec fn checks_halted(
    d: DebuggerView,
    now: u64,
    after: DebuggerView,
    progress: Progress,
) -> bool {
    if d.check_due(now) {
        &&& after == (DebuggerView { check_time: now, ..d })
        &&& progress == asks_status(AfterStatus::HaltCheck)
    } else {
        &&& after == d
        &&& progress == Progress::Nothing
    }
}

/// The session can be told this.
pub open spec fn admits(d: DebuggerView, event: SessionEvent) -> bool {
    match event {
        SessionEvent::Started(request) => serves(d, request),
        SessionEvent::Received(request) => serves(d, request),
        SessionEvent::Replied { pending, reply, .. } => fits(d, pending) && (reply matches Ok(
            reply,
        ) ==> pending.accepts(reply)),
        _ => true,
    }
}

/// The session can be told the reply to the operation that it wants done.
pub open spec fn awaits_reply(d: DebuggerView, action: SessionAction) -> bool {
    action matches SessionAction::Ask { pending, .. } ==> fits(d, pending)
}

/// How a session goes on with what it is told.
pub open spec fn proceeds(
    d: DebuggerView,
    event: SessionEvent,
    after: DebuggerView,
    action: SessionAction,
) -> bool {
    match event {
        SessionEvent::Started(request) => exists|progress: Progress|
            starts(d, request, after, progress) && action == #[trigger] follows(
                Phase::First,
                progress,
            ),
        SessionEvent::Received(request) => exists|progress: Progress|
            starts(d, request, after, progress) && action == #[trigger] follows(
                Phase::Serving,
                progress,
            ),
        SessionEvent::NothingReceived { now } => exists|progress: Progress|
            checks_halted(d, now, after, progress) && action == #[trigger] follows(
                Phase::Checking,
                progress,
            ),
        SessionEvent::Disconnected => after == d && action == leaving(
            Err(DebugError::Disconnected),
        ),
        SessionEvent::Replied { phase, pending, reply } => exists|progress: Progress|
            resumes(d, pending, reply, after, progress) && action == #[trigger] follows(
                phase,
                progress,
            ),
    }
}

/// Removes all breakpoints before the session ends.
fn leave(result: Result<DebugRequest, DebugError>) -> (action: SessionAction)
    ensures
        action == leaving(result),
{
    SessionAction::Ask {
        query: Query::ClearAllHardwareBreakpoints,
        phase: Phase::Leaving(result),
        pending: Pending::AfterDone(AfterDone::AllCleared),
    }
}

/// What follows once a command stands at `progress`.
pub fn follow(phase: Phase, progress: Progress) -> (action: SessionAction)
    ensures
        action == follows(phase, progress),
{
    match progress {
        Progress::Ask { query, then } => SessionAction::Ask { query, phase, pending: then },
        Progress::Nothing => SessionAction::Poll,
        Progress::Fail(error) => SessionAction::Leave(Err(error)),
        Progress::Answer(command) => match (phase, command) {
            (Phase::Leaving(result), _) => SessionAction::Leave(result),
            (Phase::First, Command::Request(request)) => SessionAction::Leave(Ok(request)),
            (_, Command::Request(request)) => leave(Ok(request)),
            (_, command) => SessionAction::Send { command },
        },
    }
}

impl<'a> Debugger<'a> {
    /// Looks whether the core came to a halt, if it is taken to run and was
    /// not looked at for a while.
    pub fn check_halted(&mut self, now: u64) -> (progress: Progress)
        ensures
            checks_halted(old(self)@, now, final(self)@, progress),
    {
        if self.running && now > self.check_time && now - self.check_time > CHECK_INTERVAL {
            self.check_time = now;
            ask_status(AfterStatus::HaltCheck)
        } else {
            Progress::Nothing
        }
    }

    /// The next step of the session.
    pub fn run(&mut self, event: SessionEvent) -> (action: SessionAction)
        requires
            old(self)@.wf(),
            admits(old(self)@, event),
        ensures
            proceeds(old(self)@, event, final(self)@, action),
            final(self)@.wf(),
            awaits_reply(final(self)@, action),
    {
        match event {
            SessionEvent::Started(request) => {
                let progress = self.handle_request(request);
                follow(Phase::First, progress)
            },
            SessionEvent::Received(request) => {
                let progress = self.handle_request(request);
                follow(Phase::Serving, progress)
            },
            SessionEvent::NothingReceived { now } => {
                let progress = self.check_halted(now);
                follow(Phase::Checking, progress)
            },
            SessionEvent::Disconnected => leave(Err(DebugError::Disconnected)),
            SessionEvent::Replied { phase, pending, reply } => {
                let progress = self.resume(pending, reply);
                follow(phase, progress)
            },
        }
    }
}

} // verus!
