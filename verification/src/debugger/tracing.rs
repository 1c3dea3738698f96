//! What the commands that look into the call stack show, from the request to
//! the end of the command.
use vstd::prelude::*;

use crate::commands::{Command, DebugError, DebugRequest, DebugResponse};
use crate::debugger::machine::{
    carried_through, leads_to, lemma_after_operation, lemma_first, Course, Machine,
};
use crate::debugger::model::{after_frames, traces};
use crate::debugger::protocol::{AfterStatus, Pending, Progress, Query, TracePurpose};
use crate::debugger::state::DebuggerView;
use crate::evaluator::UnwoundFrame;
use crate::target::Register;
use crate::text::quoted;
use crate::variable::{
    first_named, frame_views, resolved, variable_view, variable_views, StackFrameView,
    VariableView,
};

verus! {

/// One of the first `n` registers has that number.
pub open spec fn numbers(listed: Seq<Register>, n: int, address: u16) -> bool {
    exists|i: int| 0 <= i < n && (#[trigger] listed[i]).address == address
}

/// The first `n` registers have been read: each has its content, and the other
/// values are as they were before.
pub open spec fn read_from(
    m: Machine,
    n: int,
    before: Map<u16, u32>,
    after: Map<u16, u32>,
) -> bool {
    forall|a: u16|
        #![trigger after.contains_key(a)]
        #![trigger after[a]]
        if numbers(m.listed, n, a) {
            after.contains_key(a) && after[a] == (m.values)(a)
        } else {
            after.contains_key(a) == before.contains_key(a) && (before.contains_key(a) ==> after[a]
                == before[a])
        }
}

/// What is shown of the frames: a frame for each, in the same order, with the
/// same name, call frame and source location, and with a variable for each of
/// its variables, in the same order.
pub open spec fn shows_frames(frames: Seq<UnwoundFrame>, trace: Seq<StackFrameView>) -> bool {
    &&& trace.len() == frames.len()
    &&& forall|i: int|
        #![trigger trace[i]]
        0 <= i < frames.len() ==> {
            &&& trace[i].name == frames[i].name@
            &&& trace[i].call_frame == frames[i].call_frame
            &&& trace[i].source.directory == frames[i].source.directory
            &&& trace[i].source.file == frames[i].source.file
            &&& trace[i].source.line == frames[i].source.line
            &&& trace[i].source.column == frames[i].source.column
            &&& trace[i].variables.len() == frames[i].variables@.len()
        }
    &&& forall|i: int, j: int|
        #![trigger trace[i].variables[j]]
        0 <= i < frames.len() && 0 <= j < frames[i].variables@.len() ==> trace[i].variables[j]
            == resolved(frames[i].variables@[j])
}

/// The session has read all registers and knows the call stack that unwinding
/// finds from their contents.
pub open spec fn knows_the_call_stack(
    d: DebuggerView,
    m: Machine,
    values: Map<u16, u32>,
    after: DebuggerView,
) -> bool {
    &&& read_from(m, m.listed.len() as int, d.register_values, values)
    &&& after.stack_trace is Some
    &&& shows_frames(
        (m.unwind)(values, d.designated_registers, d.cwd),
        after.stack_trace->0,
    )
    &&& after == (DebuggerView {
        register_values: values,
        stack_trace: after.stack_trace,
        ..d
    })
}

/// The session knows the call stack: the one that it knew, or else the one that
/// unwinding finds from the contents of the registers.
pub open spec fn has_the_call_stack(d: DebuggerView, m: Machine, after: DebuggerView) -> bool {
    match d.stack_trace {
        Some(_) => after == d,
        None => exists|values: Map<u16, u32>| #[trigger] knows_the_call_stack(d, m, values, after),
    }
}

/// Where the command stands once the call stack is unwound.
proof fn lemma_traces(
    start: DebuggerView,
    m: Machine,
    c: Course,
    registers: Vec<Register>,
    next: int,
    purpose: TracePurpose,
    n: nat,
    end: Course,
) -> (result: (Course, nat))
    requires
        leads_to(c, n, end),
        registers@ == m.listed,
        c.m == (Machine { done: c.m.done, ..m }),
        0 <= next <= registers@.len(),
        traces(c.d, registers, next, purpose, c.progress),
        read_from(m, next, start.register_values, c.d.register_values),
        c.d == (DebuggerView { register_values: c.d.register_values, ..start }),
    ensures
        result.0.m == (Machine { done: result.0.m.done, ..m }),
        knows_the_call_stack(start, m, result.0.d.register_values, result.0.d),
        leads_to(result.0, result.1, end),
        match purpose {
            TracePurpose::Variable { name } => result.0.progress == (Progress::Ask {
                query: Query::Status,
                then: Pending::AfterStatus(AfterStatus::Variable { name }),
            }),
            TracePurpose::Variables => result.0.progress == (Progress::Ask {
                query: Query::Status,
                then: Pending::AfterStatus(AfterStatus::Variables),
            }),
            TracePurpose::StackTrace => result.0.progress matches Progress::Answer(
                Command::Response(DebugResponse::StackTrace { stack_trace }),
            ) && Some(frame_views(stack_trace@)) == result.0.d.stack_trace,
        },
    decreases n,
{
    let (reply, c1) = lemma_after_operation(c, n, end);
    if next < registers@.len() {
        assert(next < registers.len());
        let address = registers@[next].address;
        assert(m.listed[next].address == address);
        assert forall|a: u16|
            #![trigger c1.d.register_values.contains_key(a)]
            #![trigger c1.d.register_values[a]]
            if numbers(m.listed, next + 1, a) {
                c1.d.register_values.contains_key(a) && c1.d.register_values[a] == (m.values)(a)
            } else {
                c1.d.register_values.contains_key(a) == start.register_values.contains_key(a) && (
                start.register_values.contains_key(a) ==> c1.d.register_values[a]
                    == start.register_values[a])
            } by {
            if a == address {
                assert(numbers(m.listed, next + 1, a));
            } else {
                assert(c.d.register_values.contains_key(a) == c1.d.register_values.contains_key(a));
                if numbers(m.listed, next + 1, a) {
                    assert(numbers(m.listed, next, a));
                }
                if numbers(m.listed, next, a) {
                    assert(numbers(m.listed, next + 1, a));
                }
            }
        }
        lemma_traces(start, m, c1, registers, next + 1, purpose, (n - 1) as nat, end)
    } else {
        assert(after_frames(c.d, purpose, reply->Frames_0@, c1.d, c1.progress));
        (c1, (n - 1) as nat)
    }
}

/// The call stack is unwound, where the session does not know it: then it is
/// the one that unwinding finds from the contents of all registers. Each frame
/// is shown with its name, its call frame and its place in the source. The
/// target is as it was.
pub proof fn law_stack_trace_is_that_of_the_core(d: DebuggerView, m: Machine, n: nat, end: Course)
    requires
        carried_through(d, m, DebugRequest::StackTrace, n, end),
    ensures
        end.m == (Machine { done: end.m.done, ..m }),
        has_the_call_stack(d, m, end.d),
        end.progress matches Progress::Answer(
            Command::Response(DebugResponse::StackTrace { stack_trace }),
        ) && {
            &&& end.d.stack_trace is Some
            &&& stack_trace@.len() == end.d.stack_trace->0.len()
            &&& forall|i: int|
                #![trigger stack_trace@[i]]
                0 <= i < stack_trace@.len() ==> {
                    let known = end.d.stack_trace->0[i];
                    &&& stack_trace@[i].name@ == known.name
                    &&& stack_trace@[i].call_frame == known.call_frame
                    &&& stack_trace@[i].source == known.source
                    &&& variable_views(stack_trace@[i].variables@) == known.variables
                }
        },
{
    let c0 = lemma_first(d, m, DebugRequest::StackTrace, n, end);
    let shown = match d.stack_trace {
        Some(_) => c0,
        None => {
            let (listed, c1) = lemma_after_operation(c0, n, end);
            let registers = listed->Registers_0;
            let (c2, k) = lemma_traces(
                d,
                m,
                c1,
                registers,
                0,
                TracePurpose::StackTrace,
                (n - 1) as nat,
                end,
            );
            c2
        },
    };
    let stack_trace = shown.progress->Answer_0->Response_0->stack_trace;
    assert forall|i: int|
        #![trigger stack_trace@[i]]
        0 <= i < stack_trace@.len() implies stack_trace@[i]@ == end.d.stack_trace->0[i] by {
        assert(frame_views(stack_trace@)[i] == stack_trace@[i]@);
    }
}

/// All variables of the innermost frame are shown, in their order; none where
/// there is no frame.
pub open spec fn shows_innermost(frames: Seq<StackFrameView>, progress: Progress) -> bool {
    progress matches Progress::Answer(Command::Response(DebugResponse::Variables { variables }))
        && {
        if frames.len() == 0 {
            variables@.len() == 0
        } else {
            &&& variables@.len() == frames[0].variables.len()
            &&& forall|i: int|
                0 <= i < variables@.len() ==> variable_view(#[trigger] variables@[i])
                    == frames[0].variables[i]
        }
    }
}

/// The variables of the innermost frame are shown where the core is halted, and
/// else the answer is that it has to be. The call stack is unwound where the
/// session does not know it; the target is as it was.
pub proof fn law_variables_are_those_of_the_innermost_frame(
    d: DebuggerView,
    m: Machine,
    n: nat,
    end: Course,
)
    requires
        carried_through(d, m, DebugRequest::Variables, n, end),
    ensures
        end.m == (Machine { done: end.m.done, ..m }),
        if m.status is Halted {
            &&& has_the_call_stack(d, m, end.d)
            &&& end.d.stack_trace is Some
            &&& shows_innermost(end.d.stack_trace->0, end.progress)
        } else {
            &&& end.progress == Progress::Fail(DebugError::CoreNotHalted)
            &&& end.d == d
        },
{
    let c0 = lemma_first(d, m, DebugRequest::Variables, n, end);
    let (status, c1) = lemma_after_operation(c0, n, end);
    if m.status is Halted {
        let shown = match d.stack_trace {
            Some(_) => c1,
            None => {
                let (listed, c2) = lemma_after_operation(c1, (n - 1) as nat, end);
                let registers = listed->Registers_0;
                let (c3, k) = lemma_traces(
                    d,
                    m,
                    c2,
                    registers,
                    0,
                    TracePurpose::Variables,
                    (n - 2) as nat,
                    end,
                );
                let (again, c4) = lemma_after_operation(c3, k, end);
                c4
            },
        };
        let frames = shown.d.stack_trace->0;
        let variables = shown.progress->Answer_0->Response_0->variables;
        assert(variable_views(variables@).len() == variables@.len());
        assert forall|i: int| 0 <= i < variables@.len() implies variable_view(
            #[trigger] variables@[i],
        ) == frames[0].variables[i] by {
            assert(variable_views(variables@)[i] == variable_view(variables@[i]));
        }
    }
}

/// The first variable of the innermost frame that has the name is shown; where
/// none has, the answer says so, and where there is no frame, the command
/// fails.
pub open spec fn shows_the_first_named(
    frames: Seq<StackFrameView>,
    name: String,
    progress: Progress,
) -> bool {
    if frames.len() == 0 {
        progress == Progress::Fail(DebugError::VariableNotFound { name })
    } else {
        let variables = frames[0].variables;
        if exists|i: int| 0 <= i < variables.len() && (#[trigger] variables[i]).name == Some(
            name@,
        ) {
            exists|i: int|
                {
                    &&& 0 <= i < variables.len()
                    &&& (#[trigger] variables[i]).name == Some(name@)
                    &&& forall|j: int| 0 <= j < i ==> (#[trigger] variables[j]).name != Some(name@)
                    &&& progress matches Progress::Answer(
                        Command::Response(DebugResponse::Variable { variable }),
                    )
                    &&& variable_view(variable) == variables[i]
                }
        } else {
            progress matches Progress::Answer(Command::Response(DebugResponse::Error { message }))
                && message@ == "Variable "@ + quoted(name@) + " not found"@
        }
    }
}

/// What is found by a name is the first that has it.
proof fn lemma_first_named(variables: Seq<VariableView>, name: Seq<char>)
    ensures
        match first_named(variables, name) {
            Some(found) => exists|i: int|
                {
                    &&& 0 <= i < variables.len()
                    &&& #[trigger] variables[i] == found
                    &&& found.name == Some(name)
                    &&& forall|j: int| 0 <= j < i ==> (#[trigger] variables[j]).name != Some(name)
                },
            None => forall|i: int|
                0 <= i < variables.len() ==> (#[trigger] variables[i]).name != Some(name),
        },
    decreases variables.len(),
{
    if variables.len() > 0 {
        let rest = variables.drop_first();
        lemma_first_named(rest, name);
        assert(forall|i: int| 0 < i < variables.len() ==> #[trigger] variables[i] == rest[i - 1]);
        if variables.first().name == Some(name) {
            assert(variables[0] == variables.first());
        } else if let Some(found) = first_named(rest, name) {
            let i = choose|i: int|
                {
                    &&& 0 <= i < rest.len()
                    &&& #[trigger] rest[i] == found
                    &&& found.name == Some(name)
                    &&& forall|j: int| 0 <= j < i ==> (#[trigger] rest[j]).name != Some(name)
                };
            assert(variables[i + 1] == found);
        }
    }
}

/// A variable of the innermost frame is shown where the core is halted, the
/// first of its name, and else the answer is that the core has to be halted. The
/// call stack is unwound where the session does not know it; the target is as it
/// was.
pub proof fn law_variable_is_the_first_of_its_name(
    d: DebuggerView,
    m: Machine,
    name: String,
    n: nat,
    end: Course,
)
    requires
        carried_through(d, m, DebugRequest::Variable { name }, n, end),
    ensures
        end.m == (Machine { done: end.m.done, ..m }),
        if m.status is Halted {
            &&& has_the_call_stack(d, m, end.d)
            &&& end.d.stack_trace is Some
            &&& shows_the_first_named(end.d.stack_trace->0, name, end.progress)
        } else {
            &&& end.progress == Progress::Fail(DebugError::CoreNotHalted)
            &&& end.d == d
        },
{
    let c0 = lemma_first(d, m, DebugRequest::Variable { name }, n, end);
    let (status, c1) = lemma_after_operation(c0, n, end);
    if m.status is Halted {
        let shown = match d.stack_trace {
            Some(_) => c1,
            None => {
                let (listed, c2) = lemma_after_operation(c1, (n - 1) as nat, end);
                let registers = listed->Registers_0;
                let (c3, k) = lemma_traces(
                    d,
                    m,
                    c2,
                    registers,
                    0,
                    TracePurpose::Variable { name },
                    (n - 2) as nat,
                    end,
                );
                let (again, c4) = lemma_after_operation(c3, k, end);
                c4
            },
        };
        let frames = shown.d.stack_trace->0;
        if frames.len() > 0 {
            lemma_first_named(frames[0].variables, name@);
        }
    }
}

} // verus!
