//! A target as the commands meet it: what it holds, and what each operation
//! does to it. With it a command can be followed from its request to its end.
use vstd::prelude::*;

use crate::commands::DebugRequest;
use crate::debugger::model::{goes_on, starts};
use crate::debugger::protocol::{Progress, Query, Reply};
use crate::debugger::state::DebuggerView;
use crate::evaluator::UnwoundFrame;
use crate::registers::{designated_registers, register_values};
use crate::target::{CoreStatus, Register, RegisterId};

verus! {

/// What a target holds.
pub ghost struct Machine {
    pub status: CoreStatus,
    pub pc: u32,
    pub sp: u32,
    /// The registers that the core lists.
    pub listed: Seq<Register>,
    /// The content of each register, by its number.
    pub values: spec_fn(u16) -> u32,
    /// The content of the memory, by address.
    pub memory: spec_fn(int) -> u8,
    /// How many breakpoints the hardware can hold.
    pub units: u32,
    /// The breakpoints of the hardware.
    pub hardware: Set<u32>,
    /// The call stack that unwinding finds from these register values, with
    /// these numbers for the three designated registers, in this directory.
    pub unwind: spec_fn(Map<u16, u32>, Seq<Option<usize>>, Seq<char>) -> Seq<UnwoundFrame>,
    /// The operations that were carried out.
    pub done: Seq<Query>,
}

impl Machine {
    /// The word of 32 bits at an address, least significant byte first.
    pub open spec fn word_at(self, address: int) -> int {
        (self.memory)(address) + 0x100 * (self.memory)(address + 1) + 0x1_0000 * (self.memory)(
            address + 2,
        ) + 0x100_0000 * (self.memory)(address + 3)
    }

    /// The target after one more operation that changed nothing.
    pub open spec fn having_done(self, query: Query) -> Machine {
        Machine { done: self.done.push(query), ..self }
    }

    /// The target may have gone on since: its breakpoints and what kind of
    /// target it is are the same.
    pub open spec fn went_on_to(self, query: Query, after: Machine) -> bool {
        &&& after.listed == self.listed
        &&& after.units == self.units
        &&& after.hardware == self.hardware
        &&& after.done == self.done.push(query)
    }
}

/// What an operation does to the target, and what it yields.
pub open spec fn carries_out(m: Machine, query: Query, reply: Reply, after: Machine) -> bool {
    match query {
        Query::OpenCore => reply is Done && after == m.having_done(query),
        Query::Status => reply == Reply::Status(m.status) && after == m.having_done(query),
        Query::ListRegisters => {
            &&& reply matches Reply::Registers(registers)
            &&& registers@ == m.listed
            &&& after == m.having_done(query)
        },
        Query::ReadRegister { register } => {
            &&& reply == Reply::Word(
                match register {
                    RegisterId::ProgramCounter => m.pc,
                    RegisterId::StackPointer => m.sp,
                    RegisterId::Address(number) => (m.values)(number),
                },
            )
            &&& after == m.having_done(query)
        },
        Query::WriteProgramCounter { value } => {
            &&& reply is Done
            &&& after == (Machine { pc: value, ..m.having_done(query) })
        },
        Query::ReadBytes { address, length } => {
            &&& reply matches Reply::Bytes(bytes)
            &&& bytes@.len() == length
            &&& forall|i: int| 0 <= i < length ==> #[trigger] bytes@[i] == (m.memory)(address + i)
            &&& after == m.having_done(query)
        },
        Query::ReadWords { address, length } => {
            &&& reply matches Reply::Words(words)
            &&& words@.len() == length
            &&& forall|i: int|
                0 <= i < length ==> #[trigger] words@[i] == m.word_at(address + 4 * i)
            &&& after == m.having_done(query)
        },
        Query::CountBreakpointUnits => {
            &&& reply == Reply::Word(m.units)
            &&& after == m.having_done(query)
        },
        Query::SetHardwareBreakpoint { address } => {
            &&& reply is Done
            &&& after == (Machine {
                hardware: m.hardware.insert(address),
                ..m.having_done(query)
            })
        },
        Query::ClearHardwareBreakpoint { address } => {
            &&& reply is Done
            &&& after == (Machine {
                hardware: m.hardware.remove(address),
                ..m.having_done(query)
            })
        },
        Query::ClearAllHardwareBreakpoints => {
            &&& reply is Done
            &&& after == (Machine { hardware: Set::empty(), ..m.having_done(query) })
        },
        Query::Step => {
            &&& reply == Reply::Word(after.pc)
            &&& m.went_on_to(query, after)
            &&& after.status is Halted
        },
        Query::Run => {
            &&& reply is Done
            &&& m.went_on_to(query, after)
            &&& after.status == CoreStatus::Running
        },
        Query::Halt { .. } => {
            &&& reply is Done
            &&& m.went_on_to(query, after)
            &&& after.status is Halted
        },
        Query::Reset => reply is Done && m.went_on_to(query, after),
        Query::ResetAndHalt { .. } => {
            &&& reply is Done
            &&& m.went_on_to(query, after)
            &&& after.status is Halted
        },
        Query::Flash { .. } => reply is Done && m.went_on_to(query, after),
        Query::Unwind { registers, cwd } => {
            &&& reply matches Reply::Frames(frames)
            &&& frames@ == (m.unwind)(
                register_values(registers),
                designated_registers(registers),
                cwd@,
            )
            &&& after == m.having_done(query)
        },
    }
}

/// A session, its target, and where the command stands that the session is
/// carrying out.
pub ghost struct Course {
    pub d: DebuggerView,
    pub m: Machine,
    pub progress: Progress,
}

/// The command asks for an operation, the target carries it out, and the
/// command goes on with the reply.
pub open spec fn advances(c: Course, reply: Reply, next: Course) -> bool {
    &&& c.progress matches Progress::Ask { query, then }
    &&& carries_out(c.m, query, reply, next.m)
    &&& then.accepts(reply)
    &&& goes_on(c.d, then, reply, next.d, next.progress)
}

/// The command comes to its end within `n` operations, and then stands as in
/// `end`.
pub open spec fn leads_to(c: Course, n: nat, end: Course) -> bool
    decreases n,
{
    if c.progress is Ask {
        n > 0 && exists|reply: Reply, next: Course| #[trigger]
            advances(c, reply, next) && leads_to(next, (n - 1) as nat, end)
    } else {
        c == end
    }
}

/// A session takes a request, with that target, and comes to the end of it
/// within `n` operations.
pub open spec fn carried_through(
    d: DebuggerView,
    m: Machine,
    request: DebugRequest,
    n: nat,
    end: Course,
) -> bool {
    exists|after: DebuggerView, progress: Progress| #[trigger]
        starts(d, request, after, progress) && leads_to(Course { d: after, m, progress }, n, end)
}

/// Where the command stands once the session has taken the request.
pub(crate) proof fn lemma_first(
    d: DebuggerView,
    m: Machine,
    request: DebugRequest,
    n: nat,
    end: Course,
) -> (c: Course)
    requires
        carried_through(d, m, request, n, end),
    ensures
        c.m == m,
        starts(d, request, c.d, c.progress),
        leads_to(c, n, end),
{
    let (after, progress) = choose|after: DebuggerView, progress: Progress| #[trigger]
        starts(d, request, after, progress) && leads_to(Course { d: after, m, progress }, n, end);
    Course { d: after, m, progress }
}

/// Where the command stands after one more operation, and the reply to it.
pub(crate) proof fn lemma_after_operation(c: Course, n: nat, end: Course) -> (result: (
    Reply,
    Course,
))
    requires
        leads_to(c, n, end),
        c.progress is Ask,
    ensures
        n > 0,
        advances(c, result.0, result.1),
        leads_to(result.1, (n - 1) as nat, end),
{
    let (reply, next) = choose|reply: Reply, next: Course| #[trigger]
        advances(c, reply, next) && leads_to(next, (n - 1) as nat, end);
    (reply, next)
}

} // verus!
