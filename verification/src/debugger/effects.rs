//! What each command does to the target and what it answers, from the request
//! to the end of the command.
use vstd::prelude::*;

use crate::breakpoint::Breakpoint;
use crate::commands::{Command, DebugError, DebugRequest, DebugResponse};
use crate::debug_information::breakpoint_location;
use crate::debugger::machine::{
    carried_through, leads_to, lemma_after_operation, lemma_first, Course, Machine,
};
use crate::debugger::model::{fits, goes_on, leaves, reads_registers};
use crate::debugger::protocol::{
    AfterDone, AfterStatus, Pending, Progress, Query, Reply, Resumption,
};
use crate::debugger::state::DebuggerView;
use crate::disassembly::{short_listing, short_listing_view, thumb_instructions};
use crate::target::{CoreStatus, HaltReason, Register, RegisterId};

verus! {

/// Reading memory answers with the memory: byte number `i` of the answer is the
/// byte of the target at the address plus `i`, and there are as many as were
/// asked for. Nothing changes.
pub proof fn law_reading_shows_the_memory(
    d: DebuggerView,
    m: Machine,
    address: u32,
    byte_size: usize,
    n: nat,
    end: Course,
)
    requires
        carried_through(d, m, DebugRequest::Read { address, byte_size }, n, end),
    ensures
        end.progress matches Progress::Answer(
            Command::Response(DebugResponse::Read { address: from, value }),
        ) && {
            &&& from == address
            &&& value@.len() == byte_size
            &&& forall|i: int|
                0 <= i < byte_size ==> #[trigger] value@[i] == (m.memory)(address + i)
        },
        end.d == d,
        end.m == (Machine { done: end.m.done, ..m }),
{
    let c0 = lemma_first(d, m, DebugRequest::Read { address, byte_size }, n, end);
    let (reply, c1) = lemma_after_operation(c0, n, end);
}

/// The state is told as the core has it: where the core is halted, with its
/// program counter, and else without one. Nothing changes.
pub proof fn law_status_is_that_of_the_core(
    d: DebuggerView,
    m: Machine,
    n: nat,
    end: Course,
)
    requires
        carried_through(d, m, DebugRequest::Status, n, end),
    ensures
        end.progress == Progress::Answer(
            Command::Response(
                DebugResponse::Status {
                    status: m.status,
                    pc: if m.status is Halted {
                        Some(m.pc)
                    } else {
                        None
                    },
                },
            ),
        ),
        end.d == d,
        end.m == (Machine { done: end.m.done, ..m }),
{
    let c0 = lemma_first(d, m, DebugRequest::Status, n, end);
    let (status, c1) = lemma_after_operation(c0, n, end);
    if m.status is Halted {
        let (pc, c2) = lemma_after_operation(c1, (n - 1) as nat, end);
    }
}

/// Halting a core that is not halted halts it, and only that; a core that is
/// halted is not halted again, and the answer is that it is.
pub proof fn law_halting_halts_the_core(d: DebuggerView, m: Machine, n: nat, end: Course)
    requires
        carried_through(d, m, DebugRequest::Halt, n, end),
    ensures
        end.d == d,
        if m.status is Halted {
            &&& end.progress == Progress::Fail(DebugError::CoreAlreadyHalted)
            &&& end.m == (Machine { done: m.done.push(Query::Status), ..m })
        } else {
            &&& end.progress == Progress::Answer(Command::Response(DebugResponse::Halt))
            &&& end.m.status is Halted
            &&& end.m.done == m.done.push(Query::Status).push(Query::Halt { timeout_ms: 100 })
            &&& end.m.hardware == m.hardware
        },
{
    let c0 = lemma_first(d, m, DebugRequest::Halt, n, end);
    let (status, c1) = lemma_after_operation(c0, n, end);
    if m.status !is Halted {
        let (done, c2) = lemma_after_operation(c1, (n - 1) as nat, end);
    }
}

/// The operation that resets the core, and halts it where that is asked for.
pub open spec fn is_reset(query: Query, halted: bool) -> bool {
    query == if halted {
        Query::ResetAndHalt { timeout_ms: 10 }
    } else {
        Query::Reset
    }
}

/// Attaching resets the core where it is asked to, and halts it where it is
/// asked to do that. Then the session has forgotten what it knew of the core;
/// else nothing changes.
pub proof fn law_attaching_resets_as_asked(
    d: DebuggerView,
    m: Machine,
    reset: bool,
    reset_and_halt: bool,
    n: nat,
    end: Course,
)
    requires
        carried_through(d, m, DebugRequest::Attach { reset, reset_and_halt }, n, end),
    ensures
        end.progress == Progress::Answer(Command::Response(DebugResponse::Attach)),
        if reset || reset_and_halt {
            &&& end.m.done.len() == m.done.len() + 1
            &&& end.m.done.drop_last() == m.done
            &&& is_reset(end.m.done.last(), reset_and_halt)
            &&& reset_and_halt ==> end.m.status is Halted
            &&& end.d == (DebuggerView { register_values: Map::empty(), stack_trace: None, ..d })
        } else {
            end.m == m && end.d == d
        },
        end.m.hardware == m.hardware,
{
    let c0 = lemma_first(d, m, DebugRequest::Attach { reset, reset_and_halt }, n, end);
    if reset || reset_and_halt {
        let (done, c1) = lemma_after_operation(c0, n, end);
        assert(c1.m.done.drop_last() =~= m.done);
    }
}

/// Resetting resets the core, and halts it where it is asked to. The session
/// has forgotten what it knew of the core, takes it to run, and keeps its
/// breakpoints, as the hardware does.
pub proof fn law_resetting_resets_as_asked(
    d: DebuggerView,
    m: Machine,
    reset_and_halt: bool,
    n: nat,
    end: Course,
)
    requires
        carried_through(d, m, DebugRequest::Reset { reset_and_halt }, n, end),
    ensures
        end.progress == Progress::Answer(Command::Response(DebugResponse::Reset)),
        end.m.done.len() == m.done.len() + 1,
        end.m.done.drop_last() == m.done,
        is_reset(end.m.done.last(), reset_and_halt),
        reset_and_halt ==> end.m.status is Halted,
        end.m.hardware == m.hardware,
        end.d == (DebuggerView {
            register_values: Map::empty(),
            stack_trace: None,
            running: true,
            ..d
        }),
{
    let c0 = lemma_first(d, m, DebugRequest::Reset { reset_and_halt }, n, end);
    let (done, c1) = lemma_after_operation(c0, n, end);
    assert(c1.m.done.drop_last() =~= m.done);
}

/// Writing the program writes the file of the session and then resets the core,
/// and halts it where it is asked to. The session has forgotten what it knew of
/// the core, takes it to run, and keeps its breakpoints, as the hardware does.
pub proof fn law_flashing_writes_the_program(
    d: DebuggerView,
    m: Machine,
    reset_and_halt: bool,
    n: nat,
    end: Course,
)
    requires
        carried_through(d, m, DebugRequest::Flash { reset_and_halt }, n, end),
    ensures
        end.progress == Progress::Answer(Command::Response(DebugResponse::Flash)),
        end.m.done.len() == m.done.len() + 2,
        end.m.done.drop_last() == m.done.push(Query::Flash { file_path: d.file_path }),
        is_reset(end.m.done.last(), reset_and_halt),
        reset_and_halt ==> end.m.status is Halted,
        end.m.hardware == m.hardware,
        end.d == (DebuggerView {
            register_values: Map::empty(),
            stack_trace: None,
            running: true,
            ..d
        }),
{
    let c0 = lemma_first(d, m, DebugRequest::Flash { reset_and_halt }, n, end);
    let (written, c1) = lemma_after_operation(c0, n, end);
    let (done, c2) = lemma_after_operation(c1, (n - 1) as nat, end);
    assert(c2.m.done.drop_last() =~= c1.m.done);
}

/// The stack is answered from the stack pointer up to the frame register of the
/// core: word number `i` of the answer is the word of the target's memory
/// behind `i` words, and there are as few as reach that far. Where the stack
/// pointer is above, there are none. Nothing changes.
pub proof fn law_stack_is_that_of_the_core(d: DebuggerView, m: Machine, n: nat, end: Course)
    requires
        carried_through(d, m, DebugRequest::Stack, n, end),
    ensures
        end.d == d,
        end.m == (Machine { done: end.m.done, ..m }),
        if m.status is Halted {
            end.progress matches Progress::Answer(
                Command::Response(DebugResponse::Stack { stack_pointer, stack }),
            ) && {
                let base = (m.values)(7);
                &&& stack_pointer == m.sp
                &&& base <= m.sp ==> stack@.len() == 0
                &&& base > m.sp ==> base - m.sp <= 4 * stack@.len() < base - m.sp + 4
                &&& forall|i: int|
                    0 <= i < stack@.len() ==> #[trigger] stack@[i] == m.word_at(m.sp + 4 * i)
            }
        } else {
            end.progress == Progress::Fail(DebugError::CoreNotHalted)
        },
{
    let c0 = lemma_first(d, m, DebugRequest::Stack, n, end);
    let (status, c1) = lemma_after_operation(c0, n, end);
    if m.status is Halted {
        let (base, c2) = lemma_after_operation(c1, (n - 1) as nat, end);
        let (pointer, c3) = lemma_after_operation(c2, (n - 2) as nat, end);
        if (m.values)(7) >= m.sp {
            let (words, c4) = lemma_after_operation(c3, (n - 3) as nat, end);
        }
    }
}

/// Disassembling answers with the program counter and the instructions that the
/// disassembler finds in the 32 bytes of the target's memory from there on, in
/// their order and with their texts, at their addresses cut to 32 bits. Nothing
/// changes.
pub proof fn law_code_is_that_at_the_program_counter(
    d: DebuggerView,
    m: Machine,
    code: Seq<u8>,
    n: nat,
    end: Course,
)
    requires
        carried_through(d, m, DebugRequest::Code, n, end),
        code == Seq::new(32, |i: int| (m.memory)(m.pc + i)),
    ensures
        end.d == d,
        end.m == (Machine { done: end.m.done, ..m }),
        if m.status is Halted {
            end.progress matches Progress::Answer(
                Command::Response(DebugResponse::Code { pc, instructions }),
            ) && {
                let listing = thumb_instructions(code, m.pc as u64);
                &&& pc == m.pc
                &&& instructions@.len() == listing.len()
                &&& forall|i: int|
                    0 <= i < listing.len() ==> (#[trigger] instructions@[i]).0
                        == listing[i].0 as u32 && instructions@[i].1@ == listing[i].1
            }
        } else {
            end.progress == Progress::Fail(DebugError::CoreNotHalted)
        },
{
    let c0 = lemma_first(d, m, DebugRequest::Code, n, end);
    let (status, c1) = lemma_after_operation(c0, n, end);
    if m.status is Halted {
        let (pc, c2) = lemma_after_operation(c1, (n - 1) as nat, end);
        let (bytes, c3) = lemma_after_operation(c2, (n - 2) as nat, end);
        assert(bytes->Bytes_0@ =~= code);
        let listing = thumb_instructions(code, m.pc as u64);
        let instructions = c3.progress->Answer_0->Response_0->instructions;
        assert(short_listing_view(instructions@) == short_listing(listing));
        assert(short_listing_view(instructions@).len() == listing.len());
        assert forall|i: int| 0 <= i < listing.len() implies (#[trigger] instructions@[i]).0
            == listing[i].0 as u32 && instructions@[i].1@ == listing[i].1 by {
            assert(short_listing_view(instructions@)[i] == short_listing(listing)[i]);
        }
    }
}

/// Reading the registers goes on with those that have not been read.
proof fn lemma_registers(
    c: Course,
    registers: Vec<Register>,
    values: Seq<(String, u32)>,
    n: nat,
    end: Course,
)
    requires
        leads_to(c, n, end),
        registers@ == c.m.listed,
        values.len() <= registers@.len(),
        reads_registers(registers, values, c.progress),
        forall|i: int|
            #![trigger values[i]]
            0 <= i < values.len() ==> values[i] == (
                registers@[i].name,
                (c.m.values)(registers@[i].address),
            ),
    ensures
        end.d == c.d,
        end.m == (Machine { done: end.m.done, ..c.m }),
        end.progress matches Progress::Answer(
            Command::Response(DebugResponse::Registers { registers: read }),
        ) && {
            &&& read@.len() == c.m.listed.len()
            &&& forall|i: int|
                #![trigger read@[i]]
                0 <= i < read@.len() ==> read@[i] == (
                    c.m.listed[i].name,
                    (c.m.values)(c.m.listed[i].address),
                )
        },
    decreases n,
{
    if values.len() < registers@.len() {
        let (word, next) = lemma_after_operation(c, n, end);
        let grown = values.push((registers@[values.len() as int].name, word->Word_0));
        assert(reads_registers(registers, grown, next.progress));
        lemma_registers(next, registers, grown, (n - 1) as nat, end);
    }
}

/// The registers are answered in the order in which the core lists them, each
/// with its name and its content. Nothing changes.
pub proof fn law_registers_are_those_of_the_core(d: DebuggerView, m: Machine, n: nat, end: Course)
    requires
        carried_through(d, m, DebugRequest::Registers, n, end),
    ensures
        end.d == d,
        end.m == (Machine { done: end.m.done, ..m }),
        end.progress matches Progress::Answer(
            Command::Response(DebugResponse::Registers { registers }),
        ) && {
            &&& registers@.len() == m.listed.len()
            &&& forall|i: int|
                #![trigger registers@[i]]
                0 <= i < registers@.len() ==> registers@[i] == (
                    m.listed[i].name,
                    (m.values)(m.listed[i].address),
                )
        },
{
    let c0 = lemma_first(d, m, DebugRequest::Registers, n, end);
    let (listed, c1) = lemma_after_operation(c0, n, end);
    lemma_registers(c1, listed->Registers_0, Seq::empty(), (n - 1) as nat, end);
}

// Breakpoints

/// Removing all breakpoints leaves none, neither in the hardware nor in the
/// session. Nothing else changes.
pub proof fn law_clearing_all_clears_the_hardware(d: DebuggerView, m: Machine, n: nat, end: Course)
    requires
        carried_through(d, m, DebugRequest::ClearAllBreakpoints, n, end),
    ensures
        end.progress == Progress::Answer(Command::Response(DebugResponse::ClearAllBreakpoints)),
        end.d == (DebuggerView { breakpoints: Map::empty(), ..d }),
        end.m == (Machine { hardware: Set::empty(), done: end.m.done, ..m }),
{
    let c0 = lemma_first(d, m, DebugRequest::ClearAllBreakpoints, n, end);
    let (done, c1) = lemma_after_operation(c0, n, end);
}

/// Removing a breakpoint takes it from the hardware and from the session. The
/// answer is an error exactly if the session had none at the address. Nothing
/// else changes.
pub proof fn law_clearing_clears_the_hardware(
    d: DebuggerView,
    m: Machine,
    address: u32,
    n: nat,
    end: Course,
)
    requires
        carried_through(d, m, DebugRequest::ClearBreakpoint { address }, n, end),
    ensures
        end.progress == if d.breakpoints.contains_key(address) {
            Progress::Answer(Command::Response(DebugResponse::ClearBreakpoint))
        } else {
            Progress::Fail(DebugError::NoBreakpointAt { address })
        },
        end.d == (DebuggerView { breakpoints: d.breakpoints.remove(address), ..d }),
        end.m == (Machine { hardware: m.hardware.remove(address), done: end.m.done, ..m }),
{
    let c0 = lemma_first(d, m, DebugRequest::ClearBreakpoint { address }, n, end);
    let (opened, c1) = lemma_after_operation(c0, n, end);
    let (done, c2) = lemma_after_operation(c1, (n - 1) as nat, end);
}

/// A breakpoint was set at the address where the hardware had a unit left:
/// then it stands in the hardware and in the session, and else the answer is
/// that none is left. Nothing else changed.
pub open spec fn set_if_units_are_left(
    d: DebuggerView,
    m: Machine,
    address: u32,
    end: Course,
) -> bool {
    if d.breakpoints.len() < m.units {
        &&& end.progress == Progress::Answer(Command::Response(DebugResponse::SetBreakpoint))
        &&& end.m == (Machine { hardware: m.hardware.insert(address), done: end.m.done, ..m })
        &&& end.d.breakpoints.dom() == d.breakpoints.dom().insert(address)
        &&& forall|a: u32|
            a != address && d.breakpoints.contains_key(a) ==> #[trigger] end.d.breakpoints[a]
                == d.breakpoints[a]
        &&& end.d.breakpoints[address] == (Breakpoint {
            id: Some(address as i64),
            verified: true,
            message: None,
            source: None,
            line: None,
            column: None,
            end_line: None,
            end_column: None,
        })
        &&& end.d == (DebuggerView { breakpoints: end.d.breakpoints, ..d })
    } else {
        &&& end.progress == Progress::Fail(DebugError::NoBreakpointLeft)
        &&& end.m == (Machine { done: end.m.done, ..m })
        &&& end.d == d
    }
}

/// Setting a breakpoint at an address sets it there, in the hardware and in the
/// session, where fewer are set than the hardware has units.
pub proof fn law_setting_sets_at_the_address(
    d: DebuggerView,
    m: Machine,
    address: u32,
    n: nat,
    end: Course,
)
    requires
        carried_through(
            d,
            m,
            DebugRequest::SetBreakpoint { address, source_file: None },
            n,
            end,
        ),
        d.breakpoints.len() <= u32::MAX,
    ensures
        set_if_units_are_left(d, m, address, end),
{
    let request = DebugRequest::SetBreakpoint { address, source_file: None };
    let c0 = lemma_first(d, m, request, n, end);
    let (opened, c1) = lemma_after_operation(c0, n, end);
    let (units, c2) = lemma_after_operation(c1, (n - 1) as nat, end);
    if d.breakpoints.len() < m.units {
        let (done, c3) = lemma_after_operation(c2, (n - 2) as nat, end);
    }
}

/// Setting a breakpoint at a line of a source file sets it at the address that
/// the search finds for exactly that line of that file, in the sections and the
/// work directory of the session. Where the line has no address, or where the
/// search fails, nothing changes.
pub proof fn law_setting_sets_at_the_line(
    d: DebuggerView,
    m: Machine,
    number: u32,
    path: String,
    line: u64,
    n: nat,
    end: Course,
)
    requires
        carried_through(
            d,
            m,
            DebugRequest::SetBreakpoint { address: number, source_file: Some(path) },
            n,
            end,
        ),
        line == number,
        d.breakpoints.len() <= u32::MAX,
    ensures
        match breakpoint_location(d.dwarf, d.cwd, path@, line, None) {
            Some(Some(address)) => set_if_units_are_left(d, m, address as u32, end),
            Some(None) => {
                &&& end.progress == Progress::Fail(DebugError::LocationNotFound)
                &&& end.d == d
                &&& end.m == (Machine { done: end.m.done, ..m })
            },
            None => {
                &&& end.progress matches Progress::Fail(DebugError::Target { .. })
                &&& end.d == d
                &&& end.m == (Machine { done: end.m.done, ..m })
            },
        },
{
    let request = DebugRequest::SetBreakpoint { address: number, source_file: Some(path) };
    let c0 = lemma_first(d, m, request, n, end);
    let (opened, c1) = lemma_after_operation(c0, n, end);
    match breakpoint_location(d.dwarf, d.cwd, path@, line, None) {
        Some(Some(address)) => {
            let (units, c2) = lemma_after_operation(c1, (n - 1) as nat, end);
            if d.breakpoints.len() < m.units {
                let (done, c3) = lemma_after_operation(c2, (n - 2) as nat, end);
            }
        },
        _ => {},
    }
}

// Stepping and continuing

/// The core left the instruction at which it was halted. A breakpoint
/// instruction in the code is skipped. Another instruction is executed; a
/// breakpoint of the session is out of the hardware meanwhile, and stands there
/// afterwards.
pub open spec fn left_the_instruction(d: DebuggerView, m: Machine, after: Machine) -> bool {
    let looked = m.done.push(Query::Status);
    let read = looked.push(Query::ReadRegister { register: RegisterId::ProgramCounter }).push(
        Query::ReadBytes { address: m.pc, length: 2 },
    );
    if m.status != CoreStatus::Halted(HaltReason::Breakpoint) {
        &&& after.done == looked.push(Query::Step)
        &&& after.hardware == m.hardware
    } else if (m.memory)(m.pc + 0) == 0 && (m.memory)(m.pc + 1) == 190 {
        &&& after == (Machine { pc: after.pc, done: after.done, ..m })
        &&& after.pc == m.pc + 2
        &&& after.done == read.push(Query::WriteProgramCounter { value: after.pc })
    } else if d.breakpoints.contains_key(m.pc) {
        &&& after.done == read.push(Query::ClearHardwareBreakpoint { address: m.pc }).push(
            Query::Step,
        ).push(Query::SetHardwareBreakpoint { address: m.pc })
        &&& after.hardware == m.hardware.insert(m.pc)
    } else {
        &&& after.done == read.push(Query::Step)
        &&& after.hardware == m.hardware
    }
}

/// Where the command stands once the core has left its instruction.
proof fn lemma_leaves(c: Course, goal: Resumption, n: nat, end: Course) -> (result: (Course, nat))
    requires
        leads_to(c, n, end),
        c.progress == (Progress::Ask {
            query: Query::Status,
            then: Pending::AfterStatus(AfterStatus::Leave { goal }),
        }),
    ensures
        left_the_instruction(c.d, c.m, result.0.m),
        leaves(c.d, goal, result.0.d, result.0.progress),
        leads_to(result.0, result.1, end),
{
    let (status, c1) = lemma_after_operation(c, n, end);
    if c.m.status == CoreStatus::Halted(HaltReason::Breakpoint) {
        let (pc, c2) = lemma_after_operation(c1, (n - 1) as nat, end);
        let (bytes, c3) = lemma_after_operation(c2, (n - 2) as nat, end);
        assert(bytes->Bytes_0@[0] == (c.m.memory)(c.m.pc + 0));
        assert(bytes->Bytes_0@[1] == (c.m.memory)(c.m.pc + 1));
        if (c.m.memory)(c.m.pc + 0) == 0 && (c.m.memory)(c.m.pc + 1) == 190 {
            let (done, c4) = lemma_after_operation(c3, (n - 3) as nat, end);
            (c4, (n - 4) as nat)
        } else if c.d.breakpoints.contains_key(c.m.pc) {
            let (lifted, c4) = lemma_after_operation(c3, (n - 3) as nat, end);
            let (stepped, c5) = lemma_after_operation(c4, (n - 4) as nat, end);
            let (restored, c6) = lemma_after_operation(c5, (n - 5) as nat, end);
            assert(c6.m.hardware =~= c.m.hardware.insert(c.m.pc));
            (c6, (n - 6) as nat)
        } else {
            let (stepped, c4) = lemma_after_operation(c3, (n - 3) as nat, end);
            (c4, (n - 4) as nat)
        }
    } else {
        let (stepped, c2) = lemma_after_operation(c1, (n - 1) as nat, end);
        (c2, (n - 2) as nat)
    }
}

/// Stepping lets a halted core leave its instruction, and nothing more. Then
/// the session takes it to run and has forgotten what it knew of it. A core that
/// is not halted is left alone, and the answer says so.
pub proof fn law_stepping_leaves_one_instruction(d: DebuggerView, m: Machine, n: nat, end: Course)
    requires
        carried_through(d, m, DebugRequest::Step, n, end),
    ensures
        if m.status is Halted {
            &&& end.progress == Progress::Answer(Command::Response(DebugResponse::Step))
            &&& left_the_instruction(d, m.having_done(Query::Status), end.m)
            &&& end.d == (DebuggerView {
                register_values: Map::empty(),
                stack_trace: None,
                running: true,
                ..d
            })
        } else {
            &&& end.progress matches Progress::Answer(
                Command::Response(DebugResponse::Error { message }),
            )
            &&& message@ == "Can only step when core is halted"@
            &&& end.d == d
            &&& end.m == (Machine { done: end.m.done, ..m })
        },
{
    let c0 = lemma_first(d, m, DebugRequest::Step, n, end);
    let (status, c1) = lemma_after_operation(c0, n, end);
    if m.status is Halted {
        let (c2, k) = lemma_leaves(c1, Resumption::Step, (n - 1) as nat, end);
    }
}

/// Continuing a halted core lets it leave its instruction and then run: the
/// answer comes after the operation `Run` was carried out, and the core runs.
/// Then the session takes it to run and has forgotten what it knew of it. A core
/// that is not halted is left alone.
pub proof fn law_continuing_runs_the_core(d: DebuggerView, m: Machine, n: nat, end: Course)
    requires
        carried_through(d, m, DebugRequest::Continue, n, end),
    ensures
        end.progress == Progress::Answer(Command::Response(DebugResponse::Continue)),
        if m.status is Halted {
            &&& end.m.status == CoreStatus::Running
            &&& exists|left: Machine|
                #![trigger left.done]
                {
                    &&& left_the_instruction(d, m.having_done(Query::Status), left)
                    &&& end.m.done == left.done.push(Query::Run).push(Query::Status)
                    &&& end.m.hardware == left.hardware
                }
            &&& end.d == (DebuggerView {
                register_values: Map::empty(),
                stack_trace: None,
                running: true,
                ..d
            })
        } else {
            &&& end.d == d
            &&& end.m == (Machine { done: m.done.push(Query::Status), ..m })
        },
{
    let c0 = lemma_first(d, m, DebugRequest::Continue, n, end);
    let (status, c1) = lemma_after_operation(c0, n, end);
    if m.status is Halted {
        let (c2, k) = lemma_leaves(c1, Resumption::Continue, (n - 1) as nat, end);
        let (ran, c3) = lemma_after_operation(c2, k, end);
        let (looked, c4) = lemma_after_operation(c3, (k - 1) as nat, end);
        assert(c4.m.done == c2.m.done.push(Query::Run).push(Query::Status));
    }
}

/// Once a command that continues the core has looked at it, it is answered only
/// where the core was not halted, or where it was set running: whatever it is
/// waiting for, the session then takes the core to run and knows nothing of it.
pub proof fn law_continue_is_answered_once_the_core_runs(
    d: DebuggerView,
    pending: Pending,
    reply: Reply,
    after: DebuggerView,
    progress: Progress,
)
    requires
        fits(d, pending),
        goes_on(d, pending, reply, after, progress),
        progress == Progress::Answer(Command::Response(DebugResponse::Continue)),
    ensures
        pending == Pending::AfterStatus(AfterStatus::Continue) || pending == Pending::AfterStatus(
            AfterStatus::Continued,
        ),
        pending == Pending::AfterStatus(AfterStatus::Continue) ==> !(reply->Status_0 is Halted)
            && after == d,
        pending != Pending::AfterStatus(AfterStatus::Continue) ==> after.running
            && after.register_values == Map::<u16, u32>::empty() && after.stack_trace is None,
{
}

/// The command asks whether the core runs again, before it answers that it
/// continued, only once the operation `Run` is done; and waits for that only
/// where it asked for it.
pub proof fn law_run_is_asked_for_before_the_answer(
    d: DebuggerView,
    pending: Pending,
    reply: Reply,
    after: DebuggerView,
    progress: Progress,
)
    requires
        goes_on(d, pending, reply, after, progress),
    ensures
        progress matches Progress::Ask { query, then } ==> {
            &&& then == Pending::AfterStatus(AfterStatus::Continued) ==> pending
                == Pending::AfterDone(AfterDone::Running) && after.running
            &&& then == Pending::AfterDone(AfterDone::Running) ==> query == Query::Run
        },
{
}

} // verus!
