//! What a debug session keeps.
use vstd::prelude::*;

use std::collections::HashMap;
use std::path::PathBuf;

use rust_debug::registers::Registers;

use crate::breakpoint::Breakpoint;
use crate::debug_information::DebugInformation;
use crate::registers::{designated_registers, new_registers, no_values, register_values};
use crate::variable::{frame_views, StackFrame, StackFrameView};

verus! {

/// A debug session of one target.
#[derive(Debug)]
pub struct Debugger<'a> {
    pub debug_info: DebugInformation<'a>,
    /// The breakpoints that are set, by address.
    pub breakpoints: HashMap<u32, Breakpoint>,
    pub file_path: PathBuf,
    pub cwd: String,
    /// When the core was last looked at, in nanoseconds.
    pub check_time: u64,
    /// Whether the core is taken to run.
    pub running: bool,
    pub registers: Registers,
    /// The call stack, where it is known.
    pub stack_trace: Option<Vec<StackFrame>>,
}

/// What a [`Debugger`] holds.
#[verifier::ext_equal]
pub struct DebuggerView {
    pub dwarf: Seq<(Seq<char>, Seq<u8>)>,
    pub debug_frame: Seq<u8>,
    /// The addresses that are listed with the debug information.
    pub listed_addresses: Seq<u32>,
    pub breakpoints: Map<u32, Breakpoint>,
    pub file_path: PathBuf,
    pub cwd: Seq<char>,
    pub check_time: u64,
    pub running: bool,
    pub register_values: Map<u16, u32>,
    pub designated_registers: Seq<Option<usize>>,
    pub stack_trace: Option<Seq<StackFrameView>>,
}

impl<'a> View for Debugger<'a> {
    type V = DebuggerView;

    open spec fn view(&self) -> DebuggerView {
        DebuggerView {
            dwarf: self.debug_info.dwarf@,
            debug_frame: self.debug_info.debug_frame@,
            listed_addresses: self.debug_info.breakpoints@,
            breakpoints: self.breakpoints@,
            file_path: self.file_path,
            cwd: self.cwd@,
            check_time: self.check_time,
            running: self.running,
            register_values: register_values(self.registers),
            designated_registers: designated_registers(self.registers),
            stack_trace: match self.stack_trace {
                Some(frames) => Some(frame_views(frames@)),
                None => None,
            },
        }
    }
}

/// The breakpoint can stand at `address`: it is set, and its number is the
/// address.
pub open spec fn stands_at(breakpoint: Breakpoint, address: u32) -> bool {
    breakpoint.verified && breakpoint.id is Some && breakpoint.id->0 as u32 == address
}

impl DebuggerView {
    /// There are finitely many breakpoints, and each stands at the address
    /// under which it is kept.
    pub open spec fn wf(self) -> bool {
        &&& self.breakpoints.dom().finite()
        &&& forall|address: u32|
            self.breakpoints.contains_key(address) ==> stands_at(
                #[trigger] self.breakpoints[address],
                address,
            )
    }

    /// The session knows neither register values nor the call stack.
    pub open spec fn forgot_the_core(self) -> bool {
        self.register_values == no_values() && self.stack_trace is None
    }

    /// The session without what it knows of the halted core: neither register
    /// values nor the call stack.
    pub open spec fn without_temporaries(self) -> DebuggerView {
        DebuggerView { register_values: no_values(), stack_trace: None, ..self }
    }
}

/// What a session holds that has not looked at the target yet: its core is taken
/// to run, and nothing is known of it.
pub open spec fn new_session(
    debug_info: DebugInformation<'_>,
    file_path: PathBuf,
    cwd: Seq<char>,
    now: u64,
    designated: Seq<Option<usize>>,
) -> DebuggerView {
    DebuggerView {
        dwarf: debug_info.dwarf@,
        debug_frame: debug_info.debug_frame@,
        listed_addresses: debug_info.breakpoints@,
        breakpoints: Map::empty(),
        file_path,
        cwd,
        check_time: now,
        running: true,
        register_values: no_values(),
        designated_registers: designated,
        stack_trace: None,
    }
}

/// A session that has not looked at the target yet and takes its core to run.
/// The last three numbers are those of the program counter, the link register
/// and the stack pointer.
pub fn init<'a>(
    debug_info: DebugInformation<'a>,
    file_path: PathBuf,
    cwd: String,
    now: u64,
    pc_reg: u16,
    link_reg: u16,
    sp_reg: u16,
) -> (debugger: Debugger<'a>)
    ensures
        debugger@.wf(),
        debugger.debug_info == debug_info,
        debugger@ == new_session(
            debug_info,
            file_path,
            cwd@,
            now,
            seq![Some(pc_reg as usize), Some(link_reg as usize), Some(sp_reg as usize)],
        ),
        debugger@ == (DebuggerView {
            dwarf: debug_info.dwarf@,
            debug_frame: debug_info.debug_frame@,
            listed_addresses: debug_info.breakpoints@,
            breakpoints: Map::empty(),
            file_path,
            cwd: cwd@,
            check_time: now,
            running: true,
            register_values: no_values(),
            designated_registers: seq![
                Some(pc_reg as usize),
                Some(link_reg as usize),
                Some(sp_reg as usize),
            ],
            stack_trace: None,
        }),
{
    Debugger {
        debug_info,
        breakpoints: HashMap::new(),
        file_path,
        cwd,
        check_time: now,
        running: true,
        registers: new_registers(pc_reg as usize, link_reg as usize, sp_reg as usize),
        stack_trace: None,
    }
}

impl<'a> Debugger<'a> {
    /// Forgets what is known of the halted core.
    pub fn clear_temporaries(&mut self)
        ensures
            final(self)@ == old(self)@.without_temporaries(),
    {
        self.registers.clear();
        self.stack_trace = None;
    }

    /// Forgets all breakpoints.
    pub(crate) fn forget_breakpoints(&mut self)
        ensures
            final(self)@ == (DebuggerView { breakpoints: Map::empty(), ..old(self)@ }),
    {
        self.breakpoints = HashMap::new();
    }
}

/// A new session works on the program, the debug information and in the directory
/// that it is given. It has no breakpoint, knows neither register values nor the
/// call stack, takes the core to run, and looks at it first when the interval has
/// passed since it was made.
pub proof fn law_new_sessions_know_nothing(
    debug_info: DebugInformation<'_>,
    file_path: PathBuf,
    cwd: Seq<char>,
    now: u64,
    designated: Seq<Option<usize>>,
)
    ensures
        ({
            let d = new_session(debug_info, file_path, cwd, now, designated);
            &&& d.dwarf == debug_info.dwarf@
            &&& d.debug_frame == debug_info.debug_frame@
            &&& d.listed_addresses == debug_info.breakpoints@
            &&& d.file_path == file_path
            &&& d.cwd == cwd
            &&& d.designated_registers == designated
            &&& forall|a: u32| !#[trigger] d.breakpoints.contains_key(a)
            &&& forall|a: u16| !#[trigger] d.register_values.contains_key(a)
            &&& d.stack_trace is None
            &&& d.running
            &&& d.check_time == now
        }),
{
}

/// The view of a session has what the session holds.
pub proof fn law_views_hold_what_sessions_hold(debugger: Debugger<'_>)
    ensures
        debugger@.dwarf == debugger.debug_info.dwarf@,
        debugger@.debug_frame == debugger.debug_info.debug_frame@,
        debugger@.listed_addresses == debugger.debug_info.breakpoints@,
        debugger@.breakpoints == debugger.breakpoints@,
        debugger@.file_path == debugger.file_path,
        debugger@.cwd == debugger.cwd@,
        debugger@.check_time == debugger.check_time,
        debugger@.running == debugger.running,
        debugger@.register_values == register_values(debugger.registers),
        debugger@.designated_registers == designated_registers(debugger.registers),
        debugger@.stack_trace is Some <==> debugger.stack_trace is Some,
        debugger.stack_trace matches Some(frames) ==> debugger@.stack_trace == Some(
            frame_views(frames@),
        ),
{
}

} // verus!
