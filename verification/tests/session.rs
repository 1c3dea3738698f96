use std::collections::{BTreeSet, HashMap};
use std::path::PathBuf;

use embedded_rust_debugger::breakpoint::SourceBreakpoint;
use embedded_rust_debugger::commands::{
    Command, DebugError, DebugEvent, DebugRequest, DebugResponse,
};
use embedded_rust_debugger::debug_information::{DebugInformation, DwarfSections, Section};
use embedded_rust_debugger::debugger::breakpoints::{breakpoint_found, next_found};
use embedded_rust_debugger::debugger::inspection::code_disassembled;
use embedded_rust_debugger::debugger::protocol::{
    AfterBytes, AfterWord, Batch, Pending, Progress, Query, Reply, Resumption,
};
use embedded_rust_debugger::debugger::session::{
    follow, Phase, SessionAction, SessionEvent, CHECK_INTERVAL,
};
use embedded_rust_debugger::debugger::state::{init, Debugger};
use embedded_rust_debugger::evaluator::{
    BaseTypeValue, CallFrame, EvaluatedVariable, EvaluatorValue, SourceInformation, UnwoundFrame,
};
use embedded_rust_debugger::target::{CoreStatus, HaltReason, Register, RegisterId};

use gimli::write::{Address, DwarfUnit, EndianVec, LineProgram, LineString, Sections};

/// A target that answers operations from memory.
struct Target {
    status: CoreStatus,
    pc: u32,
    sp: u32,
    registers: HashMap<u16, u32>,
    memory: HashMap<u32, u8>,
    units: u32,
    hardware: BTreeSet<u32>,
    frames: u8,
    log: Vec<String>,
    fails_at: Option<&'static str>,
}

impl Target {
    fn halted() -> Target {
        Target {
            status: CoreStatus::Halted(HaltReason::Request),
            pc: 0x8000,
            sp: 0x2000_0000,
            registers: HashMap::new(),
            memory: HashMap::new(),
            units: 4,
            hardware: BTreeSet::new(),
            frames: 1,
            log: vec![],
            fails_at: None,
        }
    }

    fn carry_out(&mut self, query: Query) -> Result<Reply, String> {
        let text = format!("{:?}", query);
        let name = text.split(|c: char| !c.is_alphanumeric()).next().unwrap().to_string();
        self.log.push(name.clone());
        if self.fails_at == Some(name.as_str()) {
            return Err(format!("{} failed", name));
        }
        Ok(match query {
            Query::OpenCore => Reply::Done,
            Query::Status => Reply::Status(self.status),
            Query::ListRegisters => Reply::Registers(vec![
                Register { name: "R7".to_string(), address: 7 },
                Register { name: "PC".to_string(), address: 15 },
            ]),
            Query::ReadRegister { register } => Reply::Word(match register {
                RegisterId::ProgramCounter => self.pc,
                RegisterId::StackPointer => self.sp,
                RegisterId::Address(a) => self.registers.get(&a).copied().unwrap_or(0),
            }),
            Query::WriteProgramCounter { value } => {
                self.pc = value;
                Reply::Done
            }
            Query::ReadBytes { address, length } => Reply::Bytes(
                (0..length as u32)
                    .map(|i| self.memory.get(&(address + i)).copied().unwrap_or(0))
                    .collect(),
            ),
            Query::ReadWords { address, length } => {
                Reply::Words((0..length as u32).map(|i| address + 4 * i).collect())
            }
            Query::CountBreakpointUnits => Reply::Word(self.units),
            Query::SetHardwareBreakpoint { address } => {
                self.hardware.insert(address);
                Reply::Done
            }
            Query::ClearHardwareBreakpoint { address } => {
                self.hardware.remove(&address);
                Reply::Done
            }
            Query::ClearAllHardwareBreakpoints => {
                self.hardware.clear();
                Reply::Done
            }
            Query::Step => {
                assert!(!self.hardware.contains(&self.pc));
                self.pc += 2;
                Reply::Word(self.pc)
            }
            Query::Run => {
                self.status = CoreStatus::Running;
                Reply::Done
            }
            Query::Halt { timeout_ms } => {
                assert_eq!(timeout_ms, 100);
                self.status = CoreStatus::Halted(HaltReason::Request);
                Reply::Done
            }
            Query::Reset => {
                self.status = CoreStatus::Running;
                Reply::Done
            }
            Query::ResetAndHalt { timeout_ms } => {
                assert_eq!(timeout_ms, 10);
                self.status = CoreStatus::Halted(HaltReason::Request);
                Reply::Done
            }
            Query::Flash { file_path } => {
                assert_eq!(file_path, PathBuf::from("/work/app.elf"));
                Reply::Done
            }
            Query::Unwind { registers, cwd } => {
                assert_eq!(cwd, "/work");
                assert_eq!(registers.program_counter_register, Some(15));
                assert_eq!(registers.link_register, Some(14));
                assert_eq!(registers.stack_pointer_register, Some(13));
                let held = self.registers.get(&7).copied().unwrap_or(0);
                assert_eq!(registers.get_register_value(&7), Some(&held));
                Reply::Frames((0..self.frames).map(unwound).collect())
            }
        })
    }
}

fn unwound(i: u8) -> UnwoundFrame {
    UnwoundFrame {
        call_frame: CallFrame {
            id: i as u64,
            registers: [None; 16],
            code_location: 0x8000,
            cfa: None,
            start_address: 0x8000,
            end_address: 0x8010,
        },
        name: format!("frame{}", i),
        source: SourceInformation { directory: None, file: None, line: None, column: None },
        variables: vec![EvaluatedVariable {
            name: Some("x".to_string()),
            value: EvaluatorValue::Value(BaseTypeValue::U8(i + 1)),
            source: None,
        }],
    }
}

/// Sections with code for three lines of `/work/src/main.rs`.
fn dwarf() -> DwarfSections {
    let encoding =
        gimli::Encoding { format: gimli::Format::Dwarf32, version: 4, address_size: 4 };
    let mut dwarf = DwarfUnit::new(encoding);
    let mut program = LineProgram::new(
        encoding,
        gimli::LineEncoding::default(),
        LineString::String(b"/work".to_vec()),
        LineString::String(b"main.rs".to_vec()),
        None,
    );
    let directory = program.add_directory(LineString::String(b"src".to_vec()));
    let file = program.add_file(LineString::String(b"main.rs".to_vec()), directory, None);
    program.begin_sequence(Some(Address::Constant(0x8000)));
    for (offset, line, column) in
        [(0u64, 10u64, 1u64), (4, 10, 9), (8, 11, 1), (12, 12, 1)].iter()
    {
        program.row().file = file;
        program.row().address_offset = *offset;
        program.row().line = *line;
        program.row().column = *column;
        program.generate_row();
    }
    program.end_sequence(16);
    dwarf.unit.line_program = program;
    let mut written = Sections::new(EndianVec::new(gimli::LittleEndian));
    dwarf.write(&mut written).unwrap();
    let mut sections = vec![];
    written
        .for_each(|id, data| -> Result<(), gimli::Error> {
            sections.push(Section { name: id.name().to_string(), data: data.slice().to_vec() });
            Ok(())
        })
        .unwrap();
    DwarfSections { sections }
}

const SOURCE: &str = "/work/src/main.rs";

fn session<'a>(dwarf: &'a DwarfSections, debug_frame: &'a Vec<u8>) -> Debugger<'a> {
    init(
        DebugInformation::new(dwarf, debug_frame),
        PathBuf::from("/work/app.elf"),
        "/work".to_string(),
        1_000,
        15,
        14,
        13,
    )
}

fn finish(debugger: &mut Debugger, target: &mut Target, mut progress: Progress) -> Progress {
    loop {
        match progress {
            Progress::Ask { query, then } => {
                let reply = target.carry_out(query);
                if let Ok(reply) = &reply {
                    assert!(then.is_answered_by(reply));
                }
                progress = debugger.resume(then, reply);
            }
            other => return other,
        }
    }
}

fn ask(debugger: &mut Debugger, target: &mut Target, request: DebugRequest) -> Progress {
    let progress = debugger.handle_request(request);
    finish(debugger, target, progress)
}

fn response(progress: Progress) -> DebugResponse {
    match progress {
        Progress::Answer(Command::Response(response)) => response,
        other => panic!("{:?}", other),
    }
}

fn failure(progress: Progress) -> DebugError {
    match progress {
        Progress::Fail(error) => error,
        other => panic!("{:?}", other),
    }
}

fn addresses(debugger: &Debugger) -> BTreeSet<u32> {
    debugger.breakpoints.keys().copied().collect()
}

#[test]
fn sessions_start_without_knowledge() {
    let (dwarf, frame) = (dwarf(), vec![1, 2]);
    let debugger = session(&dwarf, &frame);
    assert!(debugger.running);
    assert!(debugger.breakpoints.is_empty());
    assert!(debugger.stack_trace.is_none());
    assert!(debugger.debug_info.breakpoints.is_empty());
    assert_eq!(debugger.debug_info.debug_frame, &vec![1, 2]);
    assert_eq!(debugger.check_time, 1_000);
    assert_eq!(debugger.registers.program_counter_register, Some(15));
    assert!(debugger.registers.registers.is_empty());
}

#[test]
fn stack_is_read_from_pointer_to_start() {
    let (dwarf, frame) = (dwarf(), vec![]);
    let mut debugger = session(&dwarf, &frame);
    let mut target = Target::halted();
    target.registers.insert(7, 0x2000_0009);
    match response(ask(&mut debugger, &mut target, DebugRequest::Stack)) {
        DebugResponse::Stack { stack_pointer, stack } => {
            assert_eq!(stack_pointer, 0x2000_0000);
            assert_eq!(stack, vec![0x2000_0000, 0x2000_0004, 0x2000_0008]);
        }
        other => panic!("{:?}", other),
    }
    assert_eq!(target.log, vec!["Status", "ReadRegister", "ReadRegister", "ReadWords"]);
}

#[test]
fn there_is_no_stack_before_its_start() {
    let (dwarf, frame) = (dwarf(), vec![]);
    let mut debugger = session(&dwarf, &frame);
    let mut target = Target::halted();
    match response(ask(&mut debugger, &mut target, DebugRequest::Stack)) {
        DebugResponse::Stack { stack_pointer, stack } => {
            assert_eq!(stack_pointer, 0x2000_0000);
            assert!(stack.is_empty());
        }
        other => panic!("{:?}", other),
    }
}

#[test]
fn commands_that_need_a_halted_core() {
    let (dwarf, frame) = (dwarf(), vec![]);
    let mut debugger = session(&dwarf, &frame);
    let mut target = Target::halted();
    target.status = CoreStatus::Running;
    for request in vec![
        DebugRequest::Stack,
        DebugRequest::Code,
        DebugRequest::Variable { name: "x".to_string() },
        DebugRequest::Variables,
    ] {
        let error = failure(ask(&mut debugger, &mut target, request));
        assert!(matches!(error, DebugError::CoreNotHalted));
    }
    match response(ask(&mut debugger, &mut target, DebugRequest::Step)) {
        DebugResponse::Error { message } => {
            assert_eq!(message, "Can only step when core is halted")
        }
        other => panic!("{:?}", other),
    }
    assert!(matches!(
        response(ask(&mut debugger, &mut target, DebugRequest::Continue)),
        DebugResponse::Continue
    ));
}

#[test]
fn code_is_disassembled() {
    let (dwarf, frame) = (dwarf(), vec![]);
    let mut debugger = session(&dwarf, &frame);
    let mut target = Target::halted();
    for i in 0..16 {
        target.memory.insert(0x8000 + 2 * i, 0x00);
        target.memory.insert(0x8001 + 2 * i, 0xbf);
    }
    match response(ask(&mut debugger, &mut target, DebugRequest::Code)) {
        DebugResponse::Code { pc, instructions } => {
            assert_eq!(pc, 0x8000);
            assert_eq!(instructions.len(), 16);
            assert_eq!(instructions[0], (0x8000, "0x8000: nop ".to_string()));
            assert_eq!(instructions[15], (0x801e, "0x801e: nop ".to_string()));
        }
        other => panic!("{:?}", other),
    }
}

#[test]
fn disassembly_is_answered() {
    let listing = vec![(0x1_0000_8000u64, "a".to_string()), (4, "b".to_string())];
    match response(code_disassembled(9, listing)) {
        DebugResponse::Code { pc, instructions } => {
            assert_eq!(pc, 9);
            assert_eq!(instructions, vec![(0x8000, "a".to_string()), (4, "b".to_string())]);
        }
        other => panic!("{:?}", other),
    }
}

#[test]
fn registers_are_read_in_order() {
    let (dwarf, frame) = (dwarf(), vec![]);
    let mut debugger = session(&dwarf, &frame);
    let mut target = Target::halted();
    target.registers.insert(7, 77);
    target.registers.insert(15, 150);
    match response(ask(&mut debugger, &mut target, DebugRequest::Registers)) {
        DebugResponse::Registers { registers } => {
            assert_eq!(registers, vec![("R7".to_string(), 77), ("PC".to_string(), 150)])
        }
        other => panic!("{:?}", other),
    }
    assert!(debugger.registers.registers.is_empty());
    assert_eq!(target.log, vec!["ListRegisters", "ReadRegister", "ReadRegister"]);
}

#[test]
fn memory_is_read() {
    let (dwarf, frame) = (dwarf(), vec![]);
    let mut debugger = session(&dwarf, &frame);
    let mut target = Target::halted();
    target.memory.insert(0x101, 9);
    let request = DebugRequest::Read { address: 0x100, byte_size: 3 };
    match response(ask(&mut debugger, &mut target, request)) {
        DebugResponse::Read { address, value } => {
            assert_eq!(address, 0x100);
            assert_eq!(value, vec![0, 9, 0]);
        }
        other => panic!("{:?}", other),
    }
}

#[test]
fn status_has_the_program_counter_of_a_halted_core() {
    let (dwarf, frame) = (dwarf(), vec![]);
    let mut debugger = session(&dwarf, &frame);
    let mut target = Target::halted();
    assert!(matches!(
        response(ask(&mut debugger, &mut target, DebugRequest::Status)),
        DebugResponse::Status {
            status: CoreStatus::Halted(HaltReason::Request),
            pc: Some(0x8000)
        }
    ));
    target.status = CoreStatus::Sleeping;
    assert!(matches!(
        response(ask(&mut debugger, &mut target, DebugRequest::Status)),
        DebugResponse::Status { status: CoreStatus::Sleeping, pc: None }
    ));
}

#[test]
fn halting_a_core_once() {
    let (dwarf, frame) = (dwarf(), vec![]);
    let mut debugger = session(&dwarf, &frame);
    let mut target = Target::halted();
    target.status = CoreStatus::Running;
    assert!(matches!(
        response(ask(&mut debugger, &mut target, DebugRequest::Halt)),
        DebugResponse::Halt
    ));
    assert!(matches!(
        failure(ask(&mut debugger, &mut target, DebugRequest::Halt)),
        DebugError::CoreAlreadyHalted
    ));
}

#[test]
fn breakpoints_are_set_and_removed() {
    let (dwarf, frame) = (dwarf(), vec![]);
    let mut debugger = session(&dwarf, &frame);
    let mut target = Target::halted();
    let set = DebugRequest::SetBreakpoint { address: 0x9000, source_file: None };
    assert!(matches!(
        response(ask(&mut debugger, &mut target, set)),
        DebugResponse::SetBreakpoint
    ));
    assert_eq!(target.hardware, addresses(&debugger));
    let kept = &debugger.breakpoints[&0x9000];
    assert_eq!(kept.id, Some(0x9000));
    assert!(kept.verified);
    assert_eq!((kept.line, kept.column, kept.end_line, kept.end_column), (None, None, None, None));
    assert!(kept.message.is_none() && kept.source.is_none());
    let clear = DebugRequest::ClearBreakpoint { address: 0x9000 };
    assert!(matches!(
        response(ask(&mut debugger, &mut target, clear)),
        DebugResponse::ClearBreakpoint
    ));
    assert!(debugger.breakpoints.is_empty());
    assert!(target.hardware.is_empty());
    let again = DebugRequest::ClearBreakpoint { address: 0x9000 };
    assert!(matches!(
        failure(ask(&mut debugger, &mut target, again)),
        DebugError::NoBreakpointAt { address: 0x9000 }
    ));
}

#[test]
fn breakpoints_are_limited_by_the_hardware() {
    let (dwarf, frame) = (dwarf(), vec![]);
    let mut debugger = session(&dwarf, &frame);
    let mut target = Target::halted();
    target.units = 2;
    for address in vec![2, 4] {
        let set = DebugRequest::SetBreakpoint { address, source_file: None };
        response(ask(&mut debugger, &mut target, set));
    }
    let set = DebugRequest::SetBreakpoint { address: 6, source_file: None };
    assert!(matches!(
        failure(ask(&mut debugger, &mut target, set)),
        DebugError::NoBreakpointLeft
    ));
    assert_eq!(target.hardware, addresses(&debugger));
    assert!(matches!(
        response(ask(&mut debugger, &mut target, DebugRequest::ClearAllBreakpoints)),
        DebugResponse::ClearAllBreakpoints
    ));
    assert!(debugger.breakpoints.is_empty());
    assert!(target.hardware.is_empty());
}

#[test]
fn a_breakpoint_at_a_line_of_a_file() {
    let (dwarf, frame) = (dwarf(), vec![]);
    let mut debugger = session(&dwarf, &frame);
    let mut target = Target::halted();
    let set = DebugRequest::SetBreakpoint { address: 11, source_file: Some(SOURCE.to_string()) };
    response(ask(&mut debugger, &mut target, set));
    assert!(target.hardware.contains(&0x8008));
    let set = DebugRequest::SetBreakpoint { address: 99, source_file: Some(SOURCE.to_string()) };
    assert!(matches!(
        failure(ask(&mut debugger, &mut target, set)),
        DebugError::LocationNotFound
    ));
}

#[test]
fn broken_debug_information_fails_the_search() {
    let broken = DwarfSections {
        sections: vec![Section { name: ".debug_info".to_string(), data: vec![9, 0, 0, 0, 1] }],
    };
    let frame = vec![];
    let mut debugger = session(&broken, &frame);
    let mut target = Target::halted();
    let at_address = DebugRequest::SetBreakpoint { address: 2, source_file: None };
    response(ask(&mut debugger, &mut target, at_address));
    let set = DebugRequest::SetBreakpoint { address: 11, source_file: Some(SOURCE.to_string()) };
    assert!(matches!(
        failure(ask(&mut debugger, &mut target, set)),
        DebugError::Target { .. }
    ));
    let set = DebugRequest::SetBreakpoints {
        source_file: SOURCE.to_string(),
        source_breakpoints: vec![SourceBreakpoint { line: 1, column: None }],
    };
    assert!(matches!(
        failure(ask(&mut debugger, &mut target, set)),
        DebugError::Target { .. }
    ));
    assert!(debugger.breakpoints.is_empty());
    assert!(target.hardware.is_empty());
}

#[test]
fn the_first_section_of_a_name_counts() {
    let section = |name: &str, data: Vec<u8>| Section { name: name.to_string(), data };
    let sections = DwarfSections {
        sections: vec![section("a", vec![1]), section("b", vec![2]), section("a", vec![3])],
    };
    assert_eq!(sections.section("a"), &[1u8]);
    assert_eq!(sections.section("b"), &[2u8]);
    assert!(sections.section("c").is_empty());
}

#[test]
fn breakpoints_of_a_file_are_answered_in_order() {
    let (dwarf, frame) = (dwarf(), vec![]);
    let mut debugger = session(&dwarf, &frame);
    let mut target = Target::halted();
    target.units = 2;
    let old = DebugRequest::SetBreakpoint { address: 2, source_file: None };
    response(ask(&mut debugger, &mut target, old));
    let set = DebugRequest::SetBreakpoints {
        source_file: SOURCE.to_string(),
        source_breakpoints: vec![
            SourceBreakpoint { line: 99, column: None },
            SourceBreakpoint { line: 10, column: Some(9) },
            SourceBreakpoint { line: -1, column: Some(-1) },
            SourceBreakpoint { line: 11, column: None },
            SourceBreakpoint { line: 12, column: None },
            SourceBreakpoint { line: 98, column: Some(3) },
        ],
    };
    match response(ask(&mut debugger, &mut target, set)) {
        DebugResponse::SetBreakpoints { breakpoints } => {
            let answers: Vec<(Option<i64>, bool, Option<i64>, Option<i64>)> =
                breakpoints.iter().map(|b| (b.id, b.verified, b.line, b.column)).collect();
            assert_eq!(
                answers,
                vec![
                    (None, false, Some(99), None),
                    (Some(0x8004), true, Some(10), Some(9)),
                    (None, false, Some(-1), Some(-1)),
                    (Some(0x8008), true, Some(11), None),
                    (Some(0x800c), false, Some(12), None),
                    (None, false, Some(98), Some(3)),
                ]
            );
        }
        other => panic!("{:?}", other),
    }
    assert_eq!(addresses(&debugger), vec![0x8004, 0x8008].into_iter().collect());
    assert_eq!(target.hardware, addresses(&debugger));
}

#[test]
fn looked_up_addresses_are_gone_on_with() {
    assert!(matches!(
        breakpoint_found(Ok(Some(0x1_0000_0004))),
        Progress::Ask {
            query: Query::CountBreakpointUnits,
            then: Pending::AfterWord(AfterWord::Units { address: 4 })
        }
    ));
    assert!(matches!(failure(breakpoint_found(Ok(None))), DebugError::LocationNotFound));
    match failure(breakpoint_found(Err("bad".to_string()))) {
        DebugError::Target { message } => assert_eq!(message, "bad"),
        other => panic!("{:?}", other),
    }
    let batch = || Batch {
        source_file: SOURCE.to_string(),
        requested: vec![SourceBreakpoint { line: 5, column: Some(6) }],
        done: vec![],
    };
    let skipped = next_found(batch(), Ok(None)).unwrap();
    assert_eq!(skipped.done.len(), 1);
    assert_eq!((skipped.done[0].id, skipped.done[0].line), (None, Some(5)));
    assert!(matches!(
        next_found(batch(), Ok(Some(8))),
        Err(Progress::Ask {
            then: Pending::AfterWord(AfterWord::BatchUnits { address: 8, .. }),
            ..
        })
    ));
    assert!(matches!(
        next_found(batch(), Err("bad".to_string())),
        Err(Progress::Fail(DebugError::Target { .. }))
    ));
}

#[test]
fn variables_of_the_innermost_frame() {
    let (dwarf, frame) = (dwarf(), vec![]);
    let mut debugger = session(&dwarf, &frame);
    let mut target = Target::halted();
    target.frames = 2;
    target.registers.insert(7, 70);
    let request = DebugRequest::Variable { name: "x".to_string() };
    match response(ask(&mut debugger, &mut target, request)) {
        DebugResponse::Variable { variable } => {
            assert_eq!(variable.name, Some("x".to_string()));
            assert_eq!(variable.value, "1");
        }
        other => panic!("{:?}", other),
    }
    assert_eq!(
        target.log,
        vec!["Status", "ListRegisters", "ReadRegister", "ReadRegister", "Unwind", "Status"]
    );
    assert_eq!(debugger.registers.get_register_value(&7), Some(&70));
    match response(ask(&mut debugger, &mut target, DebugRequest::Variables)) {
        DebugResponse::Variables { variables } => {
            assert_eq!(variables.len(), 1);
            assert_eq!(variables[0].value, "1");
        }
        other => panic!("{:?}", other),
    }
    let request = DebugRequest::Variable { name: "y".to_string() };
    match response(ask(&mut debugger, &mut target, request)) {
        DebugResponse::Error { message } => assert_eq!(message, "Variable \"y\" not found"),
        other => panic!("{:?}", other),
    }
}

#[test]
fn without_frames_there_are_no_variables() {
    let (dwarf, frame) = (dwarf(), vec![]);
    let mut debugger = session(&dwarf, &frame);
    let mut target = Target::halted();
    target.frames = 0;
    let request = DebugRequest::Variable { name: "x".to_string() };
    match failure(ask(&mut debugger, &mut target, request)) {
        DebugError::VariableNotFound { name } => assert_eq!(name, "x"),
        other => panic!("{:?}", other),
    }
    match response(ask(&mut debugger, &mut target, DebugRequest::Variables)) {
        DebugResponse::Variables { variables } => assert!(variables.is_empty()),
        other => panic!("{:?}", other),
    }
}

#[test]
fn the_call_stack_is_unwound_once() {
    let (dwarf, frame) = (dwarf(), vec![]);
    let mut debugger = session(&dwarf, &frame);
    let mut target = Target::halted();
    target.frames = 3;
    for _ in 0..2 {
        match response(ask(&mut debugger, &mut target, DebugRequest::StackTrace)) {
            DebugResponse::StackTrace { stack_trace } => {
                assert_eq!(stack_trace.len(), 3);
                assert_eq!(stack_trace[2].name, "frame2");
            }
            other => panic!("{:?}", other),
        }
    }
    assert_eq!(target.log.iter().filter(|q| *q == "Unwind").count(), 1);
}

#[test]
fn stepping_forgets_the_call_stack() {
    let (dwarf, frame) = (dwarf(), vec![]);
    let mut debugger = session(&dwarf, &frame);
    let mut target = Target::halted();
    response(ask(&mut debugger, &mut target, DebugRequest::StackTrace));
    debugger.running = false;
    assert!(matches!(
        response(ask(&mut debugger, &mut target, DebugRequest::Step)),
        DebugResponse::Step
    ));
    assert_eq!(target.pc, 0x8002);
    assert!(debugger.running);
    assert!(debugger.stack_trace.is_none());
    assert!(debugger.registers.registers.is_empty());
    assert_eq!(debugger.registers.program_counter_register, Some(15));
}

#[test]
fn breakpoints_are_lifted_to_step_over_them() {
    let (dwarf, frame) = (dwarf(), vec![]);
    let mut debugger = session(&dwarf, &frame);
    let mut target = Target::halted();
    let set = DebugRequest::SetBreakpoint { address: 0x8000, source_file: None };
    response(ask(&mut debugger, &mut target, set));
    target.status = CoreStatus::Halted(HaltReason::Breakpoint);
    target.log.clear();
    response(ask(&mut debugger, &mut target, DebugRequest::Step));
    assert_eq!(
        target.log,
        vec![
            "Status",
            "Status",
            "ReadRegister",
            "ReadBytes",
            "ClearHardwareBreakpoint",
            "Step",
            "SetHardwareBreakpoint",
        ]
    );
    assert_eq!(target.hardware, addresses(&debugger));
}

#[test]
fn breakpoint_instructions_are_skipped() {
    let (dwarf, frame) = (dwarf(), vec![]);
    let mut debugger = session(&dwarf, &frame);
    let mut target = Target::halted();
    target.status = CoreStatus::Halted(HaltReason::Breakpoint);
    target.memory.insert(0x8001, 190);
    assert!(matches!(
        response(ask(&mut debugger, &mut target, DebugRequest::Continue)),
        DebugResponse::Continue
    ));
    assert_eq!(target.pc, 0x8002);
    assert_eq!(
        target.log,
        vec![
            "Status",
            "Status",
            "ReadRegister",
            "ReadBytes",
            "WriteProgramCounter",
            "Run",
            "Status",
        ]
    );
    assert!(debugger.running);
}

#[test]
fn other_breakpoints_are_stepped_over() {
    let (dwarf, frame) = (dwarf(), vec![]);
    let mut debugger = session(&dwarf, &frame);
    let mut target = Target::halted();
    target.status = CoreStatus::Halted(HaltReason::Breakpoint);
    response(ask(&mut debugger, &mut target, DebugRequest::Continue));
    assert_eq!(
        target.log,
        vec!["Status", "Status", "ReadRegister", "ReadBytes", "Step", "Run", "Status"]
    );
}

#[test]
fn attaching_with_and_without_reset() {
    let (dwarf, frame) = (dwarf(), vec![]);
    let mut debugger = session(&dwarf, &frame);
    for (reset, reset_and_halt, log) in vec![
        (false, false, vec![]),
        (true, false, vec!["Reset"]),
        (false, true, vec!["ResetAndHalt"]),
        (true, true, vec!["ResetAndHalt"]),
    ] {
        let mut target = Target::halted();
        let request = DebugRequest::Attach { reset, reset_and_halt };
        assert!(matches!(
            response(ask(&mut debugger, &mut target, request)),
            DebugResponse::Attach
        ));
        assert_eq!(target.log, log);
    }
}

#[test]
fn resetting_and_flashing_take_the_core_to_run() {
    let (dwarf, frame) = (dwarf(), vec![]);
    let mut debugger = session(&dwarf, &frame);
    let mut target = Target::halted();
    response(ask(&mut debugger, &mut target, DebugRequest::StackTrace));
    debugger.running = false;
    let request = DebugRequest::Reset { reset_and_halt: true };
    assert!(matches!(
        response(ask(&mut debugger, &mut target, request)),
        DebugResponse::Reset
    ));
    assert!(debugger.running);
    assert!(debugger.stack_trace.is_none());
    target.log.clear();
    debugger.running = false;
    let request = DebugRequest::Flash { reset_and_halt: false };
    assert!(matches!(
        response(ask(&mut debugger, &mut target, request)),
        DebugResponse::Flash
    ));
    assert!(debugger.running);
    assert_eq!(target.log, vec!["Flash", "Reset"]);
}

#[test]
fn a_failed_operation_ends_the_command() {
    let (dwarf, frame) = (dwarf(), vec![]);
    let mut debugger = session(&dwarf, &frame);
    let mut target = Target::halted();
    target.fails_at = Some("SetHardwareBreakpoint");
    let set = DebugRequest::SetBreakpoint { address: 2, source_file: None };
    match failure(ask(&mut debugger, &mut target, set)) {
        DebugError::Target { message } => assert_eq!(message, "SetHardwareBreakpoint failed"),
        other => panic!("{:?}", other),
    }
    assert!(debugger.breakpoints.is_empty());
}

#[test]
fn failures_are_reported_with_what_failed() {
    assert_eq!(Query::Reset.failure_context(), Some("Failed to reset the core"));
    assert_eq!(
        Query::ResetAndHalt { timeout_ms: 10 }.failure_context(),
        Some("Failed to reset and halt the core")
    );
    let flash = Query::Flash { file_path: PathBuf::new() };
    assert_eq!(flash.failure_context(), Some("Failed to flash target"));
    assert_eq!(Query::Status.failure_context(), None);
}

#[test]
fn replies_that_cannot_be_gone_on_with() {
    let pointer = Pending::AfterWord(AfterWord::StackPointer { base: u32::MAX });
    assert!(!pointer.is_answered_by(&Reply::Word(0)));
    assert!(!pointer.is_answered_by(&Reply::Word(3)));
    assert!(pointer.is_answered_by(&Reply::Word(4)));
    assert!(!pointer.is_answered_by(&Reply::Done));
    let leave = Pending::AfterBytes(AfterBytes::Leave { goal: Resumption::Step, pc: 0xffff_fffe });
    assert!(!leave.is_answered_by(&Reply::Bytes(vec![0, 190])));
    assert!(leave.is_answered_by(&Reply::Bytes(vec![1, 190])));
    assert!(!leave.is_answered_by(&Reply::Bytes(vec![1])));
    let words = Pending::AfterWords { stack_pointer: 0, length: 2 };
    assert!(words.is_answered_by(&Reply::Words(vec![1, 2])));
    assert!(!words.is_answered_by(&Reply::Words(vec![1])));
}

fn asked(action: SessionAction) -> (Query, Phase, Pending) {
    match action {
        SessionAction::Ask { query, phase, pending } => (query, phase, pending),
        other => panic!("{:?}", other),
    }
}

#[test]
fn the_core_is_looked_at_after_the_interval() {
    let (dwarf, frame) = (dwarf(), vec![]);
    let mut debugger = session(&dwarf, &frame);
    let early = SessionEvent::NothingReceived { now: 1_000 + CHECK_INTERVAL };
    assert!(matches!(debugger.run(early), SessionAction::Poll));
    let before = SessionEvent::NothingReceived { now: 0 };
    assert!(matches!(debugger.run(before), SessionAction::Poll));
    let due = SessionEvent::NothingReceived { now: 1_001 + CHECK_INTERVAL };
    let (query, phase, pending) = asked(debugger.run(due));
    assert!(matches!(query, Query::Status));
    assert_eq!(debugger.check_time, 1_001 + CHECK_INTERVAL);
    let reply = Ok(Reply::Status(CoreStatus::Running));
    let event = SessionEvent::Replied { phase, pending, reply };
    assert!(matches!(debugger.run(event), SessionAction::Poll));
    assert!(debugger.running);
}

#[test]
fn a_halt_is_told_with_the_breakpoint_that_was_hit() {
    let (dwarf, frame) = (dwarf(), vec![]);
    let mut debugger = session(&dwarf, &frame);
    let mut target = Target::halted();
    let set = DebugRequest::SetBreakpoint { address: 0x8000, source_file: None };
    response(ask(&mut debugger, &mut target, set));
    target.status = CoreStatus::Halted(HaltReason::Breakpoint);
    for (pc, hit) in vec![(0x8000, vec![0x8000]), (0x8002, vec![])] {
        target.pc = pc;
        debugger.running = true;
        debugger.check_time = 0;
        let progress = debugger.check_halted(1 + CHECK_INTERVAL);
        match finish(&mut debugger, &mut target, progress) {
            Progress::Answer(Command::Event(DebugEvent::Halted {
                pc: at,
                reason,
                hit_breakpoint_ids,
            })) => {
                assert_eq!(at, pc);
                assert_eq!(reason, HaltReason::Breakpoint);
                assert_eq!(hit_breakpoint_ids, Some(hit));
            }
            other => panic!("{:?}", other),
        }
        assert!(!debugger.running);
    }
    let later = SessionEvent::NothingReceived { now: u64::MAX };
    assert!(matches!(debugger.run(later), SessionAction::Poll));
}

#[test]
fn a_request_that_needs_no_target_ends_the_session() {
    let (dwarf, frame) = (dwarf(), vec![]);
    let mut debugger = session(&dwarf, &frame);
    let mut target = Target::halted();
    assert!(matches!(
        debugger.run(SessionEvent::Started(DebugRequest::Exit)),
        SessionAction::Leave(Ok(DebugRequest::Exit))
    ));
    let set = DebugRequest::SetBreakpoint { address: 2, source_file: None };
    response(ask(&mut debugger, &mut target, set));
    let (query, phase, pending) = asked(debugger.run(SessionEvent::Received(DebugRequest::Exit)));
    let reply = target.carry_out(query);
    assert!(matches!(
        debugger.run(SessionEvent::Replied { phase, pending, reply }),
        SessionAction::Leave(Ok(DebugRequest::Exit))
    ));
    assert!(debugger.breakpoints.is_empty());
    assert!(target.hardware.is_empty());
}

#[test]
fn disconnecting_ends_the_session() {
    let (dwarf, frame) = (dwarf(), vec![]);
    let mut debugger = session(&dwarf, &frame);
    let (query, phase, pending) = asked(debugger.run(SessionEvent::Disconnected));
    assert!(matches!(query, Query::ClearAllHardwareBreakpoints));
    let event = SessionEvent::Replied { phase, pending, reply: Ok(Reply::Done) };
    assert!(matches!(
        debugger.run(event),
        SessionAction::Leave(Err(DebugError::Disconnected))
    ));
    let (_, phase, pending) = asked(debugger.run(SessionEvent::Disconnected));
    let event = SessionEvent::Replied { phase, pending, reply: Err("usb".to_string()) };
    assert!(matches!(
        debugger.run(event),
        SessionAction::Leave(Err(DebugError::Target { .. }))
    ));
}

#[test]
fn answers_are_sent() {
    let (dwarf, frame) = (dwarf(), vec![]);
    let mut debugger = session(&dwarf, &frame);
    let request = DebugRequest::Attach { reset: false, reset_and_halt: false };
    assert!(matches!(
        debugger.run(SessionEvent::Received(request)),
        SessionAction::Send { command: Command::Response(DebugResponse::Attach) }
    ));
    assert!(matches!(
        follow(Phase::First, Progress::Fail(DebugError::CoreNotHalted)),
        SessionAction::Leave(Err(DebugError::CoreNotHalted))
    ));
}

#[test]
fn continuing_forgets_the_call_stack() {
    let (dwarf, frame) = (dwarf(), vec![]);
    let mut debugger = session(&dwarf, &frame);
    let mut target = Target::halted();
    response(ask(&mut debugger, &mut target, DebugRequest::StackTrace));
    assert!(!debugger.registers.registers.is_empty());
    debugger.running = false;
    response(ask(&mut debugger, &mut target, DebugRequest::Continue));
    assert!(debugger.running);
    assert!(debugger.stack_trace.is_none());
    assert!(debugger.registers.registers.is_empty());
}

#[test]
fn attaching_with_a_reset_forgets_the_call_stack() {
    let (dwarf, frame) = (dwarf(), vec![]);
    let mut debugger = session(&dwarf, &frame);
    let mut target = Target::halted();
    response(ask(&mut debugger, &mut target, DebugRequest::StackTrace));
    debugger.running = false;
    let request = DebugRequest::Attach { reset: true, reset_and_halt: false };
    response(ask(&mut debugger, &mut target, request));
    assert!(debugger.stack_trace.is_none());
    assert!(debugger.registers.registers.is_empty());
    assert!(!debugger.running);
}

#[test]
fn a_reset_that_fails_has_forgotten_the_call_stack() {
    let (dwarf, frame) = (dwarf(), vec![]);
    let mut debugger = session(&dwarf, &frame);
    let mut target = Target::halted();
    response(ask(&mut debugger, &mut target, DebugRequest::StackTrace));
    debugger.running = false;
    target.fails_at = Some("Reset");
    let request = DebugRequest::Reset { reset_and_halt: false };
    failure(ask(&mut debugger, &mut target, request));
    assert!(debugger.stack_trace.is_none());
    assert!(!debugger.running);
}

#[test]
fn a_command_that_fails_ends_the_session_with_its_breakpoints() {
    let (dwarf, frame) = (dwarf(), vec![]);
    let mut debugger = session(&dwarf, &frame);
    let mut target = Target::halted();
    let set = DebugRequest::SetBreakpoint { address: 2, source_file: None };
    response(ask(&mut debugger, &mut target, set));
    let (query, phase, pending) = asked(debugger.run(SessionEvent::Received(DebugRequest::Halt)));
    let reply = target.carry_out(query);
    assert!(matches!(
        debugger.run(SessionEvent::Replied { phase, pending, reply }),
        SessionAction::Leave(Err(DebugError::CoreAlreadyHalted))
    ));
    assert!(target.hardware.contains(&2));
}

#[test]
fn placing_a_breakpoint_that_fails_keeps_it_known() {
    let (dwarf, frame) = (dwarf(), vec![]);
    let mut debugger = session(&dwarf, &frame);
    let mut target = Target::halted();
    target.fails_at = Some("SetHardwareBreakpoint");
    let set = DebugRequest::SetBreakpoints {
        source_file: SOURCE.to_string(),
        source_breakpoints: vec![SourceBreakpoint { line: 11, column: None }],
    };
    failure(ask(&mut debugger, &mut target, set));
    assert_eq!(addresses(&debugger), vec![0x8008].into_iter().collect());
    assert!(target.hardware.is_empty());
}

#[test]
fn the_last_breakpoint_set_at_an_address_is_kept() {
    let (dwarf, frame) = (dwarf(), vec![]);
    let mut debugger = session(&dwarf, &frame);
    let mut target = Target::halted();
    target.units = 2;
    let set = DebugRequest::SetBreakpoints {
        source_file: SOURCE.to_string(),
        source_breakpoints: vec![
            SourceBreakpoint { line: 10, column: None },
            SourceBreakpoint { line: 10, column: Some(1) },
            SourceBreakpoint { line: 11, column: None },
            SourceBreakpoint { line: 10, column: None },
            SourceBreakpoint { line: 12, column: None },
        ],
    };
    match response(ask(&mut debugger, &mut target, set)) {
        DebugResponse::SetBreakpoints { breakpoints } => {
            let answers: Vec<(Option<i64>, bool)> =
                breakpoints.iter().map(|b| (b.id, b.verified)).collect();
            assert_eq!(
                answers,
                vec![
                    (Some(0x8000), true),
                    (Some(0x8000), true),
                    (Some(0x8008), true),
                    (Some(0x8000), false),
                    (Some(0x800c), false),
                ]
            );
        }
        other => panic!("{:?}", other),
    }
    assert_eq!(addresses(&debugger), vec![0x8000, 0x8008].into_iter().collect());
    assert_eq!(debugger.breakpoints[&0x8000].column, Some(1));
}

#[test]
fn sessions_keep_the_debug_information() {
    let (dwarf, frame) = (dwarf(), vec![7]);
    let mut info = DebugInformation::new(&dwarf, &frame);
    info.breakpoints.push(0x8000);
    let copy = info.clone();
    let mut debugger =
        init(info, PathBuf::from("/work/app.elf"), "/work".to_string(), 0, 15, 14, 13);
    let mut target = Target::halted();
    response(ask(&mut debugger, &mut target, DebugRequest::StackTrace));
    response(ask(&mut debugger, &mut target, DebugRequest::ClearAllBreakpoints));
    assert_eq!(debugger.debug_info.breakpoints, vec![0x8000]);
    assert_eq!(debugger.debug_info.debug_frame, copy.debug_frame);
    assert_eq!(copy.breakpoints, vec![0x8000]);
}

#[test]
fn a_session_serves_searches_of_sound_debug_information() {
    let asked = || DebugRequest::SetBreakpoints {
        source_file: SOURCE.to_string(),
        source_breakpoints: vec![SourceBreakpoint { line: 11, column: None }],
    };
    let none = || DebugRequest::SetBreakpoints {
        source_file: SOURCE.to_string(),
        source_breakpoints: vec![],
    };
    let line = DebugRequest::SetBreakpoint { address: 1, source_file: Some(SOURCE.to_string()) };
    let address = DebugRequest::SetBreakpoint { address: 1, source_file: None };
    let frame = vec![];
    let sound = dwarf();
    let debugger = session(&sound, &frame);
    assert!(debugger.is_serving(&asked()));
    assert!(debugger.is_serving(&line));
    let mut data = vec![0x03];
    data.extend(vec![0x80; 9]);
    data.push(0x7f);
    let overflowing =
        DwarfSections { sections: vec![Section { name: ".debug_line".to_string(), data }] };
    let debugger = session(&overflowing, &frame);
    assert!(!debugger.is_serving(&asked()));
    assert!(!debugger.is_serving(&line));
    assert!(debugger.is_serving(&none()));
    assert!(debugger.is_serving(&address));
    assert!(debugger.is_serving(&DebugRequest::Halt));
}

#[test]
fn bytes_that_are_no_instruction_end_the_listing() {
    let (dwarf, frame) = (dwarf(), vec![]);
    let mut debugger = session(&dwarf, &frame);
    let mut target = Target::halted();
    target.memory.insert(0x8001, 0xbf);
    for i in 2..32 {
        target.memory.insert(0x8000 + i, 0xff);
    }
    match response(ask(&mut debugger, &mut target, DebugRequest::Code)) {
        DebugResponse::Code { pc, instructions } => {
            assert_eq!(pc, 0x8000);
            assert_eq!(instructions, vec![(0x8000, "0x8000: nop ".to_string())]);
        }
        other => panic!("{:?}", other),
    }
}
