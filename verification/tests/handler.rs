use std::path::PathBuf;

use embedded_rust_debugger::commands::{Command, DebugError, DebugRequest, DebugResponse};
use embedded_rust_debugger::config::Opt;
use embedded_rust_debugger::handler::{DebugHandler, Handled, HandlerAction, HandlerEvent};

fn configured() -> DebugHandler {
    DebugHandler::new(Opt {
        elf_file_path: Some(PathBuf::from("/work/app.elf")),
        chip: Some("STM32F411".to_string()),
        work_directory: Some("/work".to_string()),
        probe_num: 2,
    })
}

fn error_message(handled: Handled) -> String {
    match handled {
        Handled::Answer { exit: false, response: DebugResponse::Error { message } } => message,
        other => panic!("{:?}", other),
    }
}

#[test]
fn options_become_settings() {
    let handler = configured();
    assert_eq!(handler.config.elf_file_path, Some(PathBuf::from("/work/app.elf")));
    assert_eq!(handler.config.chip, Some("STM32F411".to_string()));
    assert_eq!(handler.config.work_directory, Some("/work".to_string()));
    assert_eq!(handler.config.probe_num, 2);
}

#[test]
fn default_handler_has_no_settings() {
    let handler = DebugHandler::new_default();
    assert!(handler.config.is_missing_config());
    assert_eq!(handler.config.elf_file_path, None);
    assert_eq!(handler.config.chip, None);
    assert_eq!(handler.config.work_directory, None);
    assert_eq!(handler.config.probe_num, 0);
}

#[test]
fn missing_settings_are_named() {
    let mut handler = DebugHandler::new_default();
    assert_eq!(
        error_message(handler.handle_request(DebugRequest::Stack)),
        "Missing required configurations:\n\telf file path\n\tchip\n\twork directory"
    );
    handler.handle_request(DebugRequest::SetChip { chip: "nrf52".to_string() });
    assert_eq!(
        error_message(handler.handle_request(DebugRequest::Stack)),
        "Missing required configurations:\n\telf file path\n\twork directory"
    );
}

#[test]
fn settings_are_used_for_the_session() {
    let mut handler = DebugHandler::new_default();
    assert!(matches!(
        handler.handle_request(DebugRequest::SetBinary { path: PathBuf::from("/a.elf") }),
        Handled::Answer { exit: false, response: DebugResponse::SetBinary }
    ));
    assert!(matches!(
        handler.handle_request(DebugRequest::SetChip { chip: "nrf52".to_string() }),
        Handled::Answer { exit: false, response: DebugResponse::SetChip }
    ));
    assert!(matches!(
        handler.handle_request(DebugRequest::SetCWD { cwd: "/w".to_string() }),
        Handled::Answer { exit: false, response: DebugResponse::SetCWD }
    ));
    assert!(matches!(
        handler.handle_request(DebugRequest::SetProbeNumber { number: 3 }),
        Handled::Answer { exit: false, response: DebugResponse::SetProbeNumber }
    ));
    match handler.handle_request(DebugRequest::Halt) {
        Handled::Launch { file_path, probe_number, chip, cwd, request } => {
            assert_eq!(file_path, PathBuf::from("/a.elf"));
            assert_eq!(probe_number, 3);
            assert_eq!(chip, "nrf52");
            assert_eq!(cwd, "/w");
            assert!(matches!(request, DebugRequest::Halt));
        }
        other => panic!("{:?}", other),
    }
    assert_eq!(handler.config.elf_file_path, Some(PathBuf::from("/a.elf")));
    assert_eq!(handler.config.chip, Some("nrf52".to_string()));
    assert_eq!(handler.config.probe_num, 3);
}

#[test]
fn only_exit_exits() {
    let mut handler = configured();
    assert!(matches!(
        handler.run(HandlerEvent::Received(DebugRequest::Exit)),
        HandlerAction::Send { command: Command::Response(DebugResponse::Exit), exit: true }
    ));
    assert!(matches!(
        handler.run(HandlerEvent::Received(DebugRequest::Status)),
        HandlerAction::Launch { request: DebugRequest::Status, .. }
    ));
}

#[test]
fn handed_back_requests_are_answered() {
    let mut handler = configured();
    let request = DebugRequest::SetProbeNumber { number: 7 };
    assert!(matches!(
        handler.run(HandlerEvent::SessionEnded(Ok(request))),
        HandlerAction::Send {
            command: Command::Response(DebugResponse::SetProbeNumber),
            exit: false
        }
    ));
    assert_eq!(handler.config.probe_num, 7);
}

#[test]
fn failed_sessions_are_answered_by_an_error() {
    let mut handler = configured();
    match handler.run(HandlerEvent::SessionEnded(Err(DebugError::CoreNotHalted))) {
        HandlerAction::Send {
            command: Command::Response(DebugResponse::Error { message }),
            exit,
        } => {
            assert_eq!(message, "Core must be halted");
            assert!(!exit);
        }
        other => panic!("{:?}", other),
    }
}

#[test]
fn errors_in_words() {
    let name = "a\"b".to_string();
    assert_eq!(DebugError::CoreNotHalted.message(), "Core must be halted");
    assert_eq!(DebugError::CoreAlreadyHalted.message(), "Core is already halted");
    assert_eq!(
        DebugError::NoBreakpointLeft.message(),
        "All hardware breakpoints are already set"
    );
    assert_eq!(
        DebugError::NoBreakpointAt { address: 4096 }.message(),
        "Can't remove hardware breakpoint at 4096"
    );
    assert_eq!(
        DebugError::VariableNotFound { name }.message(),
        "Variable \"a\\\"b\" not found"
    );
    assert_eq!(
        DebugError::LocationNotFound.message(),
        "Could not file location form source file line number"
    );
    assert_eq!(DebugError::MissingChild.message(), "Error");
    assert_eq!(DebugError::Disconnected.message(), "Disconnected");
    assert_eq!(DebugError::Target { message: "usb".to_string() }.message(), "usb");
}
