//! The part of the debugger that outlives a session: it keeps the settings,
//! answers what needs no target, and starts a session for everything else.
use vstd::prelude::*;

use std::path::PathBuf;

use crate::commands::{needs_no_target, Command, DebugError, DebugRequest, DebugResponse};
use crate::config::{Config, Opt};

verus! {

/// Answers requests, with a debug session where one is needed.
#[derive(Debug)]
pub struct DebugHandler {
    pub config: Config,
}

/// What a request leads to.
#[derive(Debug)]
pub enum Handled {
    /// Answer, and end the debugger where `exit` says so.
    Answer { exit: bool, response: DebugResponse },
    /// Start a session that takes the request.
    Launch {
        file_path: PathBuf,
        probe_number: usize,
        chip: String,
        cwd: String,
        request: DebugRequest,
    },
}

/// What the handler is told.
#[derive(Debug)]
pub enum HandlerEvent {
    /// A request came in.
    Received(DebugRequest),
    /// The session ended: it handed a request back, or it failed.
    SessionEnded(Result<DebugRequest, DebugError>),
}

/// What the handler wants done.
#[derive(Debug)]
pub enum HandlerAction {
    /// Start a session, and tell how it ended.
    Launch {
        file_path: PathBuf,
        probe_number: usize,
        chip: String,
        cwd: String,
        request: DebugRequest,
    },
    /// Send the answer; then end where `exit` says so, or receive the next
    /// request.
    Send { command: Command, exit: bool },
}

/// The settings after the request.
pub open spec fn configured(config: Config, request: DebugRequest) -> Config {
    match request {
        DebugRequest::SetBinary { path } => Config { elf_file_path: Some(path), ..config },
        DebugRequest::SetProbeNumber { number } => Config { probe_num: number, ..config },
        DebugRequest::SetChip { chip } => Config { chip: Some(chip), ..config },
        DebugRequest::SetCWD { cwd } => Config { work_directory: Some(cwd), ..config },
        _ => config,
    }
}

/// What the request leads to under these settings.
pub open spec fn handles(config: Config, request: DebugRequest, handled: Handled) -> bool {
    match request {
        DebugRequest::Exit => handled == (Handled::Answer {
            exit: true,
            response: DebugResponse::Exit,
        }),
        DebugRequest::SetBinary { .. } => handled == (Handled::Answer {
            exit: false,
            response: DebugResponse::SetBinary,
        }),
        DebugRequest::SetProbeNumber { .. } => handled == (Handled::Answer {
            exit: false,
            response: DebugResponse::SetProbeNumber,
        }),
        DebugRequest::SetChip { .. } => handled == (Handled::Answer {
            exit: false,
            response: DebugResponse::SetChip,
        }),
        DebugRequest::SetCWD { .. } => handled == (Handled::Answer {
            exit: false,
            response: DebugResponse::SetCWD,
        }),
        _ => if config.missing() {
            handled matches Handled::Answer { exit, response: DebugResponse::Error { message } }
                && !exit && message@ == config.missing_text()
        } else {
            handled == (Handled::Launch {
                file_path: config.elf_file_path->0,
                probe_number: config.probe_num,
                chip: config.chip->0,
                cwd: config.work_directory->0,
                request,
            })
        },
    }
}

/// What the action carries out: an answer or a session.
pub open spec fn carried_out(action: HandlerAction) -> Handled {
    match action {
        HandlerAction::Launch { file_path, probe_number, chip, cwd, request } => Handled::Launch {
            file_path,
            probe_number,
            chip,
            cwd,
            request,
        },
        HandlerAction::Send { command, exit } => Handled::Answer {
            exit,
            response: command->Response_0,
        },
    }
}

/// The answer that the action sends, if it sends something, is a response.
pub open spec fn sends_response(action: HandlerAction) -> bool {
    action matches HandlerAction::Send { command, .. } ==> command is Response
}

/// The action is what the request leads to under these settings.
pub open spec fn acts_on(config: Config, request: DebugRequest, action: HandlerAction) -> bool {
    sends_response(action) && handles(config, request, carried_out(action))
}

impl DebugHandler {
    /// A handler with the settings that the options ask for.
    pub fn new(opt: Opt) -> (handler: DebugHandler)
        ensures
            handler.config.elf_file_path == opt.elf_file_path,
            handler.config.chip == opt.chip,
            handler.config.work_directory == opt.work_directory,
            handler.config.probe_num == opt.probe_num,
    {
        DebugHandler { config: Config::new(opt) }
    }

    /// A handler without settings, for the first probe.
    pub fn new_default() -> (handler: DebugHandler)
        ensures
            handler.config == (Config {
                elf_file_path: None,
                chip: None,
                work_directory: None,
                probe_num: 0,
            }),
    {
        DebugHandler {
            config: Config {
                elf_file_path: None,
                chip: None,
                work_directory: None,
                probe_num: 0,
            },
        }
    }

    /// Answers the request, or asks for a session that does.
    pub fn handle_request(&mut self, request: DebugRequest) -> (handled: Handled)
        ensures
            final(self).config == configured(old(self).config, request),
            handles(old(self).config, request, handled),
    {
        match request {
            DebugRequest::Exit => Handled::Answer { exit: true, response: DebugResponse::Exit },
            DebugRequest::SetBinary { path } => {
                self.config.elf_file_path = Some(path);
                Handled::Answer { exit: false, response: DebugResponse::SetBinary }
            },
            DebugRequest::SetProbeNumber { number } => {
                self.config.probe_num = number;
                Handled::Answer { exit: false, response: DebugResponse::SetProbeNumber }
            },
            DebugRequest::SetChip { chip } => {
                self.config.chip = Some(chip);
                Handled::Answer { exit: false, response: DebugResponse::SetChip }
            },
            DebugRequest::SetCWD { cwd } => {
                self.config.work_directory = Some(cwd);
                Handled::Answer { exit: false, response: DebugResponse::SetCWD }
            },
            _ => match (
                &self.config.elf_file_path,
                &self.config.chip,
                &self.config.work_directory,
            ) {
                (Some(file_path), Some(chip), Some(cwd)) => Handled::Launch {
                    file_path: file_path.clone(),
                    probe_number: self.config.probe_num,
                    chip: chip.clone(),
                    cwd: cwd.clone(),
                    request,
                },
                _ => Handled::Answer {
                    exit: false,
                    response: DebugResponse::Error {
                        message: self.config.missing_config_message(),
                    },
                },
            },
        }
    }

    /// The next step of the loop that receives requests and sends answers. A
    /// request that a session hands back is handled like one that came in; a
    /// session that fails is answered by an error.
    pub fn run(&mut self, event: HandlerEvent) -> (action: HandlerAction)
        ensures
            match event {
                HandlerEvent::Received(request) => {
                    &&& final(self).config == configured(old(self).config, request)
                    &&& acts_on(old(self).config, request, action)
                },
                HandlerEvent::SessionEnded(Ok(request)) => {
                    &&& final(self).config == configured(old(self).config, request)
                    &&& acts_on(old(self).config, request, action)
                },
                HandlerEvent::SessionEnded(Err(error)) => {
                    &&& final(self).config == old(self).config
                    &&& action matches HandlerAction::Send {
                        command: Command::Response(DebugResponse::Error { message }),
                        exit,
                    }
                    &&& !exit
                    &&& message@ == error.text()
                },
            },
    {
        let request = match event {
            HandlerEvent::Received(request) => request,
            HandlerEvent::SessionEnded(Ok(request)) => request,
            HandlerEvent::SessionEnded(Err(error)) => {
                return HandlerAction::Send {
                    command: Command::Response(
                        DebugResponse::Error { message: error.message() },
                    ),
                    exit: false,
                };
            },
        };
        match self.handle_request(request) {
            Handled::Answer { exit, response } => HandlerAction::Send {
                command: Command::Response(response),
                exit,
            },
            Handled::Launch { file_path, probe_number, chip, cwd, request } => {
                HandlerAction::Launch { file_path, probe_number, chip, cwd, request }
            },
        }
    }
}

/// Only a request to exit ends the debugger.
pub proof fn law_only_exit_exits(config: Config, request: DebugRequest, handled: Handled)
    requires
        handles(config, request, handled),
    ensures
        request is Exit <==> (handled matches Handled::Answer { exit, .. } && exit),
{
}

/// A request that needs no target never leads to a session. Such are the
/// requests that a session hands back, so each is answered at once.
pub proof fn law_handed_back_requests_are_answered(
    config: Config,
    request: DebugRequest,
    action: HandlerAction,
)
    requires
        needs_no_target(request),
        acts_on(config, request, action),
    ensures
        action is Send,
{
}

/// A session is started for a request exactly if the request needs a target
/// and no setting is missing.
pub proof fn law_sessions_need_settings(config: Config, request: DebugRequest, handled: Handled)
    requires
        handles(config, request, handled),
    ensures
        handled is Launch <==> !needs_no_target(request) && !config.missing(),
        handled matches Handled::Launch { request: passed, .. } ==> passed == request,
{
}

/// Once the program, the chip and the work directory are set, whatever was set
/// before, a request that needs a target starts a session with them.
pub proof fn law_settings_are_used(
    config: Config,
    path: PathBuf,
    chip: String,
    cwd: String,
    request: DebugRequest,
    handled: Handled,
)
    requires
        !needs_no_target(request),
        handles(
            configured(
                configured(
                    configured(config, DebugRequest::SetBinary { path }),
                    DebugRequest::SetChip { chip },
                ),
                DebugRequest::SetCWD { cwd },
            ),
            request,
            handled,
        ),
    ensures
        handled == (Handled::Launch {
            file_path: path,
            probe_number: config.probe_num,
            chip,
            cwd,
            request,
        }),
{
}

/// A request that needs a target leaves the settings as they are.
pub proof fn law_sessions_keep_the_settings(config: Config, request: DebugRequest)
    requires
        !needs_no_target(request),
    ensures
        configured(config, request) == config,
{
}

/// A request that sets something sets that to what it says, and leaves the other
/// settings; the others leave all of them.
pub proof fn law_requests_set_what_they_say(config: Config, request: DebugRequest)
    ensures
        ({
            let after = configured(config, request);
            &&& after.elf_file_path == match request {
                DebugRequest::SetBinary { path } => Some(path),
                _ => config.elf_file_path,
            }
            &&& after.probe_num == match request {
                DebugRequest::SetProbeNumber { number } => number,
                _ => config.probe_num,
            }
            &&& after.chip == match request {
                DebugRequest::SetChip { chip } => Some(chip),
                _ => config.chip,
            }
            &&& after.work_directory == match request {
                DebugRequest::SetCWD { cwd } => Some(cwd),
                _ => config.work_directory,
            }
        }),
{
}

/// Each request that needs no target is answered by its own response. One that
/// needs a target starts a session with the settings, where all are known, and
/// is else answered by what is missing.
pub proof fn law_requests_are_acted_on(
    config: Config,
    request: DebugRequest,
    action: HandlerAction,
)
    requires
        acts_on(config, request, action),
    ensures
        match request {
            DebugRequest::Exit => action == (HandlerAction::Send {
                command: Command::Response(DebugResponse::Exit),
                exit: true,
            }),
            DebugRequest::SetBinary { .. } => action == (HandlerAction::Send {
                command: Command::Response(DebugResponse::SetBinary),
                exit: false,
            }),
            DebugRequest::SetProbeNumber { .. } => action == (HandlerAction::Send {
                command: Command::Response(DebugResponse::SetProbeNumber),
                exit: false,
            }),
            DebugRequest::SetChip { .. } => action == (HandlerAction::Send {
                command: Command::Response(DebugResponse::SetChip),
                exit: false,
            }),
            DebugRequest::SetCWD { .. } => action == (HandlerAction::Send {
                command: Command::Response(DebugResponse::SetCWD),
                exit: false,
            }),
            _ => match (config.elf_file_path, config.chip, config.work_directory) {
                (Some(file_path), Some(chip), Some(cwd)) => action == (HandlerAction::Launch {
                    file_path,
                    probe_number: config.probe_num,
                    chip,
                    cwd,
                    request,
                }),
                _ => {
                    &&& action matches HandlerAction::Send {
                        command: Command::Response(DebugResponse::Error { message }),
                        exit,
                    }
                    &&& !exit
                    &&& message@ == config.missing_text()
                },
            },
        },
{
}

/// A session that starts after a setting was made, whatever was set before and
/// after it but that setting, has what it says.
pub proof fn law_sessions_use_the_last_setting(
    config: Config,
    setting: DebugRequest,
    other: DebugRequest,
    request: DebugRequest,
    handled: Handled,
)
    requires
        handles(configured(configured(config, setting), other), request, handled),
    ensures
        handled matches Handled::Launch { file_path, probe_number, chip, cwd, .. } ==> {
            &&& setting matches DebugRequest::SetBinary { path } ==> !(other is SetBinary)
                ==> file_path == path
            &&& setting matches DebugRequest::SetProbeNumber { number } ==> !(
            other is SetProbeNumber) ==> probe_number == number
            &&& setting matches DebugRequest::SetChip { chip: kind } ==> !(other is SetChip)
                ==> chip == kind
            &&& setting matches DebugRequest::SetCWD { cwd: directory } ==> !(other is SetCWD)
                ==> cwd == directory
        },
{
}

} // verus!
