//! What the debugger has to be told before it can debug.
use vstd::prelude::*;

use std::path::PathBuf;

verus! {

/// The options that the debugger is started with.
#[derive(Debug)]
pub struct Opt {
    pub elf_file_path: Option<PathBuf>,
    pub chip: Option<String>,
    pub work_directory: Option<String>,
    pub probe_num: usize,
}

/// The settings of the debugger.
#[derive(Debug)]
pub struct Config {
    pub elf_file_path: Option<PathBuf>,
    pub chip: Option<String>,
    pub work_directory: Option<String>,
    pub probe_num: usize,
}

impl Config {
    /// The settings that the options ask for.
    pub fn new(opt: Opt) -> (config: Config)
        ensures
            config.elf_file_path == opt.elf_file_path,
            config.chip == opt.chip,
            config.work_directory == opt.work_directory,
            config.probe_num == opt.probe_num,
    {
        Config {
            elf_file_path: opt.elf_file_path,
            chip: opt.chip,
            work_directory: opt.work_directory,
            probe_num: opt.probe_num,
        }
    }

    /// A setting without which nothing can be debugged is not known.
    pub open spec fn missing(self) -> bool {
        self.elf_file_path is None || self.chip is None || self.work_directory is None
    }

    /// The settings that are not known, in words.
    pub open spec fn missing_text(self) -> Seq<char> {
        let program = if self.elf_file_path is None {
            "\n\telf file path"@
        } else {
            Seq::empty()
        };
        let chip = if self.chip is None {
            "\n\tchip"@
        } else {
            Seq::empty()
        };
        let directory = if self.work_directory is None {
            "\n\twork directory"@
        } else {
            Seq::empty()
        };
        "Missing required configurations:"@ + program + chip + directory
    }

    /// Whether a setting without which nothing can be debugged is not known.
    pub fn is_missing_config(&self) -> (yes: bool)
        ensures
            yes == self.missing(),
    {
        self.elf_file_path.is_none() || self.chip.is_none() || self.work_directory.is_none()
    }

    /// The settings that are not known, in words.
    pub fn missing_config_message(&self) -> (message: String)
        ensures
            message@ == self.missing_text(),
    {
        let mut message = "Missing required configurations:".to_owned();
        if self.elf_file_path.is_none() {
            message.append("\n\telf file path");
        }
        if self.chip.is_none() {
            message.append("\n\tchip");
        }
        if self.work_directory.is_none() {
            message.append("\n\twork directory");
        }
        assert(message@ =~= self.missing_text());
        message
    }
}

/// The program, the chip and the work directory have to be known; the probe
/// always is. The text names those that are not, each on a line of its own, in
/// this order, and no others.
pub proof fn law_missing_settings_are_named(config: Config)
    ensures
        config.missing() <==> !(config.elf_file_path is Some && config.chip is Some
            && config.work_directory is Some),
        ({
            let text = config.missing_text();
            let head = "Missing required configurations:"@;
            let program = "\n\telf file path"@;
            let chip = "\n\tchip"@;
            let directory = "\n\twork directory"@;
            match (config.elf_file_path, config.chip, config.work_directory) {
                (Some(_), Some(_), Some(_)) => text == head,
                (None, Some(_), Some(_)) => text == head + program,
                (Some(_), None, Some(_)) => text == head + chip,
                (Some(_), Some(_), None) => text == head + directory,
                (None, None, Some(_)) => text == head + program + chip,
                (None, Some(_), None) => text == head + program + directory,
                (Some(_), None, None) => text == head + chip + directory,
                (None, None, None) => text == head + program + chip + directory,
            }
        }),
{
    let head = "Missing required configurations:"@;
    let none = Seq::<char>::empty();
    assert forall|s: Seq<char>| #[trigger] (s + none) == s by {
        assert(s + none =~= s);
    }
}

} // verus!
