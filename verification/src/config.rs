//! The settings of the window and of logging.

use crate::strings::str_eq;
use vstd::prelude::*;
use vstd::string::*;

verus! {

/// The window.
#[derive(Debug, Clone)]
pub struct WindowConfig {
    /// Window title.
    pub title: String,
    /// Initial window width.
    pub width: u32,
    /// Initial window height.
    pub height: u32,
    /// Whether frames wait for the display.
    pub vsync: bool,
    /// Target frame rate; 0 for no limit.
    pub target_fps: u32,
}

/// Logging and what else helps to find faults.
#[derive(Debug, Clone)]
pub struct DebugConfig {
    /// Log level: "trace", "debug", "info", "warn" or "error".
    pub log_level: String,
    /// Whether the validation layers of the graphics driver are on.
    pub vulkan_validation: bool,
    /// Whether frame times are printed.
    pub show_frame_times: bool,
    /// Whether memory usage is printed.
    pub show_memory_usage: bool,
    /// Whether every key is logged.
    pub verbose_input: bool,
    /// Whether the text system reports what it does.
    pub debug_text_system: bool,
    /// Whether changes of the typing state are logged.
    pub log_code_state: bool,
    /// Whether the frame rate is shown.
    pub show_fps: bool,
    /// Whether logs are written to a file.
    pub save_logs_to_file: bool,
    /// The path of that file.
    pub log_file_path: String,
}

/// How much is logged.
#[derive(Debug, Clone, Copy, PartialEq, Eq)]
pub enum LogLevel {
    Trace,
    Debug,
    Info,
    Warn,
    Error,
}

/// The letter in lower case, if it is an upper-case letter of ASCII; any
/// other character as it is.
pub open spec fn ascii_lower(c: char) -> char {
    if 'A' <= c <= 'Z' {
        ((c as u8) + 32) as char
    } else {
        c
    }
}

/// The text with its upper-case letters of ASCII in lower case.
pub open spec fn lowered(s: Seq<char>) -> Seq<char> {
    Seq::new(s.len(), |i: int| ascii_lower(s[i]))
}

/// The level that `name` stands for, whatever the case of its letters;
/// `None` for a name that is none of the five.
pub open spec fn level_named(name: Seq<char>) -> Option<LogLevel> {
    let l = lowered(name);
    if l == "trace"@ {
        Some(LogLevel::Trace)
    } else if l == "debug"@ {
        Some(LogLevel::Debug)
    } else if l == "info"@ {
        Some(LogLevel::Info)
    } else if l == "warn"@ {
        Some(LogLevel::Warn)
    } else if l == "error"@ {
        Some(LogLevel::Error)
    } else {
        None
    }
}

/// Computes [`lowered`].
pub fn to_ascii_lower(text: &str) -> (r: String)
    ensures
        r@ == lowered(text@),
{
    let mut r = String::new();
    for ch in it: text.chars()
        invariant
            it.seq() == text@,
            r@ == lowered(text@.take(it.index() as int)),
    {
        let v: u32 = ch as u32;
        let lower = if 65 <= v && v <= 90 {
            ((v as u8) + 32) as char
        } else {
            ch
        };
        r.push(lower);
        assert(text@.take(it.index() + 1) =~= text@.take(it.index() as int).push(ch));
        assert(r@ =~= lowered(text@.take(it.index() + 1)));
    }
    assert(text@.take(text@.len() as int) =~= text@);
    r
}

impl Default for WindowConfig {
    fn default() -> (c: WindowConfig)
        ensures
            c.title@ == "CargoTap - Typing Game"@,
            c.width == 1280,
            c.height == 720,
            c.vsync,
            c.target_fps == 60,
    {
        WindowConfig { title: "CargoTap - Typing Game".to_owned(), width: 1280, height: 720, vsync: true, target_fps: 60 }
    }
}

impl WindowConfig {
    /// Whether the window is smaller than 640 by 480, the least that is
    /// recommended.
    pub fn is_too_small(&self) -> (r: bool)
        ensures
            r == (self.width < 640 || self.height < 480),
    {
        self.width < 640 || self.height < 480
    }
}

impl Default for DebugConfig {
    fn default() -> (c: DebugConfig)
        ensures
            c.log_level@ == "info"@,
            !c.vulkan_validation,
            !c.show_frame_times,
            !c.show_memory_usage,
            !c.verbose_input,
            !c.debug_text_system,
            c.log_code_state,
            !c.show_fps,
            !c.save_logs_to_file,
            c.log_file_path@ == "cargotap_debug.log"@,
    {
        DebugConfig {
            log_level: "info".to_owned(),
            vulkan_validation: false,
            show_frame_times: false,
            show_memory_usage: false,
            verbose_input: false,
            debug_text_system: false,
            log_code_state: true,
            show_fps: false,
            save_logs_to_file: false,
            log_file_path: "cargotap_debug.log".to_owned(),
        }
    }
}

impl DebugConfig {
    /// The level that the configured name stands for; `None` if it stands
    /// for none, in which case callers log at [`LogLevel::Info`].
    pub fn parse_log_level(&self) -> (r: Option<LogLevel>)
        ensures
            r == level_named(self.log_level@),
    {
        let name = to_ascii_lower(self.log_level.as_str());
        if str_eq(name.as_str(), "trace") {
            Some(LogLevel::Trace)
        } else if str_eq(name.as_str(), "debug") {
            Some(LogLevel::Debug)
        } else if str_eq(name.as_str(), "info") {
            Some(LogLevel::Info)
        } else if str_eq(name.as_str(), "warn") {
            Some(LogLevel::Warn)
        } else if str_eq(name.as_str(), "error") {
            Some(LogLevel::Error)
        } else {
            None
        }
    }

    /// The level to log at: that of the configured name, or
    /// [`LogLevel::Info`] if the name stands for none.
    pub fn get_log_level(&self) -> (r: LogLevel)
        ensures
            r == match level_named(self.log_level@) {
                Some(level) => level,
                None => LogLevel::Info,
            },
    {
        match self.parse_log_level() {
            Some(level) => level,
            None => LogLevel::Info,
        }
    }
}

} // verus!
