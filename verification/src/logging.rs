//! What goes into the log: levels, the form of a line, the name of a day's file.

use vstd::prelude::*;
use vstd::string::StringExecFns;
use crate::text::same_text;

verus! {

/// How much a log line matters.
#[derive(Clone, Copy, Debug, PartialEq, Eq, Structural)]
pub enum LogLevel {
    Info,
    Warning,
    Error,
    Debug,
}

/// The tag that a level is written with.
pub open spec fn level_tag(level: LogLevel) -> Seq<char> {
    match level {
        LogLevel::Info => "INFO"@,
        LogLevel::Warning => "WARN"@,
        LogLevel::Error => "ERROR"@,
        LogLevel::Debug => "DEBUG"@,
    }
}

/// The level that a caller names: `warning`, `error` or `debug`; anything else, or no name,
/// is information.
pub open spec fn level_named(name: Option<Seq<char>>) -> LogLevel {
    match name {
        Some(name) => if name == "warning"@ {
            LogLevel::Warning
        } else if name == "error"@ {
            LogLevel::Error
        } else if name == "debug"@ {
            LogLevel::Debug
        } else {
            LogLevel::Info
        },
        None => LogLevel::Info,
    }
}

/// A log line: the time, the level's tag and the category, each in square brackets, then
/// the message and a line end.
pub open spec fn log_line_text(
    timestamp: Seq<char>,
    level: LogLevel,
    category: Seq<char>,
    message: Seq<char>,
) -> Seq<char> {
    "["@ + timestamp + "] ["@ + level_tag(level) + "] ["@ + category + "] "@ + message + "\n"@
}

/// The name of the log file of the day written as `date`.
pub open spec fn log_file_name_text(date: Seq<char>) -> Seq<char> {
    "max8videoeditor_"@ + date + ".log"@
}

impl LogLevel {
    pub fn as_str(&self) -> (tag: &'static str)
        ensures
            tag@ == level_tag(*self),
    {
        match self {
            LogLevel::Info => "INFO",
            LogLevel::Warning => "WARN",
            LogLevel::Error => "ERROR",
            LogLevel::Debug => "DEBUG",
        }
    }

    /// The level that a caller names.
    pub fn from_name(name: Option<&str>) -> (level: LogLevel)
        ensures
            level == level_named(
                match name {
                    Some(name) => Some(name@),
                    None => None,
                },
            ),
    {
        match name {
            Some(name) => if same_text(name, "warning") {
                LogLevel::Warning
            } else if same_text(name, "error") {
                LogLevel::Error
            } else if same_text(name, "debug") {
                LogLevel::Debug
            } else {
                LogLevel::Info
            },
            None => LogLevel::Info,
        }
    }

    /// Whether lines of this level are written: debug lines only by a debug build.
    pub fn is_written(&self, debug_build: bool) -> (written: bool)
        ensures
            written == (debug_build || *self != LogLevel::Debug),
    {
        match self {
            LogLevel::Debug => debug_build,
            _ => true,
        }
    }
}

/// Puts a log line together.
pub fn log_line(timestamp: &str, level: LogLevel, category: &str, message: &str) -> (line: String)
    ensures
        line@ == log_line_text(timestamp@, level, category@, message@),
{
    let mut line = String::new();
    line.append("[");
    line.append(timestamp);
    line.append("] [");
    line.append(level.as_str());
    line.append("] [");
    line.append(category);
    line.append("] ");
    line.append(message);
    line.append("\n");
    assert(line@ =~= log_line_text(timestamp@, level, category@, message@));
    line
}

/// The line that a debug message leaves in the log: none, unless a debug build writes it.
pub fn log_debug(timestamp: &str, message: &str, category: &str, debug_build: bool) -> (line:
    Option<String>)
    ensures
        line is Some <==> debug_build,
        line matches Some(text) ==> text@ == log_line_text(
            timestamp@,
            LogLevel::Debug,
            category@,
            message@,
        ),
{
    if LogLevel::Debug.is_written(debug_build) {
        Some(log_line(timestamp, LogLevel::Debug, category, message))
    } else {
        None
    }
}

/// Names the log file of a day.
pub fn log_file_name(date: &str) -> (name: String)
    ensures
        name@ == log_file_name_text(date@),
{
    let mut name = String::new();
    name.append("max8videoeditor_");
    name.append(date);
    name.append(".log");
    assert(name@ =~= log_file_name_text(date@));
    name
}

} // verus!
