//! The logger's rules: which messages are let through, and how a line of
//! the log reads. Writing the line is the caller's.

use vstd::prelude::*;
use vstd::string::StringExecFns;

verus! {

/// How grave a message is, from the gravest to the least.
#[derive(Clone, Copy, Debug, PartialEq, Eq, Structural)]
pub enum Level {
    Error,
    Warn,
    Info,
    Debug,
    Trace,
}

impl Level {
    /// The place of the level in the order from the gravest, which has
    /// rank 1, to the least.
    pub open spec fn rank(self) -> nat {
        match self {
            Level::Error => 1,
            Level::Warn => 2,
            Level::Info => 3,
            Level::Debug => 4,
            Level::Trace => 5,
        }
    }

    /// The name of the level as it stands in the log.
    pub open spec fn name(self) -> Seq<char> {
        match self {
            Level::Error => "ERROR"@,
            Level::Warn => "WARN"@,
            Level::Info => "INFO"@,
            Level::Debug => "DEBUG"@,
            Level::Trace => "TRACE"@,
        }
    }

    /// The name of the level as it stands in the log.
    pub fn as_str(self) -> (name: &'static str)
        ensures
            name@ == self.name(),
    {
        match self {
            Level::Error => "ERROR",
            Level::Warn => "WARN",
            Level::Info => "INFO",
            Level::Debug => "DEBUG",
            Level::Trace => "TRACE",
        }
    }
}

/// A logger that lets through what is at least as grave as `Info` and
/// writes each message on a line of its own, after its level.
#[derive(Clone, Copy, Debug, PartialEq, Eq, Structural)]
pub struct SimpleLogger;

/// The line of the log for a message: the level, ` - `, the message.
pub open spec fn log_line(level: Level, message: Seq<char>) -> Seq<char> {
    level.name() + " - "@ + message
}

impl SimpleLogger {
    /// Whether messages of this level are let through.
    pub open spec fn lets_through(level: Level) -> bool {
        level.rank() <= Level::Info.rank()
    }

    /// Whether messages of this level are let through.
    pub fn enabled(&self, level: Level) -> (on: bool)
        ensures
            on == Self::lets_through(level),
    {
        match level {
            Level::Error | Level::Warn | Level::Info => true,
            Level::Debug | Level::Trace => false,
        }
    }

    /// The line to write for a message, if its level is let through.
    pub fn render(&self, level: Level, message: &str) -> (line: Option<String>)
        ensures
            Self::lets_through(level) ==> line is Some && line->Some_0@ == log_line(level, message@),
            !Self::lets_through(level) ==> line is None,
    {
        if !self.enabled(level) {
            return None;
        }
        let mut line = String::from_str(level.as_str());
        line.append(" - ");
        line.append(message);
        Some(line)
    }
}

} // verus!
