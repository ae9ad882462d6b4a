//! Rendering of log lines in text and JSON form, filtered by level.
use vstd::prelude::*;
use crate::json::{push_quoted, quoted};
use crate::text::{chars_of, decimal, string_of, usize_to_string};

verus! {

/// How log lines are written.
#[derive(Debug, Clone, Copy, PartialEq, Eq, Structural)]
pub enum LogFormat {
    Text,
    Json,
}

/// The level of a log line, from the most to the least verbose.
#[derive(Debug, Clone, Copy, PartialEq, Eq, Structural)]
pub enum CommandLogLevel {
    Trace,
    Debug,
    Info,
    Error,
}

/// The size of the terminal that a command runs in.
#[derive(Debug, Clone, Copy, PartialEq, Eq, Structural)]
pub struct TerminalDimensions {
    pub columns: usize,
    pub rows: usize,
}

/// Renders the log lines of one command at or above a configured level.
pub struct CommandLogger {
    pub format: LogFormat,
    pub level: CommandLogLevel,
    pub terminal_dimensions: Option<TerminalDimensions>,
}

pub open spec fn severity_of(level: CommandLogLevel) -> u8 {
    match level {
        CommandLogLevel::Trace => 0,
        CommandLogLevel::Debug => 1,
        CommandLogLevel::Info => 2,
        CommandLogLevel::Error => 3,
    }
}

pub open spec fn level_name(level: CommandLogLevel) -> Seq<char> {
    match level {
        CommandLogLevel::Trace => "trace"@,
        CommandLogLevel::Debug => "debug"@,
        CommandLogLevel::Info => "info"@,
        CommandLogLevel::Error => "error"@,
    }
}

impl CommandLogLevel {
    /// The rank of the level: trace 0, debug 1, info 2, error 3.
    pub fn severity(self) -> (r: u8)
        ensures
            r == severity_of(self),
    {
        match self {
            CommandLogLevel::Trace => 0,
            CommandLogLevel::Debug => 1,
            CommandLogLevel::Info => 2,
            CommandLogLevel::Error => 3,
        }
    }

    /// The lower-case name of the level.
    pub fn as_str(self) -> (r: &'static str)
        ensures
            r@ == level_name(self),
    {
        match self {
            CommandLogLevel::Trace => "trace",
            CommandLogLevel::Debug => "debug",
            CommandLogLevel::Info => "info",
            CommandLogLevel::Error => "error",
        }
    }
}

/// A log line: the bare message as text, or a JSON object with the level and the message.
pub open spec fn rendered_log(format: LogFormat, level: Seq<char>, message: Seq<char>) -> Seq<char> {
    match format {
        LogFormat::Text => message,
        LogFormat::Json => "{\"level\":"@ + quoted(level) + ",\"message\":"@ + quoted(message)
            + "}"@,
    }
}

/// A line of the logger: `[level] message` as text, the JSON object otherwise.
pub open spec fn logger_line(format: LogFormat, level: CommandLogLevel, message: Seq<char>) -> Seq<
    char,
> {
    match format {
        LogFormat::Text => "["@ + level_name(level) + "] "@ + message,
        LogFormat::Json => rendered_log(format, level_name(level), message),
    }
}

/// The message that reports the terminal size.
pub open spec fn dimensions_message(d: TerminalDimensions) -> Seq<char> {
    "Using terminal dimensions: columns="@ + decimal(d.columns as nat) + " rows="@ + decimal(
        d.rows as nat,
    )
}

/// Renders one log line in the given format.
pub fn render_log(format: LogFormat, level: &str, message: &str) -> (r: String)
    ensures
        r@ == rendered_log(format, level@, message@),
{
    match format {
        LogFormat::Text => String::from_str(message),
        LogFormat::Json => {
            let mut v = chars_of("{\"level\":");
            push_quoted(level, &mut v);
            let tail = chars_of(",\"message\":");
            let mut i: usize = 0;
            let ghost before = v@;
            while i < tail.len()
                invariant
                    i <= tail.len(),
                    v@ == before + tail@.take(i as int),
                decreases tail.len() - i,
            {
                v.push(tail[i]);
                proof {
                    assert(tail@.take(i + 1) =~= tail@.take(i as int).push(tail@[i as int]));
                }
                i = i + 1;
            }
            proof {
                assert(tail@.take(tail.len() as int) =~= tail@);
            }
            push_quoted(message, &mut v);
            v.push('}');
            proof {
                reveal_strlit("}");
                assert(v@ =~= rendered_log(format, level@, message@));
            }
            string_of(&v)
        },
    }
}

impl CommandLogger {
    /// `r` is what the logger gives for `message` at `level`: nothing below the
    /// configured level, the formatted line otherwise.
    pub open spec fn renders(&self, r: Option<String>, level: CommandLogLevel, message: Seq<char>) -> bool {
        if severity_of(level) < severity_of(self.level) {
            r is None
        } else {
            r is Some && r->0@ == logger_line(self.format, level, message)
        }
    }

    /// A logger with no terminal size recorded.
    pub fn new(format: LogFormat, level: CommandLogLevel) -> (r: Self)
        ensures
            r.format == format,
            r.level == level,
            r.terminal_dimensions is None,
    {
        CommandLogger { format, level, terminal_dimensions: None }
    }

    /// The same logger with the terminal size replaced.
    pub fn with_terminal_dimensions(self, terminal_dimensions: Option<TerminalDimensions>) -> (r:
        Self)
        ensures
            r.format == self.format,
            r.level == self.level,
            r.terminal_dimensions == terminal_dimensions,
    {
        CommandLogger { format: self.format, level: self.level, terminal_dimensions }
    }

    /// The line for `message` at `level`, or `None` where the level is below the configured one.
    pub fn render(&self, level: CommandLogLevel, message: &str) -> (r: Option<String>)
        ensures
            self.renders(r, level, message@),
    {
        if level.severity() < self.level.severity() {
            return None;
        }
        match self.format {
            LogFormat::Text => {
                let mut s = String::from_str("[");
                s.append(level.as_str());
                s.append("] ");
                s.append(message);
                Some(s)
            },
            LogFormat::Json => Some(render_log(self.format, level.as_str(), message)),
        }
    }

    /// The line for an error message, if errors are shown.
    pub fn error(&self, message: &str) -> (r: Option<String>)
        ensures
            self.renders(r, CommandLogLevel::Error, message@),
    {
        self.render(CommandLogLevel::Error, message)
    }

    /// The line for an informational message, if such messages are shown.
    pub fn info(&self, message: &str) -> (r: Option<String>)
        ensures
            self.renders(r, CommandLogLevel::Info, message@),
    {
        self.render(CommandLogLevel::Info, message)
    }

    /// The line for a debug message, if such messages are shown.
    pub fn debug(&self, message: &str) -> (r: Option<String>)
        ensures
            self.renders(r, CommandLogLevel::Debug, message@),
    {
        self.render(CommandLogLevel::Debug, message)
    }

    /// The line for a trace message, if such messages are shown.
    pub fn trace(&self, message: &str) -> (r: Option<String>)
        ensures
            self.renders(r, CommandLogLevel::Trace, message@),
    {
        self.render(CommandLogLevel::Trace, message)
    }

    /// The trace line that reports the recorded terminal size, if there is one and traces are shown.
    pub fn trace_terminal_dimensions(&self) -> (r: Option<String>)
        ensures
            self.terminal_dimensions is None ==> r is None,
            self.terminal_dimensions matches Some(d) ==> self.renders(r, 
                CommandLogLevel::Trace,
                dimensions_message(d),
            ),
    {
        match self.terminal_dimensions {
            None => None,
            Some(d) => {
                let mut m = String::from_str("Using terminal dimensions: columns=");
                let c = usize_to_string(d.columns);
                m.append(c.as_str());
                m.append(" rows=");
                let r = usize_to_string(d.rows);
                m.append(r.as_str());
                self.trace(m.as_str())
            },
        }
    }
}

} // verus!
