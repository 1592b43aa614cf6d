//! What is logged, and where to.

use vstd::prelude::*;
use crate::text::{same_ignoring_case, unsigned_value};

verus! {

/// How much is logged. Each level includes the ones before it.
#[derive(Clone, Copy, Debug, PartialEq, Eq, Structural)]
pub enum LogLevel {
    Off,
    Error,
    Warn,
    Info,
    Debug,
    Trace,
}

impl View for LogLevel {
    type V = LogLevel;

    open spec fn view(&self) -> LogLevel {
        *self
    }
}

/// Where a message is printed.
#[derive(Clone, Copy, Debug, PartialEq, Eq, Structural)]
pub enum LogStream {
    Stdout,
    Stderr,
}

impl LogLevel {
    /// The stream that messages of the level are printed to: standard error for errors and
    /// warnings, standard output for the others. `Off` is the level of no message.
    pub open spec fn printed_to(self) -> Option<LogStream> {
        match self {
            LogLevel::Off => None,
            LogLevel::Error | LogLevel::Warn => Some(LogStream::Stderr),
            LogLevel::Info | LogLevel::Debug | LogLevel::Trace => Some(LogStream::Stdout),
        }
    }

    /// The stream for messages of the level.
    pub fn stream(self) -> (r: Option<LogStream>)
        ensures
            r == self.printed_to(),
    {
        match self {
            LogLevel::Off => None,
            LogLevel::Error | LogLevel::Warn => Some(LogStream::Stderr),
            LogLevel::Info | LogLevel::Debug | LogLevel::Trace => Some(LogStream::Stdout),
        }
    }
}

impl LogLevel {
    /// The place of the level, `Off` being the first.
    pub open spec fn rank(self) -> nat {
        match self {
            LogLevel::Off => 0,
            LogLevel::Error => 1,
            LogLevel::Warn => 2,
            LogLevel::Info => 3,
            LogLevel::Debug => 4,
            LogLevel::Trace => 5,
        }
    }

    /// Messages of the level are logged where as much is logged as the given level says.
    pub open spec fn passes(self, limit: LogLevel) -> bool {
        0 < self.rank() <= limit.rank()
    }

    fn place(self) -> (r: u8)
        ensures
            r == self.rank(),
    {
        match self {
            LogLevel::Off => 0,
            LogLevel::Error => 1,
            LogLevel::Warn => 2,
            LogLevel::Info => 3,
            LogLevel::Debug => 4,
            LogLevel::Trace => 5,
        }
    }
}

/// The stream that messages of a level are printed to, where as much is printed as `print` says.
/// There is none where they do not pass, or where nothing is printed.
pub open spec fn printed_stream(print: Option<LogLevel>, level: LogLevel) -> Option<LogStream> {
    match print {
        Some(limit) => if level.passes(limit) {
            level.printed_to()
        } else {
            None
        },
        None => None,
    }
}

/// The level that a number from 0 to 5 stands for.
pub open spec fn numbered_level(n: nat) -> Option<LogLevel> {
    if n == 0 {
        Some(LogLevel::Off)
    } else if n == 1 {
        Some(LogLevel::Error)
    } else if n == 2 {
        Some(LogLevel::Warn)
    } else if n == 3 {
        Some(LogLevel::Info)
    } else if n == 4 {
        Some(LogLevel::Debug)
    } else if n == 5 {
        Some(LogLevel::Trace)
    } else {
        None
    }
}

/// The level that a word stands for, in whatever case it is written.
pub open spec fn named_level(s: Seq<char>) -> Option<LogLevel> {
    if s.len() == 0 || same_ignoring_case(s, "error"@) {
        Some(LogLevel::Error)
    } else if same_ignoring_case(s, "warn"@) {
        Some(LogLevel::Warn)
    } else if same_ignoring_case(s, "info"@) {
        Some(LogLevel::Info)
    } else if same_ignoring_case(s, "debug"@) {
        Some(LogLevel::Debug)
    } else if same_ignoring_case(s, "trace"@) {
        Some(LogLevel::Trace)
    } else if same_ignoring_case(s, "off"@) {
        Some(LogLevel::Off)
    } else {
        None
    }
}

/// The level that a text writes, by its number or by its name.
pub open spec fn level_value(s: Seq<char>) -> Option<LogLevel> {
    match unsigned_value(s) {
        Some(n) => numbered_level(n),
        None => named_level(s),
    }
}

/// Reads a level with `<tracing::level_filters::LevelFilter as FromStr>::from_str`.
///
/// That function takes the decimal numbers from 0 to 5, and without regard to case the words
/// `off`, `error`, `warn`, `info`, `debug` and `trace`; the empty text is `error`. It fails on
/// everything else.
#[verifier::external_body]
pub(crate) fn parse_level(s: &str) -> (r: Option<LogLevel>)
    ensures
        r == level_value(s@),
{
    match s.parse::<tracing::level_filters::LevelFilter>() {
        Ok(tracing::level_filters::LevelFilter::OFF) => Some(LogLevel::Off),
        Ok(tracing::level_filters::LevelFilter::ERROR) => Some(LogLevel::Error),
        Ok(tracing::level_filters::LevelFilter::WARN) => Some(LogLevel::Warn),
        Ok(tracing::level_filters::LevelFilter::INFO) => Some(LogLevel::Info),
        Ok(tracing::level_filters::LevelFilter::DEBUG) => Some(LogLevel::Debug),
        Ok(tracing::level_filters::LevelFilter::TRACE) => Some(LogLevel::Trace),
        Err(_) => None,
    }
}

/// The settings of the log.
pub struct LoggerConfig {
    pub print_level: LogLevel,
    pub logfile_level: LogLevel,
    pub stdout_log: Option<bool>,
    pub log_path: Option<String>,
}

/// A text that may be missing.
pub open spec fn opt_text(o: Option<String>) -> Option<Seq<char>> {
    match o {
        Some(s) => Some(s@),
        None => None,
    }
}

/// Whether the log is printed: as the settings say, or else when there is no log file.
pub open spec fn is_printed(stdout_log: Option<bool>, log_path: Option<String>) -> bool {
    match stdout_log {
        Some(print) => print,
        None => log_path is None,
    }
}

/// The level to start from: the one that the environment names, or else the default of the build.
pub open spec fn starting_level(variable: Option<Seq<char>>, debug_build: bool) -> LogLevel {
    let default = if debug_build {
        LogLevel::Trace
    } else {
        LogLevel::Info
    };
    match variable {
        Some(text) => match level_value(text) {
            Some(level) => level,
            None => default,
        },
        None => default,
    }
}

impl LoggerConfig {
    /// How much is printed, where anything is.
    pub open spec fn printed_level(self) -> Option<LogLevel> {
        if is_printed(self.stdout_log, self.log_path) {
            Some(self.print_level)
        } else {
            None
        }
    }

    /// The settings before any configuration is read. `variable` is what the environment holds
    /// for the log level.
    pub fn with_environment(variable: Option<String>, debug_build: bool) -> (r: Self)
        ensures
            r.print_level == starting_level(opt_text(variable), debug_build),
            r.logfile_level == r.print_level,
            r.stdout_log is None,
            r.log_path is None,
    {
        let default = if debug_build {
            LogLevel::Trace
        } else {
            LogLevel::Info
        };
        let level = match variable {
            Some(text) => match parse_level(text.as_str()) {
                Some(level) => level,
                None => default,
            },
            None => default,
        };
        LoggerConfig { print_level: level, logfile_level: level, stdout_log: None, log_path: None }
    }

    /// Whether the log is printed.
    pub fn prints(&self) -> (r: bool)
        ensures
            r == is_printed(self.stdout_log, self.log_path),
    {
        match self.stdout_log {
            Some(print) => print,
            None => self.log_path.is_none(),
        }
    }
}

/// The file that the log goes to.
#[derive(Debug, PartialEq, Eq)]
pub enum LogFile {
    /// A new file every day, in a directory.
    Daily { directory: String, prefix: String },
    /// One file for good.
    Single { directory: String, name: String },
}

/// The file for a log path. `is_directory` is what the file system says of the path, `name` and
/// `parent` are its last component and what stands before it.
pub open spec fn log_file_value(
    path: Seq<char>,
    is_directory: bool,
    name: Option<Seq<char>>,
    parent: Option<Seq<char>>,
) -> Option<LogFileView> {
    if is_directory {
        Some(LogFileView::Daily { directory: path, prefix: "log"@ })
    } else {
        match (name, parent) {
            (Some(name), Some(directory)) => Some(LogFileView::Single { directory, name }),
            _ => None,
        }
    }
}

/// The file that the log goes to, as a value.
pub enum LogFileView {
    Daily { directory: Seq<char>, prefix: Seq<char> },
    Single { directory: Seq<char>, name: Seq<char> },
}

impl View for LogFile {
    type V = LogFileView;

    open spec fn view(&self) -> LogFileView {
        match *self {
            LogFile::Daily { directory, prefix } => LogFileView::Daily {
                directory: directory@,
                prefix: prefix@,
            },
            LogFile::Single { directory, name } => LogFileView::Single {
                directory: directory@,
                name: name@,
            },
        }
    }
}

/// What is set up for the log. What is printed and what goes to the file has a level each.
pub struct LogPlan {
    pub print: Option<LogLevel>,
    pub file: Option<(LogFile, LogLevel)>,
}

/// The stream for messages of a level, where as much is printed as `print` says.
pub fn message_stream(print: Option<LogLevel>, level: LogLevel) -> (r: Option<LogStream>)
    ensures
        r == printed_stream(print, level),
{
    match print {
        Some(limit) => if level.place() <= limit.place() {
            level.stream()
        } else {
            None
        },
        None => None,
    }
}

/// A message that passes the print level is printed to one stream: to standard error where it is an
/// error or a warning, to standard output otherwise. One that does not pass is printed to neither,
/// and where the log is not printed no message is.
pub proof fn messages_are_printed_once(config: LoggerConfig, level: LogLevel)
    ensures
        ({
            let stream = printed_stream(config.printed_level(), level);
            let printed = is_printed(config.stdout_log, config.log_path) && level.passes(
                config.print_level,
            );
            &&& stream == Some(LogStream::Stderr) <==> printed && (level is Error || level is Warn)
            &&& stream == Some(LogStream::Stdout) <==> printed && (level is Info || level is Debug
                || level is Trace)
            &&& stream is None <==> !printed
        }),
{
}

impl LoggerConfig {
    /// Decides what is set up. `is_directory`, `name` and `parent` are what there is to know of the
    /// log path.
    pub fn plan(self, is_directory: bool, name: Option<String>, parent: Option<String>) -> (r:
        LogPlan)
        ensures
            r.print == self.printed_level(),
            match r.file {
                Some((file, level)) => {
                    &&& level == self.logfile_level
                    &&& self.log_path matches Some(path) && log_file_value(
                        path@,
                        is_directory,
                        opt_text(name),
                        opt_text(parent),
                    ) == Some(file@)
                },
                None => self.log_path matches Some(path) ==> log_file_value(
                    path@,
                    is_directory,
                    opt_text(name),
                    opt_text(parent),
                ) is None,
            },
    {
        let print = if self.prints() {
            Some(self.print_level)
        } else {
            None
        };
        let file = match self.log_path {
            Some(path) => if is_directory {
                Some(
                    (
                        LogFile::Daily { directory: path, prefix: "log".to_owned() },
                        self.logfile_level,
                    ),
                )
            } else {
                match (name, parent) {
                    (Some(name), Some(directory)) => Some(
                        (LogFile::Single { directory, name }, self.logfile_level),
                    ),
                    _ => None,
                }
            },
            None => None,
        };
        LogPlan { print, file }
    }
}

} // verus!
