//! Logging configuration. Wiring a subscriber, writing log files and
//! rotating them belong to the process shell; the library only describes
//! what is wanted.

use vstd::prelude::*;

verus! {

/// The minimum severity that is logged.
#[derive(Debug, Clone, Copy, PartialEq, Eq, Structural)]
pub enum LogLevel {
    Error,
    Warn,
    Info,
    Debug,
    Trace,
}

impl LogLevel {
    /// The level as an environment-filter directive.
    pub fn to_env_filter_string(&self) -> (r: String)
        ensures
            r@ == (match *self {
                LogLevel::Error => "error"@,
                LogLevel::Warn => "warn"@,
                LogLevel::Info => "info"@,
                LogLevel::Debug => "debug"@,
                LogLevel::Trace => "trace"@,
            }),
    {
        match self {
            LogLevel::Error => "error".to_owned(),
            LogLevel::Warn => "warn".to_owned(),
            LogLevel::Info => "info".to_owned(),
            LogLevel::Debug => "debug".to_owned(),
            LogLevel::Trace => "trace".to_owned(),
        }
    }
}

/// Where log lines go.
#[derive(Debug)]
pub enum LogOutput {
    /// Standard output.
    Stdout,
    /// A single file.
    File { path: String },
    /// Rotating files under a directory.
    Rolling { directory: String, file_prefix: String, rotation: LogRotation },
}

impl Default for LogOutput {
    fn default() -> (r: LogOutput)
        ensures
            r is Stdout,
    {
        LogOutput::Stdout
    }
}

/// How often a rolling log file rotates.
#[derive(Debug, Clone, Copy, PartialEq, Eq, Structural)]
pub enum LogRotation {
    Hourly,
    Daily,
    Monthly,
}

/// The complete logging configuration.
#[derive(Debug)]
pub struct LogConfig {
    pub level: LogLevel,
    pub output: LogOutput,
    /// Include source locations in log lines.
    pub include_location: bool,
    /// Include thread names in log lines.
    pub include_thread_name: bool,
}

impl Default for LogConfig {
    fn default() -> (r: LogConfig)
        ensures
            r.level == LogLevel::Info,
            r.output is Stdout,
            r.include_location,
            !r.include_thread_name,
    {
        LogConfig {
            level: LogLevel::Info,
            output: LogOutput::default(),
            include_location: true,
            include_thread_name: false,
        }
    }
}

} // verus!
