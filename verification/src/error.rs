//! Error taxonomy shared by every component of the library, together with a
//! small in-memory error-statistics accumulator.

use vstd::prelude::*;

verus! {

/// Severity of an error, from fatal down to informational.
#[derive(Debug, Clone, Copy, PartialEq, Eq, Hash, Structural)]
pub enum ErrorSeverity {
    Fatal,
    Critical,
    Error,
    Warning,
    Info,
}

/// Broad category an error belongs to.
#[derive(Debug, Clone, Copy, PartialEq, Eq, Hash, Structural)]
pub enum ErrorCategory {
    FileSystem,
    Configuration,
    UserInterface,
    Network,
    Memory,
    System,
    UserInput,
    Internal,
}

/// Every fallible operation of the library reports one of these values.
///
/// - `NotFound`: a missing tab or pane identifier, a missing state file, or a
///   missing backup.
/// - `InvalidPath`: a navigation target that is absent, not a directory, or
///   inaccessible; carries the offending path.
/// - `Io`: an underlying filesystem failure.
/// - `Serialization`: malformed or unencodable persisted content.
/// - `Internal`: a violated structural invariant, such as a malformed
///   filename encountered while building a backup name.
#[derive(Debug, Clone, PartialEq, Eq)]
pub enum AppError {
    NotFound(String),
    InvalidPath(String),
    Io(String),
    Serialization(String),
    Internal(String),
}

impl AppError {
    /// A human-readable account of the error: its kind, a colon, and the
    /// carried detail.
    pub fn describe(&self) -> (r: String)
        ensures
            r@ == (match *self {
                AppError::NotFound(ref m) => "not found: "@ + m@,
                AppError::InvalidPath(ref p) => "invalid path: "@ + p@,
                AppError::Io(ref m) => "I/O error: "@ + m@,
                AppError::Serialization(ref m) => "serialization error: "@ + m@,
                AppError::Internal(ref m) => "internal error: "@ + m@,
            }),
    {
        match self {
            AppError::NotFound(m) => "not found: ".to_owned().concat(m.as_str()),
            AppError::InvalidPath(p) => "invalid path: ".to_owned().concat(p.as_str()),
            AppError::Io(m) => "I/O error: ".to_owned().concat(m.as_str()),
            AppError::Serialization(m) => "serialization error: ".to_owned().concat(m.as_str()),
            AppError::Internal(m) => "internal error: ".to_owned().concat(m.as_str()),
        }
    }
}

/// Result alias used throughout the library.
pub type AppResult<T> = Result<T, AppError>;

/// Running counters over reported errors, grouped by severity.
#[derive(Debug, Clone, PartialEq, Eq, Structural)]
pub struct ErrorStatistics {
    pub total_errors: u64,
    pub fatal_count: u64,
    pub critical_count: u64,
    pub error_count: u64,
    pub warning_count: u64,
    pub info_count: u64,
}

impl ErrorStatistics {
    /// The counters are consistent: the total is the sum of the groups.
    pub open spec fn wf(self) -> bool {
        self.total_errors == self.fatal_count + self.critical_count + self.error_count
            + self.warning_count + self.info_count
    }

    /// A fresh accumulator with every counter at zero.
    pub fn new() -> (r: ErrorStatistics)
        ensures
            r.wf(),
            r.total_errors == 0,
            r.fatal_count == 0,
            r.critical_count == 0,
            r.error_count == 0,
            r.warning_count == 0,
            r.info_count == 0,
    {
        ErrorStatistics {
            total_errors: 0,
            fatal_count: 0,
            critical_count: 0,
            error_count: 0,
            warning_count: 0,
            info_count: 0,
        }
    }

    /// Record one error of the given severity, bumping its group and the total.
    pub fn record(&mut self, severity: ErrorSeverity)
        requires
            old(self).wf(),
            old(self).total_errors < u64::MAX,
        ensures
            final(self).wf(),
            final(self).total_errors == old(self).total_errors + 1,
            final(self).count_for(severity) == old(self).count_for(severity) + 1,
    {
        self.total_errors = self.total_errors + 1;
        match severity {
            ErrorSeverity::Fatal => {
                self.fatal_count = self.fatal_count + 1;
            }
            ErrorSeverity::Critical => {
                self.critical_count = self.critical_count + 1;
            }
            ErrorSeverity::Error => {
                self.error_count = self.error_count + 1;
            }
            ErrorSeverity::Warning => {
                self.warning_count = self.warning_count + 1;
            }
            ErrorSeverity::Info => {
                self.info_count = self.info_count + 1;
            }
        }
    }

    /// The count recorded for one severity group.
    pub open spec fn count_for(self, severity: ErrorSeverity) -> u64 {
        match severity {
            ErrorSeverity::Fatal => self.fatal_count,
            ErrorSeverity::Critical => self.critical_count,
            ErrorSeverity::Error => self.error_count,
            ErrorSeverity::Warning => self.warning_count,
            ErrorSeverity::Info => self.info_count,
        }
    }

    /// Executable accessor for one severity group.
    pub fn get_error_count_by_severity(&self, severity: ErrorSeverity) -> (r: u64)
        ensures
            r == self.count_for(severity),
    {
        match severity {
            ErrorSeverity::Fatal => self.fatal_count,
            ErrorSeverity::Critical => self.critical_count,
            ErrorSeverity::Error => self.error_count,
            ErrorSeverity::Warning => self.warning_count,
            ErrorSeverity::Info => self.info_count,
        }
    }

    /// Clear every counter.
    pub fn reset(&mut self)
        ensures
            final(self).wf(),
            final(self).total_errors == 0,
            final(self).fatal_count == 0,
            final(self).critical_count == 0,
            final(self).error_count == 0,
            final(self).warning_count == 0,
            final(self).info_count == 0,
    {
        self.total_errors = 0;
        self.fatal_count = 0;
        self.critical_count = 0;
        self.error_count = 0;
        self.warning_count = 0;
        self.info_count = 0;
    }

    /// True when more than one tenth of all recorded errors were critical or
    /// fatal; false when nothing has been recorded.
    pub fn is_critical_error_rate_high(&self) -> (r: bool)
        requires
            self.wf(),
        ensures
            r == (self.total_errors > 0 && 10 * (self.fatal_count + self.critical_count)
                > self.total_errors),
    {
        if self.total_errors == 0 {
            return false;
        }
        let weighted: u128 = 10u128 * (self.fatal_count as u128 + self.critical_count as u128);
        weighted > self.total_errors as u128
    }
}

impl Default for ErrorStatistics {
    fn default() -> (r: ErrorStatistics)
        ensures
            r.wf(),
            r.total_errors == 0,
            r.fatal_count == 0,
            r.critical_count == 0,
            r.error_count == 0,
            r.warning_count == 0,
            r.info_count == 0,
    {
        ErrorStatistics::new()
    }
}

} // verus!
