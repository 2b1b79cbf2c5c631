//! Crash-report configuration and the data a report carries. Installing the
//! hook, writing reports to disk and the global panic flag belong to the
//! process shell.

use vstd::prelude::*;

verus! {

/// Where in the source a panic happened.
#[derive(Debug)]
pub struct PanicLocation {
    pub file: String,
    pub line: u32,
    pub column: u32,
}

impl Clone for PanicLocation {
    /// A clone is equal to the original, field for field.
    fn clone(&self) -> (r: PanicLocation)
        ensures
            r == *self,
    {
        PanicLocation { file: self.file.clone(), line: self.line, column: self.column }
    }
}

/// The thread a panic happened on.
#[derive(Debug)]
pub struct ThreadInfo {
    pub name: Option<String>,
    pub id: String,
}

impl Clone for ThreadInfo {
    /// A clone is equal to the original, field for field.
    fn clone(&self) -> (r: ThreadInfo)
        ensures
            r == *self,
    {
        ThreadInfo {
            name: match &self.name {
                Some(n) => Some(n.clone()),
                None => None,
            },
            id: self.id.clone(),
        }
    }
}

/// The machine a crash report was written on.
#[derive(Debug)]
pub struct SystemInfo {
    pub os: String,
    pub arch: String,
    pub app_version: String,
}

impl Clone for SystemInfo {
    /// A clone is equal to the original, field for field.
    fn clone(&self) -> (r: SystemInfo)
        ensures
            r == *self,
    {
        SystemInfo {
            os: self.os.clone(),
            arch: self.arch.clone(),
            app_version: self.app_version.clone(),
        }
    }
}

/// What the process does after its panic hook has run.
#[derive(Debug, Clone, Copy, PartialEq, Eq, Structural)]
pub enum PostPanicAction {
    /// Shut down in an orderly way.
    Exit,
    /// Abort at once.
    Abort,
    /// Let the default behaviour proceed.
    Continue,
}

/// How panics are handled and reported.
#[derive(Debug)]
pub struct PanicHandlerConfig {
    pub save_crash_reports: bool,
    pub crash_reports_dir: String,
    pub include_backtrace: bool,
    pub include_system_info: bool,
    pub post_panic_action: PostPanicAction,
    pub max_crash_reports: usize,
}

impl Default for PanicHandlerConfig {
    fn default() -> (r: PanicHandlerConfig)
        ensures
            r.save_crash_reports,
            r.crash_reports_dir@ == "./crash_reports"@,
            r.include_backtrace,
            r.include_system_info,
            r.post_panic_action == PostPanicAction::Exit,
            r.max_crash_reports == 10,
    {
        PanicHandlerConfig {
            save_crash_reports: true,
            crash_reports_dir: "./crash_reports".to_owned(),
            include_backtrace: true,
            include_system_info: true,
            post_panic_action: PostPanicAction::Exit,
            max_crash_reports: 10,
        }
    }
}

impl Clone for PanicHandlerConfig {
    /// A clone agrees with the original on every field.
    fn clone(&self) -> (r: PanicHandlerConfig)
        ensures
            r.save_crash_reports == self.save_crash_reports,
            r.crash_reports_dir@ == self.crash_reports_dir@,
            r.include_backtrace == self.include_backtrace,
            r.include_system_info == self.include_system_info,
            r.post_panic_action == self.post_panic_action,
            r.max_crash_reports == self.max_crash_reports,
    {
        PanicHandlerConfig {
            save_crash_reports: self.save_crash_reports,
            crash_reports_dir: self.crash_reports_dir.clone(),
            include_backtrace: self.include_backtrace,
            include_system_info: self.include_system_info,
            post_panic_action: self.post_panic_action,
            max_crash_reports: self.max_crash_reports,
        }
    }
}

} // verus!
