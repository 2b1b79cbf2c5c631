//! The system-integration collaborator interface: opening files and folders
//! with the platform's default handlers, and probing accessibility. The
//! process shell implements it with real process launches; tests implement
//! it with stubs. Nothing is assumed of any implementation.

use vstd::prelude::*;
use crate::error::AppError;

verus! {

/// Operations only the operating system can perform. Implementations decide
/// their own successes and failures; callers state what holds of every
/// outcome.
pub trait SystemIntegration {
    /// Open a file with its default application.
    fn open_file(&self, path: &String) -> Result<(), AppError>;

    /// Open a folder with the file manager.
    fn open_folder(&self, path: &String) -> Result<(), AppError>;

    /// Whether the path can be reached at all.
    fn is_accessible(&self, path: &String) -> bool;
}

} // verus!
