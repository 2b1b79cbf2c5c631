//! Application-level events and their dispatcher.

use vstd::prelude::*;
use crate::error::AppError;

verus! {

/// An application-level event.
#[derive(Debug, Clone)]
pub enum Event {
    /// A file was selected.
    FileSelected(String),
    /// The current directory changed.
    DirectoryChanged(String),
    /// A tab was created.
    TabCreated(String),
    /// A tab was closed.
    TabClosed(String),
}

/// Dispatcher for application-level events. Diagnostic output about handled
/// events is its caller's concern.
pub struct EventManager {}

impl EventManager {
    /// A fresh dispatcher.
    pub fn new() -> (r: EventManager) {
        EventManager {}
    }

    /// Handle one event; every event kind is accepted.
    pub fn handle_event(&self, event: Event) -> (r: Result<(), AppError>)
        ensures
            r is Ok,
    {
        match event {
            Event::FileSelected(_) => Ok(()),
            Event::DirectoryChanged(_) => Ok(()),
            Event::TabCreated(_) => Ok(()),
            Event::TabClosed(_) => Ok(()),
        }
    }
}

impl Default for EventManager {
    fn default() -> (r: EventManager) {
        EventManager::new()
    }
}

} // verus!
