//! Configuration of the sort/filter controls shown above a file list.

use vstd::prelude::*;

verus! {

/// Which sort/filter controls are shown.
#[derive(Debug, Clone, Copy, PartialEq, Eq, Structural)]
pub struct SortFilterConfig {
    /// Show the sort toolbar.
    pub show_toolbar: bool,
    /// Show the advanced filter controls.
    pub show_advanced_filters: bool,
}

impl Default for SortFilterConfig {
    fn default() -> (r: SortFilterConfig)
        ensures
            r.show_toolbar,
            !r.show_advanced_filters,
    {
        SortFilterConfig { show_toolbar: true, show_advanced_filters: false }
    }
}

} // verus!
