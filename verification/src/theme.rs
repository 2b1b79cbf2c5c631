//! Theme selection. Concrete colour palettes belong to the rendering layer;
//! the library only tracks which variant is chosen.

use vstd::prelude::*;

verus! {

/// Which theme the user selected.
#[derive(Debug, Clone, Copy, PartialEq, Eq, Structural)]
pub enum ThemeVariant {
    Light,
    Dark,
    /// Follow the platform's setting.
    System,
}

impl Default for ThemeVariant {
    fn default() -> (r: ThemeVariant)
        ensures
            r == ThemeVariant::System,
    {
        ThemeVariant::System
    }
}

} // verus!
