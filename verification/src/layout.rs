//! Responsive layout categories. The pixel thresholds that map a window
//! width to a category live with the rendering layer.

use vstd::prelude::*;

verus! {

/// The size class of the window, from narrowest to widest.
#[derive(Debug, Clone, Copy, PartialEq, Eq, Structural)]
pub enum ScreenSizeCategory {
    XSmall,
    Small,
    Medium,
    Large,
}

/// The size class for a window width in pixels: below 768 is extra small,
/// below 1024 small, below 1440 medium, anything wider large.
pub fn categorize_width(width: u32) -> (r: ScreenSizeCategory)
    ensures
        r == (if width < 768 {
            ScreenSizeCategory::XSmall
        } else if width < 1024 {
            ScreenSizeCategory::Small
        } else if width < 1440 {
            ScreenSizeCategory::Medium
        } else {
            ScreenSizeCategory::Large
        }),
{
    if width < 768 {
        ScreenSizeCategory::XSmall
    } else if width < 1024 {
        ScreenSizeCategory::Small
    } else if width < 1440 {
        ScreenSizeCategory::Medium
    } else {
        ScreenSizeCategory::Large
    }
}

} // verus!
