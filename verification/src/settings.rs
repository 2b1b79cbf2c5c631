//! Application settings: window geometry bounds, theme choice, and the
//! default directory.

use vstd::prelude::*;
use crate::error::AppError;

verus! {

/// User-facing application settings.
#[derive(Debug)]
pub struct Settings {
    pub window_width: u32,
    pub window_height: u32,
    pub window_x: Option<i32>,
    pub window_y: Option<i32>,
    pub min_window_width: u32,
    pub min_window_height: u32,
    pub window_maximized: bool,
    pub dark_theme: bool,
    pub default_directory: Option<String>,
}

/// The fixed default settings.
pub open spec fn default_settings_spec(s: Settings) -> bool {
    &&& s.window_width == 1200
    &&& s.window_height == 800
    &&& s.window_x is None
    &&& s.window_y is None
    &&& s.min_window_width == 800
    &&& s.min_window_height == 600
    &&& !s.window_maximized
    &&& s.dark_theme
    &&& s.default_directory is None
}

impl Default for Settings {
    fn default() -> (r: Settings)
        ensures
            default_settings_spec(r),
    {
        Settings {
            window_width: 1200,
            window_height: 800,
            window_x: None,
            window_y: None,
            min_window_width: 800,
            min_window_height: 600,
            window_maximized: false,
            dark_theme: true,
            default_directory: None,
        }
    }
}

impl Clone for Settings {
    /// A clone agrees with the original on every field.
    fn clone(&self) -> (r: Settings)
        ensures
            r.window_width == self.window_width,
            r.window_height == self.window_height,
            r.window_x == self.window_x,
            r.window_y == self.window_y,
            r.min_window_width == self.min_window_width,
            r.min_window_height == self.min_window_height,
            r.window_maximized == self.window_maximized,
            r.dark_theme == self.dark_theme,
            r.default_directory == self.default_directory,
    {
        Settings {
            window_width: self.window_width,
            window_height: self.window_height,
            window_x: self.window_x,
            window_y: self.window_y,
            min_window_width: self.min_window_width,
            min_window_height: self.min_window_height,
            window_maximized: self.window_maximized,
            dark_theme: self.dark_theme,
            default_directory: match &self.default_directory {
                Some(d) => Some(d.clone()),
                None => None,
            },
        }
    }
}

impl Settings {
    /// Load the settings. Stored settings are not yet part of the format;
    /// the defaults are returned.
    pub fn load() -> (r: Result<Settings, AppError>)
        ensures
            r matches Result::Ok(s) && default_settings_spec(s),
    {
        Ok(Settings::default())
    }

    /// Persist the settings. Stored settings are not yet part of the format;
    /// nothing is written.
    pub fn save(&self) -> (r: Result<(), AppError>)
        ensures
            r is Ok,
    {
        Ok(())
    }

    /// The window width.
    pub fn window_width(&self) -> (r: u32)
        ensures
            r == self.window_width,
    {
        self.window_width
    }

    /// The window height.
    pub fn window_height(&self) -> (r: u32)
        ensures
            r == self.window_height,
    {
        self.window_height
    }

    /// The window position, horizontal then vertical.
    pub fn window_position(&self) -> (r: (Option<i32>, Option<i32>))
        ensures
            r.0 == self.window_x,
            r.1 == self.window_y,
    {
        (self.window_x, self.window_y)
    }

    /// Whether the dark theme is selected.
    pub fn is_dark_theme(&self) -> (r: bool)
        ensures
            r == self.dark_theme,
    {
        self.dark_theme
    }

    /// The minimum window size, width then height.
    pub fn min_window_size(&self) -> (r: (u32, u32))
        ensures
            r.0 == self.min_window_width,
            r.1 == self.min_window_height,
    {
        (self.min_window_width, self.min_window_height)
    }

    /// Whether the window is maximized.
    pub fn is_window_maximized(&self) -> (r: bool)
        ensures
            r == self.window_maximized,
    {
        self.window_maximized
    }

    /// Record the window's geometry and maximized flag.
    pub fn update_window_state(
        &mut self,
        width: u32,
        height: u32,
        x: Option<i32>,
        y: Option<i32>,
        maximized: bool,
    )
        ensures
            final(self).window_width == width,
            final(self).window_height == height,
            final(self).window_x == x,
            final(self).window_y == y,
            final(self).window_maximized == maximized,
            final(self).min_window_width == old(self).min_window_width,
            final(self).min_window_height == old(self).min_window_height,
            final(self).dark_theme == old(self).dark_theme,
            final(self).default_directory == old(self).default_directory,
    {
        self.window_width = width;
        self.window_height = height;
        self.window_x = x;
        self.window_y = y;
        self.window_maximized = maximized;
    }
}

} // verus!
