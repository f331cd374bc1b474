//! The theme choice carried by the application; painting it onto a
//! window is the presentation layer's business.

use vstd::prelude::*;

verus! {

/// Which palette the user asked for.
#[derive(Debug, Clone, Copy, PartialEq, Eq, Structural)]
pub enum ThemeMode {
    /// Follow the system.
    Auto,
    Light,
    Dark,
}

/// The application's current theme choice.
#[derive(Debug)]
pub struct AppTheme {
    pub mode: ThemeMode,
}

impl AppTheme {
    /// Starts out following the system.
    pub fn new() -> (r: AppTheme)
        ensures
            r.mode == ThemeMode::Auto,
    {
        AppTheme { mode: ThemeMode::Auto }
    }
}

} // verus!
