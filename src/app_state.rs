//! Settings shared by every screen of the application.
use vstd::prelude::*;

verus! {

/// Whether the interface is drawn dark.
#[derive(Clone, Copy, Debug, PartialEq, Eq, Structural)]
pub struct AppState {
    pub is_dark_mode: bool,
}

impl AppState {
    /// The starting settings: dark mode on.
    pub fn new() -> (r: Self)
        ensures
            r.is_dark_mode,
    {
        Self { is_dark_mode: true }
    }

    /// Switches between dark and light mode.
    pub fn toggle_dark_mode(&mut self)
        ensures
            final(self).is_dark_mode == !old(self).is_dark_mode,
    {
        self.is_dark_mode = !self.is_dark_mode;
    }
}

impl Default for AppState {
    /// Light mode.
    fn default() -> (r: Self)
        ensures
            !r.is_dark_mode,
    {
        Self { is_dark_mode: false }
    }
}

} // verus!
