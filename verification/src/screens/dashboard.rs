//! The dashboard: counts and sizes at a glance.
use vstd::prelude::*;

use crate::signal::{KeyCode, KeyPress, Signal};

verus! {

/// The dashboard screen; it keeps no state.
#[derive(Debug)]
pub struct DashboardScreen {}

impl DashboardScreen {
    pub fn new() -> Self {
        DashboardScreen {  }
    }

    /// `q` quits and Tab moves to the next tab; other keys do nothing.
    pub fn update(&mut self, key: KeyPress) -> (r: Option<Signal>)
        ensures
            r == match key.code {
                KeyCode::Char('q') => Some(Signal::Quit),
                KeyCode::Tab => Some(Signal::CycleTab),
                _ => None,
            },
    {
        match key.code {
            KeyCode::Char('q') => Some(Signal::Quit),
            KeyCode::Tab => Some(Signal::CycleTab),
            _ => None,
        }
    }
}

} // verus!
