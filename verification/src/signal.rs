//! What screens ask of the application, and what reaches them.
use vstd::prelude::*;

use crate::app::LoadingState;

verus! {

/// A request from a screen to the application.
#[derive(Debug, Clone, Copy, PartialEq, Eq, Structural)]
pub enum Signal {
    Quit,
    CycleTab,
}

/// The keys that the screens tell apart.
#[derive(Debug, Clone, Copy, PartialEq, Eq, Structural)]
pub enum KeyCode {
    Char(char),
    Tab,
    Esc,
    Enter,
    Other,
}

/// A key press: the key, and whether Control, and no other modifier, was held.
#[derive(Debug, Clone, Copy, PartialEq, Eq, Structural)]
pub struct KeyPress {
    pub code: KeyCode,
    pub control: bool,
}

/// What reaches a screen: a key press, or news of the loading of the packages that
/// the repositories offer.
#[derive(Debug, Clone, Copy, PartialEq, Eq, Structural)]
pub enum Event {
    KeyEvent(KeyPress),
    LoadStateUpdate(LoadingState),
}

} // verus!
