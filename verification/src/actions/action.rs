//! The actions a key can stand for.
use vstd::prelude::*;

verus! {

#[derive(Debug, Clone, Copy, PartialEq, Eq, Structural)]
pub enum Action {
    Quit,
    MoveUp,
    MoveDown,
    OpenPopup,
    ClosePopup,
    Select,
    NextSearchResult,
    PrevSearchResult,
    ChangeTab,
}

} // verus!
