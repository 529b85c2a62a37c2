//! The tab bar.
use vstd::prelude::*;

use crate::app::ViewState;

verus! {

/// The titles of the tabs, in order.
pub open spec fn tab_titles() -> Seq<Seq<char>> {
    seq!["Dashboard"@, "Installed"@, "Browse"@]
}

/// The position of the tab of `view` in the tab bar.
pub fn tab_index(view: ViewState) -> (r: usize)
    ensures
        r == match view {
            ViewState::Dashboard => 0usize,
            ViewState::InstalledPackages => 1usize,
            ViewState::AvailablePackages => 2usize,
        },
{
    match view {
        ViewState::Dashboard => 0,
        ViewState::InstalledPackages => 1,
        ViewState::AvailablePackages => 2,
    }
}

/// The titles of the tabs, in order.
pub fn tab_titles_list() -> (r: Vec<&'static str>)
    ensures
        r@.map_values(|t: &str| t@) == tab_titles(),
{
    let r = vec!["Dashboard", "Installed", "Browse"];
    assert(r@.map_values(|t: &str| t@) =~= tab_titles());
    r
}

} // verus!
