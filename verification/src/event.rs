//! Key handling for the tabs without a screen of their own.
use vstd::prelude::*;

use crate::app::{App, ViewState, next_view};
use crate::signal::{KeyCode, KeyPress};

verus! {

/// Handles a key press on the application; true asks the program to end. On the
/// dashboard and the Browse tab, `q` ends the program and Tab moves to the next tab;
/// the tab of installed packages ignores keys here.
pub fn handle_event(app: &mut App, key: KeyPress) -> (r: bool)
    ensures
        ({
            let handled = old(app).current_view() != ViewState::InstalledPackages;
            &&& r == (handled && key.code == KeyCode::Char('q'))
            &&& final(app).current_view() == (if handled && key.code == KeyCode::Tab {
                next_view(old(app).current_view())
            } else {
                old(app).current_view()
            })
            &&& final(app).portage_view() == old(app).portage_view()
            &&& final(app).installed_screen_view() == old(app).installed_screen_view()
        }),
{
    match app.view_state() {
        ViewState::Dashboard => {
            if handle_dashboard_keybinds(key, app) {
                return true;
            }
        },
        ViewState::InstalledPackages => {},
        ViewState::AvailablePackages => {
            if handle_available_packages_keybinds(key, app) {
                return true;
            }
        },
    }
    false
}

fn handle_available_packages_keybinds(key: KeyPress, app: &mut App) -> (r: bool)
    ensures
        r == (key.code == KeyCode::Char('q')),
        final(app).current_view() == (if key.code == KeyCode::Tab {
            next_view(old(app).current_view())
        } else {
            old(app).current_view()
        }),
        final(app).portage_view() == old(app).portage_view(),
        final(app).installed_screen_view() == old(app).installed_screen_view(),
{
    match key.code {
        KeyCode::Char('q') => return true,
        KeyCode::Tab => app.cycle_current_tab(),
        _ => {},
    }
    false
}

fn handle_dashboard_keybinds(key: KeyPress, app: &mut App) -> (r: bool)
    ensures
        r == (key.code == KeyCode::Char('q')),
        final(app).current_view() == (if key.code == KeyCode::Tab {
            next_view(old(app).current_view())
        } else {
            old(app).current_view()
        }),
        final(app).portage_view() == old(app).portage_view(),
        final(app).installed_screen_view() == old(app).installed_screen_view(),
{
    match key.code {
        KeyCode::Char('q') => return true,
        KeyCode::Tab => app.cycle_current_tab(),
        _ => {},
    }
    false
}

} // verus!
