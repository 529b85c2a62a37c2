//! The application: the screens, the tab on show, and what a key does.
use vstd::prelude::*;

use crate::gentoo::portage::Portage;
use crate::screens::dashboard::DashboardScreen;
use crate::screens::installed_packages::{InstalledPackagesScreen, installed_step};
use crate::signal::{KeyCode, KeyPress, Signal};

verus! {

/// The tab on show.
#[derive(Debug, Clone, Copy, PartialEq, Eq, Structural)]
pub enum ViewState {
    Dashboard,
    InstalledPackages,
    AvailablePackages,
}

/// How far the loading of the packages that the repositories offer has come.
#[derive(Debug, Clone, Copy, PartialEq, Eq, Structural)]
pub enum LoadingState {
    Idle,
    Loading,
    Complete,
    Error,
}

/// The tab after `v`: Dashboard, then Installed, then Browse, then Dashboard again.
pub open spec fn next_view(v: ViewState) -> ViewState {
    match v {
        ViewState::Dashboard => ViewState::InstalledPackages,
        ViewState::InstalledPackages => ViewState::AvailablePackages,
        ViewState::AvailablePackages => ViewState::Dashboard,
    }
}

/// What the tabs without a screen of their own do with a key: `q` quits, Tab moves on.
pub open spec fn fallback_signal(key: KeyPress) -> Option<Signal> {
    match key.code {
        KeyCode::Char('q') => Some(Signal::Quit),
        KeyCode::Tab => Some(Signal::CycleTab),
        _ => None,
    }
}

#[derive(Debug)]
pub struct App {
    portage: Portage,
    installed_package_screen: InstalledPackagesScreen,
    dashboard_screen: DashboardScreen,
    view: ViewState,
}

impl App {
    /// The tab on show.
    pub closed spec fn current_view(&self) -> ViewState {
        self.view
    }

    /// The portage data.
    pub closed spec fn portage_view(&self) -> Portage {
        self.portage
    }

    /// The screen of installed packages.
    pub closed spec fn installed_screen_view(&self) -> InstalledPackagesScreen {
        self.installed_package_screen
    }

    /// Starts on the dashboard.
    pub fn new(portage: Portage) -> (r: Self)
        ensures
            r.current_view() == ViewState::Dashboard,
            r.portage_view() == portage,
            r.installed_screen_view().is_initial(),
    {
        App {
            portage,
            dashboard_screen: DashboardScreen::new(),
            installed_package_screen: InstalledPackagesScreen::new(),
            view: ViewState::Dashboard,
        }
    }

    /// The tab on show.
    pub fn view_state(&self) -> (r: ViewState)
        ensures
            r == self.current_view(),
    {
        self.view
    }

    /// The portage data.
    pub fn portage(&self) -> (r: &Portage)
        ensures
            *r == self.portage_view(),
    {
        &self.portage
    }

    /// The screen of installed packages.
    pub fn installed_screen(&self) -> (r: &InstalledPackagesScreen)
        ensures
            *r == self.installed_screen_view(),
    {
        &self.installed_package_screen
    }

    /// The screen of installed packages, to change.
    pub fn installed_screen_mut(&mut self) -> (r: &mut InstalledPackagesScreen)
        ensures
            *r == old(self).installed_screen_view(),
            final(self).installed_screen_view() == *final(r),
            final(self).current_view() == old(self).current_view(),
            final(self).portage_view() == old(self).portage_view(),
    {
        &mut self.installed_package_screen
    }

    /// Shows the next tab.
    pub fn cycle_current_tab(&mut self)
        ensures
            final(self).current_view() == next_view(old(self).current_view()),
            final(self).portage_view() == old(self).portage_view(),
            final(self).installed_screen_view() == old(self).installed_screen_view(),
    {
        match self.view {
            ViewState::Dashboard => self.view = ViewState::InstalledPackages,
            ViewState::InstalledPackages => self.view = ViewState::AvailablePackages,
            ViewState::AvailablePackages => self.view = ViewState::Dashboard,
        }
    }

    /// Handles a key press; true asks the program to end. The tab of installed
    /// packages gives the key to its screen; the other tabs quit on `q` and move on on
    /// Tab. The screen's request is then carried out.
    pub fn update(&mut self, key: KeyPress) -> (r: bool)
        requires
            old(self).current_view() == ViewState::InstalledPackages ==> old(self).installed_screen_view().update_allowed(key),
        ensures
            ({
                let (screen, signal) = if old(self).current_view() == ViewState::InstalledPackages {
                    installed_step(old(self).installed_screen_view()@, key, &old(self).portage_view())
                } else {
                    (old(self).installed_screen_view()@, fallback_signal(key))
                };
                &&& final(self).portage_view() == old(self).portage_view()
                &&& final(self).installed_screen_view()@ == screen
                &&& r == (signal == Some(Signal::Quit))
                &&& final(self).current_view() == (if signal == Some(Signal::CycleTab) {
                    next_view(old(self).current_view())
                } else {
                    old(self).current_view()
                })
            }),
    {
        let signal = match self.view {
            ViewState::InstalledPackages => self.installed_package_screen.update(key, &self.portage),
            _ => match key.code {
                KeyCode::Char('q') => Some(Signal::Quit),
                KeyCode::Tab => Some(Signal::CycleTab),
                _ => None,
            },
        };
        match signal {
            Some(Signal::Quit) => true,
            Some(Signal::CycleTab) => {
                self.cycle_current_tab();
                false
            },
            None => false,
        }
    }
}

} // verus!

verus! {

/// Tab goes round the three tabs: each press shows another tab, and the third brings
/// back the first.
pub proof fn law_tab_cycle(v: ViewState)
    ensures
        next_view(v) != v,
        next_view(next_view(v)) != v,
        next_view(next_view(next_view(v))) == v,
{
}

} // verus!
