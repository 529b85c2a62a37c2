//! The screen of installed packages: a list, filtered to the world set or not, a
//! search popup, and the flags and metadata of the selected package.
use vstd::prelude::*;

use crate::gentoo::package::{InstalledPackage, PackageKey};
use crate::gentoo::portage::{Portage, derefs, first_with_key, in_world, installed_key};
use crate::signal::{KeyCode, KeyPress, Signal};
use crate::widgets::list_state::ListSelection;
use crate::widgets::search_popup::{key_matches, lemma_all_match_first_hit, key_refs_view, law_search_hits_exact, matching_positions, search_hits};

verus! {

/// The keys of installed packages, in order.
pub open spec fn installed_keys(s: Seq<InstalledPackage>) -> Seq<(Seq<char>, Seq<char>)> {
    s.map_values(|p: InstalledPackage| p.atom@)
}

/// The first of a list of positions, if any.
pub open spec fn first_hit(hits: Seq<usize>) -> Option<usize> {
    if hits.len() > 0 {
        Some(hits[0])
    } else {
        None
    }
}

/// The keys of installed packages, in order.
pub fn keys_of_installed<'a>(packages: &Vec<&'a InstalledPackage>) -> (r: Vec<&'a PackageKey>)
    ensures
        key_refs_view(r@) == installed_keys(derefs(packages@)),
{
    let ghost all = installed_keys(derefs(packages@));
    let mut keys: Vec<&PackageKey> = Vec::new();
    let n = packages.len();
    let mut i: usize = 0;
    while i < n
        invariant
            n == packages@.len(),
            all == installed_keys(derefs(packages@)),
            i <= n,
            key_refs_view(keys@) =~= all.take(i as int),
        decreases n - i,
    {
        let ghost before = keys@;
        keys.push(&packages[i].atom);
        assert(key_refs_view(keys@) =~= key_refs_view(before).push(packages@[i as int].atom@));
        assert(all.take(i + 1) =~= all.take(i as int).push(all[i as int]));
        i = i + 1;
    }
    assert(all.take(n as int) =~= all);
    keys
}

/// The search popup of the installed-packages screen.
#[derive(Debug)]
pub struct SearchPopup {
    pub visible: bool,
    /// The text typed into the popup.
    pub query: String,
    /// The first match of the last search.
    pub result: Option<usize>,
}

impl SearchPopup {
    pub fn new() -> (r: Self)
        ensures
            !r.visible,
            r.query@ == Seq::<char>::empty(),
            r.result is None,
    {
        SearchPopup { visible: false, query: String::new(), result: None }
    }

    /// Shows a hidden popup, hides a shown one, and empties the query.
    pub fn toggle(&mut self)
        ensures
            final(self).visible == !old(self).visible,
            final(self).query@ == Seq::<char>::empty(),
            final(self).result == old(self).result,
    {
        self.visible = !self.visible;
        self.query = String::new();
    }

    /// The position of the first package whose key matches the query; it is kept as
    /// the result.
    pub fn search(&mut self, packages: Vec<&InstalledPackage>) -> (r: Option<usize>)
        ensures
            r == first_hit(search_hits(installed_keys(derefs(packages@)), old(self).query@)),
            final(self).result == r,
            final(self).visible == old(self).visible,
            final(self).query@ == old(self).query@,
            old(self).query@.len() == 0 && packages@.len() > 0 ==> r == Some(0usize),
    {
        let keys = keys_of_installed(&packages);
        let hits = matching_positions(&keys, self.query.as_str());
        proof {
            if self.query@.len() == 0 && packages@.len() > 0 {
                lemma_all_match_first_hit(key_refs_view(keys@), self.query@);
            }
        }
        let r = if hits.len() > 0 {
            Some(hits[0])
        } else {
            None
        };
        self.result = r;
        r
    }
}

/// Which installed packages the list shows.
#[derive(Debug, Clone, Copy, PartialEq, Eq, Structural)]
pub enum FilterState {
    Unfiltered,
    WorldSet,
}

/// The state of the screen, as the contracts speak of it.
pub struct InstalledScreenView {
    pub selected: Option<usize>,
    pub filter: FilterState,
    pub popup_visible: bool,
    pub query: Seq<char>,
    pub result: Option<usize>,
}

/// The keys of the packages that the list shows under `filter`.
pub open spec fn listed_keys(filter: FilterState, repo: &Portage) -> Seq<(Seq<char>, Seq<char>)> {
    match filter {
        FilterState::Unfiltered => installed_keys(repo.installed_seq()),
        FilterState::WorldSet => installed_keys(in_world(repo.installed_seq(), repo.world_view())),
    }
}

/// The position the list is on: the selected one, or the first where none is.
pub open spec fn position(selected: Option<usize>) -> usize {
    match selected {
        Some(i) => i,
        None => 0,
    }
}

/// The screen after a key press, and what it asks of the application.
///
/// With the popup shown, Esc hides it; Enter searches, hides the popup and moves the
/// list to the first match; any other key (which the popup's text field took) searches
/// and moves the list to the first match. Otherwise, with Control, `d` moves thirty
/// items down and `u` thirty up (stopping at the first); without it, `q` quits, Tab
/// moves to the next tab, `j` and `k` move down and up, `/` shows the popup and `f`
/// switches between all installed packages and the world set, back at the first item.
pub open spec fn installed_step(v: InstalledScreenView, key: KeyPress, repo: &Portage) -> (InstalledScreenView, Option<Signal>) {
    if v.popup_visible {
        let hit = first_hit(search_hits(listed_keys(v.filter, repo), v.query));
        let moved = match hit {
            Some(i) => Some(i),
            None => v.selected,
        };
        match key.code {
            KeyCode::Esc => (InstalledScreenView { popup_visible: false, query: seq![], ..v }, None),
            KeyCode::Enter => (InstalledScreenView { popup_visible: false, query: seq![], result: hit, selected: moved, ..v }, None),
            _ => (InstalledScreenView { result: hit, selected: moved, ..v }, None),
        }
    } else if key.control {
        match key.code {
            KeyCode::Char('d') => (InstalledScreenView { selected: Some((position(v.selected) + 30) as usize), ..v }, None),
            KeyCode::Char('u') => (InstalledScreenView {
                selected: match v.selected {
                    Some(s) => Some(if s < 30 { 0usize } else { (s - 30) as usize }),
                    None => None,
                },
                ..v
            }, None),
            _ => (v, None),
        }
    } else {
        match key.code {
            KeyCode::Char('q') => (v, Some(Signal::Quit)),
            KeyCode::Tab => (v, Some(Signal::CycleTab)),
            KeyCode::Char('j') => (InstalledScreenView {
                selected: Some(match v.selected {
                    Some(i) => if i == usize::MAX { usize::MAX } else { (i + 1) as usize },
                    None => 0usize,
                }),
                ..v
            }, None),
            KeyCode::Char('k') => (InstalledScreenView {
                selected: Some(match v.selected {
                    Some(i) => if i == 0 { 0usize } else { (i - 1) as usize },
                    None => usize::MAX,
                }),
                ..v
            }, None),
            KeyCode::Char('/') => (InstalledScreenView { popup_visible: true, query: seq![], ..v }, None),
            KeyCode::Char('f') => (InstalledScreenView {
                selected: Some(0usize),
                filter: match v.filter {
                    FilterState::Unfiltered => FilterState::WorldSet,
                    FilterState::WorldSet => FilterState::Unfiltered,
                },
                ..v
            }, None),
            _ => (v, None),
        }
    }
}

/// The screen of installed packages.
#[derive(Debug)]
pub struct InstalledPackagesScreen {
    list_state: ListSelection,
    filter_state: FilterState,
    search_popup: SearchPopup,
}

impl View for InstalledPackagesScreen {
    type V = InstalledScreenView;

    closed spec fn view(&self) -> InstalledScreenView {
        InstalledScreenView {
            selected: self.list_state.selected,
            filter: self.filter_state,
            popup_visible: self.search_popup.visible,
            query: self.search_popup.query@,
            result: self.search_popup.result,
        }
    }
}

impl InstalledPackagesScreen {
    /// The state in which the screen starts.
    pub open spec fn is_initial(&self) -> bool {
        &&& self@.selected == Some(0usize)
        &&& self@.filter == FilterState::Unfiltered
        &&& !self@.popup_visible
        &&& self@.query == Seq::<char>::empty()
        &&& self@.result is None
    }

    /// The list on its first item, all installed packages, the popup hidden.
    pub fn new() -> (r: Self)
        ensures
            r.is_initial(),
    {
        InstalledPackagesScreen {
            list_state: ListSelection::first(),
            filter_state: FilterState::Unfiltered,
            search_popup: SearchPopup::new(),
        }
    }

    /// Where `update` can run: Control-`d` must not move the list past the last index
    /// that `usize` holds.
    pub open spec fn update_allowed(&self, key: KeyPress) -> bool {
        !self@.popup_visible && key.control && key.code == KeyCode::Char('d') ==> position(self@.selected) + 30 <= usize::MAX
    }

    /// Switches between all installed packages and the world set, back at the first
    /// item.
    pub fn cycle_filter(&mut self)
        ensures
            final(self)@ == (InstalledScreenView {
                selected: Some(0usize),
                filter: match old(self)@.filter {
                    FilterState::Unfiltered => FilterState::WorldSet,
                    FilterState::WorldSet => FilterState::Unfiltered,
                },
                ..old(self)@
            }),
    {
        self.list_state.select(Some(0));
        self.filter_state = match self.filter_state {
            FilterState::Unfiltered => FilterState::WorldSet,
            FilterState::WorldSet => FilterState::Unfiltered,
        };
    }

    fn listed_packages<'a>(&self, repo: &'a Portage) -> (r: Vec<&'a InstalledPackage>)
        ensures
            installed_keys(derefs(r@)) == listed_keys(self.filter_state, repo),
    {
        match self.filter_state {
            FilterState::Unfiltered => repo.installed_packages(),
            FilterState::WorldSet => repo.world_packages(),
        }
    }

    /// Handles a key press, as [`installed_step`] says, and gives the screen's request.
    pub fn update(&mut self, key: KeyPress, repo: &Portage) -> (r: Option<Signal>)
        requires
            old(self).update_allowed(key),
        ensures
            (final(self)@, r) == installed_step(old(self)@, key, repo),
    {
        if self.search_popup.visible {
            let packages = self.listed_packages(repo);
            match key.code {
                KeyCode::Esc => self.search_popup.toggle(),
                KeyCode::Enter => {
                    let result = self.search_popup.search(packages);
                    self.search_popup.toggle();
                    if let Some(index) = result {
                        self.list_state.select(Some(index));
                    }
                },
                _ => {
                    let result = self.search_popup.search(packages);
                    if let Some(index) = result {
                        self.list_state.select(Some(index));
                    }
                },
            }
        } else if key.control {
            match key.code {
                KeyCode::Char('d') => {
                    let at = match self.list_state.selected() {
                        Some(i) => i,
                        None => 0,
                    };
                    self.list_state.select(Some(at + 30));
                },
                KeyCode::Char('u') => {
                    if let Some(selected) = self.list_state.selected() {
                        if selected < 30 {
                            self.list_state.select(Some(0));
                        } else {
                            self.list_state.select(Some(selected - 30));
                        }
                    }
                },
                _ => {},
            }
        } else {
            match key.code {
                KeyCode::Char('q') => return Some(Signal::Quit),
                KeyCode::Tab => return Some(Signal::CycleTab),
                KeyCode::Char('j') => self.list_state.select_next(),
                KeyCode::Char('k') => self.list_state.select_previous(),
                KeyCode::Char('/') => self.search_popup.toggle(),
                KeyCode::Char('f') => self.cycle_filter(),
                _ => {},
            }
        }
        None
    }

    /// Whether a key goes to the popup's text field before `update` sees it: so it is
    /// while the popup shows, for every key but Esc and Enter.
    pub fn routes_to_search_input(&self, key: KeyPress) -> (r: bool)
        ensures
            r == (self@.popup_visible && key.code != KeyCode::Esc && key.code != KeyCode::Enter),
    {
        self.search_popup.visible && key.code != KeyCode::Esc && key.code != KeyCode::Enter
    }

    /// Sets the text in the popup's field, as the user typed it.
    pub fn set_search_query(&mut self, text: String)
        ensures
            final(self)@ == (InstalledScreenView { query: text@, ..old(self)@ }),
    {
        self.search_popup.query = text;
    }

    /// Whether the popup shows.
    pub fn search_visible(&self) -> (r: bool)
        ensures
            r == self@.popup_visible,
    {
        self.search_popup.visible
    }

    /// Whether the last search found a package.
    pub fn search_found(&self) -> (r: bool)
        ensures
            r == (self@.result is Some),
    {
        self.search_popup.result.is_some()
    }

    /// The selected index of the list.
    pub fn selected(&self) -> (r: Option<usize>)
        ensures
            r == self@.selected,
    {
        self.list_state.selected()
    }

    /// Takes the selection that drawing the list left.
    pub fn set_selected(&mut self, index: Option<usize>)
        ensures
            final(self)@ == (InstalledScreenView { selected: index, ..old(self)@ }),
    {
        self.list_state.select(index);
    }

    /// The keys of the packages that the list shows.
    pub fn list_items<'a>(&self, repo: &'a Portage) -> (r: Vec<&'a PackageKey>)
        ensures
            key_refs_view(r@) == listed_keys(self@.filter, repo),
    {
        let packages = self.listed_packages(repo);
        keys_of_installed(&packages)
    }

    /// The title of the list.
    pub fn title(&self) -> (r: &'static str)
        ensures
            self@.filter == FilterState::Unfiltered ==> r@ == "Installed packages"@,
            self@.filter == FilterState::WorldSet ==> r@ == "World packages"@,
    {
        match self.filter_state {
            FilterState::Unfiltered => "Installed packages",
            FilterState::WorldSet => "World packages",
        }
    }

    /// The installed package whose key stands at the list's position; the first one
    /// of that key, and none past the end of the list.
    pub fn selected_package<'a>(&self, repo: &'a Portage) -> (r: Option<&'a InstalledPackage>)
        ensures
            ({
                let keys = listed_keys(self@.filter, repo);
                let at = position(self@.selected);
                if at < keys.len() {
                    match first_with_key(repo.installed_seq(), keys[at as int], |p: InstalledPackage| installed_key(p)) {
                        Some(i) => r == Some(&repo.installed_seq()[i]),
                        None => r is None,
                    }
                } else {
                    r is None
                }
            }),
    {
        let items = self.list_items(repo);
        let at = match self.list_state.selected() {
            Some(i) => i,
            None => 0,
        };
        if at < items.len() {
            repo.get_installed_package_key(items[at])
        } else {
            None
        }
    }
}

} // verus!

verus! {

/// A plain key press of `c`, with no modifier.
pub open spec fn plain(c: char) -> KeyPress {
    KeyPress { code: KeyCode::Char(c), control: false }
}

/// Pressing `f` twice shows the same packages as before, on the first item.
pub proof fn law_filter_twice(v: InstalledScreenView, repo: &Portage)
    requires
        !v.popup_visible,
    ensures
        ({
            let (once, s1) = installed_step(v, plain('f'), repo);
            let (twice, s2) = installed_step(once, plain('f'), repo);
            &&& once.filter != v.filter
            &&& twice == (InstalledScreenView { selected: Some(0usize), ..v })
            &&& s1 is None && s2 is None
        }),
{
}

/// Moving down with `j` and back up with `k` comes back to the item one started on,
/// unless that item was at the very end of what an index can hold.
pub proof fn law_down_then_up(v: InstalledScreenView, repo: &Portage, i: usize)
    requires
        !v.popup_visible,
        v.selected == Some(i),
        i < usize::MAX,
    ensures
        installed_step(installed_step(v, plain('j'), repo).0, plain('k'), repo).0 == v,
{
}

/// Moving up with `k` and back down with `j` comes back to the item one started on,
/// unless one started on the first item.
pub proof fn law_up_then_down(v: InstalledScreenView, repo: &Portage, i: usize)
    requires
        !v.popup_visible,
        v.selected == Some(i),
        i > 0,
    ensures
        installed_step(installed_step(v, plain('k'), repo).0, plain('j'), repo).0 == v,
{
}

/// Opening the search popup with `/` and closing it with Esc leaves the list where it
/// was, with an empty query.
pub proof fn law_open_then_escape(v: InstalledScreenView, repo: &Portage)
    requires
        !v.popup_visible,
    ensures
        installed_step(installed_step(v, plain('/'), repo).0, KeyPress { code: KeyCode::Esc, control: false }, repo).0
            == (InstalledScreenView { query: seq![], ..v }),
{
}

/// A search that finds something puts the list on the first listed package whose
/// key holds the query; one that finds nothing leaves the list where it was.
pub proof fn law_search_lands_on_first_match(v: InstalledScreenView, repo: &Portage)
    requires
        v.popup_visible,
        listed_keys(v.filter, repo).len() <= usize::MAX,
    ensures
        ({
            let keys = listed_keys(v.filter, repo);
            let after = installed_step(v, KeyPress { code: KeyCode::Enter, control: false }, repo).0;
            match after.result {
                Some(i) => {
                    &&& after.selected == Some(i)
                    &&& i < keys.len()
                    &&& key_matches(keys[i as int], v.query)
                    &&& forall|j: int| 0 <= j < i ==> !key_matches(#[trigger] keys[j], v.query)
                },
                None => {
                    &&& after.selected == v.selected
                    &&& forall|j: int| 0 <= j < keys.len() ==> !key_matches(#[trigger] keys[j], v.query)
                },
            }
        }),
{
    let keys = listed_keys(v.filter, repo);
    let hits = search_hits(keys, v.query);
    law_search_hits_exact(keys, v.query);
    if hits.len() > 0 {
        assert forall|j: int| 0 <= j < hits[0] implies !key_matches(#[trigger] keys[j], v.query) by {
            if key_matches(keys[j], v.query) {
                let k = choose|k: int| 0 <= k < hits.len() && hits[k] == j as usize;
                if k > 0 {
                    assert(hits[0] < hits[k]);
                }
            }
        }
    } else {
        assert forall|j: int| 0 <= j < keys.len() implies !key_matches(#[trigger] keys[j], v.query) by {
            if key_matches(keys[j], v.query) {
                assert(hits.contains(j as usize));
            }
        }
    }
}

} // verus!

verus! {

/// The installed-packages screen asks to quit only on `q` and to move to the next tab
/// only on Tab, both without Control and with the search popup hidden; every other key
/// asks nothing.
pub proof fn law_installed_signals(v: InstalledScreenView, key: KeyPress, repo: &Portage)
    ensures
        ({
            let r = installed_step(v, key, repo).1;
            &&& (r == Some(Signal::Quit)) <==> (!v.popup_visible && !key.control && key.code == KeyCode::Char('q'))
            &&& (r == Some(Signal::CycleTab)) <==> (!v.popup_visible && !key.control && key.code == KeyCode::Tab)
            &&& r is None || r == Some(Signal::Quit) || r == Some(Signal::CycleTab)
        }),
{
}

} // verus!

verus! {

/// While the popup shows, every key but Esc (Enter, or a key the popup's field took)
/// searches: where a listed package matches, the list moves to the first listed package
/// whose key holds the query, and that position is the result; where none matches, the
/// list stays where it was and there is no result.
pub proof fn law_popup_keys_land_on_first_match(v: InstalledScreenView, key: KeyPress, repo: &Portage)
    requires
        v.popup_visible,
        key.code != KeyCode::Esc,
        listed_keys(v.filter, repo).len() <= usize::MAX,
    ensures
        ({
            let keys = listed_keys(v.filter, repo);
            let after = installed_step(v, key, repo).0;
            match after.result {
                Some(i) => {
                    &&& after.selected == Some(i)
                    &&& i < keys.len()
                    &&& key_matches(keys[i as int], v.query)
                    &&& forall|j: int| 0 <= j < i ==> !key_matches(#[trigger] keys[j], v.query)
                },
                None => {
                    &&& after.selected == v.selected
                    &&& forall|j: int| 0 <= j < keys.len() ==> !key_matches(#[trigger] keys[j], v.query)
                },
            }
        }),
{
    let keys = listed_keys(v.filter, repo);
    let hits = search_hits(keys, v.query);
    law_search_hits_exact(keys, v.query);
    if hits.len() > 0 {
        assert forall|j: int| 0 <= j < hits[0] implies !key_matches(#[trigger] keys[j], v.query) by {
            if key_matches(keys[j], v.query) {
                let k = choose|k: int| 0 <= k < hits.len() && hits[k] == j as usize;
                if k > 0 {
                    assert(hits[0] < hits[k]);
                }
            }
        }
    } else {
        assert forall|j: int| 0 <= j < keys.len() implies !key_matches(#[trigger] keys[j], v.query) by {
            if key_matches(keys[j], v.query) {
                assert(hits.contains(j as usize));
            }
        }
    }
}

} // verus!
