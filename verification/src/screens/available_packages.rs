//! The screen of the packages that the repositories offer: a package list, the list of
//! the selected package's versions, a search popup, and the selected version's flags
//! and metadata.
use vstd::prelude::*;

use crate::app::LoadingState;
use crate::gentoo::package::{Package, PackageKey, PackageVersion, PackageVersionView, qualified};
use crate::gentoo::portage::{Portage, first_with_key, package_key};
use crate::screens::installed_packages::position;
use crate::signal::{Event, KeyCode, KeyPress, Signal};
use crate::text::{chars_of, strs_view};
use crate::widgets::list_state::ListSelection;
use crate::widgets::search_popup::{SearchPopup, key_refs_view, search_hits};

verus! {

/// `a` comes before `b`, or equals it, in the order of `String`: character by
/// character by code point, a prefix first.
pub open spec fn lex_le(a: Seq<char>, b: Seq<char>) -> bool
    decreases a.len(),
{
    if a.len() == 0 {
        true
    } else if b.len() == 0 {
        false
    } else if a[0] != b[0] {
        (a[0] as int) < (b[0] as int)
    } else {
        lex_le(a.drop_first(), b.drop_first())
    }
}

/// Compares two texts in the order of `String`.
pub fn text_le(a: &str, b: &str) -> (r: bool)
    ensures
        r == lex_le(a@, b@),
{
    let x = chars_of(a);
    let y = chars_of(b);
    let mut i: usize = 0;
    assert(a@.skip(0) =~= a@);
    assert(b@.skip(0) =~= b@);
    while i < x.len() && i < y.len() && x[i] == y[i]
        invariant
            x@ == a@,
            y@ == b@,
            i <= x@.len(),
            i <= y@.len(),
            lex_le(a@.skip(i as int), b@.skip(i as int)) == lex_le(a@, b@),
        decreases x@.len() - i,
    {
        assert(a@.skip(i as int).drop_first() =~= a@.skip(i + 1));
        assert(b@.skip(i as int).drop_first() =~= b@.skip(i + 1));
        i = i + 1;
    }
    if i == x.len() {
        true
    } else if i == y.len() {
        false
    } else {
        x[i] < y[i]
    }
}

/// `s` with `x` put after the last element whose version is at most `x`'s: one step of
/// a stable sort by version.
pub open spec fn insert_by_version(s: Seq<PackageVersion>, x: PackageVersion) -> Seq<PackageVersion>
    decreases s.len(),
{
    if s.len() == 0 {
        seq![x]
    } else if lex_le(s.last().version@, x.version@) {
        s.push(x)
    } else {
        insert_by_version(s.drop_last(), x).push(s.last())
    }
}

/// `s` sorted by version, stably, earliest first.
pub open spec fn sort_by_version(s: Seq<PackageVersion>) -> Seq<PackageVersion>
    decreases s.len(),
{
    if s.len() == 0 {
        seq![]
    } else {
        insert_by_version(sort_by_version(s.drop_last()), s.last())
    }
}

proof fn lemma_insert_at(s: Seq<PackageVersion>, x: PackageVersion, j: int)
    requires
        0 <= j <= s.len(),
        j == 0 || lex_le(s[j - 1].version@, x.version@),
        forall|k: int| j <= k < s.len() ==> !lex_le(#[trigger] s[k].version@, x.version@),
    ensures
        insert_by_version(s, x) == s.take(j) + seq![x] + s.skip(j),
    decreases s.len(),
{
    if s.len() == 0 {
        assert(s.take(j) + seq![x] + s.skip(j) =~= seq![x]);
    } else if j == s.len() {
        assert(s.take(j) + seq![x] + s.skip(j) =~= s.push(x));
    } else {
        let t = s.drop_last();
        assert(!lex_le(s.last().version@, x.version@));
        assert forall|k: int| j <= k < t.len() implies !lex_le(#[trigger] t[k].version@, x.version@) by {
            assert(t[k] == s[k]);
        }
        if j > 0 {
            assert(t[j - 1] == s[j - 1]);
        }
        lemma_insert_at(t, x, j);
        assert((t.take(j) + seq![x] + t.skip(j)).push(s.last()) =~= s.take(j) + seq![x] + s.skip(j));
    }
}

/// The versions of a package from the latest down: sorted by version, then reversed.
pub open spec fn versions_latest_first(s: Seq<PackageVersion>) -> Seq<PackageVersion> {
    sort_by_version(s).reverse()
}

/// The versions that references point to.
pub open spec fn version_refs(v: Seq<&PackageVersion>) -> Seq<PackageVersion> {
    v.map_values(|p: &PackageVersion| *p)
}

/// The versions of `pkg`, the latest first.
pub fn sorted_versions<'a>(pkg: &'a Package) -> (r: Vec<&'a PackageVersion>)
    ensures
        version_refs(r@) == versions_latest_first(pkg.versions@),
{
    let vs = &pkg.versions;
    let n = vs.len();
    let mut sorted: Vec<&PackageVersion> = Vec::new();
    let mut i: usize = 0;
    assert(vs@.take(0) =~= seq![]);
    while i < n
        invariant
            n == vs@.len(),
            vs == &pkg.versions,
            i <= n,
            version_refs(sorted@) == sort_by_version(vs@.take(i as int)),
        decreases n - i,
    {
        let x = &vs[i];
        let mut j: usize = sorted.len();
        while j > 0 && !text_le(sorted[j - 1].version.as_str(), x.version.as_str())
            invariant
                j <= sorted@.len(),
                forall|k: int| j <= k < sorted@.len() ==> !lex_le(#[trigger] sorted@[k].version@, x.version@),
            decreases j,
        {
            j = j - 1;
        }
        let ghost before = version_refs(sorted@);
        proof {
            assert forall|k: int| j <= k < before.len() implies !lex_le(#[trigger] before[k].version@, x.version@) by {
                assert(before[k] == *sorted@[k]);
            }
            if j > 0 {
                assert(before[j - 1] == *sorted@[j - 1]);
            }
            lemma_insert_at(before, *x, j as int);
            assert(vs@.take(i + 1).drop_last() =~= vs@.take(i as int));
            assert(vs@.take(i + 1).last() == vs@[i as int]);
        }
        sorted.insert(j, x);
        assert(version_refs(sorted@) =~= before.take(j as int) + seq![*x] + before.skip(j as int));
        i = i + 1;
    }
    assert(vs@.take(n as int) =~= vs@);
    let m = sorted.len();
    let mut out: Vec<&PackageVersion> = Vec::new();
    let mut k: usize = 0;
    while k < m
        invariant
            m == sorted@.len(),
            k <= m,
            out@.len() == k,
            forall|t: int| 0 <= t < k ==> out@[t] == sorted@[m - 1 - t],
        decreases m - k,
    {
        out.push(sorted[m - 1 - k]);
        k = k + 1;
    }
    assert(version_refs(out@) =~= version_refs(sorted@).reverse());
    out
}

/// How a version is named in the list of versions: `version::repository`.
pub open spec fn variant_text(v: PackageVersionView) -> Seq<char> {
    v.version + "::"@ + v.metadata.repository
}

/// Names a version in the list of versions: `version::repository`.
pub fn version_to_variant(pkg_version: &PackageVersion) -> (r: String)
    ensures
        r@ == variant_text(pkg_version@),
{
    let mut r = pkg_version.version.clone();
    r.append("::");
    r.append(pkg_version.metadata.repository.as_str());
    r
}

/// The frames of the loading spinner.
pub open spec fn spinner_frames() -> Seq<Seq<char>> {
    seq!["\u{280b}"@, "\u{2819}"@, "\u{2839}"@, "\u{2838}"@, "\u{283c}"@, "\u{2834}"@, "\u{2826}"@, "\u{2827}"@]
}

/// The frame of the loading spinner at `millis` milliseconds past the epoch: a new
/// frame every tenth of a second, round the eight frames.
pub fn loading_spinner(millis: u128) -> (r: &'static str)
    ensures
        r@ == spinner_frames()[((millis / 100) % 8) as int],
{
    let i = (millis / 100) % 8;
    if i == 0 {
        "\u{280b}"
    } else if i == 1 {
        "\u{2819}"
    } else if i == 2 {
        "\u{2839}"
    } else if i == 3 {
        "\u{2838}"
    } else if i == 4 {
        "\u{283c}"
    } else if i == 5 {
        "\u{2834}"
    } else if i == 6 {
        "\u{2826}"
    } else {
        "\u{2827}"
    }
}

} // verus!

verus! {

/// The list that `j` and `k` move in.
#[derive(Debug, Clone, Copy, PartialEq, Eq, Structural)]
pub enum CurrentList {
    PackageList,
    VariantList,
}

/// The keys of the packages that the repositories offer, in order.
pub open spec fn available_keys(repo: &Portage) -> Seq<(Seq<char>, Seq<char>)> {
    repo.available_seq().map_values(|p: Package| p.atom@)
}

/// The position among the offered packages of the package that the list's position
/// names: the first with the key that stands there.
pub open spec fn selected_package_index(repo: &Portage, selected: Option<usize>) -> Option<int> {
    let keys = available_keys(repo);
    let at = position(selected);
    if at < keys.len() {
        first_with_key(repo.available_seq(), keys[at as int], |p: Package| package_key(p))
    } else {
        None
    }
}

/// The versions of the selected package, the latest first.
pub open spec fn selected_versions(repo: &Portage, selected: Option<usize>) -> Option<Seq<PackageVersion>> {
    match selected_package_index(repo, selected) {
        Some(i) => Some(versions_latest_first(repo.available_seq()[i].versions@)),
        None => None,
    }
}

/// The version list can be rebuilt for the package at list position `selected`: that
/// package, where there is one, has a version (the newest is shown).
pub open spec fn can_rebuild(repo: &Portage, selected: Option<usize>) -> bool {
    match selected_package_index(repo, selected) {
        Some(i) => repo.available_seq()[i].versions@.len() > 0,
        None => true,
    }
}

/// The other list.
pub open spec fn flip_list(c: CurrentList) -> CurrentList {
    match c {
        CurrentList::PackageList => CurrentList::VariantList,
        CurrentList::VariantList => CurrentList::PackageList,
    }
}

/// The search popup as the contracts speak of it: whether it shows, its query, its
/// matches and the selected match.
pub open spec fn popup_parts(p: SearchPopup) -> (bool, Seq<char>, Seq<usize>, Option<usize>) {
    (p.is_visible(), p.query_view(), p.matches_view(), p.selected_view())
}

/// The state of the screen, as the contracts speak of it.
pub struct AvailableView {
    pub chosen: CurrentList,
    pub pkg_list: Option<Seq<Seq<char>>>,
    pub pkg_selected: Option<usize>,
    pub variant_list: Option<Seq<Seq<char>>>,
    pub variant_selected: Option<usize>,
    pub loading: LoadingState,
    pub popup: (bool, Seq<char>, Seq<usize>, Option<usize>),
    pub selected_version: Option<PackageVersionView>,
}

impl View for AvailablePackagesScreen {
    type V = AvailableView;

    closed spec fn view(&self) -> AvailableView {
        AvailableView {
            chosen: self.chosen_list,
            pkg_list: match self.pkg_list {
                Some(v) => Some(strs_view(v@)),
                None => None,
            },
            pkg_selected: self.pkg_list_state.selected,
            variant_list: match self.variant_list {
                Some(v) => Some(strs_view(v@)),
                None => None,
            },
            variant_selected: self.variant_list_state.selected,
            loading: self.loading_state,
            popup: popup_parts(self.search_popup),
            selected_version: match self.selected_version {
                Some(v) => Some(v@),
                None => None,
            },
        }
    }
}

/// The screen of the packages that the repositories offer.
#[derive(Debug)]
pub struct AvailablePackagesScreen {
    chosen_list: CurrentList,
    pkg_list: Option<Vec<String>>,
    pkg_list_state: ListSelection,
    variant_list: Option<Vec<String>>,
    variant_list_state: ListSelection,
    loading_state: LoadingState,
    search_popup: SearchPopup,
    selected_version: Option<PackageVersion>,
}

/// The views of a list of versions.
pub open spec fn version_views(v: Seq<PackageVersion>) -> Seq<PackageVersionView> {
    v.map_values(|x: PackageVersion| x@)
}

impl AvailablePackagesScreen {
    /// Both lists on their first item, nothing loaded, the popup hidden.
    pub fn new() -> (r: Self)
        ensures
            r@ == (AvailableView {
                chosen: CurrentList::PackageList,
                pkg_list: None,
                pkg_selected: Some(0usize),
                variant_list: None,
                variant_selected: Some(0usize),
                loading: LoadingState::Idle,
                popup: (false, Seq::<char>::empty(), Seq::<usize>::empty(), None),
                selected_version: None,
            }),
    {
        AvailablePackagesScreen {
            chosen_list: CurrentList::PackageList,
            pkg_list: None,
            pkg_list_state: ListSelection::first(),
            variant_list: None,
            variant_list_state: ListSelection::first(),
            loading_state: LoadingState::Idle,
            search_popup: SearchPopup::new(),
            selected_version: None,
        }
    }

    /// Switches between the two lists, putting the version list on its first item.
    pub fn cycle_list(&mut self)
        ensures
            final(self)@ == (AvailableView {
                chosen: flip_list(old(self)@.chosen),
                variant_selected: Some(0usize),
                ..old(self)@
            }),
    {
        self.variant_list_state.select(Some(0));
        self.chosen_list = match self.chosen_list {
            CurrentList::PackageList => CurrentList::VariantList,
            CurrentList::VariantList => CurrentList::PackageList,
        };
    }

    /// The package that the package list's position names.
    pub fn selected_package<'a>(&self, repo: &'a Portage) -> (r: Option<&'a Package>)
        ensures
            match selected_package_index(repo, self@.pkg_selected) {
                Some(i) => r == Some(&repo.available_seq()[i]),
                None => r is None,
            },
    {
        let packages = repo.available_packages();
        let at = match self.pkg_list_state.selected() {
            Some(i) => i,
            None => 0,
        };
        if at < packages.len() {
            repo.get_available_package(&packages[at].atom)
        } else {
            None
        }
    }

    /// The versions of the selected package, the latest first.
    pub fn selected_package_versions<'a>(&self, repo: &'a Portage) -> (r: Option<Vec<&'a PackageVersion>>)
        ensures
            match selected_versions(repo, self@.pkg_selected) {
                Some(vs) => r is Some && version_refs(r->0@) == vs,
                None => r is None,
            },
    {
        match self.selected_package(repo) {
            Some(pkg) => Some(sorted_versions(pkg)),
            None => None,
        }
    }

    /// Whether a key goes to the text field of the search popup before `update` sees it:
    /// while the popup shows, every key but Esc and Enter is typed into the field.
    pub fn routes_to_search_input(&self, key: KeyPress) -> (r: bool)
        ensures
            r == (self@.popup.0 && key.code != KeyCode::Esc && key.code != KeyCode::Enter),
    {
        self.search_popup.visible() && key.code != KeyCode::Esc && key.code != KeyCode::Enter
    }

    /// Sets the text in the popup's field, as the user typed it.
    pub fn set_search_query(&mut self, text: String)
        ensures
            final(self)@ == (AvailableView {
                popup: (old(self)@.popup.0, text@, old(self)@.popup.2, old(self)@.popup.3),
                ..old(self)@
            }),
    {
        self.search_popup.set_query(text);
    }

    /// Whether the search popup shows, for drawing.
    pub fn search_visible(&self) -> (r: bool)
        ensures
            r == self@.popup.0,
    {
        self.search_popup.visible()
    }

    /// The list that `j` and `k` move in, for drawing.
    pub fn chosen_list(&self) -> (r: CurrentList)
        ensures
            r == self@.chosen,
    {
        self.chosen_list
    }

    /// The position in the version list, for drawing.
    pub fn variant_selected(&self) -> (r: Option<usize>)
        ensures
            r == self@.variant_selected,
    {
        self.variant_list_state.selected()
    }

    /// The version whose details are shown, for drawing.
    pub fn selected_version(&self) -> (r: Option<&PackageVersion>)
        ensures
            match r {
                Some(x) => self@.selected_version == Some(x@),
                None => self@.selected_version is None,
            },
    {
        match &self.selected_version {
            Some(x) => Some(x),
            None => None,
        }
    }
}

} // verus!

verus! {

proof fn lemma_insert_len(s: Seq<PackageVersion>, x: PackageVersion)
    ensures
        insert_by_version(s, x).len() == s.len() + 1,
    decreases s.len(),
{
    if s.len() > 0 && !lex_le(s.last().version@, x.version@) {
        lemma_insert_len(s.drop_last(), x);
    }
}

proof fn lemma_sort_len(s: Seq<PackageVersion>)
    ensures
        sort_by_version(s).len() == s.len(),
    decreases s.len(),
{
    if s.len() > 0 {
        lemma_sort_len(s.drop_last());
        lemma_insert_len(sort_by_version(s.drop_last()), s.last());
    }
}

/// The item after the selected one, as `ListSelection::select_next` selects it.
pub open spec fn next_selection(s: Option<usize>) -> Option<usize> {
    Some(
        match s {
            Some(i) => if i == usize::MAX {
                usize::MAX
            } else {
                (i + 1) as usize
            },
            None => 0usize,
        },
    )
}

/// The item before the selected one, as `ListSelection::select_previous` selects it.
pub open spec fn previous_selection(s: Option<usize>) -> Option<usize> {
    Some(
        match s {
            Some(i) => if i == 0 {
                0usize
            } else {
                (i - 1) as usize
            },
            None => usize::MAX,
        },
    )
}

/// The popup after `toggle`.
pub open spec fn popup_toggled(p: (bool, Seq<char>, Seq<usize>, Option<usize>)) -> (bool, Seq<char>, Seq<usize>, Option<usize>) {
    (!p.0, seq![], p.2, p.3)
}

/// The popup after a search among `keys`.
pub open spec fn popup_searched(p: (bool, Seq<char>, Seq<usize>, Option<usize>), keys: Seq<(Seq<char>, Seq<char>)>) -> (bool, Seq<char>, Seq<usize>, Option<usize>) {
    let hits = search_hits(keys, p.1);
    (p.0, p.1, hits, if hits.len() == 0 { None } else { Some(0usize) })
}

/// The screen after the version list is rebuilt for the selected package: it names
/// that package's versions, the latest first, and the latest becomes the selected
/// version; with no package selected, nothing changes.
pub open spec fn rebuilt(v: AvailableView, repo: &Portage) -> AvailableView {
    match selected_versions(repo, v.pkg_selected) {
        Some(vs) => AvailableView {
            variant_list: Some(version_views(vs).map_values(|x: PackageVersionView| variant_text(x))),
            selected_version: Some(vs[0]@),
            ..v
        },
        None => v,
    }
}

/// The screen after `j` or `k` in the version list: `j` moves to the next version and
/// shows it, but moves back where it passed the last one; `k` moves to the previous
/// version and shows it; other keys, or no selected package, change nothing.
pub open spec fn version_step(v: AvailableView, code: KeyCode, repo: &Portage) -> AvailableView {
    match selected_versions(repo, v.pkg_selected) {
        Some(vs) => match code {
            KeyCode::Char('j') => {
                let s1 = next_selection(v.variant_selected);
                let idx = position(s1);
                if idx >= vs.len() {
                    AvailableView { variant_selected: previous_selection(s1), ..v }
                } else {
                    AvailableView { variant_selected: s1, selected_version: Some(vs[idx as int]@), ..v }
                }
            },
            KeyCode::Char('k') => {
                let s1 = previous_selection(v.variant_selected);
                AvailableView { variant_selected: s1, selected_version: Some(vs[position(s1) as int]@), ..v }
            },
            _ => v,
        },
        None => v,
    }
}

/// The screen after an event, and what it asks of the application.
///
/// With the popup shown, Esc hides it; Enter searches the offered packages, hides the
/// popup and, if a package matched, moves the package list to it and rebuilds the
/// version list; any other key (which the popup's text field took) does the same but
/// leaves the popup shown. Otherwise `q` quits, Tab moves to the next tab, space
/// switches lists (the version list back on its first item), `/` shows the popup, and
/// `j` and `k` move down and up in the chosen list: in the package list the version
/// list is rebuilt; in the version list the version moved to becomes the selected one
/// (moving down past the last version moves back). When the loading completes, the
/// package list is built of the offered packages' names and the version list is
/// rebuilt; other news of the loading is kept.
pub open spec fn available_step(v: AvailableView, event: Event, repo: &Portage) -> (AvailableView, Option<Signal>) {
    match event {
        Event::KeyEvent(key) => if v.popup.0 {
            let keys = available_keys(repo);
            let p1 = popup_searched(v.popup, keys);
            let hit = if p1.2.len() > 0 { Some(p1.2[0]) } else { None };
            match key.code {
                KeyCode::Esc => (AvailableView { popup: popup_toggled(v.popup), ..v }, None),
                KeyCode::Enter => match hit {
                    Some(i) => (rebuilt(AvailableView { popup: popup_toggled(p1), pkg_selected: Some(i), ..v }, repo), None),
                    None => (AvailableView { popup: popup_toggled(p1), ..v }, None),
                },
                _ => match hit {
                    Some(i) => (rebuilt(AvailableView { popup: p1, pkg_selected: Some(i), ..v }, repo), None),
                    None => (AvailableView { popup: p1, ..v }, None),
                },
            }
        } else {
            match key.code {
                KeyCode::Char('q') => (v, Some(Signal::Quit)),
                KeyCode::Tab => (v, Some(Signal::CycleTab)),
                KeyCode::Char(' ') => (AvailableView { chosen: flip_list(v.chosen), variant_selected: Some(0usize), ..v }, None),
                KeyCode::Char('/') => (AvailableView { popup: popup_toggled(v.popup), ..v }, None),
                _ => match v.chosen {
                    CurrentList::PackageList => match key.code {
                        KeyCode::Char('j') => (rebuilt(AvailableView { pkg_selected: next_selection(v.pkg_selected), ..v }, repo), None),
                        KeyCode::Char('k') => (rebuilt(AvailableView { pkg_selected: previous_selection(v.pkg_selected), ..v }, repo), None),
                        _ => (v, None),
                    },
                    CurrentList::VariantList => (version_step(v, key.code, repo), None),
                },
            }
        },
        Event::LoadStateUpdate(state) => match state {
            LoadingState::Complete => (rebuilt(AvailableView {
                pkg_list: Some(available_keys(repo).map_values(|k: (Seq<char>, Seq<char>)| qualified(k))),
                loading: LoadingState::Complete,
                ..v
            }, repo), None),
            _ => (AvailableView { loading: state, ..v }, None),
        },
    }
}

/// Where `update` can run without a fault: where the version list is rebuilt, the
/// package it is rebuilt for has a version; a search has room for its matches; and
/// moving up in the version list lands on a version.
pub open spec fn available_update_allowed(v: AvailableView, event: Event, repo: &Portage) -> bool {
    match event {
        Event::KeyEvent(key) => if v.popup.0 {
            key.code != KeyCode::Esc ==> {
                let hits = search_hits(available_keys(repo), v.popup.1);
                &&& repo.available_seq().len() < usize::MAX / 2
                &&& hits.len() > 0 ==> can_rebuild(repo, Some(hits[0]))
            }
        } else {
            match v.chosen {
                CurrentList::PackageList => {
                    &&& key.code == KeyCode::Char('j') ==> can_rebuild(repo, next_selection(v.pkg_selected))
                    &&& key.code == KeyCode::Char('k') ==> can_rebuild(repo, previous_selection(v.pkg_selected))
                },
                CurrentList::VariantList => key.code == KeyCode::Char('k') ==> match selected_versions(repo, v.pkg_selected) {
                    Some(vs) => position(previous_selection(v.variant_selected)) < vs.len(),
                    None => true,
                },
            }
        },
        Event::LoadStateUpdate(LoadingState::Complete) => can_rebuild(repo, v.pkg_selected),
        _ => true,
    }
}

impl AvailablePackagesScreen {
    /// Rebuilds the version list for the selected package, as [`rebuilt`] says.
    fn build_pkg_version_list(&mut self, repo: &Portage)
        requires
            can_rebuild(repo, old(self)@.pkg_selected),
        ensures
            final(self)@ == rebuilt(old(self)@, repo),
    {
        let pkg_versions = match self.selected_package_versions(repo) {
            Some(v) => v,
            None => return,
        };
        proof {
            let i = selected_package_index(repo, self@.pkg_selected)->0;
            let keys = available_keys(repo);
            let at = position(self@.pkg_selected);
            assert(0 <= i < repo.available_seq().len());
            assert(repo.available_seq()[i].versions@.len() > 0);
            lemma_sort_len(repo.available_seq()[i].versions@);
        }
        let ghost vs = version_refs(pkg_versions@);
        let mut names: Vec<String> = Vec::new();
        let n = pkg_versions.len();
        let mut k: usize = 0;
        while k < n
            invariant
                n == pkg_versions@.len(),
                vs == version_refs(pkg_versions@),
                k <= n,
                strs_view(names@) =~= version_views(vs).map_values(|x: PackageVersionView| variant_text(x)).take(k as int),
            decreases n - k,
        {
            let name = version_to_variant(pkg_versions[k]);
            let ghost before = names@;
            names.push(name);
            assert(strs_view(names@) =~= strs_view(before).push(name@));
            k = k + 1;
        }
        assert(version_views(vs).map_values(|x: PackageVersionView| variant_text(x)).take(n as int) =~= version_views(vs).map_values(|x: PackageVersionView| variant_text(x)));
        let first = pkg_versions[0].clone();
        assert(vs[0] == *pkg_versions@[0]);
        self.variant_list = Some(names);
        self.selected_version = Some(first);
    }

    /// The names of the offered packages.
    fn package_names(repo: &Portage) -> (r: Vec<String>)
        ensures
            strs_view(r@) == available_keys(repo).map_values(|k: (Seq<char>, Seq<char>)| qualified(k)),
    {
        let packages = repo.available_packages();
        let ghost want = available_keys(repo).map_values(|k: (Seq<char>, Seq<char>)| qualified(k));
        let mut names: Vec<String> = Vec::new();
        let n = packages.len();
        let mut k: usize = 0;
        while k < n
            invariant
                n == packages@.len(),
                packages@ == repo.available_seq(),
                want == available_keys(repo).map_values(|k: (Seq<char>, Seq<char>)| qualified(k)),
                k <= n,
                strs_view(names@) =~= want.take(k as int),
            decreases n - k,
        {
            let name = packages[k].atom.qualified_name();
            let ghost before = names@;
            names.push(name);
            assert(strs_view(names@) =~= strs_view(before).push(name@));
            k = k + 1;
        }
        assert(want.take(n as int) =~= want);
        names
    }

    /// The keys of the offered packages.
    fn package_keys(repo: &Portage) -> (r: Vec<&PackageKey>)
        ensures
            key_refs_view(r@) == available_keys(repo),
    {
        let packages = repo.available_packages();
        let mut keys: Vec<&PackageKey> = Vec::new();
        let n = packages.len();
        let mut k: usize = 0;
        while k < n
            invariant
                n == packages@.len(),
                packages@ == repo.available_seq(),
                k <= n,
                key_refs_view(keys@) =~= available_keys(repo).take(k as int),
            decreases n - k,
        {
            let ghost before = keys@;
            keys.push(&packages[k].atom);
            assert(key_refs_view(keys@) =~= key_refs_view(before).push(packages@[k as int].atom@));
            k = k + 1;
        }
        assert(available_keys(repo).take(n as int) =~= available_keys(repo));
        keys
    }

    /// Handles an event, as [`available_step`] says, and gives the screen's request.
    pub fn update(&mut self, event: &Event, repo: &Portage) -> (r: Option<Signal>)
        requires
            available_update_allowed(old(self)@, *event, repo),
        ensures
            (final(self)@, r) == available_step(old(self)@, *event, repo),
    {
        match event {
            Event::KeyEvent(key) => {
                if self.search_popup.visible() {
                    match key.code {
                        KeyCode::Esc => self.search_popup.toggle(),
                        KeyCode::Enter => {
                            let result = self.search_popup.search(Self::package_keys(repo));
                            self.search_popup.toggle();
                            if let Some(index) = result {
                                self.pkg_list_state.select(Some(index));
                                self.build_pkg_version_list(repo);
                            }
                        },
                        _ => {
                            let result = self.search_popup.search(Self::package_keys(repo));
                            if let Some(index) = result {
                                self.pkg_list_state.select(Some(index));
                                self.build_pkg_version_list(repo);
                            }
                        },
                    }
                } else {
                    match key.code {
                        KeyCode::Char('q') => return Some(Signal::Quit),
                        KeyCode::Tab => return Some(Signal::CycleTab),
                        KeyCode::Char(' ') => self.cycle_list(),
                        KeyCode::Char('/') => self.search_popup.toggle(),
                        _ => match self.chosen_list {
                            CurrentList::PackageList => match key.code {
                                KeyCode::Char('j') => {
                                    self.pkg_list_state.select_next();
                                    self.build_pkg_version_list(repo);
                                },
                                KeyCode::Char('k') => {
                                    self.pkg_list_state.select_previous();
                                    self.build_pkg_version_list(repo);
                                },
                                _ => {},
                            },
                            CurrentList::VariantList => match key.code {
                                KeyCode::Char('j') => {
                                    if let Some(pkg_versions) = self.selected_package_versions(repo) {
                                        self.variant_list_state.select_next();
                                        let index = match self.variant_list_state.selected() {
                                            Some(i) => i,
                                            None => 0,
                                        };
                                        if index >= pkg_versions.len() {
                                            self.variant_list_state.select_previous();
                                        } else {
                                            self.selected_version = Some(pkg_versions[index].clone());
                                        }
                                    }
                                },
                                KeyCode::Char('k') => {
                                    if let Some(pkg_versions) = self.selected_package_versions(repo) {
                                        self.variant_list_state.select_previous();
                                        let index = match self.variant_list_state.selected() {
                                            Some(i) => i,
                                            None => 0,
                                        };
                                        self.selected_version = Some(pkg_versions[index].clone());
                                    }
                                },
                                _ => {},
                            },
                        },
                    }
                }
            },
            Event::LoadStateUpdate(loading_state) => match loading_state {
                LoadingState::Complete => {
                    self.pkg_list = Some(Self::package_names(repo));
                    self.loading_state = LoadingState::Complete;
                    self.build_pkg_version_list(repo);
                },
                _ => self.loading_state = *loading_state,
            },
        }
        None
    }
}

} // verus!

verus! {

/// Versions in order: each at most every later one.
pub open spec fn ordered_by_version(s: Seq<PackageVersion>) -> bool {
    forall|i: int, j: int| 0 <= i < j < s.len() ==> lex_le(#[trigger] s[i].version@, #[trigger] s[j].version@)
}

/// Of two texts, one comes before the other or equals it.
pub proof fn law_lex_total(a: Seq<char>, b: Seq<char>)
    ensures
        lex_le(a, b) || lex_le(b, a),
    decreases a.len(),
{
    if a.len() > 0 && b.len() > 0 {
        if a[0] == b[0] {
            law_lex_total(a.drop_first(), b.drop_first());
        }
    }
}

/// The order of texts is transitive.
pub proof fn law_lex_transitive(a: Seq<char>, b: Seq<char>, c: Seq<char>)
    requires
        lex_le(a, b),
        lex_le(b, c),
    ensures
        lex_le(a, c),
    decreases a.len(),
{
    if a.len() > 0 && b.len() > 0 && c.len() > 0 && a[0] == b[0] && b[0] == c[0] {
        law_lex_transitive(a.drop_first(), b.drop_first(), c.drop_first());
    }
}

proof fn lemma_insert_keeps_order(s: Seq<PackageVersion>, x: PackageVersion)
    requires
        ordered_by_version(s),
    ensures
        ordered_by_version(insert_by_version(s, x)),
        insert_by_version(s, x).to_multiset() == s.to_multiset().insert(x),
    decreases s.len(),
{
    broadcast use vstd::seq_lib::group_to_multiset_ensures;
    broadcast use vstd::multiset::group_multiset_axioms;

    if s.len() == 0 {
        assert(seq![x] =~= Seq::<PackageVersion>::empty().push(x));
        assert(Seq::<PackageVersion>::empty().to_multiset() =~= vstd::multiset::Multiset::empty());
    } else if lex_le(s.last().version@, x.version@) {
        let r = s.push(x);
        assert forall|i: int, j: int| 0 <= i < j < r.len() implies lex_le(#[trigger] r[i].version@, #[trigger] r[j].version@) by {
            if j == r.len() - 1 {
                if i < s.len() - 1 {
                    law_lex_transitive(s[i].version@, s.last().version@, x.version@);
                }
            }
        }
    } else {
        let t = s.drop_last();
        let last = s.last();
        assert(ordered_by_version(t)) by {
            assert forall|i: int, j: int| 0 <= i < j < t.len() implies lex_le(#[trigger] t[i].version@, #[trigger] t[j].version@) by {
                assert(t[i] == s[i] && t[j] == s[j]);
            }
        }
        lemma_insert_keeps_order(t, x);
        let u = insert_by_version(t, x);
        let r = u.push(last);
        law_lex_total(last.version@, x.version@);
        assert(s =~= t.push(last));
        assert forall|i: int, j: int| 0 <= i < j < r.len() implies lex_le(#[trigger] r[i].version@, #[trigger] r[j].version@) by {
            if j == r.len() - 1 {
                let e = u[i];
                assert(u.to_multiset().count(e) > 0) by {
                    assert(u.contains(e));
                }
                if e != x {
                    assert(t.to_multiset().count(e) > 0);
                    assert(t.contains(e));
                    let k = choose|k: int| 0 <= k < t.len() && t[k] == e;
                    assert(s[k] == e);
                    assert(lex_le(s[k].version@, s[s.len() - 1].version@));
                }
            } else {
                assert(r[i] == u[i] && r[j] == u[j]);
            }
        }
        assert(r.to_multiset() =~= s.to_multiset().insert(x));
    }
}

/// Sorting by version puts the versions in order and keeps every one of them, each as
/// often as it was there.
pub proof fn law_sort_orders_and_keeps(s: Seq<PackageVersion>)
    ensures
        ordered_by_version(sort_by_version(s)),
        sort_by_version(s).to_multiset() == s.to_multiset(),
    decreases s.len(),
{
    broadcast use vstd::seq_lib::group_to_multiset_ensures;

    if s.len() == 0 {
    } else {
        law_sort_orders_and_keeps(s.drop_last());
        lemma_insert_keeps_order(sort_by_version(s.drop_last()), s.last());
        assert(s =~= s.drop_last().push(s.last()));
    }
}

} // verus!

verus! {

/// A plain key press, with no modifier.
pub open spec fn plain_key(code: KeyCode) -> Event {
    Event::KeyEvent(KeyPress { code, control: false })
}

/// Pressing space twice comes back to the list one was in, with the version list on its
/// first item.
pub proof fn law_space_twice(v: AvailableView, repo: &Portage)
    requires
        !v.popup.0,
    ensures
        ({
            let once = available_step(v, plain_key(KeyCode::Char(' ')), repo).0;
            let twice = available_step(once, plain_key(KeyCode::Char(' ')), repo).0;
            &&& once.chosen != v.chosen
            &&& twice == (AvailableView { variant_selected: Some(0usize), ..v })
        }),
{
}

/// The Browse screen, in the version list with the popup hidden, hands `j` and `k` to
/// [`version_step`] and asks nothing.
proof fn lemma_version_keys(v: AvailableView, repo: &Portage, c: char)
    requires
        !v.popup.0,
        v.chosen == CurrentList::VariantList,
        c == 'j' || c == 'k',
    ensures
        available_step(v, plain_key(KeyCode::Char(c)), repo) == (version_step(v, KeyCode::Char(c), repo), None::<Signal>),
{
    let key = KeyPress { code: KeyCode::Char(c), control: false };
    assert(plain_key(KeyCode::Char(c)) == Event::KeyEvent(key));
    assert(key.code != KeyCode::Char('q') && key.code != KeyCode::Tab && key.code != KeyCode::Char(' ')
        && key.code != KeyCode::Char('/'));
}

/// In the version list, with the popup hidden and on the `i`th of the selected
/// package's versions `vs`, `j` moves to version `min(i + 1, vs.len() - 1)` and `k` to
/// version `i - 1` (or stays on the first); either way the position stays on a version,
/// `k` shows the version it lands on, `j` shows the next version where there is one and
/// otherwise what it showed, neither asks anything of the application, and `update` may
/// take both keys there.
pub proof fn law_version_moves(v: AvailableView, repo: &Portage, vs: Seq<PackageVersion>, i: usize)
    requires
        !v.popup.0,
        v.chosen == CurrentList::VariantList,
        selected_versions(repo, v.pkg_selected) == Some(vs),
        v.variant_selected == Some(i),
        i < vs.len() <= usize::MAX,
    ensures
        ({
            let (down, sd) = available_step(v, plain_key(KeyCode::Char('j')), repo);
            let (up, su) = available_step(v, plain_key(KeyCode::Char('k')), repo);
            let jd: int = if i + 1 < vs.len() { i + 1 } else { vs.len() - 1 };
            let ju: int = if i == 0 { 0 } else { i - 1 };
            &&& available_update_allowed(v, plain_key(KeyCode::Char('j')), repo)
            &&& available_update_allowed(v, plain_key(KeyCode::Char('k')), repo)
            &&& sd is None && su is None
            &&& down.variant_selected == Some(jd as usize) && jd < vs.len()
            &&& (i + 1 < vs.len() ==> down.selected_version == Some(vs[i + 1]@))
            &&& (i + 1 >= vs.len() ==> down.selected_version == v.selected_version)
            &&& up.variant_selected == Some(ju as usize) && ju < vs.len()
            &&& up.selected_version == Some(vs[ju]@)
        }),
{
    lemma_version_keys(v, repo, 'j');
    lemma_version_keys(v, repo, 'k');
    lemma_version_step(v, repo, vs, i);
}

proof fn lemma_version_step(v: AvailableView, repo: &Portage, vs: Seq<PackageVersion>, i: usize)
    requires
        selected_versions(repo, v.pkg_selected) == Some(vs),
        v.variant_selected == Some(i),
        i < vs.len() <= usize::MAX,
    ensures
        ({
            let down = version_step(v, KeyCode::Char('j'), repo);
            let up = version_step(v, KeyCode::Char('k'), repo);
            let jd: int = if i + 1 < vs.len() { i + 1 } else { vs.len() - 1 };
            let ju: int = if i == 0 { 0 } else { i - 1 };
            &&& down.variant_selected == Some(jd as usize) && jd < vs.len()
            &&& (i + 1 < vs.len() ==> down.selected_version == Some(vs[i + 1]@))
            &&& (i + 1 >= vs.len() ==> down.selected_version == v.selected_version)
            &&& up.variant_selected == Some(ju as usize) && ju < vs.len()
            &&& up.selected_version == Some(vs[ju]@)
        }),
{
    assert(next_selection(v.variant_selected) == Some((i + 1) as usize));
    if i + 1 >= vs.len() {
        assert(previous_selection(Some((i + 1) as usize)) == Some(i));
    }
}

} // verus!

verus! {

/// The key of a key event, and none for news of the loading.
pub open spec fn event_key_code(event: Event) -> Option<KeyCode> {
    match event {
        Event::KeyEvent(k) => Some(k.code),
        _ => None,
    }
}

/// The Browse screen asks to quit only on `q` and to move to the next tab only on Tab,
/// and only while the search popup is hidden; every other event, news of the loading
/// among them, asks nothing.
pub proof fn law_available_signals(v: AvailableView, event: Event, repo: &Portage)
    ensures
        ({
            let r = available_step(v, event, repo).1;
            &&& (r == Some(Signal::Quit)) <==> (!v.popup.0 && event_key_code(event) == Some(KeyCode::Char('q')))
            &&& (r == Some(Signal::CycleTab)) <==> (!v.popup.0 && event_key_code(event) == Some(KeyCode::Tab))
            &&& r is None || r == Some(Signal::Quit) || r == Some(Signal::CycleTab)
        }),
{
}

} // verus!
