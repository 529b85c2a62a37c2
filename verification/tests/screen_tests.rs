use qview::app::{App, LoadingState, ViewState};
use qview::event::handle_event;
use qview::gentoo::package::{InstalledPackage, Metadata, Package, PackageKey, PackageVersion};
use qview::gentoo::portage::Portage;
use qview::gentoo::sets::{FlagSet, PackageSet};
use qview::gentoo::useflags::UseFlag;
use qview::screens::available_packages::{
    sorted_versions, loading_spinner, text_le, version_to_variant, AvailablePackagesScreen, CurrentList,
};
use qview::screens::dashboard::DashboardScreen;
use qview::screens::installed_packages::{InstalledPackagesScreen, SearchPopup as InstalledSearch};
use qview::signal::{Event, KeyCode, KeyPress, Signal};
use qview::widgets::helpers::{size_unit, unit_name};
use qview::widgets::list_state::ListSelection;
use qview::widgets::package_metadata::{homepage_urls, metadata_fields};
use qview::widgets::search_popup::SearchPopup;
use qview::widgets::tabs::{tab_index, tab_titles_list};
use qview::widgets::use_flags::{use_flag_rows, FlagStyle};

fn key(c: &str, n: &str) -> PackageKey {
    PackageKey { category: c.to_string(), name: n.to_string() }
}

fn metadata(repo: &str) -> Metadata {
    Metadata { maintainer: None, description: None, homepage: vec![], license: None, repository: repo.to_string() }
}

fn installed(c: &str, n: &str) -> InstalledPackage {
    InstalledPackage {
        atom: key(c, n),
        version: "1.0".to_string(),
        build_time: 0,
        slot: 0,
        metadata: metadata("gentoo"),
        enabled_use_flags: FlagSet::new(),
        iuse: vec![],
        size: 1,
    }
}

fn version(v: &str, repo: &str) -> PackageVersion {
    PackageVersion { version: v.to_string(), metadata: metadata(repo), keywords: vec![], iuse: vec![] }
}

fn press(code: KeyCode) -> KeyPress {
    KeyPress { code, control: false }
}

fn ctrl(c: char) -> KeyPress {
    KeyPress { code: KeyCode::Char(c), control: true }
}

fn repo() -> Portage {
    let mut world = PackageSet::new();
    world.insert(key("app-editors", "vim"));
    Portage::new(
        vec![installed("sys-apps", "portage"), installed("app-editors", "vim"), installed("app-editors", "emacs")],
        world,
        vec![
            Package { atom: key("app-editors", "vim"), versions: vec![version("9.0", "gentoo"), version("9.1", "gentoo"), version("8.2", "guru")] },
            Package { atom: key("dev-lang", "rust"), versions: vec![version("1.80", "gentoo")] },
        ],
    )
}

#[test]
fn search_popup_finds_matches_ignoring_case() {
    let a = key("sys-apps", "portage");
    let b = key("app-editors", "vim");
    let c = key("app-vim", "vim-airline");
    let mut popup = SearchPopup::new();
    assert!(!popup.visible());
    popup.toggle();
    assert!(popup.visible());
    popup.set_query("VIM".to_string());
    assert_eq!(popup.search(vec![&a, &b, &c]), Some(1));
    assert_eq!(popup.match_status(), Some((1, 2)));
    assert_eq!(popup.current_match(), Some(1));
    assert_eq!(popup.next_match(), Some(2));
    assert_eq!(popup.match_status(), Some((2, 2)));
    assert_eq!(popup.next_match(), Some(1));
    assert_eq!(popup.previous_match(), Some(2));
    assert_eq!(popup.previous_match(), Some(1));
    popup.set_query("zzz".to_string());
    assert_eq!(popup.search(vec![&a, &b, &c]), None);
    assert_eq!(popup.match_status(), None);
    assert_eq!(popup.next_match(), None);
    popup.toggle();
    assert!(!popup.visible());
    assert_eq!(popup.query(), "");
}

#[test]
fn list_selection_moves_like_ratatui() {
    let mut s = ListSelection { selected: None };
    s.select_next();
    assert_eq!(s.selected(), Some(0));
    s.select_previous();
    assert_eq!(s.selected(), Some(0));
    s.select(None);
    s.select_previous();
    assert_eq!(s.selected(), Some(usize::MAX));
    s.select_next();
    assert_eq!(s.selected(), Some(usize::MAX));
}

#[test]
fn installed_screen_keys() {
    let r = repo();
    let mut s = InstalledPackagesScreen::new();
    assert_eq!(s.title(), "Installed packages");
    assert_eq!(s.update(press(KeyCode::Char('j')), &r), None);
    assert_eq!(s.selected(), Some(1));
    assert_eq!(s.selected_package(&r).unwrap().atom, key("app-editors", "vim"));
    assert_eq!(s.update(ctrl('d'), &r), None);
    assert_eq!(s.selected(), Some(31));
    assert!(s.selected_package(&r).is_none());
    assert_eq!(s.update(ctrl('u'), &r), None);
    assert_eq!(s.selected(), Some(1));
    s.update(ctrl('u'), &r);
    assert_eq!(s.selected(), Some(0));
    s.update(press(KeyCode::Char('f')), &r);
    assert_eq!(s.title(), "World packages");
    assert_eq!(s.list_items(&r), vec![&key("app-editors", "vim")]);
    s.update(press(KeyCode::Char('f')), &r);
    assert_eq!(s.list_items(&r).len(), 3);
    assert_eq!(s.update(press(KeyCode::Char('q')), &r), Some(Signal::Quit));
    assert_eq!(s.update(press(KeyCode::Tab), &r), Some(Signal::CycleTab));
    assert_eq!(s.update(press(KeyCode::Char('x')), &r), None);
}

#[test]
fn installed_screen_search() {
    let r = repo();
    let mut s = InstalledPackagesScreen::new();
    s.update(press(KeyCode::Char('/')), &r);
    assert!(s.search_visible());
    assert!(s.routes_to_search_input(press(KeyCode::Char('e'))));
    assert!(!s.routes_to_search_input(press(KeyCode::Enter)));
    s.set_search_query("EMA".to_string());
    s.update(press(KeyCode::Char('A')), &r);
    assert_eq!(s.selected(), Some(2));
    assert!(s.search_found());
    s.update(press(KeyCode::Enter), &r);
    assert!(!s.search_visible());
    assert_eq!(s.selected(), Some(2));
    s.update(press(KeyCode::Char('/')), &r);
    s.update(press(KeyCode::Esc), &r);
    assert!(!s.search_visible());
}

#[test]
fn installed_popup_search_gives_first_match() {
    let r = repo();
    let mut p = InstalledSearch::new();
    p.toggle();
    p.query = "app-editors".to_string();
    assert_eq!(p.search(r.installed_packages()), Some(1));
    assert_eq!(p.result, Some(1));
    p.query = "nothing".to_string();
    assert_eq!(p.search(r.installed_packages()), None);
    p.toggle();
    assert!(!p.visible);
    assert!(p.query.is_empty());
}

#[test]
fn dashboard_keys() {
    let mut d = DashboardScreen::new();
    assert_eq!(d.update(press(KeyCode::Char('q'))), Some(Signal::Quit));
    assert_eq!(d.update(press(KeyCode::Tab)), Some(Signal::CycleTab));
    assert_eq!(d.update(press(KeyCode::Enter)), None);
}

#[test]
fn app_cycles_tabs_and_quits() {
    let mut app = App::new(repo());
    assert_eq!(app.view_state(), ViewState::Dashboard);
    assert!(!app.update(press(KeyCode::Tab)));
    assert_eq!(app.view_state(), ViewState::InstalledPackages);
    assert!(!app.update(press(KeyCode::Char('j'))));
    assert_eq!(app.installed_screen().selected(), Some(1));
    assert!(!app.update(press(KeyCode::Tab)));
    assert_eq!(app.view_state(), ViewState::AvailablePackages);
    assert!(!app.update(press(KeyCode::Tab)));
    assert_eq!(app.view_state(), ViewState::Dashboard);
    assert!(app.update(press(KeyCode::Char('q'))));
    app.cycle_current_tab();
    app.cycle_current_tab();
    app.cycle_current_tab();
    assert_eq!(app.view_state(), ViewState::Dashboard);
}

#[test]
fn handle_event_on_each_tab() {
    let mut app = App::new(repo());
    assert!(!handle_event(&mut app, press(KeyCode::Tab)));
    assert_eq!(app.view_state(), ViewState::InstalledPackages);
    assert!(!handle_event(&mut app, press(KeyCode::Char('q'))));
    assert!(!handle_event(&mut app, press(KeyCode::Tab)));
    assert_eq!(app.view_state(), ViewState::InstalledPackages);
    app.cycle_current_tab();
    assert!(handle_event(&mut app, press(KeyCode::Char('q'))));
    assert!(!handle_event(&mut app, press(KeyCode::Tab)));
    assert_eq!(app.view_state(), ViewState::Dashboard);
}

#[test]
fn tabs_and_metadata() {
    assert_eq!(tab_index(ViewState::Dashboard), 0);
    assert_eq!(tab_index(ViewState::InstalledPackages), 1);
    assert_eq!(tab_index(ViewState::AvailablePackages), 2);
    assert_eq!(tab_titles_list(), vec!["Dashboard", "Installed", "Browse"]);
    let m = Metadata {
        maintainer: Some("Ann".to_string()),
        description: None,
        homepage: vec!["https://a".to_string(), "".to_string(), "https://b".to_string()],
        license: Some("MIT".to_string()),
        repository: "gentoo".to_string(),
    };
    let fields = metadata_fields(&"1.2".to_string(), &m);
    assert_eq!(
        fields,
        vec![
            ("Maintainer: ", "Ann".to_string()),
            ("Version: ", "1.2".to_string()),
            ("Repository: ", "gentoo".to_string()),
            ("License: ", "MIT".to_string()),
            ("Description: ", "Unknown".to_string()),
        ]
    );
    assert_eq!(homepage_urls(&m), vec!["https://a", "https://b"]);
}

#[test]
fn use_flags_lay_out_in_columns() {
    let a = UseFlag::new("a".to_string(), false, false);
    let b = UseFlag::new("bbb".to_string(), false, true);
    let c = UseFlag::new("cc".to_string(), false, false);
    let mut enabled = FlagSet::new();
    enabled.insert("cc".to_string());
    let rows = use_flag_rows(&vec![&a, &b, &c], &enabled, 13);
    assert_eq!(rows.len(), 2);
    assert_eq!(rows[0].len(), 2);
    assert_eq!(rows[1].len(), 1);
    assert_eq!(rows[0][0].text, "a    ");
    assert_eq!(rows[0][0].style, FlagStyle::Disabled);
    assert!(!rows[0][0].italic);
    assert_eq!(rows[0][1].text, "bbb  ");
    assert_eq!(rows[0][1].style, FlagStyle::DefaultOn);
    assert!(rows[0][1].italic);
    assert_eq!(rows[1][0].style, FlagStyle::Enabled);
    let narrow = use_flag_rows(&vec![&a, &b, &c], &enabled, 2);
    assert_eq!(narrow.len(), 3);
    assert!(use_flag_rows(&vec![], &enabled, 80).is_empty());
}

#[test]
fn versions_sort_latest_first() {
    assert!(text_le("1.0", "1.5"));
    assert!(text_le("1", "1.0"));
    assert!(!text_le("2", "10"));
    let p = Package {
        atom: key("a", "b"),
        versions: vec![version("1.0", "x"), version("2.0", "x"), version("1.5", "x"), version("2.0", "y")],
    };
    let vs: Vec<String> = sorted_versions(&p).iter().map(|v| version_to_variant(v)).collect();
    assert_eq!(vs, vec!["2.0::y", "2.0::x", "1.5::x", "1.0::x"]);
    assert_eq!(loading_spinner(1234), "\u{283c}");
    assert_eq!(loading_spinner(0), "\u{280b}");
}

#[test]
fn available_screen_flow() {
    let r = repo();
    let mut s = AvailablePackagesScreen::new();
    assert_eq!(s.update(&Event::LoadStateUpdate(LoadingState::Loading), &r), None);
    assert_eq!(s.update(&Event::LoadStateUpdate(LoadingState::Complete), &r), None);
    assert_eq!(s.selected_package(&r).unwrap().atom, key("app-editors", "vim"));
    let vs = s.selected_package_versions(&r).unwrap();
    assert_eq!(vs[0].version, "9.1");
    assert_eq!(s.update(&Event::KeyEvent(press(KeyCode::Char('j'))), &r), None);
    assert_eq!(s.selected_package(&r).unwrap().atom, key("dev-lang", "rust"));
    s.update(&Event::KeyEvent(press(KeyCode::Char(' '))), &r);
    s.update(&Event::KeyEvent(press(KeyCode::Char('k'))), &r);
    s.update(&Event::KeyEvent(press(KeyCode::Char(' '))), &r);
    s.update(&Event::KeyEvent(press(KeyCode::Char('k'))), &r);
    assert_eq!(s.selected_package(&r).unwrap().atom, key("app-editors", "vim"));
    assert_eq!(s.update(&Event::KeyEvent(press(KeyCode::Char('q'))), &r), Some(Signal::Quit));
    assert_eq!(s.update(&Event::KeyEvent(press(KeyCode::Tab)), &r), Some(Signal::CycleTab));
}

#[test]
fn filter_pressed_twice_comes_back() {
    let r = repo();
    let mut s = InstalledPackagesScreen::new();
    s.update(press(KeyCode::Char('j')), &r);
    s.update(press(KeyCode::Char('j')), &r);
    let before = s.list_items(&r);
    s.update(press(KeyCode::Char('f')), &r);
    assert_ne!(s.list_items(&r), before);
    s.update(press(KeyCode::Char('f')), &r);
    assert_eq!(s.list_items(&r), before);
    assert_eq!(s.selected(), Some(0));
}

#[test]
fn down_then_up_comes_back() {
    let r = repo();
    let mut s = InstalledPackagesScreen::new();
    s.set_selected(Some(5));
    s.update(press(KeyCode::Char('j')), &r);
    assert_eq!(s.selected(), Some(6));
    s.update(press(KeyCode::Char('k')), &r);
    assert_eq!(s.selected(), Some(5));
    s.update(press(KeyCode::Char('k')), &r);
    s.update(press(KeyCode::Char('j')), &r);
    assert_eq!(s.selected(), Some(5));
}

#[test]
fn opening_and_escaping_the_popup_keeps_the_list() {
    let r = repo();
    let mut s = InstalledPackagesScreen::new();
    s.set_selected(Some(2));
    s.update(press(KeyCode::Char('/')), &r);
    assert!(s.search_visible());
    s.update(press(KeyCode::Esc), &r);
    assert!(!s.search_visible());
    assert_eq!(s.selected(), Some(2));
}

#[test]
fn search_lands_on_first_match_or_stays() {
    let r = repo();
    let mut s = InstalledPackagesScreen::new();
    s.set_selected(Some(0));
    s.update(press(KeyCode::Char('/')), &r);
    s.set_search_query("APP-".to_string());
    s.update(press(KeyCode::Enter), &r);
    assert_eq!(s.selected(), Some(1));
    s.update(press(KeyCode::Char('/')), &r);
    s.set_search_query("nothing-like-it".to_string());
    s.update(press(KeyCode::Enter), &r);
    assert_eq!(s.selected(), Some(1));
    assert!(!s.search_found());
}

#[test]
fn three_tabs_bring_back_the_first() {
    let mut app = App::new(repo());
    for _ in 0..3 {
        app.update(press(KeyCode::Tab));
        app.update(press(KeyCode::Char('f')));
    }
    assert_eq!(app.view_state(), ViewState::Dashboard);
    let mut app = App::new(repo());
    for _ in 0..3 {
        app.cycle_current_tab();
    }
    assert_eq!(app.view_state(), ViewState::Dashboard);
}

#[test]
fn sizes_pick_their_unit() {
    assert_eq!(size_unit(0), 0);
    assert_eq!(size_unit(1023), 0);
    assert_eq!(size_unit(1024), 1);
    assert_eq!(size_unit(1024 * 1024 - 1), 1);
    assert_eq!(size_unit(1024 * 1024), 2);
    assert_eq!(size_unit(5 * 1024 * 1024 * 1024), 3);
    assert_eq!(size_unit(usize::MAX), 4);
    assert_eq!(unit_name(0), "B");
    assert_eq!(unit_name(2), "MB");
    assert_eq!(unit_name(4), "TB");
}

#[test]
fn space_twice_comes_back_to_the_list() {
    let r = repo();
    let mut s = AvailablePackagesScreen::new();
    s.update(&Event::LoadStateUpdate(LoadingState::Complete), &r);
    assert_eq!(s.chosen_list(), CurrentList::PackageList);
    s.update(&Event::KeyEvent(press(KeyCode::Char(' '))), &r);
    assert_eq!(s.chosen_list(), CurrentList::VariantList);
    s.update(&Event::KeyEvent(press(KeyCode::Char('j'))), &r);
    assert_eq!(s.variant_selected(), Some(1));
    s.update(&Event::KeyEvent(press(KeyCode::Char(' '))), &r);
    assert_eq!(s.chosen_list(), CurrentList::PackageList);
    assert_eq!(s.variant_selected(), Some(0));
}

#[test]
fn version_moves_stay_in_the_list() {
    let r = repo();
    let mut s = AvailablePackagesScreen::new();
    s.update(&Event::LoadStateUpdate(LoadingState::Complete), &r);
    assert_eq!(s.selected_version().unwrap().version, "9.1");
    s.update(&Event::KeyEvent(press(KeyCode::Char(' '))), &r);
    s.update(&Event::KeyEvent(press(KeyCode::Char('j'))), &r);
    assert_eq!(s.variant_selected(), Some(1));
    assert_eq!(s.selected_version().unwrap().version, "9.0");
    s.update(&Event::KeyEvent(press(KeyCode::Char('j'))), &r);
    assert_eq!(s.variant_selected(), Some(2));
    assert_eq!(s.selected_version().unwrap().version, "8.2");
    s.update(&Event::KeyEvent(press(KeyCode::Char('j'))), &r);
    assert_eq!(s.variant_selected(), Some(2));
    assert_eq!(s.selected_version().unwrap().version, "8.2");
    s.update(&Event::KeyEvent(press(KeyCode::Char('k'))), &r);
    assert_eq!(s.variant_selected(), Some(1));
    assert_eq!(s.selected_version().unwrap().version, "9.0");
    s.update(&Event::KeyEvent(press(KeyCode::Char('k'))), &r);
    s.update(&Event::KeyEvent(press(KeyCode::Char('k'))), &r);
    assert_eq!(s.variant_selected(), Some(0));
    assert_eq!(s.selected_version().unwrap().version, "9.1");
}

#[test]
fn empty_query_finds_the_first_package() {
    let r = repo();
    let mut p = InstalledSearch::new();
    p.toggle();
    assert_eq!(p.search(r.installed_packages()), Some(0));
    let a = key("sys-apps", "portage");
    let b = key("app-editors", "vim");
    let mut w = SearchPopup::new();
    w.toggle();
    assert_eq!(w.search(vec![&a, &b]), Some(0));
    assert_eq!(w.match_status(), Some((1, 2)));
}

#[test]
fn browse_search_types_into_the_query() {
    let r = repo();
    let mut s = AvailablePackagesScreen::new();
    s.update(&Event::LoadStateUpdate(LoadingState::Complete), &r);
    s.update(&Event::KeyEvent(press(KeyCode::Char('/'))), &r);
    assert!(s.search_visible());
    let typed = press(KeyCode::Char('t'));
    assert!(s.routes_to_search_input(typed));
    assert!(!s.routes_to_search_input(press(KeyCode::Enter)));
    s.set_search_query("RUST".to_string());
    assert_eq!(s.update(&Event::KeyEvent(typed), &r), None);
    assert_eq!(s.selected_package(&r).unwrap().atom, key("dev-lang", "rust"));
    assert_eq!(s.update(&Event::KeyEvent(press(KeyCode::Char('q'))), &r), None);
    s.update(&Event::KeyEvent(press(KeyCode::Enter)), &r);
    assert!(!s.search_visible());
    assert_eq!(s.selected_package(&r).unwrap().atom, key("dev-lang", "rust"));
    assert_eq!(s.update(&Event::KeyEvent(press(KeyCode::Char('q'))), &r), Some(Signal::Quit));
}

#[test]
fn signals_only_with_the_popup_hidden() {
    let r = repo();
    let mut s = InstalledPackagesScreen::new();
    assert_eq!(s.update(ctrl('q'), &r), None);
    s.update(press(KeyCode::Char('/')), &r);
    assert_eq!(s.update(press(KeyCode::Tab), &r), None);
    let mut a = AvailablePackagesScreen::new();
    assert_eq!(a.update(&Event::LoadStateUpdate(LoadingState::Loading), &r), None);
    assert_eq!(a.update(&Event::KeyEvent(press(KeyCode::Tab)), &r), Some(Signal::CycleTab));
}

#[test]
fn popup_status_moves_round_the_matches() {
    let a = key("app-vim", "a");
    let b = key("app-vim", "b");
    let c = key("app-vim", "c");
    let mut p = SearchPopup::new();
    p.toggle();
    p.set_query("vim".to_string());
    assert_eq!(p.search(vec![&a, &b, &c]), Some(0));
    assert_eq!(p.match_status(), Some((1, 3)));
    let here = p.current_match();
    assert_eq!(p.next_match(), Some(1));
    assert_eq!(p.match_status(), Some((2, 3)));
    assert_eq!(p.previous_match(), here);
    assert_eq!(p.match_status(), Some((1, 3)));
    assert_eq!(p.previous_match(), Some(2));
    assert_eq!(p.match_status(), Some((3, 3)));
    assert_eq!(p.next_match(), Some(0));
    assert_eq!(p.match_status(), Some((1, 3)));
    let mut empty = SearchPopup::new();
    assert_eq!(empty.next_match(), None);
    assert_eq!(empty.previous_match(), None);
    assert_eq!(empty.match_status(), None);
}
