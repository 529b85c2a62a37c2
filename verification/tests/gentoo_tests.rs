use qview::gentoo::maintainer::{extract_maintainer, maintainer_step, MaintainerStep, XmlEvent};
use qview::gentoo::package::{InstalledPackage, Metadata, Package, PackageKey, PackageVersion};
use qview::gentoo::portage::Portage;
use qview::gentoo::portage_loader::{
    add_available_version, installed_package_from_files, is_manifest, package_version_from_cache, parse_build_time,
    parse_cache_file, parse_flag_set, parse_iuse, parse_size, parse_world_packages, split_pkg, InstalledFiles,
};
use qview::gentoo::sets::{FlagSet, PackageSet};
use qview::gentoo::useflags::UseFlag;
use qview::widgets::package_metadata::build_time_text;

fn key(c: &str, n: &str) -> PackageKey {
    PackageKey { category: c.to_string(), name: n.to_string() }
}

fn metadata(repo: &str) -> Metadata {
    Metadata { maintainer: None, description: None, homepage: vec![], license: None, repository: repo.to_string() }
}

fn installed(c: &str, n: &str, size: usize) -> InstalledPackage {
    InstalledPackage {
        atom: key(c, n),
        version: "1.0".to_string(),
        build_time: 0,
        slot: 0,
        metadata: metadata("gentoo"),
        enabled_use_flags: FlagSet::new(),
        iuse: vec![],
        size,
    }
}

#[test]
fn atoms_read_into_keys() {
    let k = PackageKey::from_atom("app-editors/vim").unwrap();
    assert_eq!(k, key("app-editors", "vim"));
    assert_eq!(PackageKey::from_atom("a/b/c"), Some(key("a", "b/c")));
    assert_eq!(PackageKey::from_atom("noslash"), None);
    assert_eq!(k.qualified_name(), "app-editors/vim");
    assert_eq!(PackageKey::from_atom(&k.qualified_name()), Some(k.clone()));
    assert!(k.same_as(&key("app-editors", "vim")));
    assert!(!k.same_as(&key("app-editors", "emacs")));
}

#[test]
fn use_flag_new_keeps_fields() {
    let f = UseFlag::new("x".to_string(), true, false);
    assert_eq!(f, UseFlag { name: "x".to_string(), enabled: true, default: false });
}

#[test]
fn package_directories_split_at_version() {
    assert_eq!(split_pkg("vim-9.1.0"), ("vim", "9.1.0"));
    assert_eq!(split_pkg("foo-bar-1.0-r1"), ("foo-bar", "1.0-r1"));
    assert_eq!(split_pkg("a-1-2"), ("a-1", "2"));
    assert_eq!(split_pkg("gtk+-3.24.41"), ("gtk+", "3.24.41"));
    assert_eq!(split_pkg("nodash"), ("nodash", ""));
    assert_eq!(split_pkg("trailing-"), ("trailing-", ""));
    assert_eq!(split_pkg(""), ("", ""));
}

#[test]
fn cache_entries_keep_the_last_value() {
    let data = parse_cache_file("DESCRIPTION=A text editor\nX=1\nbadline\r\nX=2\nEQ=a=b\n");
    assert_eq!(data.get("DESCRIPTION").map(|s| s.as_str()), Some("A text editor"));
    assert_eq!(data.get("X").map(|s| s.as_str()), Some("2"));
    assert_eq!(data.get("EQ").map(|s| s.as_str()), Some("a=b"));
    assert_eq!(data.get("badline"), None);
    assert_eq!(data.get("MISSING"), None);
}

#[test]
fn iuse_marks_defaults() {
    let flags = parse_iuse("+foo bar +");
    assert_eq!(
        flags,
        vec![
            UseFlag::new("foo".to_string(), false, true),
            UseFlag::new("bar".to_string(), false, false),
            UseFlag::new("".to_string(), false, true),
        ]
    );
    assert!(parse_iuse("").is_empty());
}

#[test]
fn flag_sets_hold_each_name_once() {
    let set = parse_flag_set("a b a\nc");
    assert_eq!(set.len(), 3);
    assert!(set.contains("a"));
    assert!(set.contains("c"));
    assert!(!set.contains("d"));
    let mut s = FlagSet::new();
    s.insert("x".to_string());
    s.insert("x".to_string());
    assert_eq!(s.len(), 1);
}

#[test]
fn world_file_reads_into_a_set() {
    let set = parse_world_packages("app-editors/vim\nsys-apps/portage\ninvalid\napp-editors/vim\n");
    assert_eq!(set.len(), 2);
    assert!(set.contains(&key("app-editors", "vim")));
    assert!(set.contains(&key("sys-apps", "portage")));
    assert!(!set.contains(&key("", "invalid")));
}

#[test]
fn build_times_and_sizes() {
    assert_eq!(parse_build_time(" 1700000000\n"), 1700000000);
    assert_eq!(parse_build_time("-5"), -5);
    assert_eq!(parse_build_time("abc"), 0);
    assert_eq!(parse_build_time("9223372036854775807"), 0);
    assert_eq!(parse_build_time("8210266876799"), 8210266876799);
    assert_eq!(parse_build_time("8210266876800"), 0);
    assert_eq!(parse_build_time("-8334601228800"), -8334601228800);
    assert_eq!(parse_build_time("-8334601228801"), 0);
    assert_eq!(parse_size("1024\n"), 1024);
    assert_eq!(parse_size("x"), 0);
}

#[test]
fn installed_records_come_from_files() {
    let files = InstalledFiles {
        use_flags: "abi_x86_64 gtk\n".to_string(),
        iuse: "+gtk -x doc\n".to_string(),
        repository: "gentoo\n".to_string(),
        homepage: Some("https://a https://b\n".to_string()),
        license: Some(" GPL-2 \n".to_string()),
        description: None,
        size: "2048\n".to_string(),
        build_time: "1700000000\n".to_string(),
    };
    let p = installed_package_from_files("app-editors", "vim-9.1.0-r1", &files, Some("Ann".to_string()));
    assert_eq!(p.atom, key("app-editors", "vim"));
    assert_eq!(p.version, "9.1.0-r1");
    assert_eq!(p.build_time, 1700000000);
    assert_eq!(p.size, 2048);
    assert_eq!(p.slot, 0);
    assert_eq!(p.metadata.repository, "gentoo");
    assert_eq!(p.metadata.license.as_deref(), Some("GPL-2"));
    assert_eq!(p.metadata.description, None);
    assert_eq!(p.metadata.maintainer.as_deref(), Some("Ann"));
    assert_eq!(p.metadata.homepage, vec!["https://a", "https://b"]);
    assert!(p.enabled_use_flags.contains("gtk"));
    assert_eq!(p.enabled_use_flags.len(), 2);
    assert_eq!(p.iuse.len(), 3);
    assert!(p.iuse[0].default);
    assert_eq!(p.iuse[1].name, "-x");
}

#[test]
fn cache_entries_make_versions() {
    let data = parse_cache_file("DESCRIPTION=Vi IMproved\nHOMEPAGE=https://vim.org\nIUSE=+acl gui\nKEYWORDS=amd64 ~arm64\nLICENSE=vim\n");
    let v = package_version_from_cache("9.1", &data, "gentoo", None);
    assert_eq!(v.version, "9.1");
    assert_eq!(v.keywords, vec!["amd64", "~arm64"]);
    assert_eq!(v.metadata.homepage, vec!["https://vim.org"]);
    assert_eq!(v.metadata.description.as_deref(), Some("Vi IMproved"));
    assert_eq!(v.metadata.license.as_deref(), Some("vim"));
    assert_eq!(v.metadata.repository, "gentoo");
    assert_eq!(v.iuse, vec![UseFlag::new("acl".to_string(), false, true), UseFlag::new("gui".to_string(), false, false)]);
    let empty = package_version_from_cache("1", &parse_cache_file(""), "r", None);
    assert!(empty.keywords.is_empty());
    assert!(empty.iuse.is_empty());
    assert_eq!(empty.metadata.description, None);
}

fn version(v: &str, repo: &str) -> PackageVersion {
    PackageVersion { version: v.to_string(), metadata: metadata(repo), keywords: vec![], iuse: vec![] }
}

#[test]
fn versions_group_by_package() {
    let mut packages: Vec<Package> = Vec::new();
    add_available_version(&mut packages, key("a", "x"), version("1", "gentoo"));
    add_available_version(&mut packages, key("a", "y"), version("2", "gentoo"));
    add_available_version(&mut packages, key("a", "x"), version("3", "guru"));
    assert_eq!(packages.len(), 2);
    assert_eq!(packages[0].atom, key("a", "x"));
    assert_eq!(packages[0].versions.len(), 2);
    assert_eq!(packages[0].versions[1].version, "3");
    assert_eq!(packages[1].versions.len(), 1);
}

#[test]
fn maintainer_is_the_first_text_inside_maintainer() {
    let xml = "<?xml version=\"1.0\"?>\n<pkgmetadata>\n  <longdescription>x</longdescription>\n  <maintainer type=\"person\">\n    <email>ann@example.org</email>\n    <name>Ann</name>\n  </maintainer>\n</pkgmetadata>\n";
    assert_eq!(extract_maintainer(xml).as_deref(), Some("ann@example.org"));
    assert_eq!(extract_maintainer("<pkgmetadata><upstream>u</upstream></pkgmetadata>"), None);
    assert_eq!(extract_maintainer(""), None);
    assert_eq!(extract_maintainer("<maintainer>Bob</maintainer>").as_deref(), Some("Bob"));
}

#[test]
fn portage_queries() {
    let mut world = PackageSet::new();
    world.insert(key("app-editors", "vim"));
    world.insert(key("x", "not-installed"));
    let p = Portage::new(
        vec![installed("sys-apps", "portage", 100), installed("app-editors", "vim", 50), installed("dev-lang", "rust", 7)],
        world,
        vec![],
    );
    assert_eq!(p.installed_packages_len(), 3);
    assert_eq!(p.installed_packages().len(), 3);
    assert_eq!(p.world_packages_len(), 2);
    let w = p.world_packages();
    assert_eq!(w.len(), 1);
    assert_eq!(w[0].atom, key("app-editors", "vim"));
    assert!(p.get_installed_package(0).is_none());
    assert_eq!(p.get_installed_package(1).unwrap().atom, key("app-editors", "vim"));
    assert!(p.get_installed_package(3).is_none());
    assert_eq!(p.get_installed_package_key(&key("dev-lang", "rust")).unwrap().size, 7);
    assert!(p.get_installed_package_key(&key("dev-lang", "go")).is_none());
    assert_eq!(p.total_installed_size(), 157);
    assert!(p.available_packages().is_empty());
}

#[test]
fn manifests_are_passed_over() {
    assert!(is_manifest("Manifest.gz"));
    assert!(!is_manifest("app-editors"));
    assert!(!is_manifest("Manifest"));
    assert!(!is_manifest("manifest.gz"));
}

#[test]
fn checked_total_size_reports_overflow() {
    let p = Portage::new(vec![installed("a", "b", 100), installed("c", "d", 57)], PackageSet::new(), vec![]);
    assert_eq!(p.checked_total_installed_size(), Some(157));
    let q = Portage::new(vec![installed("a", "b", usize::MAX), installed("c", "d", 1)], PackageSet::new(), vec![]);
    assert_eq!(q.checked_total_installed_size(), None);
    let e = Portage::new(vec![], PackageSet::new(), vec![]);
    assert_eq!(e.checked_total_installed_size(), Some(0));
}

#[test]
fn maintainer_steps() {
    let tag = b"maintainer".to_vec();
    assert!(matches!(maintainer_step(false, XmlEvent::Start(tag.clone())), MaintainerStep::Continue(true)));
    assert!(matches!(maintainer_step(false, XmlEvent::Start(b"name".to_vec())), MaintainerStep::Continue(false)));
    assert!(matches!(maintainer_step(true, XmlEvent::Start(b"name".to_vec())), MaintainerStep::Continue(true)));
    match maintainer_step(true, XmlEvent::Text(Some("ann".to_string()))) {
        MaintainerStep::Found(Some(t)) => assert_eq!(t, "ann"),
        other => panic!("unexpected {:?}", other),
    }
    assert!(matches!(maintainer_step(true, XmlEvent::Text(None)), MaintainerStep::Found(None)));
    assert!(matches!(maintainer_step(false, XmlEvent::Text(Some("x".to_string()))), MaintainerStep::Continue(false)));
    assert!(matches!(maintainer_step(true, XmlEvent::End(tag)), MaintainerStep::Continue(false)));
    assert!(matches!(maintainer_step(true, XmlEvent::End(b"email".to_vec())), MaintainerStep::Continue(true)));
    assert!(matches!(maintainer_step(true, XmlEvent::Eof), MaintainerStep::Stop));
    assert!(matches!(maintainer_step(false, XmlEvent::Error), MaintainerStep::Stop));
    assert!(matches!(maintainer_step(true, XmlEvent::Other), MaintainerStep::Continue(true)));
}

#[test]
fn build_times_read_as_utc_text() {
    assert_eq!(build_time_text(0), "1970-01-01 00:00:00 UTC");
    assert_eq!(build_time_text(1700000000), "2023-11-14 22:13:20 UTC");
    assert_eq!(build_time_text(i64::MAX), "1970-01-01 00:00:00 UTC");
}

#[test]
fn maintainer_is_the_email_before_the_name() {
    let xml = "<pkgmetadata><maintainer type='person'><email>dev@gentoo.org</email><name>Dev</name></maintainer></pkgmetadata>";
    assert_eq!(extract_maintainer(xml), Some("dev@gentoo.org".to_string()));
}
