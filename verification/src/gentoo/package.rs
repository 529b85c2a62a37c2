//! The package records of a Portage tree and of the installed-package database.
use vstd::prelude::*;

use crate::gentoo::sets::FlagSet;
use crate::gentoo::useflags::{flags_view, UseFlag};
use crate::text::{clone_opt, clone_strs, opt_view, split_once, split_once_at, strs_view};

verus! {

/// A package name together with its category, such as `app-editors/vim`.
#[derive(Debug, Hash, Eq, PartialEq, Ord, PartialOrd)]
pub struct PackageKey {
    pub category: String,
    pub name: String,
}

impl View for PackageKey {
    type V = (Seq<char>, Seq<char>);

    open spec fn view(&self) -> (Seq<char>, Seq<char>) {
        (self.category@, self.name@)
    }
}

/// `category/name`.
pub open spec fn qualified(key: (Seq<char>, Seq<char>)) -> Seq<char> {
    key.0 + seq!['/'] + key.1
}

impl Clone for PackageKey {
    fn clone(&self) -> (r: Self)
        ensures
            r@ == self@,
    {
        PackageKey { category: self.category.clone(), name: self.name.clone() }
    }
}

impl PackageKey {
    /// Reads an atom `category/name`: the category is what stands before the first
    /// `/`, the name all that follows it; without a `/` there is no key.
    pub fn from_atom(s: &str) -> (r: Option<Self>)
        ensures
            match r {
                Some(k) => split_once_at(s@, '/') == Some(k@),
                None => split_once_at(s@, '/') is None,
            },
    {
        match split_once(s, '/') {
            Some((category, name)) => Some(Self { category, name }),
            None => None,
        }
    }

    /// `category/name`.
    pub fn qualified_name(&self) -> (r: String)
        ensures
            r@ == qualified(self@),
    {
        let mut r = self.category.clone();
        let slash = "/";
        proof {
            reveal_strlit("/");
        }
        r.append(slash);
        r.append(self.name.as_str());
        r
    }

    /// Tests whether both keys name the same package.
    pub fn same_as(&self, other: &PackageKey) -> (b: bool)
        ensures
            b == (self@ == other@),
    {
        self.category == other.category && self.name == other.name
    }
}

/// What the tree or the database says of a package version besides its flags.
#[derive(Debug)]
pub struct Metadata {
    pub maintainer: Option<String>,
    pub description: Option<String>,
    pub homepage: Vec<String>,
    pub license: Option<String>,
    pub repository: String,
}

/// The content of [`Metadata`].
pub struct MetadataView {
    pub maintainer: Option<Seq<char>>,
    pub description: Option<Seq<char>>,
    pub homepage: Seq<Seq<char>>,
    pub license: Option<Seq<char>>,
    pub repository: Seq<char>,
}

impl View for Metadata {
    type V = MetadataView;

    open spec fn view(&self) -> MetadataView {
        MetadataView {
            maintainer: opt_view(self.maintainer),
            description: opt_view(self.description),
            homepage: strs_view(self.homepage@),
            license: opt_view(self.license),
            repository: self.repository@,
        }
    }
}

impl Clone for Metadata {
    fn clone(&self) -> (r: Self)
        ensures
            r@ == self@,
    {
        Metadata {
            maintainer: clone_opt(&self.maintainer),
            description: clone_opt(&self.description),
            homepage: clone_strs(&self.homepage),
            license: clone_opt(&self.license),
            repository: self.repository.clone(),
        }
    }
}

/// A package as the installed-package database records it.
#[derive(Debug)]
pub struct InstalledPackage {
    pub atom: PackageKey,
    pub version: String,
    /// When it was built, in seconds since the Unix epoch.
    pub build_time: i64,
    pub slot: i32,
    pub metadata: Metadata,
    pub enabled_use_flags: FlagSet,
    pub iuse: Vec<UseFlag>,
    pub size: usize,
}

/// A package of the tree with every version that some repository offers.
#[derive(Debug)]
pub struct Package {
    pub atom: PackageKey,
    pub versions: Vec<PackageVersion>,
}

/// One version of a package as a repository's metadata cache describes it.
#[derive(Debug)]
pub struct PackageVersion {
    pub version: String,
    pub metadata: Metadata,
    pub keywords: Vec<String>,
    pub iuse: Vec<UseFlag>,
}

/// The content of a [`PackageVersion`].
pub struct PackageVersionView {
    pub version: Seq<char>,
    pub metadata: MetadataView,
    pub keywords: Seq<Seq<char>>,
    pub iuse: Seq<(Seq<char>, bool, bool)>,
}

impl View for PackageVersion {
    type V = PackageVersionView;

    open spec fn view(&self) -> PackageVersionView {
        PackageVersionView {
            version: self.version@,
            metadata: self.metadata@,
            keywords: strs_view(self.keywords@),
            iuse: flags_view(self.iuse@),
        }
    }
}

impl Clone for PackageVersion {
    fn clone(&self) -> (r: Self)
        ensures
            r@ == self@,
    {
        PackageVersion {
            version: self.version.clone(),
            metadata: self.metadata.clone(),
            keywords: clone_strs(&self.keywords),
            iuse: clone_flags(&self.iuse),
        }
    }
}

/// A copy of a list of flags.
pub fn clone_flags(v: &Vec<UseFlag>) -> (r: Vec<UseFlag>)
    ensures
        flags_view(r@) == flags_view(v@),
{
    let mut r: Vec<UseFlag> = Vec::new();
    let n = v.len();
    let mut i: usize = 0;
    while i < n
        invariant
            n == v@.len(),
            i <= n,
            flags_view(r@) =~= flags_view(v@.take(i as int)),
        decreases n - i,
    {
        let x = v[i].clone();
        let ghost before = r@;
        r.push(x);
        assert(flags_view(r@) =~= flags_view(before).push(x@));
        assert(v@.take(i + 1) =~= v@.take(i as int).push(v@[i as int]));
        assert(flags_view(v@.take(i + 1)) =~= flags_view(v@.take(i as int)).push(v@[i as int]@));
        i = i + 1;
    }
    assert(v@.take(n as int) =~= v@);
    r
}

/// The views of a list of versions.
pub open spec fn versions_view(v: Seq<PackageVersion>) -> Seq<PackageVersionView> {
    v.map_values(|x: PackageVersion| x@)
}

impl View for Package {
    type V = ((Seq<char>, Seq<char>), Seq<PackageVersionView>);

    open spec fn view(&self) -> ((Seq<char>, Seq<char>), Seq<PackageVersionView>) {
        (self.atom@, versions_view(self.versions@))
    }
}

/// The views of a list of packages.
pub open spec fn packages_view(v: Seq<Package>) -> Seq<((Seq<char>, Seq<char>), Seq<PackageVersionView>)> {
    v.map_values(|p: Package| p@)
}

/// No two packages of `v` have the same key.
pub open spec fn distinct_atoms(v: Seq<Package>) -> bool {
    forall|i: int, j: int| 0 <= i < v.len() && 0 <= j < v.len() && i != j ==> v[i].atom@ != v[j].atom@
}

} // verus!

verus! {

/// Reading an atom and writing the key's qualified name gives the atom back.
pub proof fn law_atom_round_trip(s: Seq<char>)
    ensures
        match split_once_at(s, '/') {
            Some(k) => qualified(k) == s,
            None => true,
        },
{
    crate::text::law_split_once_rejoins(s, '/');
}

/// Writing a key's qualified name and reading it as an atom gives the key back, where
/// the category holds no `'/'`.
pub proof fn law_key_round_trip(key: (Seq<char>, Seq<char>))
    requires
        !key.0.contains('/'),
    ensures
        split_once_at(qualified(key), '/') == Some(key),
{
    crate::text::law_split_once_of_join(key.0, '/', key.1);
}

} // verus!
