//! Reading the text that Portage keeps about packages: directory names of the form
//! `name-version`, `KEY=value` metadata caches, the world file, flag lists and the
//! one-value files of the installed-package database.
use vstd::prelude::*;

use crate::gentoo::package::{
    InstalledPackage, Metadata, MetadataView, Package, PackageKey, PackageVersion, distinct_atoms,
    packages_view, versions_view,
};
use crate::gentoo::sets::{FlagSet, PackageSet};
use crate::gentoo::useflags::{UseFlag, flags_view};
use crate::text::{
    chars_of, clone_strs, is_digit, lines, opt_view, parse_i64, parse_i64_spec, parse_usize,
    parse_usize_spec, same_text, split_lines, split_once, split_once_at, split_words, strs_view,
    substring, trim, trimmed, words,
};

verus! {

/// A `'-'` at `i` that a digit follows: where a package name ends and its version
/// begins.
pub open spec fn is_version_dash(s: Seq<char>, i: int) -> bool {
    0 <= i && i + 1 < s.len() && s[i] == '-' && is_digit(s[i + 1])
}

/// A package directory name split into name and version at the last `'-'` that a
/// digit follows; with no such `'-'`, the whole text is the name and the version is
/// empty.
pub open spec fn split_pkg_spec(s: Seq<char>) -> (Seq<char>, Seq<char>) {
    if exists|i: int| is_version_dash(s, i) {
        let i = choose|i: int|
            is_version_dash(s, i) && forall|j: int| is_version_dash(s, j) ==> j <= i;
        (s.take(i), s.skip(i + 1))
    } else {
        (s, seq![])
    }
}

/// Splits a package directory name such as `vim-9.1.0` into name and version.
pub fn split_pkg(input: &str) -> (r: (&str, &str))
    ensures
        (r.0@, r.1@) == split_pkg_spec(input@),
{
    let cs = chars_of(input);
    let n = cs.len();
    let mut i: usize = n;
    while i > 0
        invariant
            cs@ == input@,
            n == input@.len(),
            i <= n,
            forall|j: int| i <= j < n ==> !is_version_dash(input@, j),
        decreases i,
    {
        i = i - 1;
        if cs[i] == '-' && i + 1 < n && '0' as u32 <= cs[i + 1] as u32 && cs[i + 1] as u32
            <= '9' as u32 {
            proof {
                assert(is_version_dash(input@, i as int));
                assert forall|j: int| is_version_dash(input@, j) implies j <= i by {
                    if j > i {
                        assert(!is_version_dash(input@, j));
                    }
                }
            }
            let name = input.substring_char(0, i);
            let version = input.substring_char(i + 1, n);
            assert(name@ =~= input@.take(i as int));
            assert(version@ =~= input@.skip(i + 1));
            return (name, version);
        }
    }
    let version = input.substring_char(n, n);
    assert(version@ =~= seq![]);
    assert(input@.subrange(0, n as int) =~= input@);
    (input.substring_char(0, n), version)
}

/// The name of the file that signs a directory of the metadata cache; it describes
/// no category or package.
pub open spec fn manifest_name() -> Seq<char> {
    "Manifest.gz"@
}

/// Tells whether a name in the metadata cache is its `Manifest.gz`, which the loader
/// passes over.
pub fn is_manifest(name: &str) -> (r: bool)
    ensures
        r == (name@ == manifest_name()),
{
    same_text(name, "Manifest.gz")
}

/// The map that the `KEY=value` lines `ls` give: each line with a `'='` sets the key
/// before its first `'='` to all that follows it, a later line overriding an earlier
/// one; lines without `'='` are passed over.
pub open spec fn cache_map(ls: Seq<Seq<char>>) -> Map<Seq<char>, Seq<char>>
    decreases ls.len(),
{
    if ls.len() == 0 {
        Map::empty()
    } else {
        let m = cache_map(ls.drop_last());
        match split_once_at(ls.last(), '=') {
            Some((k, v)) => m.insert(k, v),
            None => m,
        }
    }
}

/// The key/value pairs of a metadata cache entry, each key once.
#[derive(Debug)]
pub struct CacheData {
    entries: Vec<(String, String)>,
}

impl View for CacheData {
    type V = Map<Seq<char>, Seq<char>>;

    closed spec fn view(&self) -> Map<Seq<char>, Seq<char>> {
        Map::new(
            |k: Seq<char>| self.keys_view().contains(k),
            |k: Seq<char>| self.entries@[self.keys_view().index_of(k)].1@,
        )
    }
}

impl CacheData {
    spec fn keys_view(&self) -> Seq<Seq<char>> {
        self.entries@.map_values(|e: (String, String)| e.0@)
    }

    #[verifier::type_invariant]
    spec fn inv(&self) -> bool {
        self.keys_view().no_duplicates()
    }

    /// No pairs.
    pub fn new() -> (r: Self)
        ensures
            r@ == Map::<Seq<char>, Seq<char>>::empty(),
    {
        let r = CacheData { entries: Vec::new() };
        assert(r@ =~= Map::<Seq<char>, Seq<char>>::empty());
        r
    }

    fn find(&self, key: &str) -> (r: Option<usize>)
        ensures
            match r {
                Some(i) => i < self.entries@.len() && self.keys_view()[i as int] == key@,
                None => !self.keys_view().contains(key@),
            },
    {
        let n = self.entries.len();
        let mut i: usize = 0;
        while i < n
            invariant
                n == self.entries@.len(),
                i <= n,
                forall|k: int| 0 <= k < i ==> self.entries@[k].0@ != key@,
            decreases n - i,
        {
            if same_text(self.entries[i].0.as_str(), key) {
                return Some(i);
            }
            i = i + 1;
        }
        proof {
            if self.keys_view().contains(key@) {
                let k = choose|k: int|
                    0 <= k < self.keys_view().len() && self.keys_view()[k] == key@;
                assert(self.entries@[k].0@ == key@);
            }
        }
        None
    }

    proof fn lemma_index_of(&self, i: int)
        requires
            self.inv(),
            0 <= i < self.entries@.len(),
        ensures
            self.keys_view().index_of(self.keys_view()[i]) == i,
    {
        let ks = self.keys_view();
        assert(ks.contains(ks[i]));
        let j = ks.index_of(ks[i]);
        assert(0 <= j < ks.len() && ks[j] == ks[i]);
    }

    /// The value of `key`, if it has one.
    pub fn get(&self, key: &str) -> (r: Option<&String>)
        ensures
            match r {
                Some(v) => self@.contains_key(key@) && self@[key@] == v@,
                None => !self@.contains_key(key@),
            },
    {
        proof {
            use_type_invariant(self);
        }
        match self.find(key) {
            Some(i) => {
                proof {
                    self.lemma_index_of(i as int);
                }
                Some(&self.entries[i].1)
            },
            None => None,
        }
    }

    /// Sets `key` to `value`, replacing what it had.
    pub fn insert(&mut self, key: String, value: String)
        ensures
            final(self)@ == old(self)@.insert(key@, value@),
    {
        proof {
            use_type_invariant(&*self);
        }
        let ghost old_self = *self;
        let ghost kv = key@;
        let ghost vv = value@;
        let found = self.find(key.as_str());
        let mut entries: Vec<(String, String)> = Vec::new();
        std::mem::swap(&mut entries, &mut self.entries);
        match found {
            Some(i) => {
                entries.set(i, (key, value));
                let ghost ks = entries@.map_values(|e: (String, String)| e.0@);
                assert(ks =~= old_self.keys_view());
                self.entries = entries;
                proof {
                    assert forall|k: Seq<char>| #[trigger] self@.contains_key(k) implies self@[k]
                        == old_self@.insert(kv, vv)[k] by {
                        let j = ks.index_of(k);
                        if k == kv {
                            self.lemma_index_of(i as int);
                        } else {
                            assert(ks.contains(k));
                            assert(0 <= j < ks.len() && ks[j] == k);
                            assert(j != i);
                        }
                    }
                    assert(self@ =~= old_self@.insert(kv, vv));
                }
            },
            None => {
                entries.push((key, value));
                let ghost ks = entries@.map_values(|e: (String, String)| e.0@);
                assert(ks =~= old_self.keys_view().push(kv));
                self.entries = entries;
                proof {
                    assert forall|k: Seq<char>| #[trigger] self@.contains_key(k) implies self@[k]
                        == old_self@.insert(kv, vv)[k] by {
                        let j = ks.index_of(k);
                        assert(ks.contains(k));
                        assert(0 <= j < ks.len() && ks[j] == k);
                        if k == kv {
                            assert(j == ks.len() - 1);
                        } else {
                            let ok = old_self.keys_view();
                            assert(ok.contains(k)) by {
                                assert(ok[j] == k);
                            }
                            let j2 = ok.index_of(k);
                            assert(0 <= j2 < ok.len() && ok[j2] == k);
                            assert(j2 == j);
                        }
                    }
                    assert forall|k: Seq<char>|
                        old_self@.insert(kv, vv).contains_key(k) implies #[trigger] self@.contains_key(k) by {
                        if k == kv {
                            assert(ks[ks.len() - 1] == kv);
                        } else if old_self.keys_view().contains(k) {
                            let j = choose|j: int|
                                0 <= j < old_self.keys_view().len() && old_self.keys_view()[j]
                                    == k;
                            assert(ks[j] == k);
                        }
                    }
                    assert(self@ =~= old_self@.insert(kv, vv));
                }
            },
        }
    }
}

/// Reads a metadata cache entry: one `KEY=value` pair per line.
pub fn parse_cache_file(content: &str) -> (r: CacheData)
    ensures
        r@ == cache_map(lines(content@)),
{
    let ls = split_lines(content);
    let ghost lv = strs_view(ls@);
    let mut data = CacheData::new();
    let n = ls.len();
    let mut i: usize = 0;
    assert(lv.take(0) =~= seq![]);
    while i < n
        invariant
            n == ls@.len(),
            lv == strs_view(ls@),
            lv == lines(content@),
            i <= n,
            data@ == cache_map(lv.take(i as int)),
        decreases n - i,
    {
        assert(lv.take(i + 1).drop_last() =~= lv.take(i as int));
        assert(lv.take(i + 1).last() == ls@[i as int]@);
        match split_once(ls[i].as_str(), '=') {
            Some((k, v)) => {
                data.insert(k, v);
            },
            None => {},
        }
        i = i + 1;
    }
    assert(lv.take(n as int) =~= lv);
    data
}

} // verus!

verus! {

/// A flag of an `IUSE` list without its leading `'+'`.
pub open spec fn strip_plus(w: Seq<char>) -> Seq<char> {
    if w.len() > 0 && w[0] == '+' {
        w.drop_first()
    } else {
        w
    }
}

/// The flag that an `IUSE` word declares: its name without the `'+'`, off, and on
/// by default when a `'+'` stood before it.
pub open spec fn iuse_flag(w: Seq<char>) -> (Seq<char>, bool, bool) {
    (strip_plus(w), false, w.len() > 0 && w[0] == '+')
}

/// The flags that an `IUSE` text declares, in order.
pub open spec fn iuse_flags(text: Seq<char>) -> Seq<(Seq<char>, bool, bool)> {
    words(text).map_values(|w: Seq<char>| iuse_flag(w))
}

/// Reads an `IUSE` list: whitespace-separated flag names, each perhaps after a `'+'`
/// that makes it on by default.
pub fn parse_iuse(text: &str) -> (r: Vec<UseFlag>)
    ensures
        flags_view(r@) == iuse_flags(text@),
{
    let ws = split_words(text);
    let ghost wv = strs_view(ws@);
    let mut out: Vec<UseFlag> = Vec::new();
    let n = ws.len();
    let mut i: usize = 0;
    while i < n
        invariant
            n == ws@.len(),
            wv == strs_view(ws@),
            wv == words(text@),
            i <= n,
            flags_view(out@) =~= wv.take(i as int).map_values(|w: Seq<char>| iuse_flag(w)),
        decreases n - i,
    {
        let w = ws[i].as_str();
        let cs = chars_of(w);
        let plus = cs.len() > 0 && cs[0] == '+';
        let name = if plus {
            substring(w, 1, cs.len())
        } else {
            substring(w, 0, cs.len())
        };
        assert(name@ =~= strip_plus(w@));
        let f = UseFlag::new(name, false, plus);
        let ghost before = out@;
        out.push(f);
        assert(flags_view(out@) =~= flags_view(before).push(f@));
        assert(wv.take(i + 1) =~= wv.take(i as int).push(wv[i as int]));
        i = i + 1;
    }
    assert(wv.take(n as int) =~= wv);
    out
}

/// Reads a list of enabled flags, such as a `USE` file, into a set.
pub fn parse_flag_set(text: &str) -> (r: FlagSet)
    ensures
        r@ == words(text@).to_set(),
{
    let ws = split_words(text);
    let ghost wv = strs_view(ws@);
    let mut set = FlagSet::new();
    let n = ws.len();
    let mut i: usize = 0;
    assert(wv.take(0).to_set() =~= Set::<Seq<char>>::empty());
    while i < n
        invariant
            n == ws@.len(),
            wv == strs_view(ws@),
            wv == words(text@),
            i <= n,
            set@ == wv.take(i as int).to_set(),
        decreases n - i,
    {
        let w = ws[i].clone();
        set.insert(w);
        proof {
            assert(wv.take(i + 1) =~= wv.take(i as int).push(wv[i as int]));
            wv.take(i as int).lemma_push_to_set_commute(wv[i as int]);
        }
        i = i + 1;
    }
    assert(wv.take(n as int) =~= wv);
    set
}

/// The keys that the atoms among `ws` name; words without a `'/'` name none.
pub open spec fn atom_keys(ws: Seq<Seq<char>>) -> Set<(Seq<char>, Seq<char>)>
    decreases ws.len(),
{
    if ws.len() == 0 {
        Set::empty()
    } else {
        let s = atom_keys(ws.drop_last());
        match split_once_at(ws.last(), '/') {
            Some(k) => s.insert(k),
            None => s,
        }
    }
}

/// Reads the world file: whitespace-separated atoms `category/name`.
pub fn parse_world_packages(content: &str) -> (r: PackageSet)
    ensures
        r@ == atom_keys(words(content@)),
{
    let ws = split_words(content);
    let ghost wv = strs_view(ws@);
    let mut set = PackageSet::new();
    let n = ws.len();
    let mut i: usize = 0;
    assert(wv.take(0) =~= seq![]);
    while i < n
        invariant
            n == ws@.len(),
            wv == strs_view(ws@),
            wv == words(content@),
            i <= n,
            set@ == atom_keys(wv.take(i as int)),
        decreases n - i,
    {
        assert(wv.take(i + 1).drop_last() =~= wv.take(i as int));
        assert(wv.take(i + 1).last() == ws@[i as int]@);
        match PackageKey::from_atom(ws[i].as_str()) {
            Some(k) => set.insert(k),
            None => {},
        }
        i = i + 1;
    }
    assert(wv.take(n as int) =~= wv);
    set
}

/// The counts of seconds after the Unix epoch of which chrono makes a date: those from
/// the first second of the year -262143 to the last of the year 262142.
pub open spec fn chrono_secs_in_range(secs: i64) -> bool {
    -8_334_601_228_800 <= secs <= 8_210_266_876_799
}

/// The text that chrono's `Display` gives for the UTC date and time `secs` seconds after
/// the Unix epoch, such as `1970-01-01 00:00:00 UTC`.
pub uninterp spec fn utc_text(secs: i64) -> Seq<char>;

/// Makes a date of `secs` with chrono's `DateTime::from_timestamp_secs` and writes it
/// with its `Display` (`to_string`). The contract claims that a date is made exactly for
/// the counts of [`chrono_secs_in_range`]: chrono's source computes the day
/// `secs.div_euclid(86400) + 719163` and accepts it when it falls between its first date
/// (1 January -262143) and its last (31 December 262142). Of the text it claims only that
/// it depends on `secs` alone.
#[verifier::external_body]
pub(crate) fn utc_date_text(secs: i64) -> (r: Option<String>)
    ensures
        r is Some <==> chrono_secs_in_range(secs),
        r matches Some(t) ==> t@ == utc_text(secs),
{
    match chrono::DateTime::from_timestamp_secs(secs) {
        Some(d) => Some(d.to_string()),
        None => None,
    }
}

/// The build time that a `BUILD_TIME` file gives: its trimmed text read as a count of
/// seconds, or the epoch where that fails or chrono cannot make a date of it.
pub open spec fn build_time_of(text: Seq<char>) -> i64 {
    match parse_i64_spec(trim(text)) {
        Some(v) => if chrono_secs_in_range(v) {
            v
        } else {
            0
        },
        None => 0,
    }
}

/// Reads a `BUILD_TIME` file.
pub fn parse_build_time(text: &str) -> (r: i64)
    ensures
        r == build_time_of(text@),
{
    let t = trimmed(text);
    match parse_i64(t.as_str()) {
        Some(v) => if utc_date_text(v).is_some() {
            v
        } else {
            0
        },
        None => 0,
    }
}

/// The size that a `SIZE` file gives: its trimmed text as a number, or 0.
pub open spec fn size_of(text: Seq<char>) -> usize {
    match parse_usize_spec(trim(text)) {
        Some(v) => v,
        None => 0,
    }
}

/// Reads a `SIZE` file.
pub fn parse_size(text: &str) -> (r: usize)
    ensures
        r == size_of(text@),
{
    let t = trimmed(text);
    match parse_usize(t.as_str()) {
        Some(v) => v,
        None => 0,
    }
}

/// The trimmed text of a file that may be missing.
pub open spec fn opt_trim(o: Option<String>) -> Option<Seq<char>> {
    match o {
        Some(s) => Some(trim(s@)),
        None => None,
    }
}

/// The trimmed text of a file that may be missing.
pub fn trimmed_opt(o: &Option<String>) -> (r: Option<String>)
    ensures
        opt_view(r) == opt_trim(*o),
{
    match o {
        Some(s) => Some(trimmed(s.as_str())),
        None => None,
    }
}

/// The texts of the files that the installed-package database keeps in a package's
/// directory; a file that may be missing is `None` when it could not be read.
#[derive(Debug)]
pub struct InstalledFiles {
    pub use_flags: String,
    pub iuse: String,
    pub repository: String,
    pub homepage: Option<String>,
    pub license: Option<String>,
    pub description: Option<String>,
    pub size: String,
    pub build_time: String,
}

/// The record of an installed package, made from its category, the name of its
/// directory, the texts of its files and the maintainer that the repository names.
pub fn installed_package_from_files(
    category: &str,
    dir_name: &str,
    files: &InstalledFiles,
    maintainer: Option<String>,
) -> (r: InstalledPackage)
    ensures
        r.atom@ == (category@, split_pkg_spec(dir_name@).0),
        r.version@ == split_pkg_spec(dir_name@).1,
        r.build_time == build_time_of(files.build_time@),
        r.slot == 0,
        r.metadata@ == (MetadataView {
            maintainer: opt_view(maintainer),
            description: opt_trim(files.description),
            homepage: match files.homepage {
                Some(h) => words(h@),
                None => seq![],
            },
            license: opt_trim(files.license),
            repository: trim(files.repository@),
        }),
        r.enabled_use_flags@ == words(files.use_flags@).to_set(),
        flags_view(r.iuse@) == iuse_flags(files.iuse@),
        r.size == size_of(files.size@),
{
    let (name, version) = split_pkg(dir_name);
    let enabled_use_flags = parse_flag_set(files.use_flags.as_str());
    let iuse = parse_iuse(files.iuse.as_str());
    let repository = trimmed(files.repository.as_str());
    let homepage = match &files.homepage {
        Some(h) => split_words(h.as_str()),
        None => Vec::new(),
    };
    let license = trimmed_opt(&files.license);
    let description = trimmed_opt(&files.description);
    let size = parse_size(files.size.as_str());
    let build_time = parse_build_time(files.build_time.as_str());
    let r = InstalledPackage {
        atom: PackageKey { category: category.to_owned(), name: name.to_owned() },
        version: version.to_owned(),
        build_time,
        slot: 0,
        metadata: Metadata { maintainer, description, homepage, license, repository },
        enabled_use_flags,
        iuse,
        size,
    };
    assert(strs_view(Seq::<String>::empty()) =~= seq![]);
    r
}

} // verus!

verus! {

/// The words of the value of `key`, or none where the entry lacks the key.
pub open spec fn cache_words(data: Map<Seq<char>, Seq<char>>, key: Seq<char>) -> Seq<Seq<char>> {
    if data.contains_key(key) {
        words(data[key])
    } else {
        seq![]
    }
}

/// The value of `key`, if the entry has it.
pub open spec fn cache_value(data: Map<Seq<char>, Seq<char>>, key: Seq<char>) -> Option<Seq<char>> {
    if data.contains_key(key) {
        Some(data[key])
    } else {
        None
    }
}

fn cache_words_of(data: &CacheData, key: &str) -> (r: Vec<String>)
    ensures
        strs_view(r@) == cache_words(data@, key@),
{
    match data.get(key) {
        Some(v) => split_words(v.as_str()),
        None => {
            assert(strs_view(Seq::<String>::empty()) =~= seq![]);
            Vec::new()
        },
    }
}

fn cache_value_of(data: &CacheData, key: &str) -> (r: Option<String>)
    ensures
        opt_view(r) == cache_value(data@, key@),
{
    match data.get(key) {
        Some(v) => Some(v.clone()),
        None => None,
    }
}

/// A version of a package as a repository's metadata cache entry describes it, with
/// the maintainer that the repository names.
pub fn package_version_from_cache(
    version: &str,
    data: &CacheData,
    repository: &str,
    maintainer: Option<String>,
) -> (r: PackageVersion)
    ensures
        r@.version == version@,
        r@.metadata == (MetadataView {
            maintainer: opt_view(maintainer),
            description: cache_value(data@, "DESCRIPTION"@),
            homepage: cache_words(data@, "HOMEPAGE"@),
            license: cache_value(data@, "LICENSE"@),
            repository: repository@,
        }),
        r@.keywords == cache_words(data@, "KEYWORDS"@),
        r@.iuse == (if data@.contains_key("IUSE"@) {
            iuse_flags(data@["IUSE"@])
        } else {
            seq![]
        }),
{
    let homepage = cache_words_of(data, "HOMEPAGE");
    let keywords = cache_words_of(data, "KEYWORDS");
    let iuse = match data.get("IUSE") {
        Some(v) => parse_iuse(v.as_str()),
        None => {
            assert(flags_view(Seq::<UseFlag>::empty()) =~= seq![]);
            Vec::new()
        },
    };
    let description = cache_value_of(data, "DESCRIPTION");
    let license = cache_value_of(data, "LICENSE");
    PackageVersion {
        version: version.to_owned(),
        metadata: Metadata { maintainer, description, homepage, license, repository: repository.to_owned() },
        keywords,
        iuse,
    }
}

/// Files `version` under the package of `key`: it joins that package's versions where
/// `packages` has the key, and starts a package of its own where it has not.
pub fn add_available_version(packages: &mut Vec<Package>, key: PackageKey, version: PackageVersion)
    requires
        distinct_atoms(old(packages)@),
    ensures
        distinct_atoms(final(packages)@),
        match (choose_index_of(old(packages)@, key@)) {
            Some(i) => packages_view(final(packages)@) == packages_view(old(packages)@).update(
                i,
                (key@, versions_view(old(packages)@[i].versions@).push(version@)),
            ),
            None => packages_view(final(packages)@) == packages_view(old(packages)@).push(
                (key@, seq![version@]),
            ),
        },
{
    let n = packages.len();
    let mut i: usize = 0;
    while i < n
        invariant
            n == packages@.len(),
            i <= n,
            distinct_atoms(packages@),
            packages@ == old(packages)@,
            forall|k: int| 0 <= k < i ==> packages@[k].atom@ != key@,
        decreases n - i,
    {
        if packages[i].atom.same_as(&key) {
            proof {
                lemma_choose_index_of(packages@, key@, i as int);
            }
            let ghost before = packages@;
            let mut p = packages.remove(i);
            let ghost pv = versions_view(p.versions@);
            p.versions.push(version);
            assert(versions_view(p.versions@) =~= pv.push(version@));
            packages.insert(i, p);
            assert(packages@ =~= before.update(i as int, p));
            assert(packages_view(packages@) =~= packages_view(before).update(
                i as int,
                (key@, pv.push(version@)),
            ));
            return;
        }
        i = i + 1;
    }
    proof {
        lemma_choose_index_of_absent(packages@, key@);
    }
    let ghost before = packages@;
    let p = Package { atom: key, versions: vec![version] };
    packages.push(p);
    assert(versions_view(p.versions@) =~= seq![version@]);
    assert(packages_view(packages@) =~= packages_view(before).push(p@));
}

/// The position of the package of `key` in `v`, if `v` has one.
pub open spec fn choose_index_of(v: Seq<Package>, key: (Seq<char>, Seq<char>)) -> Option<int> {
    if exists|i: int| 0 <= i < v.len() && v[i].atom@ == key {
        Some(choose|i: int| 0 <= i < v.len() && v[i].atom@ == key)
    } else {
        None
    }
}

proof fn lemma_choose_index_of(v: Seq<Package>, key: (Seq<char>, Seq<char>), i: int)
    requires
        distinct_atoms(v),
        0 <= i < v.len(),
        v[i].atom@ == key,
    ensures
        choose_index_of(v, key) == Some(i),
{
    let j = choose|j: int| 0 <= j < v.len() && v[j].atom@ == key;
    assert(0 <= j < v.len() && v[j].atom@ == key);
}

proof fn lemma_choose_index_of_absent(v: Seq<Package>, key: (Seq<char>, Seq<char>))
    requires
        forall|k: int| 0 <= k < v.len() ==> v[k].atom@ != key,
    ensures
        choose_index_of(v, key) is None,
{
}

} // verus!

verus! {

/// The line `line` sets the key `k`: it has a `'='`, and `k` stands before the first.
pub open spec fn line_sets(line: Seq<char>, k: Seq<char>) -> bool {
    match split_once_at(line, '=') {
        Some((a, _)) => a == k,
        None => false,
    }
}

/// In a metadata cache entry a key has a value exactly when a line sets it, and its
/// value is what follows the first `'='` on the last line that sets it.
pub proof fn law_cache_last_line_wins(ls: Seq<Seq<char>>, k: Seq<char>)
    ensures
        cache_map(ls).contains_key(k) <==> exists|i: int| 0 <= i < ls.len() && line_sets(#[trigger] ls[i], k),
        cache_map(ls).contains_key(k) ==> exists|i: int|
            0 <= i < ls.len() && split_once_at(#[trigger] ls[i], '=') == Some((k, cache_map(ls)[k]))
                && forall|j: int| i < j < ls.len() ==> !line_sets(#[trigger] ls[j], k),
    decreases ls.len(),
{
    if ls.len() > 0 {
        let t = ls.drop_last();
        law_cache_last_line_wins(t, k);
        let last = ls.len() - 1;
        assert(ls[last] == ls.last());
        if line_sets(ls.last(), k) {
            assert(line_sets(ls[last], k));
        } else {
            assert(cache_map(ls).contains_key(k) == cache_map(t).contains_key(k));
            if cache_map(t).contains_key(k) {
                assert(cache_map(ls)[k] == cache_map(t)[k]);
                let i = choose|i: int|
                    0 <= i < t.len() && split_once_at(#[trigger] t[i], '=') == Some((k, cache_map(t)[k]))
                        && forall|j: int| i < j < t.len() ==> !line_sets(#[trigger] t[j], k);
                assert(ls[i] == t[i]);
                assert forall|j: int| i < j < ls.len() implies !line_sets(#[trigger] ls[j], k) by {
                    if j < last {
                        assert(ls[j] == t[j]);
                    }
                }
            }
            assert forall|i: int| 0 <= i < ls.len() && line_sets(#[trigger] ls[i], k) implies cache_map(t).contains_key(k) by {
                if i < last {
                    assert(ls[i] == t[i]);
                }
            }
            if cache_map(t).contains_key(k) {
                let i = choose|i: int| 0 <= i < t.len() && line_sets(#[trigger] t[i], k);
                assert(ls[i] == t[i]);
            }
        }
    }
}

} // verus!

verus! {

/// The world set holds a key exactly when one of the world file's words is an atom of
/// that key.
pub proof fn law_world_keys(ws: Seq<Seq<char>>, k: (Seq<char>, Seq<char>))
    ensures
        atom_keys(ws).contains(k) <==> exists|i: int| 0 <= i < ws.len() && split_once_at(#[trigger] ws[i], '/') == Some(k),
    decreases ws.len(),
{
    if ws.len() > 0 {
        let t = ws.drop_last();
        law_world_keys(t, k);
        let last = ws.len() - 1;
        assert(ws[last] == ws.last());
        assert forall|i: int| 0 <= i < t.len() implies #[trigger] ws[i] == t[i] by {}
        if atom_keys(t).contains(k) {
            let i = choose|i: int| 0 <= i < t.len() && split_once_at(#[trigger] t[i], '/') == Some(k);
            assert(ws[i] == t[i]);
        }
    }
}

} // verus!
