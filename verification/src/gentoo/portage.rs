//! What the program knows of the system: installed packages, the world set, and the
//! packages that the repositories offer.
use vstd::prelude::*;

use crate::gentoo::package::{InstalledPackage, Package, PackageKey};
use crate::gentoo::sets::PackageSet;

verus! {

/// The packages that references point to, in order.
pub open spec fn derefs<T>(v: Seq<&T>) -> Seq<T> {
    v.map_values(|p: &T| *p)
}

/// The installed packages of `s` whose key `world` holds, in order.
pub open spec fn in_world(s: Seq<InstalledPackage>, world: Set<(Seq<char>, Seq<char>)>) -> Seq<
    InstalledPackage,
>
    decreases s.len(),
{
    if s.len() == 0 {
        seq![]
    } else if world.contains(s.last().atom@) {
        in_world(s.drop_last(), world).push(s.last())
    } else {
        in_world(s.drop_last(), world)
    }
}

/// The sum of the sizes of `s`.
pub open spec fn total_size(s: Seq<InstalledPackage>) -> int
    decreases s.len(),
{
    if s.len() == 0 {
        0
    } else {
        total_size(s.drop_last()) + s.last().size
    }
}

/// The position of the first element of `s` whose key is `key`, if any.
pub open spec fn first_with_key<T>(s: Seq<T>, key: (Seq<char>, Seq<char>), key_of: spec_fn(T) -> (Seq<char>, Seq<char>)) -> Option<int> {
    if exists|i: int|
        0 <= i < s.len() && key_of(s[i]) == key && forall|j: int| 0 <= j < i ==> key_of(s[j]) != key {
        Some(
            choose|i: int|
                0 <= i < s.len() && key_of(s[i]) == key && forall|j: int|
                    0 <= j < i ==> key_of(s[j]) != key,
        )
    } else {
        None
    }
}

proof fn lemma_first_with_key<T>(
    s: Seq<T>,
    key: (Seq<char>, Seq<char>),
    key_of: spec_fn(T) -> (Seq<char>, Seq<char>),
    i: int,
)
    requires
        0 <= i < s.len(),
        key_of(s[i]) == key,
        forall|j: int| 0 <= j < i ==> key_of(s[j]) != key,
    ensures
        first_with_key(s, key, key_of) == Some(i),
{
    let k = choose|k: int|
        0 <= k < s.len() && key_of(s[k]) == key && forall|j: int| 0 <= j < k ==> key_of(s[j]) != key;
    assert(0 <= k < s.len() && key_of(s[k]) == key && forall|j: int| 0 <= j < k ==> key_of(s[j]) != key);
    if k < i {
    } else if k > i {
        assert(key_of(s[i]) != key);
    }
}

/// The key of an installed package.
pub open spec fn installed_key(p: InstalledPackage) -> (Seq<char>, Seq<char>) {
    p.atom@
}

/// The key of a package of the tree.
pub open spec fn package_key(p: Package) -> (Seq<char>, Seq<char>) {
    p.atom@
}

#[derive(Debug)]
pub struct Portage {
    installed: Vec<InstalledPackage>,
    world_set: PackageSet,
    available: Vec<Package>,
}

impl Portage {
    /// The installed packages, in the order in which they were read.
    pub closed spec fn installed_seq(&self) -> Seq<InstalledPackage> {
        self.installed@
    }

    /// The keys of the world set.
    pub closed spec fn world_view(&self) -> Set<(Seq<char>, Seq<char>)> {
        self.world_set@
    }

    /// The packages that the repositories offer.
    pub closed spec fn available_seq(&self) -> Seq<Package> {
        self.available@
    }

    pub fn new(installed: Vec<InstalledPackage>, world_set: PackageSet, available: Vec<Package>) -> (r: Self)
        ensures
            r.installed_seq() == installed@,
            r.world_view() == world_set@,
            r.available_seq() == available@,
    {
        Self { installed, world_set, available }
    }

    /// Every installed package, in order.
    pub fn installed_packages(&self) -> (r: Vec<&InstalledPackage>)
        ensures
            derefs(r@) == self.installed_seq(),
    {
        let mut out: Vec<&InstalledPackage> = Vec::new();
        let n = self.installed.len();
        let mut i: usize = 0;
        while i < n
            invariant
                n == self.installed@.len(),
                i <= n,
                derefs(out@) =~= self.installed@.take(i as int),
            decreases n - i,
        {
            out.push(&self.installed[i]);
            assert(self.installed@.take(i + 1) =~= self.installed@.take(i as int).push(self.installed@[i as int]));
            i = i + 1;
        }
        assert(self.installed@.take(n as int) =~= self.installed@);
        out
    }

    /// The number of keys in the world set.
    pub fn world_packages_len(&self) -> (r: usize)
        ensures
            r == self.world_view().len(),
    {
        self.world_set.len()
    }

    /// The installed packages whose key is in the world set, in order.
    pub fn world_packages(&self) -> (r: Vec<&InstalledPackage>)
        ensures
            derefs(r@) == in_world(self.installed_seq(), self.world_view()),
    {
        let mut out: Vec<&InstalledPackage> = Vec::new();
        let n = self.installed.len();
        let mut i: usize = 0;
        assert(self.installed@.take(0) =~= seq![]);
        while i < n
            invariant
                n == self.installed@.len(),
                i <= n,
                derefs(out@) =~= in_world(self.installed@.take(i as int), self.world_set@),
            decreases n - i,
        {
            let ghost t = self.installed@.take(i + 1);
            assert(t.drop_last() =~= self.installed@.take(i as int));
            if self.world_set.contains(&self.installed[i].atom) {
                out.push(&self.installed[i]);
            }
            i = i + 1;
        }
        assert(self.installed@.take(n as int) =~= self.installed@);
        out
    }

    /// The installed package at `index`. The first one, at 0, is never given.
    pub fn get_installed_package(&self, index: usize) -> (r: Option<&InstalledPackage>)
        ensures
            r == (if index < self.installed_seq().len() && index > 0 {
                Some(&self.installed_seq()[index as int])
            } else {
                None
            }),
    {
        if self.installed.len() > index && index > 0 {
            return Some(&self.installed[index]);
        }
        None
    }

    /// The first installed package of `key`.
    pub fn get_installed_package_key(&self, key: &PackageKey) -> (r: Option<&InstalledPackage>)
        ensures
            match first_with_key(self.installed_seq(), key@, |p: InstalledPackage| installed_key(p)) {
                Some(i) => r == Some(&self.installed_seq()[i]),
                None => r is None,
            },
    {
        let n = self.installed.len();
        let mut i: usize = 0;
        while i < n
            invariant
                n == self.installed@.len(),
                i <= n,
                forall|j: int| 0 <= j < i ==> self.installed@[j].atom@ != key@,
            decreases n - i,
        {
            if self.installed[i].atom.same_as(key) {
                proof {
                    lemma_first_with_key(self.installed@, key@, |p: InstalledPackage| installed_key(p), i as int);
                }
                return Some(&self.installed[i]);
            }
            i = i + 1;
        }
        None
    }

    /// The sum of the sizes of the installed packages.
    pub fn total_installed_size(&self) -> (r: usize)
        requires
            total_size(self.installed_seq()) <= usize::MAX,
        ensures
            r == total_size(self.installed_seq()),
    {
        let n = self.installed.len();
        let mut sum: usize = 0;
        let mut i: usize = 0;
        assert(self.installed@.take(0) =~= seq![]);
        while i < n
            invariant
                n == self.installed@.len(),
                i <= n,
                sum == total_size(self.installed@.take(i as int)),
                total_size(self.installed@) <= usize::MAX,
            decreases n - i,
        {
            proof {
                let t = self.installed@.take(i + 1);
                assert(t.drop_last() =~= self.installed@.take(i as int));
                lemma_total_size_prefix(self.installed@, i + 1);
            }
            sum = sum + self.installed[i].size;
            i = i + 1;
        }
        assert(self.installed@.take(n as int) =~= self.installed@);
        sum
    }

    /// The sum of the sizes of the installed packages, or none where the sum does not
    /// fit in `usize`.
    pub fn checked_total_installed_size(&self) -> (r: Option<usize>)
        ensures
            match r {
                Some(v) => v == total_size(self.installed_seq()),
                None => total_size(self.installed_seq()) > usize::MAX,
            },
    {
        let n = self.installed.len();
        let mut sum: usize = 0;
        let mut i: usize = 0;
        assert(self.installed@.take(0) =~= seq![]);
        while i < n
            invariant
                n == self.installed@.len(),
                i <= n,
                sum == total_size(self.installed@.take(i as int)),
            decreases n - i,
        {
            let t = Ghost(self.installed@.take(i + 1));
            assert(t@.drop_last() =~= self.installed@.take(i as int));
            match sum.checked_add(self.installed[i].size) {
                Some(v) => sum = v,
                None => {
                    proof {
                        lemma_total_size_prefix(self.installed@, i + 1);
                    }
                    return None;
                },
            }
            i = i + 1;
        }
        assert(self.installed@.take(n as int) =~= self.installed@);
        Some(sum)
    }

    /// The number of installed packages.
    pub fn installed_packages_len(&self) -> (r: usize)
        ensures
            r == self.installed_seq().len(),
    {
        self.installed.len()
    }

    /// The packages that the repositories offer.
    pub fn available_packages(&self) -> (r: &Vec<Package>)
        ensures
            r@ == self.available_seq(),
    {
        &self.available
    }

    /// The first package of the tree with key `key`.
    pub fn get_available_package(&self, key: &PackageKey) -> (r: Option<&Package>)
        ensures
            match first_with_key(self.available_seq(), key@, |p: Package| package_key(p)) {
                Some(i) => r == Some(&self.available_seq()[i]),
                None => r is None,
            },
    {
        let n = self.available.len();
        let mut i: usize = 0;
        while i < n
            invariant
                n == self.available@.len(),
                i <= n,
                forall|j: int| 0 <= j < i ==> self.available@[j].atom@ != key@,
            decreases n - i,
        {
            if self.available[i].atom.same_as(key) {
                proof {
                    lemma_first_with_key(self.available@, key@, |p: Package| package_key(p), i as int);
                }
                return Some(&self.available[i]);
            }
            i = i + 1;
        }
        None
    }
}

proof fn lemma_total_size_prefix(s: Seq<InstalledPackage>, k: int)
    requires
        0 <= k <= s.len(),
    ensures
        total_size(s.take(k)) <= total_size(s),
    decreases s.len() - k,
{
    if k < s.len() {
        lemma_total_size_prefix(s, k + 1);
        assert(s.take(k + 1).drop_last() =~= s.take(k));
    } else {
        assert(s.take(k) =~= s);
    }
}

} // verus!

verus! {

/// The world packages are exactly the installed packages whose key the world set holds,
/// in the order in which they are installed: every installed package with such a key is
/// among them, and every one of them is an installed package with such a key.
pub proof fn law_world_is_installed_filtered(s: Seq<InstalledPackage>, world: Set<(Seq<char>, Seq<char>)>)
    ensures
        in_world(s, world) == s.filter(|p: InstalledPackage| world.contains(p.atom@)),
        forall|i: int| 0 <= i < s.len() && world.contains(s[i].atom@) ==> in_world(s, world).contains(#[trigger] s[i]),
        forall|x: InstalledPackage| #[trigger] in_world(s, world).contains(x) ==> s.contains(x) && world.contains(x.atom@),
    decreases s.len(),
{
    reveal(Seq::filter);
    if s.len() > 0 {
        let t = s.drop_last();
        law_world_is_installed_filtered(t, world);
        let r = in_world(s, world);
        let rt = in_world(t, world);
        assert forall|i: int| 0 <= i < s.len() && world.contains(s[i].atom@) implies r.contains(#[trigger] s[i]) by {
            if i < s.len() - 1 {
                assert(s[i] == t[i]);
                assert(rt.contains(t[i]));
                let k = choose|k: int| 0 <= k < rt.len() && rt[k] == t[i];
                assert(r[k] == rt[k]);
            } else {
                assert(r[r.len() - 1] == s.last());
            }
        }
        assert forall|x: InstalledPackage| #[trigger] r.contains(x) implies s.contains(x) && world.contains(x.atom@) by {
            let k = choose|k: int| 0 <= k < r.len() && r[k] == x;
            if k < rt.len() {
                assert(rt[k] == x);
                assert(rt.contains(x));
                let j = choose|j: int| 0 <= j < t.len() && t[j] == x;
                assert(s[j] == x);
            } else {
                assert(x == s.last());
                assert(s[s.len() - 1] == x);
            }
        }
    }
}

/// The total size is the plain sum of the sizes of all installed records: adding a
/// record adds its size, whatever its key, and the total of two lists joined is the sum
/// of their totals.
pub proof fn law_total_size_adds(s: Seq<InstalledPackage>, t: Seq<InstalledPackage>, p: InstalledPackage)
    ensures
        total_size(s.push(p)) == total_size(s) + p.size,
        total_size(s + t) == total_size(s) + total_size(t),
    decreases t.len(),
{
    assert(s.push(p).drop_last() =~= s);
    if t.len() > 0 {
        law_total_size_adds(s, t.drop_last(), p);
        assert((s + t).drop_last() =~= s + t.drop_last());
        assert((s + t).last() == t.last());
    } else {
        assert(s + t =~= s);
    }
}

} // verus!
