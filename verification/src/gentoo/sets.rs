//! Sets without repeats: of flag names, and of package keys.
use vstd::prelude::*;

use crate::gentoo::package::PackageKey;
use crate::text::same_text;

verus! {

/// A set of USE flag names.
#[derive(Debug)]
pub struct FlagSet {
    names: Vec<String>,
}

impl View for FlagSet {
    type V = Set<Seq<char>>;

    closed spec fn view(&self) -> Set<Seq<char>> {
        self.names_view().to_set()
    }
}

impl FlagSet {
    spec fn names_view(&self) -> Seq<Seq<char>> {
        self.names@.map_values(|s: String| s@)
    }

    #[verifier::type_invariant]
    spec fn inv(&self) -> bool {
        self.names_view().no_duplicates()
    }

    /// The empty set.
    pub fn new() -> (r: Self)
        ensures
            r@ == Set::<Seq<char>>::empty(),
    {
        let r = FlagSet { names: Vec::new() };
        assert(r.names_view().to_set() =~= Set::<Seq<char>>::empty());
        r
    }

    /// Tests whether `name` is in the set.
    pub fn contains(&self, name: &str) -> (b: bool)
        ensures
            b == self@.contains(name@),
    {
        let n = self.names.len();
        let mut i: usize = 0;
        while i < n
            invariant
                n == self.names@.len(),
                i <= n,
                forall|k: int| 0 <= k < i ==> self.names@[k]@ != name@,
            decreases n - i,
        {
            if same_text(self.names[i].as_str(), name) {
                assert(self.names_view()[i as int] == name@);
                return true;
            }
            i = i + 1;
        }
        proof {
            if self.names_view().contains(name@) {
                let k = choose|k: int| 0 <= k < self.names_view().len() && self.names_view()[k] == name@;
                assert(self.names@[k]@ == name@);
            }
        }
        false
    }

    /// Adds `name`; the set is unchanged if it held it already.
    pub fn insert(&mut self, name: String)
        ensures
            final(self)@ == old(self)@.insert(name@),
    {
        proof {
            use_type_invariant(&*self);
        }
        if !self.contains(name.as_str()) {
            let ghost before = self.names_view();
            let ghost v = name@;
            let mut names: Vec<String> = Vec::new();
            std::mem::swap(&mut names, &mut self.names);
            names.push(name);
            assert(names@.map_values(|s: String| s@) =~= before.push(v));
            self.names = names;
            proof {
                before.lemma_push_to_set_commute(v);
            }
        } else {
            assert(self@.insert(name@) =~= self@);
        }
    }

    /// The number of names in the set.
    pub fn len(&self) -> (r: usize)
        ensures
            r == self@.len(),
    {
        proof {
            use_type_invariant(self);
            self.names_view().unique_seq_to_set();
        }
        self.names.len()
    }
}

} // verus!

verus! {

/// A set of package keys, such as the world set.
#[derive(Debug)]
pub struct PackageSet {
    keys: Vec<PackageKey>,
}

impl View for PackageSet {
    type V = Set<(Seq<char>, Seq<char>)>;

    closed spec fn view(&self) -> Set<(Seq<char>, Seq<char>)> {
        self.keys_view().to_set()
    }
}

impl PackageSet {
    spec fn keys_view(&self) -> Seq<(Seq<char>, Seq<char>)> {
        self.keys@.map_values(|k: PackageKey| k@)
    }

    #[verifier::type_invariant]
    spec fn inv(&self) -> bool {
        self.keys_view().no_duplicates()
    }

    /// The empty set.
    pub fn new() -> (r: Self)
        ensures
            r@ == Set::<(Seq<char>, Seq<char>)>::empty(),
    {
        let r = PackageSet { keys: Vec::new() };
        assert(r.keys_view().to_set() =~= Set::<(Seq<char>, Seq<char>)>::empty());
        r
    }

    /// Tests whether `key` is in the set.
    pub fn contains(&self, key: &PackageKey) -> (b: bool)
        ensures
            b == self@.contains(key@),
    {
        let n = self.keys.len();
        let mut i: usize = 0;
        while i < n
            invariant
                n == self.keys@.len(),
                i <= n,
                forall|k: int| 0 <= k < i ==> self.keys@[k]@ != key@,
            decreases n - i,
        {
            if self.keys[i].same_as(key) {
                assert(self.keys_view()[i as int] == key@);
                return true;
            }
            i = i + 1;
        }
        proof {
            if self.keys_view().contains(key@) {
                let k = choose|k: int|
                    0 <= k < self.keys_view().len() && self.keys_view()[k] == key@;
                assert(self.keys@[k]@ == key@);
            }
        }
        false
    }

    /// Adds `key`; the set is unchanged if it held it already.
    pub fn insert(&mut self, key: PackageKey)
        ensures
            final(self)@ == old(self)@.insert(key@),
    {
        proof {
            use_type_invariant(&*self);
        }
        if !self.contains(&key) {
            let ghost before = self.keys_view();
            let ghost v = key@;
            let mut keys: Vec<PackageKey> = Vec::new();
            std::mem::swap(&mut keys, &mut self.keys);
            keys.push(key);
            assert(keys@.map_values(|k: PackageKey| k@) =~= before.push(v));
            self.keys = keys;
            proof {
                before.lemma_push_to_set_commute(v);
            }
        } else {
            assert(self@.insert(key@) =~= self@);
        }
    }

    /// The number of keys in the set.
    pub fn len(&self) -> (r: usize)
        ensures
            r == self@.len(),
    {
        proof {
            use_type_invariant(self);
            self.keys_view().unique_seq_to_set();
        }
        self.keys.len()
    }
}

} // verus!
